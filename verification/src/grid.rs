//! Cards in rows and columns: which are drawn, which is chosen, and how their titles are cut.

use vstd::prelude::*;
use crate::filtered_list::{clones, FilteredListState};
use crate::keys::Key;
use crate::text::{chars_of, end_trimmed, owned, text_of};
use unicode_width::{UnicodeWidthChar, UnicodeWidthStr};

verus! {

/// What a key asks of a grid.
#[derive(Clone, Copy, Debug, PartialEq, Eq, Structural)]
pub enum GridStep {
    /// The key was used up.
    Consumed,
    /// The key is for someone else.
    NotConsumed,
    /// The chosen item becomes a favourite.
    AddToFavorites,
    /// The chosen item is no favourite any more.
    RemoveFromFavorites,
    /// The tracks of the chosen item go to the queue.
    AddToQueue,
    /// The chosen item is opened.
    Open,
}

/// A card that is drawn.
#[derive(Clone, Copy, Debug, PartialEq, Eq, Structural)]
pub struct Card {
    /// The place of its item among those that are shown.
    pub index: usize,
    pub x: u16,
    pub y: u16,
    pub selected: bool,
}

/// The number of rows that `count` items fill.
pub open spec fn rows_of(count: int, columns: int) -> int {
    (count + columns - 1) / columns
}

/// The row at the top once the chosen item is made visible, with the screen filled as far as it
/// can be.
pub open spec fn scrolled(
    top: int,
    selected: Option<usize>,
    count: int,
    columns: int,
    visible_rows: int,
) -> int {
    match selected {
        None => top,
        Some(index) => {
            let row = index as int / columns;
            let wanted = if row < top {
                row
            } else if row >= top + visible_rows {
                row - (visible_rows - 1)
            } else {
                top
            };
            let last = if rows_of(count, columns) > visible_rows {
                rows_of(count, columns) - visible_rows
            } else {
                0
            };
            if wanted < last {
                wanted
            } else {
                last
            }
        },
    }
}

/// The item that is chosen once the choice was moved, within the list.
pub open spec fn moved_choice(selected: Option<usize>, delta: int, count: int) -> Option<usize> {
    if count == 0 {
        selected
    } else {
        let from = match selected {
            Some(index) => index as int,
            None => 0,
        };
        let wanted = from + delta;
        Some(
            (if wanted < 0 {
                0
            } else if wanted > count - 1 {
                count - 1
            } else {
                wanted
            }) as usize,
        )
    }
}

/// How far a key moves the choice.
pub open spec fn key_delta(key: Key, columns: int) -> Option<int> {
    match key {
        Key::Right => Some(1),
        Key::Left => Some(-1),
        Key::Down => Some(columns),
        Key::Up => Some(-columns),
        Key::Char(c) => if c == 'l' {
            Some(1)
        } else if c == 'h' {
            Some(-1)
        } else if c == 'j' {
            Some(columns)
        } else if c == 'k' {
            Some(-columns)
        } else {
            None
        },
        _ => None,
    }
}

/// What a key asks to be done with the chosen item.
pub open spec fn key_request(key: Key) -> Option<GridStep> {
    match key {
        Key::Enter => Some(GridStep::Open),
        Key::Char(c) => if c == 'A' {
            Some(GridStep::AddToFavorites)
        } else if c == 'U' {
            Some(GridStep::RemoveFromFavorites)
        } else if c == 'B' {
            Some(GridStep::AddToQueue)
        } else if c == 'i' {
            Some(GridStep::Open)
        } else {
            None
        },
        _ => None,
    }
}

/// Items as cards. An item is chosen wherever there is one.
pub struct Grid<T> {
    items: FilteredListState<T>,
    scroll_row: usize,
    columns: usize,
}

impl<T: Clone> Default for Grid<T> {
    fn default() -> (r: Grid<T>)
        ensures
            r.wf(),
            r.items() == Seq::<T>::empty(),
            r.shown() == Seq::<T>::empty(),
            r.choice() is None,
            r.top() == 0,
            r.row_length() == 0,
    {
        Grid { items: FilteredListState::default(), scroll_row: 0, columns: 0 }
    }
}

impl<T: Clone> Grid<T> {
    /// The items that are shown.
    pub closed spec fn shown(&self) -> Seq<T> {
        self.items.shown()
    }

    /// All items.
    pub closed spec fn items(&self) -> Seq<T> {
        self.items.items()
    }

    /// The place of the chosen item.
    pub closed spec fn choice(&self) -> Option<usize> {
        self.items.row().selected
    }

    /// The row at the top.
    pub closed spec fn top(&self) -> int {
        self.scroll_row as int
    }

    /// The number of cards in a row; none before the grid is laid out.
    pub closed spec fn row_length(&self) -> int {
        self.columns as int
    }

    /// An item is chosen unless none is shown; then the grid stands at its top.
    pub open spec fn wf(&self) -> bool {
        &&& 0 <= self.row_length() <= 65535
        &&& match self.choice() {
            Some(index) => index < self.shown().len(),
            None => self.shown().len() == 0 && self.top() == 0,
        }
    }

    pub fn new(items: Vec<T>) -> (r: Self)
        ensures
            r.wf(),
            r.items() == items@,
            clones(items@, r.shown()),
            r.top() == 0,
            r.row_length() == 1,
            r.choice() == if items@.len() > 0 {
                Some(0usize)
            } else {
                None
            },
    {
        let mut list = FilteredListState::new(items);
        if list.filter().len() > 0 {
            let mut state = list.state();
            state.select(Some(0));
            list.set_state(state);
        }
        Grid { items: list, scroll_row: 0, columns: 1 }
    }

    /// The cards to draw in an area, and none where it has no room for one. The chosen card is
    /// among them.
    pub fn layout(
        &mut self,
        area_x: u16,
        area_y: u16,
        area_width: u16,
        area_height: u16,
        card_width: u16,
        card_height: u16,
    ) -> (r: Vec<Card>)
        requires
            old(self).wf(),
            card_width > 0,
            card_height > 0,
            area_x + area_width <= u16::MAX,
            area_y + area_height <= u16::MAX,
        ensures
            final(self).wf(),
            final(self).items() == old(self).items(),
            final(self).shown() == old(self).shown(),
            final(self).choice() == old(self).choice(),
            if area_width < card_width || area_height < card_height {
                r@.len() == 0 && *final(self) == *old(self)
            } else {
                let columns = area_width as int / card_width as int;
                let rows = area_height as int / card_height as int;
                let top = scrolled(
                    old(self).top(),
                    old(self).choice(),
                    old(self).shown().len() as int,
                    columns,
                    rows,
                );
                let first = top * columns;
                let end = if first + rows * columns < old(self).shown().len() {
                    first + rows * columns
                } else {
                    old(self).shown().len() as int
                };
                &&& final(self).row_length() == columns
                &&& final(self).top() == top
                &&& r@.len() == if first < end {
                    end - first
                } else {
                    0
                }
                &&& forall|k: int|
                    0 <= k < r@.len() ==> {
                        &&& (#[trigger] r@[k]).index == first + k
                        &&& r@[k].x == area_x + ((first + k) % columns) * card_width
                        &&& r@[k].y == area_y + ((first + k) / columns - top) * card_height
                        &&& r@[k].selected <==> old(self).choice() == Some(r@[k].index)
                    }
                &&& old(self).choice() matches Some(index) ==> first <= index < end
            },
    {
        let mut cards: Vec<Card> = Vec::new();
        if area_width < card_width || area_height < card_height {
            return cards;
        }
        let ghost before = *self;
        let columns: usize = (area_width / card_width) as usize;
        let rows: usize = (area_height / card_height) as usize;
        proof {
            vstd::arithmetic::div_mod::lemma_div_non_zero(area_width as int, card_width as int);
            vstd::arithmetic::div_mod::lemma_div_non_zero(area_height as int, card_height as int);
            vstd::arithmetic::div_mod::lemma_div_is_ordered_by_denominator(
                area_width as int,
                1,
                card_width as int,
            );
            vstd::arithmetic::div_mod::lemma_div_is_ordered_by_denominator(
                area_height as int,
                1,
                card_height as int,
            );
        }
        self.columns = columns;
        self.update_scroll(rows);
        let count: usize = self.items.filter().len();
        let selected: Option<usize> = self.items.state().selected;
        let top: usize = self.scroll_row;
        let ghost n = count as int;
        let ghost c = columns as int;
        proof {
            lemma_top_is_in_range(n, c, rows as int, before.top(), selected);
            assert(0 <= rows * columns <= 65535 * 65535) by (nonlinear_arith)
                requires
                    0 <= rows <= 65535,
                    0 <= columns <= 65535,
            ;
        }
        let first: usize = top * columns;
        let span: usize = rows * columns;
        let past: usize = first.saturating_add(span);
        let end: usize = if past < count {
            past
        } else {
            count
        };
        assert(end == if first + rows * columns < n {
            first + rows * columns
        } else {
            n
        });
        let mut index: usize = first;
        while index < end
            invariant
                first <= index,
                index <= end || index == first,
                end <= count,
                end <= first + span,
                span == rows * columns,
                first == top * columns,
                1 <= columns,
                columns == area_width as int / card_width as int,
                rows == area_height as int / card_height as int,
                card_width > 0,
                card_height > 0,
                area_x + area_width <= u16::MAX,
                area_y + area_height <= u16::MAX,
                cards@.len() == index - first,
                forall|k: int|
                    0 <= k < cards@.len() ==> {
                        &&& (#[trigger] cards@[k]).index == first + k
                        &&& cards@[k].x == area_x + ((first + k) % columns as int) * card_width
                        &&& cards@[k].y == area_y + ((first + k) / columns as int - top)
                            * card_height
                        &&& cards@[k].selected <==> selected == Some(cards@[k].index)
                    },
            decreases end - index,
        {
            let row: usize = index / columns;
            let column: usize = index % columns;
            proof {
                lemma_card_is_inside(
                    index as int,
                    columns as int,
                    top as int,
                    rows as int,
                    card_width as int,
                    card_height as int,
                    area_width as int,
                    area_height as int,
                );
            }
            let x: u16 = area_x + column as u16 * card_width;
            let y: u16 = area_y + (row - top) as u16 * card_height;
            let is_selected = match selected {
                Some(chosen) => chosen == index,
                None => false,
            };
            cards.push(Card { index, x, y, selected: is_selected });
            index = index + 1;
        }
        cards
    }

    /// What a key does: it moves the choice, or asks for something to be done with it.
    pub fn handle_key(&mut self, key: Key) -> (r: GridStep)
        requires
            old(self).wf(),
        ensures
            final(self).wf(),
            final(self).items() == old(self).items(),
            final(self).shown() == old(self).shown(),
            final(self).top() == old(self).top(),
            final(self).row_length() == old(self).row_length(),
            match key_delta(key, old(self).row_length()) {
                Some(delta) => r == GridStep::Consumed && final(self).choice() == moved_choice(
                    old(self).choice(),
                    delta,
                    old(self).shown().len() as int,
                ),
                None => final(self).choice() == old(self).choice() && r == match key_request(key) {
                    Some(step) => if old(self).choice() is Some {
                        step
                    } else {
                        GridStep::Consumed
                    },
                    None => GridStep::NotConsumed,
                },
            },
    {
        let columns: i64 = self.columns as i64;
        let step: GridStep = match key {
            Key::Right => {
                self.move_selection(1);
                return GridStep::Consumed;
            },
            Key::Left => {
                self.move_selection(-1);
                return GridStep::Consumed;
            },
            Key::Down => {
                self.move_selection(columns);
                return GridStep::Consumed;
            },
            Key::Up => {
                self.move_selection(-columns);
                return GridStep::Consumed;
            },
            Key::Enter => GridStep::Open,
            Key::Char(c) => {
                if c == 'l' {
                    self.move_selection(1);
                    return GridStep::Consumed;
                } else if c == 'h' {
                    self.move_selection(-1);
                    return GridStep::Consumed;
                } else if c == 'j' {
                    self.move_selection(columns);
                    return GridStep::Consumed;
                } else if c == 'k' {
                    self.move_selection(-columns);
                    return GridStep::Consumed;
                } else if c == 'A' {
                    GridStep::AddToFavorites
                } else if c == 'U' {
                    GridStep::RemoveFromFavorites
                } else if c == 'B' {
                    GridStep::AddToQueue
                } else if c == 'i' {
                    GridStep::Open
                } else {
                    return GridStep::NotConsumed;
                }
            },
            _ => {
                return GridStep::NotConsumed;
            },
        };
        if self.selected().is_some() {
            step
        } else {
            GridStep::Consumed
        }
    }

    /// The chosen item.
    pub fn selected(&self) -> (r: Option<&T>)
        requires
            self.wf(),
        ensures
            match r {
                Some(item) => self.choice() is Some && *item
                    == self.shown()[self.choice()->Some_0 as int],
                None => self.choice() is None,
            },
    {
        match self.items.state().selected {
            Some(index) => {
                let shown = self.items.filter();
                Some(&shown[index])
            },
            None => None,
        }
    }

    pub fn filter(&self) -> (r: &[T])
        ensures
            r@ == self.shown(),
    {
        self.items.filter()
    }

    pub fn all_items(&self) -> (r: &[T])
        ensures
            r@ == self.items(),
    {
        self.items.all_items()
    }

    /// Shows the given items, from the first.
    pub fn set_filter(&mut self, items: Vec<T>)
        requires
            old(self).wf(),
        ensures
            final(self).wf(),
            final(self).items() == old(self).items(),
            final(self).shown() == items@,
            final(self).top() == 0,
            final(self).choice() == if items@.len() > 0 {
                Some(0usize)
            } else {
                None
            },
            final(self).row_length() == old(self).row_length(),
    {
        self.items.set_filter(items);
        self.reset_view();
    }

    /// Replaces all items, and shows them from the first.
    pub fn set_all_items(&mut self, items: Vec<T>)
        requires
            old(self).wf(),
        ensures
            final(self).wf(),
            clones(items@, final(self).items()),
            final(self).shown() == items@,
            final(self).top() == 0,
            final(self).choice() == if items@.len() > 0 {
                Some(0usize)
            } else {
                None
            },
            final(self).row_length() == old(self).row_length(),
    {
        self.items.set_all_items(items);
        self.reset_view();
    }

    fn move_selection(&mut self, delta: i64)
        requires
            old(self).wf(),
            -65535 <= delta <= 65535,
        ensures
            final(self).wf(),
            final(self).items() == old(self).items(),
            final(self).shown() == old(self).shown(),
            final(self).top() == old(self).top(),
            final(self).row_length() == old(self).row_length(),
            final(self).choice() == moved_choice(
                old(self).choice(),
                delta as int,
                old(self).shown().len() as int,
            ),
    {
        let count: usize = self.items.filter().len();
        if count == 0 {
            return ;
        }
        let mut state = self.items.state();
        let current: usize = match state.selected {
            Some(index) => index,
            None => 0,
        };
        let wanted: usize = if delta < 0 {
            current.saturating_sub((-delta) as usize)
        } else {
            current.saturating_add(delta as usize)
        };
        let next: usize = if wanted < count - 1 {
            wanted
        } else {
            count - 1
        };
        state.select(Some(next));
        self.items.set_state(state);
    }

    fn update_scroll(&mut self, visible_rows: usize)
        requires
            old(self).wf(),
            old(self).row_length() > 0,
            visible_rows > 0,
        ensures
            final(self).wf(),
            final(self).items == old(self).items,
            final(self).columns == old(self).columns,
            final(self).top() == scrolled(
                old(self).top(),
                old(self).choice(),
                old(self).shown().len() as int,
                old(self).row_length(),
                visible_rows as int,
            ),
    {
        let selected: usize = match self.items.state().selected {
            Some(index) => index,
            None => {
                return ;
            },
        };
        let row: usize = selected / self.columns;
        if row < self.scroll_row {
            self.scroll_row = row;
        } else if row - self.scroll_row >= visible_rows {
            self.scroll_row = row - (visible_rows - 1);
        }
        let count: usize = self.items.filter().len();
        let columns: usize = self.columns;
        let whole: usize = count / columns;
        proof {
            lemma_rows(count as int, columns as int);
            vstd::arithmetic::div_mod::lemma_div_is_ordered_by_denominator(
                count as int,
                1,
                columns as int,
            );
        }
        let total_rows: usize = if count % columns == 0 {
            whole
        } else {
            whole + 1
        };
        let last: usize = total_rows.saturating_sub(visible_rows);
        if self.scroll_row > last {
            self.scroll_row = last;
        }
    }

    fn reset_view(&mut self)
        requires
            0 <= old(self).row_length() <= 65535,
        ensures
            final(self).wf(),
            final(self).items() == old(self).items(),
            final(self).shown() == old(self).shown(),
            final(self).row_length() == old(self).row_length(),
            final(self).top() == 0,
            final(self).choice() == if old(self).shown().len() > 0 {
                Some(0usize)
            } else {
                None
            },
    {
        self.scroll_row = 0;
        let mut state = self.items.state();
        if self.items.filter().len() > 0 {
            state.select(Some(0));
        } else {
            state.select(None);
        }
        self.items.set_state(state);
    }
}

proof fn lemma_rows(count: int, columns: int)
    requires
        count >= 0,
        columns >= 1,
    ensures
        rows_of(count, columns) == if count % columns == 0 {
            count / columns
        } else {
            count / columns + 1
        },
        count % columns != 0 ==> count / columns < count,
{
    let q = count / columns;
    let m = count % columns;
    vstd::arithmetic::div_mod::lemma_fundamental_div_mod(count, columns);
    vstd::arithmetic::div_mod::lemma_mod_bound(count, columns);
    if m == 0 {
        assert(count + columns - 1 == columns * q + (columns - 1));
        vstd::arithmetic::div_mod::lemma_fundamental_div_mod_converse(
            count + columns - 1,
            columns,
            q,
            columns - 1,
        );
    } else {
        assert(columns * (q + 1) == columns * q + columns) by (nonlinear_arith);
        vstd::arithmetic::div_mod::lemma_fundamental_div_mod_converse(
            count + columns - 1,
            columns,
            q + 1,
            m - 1,
        );
        if q >= count {
            assert(columns * q >= q) by (nonlinear_arith)
                requires
                    columns >= 1,
                    q >= 0,
            ;
        }
        assert(q >= 0) by (nonlinear_arith)
            requires
                count == columns * q + m,
                0 <= m < columns,
                count >= 0,
        ;
    }
}

/// The row at the top starts within the list, and the chosen item stands in a visible row.
proof fn lemma_top_is_in_range(
    count: int,
    columns: int,
    rows: int,
    top: int,
    selected: Option<usize>,
)
    requires
        count >= 0,
        columns >= 1,
        rows >= 1,
        top >= 0,
        match selected {
            Some(index) => index < count,
            None => count == 0 && top == 0,
        },
    ensures
        ({
            let t = scrolled(top, selected, count, columns, rows);
            &&& t >= 0
            &&& 0 <= t * columns <= count
            &&& selected matches Some(index) ==> t * columns <= index < t * columns + rows
                * columns
        }),
{
    let t = scrolled(top, selected, count, columns, rows);
    match selected {
        None => {
            assert(t * columns == 0) by (nonlinear_arith)
                requires
                    t == 0,
            ;
        },
        Some(chosen) => {
            let index = chosen as int;
            let row = index / columns;
            let total = rows_of(count, columns);
            lemma_rows(count, columns);
            vstd::arithmetic::div_mod::lemma_fundamental_div_mod(index, columns);
            vstd::arithmetic::div_mod::lemma_mod_bound(index, columns);
            vstd::arithmetic::div_mod::lemma_fundamental_div_mod(count, columns);
            vstd::arithmetic::div_mod::lemma_mod_bound(count, columns);
            let q = count / columns;
            let m = count % columns;
            let im = index % columns;
            assert(row >= 0) by (nonlinear_arith)
                requires
                    index == columns * row + im,
                    0 <= im < columns,
                    index >= 0,
            ;
            assert(row < total) by (nonlinear_arith)
                requires
                    index == columns * row + im,
                    count == columns * q + m,
                    0 <= im < columns,
                    0 <= m < columns,
                    index < count,
                    total == if m == 0 {
                        q
                    } else {
                        q + 1
                    },
                    columns >= 1,
            ;
            assert(t <= row && row < t + rows);
            assert(t * columns <= index && index < t * columns + rows * columns) by (
            nonlinear_arith)
                requires
                    index == columns * row + im,
                    0 <= im < columns,
                    t <= row,
                    row < t + rows,
                    columns >= 1,
            ;
            assert(0 <= t * columns) by (nonlinear_arith)
                requires
                    t >= 0,
                    columns >= 1,
            ;
        },
    }
}

/// A card in a visible row stands inside the area.
proof fn lemma_card_is_inside(
    index: int,
    columns: int,
    top: int,
    rows: int,
    card_width: int,
    card_height: int,
    area_width: int,
    area_height: int,
)
    requires
        card_width > 0,
        card_height > 0,
        area_width >= 0,
        area_height >= 0,
        columns == area_width / card_width,
        rows == area_height / card_height,
        columns >= 1,
        top >= 0,
        top * columns <= index < top * columns + rows * columns,
    ensures
        top <= index / columns < top + rows,
        0 <= index % columns < columns,
        columns <= area_width,
        rows <= area_height,
        0 <= (index % columns) * card_width <= area_width,
        0 <= (index / columns - top) * card_height <= area_height,
{
    vstd::arithmetic::div_mod::lemma_fundamental_div_mod(index, columns);
    vstd::arithmetic::div_mod::lemma_mod_bound(index, columns);
    vstd::arithmetic::div_mod::lemma_fundamental_div_mod(area_width, card_width);
    vstd::arithmetic::div_mod::lemma_mod_bound(area_width, card_width);
    vstd::arithmetic::div_mod::lemma_fundamental_div_mod(area_height, card_height);
    vstd::arithmetic::div_mod::lemma_mod_bound(area_height, card_height);
    let row = index / columns;
    let column = index % columns;
    let wm = area_width % card_width;
    let hm = area_height % card_height;
    assert(top <= row && row < top + rows) by (nonlinear_arith)
        requires
            index == columns * row + column,
            0 <= column < columns,
            top * columns <= index,
            index < top * columns + rows * columns,
            columns >= 1,
    ;
    assert(0 <= column * card_width <= area_width && columns <= area_width) by (nonlinear_arith)
        requires
            area_width == card_width * columns + wm,
            0 <= wm < card_width,
            0 <= column < columns,
            card_width > 0,
    ;
    let line = row - top;
    assert(0 <= line * card_height <= area_height && rows <= area_height) by (nonlinear_arith)
        requires
            area_height == card_height * rows + hm,
            0 <= hm < card_height,
            0 <= line < rows,
            card_height > 0,
    ;
}

/// The columns of a terminal that a text fills, by `unicode_width`.
pub uninterp spec fn display_width(s: Seq<char>) -> usize;

/// The columns of a terminal that a character fills, by `unicode_width`. A control character has
/// no width.
pub uninterp spec fn char_display_width(c: char) -> Option<usize>;

/// `UnicodeWidthStr::width`: the columns that a text fills, told by the text alone.
#[verifier::external_body]
fn text_width(s: &str) -> (r: usize)
    ensures
        r == display_width(s@),
{
    UnicodeWidthStr::width(s)
}

/// `UnicodeWidthChar::width`: the columns that a character fills, told by the character alone.
#[verifier::external_body]
fn char_width(c: char) -> (r: Option<usize>)
    ensures
        r == char_display_width(c),
{
    UnicodeWidthChar::width(c)
}

/// The columns that a character fills; none for one without a width.
pub open spec fn cell_width(c: char) -> usize {
    match char_display_width(c) {
        Some(width) => width,
        None => 0,
    }
}

/// How many of the first characters fit, given their widths.
pub open spec fn fitting(widths: Seq<usize>, room: int, at: int) -> int
    decreases widths.len() - at,
{
    if at < 0 || at >= widths.len() || widths[at] > room {
        at
    } else {
        fitting(widths, room - widths[at], at + 1)
    }
}

/// The sum of widths.
pub open spec fn total_width(widths: Seq<usize>) -> int
    decreases widths.len(),
{
    if widths.len() == 0 {
        0
    } else {
        total_width(widths.drop_last()) + widths.last()
    }
}

/// A text that is cut to `max_width`, with an ellipsis at its end, unless it fits. Where even the
/// ellipsis does not fit nothing is left.
pub open spec fn cut(
    value: Seq<char>,
    max_width: int,
    width: int,
    ellipsis_width: int,
    widths: Seq<usize>,
) -> Seq<char> {
    if width <= max_width {
        value
    } else if max_width == 0 || max_width < ellipsis_width {
        Seq::empty()
    } else {
        end_trimmed(value.take(fitting(widths, max_width - ellipsis_width, 0))) + "…"@
    }
}

/// Cuts a text whose width, and whose characters' widths, are known.
pub fn cut_to_width(
    value: &str,
    max_width: usize,
    width: usize,
    ellipsis_width: usize,
    widths: &Vec<usize>,
) -> (r: String)
    requires
        widths@.len() == value@.len(),
    ensures
        r@ == cut(value@, max_width as int, width as int, ellipsis_width as int, widths@),
{
    if width <= max_width {
        return owned(value);
    }
    if max_width == 0 || max_width < ellipsis_width {
        return String::new();
    }
    let chars = chars_of(value);
    let mut room: usize = max_width - ellipsis_width;
    let ghost whole = room as int;
    let mut kept: usize = 0;
    while kept < chars.len() && widths[kept] <= room
        invariant
            chars@ == value@,
            widths@.len() == chars@.len(),
            kept <= chars@.len(),
            fitting(widths@, whole, 0) == fitting(widths@, room as int, kept as int),
        decreases chars@.len() - kept,
    {
        room = room - widths[kept];
        kept = kept + 1;
    }
    let ghost prefix = chars@.take(kept as int);
    let mut end: usize = kept;
    assert(chars@.take(end as int) =~= prefix);
    while end > 0 && chars[end - 1].is_whitespace()
        invariant
            end <= kept <= chars@.len(),
            end_trimmed(prefix) == end_trimmed(chars@.take(end as int)),
        decreases end,
    {
        assert(chars@.take(end as int).drop_last() =~= chars@.take(end - 1));
        end = end - 1;
    }
    assert(end_trimmed(prefix) == chars@.take(end as int));
    let head = text_of(&chars, 0, end);
    assert(head@ =~= chars@.take(end as int));
    head.concat("…")
}

/// Cuts a text to the columns of a terminal.
pub fn truncate_to_width(value: &str, max_width: usize) -> (r: String)
    ensures
        r@ == cut(
            value@,
            max_width as int,
            display_width(value@) as int,
            display_width("…"@) as int,
            Seq::new(value@.len(), |i: int| cell_width(value@[i])),
        ),
{
    let chars = chars_of(value);
    let mut widths: Vec<usize> = Vec::new();
    for i in 0..chars.len()
        invariant
            chars@ == value@,
            widths@.len() == i,
            forall|j: int| 0 <= j < i ==> #[trigger] widths@[j] == cell_width(value@[j]),
    {
        let width: usize = match char_width(chars[i]) {
            Some(width) => width,
            None => 0,
        };
        widths.push(width);
    }
    assert(widths@ =~= Seq::new(value@.len(), |i: int| cell_width(value@[i])));
    cut_to_width(value, max_width, text_width(value), text_width("…"), &widths)
}

/// The width that a card leaves to its title, beside the marks that follow it.
pub open spec fn title_room(area_width: int, marked_width: int, title_width: int) -> int {
    let marks = if marked_width > title_width {
        marked_width - title_width
    } else {
        0
    };
    if area_width > marks {
        area_width - marks
    } else {
        0
    }
}

/// The title on a card, cut so that the marks that follow it fit too. `marked_width` is the width
/// of the whole title with its marks.
pub fn card_title(title: &str, area_width: u16, marked_width: usize) -> (r: String)
    ensures
        r@ == cut(
            title@,
            title_room(area_width as int, marked_width as int, display_width(title@) as int),
            display_width(title@) as int,
            display_width("…"@) as int,
            Seq::new(title@.len(), |i: int| cell_width(title@[i])),
        ),
{
    let marks: usize = marked_width.saturating_sub(text_width(title));
    truncate_to_width(title, (area_width as usize).saturating_sub(marks))
}

proof fn lemma_fitting(widths: Seq<usize>, room: int, at: int)
    requires
        0 <= at <= widths.len(),
        room >= 0,
    ensures
        at <= fitting(widths, room, at) <= widths.len(),
        total_width(widths.take(fitting(widths, room, at))) <= total_width(widths.take(at)) + room,
    decreases widths.len() - at,
{
    if at < widths.len() && widths[at] <= room {
        lemma_fitting(widths, room - widths[at], at + 1);
        assert(widths.take(at + 1).drop_last() =~= widths.take(at));
    }
}

/// A text that was cut fills no more columns than it may: those of the characters that were kept
/// and of the ellipsis together.
pub proof fn law_what_is_kept_fits(widths: Seq<usize>, max_width: int, ellipsis_width: int)
    requires
        0 <= ellipsis_width <= max_width,
    ensures
        ({
            let kept = fitting(widths, max_width - ellipsis_width, 0);
            &&& 0 <= kept <= widths.len()
            &&& total_width(widths.take(kept)) + ellipsis_width <= max_width
        }),
{
    lemma_fitting(widths, max_width - ellipsis_width, 0);
}

} // verus!
