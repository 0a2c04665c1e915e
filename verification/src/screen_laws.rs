//! What holds of cards in rows and columns, and of big texts on the screen.

use vstd::prelude::*;
use crate::full_screen::{
    artist_line, cover_bounds, ellipsize, entity_sizes, fit_text, fitted, fits, heights_fit,
    icon_place, info_plan, info_rows, info_width, law_lines_respect_the_width,
    law_wrapping_splits_no_word, lines_of, plain_title, position_labels, room_for, spaced,
    split_words, status_icon, title_sizes, words, wrap_big_text, wrapped, BigTextSize, FittedText,
    FittedView, InfoPlan, PixelSize, Place,
};
use crate::grid::{
    card_title, cell_width, cut_to_width, display_width, fitting, rows_of, scrolled, total_width,
    truncate_to_width, Card, Grid, GridStep,
};
use crate::keys::Key;
use crate::models::Status;
use crate::text::{end_trimmed, is_white_space, text_view, views};
use crate::text_laws::{lemma_decimal, lemma_end_trimmed, value_of};

verus! {

/// Keys move the choice by one item to the right or left and by one row down or up, and never off
/// the list.
pub proof fn law_keys_move_the_choice<T: Clone>(
    grid: &mut Grid<T>,
    key: Key,
    at: usize,
    r: GridStep,
)
    requires
        old(grid).wf(),
        call_ensures(Grid::<T>::handle_key, (grid, key), r),
        old(grid).choice() == Some(at),
        old(grid).shown().len() <= usize::MAX,
        key == Key::Right || key == Key::Left || key == Key::Down || key == Key::Up || key
            == Key::Char('l') || key == Key::Char('h') || key == Key::Char('j') || key
            == Key::Char('k'),
    ensures
        r == GridStep::Consumed,
        ({
            let last = old(grid).shown().len() - 1;
            let row = old(grid).row_length();
            let by = if key == Key::Right || key == Key::Char('l') {
                1
            } else if key == Key::Left || key == Key::Char('h') {
                -1
            } else if key == Key::Down || key == Key::Char('j') {
                row
            } else {
                -row
            };
            final(grid).choice() matches Some(to) && {
                &&& 0 <= at + by <= last ==> to == at + by
                &&& at + by < 0 ==> to == 0
                &&& at + by > last ==> to == last
            }
        }),
        final(grid).shown() == old(grid).shown(),
{
}

/// The other keys ask for something to be done with the chosen item, or are for someone else.
pub proof fn law_keys_ask_for_the_chosen_item<T: Clone>(grid: &mut Grid<T>, key: Key, r: GridStep)
    requires
        old(grid).wf(),
        call_ensures(Grid::<T>::handle_key, (grid, key), r),
        old(grid).choice() is Some,
    ensures
        key == Key::Enter || key == Key::Char('i') ==> r == GridStep::Open,
        key == Key::Char('A') ==> r == GridStep::AddToFavorites,
        key == Key::Char('U') ==> r == GridStep::RemoveFromFavorites,
        key == Key::Char('B') ==> r == GridStep::AddToQueue,
        key == Key::Esc || key == Key::Backspace || key == Key::Delete || key == Key::Home || key
            == Key::End || key == Key::Other ==> r == GridStep::NotConsumed,
        key matches Key::Char(c) ==> (!seq!['l', 'h', 'j', 'k', 'A', 'U', 'B', 'i'].contains(c) ==> r
            == GridStep::NotConsumed),
        r != GridStep::Consumed ==> final(grid).choice() == old(grid).choice(),
{
    if let Key::Char(c) = key {
        let known = seq!['l', 'h', 'j', 'k', 'A', 'U', 'B', 'i'];
        if !known.contains(c) {
            assert(known[0] != c && known[1] != c && known[2] != c && known[3] != c);
            assert(known[4] != c && known[5] != c && known[6] != c && known[7] != c);
        }
    }
}

/// The chosen card is drawn, and every card stands inside the area.
pub proof fn law_the_chosen_card_is_drawn<T: Clone>(
    grid: &mut Grid<T>,
    x: u16,
    y: u16,
    width: u16,
    height: u16,
    card_width: u16,
    card_height: u16,
    r: Vec<Card>,
    chosen: usize,
)
    requires
        old(grid).wf(),
        card_width > 0,
        card_height > 0,
        x + width <= u16::MAX,
        y + height <= u16::MAX,
        width >= card_width,
        height >= card_height,
        call_ensures(
            Grid::<T>::layout,
            (grid, x, y, width, height, card_width, card_height),
            r,
        ),
        old(grid).choice() == Some(chosen),
    ensures
        exists|k: int| 0 <= k < r@.len() && (#[trigger] r@[k]).index == chosen && r@[k].selected,
        forall|k: int|
            0 <= k < r@.len() ==> ((#[trigger] r@[k]).selected <==> r@[k].index == chosen),
        forall|k: int|
            0 <= k < r@.len() ==> (#[trigger] r@[k]).index == r@[0].index + k && r@[k].index < old(grid).shown().len(),
        final(grid).choice() == old(grid).choice(),
{
    let columns = width as int / card_width as int;
    let rows = height as int / card_height as int;
    let top = scrolled(
        old(grid).top(),
        old(grid).choice(),
        old(grid).shown().len() as int,
        columns,
        rows,
    );
    let first = top * columns;
    let k = chosen - first;
    assert(0 <= k < r@.len());
    assert(r@[k].index == first + k);
    assert(r@[0].index == first);
    assert forall|k: int| 0 <= k < r@.len() implies (#[trigger] r@[k]).index == r@[0].index + k
        && r@[k].index < old(grid).shown().len() by {
        assert(r@[k].index == first + k);
    }
}

/// Cards stand side by side and row below row: two of them that follow each other are a card apart,
/// or the second starts a new row.
pub proof fn law_cards_stand_side_by_side<T: Clone>(
    grid: &mut Grid<T>,
    x: u16,
    y: u16,
    width: u16,
    height: u16,
    card_width: u16,
    card_height: u16,
    r: Vec<Card>,
    k: int,
)
    requires
        old(grid).wf(),
        card_width > 0,
        card_height > 0,
        x + width <= u16::MAX,
        y + height <= u16::MAX,
        width >= card_width,
        height >= card_height,
        call_ensures(
            Grid::<T>::layout,
            (grid, x, y, width, height, card_width, card_height),
            r,
        ),
        0 <= k < r@.len() - 1,
    ensures
        ({
            let columns = width as int / card_width as int;
            &&& r@[0].x == x
            &&& r@[0].y == y
            &&& if (k + 1) % columns == 0 {
                r@[k + 1].x == x && r@[k + 1].y == r@[k].y + card_height
            } else {
                r@[k + 1].x == r@[k].x + card_width && r@[k + 1].y == r@[k].y
            }
        }),
{
    let columns = width as int / card_width as int;
    let rows = height as int / card_height as int;
    let top = scrolled(
        old(grid).top(),
        old(grid).choice(),
        old(grid).shown().len() as int,
        columns,
        rows,
    );
    let first = top * columns;
    vstd::arithmetic::div_mod::lemma_div_non_zero(width as int, card_width as int);
    assert(r@[0].index == first + 0);
    assert(r@[k].index == first + k);
    assert(r@[k + 1].index == first + (k + 1));
    lemma_in_rows(top, columns, 0);
    lemma_in_rows(top, columns, k);
    lemma_in_rows(top, columns, k + 1);
    let w = card_width as int;
    let h = card_height as int;
    vstd::arithmetic::div_mod::lemma_fundamental_div_mod(k, columns);
    vstd::arithmetic::div_mod::lemma_mod_bound(k, columns);
    let q = k / columns;
    let m = k % columns;
    if m + 1 == columns {
        assert(k + 1 == columns * (q + 1)) by (nonlinear_arith)
            requires
                k == columns * q + m,
                m + 1 == columns,
        ;
        vstd::arithmetic::div_mod::lemma_fundamental_div_mod_converse(k + 1, columns, q + 1, 0);
        assert((q + 1) * h == q * h + h) by (nonlinear_arith);
    } else {
        vstd::arithmetic::div_mod::lemma_fundamental_div_mod_converse(k + 1, columns, q, m + 1);
        assert((m + 1) * w == m * w + w) by (nonlinear_arith);
    }
    assert(0 * w == 0 && 0 * h == 0) by (nonlinear_arith);
}

proof fn lemma_in_rows(top: int, columns: int, k: int)
    requires
        columns > 0,
        k >= 0,
    ensures
        (top * columns + k) % columns == k % columns,
        (top * columns + k) / columns - top == k / columns,
{
    vstd::arithmetic::div_mod::lemma_fundamental_div_mod(k, columns);
    vstd::arithmetic::div_mod::lemma_mod_bound(k, columns);
    let q = k / columns;
    let m = k % columns;
    assert(top * columns + k == columns * (top + q) + m) by (nonlinear_arith)
        requires
            k == columns * q + m,
    ;
    vstd::arithmetic::div_mod::lemma_fundamental_div_mod_converse(
        top * columns + k,
        columns,
        top + q,
        m,
    );
}

/// Nothing is drawn where there is no room for a card, and a list that is shown anew is shown from
/// its first item on, which is chosen.
pub proof fn law_a_list_is_shown_from_its_start<T: Clone>(
    grid: &mut Grid<T>,
    x: u16,
    y: u16,
    width: u16,
    height: u16,
    card_width: u16,
    card_height: u16,
    r: Vec<Card>,
    other: &mut Grid<T>,
    items: Vec<T>,
    fresh: Grid<T>,
)
    requires
        old(grid).wf(),
        old(other).wf(),
        call_ensures(
            Grid::<T>::layout,
            (grid, x, y, width, height, card_width, card_height),
            r,
        ),
        call_ensures(Grid::<T>::set_filter, (other, items), ()),
        call_ensures(Grid::<T>::new, (items,), fresh),
    ensures
        width < card_width || height < card_height ==> r@.len() == 0 && *final(grid) == *old(grid),
        final(other).shown() == items@,
        final(other).items() == old(other).items(),
        final(other).top() == 0,
        items@.len() > 0 ==> final(other).choice() == Some(0usize) && fresh.choice() == Some(0usize),
        items@.len() == 0 ==> final(other).choice() is None && fresh.choice() is None,
        fresh.items() == items@,
        fresh.shown().len() == items@.len(),
{
}

proof fn lemma_total_grows(widths: Seq<usize>, k: int)
    requires
        0 <= k < widths.len(),
    ensures
        total_width(widths.take(k + 1)) == total_width(widths.take(k)) + widths[k],
{
    assert(widths.take(k + 1).drop_last() =~= widths.take(k));
}

proof fn lemma_fitting_most(widths: Seq<usize>, room: int, at: int)
    requires
        0 <= at <= widths.len(),
        room >= 0,
    ensures
        ({
            let k = fitting(widths, room, at);
            &&& at <= k <= widths.len()
            &&& total_width(widths.take(k)) <= total_width(widths.take(at)) + room
            &&& k < widths.len() ==> total_width(widths.take(k + 1)) > total_width(widths.take(at))
                + room
        }),
    decreases widths.len() - at,
{
    if at < widths.len() {
        lemma_total_grows(widths, at);
        if widths[at] <= room {
            lemma_fitting_most(widths, room - widths[at], at + 1);
        }
    }
}

/// A text that is too wide is cut to as many characters as fit beside the ellipsis, and no fewer; the
/// white space before the ellipsis goes.
pub proof fn law_a_text_is_cut_where_it_must(
    value: &str,
    max_width: usize,
    width: usize,
    ellipsis_width: usize,
    widths: &Vec<usize>,
    r: String,
)
    requires
        call_ensures(cut_to_width, (value, max_width, width, ellipsis_width, widths), r),
        widths@.len() == value@.len(),
        ellipsis_width > 0,
    ensures
        width <= max_width ==> r@ == value@,
        width > max_width && max_width < ellipsis_width ==> r@.len() == 0,
        width > max_width && max_width >= ellipsis_width ==> exists|k: int|
            #![trigger value@.take(k)]
            {
                &&& 0 <= k <= value@.len()
                &&& total_width(widths@.take(k)) + ellipsis_width <= max_width
                &&& k < value@.len() ==> total_width(widths@.take(k + 1)) + ellipsis_width
                    > max_width
                &&& r@.len() > 0
                &&& r@.last() == '…'
                &&& r@.drop_last().len() <= k
                &&& r@.drop_last() == value@.take(r@.len() - 1)
                &&& forall|i: int|
                    r@.len() - 1 <= i < k ==> is_white_space(#[trigger] value@[i])
                &&& r@.len() > 1 ==> !is_white_space(r@[r@.len() - 2])
            },
{
    if width > max_width && max_width >= ellipsis_width {
        let room = max_width - ellipsis_width;
        let k = fitting(widths@, room, 0);
        lemma_fitting_most(widths@, room, 0);
        assert(widths@.take(0) =~= Seq::<usize>::empty());
        let part = value@.take(k);
        lemma_end_trimmed(part);
        let kept = end_trimmed(part);
        reveal_strlit("…");
        assert(r@.drop_last() =~= kept);
        assert(kept =~= value@.take(kept.len() as int));
        assert forall|i: int| r@.len() - 1 <= i < k implies is_white_space(#[trigger] value@[i]) by {
            assert(part.skip(kept.len() as int)[i - kept.len()] == value@[i]);
        }
    }
}

/// The text of a terminal is cut by the widths that its characters have, and a title leaves room for
/// its marks.
pub proof fn law_a_title_leaves_room_for_its_marks(
    title: &str,
    area_width: u16,
    marked_width: usize,
    r: String,
    room: usize,
    alone: String,
    widths: &Vec<usize>,
    ellipsis_width: usize,
    width: usize,
    cut: String,
)
    requires
        call_ensures(card_title, (title, area_width, marked_width), r),
        width == display_width(title@),
        ellipsis_width == display_width("…"@),
        widths@.len() == title@.len(),
        forall|i: int| 0 <= i < title@.len() ==> #[trigger] widths@[i] == cell_width(title@[i]),
        marked_width >= width,
        area_width >= marked_width - width,
        room == area_width - (marked_width - width),
        call_ensures(truncate_to_width, (title, room), alone),
        call_ensures(cut_to_width, (title, room, width, ellipsis_width, widths), cut),
    ensures
        r@ == alone@,
        alone@ == cut@,
{
    assert(widths@ =~= Seq::new(title@.len(), |i: int| cell_width(title@[i])));
}

/// The characters of texts one behind the other.
pub open spec fn run_together(parts: Seq<Seq<char>>) -> Seq<char>
    decreases parts.len(),
{
    if parts.len() == 0 {
        Seq::empty()
    } else {
        run_together(parts.drop_last()) + parts.last()
    }
}

proof fn lemma_words_run_together(s: Seq<char>)
    ensures
        run_together(words(s)) == s.filter(|c: char| !is_white_space(c)),
        forall|i: int| 0 <= i < words(s).len() ==> (#[trigger] words(s)[i]).len() > 0,
        s.len() > 0 && !is_white_space(s.last()) ==> words(s).len() > 0,
    decreases s.len(),
{
    let p = |c: char| !is_white_space(c);
    reveal(Seq::filter);
    if s.len() > 0 {
        let front = s.drop_last();
        lemma_words_run_together(front);
        let before = words(front);
        let after = words(s);
        if is_white_space(s.last()) {
        } else if s.len() == 1 || is_white_space(s[s.len() - 2]) {
            assert(after.drop_last() =~= before);
            assert(run_together(after) =~= run_together(before).push(s.last()));
        } else {
            assert(front.last() == s[s.len() - 2]);
            assert(before.len() > 0);
            assert(after.drop_last() =~= before.drop_last());
            assert(run_together(after) =~= run_together(before).push(s.last()));
        }
    }
}

/// The words of a text are its characters without the white space, in their order; none is empty.
pub proof fn law_words_hold_all_but_white_space(s: &str, r: Vec<String>)
    requires
        call_ensures(split_words, (s,), r),
    ensures
        run_together(views(r@)) == s@.filter(|c: char| !is_white_space(c)),
        forall|i: int| 0 <= i < r@.len() ==> (#[trigger] r@[i])@.len() > 0,
{
    lemma_words_run_together(s@);
    assert forall|i: int| 0 <= i < r@.len() implies (#[trigger] r@[i])@.len() > 0 by {
        assert(views(r@)[i] == r@[i]@);
    }
}

/// A text that is wrapped keeps its words in their order, and no line is too long but for a single
/// word that is; a text that fits is not touched.
pub proof fn law_wrapping_keeps_the_words(
    text: &str,
    max_chars: u16,
    r: Vec<String>,
    parts: Vec<String>,
    i: int,
)
    requires
        call_ensures(wrap_big_text, (text, max_chars), r),
        call_ensures(split_words, (text,), parts),
    ensures
        text@.len() <= max_chars ==> r@.len() == 1 && r@[0]@ == text@,
        text@.len() > max_chars ==> spaced(views(r@)) == spaced(views(parts@)),
        text@.len() > max_chars && 0 <= i < r@.len() ==> r@[i]@.len() <= max_chars || views(
            parts@,
        ).contains(r@[i]@),
{
    assert(views(r@).len() == r@.len());
    if text@.len() <= max_chars {
        assert(views(r@)[0] == r@[0]@);
    } else {
        law_wrapping_splits_no_word(words(text@), max_chars as int);
        if 0 <= i < r@.len() {
            law_lines_respect_the_width(words(text@), max_chars as int, i);
            assert(views(r@)[i] == r@[i]@);
        }
    }
}

/// A status has its icon.
pub proof fn law_a_status_has_its_icon(
    plays: &'static str,
    paused: &'static str,
    waits: &'static str,
)
    requires
        call_ensures(status_icon, (Status::Playing,), plays),
        call_ensures(status_icon, (Status::Paused,), paused),
        call_ensures(status_icon, (Status::Buffering,), waits),
    ensures
        plays@ == seq!['>'],
        paused@ == seq!['|', '|'],
        waits@ == seq!['~'],
{
    reveal_strlit(">");
    reveal_strlit("||");
    reveal_strlit("~");
    assert(plays@ =~= seq!['>']);
    assert(paused@ =~= seq!['|', '|']);
    assert(waits@ =~= seq!['~']);
}

/// A text that is too long is cut by as many characters as it must, and ends in an ellipsis.
pub proof fn law_a_long_text_ends_in_an_ellipsis(text: &str, max_chars: u16, r: String)
    requires
        call_ensures(ellipsize, (text, max_chars), r),
    ensures
        text@.len() <= max_chars ==> r@ == text@,
        text@.len() > max_chars && max_chars > 0 ==> r@.len() == max_chars && r@.last() == '…'
            && r@.drop_last() == text@.take(max_chars - 1),
{
    reveal_strlit("…");
    if text@.len() > max_chars && max_chars > 0 {
        assert(r@.drop_last() =~= text@.take(max_chars - 1));
    }
}

/// A text is written in the first size in which it fits: where it fits on one line in the largest,
/// it stands there as it is.
pub proof fn law_a_text_that_fits_is_written_big(
    text: &str,
    max_width: u16,
    max_height: u16,
    sizes: &[BigTextSize],
    reserved: u16,
    r: FittedText,
)
    requires
        call_ensures(fit_text, (text, max_width, max_height, sizes, reserved), r),
        sizes@.len() > 0,
        sizes@[0].char_width > 0,
        text@.len() > 0,
        (text@.len() + reserved) * sizes@[0].char_width <= max_width,
        sizes@[0].char_height <= max_height,
    ensures
        r matches FittedText::Big { size, lines } && size == sizes@[0] && lines@.len() == 1
            && lines@[0]@ == text@,
{
    let w = sizes@[0].char_width as int;
    let n = text@.len() + reserved;
    vstd::arithmetic::div_mod::lemma_div_is_ordered(n * w, max_width as int, w);
    vstd::arithmetic::div_mod::lemma_div_by_multiple(n as int, w);
    let room = room_for(max_width as int, sizes@[0], reserved as int);
    assert(room >= text@.len());
    let lines = wrapped(text@, room);
    assert(lines =~= seq![text@]);
    assert(1 * sizes@[0].char_height == sizes@[0].char_height) by (nonlinear_arith);
    assert(fits(text@, sizes@[0], max_width as int, max_height as int, reserved as int));
    if let FittedText::Big { size, lines: written } = r {
        assert(views(written@).len() == written@.len());
        assert(views(written@)[0] == written@[0]@);
    }
}

/// Without a size that fits a text is written plainly, and cut.
pub proof fn law_a_text_without_room_is_written_plainly(
    text: &str,
    max_width: u16,
    max_height: u16,
    sizes: &[BigTextSize],
    reserved: u16,
    r: FittedText,
    plain: String,
)
    requires
        call_ensures(fit_text, (text, max_width, max_height, sizes, reserved), r),
        call_ensures(ellipsize, (text, max_width), plain),
        sizes@.len() == 0,
    ensures
        r matches FittedText::Plain(shown) && shown@ == plain@,
{
}

/// A title has two sizes, the larger first, and what it is part of the smaller one.
pub proof fn law_titles_have_two_sizes(title: Vec<BigTextSize>, entity: Vec<BigTextSize>)
    requires
        call_ensures(title_sizes, (), title),
        call_ensures(entity_sizes, (), entity),
    ensures
        title@.len() == 2,
        title@[0].char_width == 8 && title@[0].char_height == 4 && title@[0].pixel_size
            == PixelSize::HalfHeight,
        title@[1].char_width == 4 && title@[1].char_height == 3 && title@[1].pixel_size
            == PixelSize::Sextant,
        entity@.len() == 1,
        entity@[0] == title@[1],
{
}

/// A plain text takes one row; a big one as many as its lines do, and as many columns as its longest
/// line.
pub proof fn law_a_text_takes_its_rows(text: &FittedText, rows: u16, columns: u16)
    requires
        call_ensures(FittedText::height, (text,), rows),
        call_ensures(FittedText::width, (text,), columns),
        text@.rows() <= u16::MAX,
        text@.columns() <= u16::MAX,
    ensures
        *text matches FittedText::Plain(plain) ==> rows == 1 && (plain@.len() <= u16::MAX ==> columns
            == plain@.len()),
        *text matches FittedText::Big { size, lines } ==> (lines@.len() <= u16::MAX ==> rows
            == lines@.len() * size.char_height),
        *text matches FittedText::Big { size, lines } ==> (lines@.len() == 1 && lines@[0]@.len()
            <= u16::MAX ==> columns == lines@[0]@.len() * size.char_width),
{
    if let FittedText::Big { size, lines } = *text {
        let v = views(lines@);
        assert(v.len() == lines@.len());
        if lines@.len() == 1 {
            assert(v[0] == lines@[0]@);
            assert(v.drop_last() =~= Seq::<Seq<char>>::empty());
            reveal_with_fuel(crate::full_screen::longest, 2);
        }
    }
}

/// The texts beside a cover: what the title is part of in a quarter of the rows at most, and the
/// title in what is left of it, with two characters kept free for the icon.
pub proof fn law_the_title_gets_what_is_left(
    entity: Option<String>,
    title: &str,
    width: u16,
    height: u16,
    r: InfoPlan,
    small: &[BigTextSize],
    big: &[BigTextSize],
    quarter: u16,
    name: &str,
    above: FittedText,
    budget: u16,
    fitted_title: FittedText,
)
    requires
        call_ensures(info_plan, (&entity, title, width, height), r),
        small@ == seq![
            BigTextSize { pixel_size: PixelSize::Sextant, char_width: 4, char_height: 3 },
        ],
        big@ == seq![
            BigTextSize { pixel_size: PixelSize::HalfHeight, char_width: 8, char_height: 4 },
            BigTextSize { pixel_size: PixelSize::Sextant, char_width: 4, char_height: 3 },
        ],
        quarter == height / 4,
        entity matches Some(text) ==> text@ == name@,
        call_ensures(fit_text, (name, width, quarter, small, 0), above),
        budget == if height > r.entity_height + 6 {
            height - (r.entity_height + 6)
        } else {
            0
        },
        call_ensures(fit_text, (title, width, budget, big, 2), fitted_title),
    ensures
        entity is None ==> r.entity is None && r.entity_height == 0,
        entity is Some ==> (r.entity matches Some(shown) && shown@ == above@ && r.entity_height
            == above@.rows()),
        r.title@ == fitted_title@,
        r.title_height == r.title@.rows(),
        r.top_spacer == (if height / 2 > r.entity_height + 3 + r.title_height / 2 {
            height / 2 - (r.entity_height + 3) - r.title_height / 2
        } else {
            0
        }),
{
}

/// A cover gets two fifths of the columns and nine tenths of the rows.
pub proof fn law_a_cover_gets_its_share(width: u16, height: u16, r: (u16, u16))
    requires
        call_ensures(cover_bounds, (width, height), r),
    ensures
        r.0 * 5 <= width * 2 < (r.0 + 1) * 5,
        r.1 * 10 <= height * 9 < (r.1 + 1) * 10,
{
}

/// The text beside a cover is as wide as the cover, fifty columns at least, and no wider than what
/// is left beyond six free columns; it starts a row below the cover and ends a row above its end.
pub proof fn law_the_text_beside_a_cover_has_its_room(
    cover_width: u16,
    area_width: u16,
    width: u16,
    cover_y: u16,
    cover_height: u16,
    rows: (u16, u16),
)
    requires
        call_ensures(info_width, (cover_width, area_width), width),
        call_ensures(info_rows, (cover_y, cover_height), rows),
    ensures
        area_width >= cover_width + 6 ==> width <= area_width - cover_width - 6,
        area_width <= cover_width + 6 ==> width == 0,
        cover_width >= 50 && area_width >= 2 * cover_width + 6 ==> width == cover_width,
        cover_width < 50 && area_width >= cover_width + 56 ==> width == 50,
        rows.0 == cover_y + 1,
        cover_height >= 2 ==> rows.1 == cover_height - 2,
        cover_height < 2 ==> rows.1 == 0,
{
}

/// The icon stands before the title, two characters wide, and in the middle of its rows.
pub proof fn law_the_icon_stands_before_the_title(
    size: BigTextSize,
    x: u16,
    y: u16,
    height: u16,
    r: Place,
)
    requires
        call_ensures(icon_place, (size, x, y, height), r),
    ensures
        r.width == 2 * size.char_width,
        r.height == size.char_height,
        x >= 2 * size.char_width + 2 ==> r.x == x - 2 * size.char_width - 2,
        height >= size.char_height ==> r.y == y + (height - size.char_height) / 2,
        height < size.char_height ==> r.y == y,
{
}

/// The lines about a track: its icon and title, its artist, and its place counted from one.
pub proof fn law_the_lines_about_a_track(
    status: Status,
    text: &str,
    width: u16,
    line: String,
    icon: &'static str,
    artist: &str,
    by: String,
    position: usize,
    length: usize,
    labels: (String, String),
)
    requires
        call_ensures(plain_title, (status, text, width), line),
        call_ensures(status_icon, (status,), icon),
        call_ensures(artist_line, (artist,), by),
        call_ensures(position_labels, (position, length), labels),
        position < usize::MAX,
    ensures
        icon@.len() + 1 + text@.len() <= width ==> line@ == icon@ + " "@ + text@,
        by@ == "by "@ + artist@,
        labels.0@.len() > 2 && labels.0@[0] == ' ' && labels.0@.last() == ' ',
        value_of(labels.0@.subrange(1, labels.0@.len() - 1)) == position + 1,
        labels.1@.len() > 2 && labels.1@[0] == ' ' && labels.1@.last() == ' ',
        value_of(labels.1@.subrange(1, labels.1@.len() - 1)) == length,
{
    reveal_strlit(" ");
    lemma_decimal((position + 1) as nat);
    lemma_decimal(length as nat);
    assert(labels.0@.subrange(1, labels.0@.len() - 1) =~= crate::text::decimal(
        (position + 1) as nat,
    ));
    assert(labels.1@.subrange(1, labels.1@.len() - 1) =~= crate::text::decimal(length as nat));
}

} // verus!
