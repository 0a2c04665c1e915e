//! A list of which a filter shows a part, and the row that is chosen in it.

use vstd::prelude::*;
use crate::models::PlaylistSimple;

verus! {

/// The row that is chosen in a list, and the first row that is drawn.
#[derive(Clone, Copy, Debug, PartialEq, Eq, Structural)]
pub struct RowState {
    pub selected: Option<usize>,
    pub offset: usize,
}

impl Default for RowState {
    fn default() -> (r: RowState)
        ensures
            r == (RowState { selected: None, offset: 0 }),
    {
        RowState { selected: None, offset: 0 }
    }
}

/// The state once a row, or none, is chosen. Without a row, drawing starts at the top again.
pub open spec fn with_row(state: RowState, row: Option<usize>) -> RowState {
    RowState {
        selected: row,
        offset: if row is None {
            0
        } else {
            state.offset
        },
    }
}

/// The row after the chosen one; the first where none is chosen.
pub open spec fn row_after(row: Option<usize>) -> usize {
    match row {
        Some(i) => if i < usize::MAX {
            (i + 1) as usize
        } else {
            usize::MAX
        },
        None => 0,
    }
}

/// The row before the chosen one; the last that there can be where none is chosen.
pub open spec fn row_before(row: Option<usize>) -> usize {
    match row {
        Some(i) => if i > 0 {
            (i - 1) as usize
        } else {
            0
        },
        None => usize::MAX,
    }
}

impl RowState {
    /// Chooses a row, or none.
    pub fn select(&mut self, row: Option<usize>)
        ensures
            *final(self) == with_row(*old(self), row),
    {
        self.selected = row;
        if row.is_none() {
            self.offset = 0;
        }
    }

    pub fn select_next(&mut self)
        ensures
            *final(self) == with_row(*old(self), Some(row_after(old(self).selected))),
    {
        let row: usize = match self.selected {
            Some(i) => i.saturating_add(1),
            None => 0,
        };
        self.select(Some(row));
    }

    pub fn select_previous(&mut self)
        ensures
            *final(self) == with_row(*old(self), Some(row_before(old(self).selected))),
    {
        let row: usize = match self.selected {
            Some(i) => i.saturating_sub(1),
            None => usize::MAX,
        };
        self.select(Some(row));
    }
}

/// A list of clones.
pub open spec fn clones<T: Clone>(list: Seq<T>, copy: Seq<T>) -> bool {
    &&& copy.len() == list.len()
    &&& forall|i: int| 0 <= i < list.len() ==> cloned(list[i], #[trigger] copy[i])
}

/// A list without the item at `index`.
pub open spec fn without_item<T>(list: Seq<T>, index: int) -> Seq<T> {
    if 0 <= index < list.len() {
        list.remove(index)
    } else {
        list
    }
}

/// A list whose item at `index` was taken out and put in again at `new_index`.
pub open spec fn with_item_moved<T>(list: Seq<T>, index: int, new_index: int) -> Seq<T> {
    if 0 <= index < list.len() && 0 <= new_index < list.len() {
        list.remove(index).insert(new_index, list[index])
    } else {
        list
    }
}

/// All items of a list, and those that are shown.
pub struct FilteredListState<T> {
    filter: Vec<T>,
    all_items: Vec<T>,
    state: RowState,
}

impl<T: Clone> Default for FilteredListState<T> {
    fn default() -> (r: FilteredListState<T>)
        ensures
            r.items() == Seq::<T>::empty(),
            r.shown() == Seq::<T>::empty(),
            r.row() == (RowState { selected: None, offset: 0 }),
    {
        FilteredListState {
            filter: Vec::new(),
            all_items: Vec::new(),
            state: RowState::default(),
        }
    }
}

impl<T: Clone> FilteredListState<T> {
    /// The items that are shown.
    pub closed spec fn shown(&self) -> Seq<T> {
        self.filter@
    }

    /// All items.
    pub closed spec fn items(&self) -> Seq<T> {
        self.all_items@
    }

    /// The row that is chosen.
    pub closed spec fn row(&self) -> RowState {
        self.state
    }

    /// A list that shows all of its items.
    pub fn new(list: Vec<T>) -> (r: Self)
        ensures
            r.items() == list@,
            clones(list@, r.shown()),
            r.row() == (RowState { selected: None, offset: 0 }),
    {
        FilteredListState { filter: list.clone(), all_items: list, state: RowState::default() }
    }

    pub fn filter(&self) -> (r: &[T])
        ensures
            r@ == self.shown(),
    {
        self.filter.as_slice()
    }

    pub fn all_items(&self) -> (r: &[T])
        ensures
            r@ == self.items(),
    {
        self.all_items.as_slice()
    }

    pub fn state(&self) -> (r: RowState)
        ensures
            r == self.row(),
    {
        self.state
    }

    /// Takes over what drawing made of the chosen row.
    pub fn set_state(&mut self, state: RowState)
        ensures
            final(self).row() == state,
            final(self).items() == old(self).items(),
            final(self).shown() == old(self).shown(),
    {
        self.state = state;
    }

    /// Replaces all items, and shows them all.
    pub fn set_all_items(&mut self, items: Vec<T>)
        ensures
            clones(items@, final(self).items()),
            final(self).shown() == items@,
            final(self).row() == old(self).row(),
    {
        self.all_items = items.clone();
        self.filter = items;
    }

    /// Shows the given items.
    pub fn set_filter(&mut self, items: Vec<T>)
        ensures
            final(self).items() == old(self).items(),
            final(self).shown() == items@,
            final(self).row() == old(self).row(),
    {
        self.filter = items;
    }

    /// Removes an item and shows all that are left. A place past the end changes nothing.
    pub fn remove_at_index(&mut self, index: usize)
        ensures
            final(self).row() == old(self).row(),
            final(self).items() == without_item(old(self).items(), index as int),
            if index < old(self).items().len() {
                clones(final(self).items(), final(self).shown())
            } else {
                final(self).shown() == old(self).shown()
            },
    {
        if index >= self.all_items.len() {
            return ;
        }
        let _ = self.all_items.remove(index);
        self.filter = self.all_items.clone();
    }

    /// Moves an item and shows all. A place past the end changes nothing.
    pub fn move_index_to_new_index(&mut self, index: usize, new_index: usize)
        ensures
            final(self).row() == old(self).row(),
            final(self).items() == with_item_moved(
                old(self).items(),
                index as int,
                new_index as int,
            ),
            if index < old(self).items().len() && new_index < old(self).items().len() {
                clones(final(self).items(), final(self).shown())
            } else {
                final(self).shown() == old(self).shown()
            },
    {
        if index >= self.all_items.len() || new_index >= self.all_items.len() {
            return ;
        }
        let item = self.all_items.remove(index);
        self.all_items.insert(new_index, item);
        self.filter = self.all_items.clone();
    }
}

/// Moving an item and moving it back leaves the list as it was.
pub proof fn law_a_move_is_undone<T>(list: Seq<T>, index: int, new_index: int)
    requires
        0 <= index < list.len(),
        0 <= new_index < list.len(),
    ensures
        with_item_moved(with_item_moved(list, index, new_index), new_index, index) == list,
{
    let moved = with_item_moved(list, index, new_index);
    assert(moved[new_index] == list[index]);
    assert(moved.remove(new_index) =~= list.remove(index));
    assert(with_item_moved(moved, new_index, index) =~= list);
}

/// The playlists among which one is chosen.
pub struct PlaylistList {
    items: FilteredListState<PlaylistSimple>,
}

impl Default for PlaylistList {
    fn default() -> (r: PlaylistList)
        ensures
            r.playlists() == Seq::<PlaylistSimple>::empty(),
            r.row() == (RowState { selected: None, offset: 0 }),
    {
        PlaylistList { items: FilteredListState::default() }
    }
}

impl PlaylistList {
    /// The playlists.
    pub closed spec fn playlists(&self) -> Seq<PlaylistSimple> {
        self.items.shown()
    }

    /// The row that is chosen.
    pub closed spec fn row(&self) -> RowState {
        self.items.row()
    }

    /// A list whose first playlist is chosen, where there is one.
    pub fn new(playlists: Vec<PlaylistSimple>) -> (r: Self)
        ensures
            r.playlists() == playlists@,
            r.row() == (RowState {
                selected: if playlists@.len() > 0 {
                    Some(0)
                } else {
                    None
                },
                offset: 0,
            }),
    {
        let ghost all = playlists@;
        let is_empty = playlists.len() == 0;
        let mut items = FilteredListState::new(playlists);
        assert(items.shown() =~= all);
        if !is_empty {
            let mut state = items.state();
            state.select(Some(0));
            items.set_state(state);
        }
        PlaylistList { items }
    }

    pub fn selected(&self) -> (r: Option<usize>)
        ensures
            r == self.row().selected,
    {
        self.items.state().selected
    }

    pub fn get(&self, index: usize) -> (r: Option<&PlaylistSimple>)
        ensures
            match r {
                Some(playlist) => index < self.playlists().len() && *playlist
                    == self.playlists()[index as int],
                None => index >= self.playlists().len(),
            },
    {
        let shown = self.items.filter();
        if index < shown.len() {
            Some(&shown[index])
        } else {
            None
        }
    }

    pub fn select_next(&mut self)
        ensures
            final(self).playlists() == old(self).playlists(),
            final(self).row() == with_row(
                old(self).row(),
                Some(row_after(old(self).row().selected)),
            ),
    {
        let mut state = self.items.state();
        state.select_next();
        self.items.set_state(state);
    }

    pub fn select_previous(&mut self)
        ensures
            final(self).playlists() == old(self).playlists(),
            final(self).row() == with_row(
                old(self).row(),
                Some(row_before(old(self).row().selected)),
            ),
    {
        let mut state = self.items.state();
        state.select_previous();
        self.items.set_state(state);
    }

    /// Takes over what drawing made of the chosen row.
    pub fn drawn(&mut self, state: RowState)
        ensures
            final(self).playlists() == old(self).playlists(),
            final(self).row() == state,
    {
        self.items.set_state(state);
    }
}

} // verus!
