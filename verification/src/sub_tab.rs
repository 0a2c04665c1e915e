//! The lists that a page of the terminal switches between.

use vstd::prelude::*;

verus! {

/// One of the lists of a page.
#[derive(Clone, Copy, Debug, PartialEq, Eq, PartialOrd, Ord, Structural)]
pub enum SubTab {
    Albums,
    Artists,
    Playlists,
    Tracks,
}

impl Default for SubTab {
    fn default() -> (r: SubTab)
        ensures
            r == SubTab::Albums,
    {
        SubTab::Albums
    }
}

impl SubTab {
    /// The place of a list among the lists.
    pub open spec fn place(self) -> int {
        match self {
            SubTab::Albums => 0,
            SubTab::Artists => 1,
            SubTab::Playlists => 2,
            SubTab::Tracks => 3,
        }
    }

    /// The list at a place, counted round and round.
    pub open spec fn at(place: int) -> SubTab {
        if place % 4 == 0 {
            SubTab::Albums
        } else if place % 4 == 1 {
            SubTab::Artists
        } else if place % 4 == 2 {
            SubTab::Playlists
        } else {
            SubTab::Tracks
        }
    }

    /// The name of a list.
    pub open spec fn name(self) -> Seq<char> {
        match self {
            SubTab::Albums => "Albums"@,
            SubTab::Artists => "Artists"@,
            SubTab::Playlists => "Playlists"@,
            SubTab::Tracks => "Tracks"@,
        }
    }

    /// The place of the list.
    pub fn selected(self) -> (r: usize)
        ensures
            r == self.place(),
    {
        match self {
            SubTab::Albums => 0,
            SubTab::Artists => 1,
            SubTab::Playlists => 2,
            SubTab::Tracks => 3,
        }
    }

    /// The list after this one; the first comes after the last.
    pub fn next(self) -> (r: SubTab)
        ensures
            r == SubTab::at(self.place() + 1),
    {
        match self {
            SubTab::Albums => SubTab::Artists,
            SubTab::Artists => SubTab::Playlists,
            SubTab::Playlists => SubTab::Tracks,
            SubTab::Tracks => SubTab::Albums,
        }
    }

    /// The list before this one; the last comes before the first.
    pub fn previous(self) -> (r: SubTab)
        ensures
            r == SubTab::at(self.place() - 1),
    {
        match self {
            SubTab::Albums => SubTab::Tracks,
            SubTab::Artists => SubTab::Albums,
            SubTab::Playlists => SubTab::Artists,
            SubTab::Tracks => SubTab::Playlists,
        }
    }

    /// The name of the list.
    pub fn as_str(self) -> (r: &'static str)
        ensures
            r@ == self.name(),
    {
        match self {
            SubTab::Albums => "Albums",
            SubTab::Artists => "Artists",
            SubTab::Playlists => "Playlists",
            SubTab::Tracks => "Tracks",
        }
    }

    /// The names of all lists, each at its place.
    pub fn labels() -> (r: [&'static str; 4])
        ensures
            r@.len() == 4,
            forall|tab: SubTab| r@[tab.place()]@ == #[trigger] tab.name(),
    {
        ["Albums", "Artists", "Playlists", "Tracks"]
    }
}

/// Going on and then back leads to the same list, and so does going back and then on.
pub proof fn law_previous_undoes_next(tab: SubTab)
    ensures
        SubTab::at(SubTab::at(tab.place() + 1).place() - 1) == tab,
        SubTab::at(SubTab::at(tab.place() - 1).place() + 1) == tab,
{
}

} // verus!
