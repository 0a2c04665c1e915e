//! The play queue: its items, the one that plays, and the ids that tell items apart.

use vstd::prelude::*;
use crate::models::{copy_text, Track, TrackStatus};
use crate::sequences::{
    first_match, is_first, lemma_first_match, lemma_first_match_is_first, lemma_match_exists,
    lemma_no_match,
};

verus! {

#[derive(Debug, PartialEq, Eq)]
pub struct AlbumTracklist {
    pub title: String,
    pub id: String,
    pub image: Option<String>,
}

#[derive(Debug, PartialEq, Eq)]
pub struct PlaylistTracklist {
    pub title: String,
    pub id: u32,
    pub image: Option<String>,
}

#[derive(Debug, PartialEq, Eq)]
pub struct TopTracklist {
    pub artist_name: String,
    pub id: u32,
    pub image: Option<String>,
}

/// Where the queue comes from.
#[derive(Debug, PartialEq, Eq)]
pub enum TracklistType {
    Album(AlbumTracklist),
    Playlist(PlaylistTracklist),
    TopTracks(TopTracklist),
    Tracks,
}

/// One place in the queue. `connect_id` is the id that a shared session gave it, if any.
#[derive(Debug, PartialEq)]
pub struct QueueItem {
    pub track: Track,
    pub queue_id: u64,
    pub index: usize,
    pub connect_id: Option<i32>,
}

#[derive(Debug, PartialEq)]
pub struct Tracklist {
    queue: Vec<QueueItem>,
    list_type: TracklistType,
    next_queue_id: u64,
}

#[derive(Debug, PartialEq)]
pub enum PlayingEntity {
    Track(Track),
    Playlist(PlayingPlaylist),
}

#[derive(Clone, Copy, Debug, PartialEq, Eq)]
pub struct PlayingPlaylist {
    pub track_id: u32,
    pub queue_id: u64,
    pub index: usize,
    pub playlist_id: u32,
}

impl Clone for TracklistType {
    fn clone(&self) -> (r: TracklistType)
        ensures
            r == *self,
    {
        match self {
            TracklistType::Album(list) => TracklistType::Album(
                AlbumTracklist {
                    title: list.title.clone(),
                    id: list.id.clone(),
                    image: copy_text(&list.image),
                },
            ),
            TracklistType::Playlist(list) => TracklistType::Playlist(
                PlaylistTracklist {
                    title: list.title.clone(),
                    id: list.id,
                    image: copy_text(&list.image),
                },
            ),
            TracklistType::TopTracks(list) => TracklistType::TopTracks(
                TopTracklist {
                    artist_name: list.artist_name.clone(),
                    id: list.id,
                    image: copy_text(&list.image),
                },
            ),
            TracklistType::Tracks => TracklistType::Tracks,
        }
    }
}

impl Clone for QueueItem {
    fn clone(&self) -> (r: QueueItem)
        ensures
            r == *self,
    {
        QueueItem {
            track: self.track.clone(),
            queue_id: self.queue_id,
            index: self.index,
            connect_id: self.connect_id,
        }
    }
}

impl Clone for Tracklist {
    fn clone(&self) -> (r: Tracklist)
        ensures
            r.items() == self.items(),
            r.source() == self.source(),
            r.next_id() == self.next_id(),
    {
        let mut queue: Vec<QueueItem> = Vec::new();
        for i in 0..self.queue.len()
            invariant
                queue@ == self.queue@.take(i as int),
        {
            queue.push(self.queue[i].clone());
            assert(queue@ =~= self.queue@.take(i + 1));
        }
        assert(self.queue@.take(self.queue@.len() as int) =~= self.queue@);
        Tracklist {
            queue,
            list_type: self.list_type.clone(),
            next_queue_id: self.next_queue_id,
        }
    }
}

impl Default for AlbumTracklist {
    fn default() -> (r: AlbumTracklist)
        ensures
            r.title@ == Seq::<char>::empty(),
            r.id@ == Seq::<char>::empty(),
            r.image is None,
    {
        AlbumTracklist { title: String::new(), id: String::new(), image: None }
    }
}

impl Default for PlaylistTracklist {
    fn default() -> (r: PlaylistTracklist)
        ensures
            r.title@ == Seq::<char>::empty(),
            r.id == 0,
            r.image is None,
    {
        PlaylistTracklist { title: String::new(), id: 0, image: None }
    }
}

impl Default for TopTracklist {
    fn default() -> (r: TopTracklist)
        ensures
            r.artist_name@ == Seq::<char>::empty(),
            r.id == 0,
            r.image is None,
    {
        TopTracklist { artist_name: String::new(), id: 0, image: None }
    }
}

impl Default for TracklistType {
    fn default() -> (r: TracklistType)
        ensures
            r == TracklistType::Tracks,
    {
        TracklistType::Tracks
    }
}

impl Default for Tracklist {
    fn default() -> (r: Tracklist)
        ensures
            r.items() == Seq::<QueueItem>::empty(),
            r.source() == TracklistType::Tracks,
            r.next_id() == 0,
    {
        Tracklist { queue: Vec::new(), list_type: TracklistType::Tracks, next_queue_id: 0 }
    }
}

impl Default for QueueItem {
    fn default() -> (r: QueueItem)
        ensures
            r.queue_id == 0,
            r.index == 0,
            r.connect_id is None,
            r.track.status == TrackStatus::Unplayed,
            r.track.id == 0,
    {
        QueueItem { track: Track::default(), queue_id: 0, index: 0, connect_id: None }
    }
}

/// An item is the one that plays.
pub open spec fn playing() -> spec_fn(QueueItem) -> bool {
    |item: QueueItem| item.track.status == TrackStatus::Playing
}

/// An item has the given queue id.
pub open spec fn has_queue_id(id: u64) -> spec_fn(QueueItem) -> bool {
    |item: QueueItem| item.queue_id == id
}

/// An item has the given session id.
pub open spec fn has_connect_id(id: i32) -> spec_fn(QueueItem) -> bool {
    |item: QueueItem| item.connect_id == Some(id)
}

/// An item was heard already or is being heard.
pub open spec fn started() -> spec_fn(QueueItem) -> bool {
    |item: QueueItem| item.track.status != TrackStatus::Unplayed
}

/// The item with its playback status changed and all else kept.
pub open spec fn with_status(item: QueueItem, status: TrackStatus) -> QueueItem {
    QueueItem { track: Track { status, ..item.track }, ..item }
}

/// The queue with the item at `position` playing, those before it played and those after it
/// unplayed.
pub open spec fn playing_at(items: Seq<QueueItem>, position: int) -> Seq<QueueItem> {
    Seq::new(
        items.len(),
        |i: int|
            with_status(
                items[i],
                if i < position {
                    TrackStatus::Played
                } else if i == position {
                    TrackStatus::Playing
                } else {
                    TrackStatus::Unplayed
                },
            ),
    )
}

/// The position of the item that plays; the front of the queue if none does.
pub open spec fn position_of_playing(items: Seq<QueueItem>) -> int {
    match first_match(items, playing()) {
        Some(i) => i,
        None => 0,
    }
}

/// The id after `id`, or `id` itself at the end of the range.
pub open spec fn id_after(id: u64) -> u64 {
    if id == u64::MAX {
        id
    } else {
        (id + 1) as u64
    }
}

/// The lowest id that is at least `floor` and follows every id in the queue.
pub open spec fn fresh_id(items: Seq<QueueItem>, floor: u64) -> u64
    decreases items.len(),
{
    if items.len() == 0 {
        floor
    } else {
        let rest = fresh_id(items.drop_last(), floor);
        let next = id_after(items.last().queue_id);
        if next > rest {
            next
        } else {
            rest
        }
    }
}

/// The item that a session assigns ids to: the first pair with its queue id decides.
pub open spec fn with_assigned_id(item: QueueItem, ids: Seq<(u64, i32)>) -> QueueItem {
    match first_match(ids, |pair: (u64, i32)| pair.0 == item.queue_id) {
        Some(i) => QueueItem { connect_id: Some(ids[i].1), ..item },
        None => item,
    }
}

/// The items named by `order`, in that order; places that are not in the queue are skipped.
pub open spec fn picked(items: Seq<QueueItem>, order: Seq<usize>) -> Seq<QueueItem>
    decreases order.len(),
{
    if order.len() == 0 {
        Seq::empty()
    } else {
        let rest = picked(items, order.drop_last());
        if order.last() < items.len() {
            rest.push(items[order.last() as int])
        } else {
            rest
        }
    }
}

/// `order` leaves every place where it is.
pub open spec fn is_identity(order: Seq<usize>) -> bool {
    forall|i: int| 0 <= i < order.len() ==> #[trigger] order[i] == i
}

/// Where an item that the session does not know goes: behind its old predecessor, or to the
/// front.
pub open spec fn place_after(queue: Seq<QueueItem>, previous: Option<u64>) -> int {
    match previous {
        Some(id) => match first_match(queue, has_queue_id(id)) {
            Some(at) => at + 1,
            None => 0,
        },
        None => 0,
    }
}

/// The session's queue with the old items that the session does not know put back, each behind
/// the item that it followed.
pub open spec fn merged(
    session: Seq<QueueItem>,
    old_items: Seq<QueueItem>,
    previous: Option<u64>,
) -> Seq<QueueItem>
    decreases old_items.len(),
{
    if old_items.len() == 0 {
        session
    } else {
        let item = old_items[0];
        let next = if item.connect_id is None {
            session.insert(place_after(session, previous), item)
        } else {
            session
        };
        merged(next, old_items.drop_first(), Some(item.queue_id))
    }
}

impl Tracklist {
    /// The items, in playing order.
    pub closed spec fn items(&self) -> Seq<QueueItem> {
        self.queue@
    }

    /// Where the queue comes from.
    pub closed spec fn source(&self) -> TracklistType {
        self.list_type
    }

    /// The lowest id that may be given out next.
    pub closed spec fn next_id(&self) -> u64 {
        self.next_queue_id
    }

    /// The id of the item that plays, if one does.
    pub open spec fn playing_id(&self) -> Option<u64> {
        match first_match(self.items(), playing()) {
            Some(i) => Some(self.items()[i].queue_id),
            None => None,
        }
    }

    #[must_use]
    pub fn new(list_type: TracklistType, queue: Vec<QueueItem>) -> (r: Self)
        ensures
            r.items() == queue@,
            r.source() == list_type,
            r.next_id() == 0,
    {
        Self { queue, list_type, next_queue_id: 0 }
    }

    /// A queue as it was stored, with the id that its next item gets.
    pub fn restored(list_type: TracklistType, queue: Vec<QueueItem>, next_queue_id: u64) -> (r: Self)
        ensures
            r.items() == queue@,
            r.source() == list_type,
            r.next_id() == next_queue_id,
    {
        Tracklist { queue, list_type, next_queue_id }
    }

    /// The id that the next item gets, unless an item has it or a higher one.
    pub fn next_queue_id(&self) -> (r: u64)
        ensures
            r == self.next_id(),
    {
        self.next_queue_id
    }

    pub fn set_list_type(&mut self, list_type: TracklistType)
        ensures
            final(self).source() == list_type,
            final(self).items() == old(self).items(),
            final(self).next_id() == old(self).next_id(),
    {
        self.list_type = list_type;
    }

    #[must_use]
    pub fn new_with_id(list_type: TracklistType, items: Vec<QueueItem>) -> (r: Self)
        ensures
            r.items() == items@,
            r.source() == list_type,
            r.next_id() == 0,
    {
        Self { queue: items, list_type, next_queue_id: 0 }
    }

    #[must_use]
    pub fn queue(&self) -> (r: Vec<&QueueItem>)
        ensures
            r@.len() == self.items().len(),
            forall|i: int| 0 <= i < r@.len() ==> *#[trigger] r@[i] == self.items()[i],
    {
        let mut r: Vec<&QueueItem> = Vec::new();
        for i in 0..self.queue.len()
            invariant
                r@.len() == i,
                forall|j: int| 0 <= j < i ==> *#[trigger] r@[j] == self.queue@[j],
        {
            r.push(&self.queue[i]);
        }
        r
    }

    /// Drops what has not been played yet.
    pub fn clear_queue(&mut self)
        ensures
            final(self).items() == old(self).items().filter(started()),
            final(self).source() == old(self).source(),
            final(self).next_id() == old(self).next_id(),
    {
        let mut kept: Vec<QueueItem> = Vec::new();
        for i in 0..self.queue.len()
            invariant
                self.queue@ == old(self).items(),
                self.list_type == old(self).source(),
                self.next_queue_id == old(self).next_id(),
                kept@ == self.queue@.take(i as int).filter(started()),
        {
            proof {
                reveal(Seq::filter);
                assert(self.queue@.take(i + 1).drop_last() =~= self.queue@.take(i as int));
            }
            if self.queue[i].track.status != TrackStatus::Unplayed {
                kept.push(self.queue[i].clone());
            }
        }
        assert(self.queue@.take(self.queue@.len() as int) =~= self.queue@);
        self.queue = kept;
    }

    #[must_use]
    pub fn total(&self) -> (r: usize)
        ensures
            r == self.items().len(),
    {
        self.queue.len()
    }

    /// The position of the item that plays.
    fn playing_position(&self) -> (r: Option<usize>)
        ensures
            match r {
                Some(i) => first_match(self.items(), playing()) == Some(i as int) && is_first(
                    self.items(),
                    playing(),
                    i as int,
                ),
                None => first_match(self.items(), playing()) is None,
            },
    {
        for i in 0..self.queue.len()
            invariant
                forall|j: int| 0 <= j < i ==> !playing()(#[trigger] self.queue@[j]),
        {
            if self.queue[i].track.status == TrackStatus::Playing {
                proof {
                    lemma_first_match(self.queue@, playing(), i as int);
                }
                return Some(i);
            }
        }
        proof {
            lemma_no_match(self.queue@, playing());
        }
        None
    }

    #[must_use]
    pub fn currently_playing(&self) -> (r: Option<u32>)
        ensures
            r == (match first_match(self.items(), playing()) {
                Some(i) => Some(self.items()[i].track.id),
                None => None,
            }),
    {
        match self.playing_position() {
            Some(i) => Some(self.queue[i].track.id),
            None => None,
        }
    }

    #[must_use]
    pub fn current_playing_entity(&self) -> (r: Option<PlayingEntity>)
        ensures
            r == (match first_match(self.items(), playing()) {
                Some(i) => Some(
                    match self.source() {
                        TracklistType::Playlist(list) => PlayingEntity::Playlist(
                            PlayingPlaylist {
                                track_id: self.items()[i].track.id,
                                queue_id: self.items()[i].queue_id,
                                index: self.items()[i].index,
                                playlist_id: list.id,
                            },
                        ),
                        _ => PlayingEntity::Track(self.items()[i].track),
                    },
                ),
                None => None,
            }),
    {
        match self.playing_position() {
            Some(i) => {
                let item = &self.queue[i];
                Some(
                    match &self.list_type {
                        TracklistType::Playlist(list) => PlayingEntity::Playlist(
                            PlayingPlaylist {
                                track_id: item.track.id,
                                queue_id: item.queue_id,
                                index: item.index,
                                playlist_id: list.id,
                            },
                        ),
                        _ => PlayingEntity::Track(item.track.clone()),
                    },
                )
            },
            None => None,
        }
    }

    #[must_use]
    pub fn next_track_id(&self) -> (r: Option<u32>)
        ensures
            r == (if position_of_playing(self.items()) + 1 < self.items().len() {
                Some(self.items()[position_of_playing(self.items()) + 1].track.id)
            } else {
                None
            }),
    {
        match self.next_track() {
            Some(track) => Some(track.id),
            None => None,
        }
    }

    pub fn remove_track(&mut self, index: usize)
        ensures
            final(self).items() == (if index < old(self).items().len() {
                old(self).items().remove(index as int)
            } else {
                old(self).items()
            }),
            final(self).source() == old(self).source(),
            final(self).next_id() == old(self).next_id(),
    {
        if index < self.queue.len() {
            self.queue.remove(index);
        }
    }

    pub fn push_track(&mut self, track: Track)
        ensures
            final(self).items() == old(self).items().push(
                new_item(old(self).items(), old(self).next_id(), track, None),
            ),
            final(self).source() == old(self).source(),
            final(self).next_id() == id_after(fresh_id(old(self).items(), old(self).next_id())),
    {
        let item = self.queue_item(track, None);
        self.queue.push(item);
    }

    pub fn insert_track(&mut self, insert_index: usize, track: Track)
        ensures
            final(self).items() == old(self).items().insert(
                if insert_index <= old(self).items().len() {
                    insert_index as int
                } else {
                    old(self).items().len() as int
                },
                new_item(old(self).items(), old(self).next_id(), track, None),
            ),
            final(self).source() == old(self).source(),
            final(self).next_id() == id_after(fresh_id(old(self).items(), old(self).next_id())),
    {
        let item = self.queue_item(track, None);
        let at: usize = if insert_index <= self.queue.len() {
            insert_index
        } else {
            self.queue.len()
        };
        self.queue.insert(at, item);
    }

    /// A new item with the next free queue id, not yet in the queue.
    pub fn queue_item(&mut self, track: Track, connect_id: Option<i32>) -> (r: QueueItem)
        ensures
            r == new_item(old(self).items(), old(self).next_id(), track, connect_id),
            final(self).items() == old(self).items(),
            final(self).source() == old(self).source(),
            final(self).next_id() == id_after(r.queue_id),
    {
        let index: usize = match self.total().checked_add(1) {
            Some(index) => index,
            None => 0,
        };
        let mut queue_id: u64 = self.next_queue_id;
        for i in 0..self.queue.len()
            invariant
                queue_id == fresh_id(self.queue@.take(i as int), self.next_queue_id),
        {
            assert(self.queue@.take(i + 1).drop_last() =~= self.queue@.take(i as int));
            let after: u64 = self.queue[i].queue_id.saturating_add(1);
            if after > queue_id {
                queue_id = after;
            }
        }
        assert(self.queue@.take(self.queue@.len() as int) =~= self.queue@);
        self.next_queue_id = queue_id.saturating_add(1);
        QueueItem { track, queue_id, index, connect_id }
    }

    /// Adopts the queue of a shared session, keeping the current track and the items the session
    /// does not know yet in place. Returns whether the current track is still queued.
    pub fn replace(&mut self, items: Vec<QueueItem>) -> (r: bool)
        ensures
            ({
                let queue = merged(items@, old(self).items(), None);
                let found = match old(self).playing_id() {
                    Some(id) => first_match(queue, has_queue_id(id)),
                    None => None,
                };
                &&& r == found is Some
                &&& final(self).items() == (match found {
                    Some(at) => playing_at(queue, at),
                    None => playing_at(queue, 0),
                })
            }),
            final(self).source() == old(self).source(),
            final(self).next_id() == old(self).next_id(),
    {
        let current = self.current_queue_id();
        let mut queue = items;
        let mut previous: Option<u64> = None;
        assert(self.queue@.skip(0) =~= self.queue@);
        for i in 0..self.queue.len()
            invariant
                self.queue@ == old(self).items(),
                self.list_type == old(self).source(),
                self.next_queue_id == old(self).next_id(),
                merged(queue@, self.queue@.skip(i as int), previous) == merged(
                    items@,
                    old(self).items(),
                    None,
                ),
        {
            assert(self.queue@.skip(i as int).drop_first() =~= self.queue@.skip(i + 1));
            let item = &self.queue[i];
            if item.connect_id.is_none() {
                let at: usize = match previous {
                    Some(id) => match position_of_queue_id(&queue, id) {
                        Some(position) => position + 1,
                        None => 0,
                    },
                    None => 0,
                };
                queue.insert(at, item.clone());
            }
            previous = Some(item.queue_id);
        }
        self.queue = queue;
        if let Some(id) = current {
            if let Some(position) = position_of_queue_id(&self.queue, id) {
                self.skip_to_track(position);
                return true;
            }
        }
        self.reset();
        false
    }

    pub fn set_connect_ids(&mut self, ids: &[(u64, i32)])
        ensures
            final(self).items() == old(self).items().map_values(
                |item: QueueItem| with_assigned_id(item, ids@),
            ),
            final(self).source() == old(self).source(),
            final(self).next_id() == old(self).next_id(),
    {
        let total: usize = self.queue.len();
        for i in 0..total
            invariant
                total == self.queue@.len(),
                self.queue@.len() == old(self).items().len(),
                self.list_type == old(self).source(),
                self.next_queue_id == old(self).next_id(),
                forall|j: int|
                    0 <= j < i ==> #[trigger] self.queue@[j] == with_assigned_id(
                        old(self).items()[j],
                        ids@,
                    ),
                forall|j: int|
                    i <= j < self.queue@.len() ==> #[trigger] self.queue@[j] == old(self).items()[j],
        {
            let queue_id: u64 = self.queue[i].queue_id;
            let ghost wanted = |pair: (u64, i32)| pair.0 == queue_id;
            let mut k: usize = 0;
            while k < ids.len() && ids[k].0 != queue_id
                invariant
                    k <= ids@.len(),
                    wanted == (|pair: (u64, i32)| pair.0 == queue_id),
                    forall|j: int| 0 <= j < k ==> !wanted(#[trigger] ids@[j]),
                decreases ids.len() - k,
            {
                k += 1;
            }
            if k < ids.len() {
                proof {
                    lemma_first_match(ids@, wanted, k as int);
                }
                self.queue[i].connect_id = Some(ids[k].1);
            } else {
                proof {
                    lemma_no_match(ids@, wanted);
                }
            }
        }
    }

    #[must_use]
    pub fn position_of_connect_id(&self, connect_id: i32) -> (r: Option<usize>)
        ensures
            match r {
                Some(i) => first_match(self.items(), has_connect_id(connect_id)) == Some(i as int),
                None => first_match(self.items(), has_connect_id(connect_id)) is None,
            },
    {
        for i in 0..self.queue.len()
            invariant
                forall|j: int|
                    0 <= j < i ==> !has_connect_id(connect_id)(#[trigger] self.queue@[j]),
        {
            if let Some(id) = self.queue[i].connect_id {
                if id == connect_id {
                    proof {
                        lemma_first_match(self.queue@, has_connect_id(connect_id), i as int);
                    }
                    return Some(i);
                }
            }
        }
        proof {
            lemma_no_match(self.queue@, has_connect_id(connect_id));
        }
        None
    }

    #[must_use]
    pub fn current_connect_id(&self) -> (r: Option<i32>)
        ensures
            r == (match first_match(self.items(), playing()) {
                Some(i) => self.items()[i].connect_id,
                None => None,
            }),
    {
        match self.playing_position() {
            Some(i) => self.queue[i].connect_id,
            None => None,
        }
    }

    #[must_use]
    pub fn next_connect_id(&self) -> (r: Option<i32>)
        ensures
            r == (if position_of_playing(self.items()) + 1 < self.items().len() {
                self.items()[position_of_playing(self.items()) + 1].connect_id
            } else {
                None
            }),
    {
        let total: usize = self.queue.len();
        let next: usize = self.current_position().checked_add(1)?;
        if next < total {
            self.queue[next].connect_id
        } else {
            None
        }
    }

    pub fn reorder_queue(&mut self, new_order: &[usize])
        ensures
            final(self).items() == (if new_order@.len() != old(self).items().len() || is_identity(
                new_order@,
            ) {
                old(self).items()
            } else {
                picked(old(self).items(), new_order@)
            }),
            final(self).source() == old(self).source(),
            final(self).next_id() == old(self).next_id(),
    {
        if new_order.len() != self.queue.len() {
            return;
        }
        let mut k: usize = 0;
        while k < new_order.len() && new_order[k] == k
            invariant
                k <= new_order@.len(),
                forall|j: int| 0 <= j < k ==> #[trigger] new_order@[j] == j,
            decreases new_order.len() - k,
        {
            k += 1;
        }
        if k == new_order.len() {
            return;
        }
        assert(new_order@[k as int] != k);
        let mut reordered: Vec<QueueItem> = Vec::new();
        for i in 0..new_order.len()
            invariant
                self.queue@ == old(self).items(),
                self.list_type == old(self).source(),
                self.next_queue_id == old(self).next_id(),
                reordered@ == picked(self.queue@, new_order@.take(i as int)),
        {
            assert(new_order@.take(i + 1).drop_last() =~= new_order@.take(i as int));
            let from: usize = new_order[i];
            if from < self.queue.len() {
                reordered.push(self.queue[from].clone());
            }
        }
        assert(new_order@.take(new_order@.len() as int) =~= new_order@);
        self.queue = reordered;
    }

    #[must_use]
    pub fn current_position(&self) -> (r: usize)
        ensures
            r == position_of_playing(self.items()),
            r < self.items().len() || r == 0,
    {
        match self.playing_position() {
            Some(i) => i,
            None => 0,
        }
    }

    #[must_use]
    pub fn current_queue_id(&self) -> (r: Option<u64>)
        ensures
            r == self.playing_id(),
    {
        match self.playing_position() {
            Some(i) => Some(self.queue[i].queue_id),
            None => None,
        }
    }

    #[must_use]
    pub fn next_track_queue_id(&self) -> (r: Option<u64>)
        ensures
            r == (if position_of_playing(self.items()) + 1 < self.items().len() {
                Some(self.items()[position_of_playing(self.items()) + 1].queue_id)
            } else {
                None
            }),
    {
        let total: usize = self.queue.len();
        let next: usize = self.current_position().checked_add(1)?;
        if next < total {
            Some(self.queue[next].queue_id)
        } else {
            None
        }
    }

    #[must_use]
    pub fn list_type(&self) -> (r: &TracklistType)
        ensures
            *r == self.source(),
    {
        &self.list_type
    }

    /// Starts the queue over: the first item plays and the rest is yet to come.
    pub fn reset(&mut self)
        ensures
            final(self).items() == playing_at(old(self).items(), 0),
            final(self).source() == old(self).source(),
            final(self).next_id() == old(self).next_id(),
    {
        let total: usize = self.queue.len();
        for i in 0..total
            invariant
                total == self.queue@.len(),
                self.queue@.len() == old(self).items().len(),
                self.list_type == old(self).source(),
                self.next_queue_id == old(self).next_id(),
                forall|j: int|
                    0 <= j < i ==> #[trigger] self.queue@[j] == with_status(
                        old(self).items()[j],
                        TrackStatus::Unplayed,
                    ),
                forall|j: int|
                    i <= j < self.queue@.len() ==> #[trigger] self.queue@[j] == old(self).items()[j],
        {
            if self.queue[i].track.status == TrackStatus::Played || self.queue[i].track.status
                == TrackStatus::Playing {
                self.queue[i].track.status = TrackStatus::Unplayed;
            }
        }
        if self.queue.len() > 0 {
            self.queue[0].track.status = TrackStatus::Playing;
        }
    }

    #[must_use]
    pub fn next_track(&self) -> (r: Option<&Track>)
        ensures
            match r {
                Some(track) => position_of_playing(self.items()) + 1 < self.items().len() && *track
                    == self.items()[position_of_playing(self.items()) + 1].track,
                None => position_of_playing(self.items()) + 1 >= self.items().len(),
            },
    {
        let total: usize = self.queue.len();
        let next_position: usize = self.current_position().checked_add(1)?;
        if total <= next_position {
            return None;
        }
        Some(&self.queue[next_position].track)
    }

    #[must_use]
    pub fn current_track(&self) -> (r: Option<&Track>)
        ensures
            match r {
                Some(track) => first_match(self.items(), playing()) matches Some(i) && *track
                    == self.items()[i].track,
                None => first_match(self.items(), playing()) is None,
            },
    {
        match self.playing_position() {
            Some(i) => Some(&self.queue[i].track),
            None => None,
        }
    }

    /// Makes the item at `new_position` the one that plays and returns its track.
    pub fn skip_to_track(&mut self, new_position: usize) -> (r: Option<&Track>)
        ensures
            final(self).items() == playing_at(old(self).items(), new_position as int),
            final(self).source() == old(self).source(),
            final(self).next_id() == old(self).next_id(),
            match r {
                Some(track) => new_position < old(self).items().len() && *track == with_status(
                    old(self).items()[new_position as int],
                    TrackStatus::Playing,
                ).track,
                None => new_position >= old(self).items().len(),
            },
    {
        let total: usize = self.queue.len();
        for i in 0..total
            invariant
                total == self.queue@.len(),
                self.queue@.len() == old(self).items().len(),
                self.list_type == old(self).source(),
                self.next_queue_id == old(self).next_id(),
                forall|j: int|
                    0 <= j < i ==> #[trigger] self.queue@[j] == playing_at(
                        old(self).items(),
                        new_position as int,
                    )[j],
                forall|j: int|
                    i <= j < self.queue@.len() ==> #[trigger] self.queue@[j] == old(self).items()[j],
        {
            if i < new_position {
                self.queue[i].track.status = TrackStatus::Played;
            } else if i == new_position {
                self.queue[i].track.status = TrackStatus::Playing;
            } else {
                self.queue[i].track.status = TrackStatus::Unplayed;
            }
        }
        if new_position < self.queue.len() {
            Some(&self.queue[new_position].track)
        } else {
            None
        }
    }
}

/// The item that a queue gives a new track: the next free id, numbered behind the last item.
pub open spec fn new_item(
    items: Seq<QueueItem>,
    floor: u64,
    track: Track,
    connect_id: Option<i32>,
) -> QueueItem {
    QueueItem {
        track,
        queue_id: fresh_id(items, floor),
        index: if items.len() < usize::MAX {
            (items.len() + 1) as usize
        } else {
            0
        },
        connect_id,
    }
}

/// The position of the first item with the given queue id.
fn position_of_queue_id(queue: &Vec<QueueItem>, id: u64) -> (r: Option<usize>)
    ensures
        match r {
            Some(i) => i < queue.len() && first_match(queue@, has_queue_id(id)) == Some(i as int),
            None => first_match(queue@, has_queue_id(id)) is None,
        },
{
    for i in 0..queue.len()
        invariant
            forall|j: int| 0 <= j < i ==> !has_queue_id(id)(#[trigger] queue@[j]),
    {
        if queue[i].queue_id == id {
            proof {
                lemma_first_match(queue@, has_queue_id(id), i as int);
            }
            return Some(i);
        }
    }
    proof {
        lemma_no_match(queue@, has_queue_id(id));
    }
    None
}

/// Every id in the queue lies below a fresh id, unless the range of ids is used up.
proof fn lemma_fresh_id(items: Seq<QueueItem>, floor: u64)
    ensures
        fresh_id(items, floor) >= floor,
        forall|i: int|
            0 <= i < items.len() ==> (#[trigger] items[i]).queue_id < fresh_id(items, floor)
                || fresh_id(items, floor) == u64::MAX,
    decreases items.len(),
{
    if items.len() > 0 {
        let rest = items.drop_last();
        lemma_fresh_id(rest, floor);
        assert forall|i: int| 0 <= i < items.len() implies (#[trigger] items[i]).queue_id
            < fresh_id(items, floor) || fresh_id(items, floor) == u64::MAX by {
            if i < rest.len() {
                assert(rest[i] == items[i]);
            }
        }
    }
}

/// Queue ids are never reused: the id of a new item is in no item of the queue, is not below the
/// lowest id that was still free, and is below every id that can be given out later.
pub proof fn law_queue_ids_are_never_reused(
    items: Seq<QueueItem>,
    floor: u64,
    track: Track,
    connect_id: Option<i32>,
)
    requires
        fresh_id(items, floor) < u64::MAX,
    ensures
        ({
            let id = new_item(items, floor, track, connect_id).queue_id;
            &&& id >= floor
            &&& forall|i: int| 0 <= i < items.len() ==> (#[trigger] items[i]).queue_id != id
            &&& forall|later: Seq<QueueItem>| id < #[trigger] fresh_id(later, id_after(id))
        }),
{
    let id = fresh_id(items, floor);
    lemma_fresh_id(items, floor);
    assert forall|later: Seq<QueueItem>| id < #[trigger] fresh_id(later, id_after(id)) by {
        lemma_fresh_id(later, id_after(id));
    }
}

/// After a jump to a queued position exactly that item plays, and it is what the queue reports as
/// current.
pub proof fn law_one_item_plays(items: Seq<QueueItem>, position: int)
    requires
        0 <= position < items.len(),
    ensures
        forall|i: int|
            0 <= i < items.len() ==> (playing()(#[trigger] playing_at(items, position)[i]) <==> i
                == position),
        first_match(playing_at(items, position), playing()) == Some(position),
        position_of_playing(playing_at(items, position)) == position,
{
    lemma_first_match(playing_at(items, position), playing(), position);
}

/// An order that names every place of the queue loses no item and invents none.
pub proof fn law_reordering_keeps_every_item(items: Seq<QueueItem>, order: Seq<usize>)
    requires
        order.len() == items.len(),
        forall|i: int| 0 <= i < order.len() ==> #[trigger] order[i] < items.len(),
        forall|k: int| 0 <= k < items.len() ==> order.contains(#[trigger] (k as usize)),
    ensures
        picked(items, order).len() == items.len(),
        forall|i: int|
            0 <= i < order.len() ==> #[trigger] picked(items, order)[i] == items[order[i] as int],
        forall|k: int|
            0 <= k < items.len() && k <= usize::MAX ==> picked(items, order).contains(
                #[trigger] items[k],
            ),
{
    lemma_picked(items, order);
    assert forall|k: int| 0 <= k < items.len() && k <= usize::MAX implies picked(
        items,
        order,
    ).contains(#[trigger] items[k]) by {
        assert(order.contains(k as usize));
        let i = choose|i: int| 0 <= i < order.len() && order[i] == k as usize;
        assert(picked(items, order)[i] == items[k]);
    }
}

proof fn lemma_picked(items: Seq<QueueItem>, order: Seq<usize>)
    requires
        forall|i: int| 0 <= i < order.len() ==> #[trigger] order[i] < items.len(),
    ensures
        picked(items, order).len() == order.len(),
        forall|i: int|
            0 <= i < order.len() ==> #[trigger] picked(items, order)[i] == items[order[i] as int],
    decreases order.len(),
{
    if order.len() > 0 {
        let rest = order.drop_last();
        assert forall|i: int| 0 <= i < rest.len() implies #[trigger] rest[i] < items.len() by {
            assert(rest[i] == order[i]);
        }
        lemma_picked(items, rest);
        assert(order.last() < items.len());
        assert forall|i: int| 0 <= i < order.len() implies #[trigger] picked(items, order)[i]
            == items[order[i] as int] by {
            if i < rest.len() {
                assert(picked(items, rest)[i] == items[rest[i] as int]);
            }
        }
    }
}

/// The items of `queue` that the session knows.
pub open spec fn known() -> spec_fn(QueueItem) -> bool {
    |item: QueueItem| item.connect_id is Some
}

/// The items of `queue` that the session does not know.
pub open spec fn unknown() -> spec_fn(QueueItem) -> bool {
    |item: QueueItem| item.connect_id is None
}

/// Inserting an item that `keep` rejects does not change what `keep` selects.
proof fn lemma_filter_insert(s: Seq<QueueItem>, at: int, item: QueueItem, keep: spec_fn(QueueItem) -> bool)
    requires
        0 <= at <= s.len(),
        !keep(item),
    ensures
        s.insert(at, item).filter(keep) == s.filter(keep),
{
    let t = s.insert(at, item);
    assert(t =~= s.take(at) + seq![item] + s.skip(at));
    assert(s =~= s.take(at) + s.skip(at));
    Seq::filter_distributes_over_add(s.take(at) + seq![item], s.skip(at), keep);
    Seq::filter_distributes_over_add(s.take(at), seq![item], keep);
    Seq::filter_distributes_over_add(s.take(at), s.skip(at), keep);
    assert(seq![item].filter(keep) =~= Seq::<QueueItem>::empty()) by {
        reveal_with_fuel(Seq::filter, 2);
        assert(seq![item].drop_last() =~= Seq::<QueueItem>::empty());
        assert(Seq::<QueueItem>::empty().filter(keep) =~= Seq::<QueueItem>::empty());
    }
    assert(s.take(at).filter(keep) + Seq::<QueueItem>::empty() =~= s.take(at).filter(keep));
}

/// A place for an item lies in the queue.
proof fn lemma_place_after(queue: Seq<QueueItem>, previous: Option<u64>)
    ensures
        0 <= place_after(queue, previous) <= queue.len(),
{
    if let Some(id) = previous {
        lemma_first_match_is_first(queue, has_queue_id(id));
    }
}

/// Adopting a session's queue keeps the session's own items, in the session's order, and every
/// item that the session does not know.
pub proof fn law_replacing_keeps_both_sides(
    session: Seq<QueueItem>,
    old_items: Seq<QueueItem>,
    previous: Option<u64>,
)
    requires
        forall|i: int| 0 <= i < session.len() ==> known()(#[trigger] session[i]),
    ensures
        merged(session, old_items, previous).filter(known()) == session,
        forall|i: int|
            0 <= i < old_items.len() && unknown()(#[trigger] old_items[i]) ==> merged(
                session,
                old_items,
                previous,
            ).contains(old_items[i]),
{
    lemma_all_kept(session, known());
    lemma_merged_known(session, old_items, previous);
    assert forall|i: int|
        0 <= i < old_items.len() && unknown()(#[trigger] old_items[i]) implies merged(
        session,
        old_items,
        previous,
    ).contains(old_items[i]) by {
        lemma_merged_unknown(session, old_items, previous, i);
    }
}

/// Filtering by what holds of every item changes nothing.
proof fn lemma_all_kept(s: Seq<QueueItem>, keep: spec_fn(QueueItem) -> bool)
    requires
        forall|i: int| 0 <= i < s.len() ==> keep(#[trigger] s[i]),
    ensures
        s.filter(keep) == s,
    decreases s.len(),
{
    reveal(Seq::filter);
    if s.len() > 0 {
        lemma_all_kept(s.drop_last(), keep);
        assert(s.drop_last().push(s.last()) =~= s);
    }
}

proof fn lemma_merged_known(
    session: Seq<QueueItem>,
    old_items: Seq<QueueItem>,
    previous: Option<u64>,
)
    ensures
        merged(session, old_items, previous).filter(known()) == session.filter(known()),
    decreases old_items.len(),
{
    if old_items.len() > 0 {
        let item = old_items[0];
        lemma_place_after(session, previous);
        let at = place_after(session, previous);
        let next = if item.connect_id is None {
            session.insert(at, item)
        } else {
            session
        };
        if item.connect_id is None {
            lemma_filter_insert(session, at, item, known());
        }
        lemma_merged_known(next, old_items.drop_first(), Some(item.queue_id));
    }
}

/// What is in the queue stays in it while old items are put back.
proof fn lemma_merged_grows(
    session: Seq<QueueItem>,
    old_items: Seq<QueueItem>,
    previous: Option<u64>,
    kept: QueueItem,
)
    requires
        session.contains(kept),
    ensures
        merged(session, old_items, previous).contains(kept),
    decreases old_items.len(),
{
    if old_items.len() > 0 {
        let item = old_items[0];
        lemma_place_after(session, previous);
        let at = place_after(session, previous);
        let next = if item.connect_id is None {
            session.insert(at, item)
        } else {
            session
        };
        assert(next.contains(kept)) by {
            let k = choose|k: int| 0 <= k < session.len() && session[k] == kept;
            if item.connect_id is None {
                if k < at {
                    assert(next[k] == kept);
                } else {
                    assert(next[k + 1] == kept);
                }
            }
        }
        lemma_merged_grows(next, old_items.drop_first(), Some(item.queue_id), kept);
    }
}

proof fn lemma_merged_unknown(
    session: Seq<QueueItem>,
    old_items: Seq<QueueItem>,
    previous: Option<u64>,
    i: int,
)
    requires
        0 <= i < old_items.len(),
        old_items[i].connect_id is None,
    ensures
        merged(session, old_items, previous).contains(old_items[i]),
    decreases old_items.len(),
{
    let item = old_items[0];
    lemma_place_after(session, previous);
    let at = place_after(session, previous);
    let next = if item.connect_id is None {
        session.insert(at, item)
    } else {
        session
    };
    let rest = old_items.drop_first();
    if i == 0 {
        assert(next[at] == item);
        lemma_merged_grows(next, rest, Some(item.queue_id), item);
    } else {
        assert(rest[i - 1] == old_items[i]);
        lemma_merged_unknown(next, rest, Some(item.queue_id), i - 1);
    }
}

/// Adopting a session's queue keeps the current track current: where the session does not know
/// the item that plays, or names an item with its id, that item is still queued, and it is the one
/// that plays afterwards.
pub proof fn law_replacing_keeps_the_current_track(
    session: Seq<QueueItem>,
    old_items: Seq<QueueItem>,
    current: int,
)
    requires
        0 <= current < old_items.len(),
        old_items[current].connect_id is None || exists|k: int|
            0 <= k < session.len() && (#[trigger] session[k]).queue_id
                == old_items[current].queue_id,
    ensures
        ({
            let id = old_items[current].queue_id;
            let queue = merged(session, old_items, None);
            first_match(queue, has_queue_id(id)) matches Some(at) && {
                let adopted = playing_at(queue, at);
                &&& position_of_playing(adopted) == at
                &&& 0 <= at < adopted.len()
                &&& adopted[at].queue_id == id
                &&& playing()(adopted[at])
            }
        }),
{
    let id = old_items[current].queue_id;
    let queue = merged(session, old_items, None);
    let kept = if old_items[current].connect_id is None {
        old_items[current]
    } else {
        session[choose|k: int|
            0 <= k < session.len() && (#[trigger] session[k]).queue_id
                == old_items[current].queue_id]
    };
    if old_items[current].connect_id is None {
        lemma_merged_unknown(session, old_items, None, current);
    } else {
        lemma_merged_grows(session, old_items, None, kept);
    }
    let at = choose|k: int| 0 <= k < queue.len() && queue[k] == kept;
    lemma_match_exists(queue, has_queue_id(id), at);
    law_one_item_plays(queue, first_match(queue, has_queue_id(id))->0);
}

/// No two items have the same queue id.
pub open spec fn ids_are_distinct(items: Seq<QueueItem>) -> bool {
    forall|i: int, j: int|
        0 <= i < j < items.len() ==> (#[trigger] items[i]).queue_id != (#[trigger] items[j]).queue_id
}

/// An item has the queue id.
pub open spec fn holds_id(items: Seq<QueueItem>, id: u64) -> bool {
    exists|k: int| 0 <= k < items.len() && (#[trigger] items[k]).queue_id == id
}

/// The item with the queue id stands at `p`.
pub open spec fn stands(items: Seq<QueueItem>, p: int, id: u64) -> bool {
    0 <= p < items.len() && items[p].queue_id == id
}

/// The queue of a session can be told apart from what is queued: the items of each have distinct
/// ids, and no item that the session does not know has the id of one of the session's items.
pub open spec fn can_be_told_apart(session: Seq<QueueItem>, old_items: Seq<QueueItem>) -> bool {
    &&& ids_are_distinct(session)
    &&& ids_are_distinct(old_items)
    &&& forall|i: int, k: int|
        0 <= i < old_items.len() && 0 <= k < session.len() && (
        #[trigger] old_items[i]).connect_id is None ==> old_items[i].queue_id != (
        #[trigger] session[k]).queue_id
}

/// `a` is the item `b`, but for whether it was played.
pub open spec fn same_but_status(a: QueueItem, b: QueueItem) -> bool {
    a == (QueueItem { track: Track { status: a.track.status, ..b.track }, ..b })
}

proof fn lemma_merged_split(
    session: Seq<QueueItem>,
    old_items: Seq<QueueItem>,
    previous: Option<u64>,
    i: int,
)
    requires
        0 <= i <= old_items.len(),
    ensures
        merged(session, old_items, previous) == merged(
            merged(session, old_items.take(i), previous),
            old_items.skip(i),
            if i == 0 {
                previous
            } else {
                Some(old_items[i - 1].queue_id)
            },
        ),
    decreases i,
{
    if i == 0 {
        assert(old_items.skip(0) =~= old_items);
        assert(old_items.take(0) =~= Seq::<QueueItem>::empty());
    } else {
        let item = old_items[0];
        let next = if item.connect_id is None {
            session.insert(place_after(session, previous), item)
        } else {
            session
        };
        lemma_merged_split(next, old_items.drop_first(), Some(item.queue_id), i - 1);
        assert(old_items.drop_first().take(i - 1) =~= old_items.take(i).drop_first());
        assert(old_items.drop_first().skip(i - 1) =~= old_items.skip(i));
    }
}

/// The item that is put back first, in the queue.
proof fn lemma_put_back(session: Seq<QueueItem>, previous: Option<u64>, item: QueueItem)
    ensures
        ({
            let next = session.insert(place_after(session, previous), item);
            forall|id: u64| #[trigger]
                holds_id(next, id) <==> holds_id(session, id) || id == item.queue_id
        }),
{
    lemma_place_after(session, previous);
    let at = place_after(session, previous);
    let next = session.insert(at, item);
    assert forall|id: u64| #[trigger]
        holds_id(next, id) <==> holds_id(session, id) || id == item.queue_id by {
        if holds_id(next, id) {
            let k = choose|k: int| 0 <= k < next.len() && (#[trigger] next[k]).queue_id == id;
            if k < at {
                assert(session[k].queue_id == id);
            } else if k > at {
                assert(session[k - 1].queue_id == id);
            }
        }
        if holds_id(session, id) {
            let k = choose|k: int| 0 <= k < session.len() && (#[trigger] session[k]).queue_id == id;
            if k < at {
                assert(next[k].queue_id == id);
            } else {
                assert(next[k + 1].queue_id == id);
            }
        }
        assert(next[at].queue_id == item.queue_id);
    }
}

/// An item that the session does not know has the queue id.
pub open spec fn holds_unknown(items: Seq<QueueItem>, id: u64) -> bool {
    exists|k: int|
        0 <= k < items.len() && (#[trigger] items[k]).connect_id is None && items[k].queue_id == id
}

proof fn lemma_merged_ids(
    session: Seq<QueueItem>,
    old_items: Seq<QueueItem>,
    previous: Option<u64>,
)
    ensures
        forall|id: u64| #[trigger]
            holds_id(merged(session, old_items, previous), id) <==> holds_id(session, id)
                || holds_unknown(old_items, id),
    decreases old_items.len(),
{
    if old_items.len() > 0 {
        let item = old_items[0];
        let rest = old_items.drop_first();
        let next = if item.connect_id is None {
            session.insert(place_after(session, previous), item)
        } else {
            session
        };
        lemma_put_back(session, previous, item);
        lemma_merged_ids(next, rest, Some(item.queue_id));
        let all = merged(session, old_items, previous);
        assert(all == merged(next, rest, Some(item.queue_id)));
        assert forall|id: u64| #[trigger]
            holds_id(all, id) <==> holds_id(session, id) || holds_unknown(old_items, id) by {
            assert(holds_id(all, id) <==> holds_id(next, id) || holds_unknown(rest, id));
            assert(holds_id(next, id) <==> holds_id(session, id) || (item.connect_id is None && id
                == item.queue_id));
            if holds_unknown(rest, id) {
                let k = choose|k: int|
                    0 <= k < rest.len() && (#[trigger] rest[k]).connect_id is None
                        && rest[k].queue_id == id;
                assert(old_items[k + 1].queue_id == id);
            }
            if holds_unknown(old_items, id) {
                let k = choose|k: int|
                    0 <= k < old_items.len() && (#[trigger] old_items[k]).connect_id is None
                        && old_items[k].queue_id == id;
                if k > 0 {
                    assert(rest[k - 1].queue_id == id);
                }
            }
            if item.connect_id is None && id == item.queue_id {
                assert(old_items[0].queue_id == id);
            }
        }
    }
}

proof fn lemma_merged_distinct(
    session: Seq<QueueItem>,
    old_items: Seq<QueueItem>,
    previous: Option<u64>,
)
    requires
        can_be_told_apart(session, old_items),
    ensures
        ids_are_distinct(merged(session, old_items, previous)),
    decreases old_items.len(),
{
    if old_items.len() > 0 {
        let item = old_items[0];
        let rest = old_items.drop_first();
        lemma_place_after(session, previous);
        let at = place_after(session, previous);
        let next = if item.connect_id is None {
            session.insert(at, item)
        } else {
            session
        };
        assert(ids_are_distinct(rest)) by {
            assert forall|i: int, j: int| 0 <= i < j < rest.len() implies (
            #[trigger] rest[i]).queue_id != (#[trigger] rest[j]).queue_id by {
                assert(old_items[i + 1].queue_id != old_items[j + 1].queue_id);
            }
        }
        assert(can_be_told_apart(next, rest)) by {
            assert forall|i: int, j: int| 0 <= i < j < next.len() implies (
            #[trigger] next[i]).queue_id != (#[trigger] next[j]).queue_id by {
                if item.connect_id is None {
                    let a = if i < at {
                        i
                    } else {
                        i - 1
                    };
                    let b = if j < at {
                        j
                    } else {
                        j - 1
                    };
                    if i == at {
                        assert(old_items[0].queue_id != session[b].queue_id);
                    } else if j == at {
                        assert(old_items[0].queue_id != session[a].queue_id);
                    } else {
                        assert(session[a].queue_id != session[b].queue_id);
                    }
                }
            }
            assert forall|i: int, k: int|
                0 <= i < rest.len() && 0 <= k < next.len() && (
                #[trigger] rest[i]).connect_id is None implies rest[i].queue_id != (
            #[trigger] next[k]).queue_id by {
                assert(rest[i] == old_items[i + 1]);
                if item.connect_id is None {
                    if k == at {
                        assert(old_items[0].queue_id != old_items[i + 1].queue_id);
                    } else {
                        let a = if k < at {
                            k
                        } else {
                            k - 1
                        };
                        assert(old_items[i + 1].queue_id != session[a].queue_id);
                    }
                } else {
                    assert(old_items[i + 1].queue_id != session[k].queue_id);
                }
            }
        }
        lemma_merged_distinct(next, rest, Some(item.queue_id));
    }
}

/// Two items of the session keep their order.
proof fn lemma_merged_order(
    session: Seq<QueueItem>,
    old_items: Seq<QueueItem>,
    previous: Option<u64>,
    a: int,
    b: int,
) -> (r: (int, int))
    requires
        0 <= a < b < session.len(),
    ensures
        0 <= r.0 < r.1 < merged(session, old_items, previous).len(),
        merged(session, old_items, previous)[r.0] == session[a],
        merged(session, old_items, previous)[r.1] == session[b],
    decreases old_items.len(),
{
    if old_items.len() > 0 {
        let item = old_items[0];
        lemma_place_after(session, previous);
        let at = place_after(session, previous);
        if item.connect_id is None {
            let next = session.insert(at, item);
            let p = if a < at {
                a
            } else {
                a + 1
            };
            let q = if b < at {
                b
            } else {
                b + 1
            };
            lemma_merged_order(next, old_items.drop_first(), Some(item.queue_id), p, q)
        } else {
            lemma_merged_order(session, old_items.drop_first(), Some(item.queue_id), a, b)
        }
    } else {
        (a, b)
    }
}

/// Two neighbours stay neighbours while nothing else is put behind the first of them.
proof fn lemma_merged_adjacent(
    session: Seq<QueueItem>,
    old_items: Seq<QueueItem>,
    previous: Option<u64>,
    p: int,
) -> (r: int)
    requires
        0 <= p,
        p + 1 < session.len(),
        previous != Some(session[p].queue_id),
        forall|k: int|
            0 <= k < old_items.len() ==> (#[trigger] old_items[k]).queue_id != session[p].queue_id,
    ensures
        0 <= r,
        r + 1 < merged(session, old_items, previous).len(),
        merged(session, old_items, previous)[r] == session[p],
        merged(session, old_items, previous)[r + 1] == session[p + 1],
    decreases old_items.len(),
{
    if old_items.len() > 0 {
        let item = old_items[0];
        let rest = old_items.drop_first();
        lemma_place_after(session, previous);
        let at = place_after(session, previous);
        assert(at != p + 1) by {
            if let Some(id) = previous {
                lemma_first_match_is_first(session, has_queue_id(id));
            }
        }
        assert forall|k: int| 0 <= k < rest.len() implies (#[trigger] rest[k]).queue_id
            != session[p].queue_id by {
            assert(rest[k] == old_items[k + 1]);
        }
        assert(old_items[0].queue_id != session[p].queue_id);
        if item.connect_id is None {
            let next = session.insert(at, item);
            let q = if p < at {
                p
            } else {
                p + 1
            };
            lemma_merged_adjacent(next, rest, Some(item.queue_id), q)
        } else {
            lemma_merged_adjacent(session, rest, Some(item.queue_id), p)
        }
    } else {
        p
    }
}

/// The front stays the front while every item that is put back has a predecessor in the queue.
proof fn lemma_merged_front(session: Seq<QueueItem>, old_items: Seq<QueueItem>, previous: u64)
    requires
        session.len() > 0,
        holds_id(session, previous),
        forall|k: int|
            0 <= k < old_items.len() ==> (#[trigger] old_items[k]).connect_id is None || holds_id(
                session,
                old_items[k].queue_id,
            ),
    ensures
        merged(session, old_items, Some(previous)).len() > 0,
        merged(session, old_items, Some(previous))[0] == session[0],
    decreases old_items.len(),
{
    if old_items.len() > 0 {
        let item = old_items[0];
        let rest = old_items.drop_first();
        lemma_place_after(session, Some(previous));
        let at = place_after(session, Some(previous));
        assert(at > 0) by {
            let k = choose|k: int|
                0 <= k < session.len() && (#[trigger] session[k]).queue_id == previous;
            lemma_match_exists(session, has_queue_id(previous), k);
            lemma_first_match_is_first(session, has_queue_id(previous));
        }
        let next = if item.connect_id is None {
            session.insert(at, item)
        } else {
            session
        };
        lemma_put_back(session, Some(previous), item);
        assert(holds_id(next, item.queue_id)) by {
            assert(old_items[0].connect_id is None || holds_id(session, old_items[0].queue_id));
        }
        assert forall|k: int| 0 <= k < rest.len() implies (#[trigger] rest[k]).connect_id is None
            || holds_id(next, rest[k].queue_id) by {
            assert(rest[k] == old_items[k + 1]);
        }
        lemma_merged_front(next, rest, item.queue_id);
    }
}

proof fn lemma_merged_follows(session: Seq<QueueItem>, old_items: Seq<QueueItem>, i: int, p: int)
    requires
        can_be_told_apart(session, old_items),
        1 <= i < old_items.len(),
        old_items[i].connect_id is None,
        stands(merged(session, old_items, None), p, old_items[i - 1].queue_id),
    ensures
        p + 1 < merged(session, old_items, None).len(),
        merged(session, old_items, None)[p + 1] == old_items[i],
{
    let all = merged(session, old_items, None);
    let id = old_items[i - 1].queue_id;
    let mid = merged(session, old_items.take(i), None);
    let tail = old_items.skip(i);
    lemma_merged_split(session, old_items, None, i);
    lemma_merged_ids(mid, tail, Some(id));
    assert(all == merged(mid, tail, Some(id)));
    assert(holds_id(all, id));
    assert(holds_id(mid, id)) by {
        if holds_unknown(tail, id) {
            let k = choose|k: int|
                0 <= k < tail.len() && (#[trigger] tail[k]).connect_id is None
                    && tail[k].queue_id == id;
            assert(old_items[i - 1].queue_id != old_items[i + k].queue_id);
        }
    }
    let k = choose|k: int| 0 <= k < mid.len() && (#[trigger] mid[k]).queue_id == id;
    lemma_match_exists(mid, has_queue_id(id), k);
    lemma_first_match_is_first(mid, has_queue_id(id));
    let m = first_match(mid, has_queue_id(id))->0;
    let item = old_items[i];
    assert(tail[0] == item);
    let rest = tail.drop_first();
    let next = mid.insert(m + 1, item);
    assert(all == merged(next, rest, Some(item.queue_id)));
    assert(old_items[i - 1].queue_id != old_items[i].queue_id);
    assert forall|k: int| 0 <= k < rest.len() implies (#[trigger] rest[k]).queue_id
        != next[m].queue_id by {
        assert(rest[k] == old_items[i + 1 + k]);
        assert(old_items[i - 1].queue_id != old_items[i + 1 + k].queue_id);
    }
    let q = lemma_merged_adjacent(next, rest, Some(item.queue_id), m);
    lemma_merged_distinct(session, old_items, None);
    assert(all[q].queue_id == id);
    if q < p {
        assert(all[q].queue_id != all[p].queue_id);
    } else if p < q {
        assert(all[p].queue_id != all[q].queue_id);
    }
}

/// The session still holds every queued item that it knew, in the order of the queue.
pub open spec fn keeps_the_known(session: Seq<QueueItem>, old_items: Seq<QueueItem>) -> bool {
    &&& forall|i: int|
        0 <= i < old_items.len() && (#[trigger] old_items[i]).connect_id is Some ==> holds_id(
            session,
            old_items[i].queue_id,
        )
    &&& forall|i: int, j: int, p: int, q: int|
        #![trigger old_items[i], old_items[j], session[p], session[q]]
        0 <= i < j < old_items.len() && old_items[i].connect_id is Some
            && old_items[j].connect_id is Some && stands(session, p, old_items[i].queue_id)
            && stands(session, q, old_items[j].queue_id) ==> p < q
}

proof fn lemma_every_item_stands(session: Seq<QueueItem>, old_items: Seq<QueueItem>, i: int) -> (p:
    int)
    requires
        keeps_the_known(session, old_items),
        0 <= i < old_items.len(),
    ensures
        stands(merged(session, old_items, None), p, old_items[i].queue_id),
{
    lemma_merged_ids(session, old_items, None);
    let all = merged(session, old_items, None);
    let id = old_items[i].queue_id;
    if old_items[i].connect_id is None {
        assert(holds_unknown(old_items, id));
    }
    assert(holds_id(all, id));
    choose|k: int| 0 <= k < all.len() && (#[trigger] all[k]).queue_id == id
}

/// An item comes before every later one that the session knows.
proof fn lemma_before_known(
    session: Seq<QueueItem>,
    old_items: Seq<QueueItem>,
    i: int,
    j: int,
    p: int,
    q: int,
)
    requires
        can_be_told_apart(session, old_items),
        keeps_the_known(session, old_items),
        0 <= i < j < old_items.len(),
        old_items[j].connect_id is Some,
        stands(merged(session, old_items, None), p, old_items[i].queue_id),
        stands(merged(session, old_items, None), q, old_items[j].queue_id),
    ensures
        p < q,
    decreases i,
{
    let all = merged(session, old_items, None);
    lemma_merged_distinct(session, old_items, None);
    assert(old_items[i].queue_id != old_items[j].queue_id);
    if old_items[i].connect_id is Some {
        let a = choose|k: int|
            0 <= k < session.len() && (#[trigger] session[k]).queue_id == old_items[i].queue_id;
        assert(holds_id(session, old_items[i].queue_id));
        assert(holds_id(session, old_items[j].queue_id));
        let b = choose|k: int|
            0 <= k < session.len() && (#[trigger] session[k]).queue_id == old_items[j].queue_id;
        assert(stands(session, a, old_items[i].queue_id) && stands(
            session,
            b,
            old_items[j].queue_id,
        ));
        assert(session[a] == session[a] && session[b] == session[b]);
        assert(a < b);
        let (x, y) = lemma_merged_order(session, old_items, None, a, b);
        lemma_same_place(all, x, p);
        lemma_same_place(all, y, q);
    } else if i == 0 {
        lemma_first_is_front(session, old_items);
        lemma_same_place(all, 0, p);
    } else {
        let o = lemma_every_item_stands(session, old_items, i - 1);
        lemma_before_known(session, old_items, i - 1, j, o, q);
        lemma_merged_follows(session, old_items, i, o);
        lemma_same_place(all, o + 1, p);
    }
}

proof fn lemma_same_place(items: Seq<QueueItem>, a: int, b: int)
    requires
        ids_are_distinct(items),
        0 <= a < items.len(),
        0 <= b < items.len(),
        items[a].queue_id == items[b].queue_id,
    ensures
        a == b,
{
    if a < b {
        assert(items[a].queue_id != items[b].queue_id);
    } else if b < a {
        assert(items[b].queue_id != items[a].queue_id);
    }
}

proof fn lemma_first_is_front(session: Seq<QueueItem>, old_items: Seq<QueueItem>)
    requires
        keeps_the_known(session, old_items),
        old_items.len() > 0,
        old_items[0].connect_id is None,
    ensures
        merged(session, old_items, None).len() > 0,
        merged(session, old_items, None)[0] == old_items[0],
{
    let item = old_items[0];
    let rest = old_items.drop_first();
    let next = session.insert(0, item);
    lemma_put_back(session, None, item);
    assert(place_after(session, None) == 0);
    assert(next[0].queue_id == item.queue_id);
    assert(holds_id(next, item.queue_id));
    assert forall|k: int| 0 <= k < rest.len() implies (#[trigger] rest[k]).connect_id is None
        || holds_id(next, rest[k].queue_id) by {
        assert(rest[k] == old_items[k + 1]);
    }
    lemma_merged_front(next, rest, item.queue_id);
}

proof fn lemma_old_order(
    session: Seq<QueueItem>,
    old_items: Seq<QueueItem>,
    i: int,
    j: int,
    p: int,
    q: int,
)
    requires
        can_be_told_apart(session, old_items),
        keeps_the_known(session, old_items),
        0 <= i < j < old_items.len(),
        stands(merged(session, old_items, None), p, old_items[i].queue_id),
        stands(merged(session, old_items, None), q, old_items[j].queue_id),
    ensures
        p < q,
    decreases j,
{
    if old_items[j].connect_id is Some {
        lemma_before_known(session, old_items, i, j, p, q);
    } else {
        let all = merged(session, old_items, None);
        let o = lemma_every_item_stands(session, old_items, j - 1);
        lemma_merged_follows(session, old_items, j, o);
        lemma_merged_distinct(session, old_items, None);
        lemma_same_place(all, o + 1, q);
        if i == j - 1 {
            lemma_same_place(all, o, p);
        } else {
            lemma_old_order(session, old_items, i, j - 1, p, o);
        }
    }
}

/// A track that the session does not know is kept in place: where the queue of a session is
/// adopted and the item that it followed is still queued, it comes directly behind that item.
pub proof fn law_an_unknown_item_follows_its_predecessor(
    list: &mut Tracklist,
    session: Vec<QueueItem>,
    r: bool,
    i: int,
    p: int,
)
    requires
        call_ensures(Tracklist::replace, (list, session), r),
        can_be_told_apart(session@, old(list).items()),
        1 <= i < old(list).items().len(),
        old(list).items()[i].connect_id is None,
        stands(final(list).items(), p, old(list).items()[i - 1].queue_id),
    ensures
        p + 1 < final(list).items().len(),
        same_but_status(final(list).items()[p + 1], old(list).items()[i]),
{
    lemma_merged_follows(session@, old(list).items(), i, p);
}

/// Adopting the queue of a session shuffles nothing: where the session still holds what it knew in
/// the order of the queue, all that was queued stands in its old order.
pub proof fn law_adopting_a_queue_shuffles_nothing(
    list: &mut Tracklist,
    session: Vec<QueueItem>,
    r: bool,
    i: int,
    j: int,
    p: int,
    q: int,
)
    requires
        call_ensures(Tracklist::replace, (list, session), r),
        can_be_told_apart(session@, old(list).items()),
        keeps_the_known(session@, old(list).items()),
        0 <= i < j < old(list).items().len(),
        stands(final(list).items(), p, old(list).items()[i].queue_id),
        stands(final(list).items(), q, old(list).items()[j].queue_id),
    ensures
        p < q,
{
    lemma_old_order(session@, old(list).items(), i, j, p, q);
}

/// Adopting the queue of a session loses nothing and invents nothing: the queue then holds the ids
/// of the session's items and of those that the session does not know, each once, and the session's
/// items in the order of the session.
pub proof fn law_adopting_a_queue_loses_nothing(
    list: &mut Tracklist,
    session: Vec<QueueItem>,
    r: bool,
)
    requires
        call_ensures(Tracklist::replace, (list, session), r),
        can_be_told_apart(session@, old(list).items()),
    ensures
        ids_are_distinct(final(list).items()),
        forall|id: u64| #[trigger]
            holds_id(final(list).items(), id) <==> holds_id(session@, id) || holds_unknown(
                old(list).items(),
                id,
            ),
        forall|a: int, b: int, p: int, q: int|
            #![trigger session@[a], session@[b], final(list).items()[p], final(list).items()[q]]
            0 <= a < b < session@.len() && stands(final(list).items(), p, session@[a].queue_id)
                && stands(final(list).items(), q, session@[b].queue_id) ==> p < q && same_but_status(
                final(list).items()[p],
                session@[a],
            ) && same_but_status(final(list).items()[q], session@[b]),
{
    let items = session@;
    let old_items = old(list).items();
    let all = merged(items, old_items, None);
    lemma_merged_distinct(items, old_items, None);
    lemma_merged_ids(items, old_items, None);
    let after = final(list).items();
    assert(after.len() == all.len());
    assert(forall|k: int| 0 <= k < all.len() ==> (#[trigger] after[k]).queue_id == all[k].queue_id);
    assert forall|x: int, y: int| 0 <= x < y < after.len() implies (#[trigger] after[x]).queue_id
        != (#[trigger] after[y]).queue_id by {
        assert(all[x].queue_id != all[y].queue_id);
    }
    assert forall|id: u64| #[trigger]
        holds_id(after, id) <==> holds_id(items, id) || holds_unknown(old_items, id) by {
        assert(holds_id(after, id) <==> holds_id(all, id)) by {
            if holds_id(after, id) {
                let k = choose|k: int| 0 <= k < after.len() && (#[trigger] after[k]).queue_id == id;
                assert(all[k].queue_id == id);
            }
            if holds_id(all, id) {
                let k = choose|k: int| 0 <= k < all.len() && (#[trigger] all[k]).queue_id == id;
                assert(after[k].queue_id == id);
            }
        }
    }
    assert forall|a: int, b: int, p: int, q: int|
        #![trigger items[a], items[b], after[p], after[q]]
        0 <= a < b < items.len() && stands(after, p, items[a].queue_id) && stands(
            after,
            q,
            items[b].queue_id,
        ) implies p < q && same_but_status(after[p], items[a]) && same_but_status(
        after[q],
        items[b],
    ) by {
        let (x, y) = lemma_merged_order(items, old_items, None, a, b);
        lemma_same_place(all, x, p);
        lemma_same_place(all, y, q);
    }
}

/// The item at `at` plays, what comes before it was played, and what comes behind it is not played
/// yet.
pub open spec fn plays_at(items: Seq<QueueItem>, at: int) -> bool {
    &&& 0 <= at < items.len()
    &&& items[at].track.status == TrackStatus::Playing
    &&& forall|k: int|
        0 <= k < at ==> (#[trigger] items[k]).track.status == TrackStatus::Played
    &&& forall|k: int|
        at < k < items.len() ==> (#[trigger] items[k]).track.status == TrackStatus::Unplayed
}

/// Adopting the queue of a session does not interrupt the current track: as long as it is queued it
/// goes on playing, and else the queue starts over.
pub proof fn law_adopting_a_queue_keeps_what_plays(
    list: &mut Tracklist,
    session: Vec<QueueItem>,
    r: bool,
    current: int,
    p: int,
)
    requires
        call_ensures(Tracklist::replace, (list, session), r),
        can_be_told_apart(session@, old(list).items()),
        0 <= current < old(list).items().len(),
        old(list).items()[current].track.status == TrackStatus::Playing,
        forall|k: int|
            0 <= k < current ==> (#[trigger] old(list).items()[k]).track.status
                != TrackStatus::Playing,
    ensures
        r <==> holds_id(final(list).items(), old(list).items()[current].queue_id),
        stands(final(list).items(), p, old(list).items()[current].queue_id) ==> plays_at(
            final(list).items(),
            p,
        ),
        !r && final(list).items().len() > 0 ==> plays_at(final(list).items(), 0),
        final(list).source() == old(list).source(),
        final(list).next_id() == old(list).next_id(),
{
    let old_items = old(list).items();
    let id = old_items[current].queue_id;
    let all = merged(session@, old_items, None);
    let after = final(list).items();
    lemma_first_match(old_items, playing(), current);
    lemma_merged_distinct(session@, old_items, None);
    lemma_first_match_is_first(all, has_queue_id(id));
    if holds_id(after, id) {
        let k = choose|k: int| 0 <= k < after.len() && (#[trigger] after[k]).queue_id == id;
        assert(all[k].queue_id == id);
        lemma_match_exists(all, has_queue_id(id), k);
    }
    if let Some(at) = first_match(all, has_queue_id(id)) {
        assert(after[at].queue_id == id);
        if stands(after, p, id) {
            lemma_same_place(all, at, p);
        }
    } else if stands(after, p, id) {
        lemma_match_exists(all, has_queue_id(id), p);
    }
}

/// A track that is added comes last and changes nothing else, under an id that no item has and
/// that was not given out before, unless the ids are used up.
pub proof fn law_an_added_track_comes_last(list: &mut Tracklist, track: Track, r: ())
    requires
        call_ensures(Tracklist::push_track, (list, track), r),
    ensures
        final(list).items().len() == old(list).items().len() + 1,
        final(list).items().drop_last() == old(list).items(),
        final(list).items().last().track == track,
        final(list).items().last().connect_id is None,
        old(list).next_id() <= final(list).items().last().queue_id,
        final(list).items().last().queue_id < u64::MAX ==> !holds_id(
            old(list).items(),
            final(list).items().last().queue_id,
        ) && final(list).items().last().queue_id < final(list).next_id(),
        final(list).source() == old(list).source(),
{
    lemma_fresh_id(old(list).items(), old(list).next_id());
    assert(final(list).items().drop_last() =~= old(list).items());
}

/// A track that is inserted stands at its place, or last where there is no such place; what stood
/// before it stays and what stood behind it moves back by one.
pub proof fn law_an_inserted_track_stands_at_its_place(
    list: &mut Tracklist,
    place: usize,
    track: Track,
    r: (),
)
    requires
        call_ensures(Tracklist::insert_track, (list, place, track), r),
    ensures
        ({
            let before = old(list).items();
            let after = final(list).items();
            let at = if place <= before.len() {
                place as int
            } else {
                before.len() as int
            };
            &&& after.len() == before.len() + 1
            &&& after[at].track == track
            &&& after[at].connect_id is None
            &&& forall|k: int| 0 <= k < at ==> #[trigger] after[k] == before[k]
            &&& forall|k: int| at < k < after.len() ==> #[trigger] after[k] == before[k - 1]
            &&& after[at].queue_id < u64::MAX ==> !holds_id(before, after[at].queue_id)
                && after[at].queue_id < final(list).next_id()
        }),
        final(list).source() == old(list).source(),
{
    lemma_fresh_id(old(list).items(), old(list).next_id());
}

/// Removing a track takes that one out and no other.
pub proof fn law_a_removed_track_is_gone(list: &mut Tracklist, index: usize, r: ())
    requires
        call_ensures(Tracklist::remove_track, (list, index), r),
    ensures
        index >= old(list).items().len() ==> final(list).items() == old(list).items(),
        index < old(list).items().len() ==> {
            &&& final(list).items().len() == old(list).items().len() - 1
            &&& forall|k: int|
                0 <= k < index ==> #[trigger] final(list).items()[k] == old(list).items()[k]
            &&& forall|k: int|
                index <= k < final(list).items().len() ==> #[trigger] final(list).items()[k]
                    == old(list).items()[k + 1]
        },
        final(list).source() == old(list).source(),
        final(list).next_id() == old(list).next_id(),
{
}

/// An insertion is undone by a removal at the same place.
pub proof fn law_removing_undoes_inserting(
    list: &mut Tracklist,
    again: &mut Tracklist,
    place: usize,
    track: Track,
    inserted: (),
    removed: (),
)
    requires
        call_ensures(Tracklist::insert_track, (list, place, track), inserted),
        call_ensures(Tracklist::remove_track, (again, place), removed),
        place <= old(list).items().len(),
        old(again).items() == final(list).items(),
    ensures
        final(again).items() == old(list).items(),
{
    assert(final(again).items() =~= old(list).items());
}

/// Clearing the queue leaves the item that plays and what was played before it, and nothing else.
pub proof fn law_clearing_leaves_what_was_started(list: &mut Tracklist, r: (), at: int)
    requires
        call_ensures(Tracklist::clear_queue, (list,), r),
        plays_at(old(list).items(), at),
    ensures
        final(list).items() == old(list).items().take(at + 1),
        final(list).source() == old(list).source(),
        final(list).next_id() == old(list).next_id(),
{
    let items = old(list).items();
    let front = items.take(at + 1);
    let back = items.skip(at + 1);
    assert(items =~= front + back);
    Seq::filter_distributes_over_add(front, back, started());
    assert forall|k: int| 0 <= k < front.len() implies started()(#[trigger] front[k]) by {
        assert(front[k] == items[k]);
    }
    lemma_all_kept(front, started());
    assert forall|k: int| 0 <= k < back.len() implies !started()(#[trigger] back[k]) by {
        assert(back[k] == items[at + 1 + k]);
    }
    assert forall|x: QueueItem| back.contains(x) implies !started()(x) by {
        let k = choose|k: int| 0 <= k < back.len() && back[k] == x;
        assert(!started()(back[k]));
    }
    back.lemma_all_neg_filter_empty(started());
    assert(front + back.filter(started()) =~= front);
}

/// Clearing a queue, whatever plays in it, leaves no item that is yet to be played and drops no
/// other.
pub proof fn law_clearing_drops_only_what_is_to_come(list: &mut Tracklist, r: ())
    requires
        call_ensures(Tracklist::clear_queue, (list,), r),
    ensures
        forall|k: int|
            0 <= k < final(list).items().len() ==> (#[trigger] final(list).items()[k]).track.status
                != TrackStatus::Unplayed && old(list).items().contains(final(list).items()[k]),
        forall|k: int|
            0 <= k < old(list).items().len() && (#[trigger] old(list).items()[k]).track.status
                != TrackStatus::Unplayed ==> final(list).items().contains(old(list).items()[k]),
{
    let items = old(list).items();
    let kept = final(list).items();
    assert forall|k: int| 0 <= k < kept.len() implies (#[trigger] kept[k]).track.status
        != TrackStatus::Unplayed && items.contains(kept[k]) by {
        items.lemma_filter_pred(started(), k);
        assert(kept.contains(kept[k]));
        items.lemma_filter_contains_rev(started(), kept[k]);
    }
    assert forall|k: int|
        0 <= k < items.len() && (#[trigger] items[k]).track.status
            != TrackStatus::Unplayed implies kept.contains(items[k]) by {
        items.lemma_filter_contains(started(), k);
    }
}

/// A new order puts at each place the item that it names, and changes nothing where it does not
/// name as many places as there are.
pub proof fn law_a_new_order_places_every_item(list: &mut Tracklist, order: &[usize], r: ())
    requires
        call_ensures(Tracklist::reorder_queue, (list, order), r),
    ensures
        order@.len() != old(list).items().len() ==> final(list).items() == old(list).items(),
        order@.len() == old(list).items().len() && (forall|i: int|
            0 <= i < order@.len() ==> #[trigger] order@[i] < order@.len()) ==> {
            &&& final(list).items().len() == order@.len()
            &&& forall|i: int|
                0 <= i < order@.len() ==> #[trigger] final(list).items()[i]
                    == old(list).items()[order@[i] as int]
        },
        final(list).source() == old(list).source(),
        final(list).next_id() == old(list).next_id(),
{
    let items = old(list).items();
    if order@.len() == items.len() && (forall|i: int|
        0 <= i < order@.len() ==> #[trigger] order@[i] < order@.len()) {
        if is_identity(order@) {
            assert forall|i: int| 0 <= i < order@.len() implies #[trigger] final(list).items()[i]
                == items[order@[i] as int] by {
                assert(order@[i] == i);
            }
        } else {
            lemma_picked(items, order@);
        }
    }
}

/// A jump makes exactly the item at its place play, and is told its track; nothing but what was
/// played changes. Without such a place the whole queue counts as played.
pub proof fn law_a_jump_plays_its_item(list: &mut Tracklist, position: usize, r: Option<&Track>)
    requires
        call_ensures(Tracklist::skip_to_track, (list, position), r),
    ensures
        final(list).items().len() == old(list).items().len(),
        forall|k: int|
            0 <= k < old(list).items().len() ==> same_but_status(
                #[trigger] final(list).items()[k],
                old(list).items()[k],
            ),
        position < old(list).items().len() ==> plays_at(final(list).items(), position as int)
            && r == Some(&final(list).items()[position as int].track),
        position >= old(list).items().len() ==> r is None && forall|k: int|
            0 <= k < final(list).items().len() ==> (#[trigger] final(list).items()[k]).track.status
                == TrackStatus::Played,
        final(list).source() == old(list).source(),
        final(list).next_id() == old(list).next_id(),
{
}

/// Starting over makes the first item play and the rest come behind it.
pub proof fn law_starting_over_plays_the_first(list: &mut Tracklist, r: ())
    requires
        call_ensures(Tracklist::reset, (list,), r),
    ensures
        final(list).items().len() == old(list).items().len(),
        forall|k: int|
            0 <= k < old(list).items().len() ==> same_but_status(
                #[trigger] final(list).items()[k],
                old(list).items()[k],
            ),
        old(list).items().len() > 0 ==> plays_at(final(list).items(), 0),
{
}

/// What the queue says of the item that plays is said of the first that does.
pub proof fn law_the_current_item_is_the_one_that_plays(
    list: &Tracklist,
    at: int,
    position: usize,
    track_id: Option<u32>,
    queue_id: Option<u64>,
    connect_id: Option<i32>,
    track: Option<&Track>,
    entity: Option<PlayingEntity>,
)
    requires
        call_ensures(Tracklist::current_position, (list,), position),
        call_ensures(Tracklist::currently_playing, (list,), track_id),
        call_ensures(Tracklist::current_queue_id, (list,), queue_id),
        call_ensures(Tracklist::current_connect_id, (list,), connect_id),
        call_ensures(Tracklist::current_track, (list,), track),
        call_ensures(Tracklist::current_playing_entity, (list,), entity),
        0 <= at < list.items().len(),
        list.items()[at].track.status == TrackStatus::Playing,
        forall|k: int|
            0 <= k < at ==> (#[trigger] list.items()[k]).track.status != TrackStatus::Playing,
    ensures
        position == at,
        track_id == Some(list.items()[at].track.id),
        queue_id == Some(list.items()[at].queue_id),
        connect_id == list.items()[at].connect_id,
        track == Some(&list.items()[at].track),
        match list.source() {
            TracklistType::Playlist(source) => entity == Some(
                PlayingEntity::Playlist(
                    PlayingPlaylist {
                        track_id: list.items()[at].track.id,
                        queue_id: list.items()[at].queue_id,
                        index: list.items()[at].index,
                        playlist_id: source.id,
                    },
                ),
            ),
            _ => entity == Some(PlayingEntity::Track(list.items()[at].track)),
        },
{
    lemma_first_match(list.items(), playing(), at);
}

/// Where nothing plays, there is no current item, and the front counts as the place.
pub proof fn law_nothing_is_current_where_nothing_plays(
    list: &Tracklist,
    position: usize,
    track_id: Option<u32>,
    queue_id: Option<u64>,
    connect_id: Option<i32>,
    track: Option<&Track>,
    entity: Option<PlayingEntity>,
)
    requires
        call_ensures(Tracklist::current_position, (list,), position),
        call_ensures(Tracklist::currently_playing, (list,), track_id),
        call_ensures(Tracklist::current_queue_id, (list,), queue_id),
        call_ensures(Tracklist::current_connect_id, (list,), connect_id),
        call_ensures(Tracklist::current_track, (list,), track),
        call_ensures(Tracklist::current_playing_entity, (list,), entity),
        forall|k: int|
            0 <= k < list.items().len() ==> (#[trigger] list.items()[k]).track.status
                != TrackStatus::Playing,
    ensures
        position == 0,
        track_id is None,
        queue_id is None,
        connect_id is None,
        track is None,
        entity is None,
{
    assert forall|k: int| 0 <= k < list.items().len() implies !playing()(
        #[trigger] list.items()[k],
    ) by {}
    lemma_no_match(list.items(), playing());
}

/// What comes next is the item behind the one that plays; the last has none, and the queue does not
/// wrap around.
pub proof fn law_the_next_item_follows_the_one_that_plays(
    list: &Tracklist,
    at: int,
    track_id: Option<u32>,
    queue_id: Option<u64>,
    connect_id: Option<i32>,
    track: Option<&Track>,
)
    requires
        call_ensures(Tracklist::next_track_id, (list,), track_id),
        call_ensures(Tracklist::next_track_queue_id, (list,), queue_id),
        call_ensures(Tracklist::next_connect_id, (list,), connect_id),
        call_ensures(Tracklist::next_track, (list,), track),
        0 <= at < list.items().len(),
        list.items()[at].track.status == TrackStatus::Playing,
        forall|k: int|
            0 <= k < at ==> (#[trigger] list.items()[k]).track.status != TrackStatus::Playing,
    ensures
        if at + 1 < list.items().len() {
            &&& track_id == Some(list.items()[at + 1].track.id)
            &&& queue_id == Some(list.items()[at + 1].queue_id)
            &&& connect_id == list.items()[at + 1].connect_id
            &&& track == Some(&list.items()[at + 1].track)
        } else {
            track_id is None && queue_id is None && connect_id is None && track is None
        },
{
    lemma_first_match(list.items(), playing(), at);
}

/// The ids of a session reach the items that they are meant for and no other, and nothing but the
/// session id of an item changes.
pub proof fn law_session_ids_reach_their_items(list: &mut Tracklist, ids: &[(u64, i32)], r: ())
    requires
        call_ensures(Tracklist::set_connect_ids, (list, ids), r),
        forall|a: int, b: int|
            0 <= a < b < ids@.len() ==> (#[trigger] ids@[a]).0 != (#[trigger] ids@[b]).0,
    ensures
        final(list).items().len() == old(list).items().len(),
        forall|k: int|
            0 <= k < old(list).items().len() ==> #[trigger] final(list).items()[k] == (QueueItem {
                connect_id: final(list).items()[k].connect_id,
                ..old(list).items()[k]
            }),
        forall|k: int, a: int|
            0 <= k < old(list).items().len() && 0 <= a < ids@.len() && (#[trigger] ids@[a]).0 == (
            #[trigger] old(list).items()[k]).queue_id ==> final(list).items()[k].connect_id == Some(
                ids@[a].1,
            ),
        forall|k: int|
            0 <= k < old(list).items().len() && (forall|a: int|
                0 <= a < ids@.len() ==> (#[trigger] ids@[a]).0 != old(list).items()[k].queue_id)
                ==> (#[trigger] final(list).items()[k]) == old(list).items()[k],
{
    let items = old(list).items();
    let after = final(list).items();
    assert forall|k: int, a: int|
        0 <= k < items.len() && 0 <= a < ids@.len() && (#[trigger] ids@[a]).0 == (
        #[trigger] items[k]).queue_id implies after[k].connect_id == Some(ids@[a].1) by {
        let wanted = |pair: (u64, i32)| pair.0 == items[k].queue_id;
        assert forall|b: int| 0 <= b < a implies !wanted(#[trigger] ids@[b]) by {
            assert(ids@[b].0 != ids@[a].0);
        }
        lemma_first_match(ids@, wanted, a);
        assert(after[k] == with_assigned_id(items[k], ids@));
    }
    assert forall|k: int|
        0 <= k < items.len() && (forall|a: int|
            0 <= a < ids@.len() ==> (#[trigger] ids@[a]).0 != items[k].queue_id) implies (
    #[trigger] after[k]) == items[k] by {
        let wanted = |pair: (u64, i32)| pair.0 == items[k].queue_id;
        lemma_no_match(ids@, wanted);
        assert(after[k] == with_assigned_id(items[k], ids@));
    }
}

/// An item is found by the id that the session gave it: the first that has it, and none where no
/// item has.
pub proof fn law_an_item_is_found_by_its_session_id(list: &Tracklist, id: i32, r: Option<usize>)
    requires
        call_ensures(Tracklist::position_of_connect_id, (list, id), r),
    ensures
        r matches Some(at) ==> at < list.items().len() && list.items()[at as int].connect_id == Some(
            id,
        ) && forall|k: int|
            0 <= k < at ==> (#[trigger] list.items()[k]).connect_id != Some(id),
        r is None ==> forall|k: int|
            0 <= k < list.items().len() ==> (#[trigger] list.items()[k]).connect_id != Some(id),
{
    lemma_first_match_is_first(list.items(), has_connect_id(id));
    if r is None {
        assert forall|k: int| 0 <= k < list.items().len() implies (
        #[trigger] list.items()[k]).connect_id != Some(id) by {
            assert(!has_connect_id(id)(list.items()[k]));
        }
    }
    if let Some(at) = r {
        assert forall|k: int| 0 <= k < at implies (#[trigger] list.items()[k]).connect_id != Some(
            id,
        ) by {
            assert(!has_connect_id(id)(list.items()[k]));
        }
    }
}

proof fn lemma_fresh_id_is_low(items: Seq<QueueItem>, floor: u64)
    ensures
        fresh_id(items, floor) == floor || fresh_id(items, floor) == u64::MAX || exists|i: int|
            0 <= i < items.len() && (#[trigger] items[i]).queue_id + 1 == fresh_id(items, floor),
    decreases items.len(),
{
    if items.len() > 0 {
        let rest = items.drop_last();
        lemma_fresh_id_is_low(rest, floor);
        let low = fresh_id(rest, floor);
        if fresh_id(items, floor) == low {
            if low != floor && low != u64::MAX {
                let i = choose|i: int|
                    0 <= i < rest.len() && (#[trigger] rest[i]).queue_id + 1 == low;
                assert(items[i].queue_id + 1 == low);
            }
        } else if items.last().queue_id != u64::MAX {
            assert(items[items.len() - 1].queue_id + 1 == fresh_id(items, floor));
        }
    }
}

/// A new item holds its track under the id that follows all that were given out, and no higher one,
/// and is counted behind those of the queue, which stays as it is.
pub proof fn law_a_new_item_follows_the_others(
    list: &mut Tracklist,
    track: Track,
    connect_id: Option<i32>,
    r: QueueItem,
)
    requires
        call_ensures(Tracklist::queue_item, (list, track, connect_id), r),
    ensures
        r.track == track,
        r.connect_id == connect_id,
        old(list).items().len() < usize::MAX ==> r.index == old(list).items().len() + 1,
        old(list).next_id() <= r.queue_id,
        r.queue_id < u64::MAX ==> !holds_id(old(list).items(), r.queue_id) && final(list).next_id()
            == r.queue_id + 1,
        r.queue_id == old(list).next_id() || r.queue_id == u64::MAX || exists|i: int|
            0 <= i < old(list).items().len() && (#[trigger] old(list).items()[i]).queue_id + 1
                == r.queue_id,
        final(list).items() == old(list).items(),
        final(list).source() == old(list).source(),
{
    lemma_fresh_id(old(list).items(), old(list).next_id());
    lemma_fresh_id_is_low(old(list).items(), old(list).next_id());
}

/// A track that is added is the item that would be made of it, whether it comes last or stands at a
/// place.
pub proof fn law_an_added_track_is_a_new_item(
    list: &mut Tracklist,
    track: Track,
    r: QueueItem,
    longer: &mut Tracklist,
    filled: &mut Tracklist,
    place: usize,
)
    requires
        call_ensures(Tracklist::queue_item, (list, track, None), r),
        *old(longer) == *old(list),
        call_ensures(Tracklist::push_track, (longer, track), ()),
        *old(filled) == *old(list),
        call_ensures(Tracklist::insert_track, (filled, place, track), ()),
        place <= old(list).items().len(),
    ensures
        final(longer).items().last() == r,
        final(filled).items()[place as int] == r,
        final(longer).next_id() == final(list).next_id(),
        final(filled).next_id() == final(list).next_id(),
{
}

proof fn lemma_picked_are_there(items: Seq<QueueItem>, order: Seq<usize>)
    ensures
        picked(items, order).len() <= order.len(),
        forall|i: int|
            0 <= i < picked(items, order).len() ==> items.contains(#[trigger] picked(items, order)[i]),
    decreases order.len(),
{
    if order.len() > 0 {
        let rest = order.drop_last();
        lemma_picked_are_there(items, rest);
        let all = picked(items, order);
        assert forall|i: int| 0 <= i < all.len() implies items.contains(#[trigger] all[i]) by {
            if i < picked(items, rest).len() {
                assert(items.contains(picked(items, rest)[i]));
            } else {
                assert(items[order.last() as int] == all[i]);
            }
        }
    }
}

/// Whatever the order, no item comes in that was not there.
pub proof fn law_a_new_order_brings_nothing_in(list: &mut Tracklist, order: &[usize])
    requires
        call_ensures(Tracklist::reorder_queue, (list, order), ()),
    ensures
        final(list).items().len() <= old(list).items().len(),
        forall|i: int|
            0 <= i < final(list).items().len() ==> old(list).items().contains(
                #[trigger] final(list).items()[i],
            ),
{
    lemma_picked_are_there(old(list).items(), order@);
    if final(list).items() == old(list).items() {
        assert forall|i: int| 0 <= i < final(list).items().len() implies old(list).items().contains(#[trigger] final(list).items()[i]) by {
            assert(old(list).items()[i] == final(list).items()[i]);
        }
    }
}

proof fn lemma_put_to_the_front(
    session: Seq<QueueItem>,
    old_items: Seq<QueueItem>,
    i: int,
    p: int,
    q: int,
    other: u64,
)
    requires
        can_be_told_apart(session, old_items),
        0 <= i < old_items.len(),
        old_items[i].connect_id is None,
        i == 0 || !holds_id(merged(session, old_items, None), old_items[i - 1].queue_id),
        holds_id(session, other) || holds_unknown(old_items.take(i), other),
        stands(merged(session, old_items, None), p, old_items[i].queue_id),
        stands(merged(session, old_items, None), q, other),
    ensures
        p < q,
{
    let all = merged(session, old_items, None);
    let mid = merged(session, old_items.take(i), None);
    let tail = old_items.skip(i);
    let previous = if i == 0 {
        None::<u64>
    } else {
        Some(old_items[i - 1].queue_id)
    };
    lemma_merged_split(session, old_items, None, i);
    lemma_merged_ids(session, old_items.take(i), None);
    lemma_merged_ids(mid, tail, previous);
    assert(all == merged(mid, tail, previous));
    if let Some(id) = previous {
        assert(!holds_id(mid, id)) by {
            if holds_id(mid, id) {
                assert(holds_id(all, id));
            }
        }
        assert forall|k: int| 0 <= k < mid.len() implies !has_queue_id(id)(#[trigger] mid[k]) by {
            assert(!holds_id(mid, id));
        }
        lemma_no_match(mid, has_queue_id(id));
    }
    assert(place_after(mid, previous) == 0);
    let item = old_items[i];
    assert(tail[0] == item);
    let rest = tail.drop_first();
    let next = mid.insert(0, item);
    assert(all == merged(next, rest, Some(item.queue_id)));
    assert(holds_id(mid, other));
    let k = choose|k: int| 0 <= k < mid.len() && (#[trigger] mid[k]).queue_id == other;
    assert(next[k + 1] == mid[k]);
    let (a, b) = lemma_merged_order(next, rest, Some(item.queue_id), 0, k + 1);
    lemma_merged_distinct(session, old_items, None);
    assert(all[a].queue_id == item.queue_id);
    assert(all[b].queue_id == other);
    if a < p {
        assert(all[a].queue_id != all[p].queue_id);
    } else if p < a {
        assert(all[p].queue_id != all[a].queue_id);
    }
    if b < q {
        assert(all[b].queue_id != all[q].queue_id);
    } else if q < b {
        assert(all[q].queue_id != all[b].queue_id);
    }
}

/// A track that the session does not know, and that followed no item which is still queued, comes to
/// the front: before all items of the session, and before those tracks unknown to it that stood
/// ahead of it.
pub proof fn law_an_unknown_item_without_predecessor_comes_to_the_front(
    list: &mut Tracklist,
    session: Vec<QueueItem>,
    r: bool,
    i: int,
    p: int,
    q: int,
    other: u64,
)
    requires
        call_ensures(Tracklist::replace, (list, session), r),
        can_be_told_apart(session@, old(list).items()),
        0 <= i < old(list).items().len(),
        old(list).items()[i].connect_id is None,
        i == 0 || !holds_id(final(list).items(), old(list).items()[i - 1].queue_id),
        holds_id(session@, other) || holds_unknown(old(list).items().take(i), other),
        stands(final(list).items(), p, old(list).items()[i].queue_id),
        stands(final(list).items(), q, other),
    ensures
        p < q,
{
    let all = merged(session@, old(list).items(), None);
    if i > 0 {
        let id = old(list).items()[i - 1].queue_id;
        if holds_id(all, id) {
            let k = choose|k: int| 0 <= k < all.len() && (#[trigger] all[k]).queue_id == id;
            assert(final(list).items()[k].queue_id == id);
        }
    }
    lemma_put_to_the_front(session@, old(list).items(), i, p, q, other);
}

} // verus!
