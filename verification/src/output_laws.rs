//! What holds of the output of sound, of images that are kept, of messages and of the lists of a
//! page.

use vstd::prelude::*;
use crate::image_cache::{CachedImage, ImageLoaded, ImageManager};
use crate::notification::{still_shown, Notification, NotificationList};
use crate::sequences::{lemma_first_match, lemma_first_match_is_first, lemma_no_match};
use crate::sink::{
    decode_failure, described_as, find_device, listed, missing_device, read_failure, QueueStep,
    Sink, StreamChoice,
};
use crate::sub_tab::SubTab;
use crate::text_laws::joined_by;

verus! {

/// A track is queued on the stream that is there where it has the sample rate of the track, and
/// else the stream is recreated. Without a stream one is opened, on the preferred device if there is
/// one.
pub proof fn law_a_stream_has_one_sample_rate(
    preferred: Option<String>,
    fresh: Sink,
    first: QueueStep,
    sink: &mut Sink,
    rate: u32,
    after: &Sink,
    next_rate: u32,
    r: QueueStep,
)
    requires
        call_ensures(Sink::new, (preferred,), fresh),
        call_ensures(Sink::queue_decoder, (&fresh, rate), first),
        call_ensures(Sink::stream_opened, (sink, rate), ()),
        *after == *final(sink),
        call_ensures(Sink::queue_decoder, (after, next_rate), r),
    ensures
        preferred matches Some(name) ==> first == QueueStep::Queue(
            StreamChoice::OpenPreferred(name),
        ),
        preferred is None ==> first == QueueStep::Queue(StreamChoice::OpenDefault),
        next_rate == rate ==> r == QueueStep::Queue(StreamChoice::Keep),
        next_rate != rate ==> r is Recreate,
        final(sink).played() == old(sink).played(),
{
}

/// The position in a track is that of the stream less the time that the tracks before it took, and
/// never before its start.
pub proof fn law_a_position_counts_from_the_track(
    sink: &mut Sink,
    ended: u128,
    after: &Sink,
    at: u128,
    r: u128,
)
    requires
        old(sink).played() <= 18_446_744_073_709_551_615_999_999_999,
        ended <= 18_446_744_073_709_551_615_999_999_999,
        old(sink).played() + ended <= 18_446_744_073_709_551_615_999_999_999,
        old(sink).rate() is Some,
        call_ensures(Sink::track_ended, (sink, ended), ()),
        *after == *final(sink),
        call_ensures(Sink::position, (after, at), r),
    ensures
        after.played() == old(sink).played() + ended,
        at >= old(sink).played() + ended ==> r == at - old(sink).played() - ended,
        at < old(sink).played() + ended ==> r == 0,
{
}

/// Without a stream the position is the start, and the sink is empty.
pub proof fn law_without_a_stream_nothing_plays(sink: &mut Sink, had: bool, after: &Sink, at: u128, r: u128, empty: bool)
    requires
        call_ensures(Sink::clear, (sink,), had),
        *after == *final(sink),
        call_ensures(Sink::position, (after, at), r),
        call_ensures(Sink::is_empty, (after,), empty),
    ensures
        r == 0,
        empty,
        had <==> old(sink).rate() is Some,
        after.preferred() == old(sink).preferred(),
{
}

/// A seek that succeeds, and clearing the queue, start the count of a track anew; the stream stays.
pub proof fn law_a_seek_starts_the_count_anew(
    sought: &mut Sink,
    succeeded: bool,
    cleared: &mut Sink,
    had: bool,
)
    requires
        call_ensures(Sink::seek, (sought, succeeded), ()),
        call_ensures(Sink::clear_queue, (cleared,), had),
    ensures
        old(sought).rate() is Some && succeeded ==> final(sought).played() == 0,
        old(sought).rate() is None || !succeeded ==> final(sought).played() == old(sought).played(),
        final(sought).rate() == old(sought).rate(),
        final(cleared).played() == 0,
        final(cleared).rate() == old(cleared).rate(),
        had <==> old(cleared).rate() is Some,
{
}

/// The device that is found is the first with that name.
pub proof fn law_the_first_device_of_a_name_is_found(
    descriptions: &Vec<Option<String>>,
    name: &str,
    r: Option<usize>,
)
    requires
        call_ensures(find_device, (descriptions, name), r),
    ensures
        r matches Some(i) ==> i < descriptions@.len() && descriptions@[i as int] is Some
            && descriptions@[i as int]->0@ == name@ && forall|k: int|
            0 <= k < i && #[trigger] descriptions@[k] is Some ==> descriptions@[k]->0@ != name@,
        r is None ==> forall|k: int|
            0 <= k < descriptions@.len() && #[trigger] descriptions@[k] is Some
                ==> descriptions@[k]->0@ != name@,
{
    let p = described_as(name@);
    lemma_first_match_is_first(descriptions@, p);
    match r {
        Some(i) => {
            assert forall|k: int| 0 <= k < i && #[trigger] descriptions@[k] is Some implies
                descriptions@[k]->0@ != name@ by {
                assert(!p(descriptions@[k]));
            }
        },
        None => {
            assert forall|k: int|
                0 <= k < descriptions@.len() && #[trigger] descriptions@[k] is Some implies
                descriptions@[k]->0@ != name@ by {
                assert(!p(descriptions@[k]));
            }
        },
    }
}

proof fn lemma_listed(descriptions: Seq<Option<String>>, names: Seq<Seq<char>>)
    requires
        descriptions.len() == names.len(),
        forall|i: int|
            0 <= i < names.len() ==> #[trigger] descriptions[i] is Some && descriptions[i]->0@
                == names[i],
    ensures
        listed(descriptions) == joined_by(names, ", "@),
    decreases names.len(),
{
    if names.len() > 0 {
        let rest = descriptions.drop_last();
        assert forall|i: int| 0 <= i < rest.len() implies #[trigger] rest[i] is Some
            && rest[i]->0@ == names.drop_last()[i] by {
            assert(descriptions[i] is Some);
        }
        lemma_listed(rest, names.drop_last());
        assert(descriptions[descriptions.len() - 1] is Some);
        if names.len() > 1 {
            assert(descriptions[0] is Some);
        } else {
            assert(rest =~= Seq::<Option<String>>::empty());
            assert(listed(descriptions) =~= names[0]);
        }
        assert(listed(descriptions) =~= joined_by(names, ", "@));
    } else {
        assert(listed(descriptions) =~= joined_by(names, ", "@));
    }
}

/// The error about a missing device names those that there are, in order, with commas between them.
pub proof fn law_a_missing_device_is_told_with_the_others(
    descriptions: &Vec<Option<String>>,
    names: Seq<Seq<char>>,
    r: String,
)
    requires
        call_ensures(missing_device, (descriptions,), r),
        descriptions@.len() == names.len(),
        forall|i: int|
            0 <= i < names.len() ==> #[trigger] descriptions@[i] is Some && descriptions@[i]->0@
                == names[i],
    ensures
        r@ == "Unable to find device. Available devices: "@ + joined_by(names, ", "@),
{
    lemma_listed(descriptions@, names);
}

/// An image is fetched at the first request for it, and no other; until it is there none is to be
/// had, and then it is what came.
pub proof fn law_an_image_is_kept<I>(
    manager: &mut ImageManager<I>,
    url: &str,
    fetch: bool,
    waiting: &ImageManager<I>,
    early: Option<&I>,
    again: &mut ImageManager<I>,
    fetch_again: bool,
)
    requires
        old(manager).wf(),
        call_ensures(ImageManager::<I>::request, (manager, url), fetch),
        *waiting == *final(manager),
        *old(again) == *final(manager),
        call_ensures(ImageManager::<I>::get, (waiting, url), early),
        call_ensures(ImageManager::<I>::request, (again, url), fetch_again),
    ensures
        fetch <==> !old(manager).images().dom().contains(url@),
        fetch ==> early is None,
        !fetch_again,
        !fetch ==> final(manager).images() == old(manager).images(),
        final(again).images() == old(again).images(),
{
}

/// An image that came is to be had, one that could not be fetched is not, and neither changes any
/// other.
pub proof fn law_an_image_that_came_is_to_be_had<I>(
    manager: &mut ImageManager<I>,
    message: ImageLoaded<I>,
    after: &ImageManager<I>,
    url: &str,
    r: Option<&I>,
    before: &ImageManager<I>,
    earlier: Option<&I>,
)
    requires
        old(manager).wf(),
        call_ensures(ImageManager::<I>::insert, (manager, message), ()),
        *after == *final(manager),
        *before == *old(manager),
        call_ensures(ImageManager::<I>::get, (after, url), r),
        call_ensures(ImageManager::<I>::get, (before, url), earlier),
    ensures
        url@ == message.url@ ==> (match message.image {
            Some(image) => r matches Some(had) && *had == image,
            None => r is None,
        }),
        url@ != message.url@ ==> (r is Some <==> earlier is Some) && (r is Some ==> *r->0
            == *earlier->0),
{
}

/// A message is shown for five seconds: a tick keeps those that came less than that ago, and drops
/// the others.
pub proof fn law_a_message_is_shown_for_five_seconds(
    list: &mut NotificationList,
    message: Notification,
    came: u128,
    shown: &mut NotificationList,
    now: u128,
    dropped: bool,
)
    requires
        call_ensures(NotificationList::push, (list, message, came), ()),
        *old(shown) == *final(list),
        call_ensures(NotificationList::tick, (shown, now), dropped),
    ensures
        final(list).entries().len() == old(list).entries().len() + 1,
        final(list).entries().last().notification == message,
        now < came + 5_000_000_000 ==> final(shown).entries().len() > 0
            && final(shown).entries().last().notification == message,
        forall|i: int|
            0 <= i < final(shown).entries().len() ==> now < (
            #[trigger] final(shown).entries()[i]).instant + 5_000_000_000,
        dropped <==> exists|i: int|
            0 <= i < old(shown).entries().len() && now >= (
            #[trigger] old(shown).entries()[i]).instant + 5_000_000_000,
{
    let all = final(list).entries();
    let p = still_shown(now);
    let kept = all.filter(p);
    reveal(Seq::filter);
    assert forall|i: int| 0 <= i < kept.len() implies now < (#[trigger] kept[i]).instant
        + 5_000_000_000 by {
        all.lemma_filter_pred(p, i);
    }
    lemma_filter_drops(all, p);
    if dropped {
        let i = choose|i: int| 0 <= i < all.len() && !p(#[trigger] all[i]);
        assert(now >= all[i].instant + 5_000_000_000);
    }
    if exists|i: int| 0 <= i < all.len() && now >= (#[trigger] all[i]).instant + 5_000_000_000 {
        let i = choose|i: int|
            0 <= i < all.len() && now >= (#[trigger] all[i]).instant + 5_000_000_000;
        assert(!p(all[i]));
    }
}

proof fn lemma_filter_drops<T>(s: Seq<T>, p: spec_fn(T) -> bool)
    ensures
        s.filter(p).len() <= s.len(),
        s.filter(p).len() != s.len() <==> exists|i: int| 0 <= i < s.len() && !p(#[trigger] s[i]),
    decreases s.len(),
{
    reveal(Seq::filter);
    if s.len() > 0 {
        let rest = s.drop_last();
        lemma_filter_drops(rest, p);
        if exists|i: int| 0 <= i < rest.len() && !p(#[trigger] rest[i]) {
            let i = choose|i: int| 0 <= i < rest.len() && !p(#[trigger] rest[i]);
            assert(!p(s[i]));
        }
        if exists|i: int| 0 <= i < s.len() && !p(#[trigger] s[i]) {
            let i = choose|i: int| 0 <= i < s.len() && !p(#[trigger] s[i]);
            if i < rest.len() {
                assert(!p(rest[i]));
            }
        }
        if !p(s.last()) {
            assert(!p(s[s.len() - 1]));
        }
    }
}

/// The messages are told in the order in which they came.
pub proof fn law_messages_come_in_order(list: &NotificationList, r: Vec<&Notification>, fresh: NotificationList)
    requires
        call_ensures(NotificationList::notifications, (list,), r),
        call_ensures(NotificationList::new, (), fresh),
    ensures
        r@.len() == list.entries().len(),
        forall|i: int| 0 <= i < r@.len() ==> *#[trigger] r@[i] == list.entries()[i].notification,
        fresh.entries().len() == 0,
{
}

/// The lists of a page come in one order, round and round: albums, artists, playlists and tracks.
pub proof fn law_lists_come_round(
    tab: SubTab,
    next: SubTab,
    back: SubTab,
    previous: SubTab,
    forth: SubTab,
    at: usize,
)
    requires
        call_ensures(SubTab::next, (tab,), next),
        call_ensures(SubTab::previous, (next,), back),
        call_ensures(SubTab::previous, (tab,), previous),
        call_ensures(SubTab::next, (previous,), forth),
        call_ensures(SubTab::selected, (tab,), at),
    ensures
        tab == SubTab::Albums ==> next == SubTab::Artists && at == 0,
        tab == SubTab::Artists ==> next == SubTab::Playlists && at == 1,
        tab == SubTab::Playlists ==> next == SubTab::Tracks && at == 2,
        tab == SubTab::Tracks ==> next == SubTab::Albums && at == 3,
        back == tab,
        forth == tab,
{
}

/// Each list is shown under its name, at its place.
pub proof fn law_lists_are_shown_under_their_names(
    tab: SubTab,
    name: &'static str,
    labels: [&'static str; 4],
    at: usize,
)
    requires
        call_ensures(SubTab::as_str, (tab,), name),
        call_ensures(SubTab::labels, (), labels),
        call_ensures(SubTab::selected, (tab,), at),
    ensures
        tab == SubTab::Albums ==> name@ == "Albums"@,
        tab == SubTab::Artists ==> name@ == "Artists"@,
        tab == SubTab::Playlists ==> name@ == "Playlists"@,
        tab == SubTab::Tracks ==> name@ == "Tracks"@,
        labels@.len() == 4,
        labels@[at as int]@ == name@,
{
    assert(labels@[tab.place()]@ == tab.name());
}

/// A failure is told with what failed and why.
pub proof fn law_a_failure_is_told(path: &str, err: &str, read: String, decoded: String)
    requires
        call_ensures(read_failure, (path, err), read),
        call_ensures(decode_failure, (err,), decoded),
    ensures
        read@ == "Failed to read file: "@ + path@ + ": "@ + err@,
        decoded@ == "Failed to decode streaming FLAC: "@ + err@,
{
}

} // verus!
