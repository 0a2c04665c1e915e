//! What the plain server and its clients can be relied on to do.

use vstd::prelude::*;
use vstd::utf8::encode_utf8;
use crate::disconnect_client::{
    hex_text, md5_digest, secret, ClientEvent, ClientRequest, DisconnectClient,
};
use crate::disconnect_server::Refusal;
use crate::models::Volume;
use crate::player_connect::PlayerStatus;
use crate::player_server::{PlayerGroup, PlayerGroupState, PlayerGroups, PlayerServerEvent};
use crate::stream_laws::is_notation_of;
use crate::text::{lemma_without_text, views};
use crate::tracklist::{Tracklist, TracklistType};

verus! {

/// The group is there, and the device is the one that plays in it.
pub open spec fn is_player(groups: &PlayerGroups, secret: Seq<char>, device: Seq<char>) -> bool {
    &&& groups@.dom().contains(secret)
    &&& groups@[secret].current_device is Some
    &&& groups@[secret].current_device->0@ == device
}

/// All groups but one are as they were.
pub open spec fn others_are_kept(
    before: &PlayerGroups,
    after: &PlayerGroups,
    secret: Seq<char>,
) -> bool {
    forall|other: Seq<char>|
        other != secret ==> (#[trigger] after@.dom().contains(other) <==> before@.dom().contains(
            other,
        )) && (before@.dom().contains(other) ==> after@[other] == before@[other])
}

/// Every device but the one that plays is told what is played, how and where; commands go to the
/// device that plays alone, and which device that is goes to everyone.
pub proof fn law_a_device_is_told_what_others_do<C>(
    groups: &PlayerGroups,
    secret: &str,
    device: &str,
    event: &PlayerServerEvent<C>,
    r: bool,
)
    requires
        groups.wf(),
        call_ensures(PlayerGroups::should_send::<C>, (groups, secret, device, event), r),
    ensures
        event is Tracklist || event is Status || event is Position || event is Volume ==> (r
            <==> !is_player(groups, secret@, device@)),
        event is Control ==> (r <==> is_player(groups, secret@, device@)),
        event is ActiveDevice ==> r,
{
}

/// The device that was chosen is the one that plays, and everyone is told so.
pub proof fn law_the_chosen_device_plays<C>(
    groups: &mut PlayerGroups,
    secret: &str,
    device: &str,
    r: PlayerServerEvent<C>,
    after: &PlayerGroups,
    other: &str,
    active: bool,
)
    requires
        old(groups).wf(),
        call_ensures(PlayerGroups::set_current_device::<C>, (groups, secret, device), r),
        *after == *final(groups),
        call_ensures(PlayerGroups::is_active_device, (after, secret, other), active),
    ensures
        r matches PlayerServerEvent::ActiveDevice(told) && told@ == device@,
        active <==> other@ == device@,
        others_are_kept(old(groups), final(groups), secret@),
        old(groups)@.dom().contains(secret@) ==> {
            let g = old(groups)@[secret@];
            let h = final(groups)@[secret@];
            h.streams == g.streams && h.tracklist == g.tracklist && h.playback_status
                == g.playback_status && h.position == g.position && h.volume == g.volume
        },
{
}

/// A group that is asked for comes into being where it is not there: with no device and no track,
/// paused at the start and at full volume. One that is there is as it was.
pub proof fn law_a_group_comes_into_being(
    groups: &mut PlayerGroups,
    secret: &str,
    r: PlayerGroupState,
)
    requires
        old(groups).wf(),
        call_ensures(PlayerGroups::get_state, (groups, secret), r),
    ensures
        final(groups)@.dom().contains(secret@),
        others_are_kept(old(groups), final(groups), secret@),
        old(groups)@.dom().contains(secret@) ==> {
            let g = old(groups)@[secret@];
            &&& final(groups)@[secret@] == g
            &&& r.selected_device == g.current_device
            &&& views(r.available_devices@) == views(g.streams@)
            &&& r.playback_status == g.playback_status
            &&& r.tracklist.items() == g.tracklist.items()
            &&& r.position == g.position
            &&& r.volume == g.volume
        },
        !old(groups)@.dom().contains(secret@) ==> {
            &&& r.selected_device is None
            &&& r.available_devices@.len() == 0
            &&& r.playback_status == PlayerStatus::Paused
            &&& r.tracklist.items().len() == 0
            &&& r.tracklist.source() == TracklistType::Tracks
            &&& r.position == 0
            &&& r.volume.bits == 0x3f80_0000
        },
{
    assert(views(r.available_devices@).len() == r.available_devices@.len());
    assert(views(final(groups)@[secret@].streams@).len() == final(groups)@[secret@].streams@.len());
}

/// What the device that plays says of its playback is what the group is in afterwards, and is told
/// to the others; from any other device it is refused, and nothing changes.
pub proof fn law_what_the_player_says_is_known<C>(
    by_status: &mut PlayerGroups,
    by_position: &mut PlayerGroups,
    by_volume: &mut PlayerGroups,
    secret: &str,
    device: &str,
    status: PlayerStatus,
    position: u128,
    volume: Volume,
    r1: Result<PlayerServerEvent<C>, Refusal>,
    r2: Result<PlayerServerEvent<C>, Refusal>,
    r3: Result<PlayerServerEvent<C>, Refusal>,
)
    requires
        old(by_status).wf(),
        old(by_position).wf(),
        old(by_volume).wf(),
        call_ensures(PlayerGroups::set_status::<C>, (by_status, secret, device, status), r1),
        call_ensures(PlayerGroups::set_position::<C>, (by_position, secret, device, position), r2),
        call_ensures(PlayerGroups::set_volume::<C>, (by_volume, secret, device, volume), r3),
    ensures
        is_player(old(by_status), secret@, device@) ==> r1 == Ok::<_, Refusal>(
            PlayerServerEvent::<C>::Status(status),
        ) && final(by_status)@[secret@] == (PlayerGroup {
            playback_status: status,
            ..old(by_status)@[secret@]
        }) && others_are_kept(old(by_status), final(by_status), secret@),
        !is_player(old(by_status), secret@, device@) ==> r1 == Err::<
            PlayerServerEvent<C>,
            Refusal,
        >(Refusal::Forbidden) && final(by_status)@ == old(by_status)@,
        is_player(old(by_position), secret@, device@) ==> r2 == Ok::<_, Refusal>(
            PlayerServerEvent::<C>::Position(position),
        ) && final(by_position)@[secret@] == (PlayerGroup {
            position,
            ..old(by_position)@[secret@]
        }) && others_are_kept(old(by_position), final(by_position), secret@),
        !is_player(old(by_position), secret@, device@) ==> r2 == Err::<
            PlayerServerEvent<C>,
            Refusal,
        >(Refusal::Forbidden) && final(by_position)@ == old(by_position)@,
        is_player(old(by_volume), secret@, device@) ==> r3 == Ok::<_, Refusal>(
            PlayerServerEvent::<C>::Volume(volume),
        ) && final(by_volume)@[secret@] == (PlayerGroup { volume, ..old(by_volume)@[secret@] })
            && others_are_kept(old(by_volume), final(by_volume), secret@),
        !is_player(old(by_volume), secret@, device@) ==> r3 == Err::<
            PlayerServerEvent<C>,
            Refusal,
        >(Refusal::Forbidden) && final(by_volume)@ == old(by_volume)@,
{
}

/// The queue of the device that plays is what the group has afterwards; from any other device it is
/// refused.
pub proof fn law_the_players_queue_is_known<C>(
    groups: &mut PlayerGroups,
    secret: &str,
    device: &str,
    tracklist: Tracklist,
    r: Result<PlayerServerEvent<C>, Refusal>,
)
    requires
        old(groups).wf(),
        call_ensures(PlayerGroups::set_tracklist::<C>, (groups, secret, device, tracklist), r),
    ensures
        is_player(old(groups), secret@, device@) ==> {
            &&& r matches Ok(event) && (event matches PlayerServerEvent::Tracklist(told)
                && told.items() == tracklist.items() && told.source() == tracklist.source())
            &&& final(groups)@[secret@] == (PlayerGroup { tracklist, ..old(groups)@[secret@] })
            &&& others_are_kept(old(groups), final(groups), secret@)
        },
        !is_player(old(groups), secret@, device@) ==> r == Err::<PlayerServerEvent<C>, Refusal>(
            Refusal::Forbidden,
        ) && final(groups)@ == old(groups)@,
{
}

/// A command is passed on as it is from any device but the one that plays, whose own are refused.
pub proof fn law_commands_come_from_others<C>(
    groups: &mut PlayerGroups,
    secret: &str,
    device: &str,
    command: C,
    r: Result<PlayerServerEvent<C>, Refusal>,
)
    requires
        old(groups).wf(),
        call_ensures(PlayerGroups::control::<C>, (groups, secret, device, command), r),
    ensures
        is_player(old(groups), secret@, device@) ==> r == Err::<PlayerServerEvent<C>, Refusal>(
            Refusal::Forbidden,
        ) && final(groups)@ == old(groups)@,
        !is_player(old(groups), secret@, device@) ==> r == Ok::<_, Refusal>(
            PlayerServerEvent::Control(command),
        ) && others_are_kept(old(groups), final(groups), secret@),
        old(groups)@.dom().contains(secret@) ==> final(groups)@[secret@] == old(groups)@[secret@],
{
}

/// A device that joins is in its group, once, behind those that are there, and nothing else of the
/// group changes.
pub proof fn law_a_device_that_joins_is_listed(
    groups: &mut PlayerGroups,
    secret: &str,
    device: &str,
)
    requires
        old(groups).wf(),
        call_ensures(PlayerGroups::stream_handler, (groups, secret, device), ()),
    ensures
        final(groups)@.dom().contains(secret@),
        views(final(groups)@[secret@].streams@).contains(device@),
        others_are_kept(old(groups), final(groups), secret@),
        old(groups)@.dom().contains(secret@) ==> {
            let g = old(groups)@[secret@];
            let h = final(groups)@[secret@];
            &&& h.current_device == g.current_device
            &&& h.tracklist == g.tracklist
            &&& h.playback_status == g.playback_status
            &&& h.position == g.position
            &&& h.volume == g.volume
            &&& views(g.streams@).contains(device@) ==> views(h.streams@) == views(g.streams@)
            &&& !views(g.streams@).contains(device@) ==> views(h.streams@) == views(
                g.streams@,
            ).push(device@)
        },
        !old(groups)@.dom().contains(secret@) ==> views(final(groups)@[secret@].streams@) == seq![
            device@,
        ] && final(groups)@[secret@].current_device is None,
{
    let h = views(final(groups)@[secret@].streams@);
    if old(groups)@.dom().contains(secret@) {
        let g = views(old(groups)@[secret@].streams@);
        if !g.contains(device@) {
            assert(h[g.len() as int] == device@);
        }
    } else {
        let none = Seq::<Seq<char>>::empty();
        assert(!none.contains(device@));
        assert(h =~= seq![device@]);
        assert(h[0] == device@);
    }
}

/// A device that leaves is no longer in its group, all others are; the group ends with its last
/// device, and no other group changes.
pub proof fn law_a_device_that_leaves_is_gone(
    groups: &mut PlayerGroups,
    secret: &str,
    device: &str,
    other: Seq<char>,
)
    requires
        old(groups).wf(),
        call_ensures(PlayerGroups::leave, (groups, secret, device), ()),
    ensures
        others_are_kept(old(groups), final(groups), secret@),
        !old(groups)@.dom().contains(secret@) ==> final(groups)@ == old(groups)@,
        final(groups)@.dom().contains(secret@) ==> !views(
            final(groups)@[secret@].streams@,
        ).contains(device@),
        old(groups)@.dom().contains(secret@) && other != device@ && views(
            old(groups)@[secret@].streams@,
        ).contains(other) ==> final(groups)@.dom().contains(secret@) && views(
            final(groups)@[secret@].streams@,
        ).contains(other) && final(groups)@[secret@].current_device
            == old(groups)@[secret@].current_device,
        old(groups)@.dom().contains(secret@) && (forall|i: int|
            0 <= i < old(groups)@[secret@].streams@.len() ==> (
            #[trigger] old(groups)@[secret@].streams@[i])@ == device@) ==> !final(groups)@.dom().contains(secret@),
{
    if old(groups)@.dom().contains(secret@) {
        let all = views(old(groups)@[secret@].streams@);
        let left = crate::text::without_text(all, device@);
        lemma_without_text(all, device@);
        if left.len() == 0 {
            assert(!left.contains(other));
        }
        if forall|i: int|
            0 <= i < old(groups)@[secret@].streams@.len() ==> (
            #[trigger] old(groups)@[secret@].streams@[i])@ == device@ {
            if left.len() > 0 {
                assert(left.contains(left[0]));
                assert(all.contains(left[0]));
                let k = choose|k: int| 0 <= k < all.len() && all[k] == left[0];
                assert(old(groups)@[secret@].streams@[k]@ == device@);
            }
        }
    }
}

/// A server starts without groups.
pub proof fn law_a_server_starts_without_groups(r: PlayerGroups, secret: &str, there: bool)
    requires
        call_ensures(PlayerGroups::new, (), r),
        call_ensures(PlayerGroups::contains, (&r, secret), there),
    ensures
        !there,
{
}

/// The secret of a group is the notation of the digest of its password: two digits for each of its
/// bytes, in lower case.
pub proof fn law_a_secret_is_the_notation_of_a_digest(
    password: &str,
    r: String,
    bytes: &[u8],
    text: String,
)
    requires
        call_ensures(secret, (password,), r),
        call_ensures(hex_text, (bytes,), text),
    ensures
        is_notation_of(r@, md5_digest(encode_utf8(password@))),
        is_notation_of(text@, bytes@),
        forall|i: int| 0 <= i < text@.len() ==> !('A' <= #[trigger] text@[i] <= 'Z'),
{
    lemma_notation(md5_digest(encode_utf8(password@)));
    lemma_notation(bytes@);
}

proof fn lemma_notation(b: Seq<u8>)
    ensures
        is_notation_of(crate::disconnect_client::hex_notation(b), b),
        forall|i: int|
            0 <= i < crate::disconnect_client::hex_notation(b).len() ==> !('A'
                <= #[trigger] crate::disconnect_client::hex_notation(b)[i] <= 'Z'),
{
    let text = crate::disconnect_client::hex_notation(b);
    assert forall|i: int| 0 <= i < b.len() implies crate::stream_laws::is_digit_of(
        text[2 * i],
        (#[trigger] b[i]) as int / 16,
    ) && crate::stream_laws::is_digit_of(text[2 * i + 1], b[i] as int % 16) by {
        assert((2 * i) / 2 == i);
        assert((2 * i + 1) / 2 == i);
    }
}

/// A request names the group by its secret, and the device where it is for one.
pub proof fn law_a_request_names_its_group(
    base: &str,
    key: String,
    device: &str,
    client: DisconnectClient,
    state: String,
    chosen: String,
    list: String,
    status: String,
    position: String,
    volume: String,
    control: String,
    stream: String,
)
    requires
        call_ensures(DisconnectClient::with_secret, (base, key, device), client),
        call_ensures(DisconnectClient::request_url, (&client, ClientRequest::State), state),
        call_ensures(DisconnectClient::request_url, (&client, ClientRequest::CurrentDevice), chosen),
        call_ensures(DisconnectClient::request_url, (&client, ClientRequest::Tracklist), list),
        call_ensures(DisconnectClient::request_url, (&client, ClientRequest::Status), status),
        call_ensures(DisconnectClient::request_url, (&client, ClientRequest::Position), position),
        call_ensures(DisconnectClient::request_url, (&client, ClientRequest::Volume), volume),
        call_ensures(DisconnectClient::request_url, (&client, ClientRequest::Control), control),
        call_ensures(DisconnectClient::stream_url, (&client,), stream),
    ensures
        state@ == base@ + "/state"@ + "?secret="@ + key@,
        chosen@ == base@ + "/current-device"@ + "?secret="@ + key@,
        list@ == base@ + "/tracklist"@ + "?secret="@ + key@ + "&device_id="@ + device@,
        status@ == base@ + "/status"@ + "?secret="@ + key@ + "&device_id="@ + device@,
        position@ == base@ + "/position"@ + "?secret="@ + key@ + "&device_id="@ + device@,
        volume@ == base@ + "/volume"@ + "?secret="@ + key@ + "&device_id="@ + device@,
        control@ == base@ + "/control"@ + "?secret="@ + key@ + "&device_id="@ + device@,
        stream@ == base@ + "/stream"@ + "?secret="@ + key@ + "&device_id="@ + device@,
{
}

/// A client made with a password is the one made with the secret of that password.
pub proof fn law_a_password_stands_for_its_secret(
    base: &str,
    password: &str,
    device: &str,
    client: DisconnectClient,
    key: String,
    other: DisconnectClient,
)
    requires
        call_ensures(DisconnectClient::new, (base, password, device), client),
        call_ensures(secret, (password,), key),
        call_ensures(DisconnectClient::with_secret, (base, key, device), other),
    ensures
        client.base() == other.base(),
        client.device() == other.device(),
        client.group_secret() == other.group_secret(),
{
}

/// What a client is told it takes as it is, and it is active where the device that plays has its
/// name.
pub proof fn law_a_client_takes_what_it_is_told<C>(
    base: &str,
    key: String,
    device: &str,
    client: DisconnectClient,
    event: PlayerServerEvent<C>,
    r: ClientEvent<C>,
)
    requires
        call_ensures(DisconnectClient::with_secret, (base, key, device), client),
        call_ensures(DisconnectClient::received::<C>, (&client, event), r),
    ensures
        event matches PlayerServerEvent::ActiveDevice(named) ==> r == ClientEvent::<C>::Active(
            named@ == device@,
        ),
        event matches PlayerServerEvent::Status(status) ==> r == ClientEvent::<C>::Status(status),
        event matches PlayerServerEvent::Tracklist(list) ==> r == ClientEvent::<C>::Tracklist(list),
        event matches PlayerServerEvent::Position(position) ==> r == ClientEvent::<C>::Position(
            position,
        ),
        event matches PlayerServerEvent::Volume(volume) ==> r == ClientEvent::<C>::Volume(volume),
        event matches PlayerServerEvent::Control(command) ==> r == ClientEvent::<C>::Control(
            command,
        ),
{
}

} // verus!
