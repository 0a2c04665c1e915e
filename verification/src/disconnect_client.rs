//! The client of the plain server: where it reports to, and what it makes of what it is told.

use vstd::prelude::*;
use vstd::utf8::encode_utf8;
use crate::models::Volume;
use crate::player_connect::PlayerStatus;
use crate::player_server::PlayerServerEvent;
use crate::text::owned;
use crate::tracklist::Tracklist;

verus! {

/// The MD5 digest of bytes, by `md5`.
pub uninterp spec fn md5_digest(data: Seq<u8>) -> Seq<u8>;

/// `md5::compute`: the sixteen bytes of the digest, told by the data alone.
#[verifier::external_body]
fn digest(data: &[u8]) -> (r: [u8; 16])
    ensures
        r@ == md5_digest(data@),
{
    md5::compute(data).0
}

/// The hexadecimal digit of a number below sixteen.
pub open spec fn hex_digit(n: int) -> char {
    if n < 10 {
        ('0' as int + n) as char
    } else {
        ('a' as int + (n - 10)) as char
    }
}

/// Bytes in hexadecimal notation, two digits each.
pub open spec fn hex_notation(bytes: Seq<u8>) -> Seq<char> {
    Seq::new(
        2 * bytes.len(),
        |i: int|
            if i % 2 == 0 {
                hex_digit(bytes[i / 2] as int / 16)
            } else {
                hex_digit(bytes[i / 2] as int % 16)
            },
    )
}

fn hex_char(n: u8) -> (r: char)
    requires
        n < 16,
    ensures
        r == hex_digit(n as int),
{
    if n < 10 {
        (48 + n) as char
    } else {
        (97 + (n - 10)) as char
    }
}

/// Bytes in hexadecimal notation.
pub fn hex_text(bytes: &[u8]) -> (r: String)
    ensures
        r@ == hex_notation(bytes@),
{
    let mut s = String::new();
    assert(s@ =~= hex_notation(bytes@.take(0)));
    for i in 0..bytes.len()
        invariant
            s@ == hex_notation(bytes@.take(i as int)),
    {
        let ghost before = s@;
        let byte: u8 = bytes[i];
        s.push(hex_char(byte / 16));
        s.push(hex_char(byte % 16));
        proof {
            let more = hex_notation(bytes@.take(i + 1));
            assert(more.len() == 2 * i + 2);
            assert forall|k: int| 0 <= k < 2 * i + 2 implies s@[k] == more[k] by {
                if k < 2 * i {
                    assert(bytes@.take(i + 1)[k / 2] == bytes@.take(i as int)[k / 2]);
                }
            }
            assert(s@ =~= more);
        }
    }
    assert(bytes@.take(bytes@.len() as int) =~= bytes@);
    s
}

/// The secret that stands for a password.
pub open spec fn secret_of(password: Seq<char>) -> Seq<char> {
    hex_notation(md5_digest(encode_utf8(password)))
}

/// The secret of a group of devices: the digest of its password in hexadecimal notation.
pub fn secret(password: &str) -> (r: String)
    ensures
        r@ == secret_of(password@),
{
    hex_text(&digest(password.as_bytes()))
}

/// A request that a client makes.
#[derive(Clone, Copy, Debug, PartialEq, Eq, Structural)]
pub enum ClientRequest {
    State,
    CurrentDevice,
    Tracklist,
    Status,
    Position,
    Volume,
    Control,
}

/// The path of a request.
pub open spec fn path_of(request: ClientRequest) -> Seq<char> {
    match request {
        ClientRequest::State => "/state"@,
        ClientRequest::CurrentDevice => "/current-device"@,
        ClientRequest::Tracklist => "/tracklist"@,
        ClientRequest::Status => "/status"@,
        ClientRequest::Position => "/position"@,
        ClientRequest::Volume => "/volume"@,
        ClientRequest::Control => "/control"@,
    }
}

/// The requests that name no device.
pub open spec fn is_for_group(request: ClientRequest) -> bool {
    request == ClientRequest::State || request == ClientRequest::CurrentDevice
}

/// What a client does with what it is told.
pub enum ClientEvent<C> {
    Status(PlayerStatus),
    Tracklist(Tracklist),
    Position(u128),
    /// Whether this device is the one that plays.
    Active(bool),
    Volume(Volume),
    Control(C),
}

/// A device of a group.
pub struct DisconnectClient {
    device_name: String,
    base_url: String,
    secret: String,
}

impl DisconnectClient {
    /// The name of the device.
    pub closed spec fn device(&self) -> Seq<char> {
        self.device_name@
    }

    /// The address of the server.
    pub closed spec fn base(&self) -> Seq<char> {
        self.base_url@
    }

    /// The secret of the group.
    pub closed spec fn group_secret(&self) -> Seq<char> {
        self.secret@
    }

    pub fn new(base_url: &str, password: &str, device_name: &str) -> (r: Self)
        ensures
            r.device() == device_name@,
            r.base() == base_url@,
            r.group_secret() == secret_of(password@),
    {
        Self::with_secret(base_url, secret(password), device_name)
    }

    /// A device of the group with that secret.
    pub fn with_secret(base_url: &str, secret: String, device_name: &str) -> (r: Self)
        ensures
            r.device() == device_name@,
            r.base() == base_url@,
            r.group_secret() == secret@,
    {
        DisconnectClient { device_name: owned(device_name), base_url: owned(base_url), secret }
    }

    /// An address with the secret of the group.
    fn url(&self, path: &str) -> (r: String)
        ensures
            r@ == self.base() + path@ + "?secret="@ + self.group_secret(),
    {
        self.base_url.as_str().to_owned().concat(path).concat("?secret=").concat(&self.secret)
    }

    /// An address that names the device too.
    fn device_url(&self, path: &str) -> (r: String)
        ensures
            r@ == self.base() + path@ + "?secret="@ + self.group_secret() + "&device_id="@
                + self.device(),
    {
        self.url(path).concat("&device_id=").concat(&self.device_name)
    }

    /// The address of a request.
    pub fn request_url(&self, request: ClientRequest) -> (r: String)
        ensures
            r@ == if is_for_group(request) {
                self.base() + path_of(request) + "?secret="@ + self.group_secret()
            } else {
                self.base() + path_of(request) + "?secret="@ + self.group_secret() + "&device_id="@
                    + self.device()
            },
    {
        match request {
            ClientRequest::State => self.url("/state"),
            ClientRequest::CurrentDevice => self.url("/current-device"),
            ClientRequest::Tracklist => self.device_url("/tracklist"),
            ClientRequest::Status => self.device_url("/status"),
            ClientRequest::Position => self.device_url("/position"),
            ClientRequest::Volume => self.device_url("/volume"),
            ClientRequest::Control => self.device_url("/control"),
        }
    }

    /// The address at which the client listens.
    pub fn stream_url(&self) -> (r: String)
        ensures
            r@ == self.base() + "/stream"@ + "?secret="@ + self.group_secret() + "&device_id="@
                + self.device(),
    {
        self.device_url("/stream")
    }

    /// What the client does with what it is told. The device that plays is this one where it has
    /// this one's name.
    pub fn received<C>(&self, event: PlayerServerEvent<C>) -> (r: ClientEvent<C>)
        ensures
            match event {
                PlayerServerEvent::Status(status) => r == ClientEvent::<C>::Status(status),
                PlayerServerEvent::Tracklist(list) => r == ClientEvent::<C>::Tracklist(list),
                PlayerServerEvent::Position(position) => r == ClientEvent::<C>::Position(position),
                PlayerServerEvent::ActiveDevice(device) => r == ClientEvent::<C>::Active(
                    device@ == self.device(),
                ),
                PlayerServerEvent::Volume(volume) => r == ClientEvent::<C>::Volume(volume),
                PlayerServerEvent::Control(command) => r == ClientEvent::<C>::Control(command),
            },
    {
        match event {
            PlayerServerEvent::Status(status) => ClientEvent::Status(status),
            PlayerServerEvent::Tracklist(list) => ClientEvent::Tracklist(list),
            PlayerServerEvent::Position(position) => ClientEvent::Position(position),
            PlayerServerEvent::ActiveDevice(device) => ClientEvent::Active(
                device == self.device_name,
            ),
            PlayerServerEvent::Volume(volume) => ClientEvent::Volume(volume),
            PlayerServerEvent::Control(command) => ClientEvent::Control(command),
        }
    }
}

} // verus!
