//! Keys and decryption of the streamed audio.

use vstd::prelude::*;
use vstd::utf8::{encode_utf8, is_ascii_chars_encode_utf8, valid_utf8};
use aes::cipher::{BlockModeDecrypt, KeyIvInit, StreamCipher};
use base64::Engine;
use crate::error::{is_stream_error, stream_error, Error};
use crate::sequences::{first_match, lemma_first_match, lemma_no_match};
use crate::text::{decimal, decimal_text, lemma_split_len, owned, split, split_text, views};

verus! {

/// The input key material of the session key, in hexadecimal notation.
pub const RNG_INIT: &'static str = "abb21364945c0583309667d13ca3d93a";

/// The bytes that a text in URL-safe base64 without padding stands for, or the decoder's message.
pub uninterp spec fn base64url(text: Seq<char>) -> Result<Seq<u8>, Seq<char>>;

/// The first bytes of HKDF-SHA256 for a salt, input key material and info.
pub uninterp spec fn hkdf_sha256(salt: Seq<u8>, ikm: Seq<u8>, info: Seq<u8>) -> Seq<u8>;

/// The plaintext of AES-128-CBC with PKCS#7 padding, or the cipher's message.
pub uninterp spec fn aes128_cbc_pkcs7(key: Seq<u8>, iv: Seq<u8>, data: Seq<u8>) -> Result<
    Seq<u8>,
    Seq<char>,
>;

/// The byte of the AES-128-CTR keystream at `index`.
pub uninterp spec fn aes128_ctr_keystream(key: Seq<u8>, nonce: Seq<u8>, index: int) -> u8;

/// Bytes, or a message, as sequences.
pub open spec fn outcome(r: Result<Vec<u8>, String>) -> Result<Seq<u8>, Seq<char>> {
    match r {
        Ok(bytes) => Ok(bytes@),
        Err(message) => Err(message@),
    }
}

/// The message about bytes that are no UTF-8.
pub uninterp spec fn utf8_error_text(bytes: Seq<u8>) -> Seq<char>;

/// `base64::Engine::decode` of the engine `URL_SAFE_NO_PAD`: the decoded bytes, or the text of the
/// `DecodeError`. What is decoded to what is left to the decoder; it depends on the text alone.
#[verifier::external_body]
fn base64url_decode(text: &str) -> (r: Result<Vec<u8>, String>)
    ensures
        outcome(r) == base64url(text@),
{
    base64::engine::general_purpose::URL_SAFE_NO_PAD.decode(text).map_err(|e| e.to_string())
}

/// `hkdf::GenericHkdf::new` and `expand` with HMAC-SHA256: sixteen bytes of output key material.
/// Expanding fails only where more than 255 hashes are asked for, so it succeeds here.
#[verifier::external_body]
fn hkdf_expand(salt: &[u8], ikm: &[u8], info: &[u8]) -> (r: Result<[u8; 16], String>)
    ensures
        r is Ok,
        r->Ok_0@ == hkdf_sha256(salt@, ikm@, info@),
{
    let mut okm = [0u8; 16];
    hkdf::GenericHkdf::<hkdf::hmac::Hmac<sha2::Sha256>>::new(Some(salt), ikm)
        .expand(info, &mut okm)
        .map_err(|e| e.to_string())?;
    Ok(okm)
}

/// `cipher::BlockModeDecrypt::decrypt_padded` of `cbc::Decryptor<aes::Aes128>` with PKCS#7: the
/// unpadded plaintext, or the text of the padding error. It fails where the data is no whole
/// number of blocks.
#[verifier::external_body]
fn cbc_decrypt(key: &[u8; 16], iv: &[u8; 16], data: &[u8]) -> (r: Result<Vec<u8>, String>)
    ensures
        outcome(r) == aes128_cbc_pkcs7(key@, iv@, data@),
        data@.len() % 16 != 0 ==> r is Err,
{
    let mut buf = data.to_vec();
    cbc::Decryptor::<aes::Aes128>::new(key.into(), iv.into())
        .decrypt_padded::<aes::cipher::block_padding::Pkcs7>(&mut buf)
        .map(|plain| plain.to_vec())
        .map_err(|e| e.to_string())
}

/// `cipher::StreamCipher::apply_keystream` of `ctr::Ctr128BE<aes::Aes128>`: each byte is combined
/// by exclusive or with the byte of the keystream at its index. The keystream has more blocks
/// than memory can hold, so its end is not reached.
#[verifier::external_body]
fn ctr_apply(key: &[u8; 16], nonce: &[u8; 16], data: &mut [u8])
    ensures
        final(data)@ == Seq::new(
            old(data)@.len(),
            |i: int| old(data)@[i] ^ aes128_ctr_keystream(key@, nonce@, i),
        ),
{
    ctr::Ctr128BE::<aes::Aes128>::new(key.into(), nonce.into()).apply_keystream(data);
}

/// `std::str::from_utf8`: whether the bytes are UTF-8, and the text of its error where they are
/// not.
#[verifier::external_body]
fn utf8_fault(bytes: &[u8]) -> (r: Option<String>)
    ensures
        r is None <==> valid_utf8(bytes@),
        r matches Some(message) ==> message@ == utf8_error_text(bytes@),
{
    std::str::from_utf8(bytes).err().map(|e| e.to_string())
}

/// The value of a hexadecimal digit.
pub open spec fn hex_digit(c: u8) -> Option<int> {
    if 0x30 <= c <= 0x39 {
        Some(c - 0x30)
    } else if 0x61 <= c <= 0x66 {
        Some(c - 0x61 + 10)
    } else if 0x41 <= c <= 0x46 {
        Some(c - 0x41 + 10)
    } else {
        None
    }
}

/// The value of two characters in hexadecimal notation; the first may be a plus sign.
pub open spec fn hex_pair(pair: (u8, u8)) -> Option<int> {
    match (hex_digit(pair.0), hex_digit(pair.1)) {
        (Some(high), Some(low)) => Some(high * 16 + low),
        (None, Some(low)) => if pair.0 == 0x2b {
            Some(low)
        } else {
            None
        },
        _ => None,
    }
}

/// The bytes two by two.
pub open spec fn pairs(b: Seq<u8>) -> Seq<(u8, u8)> {
    Seq::new(b.len() / 2, |i: int| (b[2 * i], b[2 * i + 1]))
}

/// A pair is no byte in hexadecimal notation.
pub open spec fn is_bad_pair() -> spec_fn((u8, u8)) -> bool {
    |pair: (u8, u8)| hex_pair(pair) is None
}

/// What hexadecimal notation stands for, or the message about the first pair that is wrong.
pub open spec fn hex_bytes(b: Seq<u8>) -> Result<Seq<u8>, Seq<char>> {
    if b.len() % 2 != 0 {
        Err("hex string must have an even length"@)
    } else {
        match first_match(pairs(b), is_bad_pair()) {
            Some(i) => {
                let pair = seq![b[2 * i], b[2 * i + 1]];
                if valid_utf8(pair) {
                    Err(
                        "hex decode error at byte "@ + decimal(i as nat)
                            + ": invalid digit found in string"@,
                    )
                } else {
                    Err(
                        "invalid UTF-8 in hex byte "@ + decimal(i as nat) + ": "@
                            + utf8_error_text(pair),
                    )
                }
            },
            None => Ok(Seq::new(pairs(b).len(), |i: int| hex_pair(pairs(b)[i])->0 as u8)),
        }
    }
}

/// The value of a hexadecimal digit.
fn hex_digit_value(c: u8) -> (r: Option<u8>)
    ensures
        match r {
            Some(n) => hex_digit(c) == Some(n as int) && n < 16,
            None => hex_digit(c) is None,
        },
{
    if c >= 0x30 && c <= 0x39 {
        Some(c - 0x30)
    } else if c >= 0x61 && c <= 0x66 {
        Some(c - 0x61 + 10)
    } else if c >= 0x41 && c <= 0x46 {
        Some(c - 0x41 + 10)
    } else {
        None
    }
}

/// The value of two characters in hexadecimal notation.
fn hex_pair_value(high: u8, low: u8) -> (r: Option<u8>)
    ensures
        match r {
            Some(n) => hex_pair((high, low)) == Some(n as int),
            None => hex_pair((high, low)) is None,
        },
{
    match (hex_digit_value(high), hex_digit_value(low)) {
        (Some(h), Some(l)) => Some(h * 16 + l),
        (None, Some(l)) => if high == 0x2b {
            Some(l)
        } else {
            None
        },
        _ => None,
    }
}

pub fn hex_decode(hex: &str) -> (r: Result<Vec<u8>, Error>)
    ensures
        match hex_bytes(encode_utf8(hex@)) {
            Ok(bytes) => r matches Ok(b) && b@ == bytes,
            Err(message) => r matches Err(e) && is_stream_error(e, message),
        },
{
    let bytes: &[u8] = hex.as_bytes();
    let total: usize = bytes.len();
    if total % 2 != 0 {
        return Err(stream_error("hex string must have an even length"));
    }
    let count: usize = total / 2;
    let ghost all = pairs(bytes@);
    let mut decoded: Vec<u8> = Vec::new();
    for i in 0..count
        invariant
            total == bytes@.len(),
            total % 2 == 0,
            count == total / 2,
            all == pairs(bytes@),
            bytes@ == encode_utf8(hex@),
            decoded@.len() == i,
            forall|j: int|
                0 <= j < i ==> hex_pair(#[trigger] all[j]) == Some(decoded@[j] as int),
    {
        match hex_pair_value(bytes[2 * i], bytes[2 * i + 1]) {
            Some(n) => {
                decoded.push(n);
            },
            None => {
                proof {
                    assert(is_bad_pair()(all[i as int]));
                    assert forall|j: int| 0 <= j < i implies !is_bad_pair()(#[trigger] all[j]) by {
                        assert(hex_pair(all[j]) is Some);
                    }
                    lemma_first_match(all, is_bad_pair(), i as int);
                }
                let mut pair: Vec<u8> = Vec::new();
                pair.push(bytes[2 * i]);
                pair.push(bytes[2 * i + 1]);
                assert(pair@ =~= seq![bytes@[2 * i], bytes@[2 * i + 1]]);
                let message = match utf8_fault(pair.as_slice()) {
                    Some(fault) => owned("invalid UTF-8 in hex byte ").concat(
                        decimal_text(i as u128).as_str(),
                    ).concat(": ").concat(fault.as_str()),
                    None => owned("hex decode error at byte ").concat(
                        decimal_text(i as u128).as_str(),
                    ).concat(": invalid digit found in string"),
                };
                return Err(Error::Stream { message });
            },
        }
    }
    proof {
        assert forall|j: int| 0 <= j < all.len() implies !is_bad_pair()(#[trigger] all[j]) by {
            assert(hex_pair(all[j]) is Some);
        }
        lemma_no_match(all, is_bad_pair());
        assert(decoded@ =~= Seq::new(all.len(), |i: int| hex_pair(all[i])->0 as u8));
    }
    Ok(decoded)
}

/// The bytes of a part of a text, or the message that it cannot be decoded.
pub open spec fn decoded_part(what: Seq<char>, decoded: Result<Seq<u8>, Seq<char>>) -> Result<
    Seq<u8>,
    Seq<char>,
> {
    match decoded {
        Ok(bytes) => Ok(bytes),
        Err(e) => Err("failed to decode "@ + what + ": "@ + e),
    }
}

/// Tells what could not be decoded.
pub fn decode_outcome(what: &str, decoded: Result<Vec<u8>, String>) -> (r: Result<Vec<u8>, Error>)
    ensures
        match decoded_part(what@, outcome(decoded)) {
            Ok(bytes) => r matches Ok(b) && b@ == bytes,
            Err(message) => r matches Err(e) && is_stream_error(e, message),
        },
{
    match decoded {
        Ok(bytes) => Ok(bytes),
        Err(e) => Err(
            Error::Stream {
                message: owned("failed to decode ").concat(what).concat(": ").concat(e.as_str()),
            },
        ),
    }
}

/// The session key for the `infos` of a session start: a salt and an info, divided by a dot.
pub open spec fn session_key(infos: Seq<char>) -> Result<Seq<u8>, Seq<char>> {
    let parts = split(infos, '.');
    if parts.len() < 2 {
        Err("session infos must have at least 2 dot-separated parts"@)
    } else {
        match (
            decoded_part("session salt"@, base64url(parts[0])),
            decoded_part("session info"@, base64url(parts[1])),
            hex_bytes(encode_utf8(RNG_INIT@)),
        ) {
            (Err(e), _, _) => Err(e),
            (_, Err(e), _) => Err(e),
            (_, _, Err(e)) => Err(e),
            (Ok(salt), Ok(info), Ok(ikm)) => Ok(hkdf_sha256(salt, ikm, info)),
        }
    }
}

/// Derive the 16-byte session key from the session/start `infos` field.
///
/// infos format: "`salt_b64url.info_b64url`"
pub fn derive_session_key(infos: &str) -> (r: Result<[u8; 16], Error>)
    ensures
        match session_key(infos@) {
            Ok(key) => r matches Ok(k) && k@ == key,
            Err(message) => r matches Err(e) && is_stream_error(e, message),
        },
{
    let parts = split_text(infos, '.');
    proof {
        assert(views(parts@).len() == parts@.len());
        lemma_split_len(infos@, '.');
    }
    if parts.len() < 2 {
        return Err(stream_error("session infos must have at least 2 dot-separated parts"));
    }
    assert(split(infos@, '.')[0] == parts@[0]@ && split(infos@, '.')[1] == parts@[1]@);
    let salt = match decode_outcome("session salt", base64url_decode(parts[0].as_str())) {
        Ok(bytes) => bytes,
        Err(e) => return Err(e),
    };
    let info = match decode_outcome("session info", base64url_decode(parts[1].as_str())) {
        Ok(bytes) => bytes,
        Err(e) => return Err(e),
    };
    let ikm = match hex_decode(RNG_INIT) {
        Ok(bytes) => bytes,
        Err(e) => return Err(e),
    };
    match hkdf_expand(salt.as_slice(), ikm.as_slice(), info.as_slice()) {
        Ok(key) => Ok(key),
        Err(e) => Err(Error::Stream { message: owned("HKDF expand failed: ").concat(e.as_str()) }),
    }
}

/// The initialisation vector of a wrapped key, or the message that it has another length.
pub open spec fn unwrap_vector(iv: Seq<u8>) -> Result<Seq<u8>, Seq<char>> {
    if iv.len() == 16 {
        Ok(iv)
    } else {
        Err("unwrap IV must be 16 bytes, got "@ + decimal(iv.len()))
    }
}

/// The content key that a cipher unwrapped, or the message that it is none.
pub open spec fn unwrapped_key(plain: Result<Seq<u8>, Seq<char>>) -> Result<Seq<u8>, Seq<char>> {
    match plain {
        Err(e) => Err("AES-CBC unwrap failed: "@ + e),
        Ok(key) => if key.len() == 16 {
            Ok(key)
        } else {
            Err("unwrapped key must be 16 bytes, got "@ + decimal(key.len()))
        },
    }
}

/// The content key in a key string: a prefix, the wrapped key and the initialisation vector,
/// divided by dots.
pub open spec fn content_key(session_key: Seq<u8>, key_str: Seq<char>) -> Result<
    Seq<u8>,
    Seq<char>,
> {
    let parts = split(key_str, '.');
    if parts.len() < 3 {
        Err("key string must have at least 3 dot-separated parts"@)
    } else {
        match (
            decoded_part("wrapped key"@, base64url(parts[1])),
            decoded_part("unwrap IV"@, base64url(parts[2])),
        ) {
            (Err(e), _) => Err(e),
            (_, Err(e)) => Err(e),
            (Ok(wrapped), Ok(iv)) => match unwrap_vector(iv) {
                Err(e) => Err(e),
                Ok(iv) => unwrapped_key(aes128_cbc_pkcs7(session_key, iv, wrapped)),
            },
        }
    }
}

/// The bytes as an array of sixteen, if there are as many.
fn sixteen(bytes: &Vec<u8>) -> (r: Option<[u8; 16]>)
    ensures
        match r {
            Some(array) => bytes@.len() == 16 && array@ == bytes@,
            None => bytes@.len() != 16,
        },
{
    if bytes.len() != 16 {
        return None;
    }
    let mut array: [u8; 16] = [0u8;16];
    for i in 0..16usize
        invariant
            bytes@.len() == 16,
            forall|j: int| 0 <= j < i ==> #[trigger] array@[j] == bytes@[j],
    {
        array[i] = bytes[i];
    }
    assert(array@ =~= bytes@);
    Some(array)
}

/// Takes the initialisation vector of a wrapped key.
pub fn take_unwrap_vector(iv: Vec<u8>) -> (r: Result<[u8; 16], Error>)
    ensures
        match unwrap_vector(iv@) {
            Ok(vector) => r matches Ok(v) && v@ == vector,
            Err(message) => r matches Err(e) && is_stream_error(e, message),
        },
{
    match sixteen(&iv) {
        Some(vector) => Ok(vector),
        None => Err(
            Error::Stream {
                message: owned("unwrap IV must be 16 bytes, got ").concat(
                    decimal_text(iv.len() as u128).as_str(),
                ),
            },
        ),
    }
}

/// Takes the content key that a cipher unwrapped.
pub fn take_unwrapped_key(plain: Result<Vec<u8>, String>) -> (r: Result<[u8; 16], Error>)
    ensures
        match unwrapped_key(outcome(plain)) {
            Ok(key) => r matches Ok(k) && k@ == key,
            Err(message) => r matches Err(e) && is_stream_error(e, message),
        },
{
    let plain = match plain {
        Ok(plain) => plain,
        Err(e) => return Err(
            Error::Stream { message: owned("AES-CBC unwrap failed: ").concat(e.as_str()) },
        ),
    };
    match sixteen(&plain) {
        Some(key) => Ok(key),
        None => Err(
            Error::Stream {
                message: owned("unwrapped key must be 16 bytes, got ").concat(
                    decimal_text(plain.len() as u128).as_str(),
                ),
            },
        ),
    }
}

/// Unwrap the per-track content key using the session key.
///
/// `key_str` format: "qbz-1.wrapped_key_b64url.iv_b64url"
pub fn unwrap_content_key(session_key: &[u8; 16], key_str: &str) -> (r: Result<[u8; 16], Error>)
    ensures
        match content_key(session_key@, key_str@) {
            Ok(key) => r matches Ok(k) && k@ == key,
            Err(message) => r matches Err(e) && is_stream_error(e, message),
        },
{
    let parts = split_text(key_str, '.');
    assert(views(parts@).len() == parts@.len());
    if parts.len() < 3 {
        return Err(stream_error("key string must have at least 3 dot-separated parts"));
    }
    assert(split(key_str@, '.')[1] == parts@[1]@ && split(key_str@, '.')[2] == parts@[2]@);
    let wrapped = match decode_outcome("wrapped key", base64url_decode(parts[1].as_str())) {
        Ok(bytes) => bytes,
        Err(e) => return Err(e),
    };
    let iv_bytes = match decode_outcome("unwrap IV", base64url_decode(parts[2].as_str())) {
        Ok(bytes) => bytes,
        Err(e) => return Err(e),
    };
    let iv = match take_unwrap_vector(iv_bytes) {
        Ok(iv) => iv,
        Err(e) => return Err(e),
    };
    take_unwrapped_key(cbc_decrypt(session_key, &iv, wrapped.as_slice()))
}

/// The counter block of a frame: its initialisation vector followed by zeros.
pub open spec fn frame_nonce(iv_8: Seq<u8>) -> Seq<u8> {
    iv_8 + Seq::new(8, |i: int| 0u8)
}

/// A frame combined with its keystream.
pub open spec fn frame_decrypted(key: Seq<u8>, iv_8: Seq<u8>, data: Seq<u8>) -> Seq<u8> {
    Seq::new(data.len(), |i: int| data[i] ^ aes128_ctr_keystream(key, frame_nonce(iv_8), i))
}

/// Decrypt a FLAC frame in-place using AES-128-CTR.
///
/// `iv_8` = 8-byte IV from the segment UUID box entry, zero-padded to 16 bytes.
pub fn decrypt_frame(content_key: &[u8; 16], iv_8: &[u8; 8], data: &mut [u8])
    ensures
        final(data)@ == frame_decrypted(content_key@, iv_8@, old(data)@),
{
    let mut nonce: [u8; 16] = [0u8;16];
    for i in 0..8usize
        invariant
            forall|j: int| 0 <= j < 16 ==> #[trigger] nonce@[j] == if j < i {
                iv_8@[j]
            } else {
                0u8
            },
    {
        nonce[i] = iv_8[i];
    }
    assert(nonce@ =~= frame_nonce(iv_8@));
    ctr_apply(content_key, &nonce, data);
}

/// Decryption undoes itself: a frame decrypted twice under the same key and vector is the frame.
pub proof fn law_frame_decryption_is_an_involution(key: Seq<u8>, iv_8: Seq<u8>, data: Seq<u8>)
    ensures
        frame_decrypted(key, iv_8, frame_decrypted(key, iv_8, data)) == data,
{
    let twice = frame_decrypted(key, iv_8, frame_decrypted(key, iv_8, data));
    assert forall|i: int| 0 <= i < data.len() implies twice[i] == data[i] by {
        let a = data[i];
        let k = aes128_ctr_keystream(key, frame_nonce(iv_8), i);
        assert((a ^ k) ^ k == a) by (bit_vector);
    }
    assert(twice =~= data);
}

/// A text of hexadecimal digits, of even length, stands for bytes.
pub proof fn law_hex_digits_stand_for_bytes(hex: Seq<char>)
    requires
        hex.len() % 2 == 0,
        forall|i: int|
            0 <= i < hex.len() ==> ('0' <= #[trigger] hex[i] <= '9' || 'a' <= hex[i] <= 'f' || 'A'
                <= hex[i] <= 'F'),
    ensures
        hex_bytes(encode_utf8(hex)) is Ok,
        hex_bytes(encode_utf8(hex))->Ok_0.len() == hex.len() / 2,
{
    is_ascii_chars_encode_utf8(hex);
    let b = encode_utf8(hex);
    assert forall|i: int| 0 <= i < b.len() implies hex_digit(#[trigger] b[i]) is Some by {
        assert(hex[i] as u8 == b[i]);
    }
    assert forall|i: int| 0 <= i < pairs(b).len() implies !is_bad_pair()(
        #[trigger] pairs(b)[i],
    ) by {
        assert(hex_digit(b[2 * i]) is Some && hex_digit(b[2 * i + 1]) is Some);
    }
    lemma_no_match(pairs(b), is_bad_pair());
}

/// A session key comes of any two parts that can be decoded, and of nothing else: its fixed input
/// is in order.
pub proof fn law_a_session_key_needs_its_two_parts(infos: Seq<char>)
    ensures
        session_key(infos) is Ok <==> {
            let parts = split(infos, '.');
            parts.len() >= 2 && base64url(parts[0]) is Ok && base64url(parts[1]) is Ok
        },
{
    reveal_strlit("abb21364945c0583309667d13ca3d93a");
    law_hex_digits_stand_for_bytes(RNG_INIT@);
}

} // verus!
