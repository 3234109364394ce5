//! The calls into other crates. What is stated of each of them here is taken
//! from its source or documentation and not proved.

use crate::api::low_latency_ws::{websocket_frame, OutboundMessage};
use crate::text::{find_from, find_last, parsed_u16};
use crate::web_rtc::av1::units_fit;
use crate::web_rtc::h264::bytes_of;
use vstd::prelude::*;

verus! {

/// Whether the text is the authority part of a URI, as the `http` crate reads it.
pub uninterp spec fn valid_authority(text: Seq<char>) -> bool;

/// What stands behind the last `@`.
pub open spec fn without_user_info(text: Seq<char>) -> Seq<char> {
    match find_last(text, '@', text.len()) {
        Some(at) => text.skip(at as int + 1),
        None => text,
    }
}

/// The host of an authority, with the brackets of an IPv6 address.
pub open spec fn authority_host(text: Seq<char>) -> Seq<char> {
    let rest = without_user_info(text);
    if rest.len() > 0 && rest[0] == '[' {
        rest.take(find_from(rest, ']', 0) as int + 1)
    } else {
        rest.take(find_from(rest, ':', 0) as int)
    }
}

/// The port of an authority: the number behind its last colon, if it is one.
pub open spec fn authority_port(text: Seq<char>) -> Option<u16> {
    match find_last(text, ':', text.len()) {
        Some(at) => parsed_u16(text.skip(at as int + 1)),
        None => None,
    }
}

/// An authority taken apart.
#[derive(Clone, Debug, PartialEq, Eq)]
pub struct AuthorityParts {
    pub host: String,
    pub port: Option<u16>,
}

/// `http::uri::Authority::from_str`, with `host` and `port_u16` of its result.
/// Which texts it takes is left to the crate. Of one that it takes, the host is
/// what stands behind the user information and before the port, and the port
/// is the number behind the last colon.
#[verifier::external_body]
pub(crate) fn parse_authority(text: &str) -> (parts: Option<AuthorityParts>)
    ensures
        parts is Some == valid_authority(text@),
        parts is Some ==> parts->0.host@ == authority_host(text@),
        parts is Some ==> parts->0.port == authority_port(text@),
{
    let authority = text.parse::<actix_http::uri::Authority>().ok()?;
    Some(AuthorityParts { host: authority.host().to_owned(), port: authority.port_u16() })
}

/// The SHA-256 digest of `bytes`.
pub uninterp spec fn sha256_of(bytes: Seq<u8>) -> Seq<u8>;

/// `sha2::Sha256::digest`: the 32 bytes of the digest, which depend on the data alone.
#[verifier::external_body]
pub(crate) fn sha256(bytes: &[u8]) -> (digest: [u8; 32])
    ensures
        digest@ == sha256_of(bytes@),
{
    <sha2::Sha256 as sha2::Digest>::digest(bytes).into()
}

/// `openssl::rand::rand_bytes`. Nothing is known of the bytes, and there may be
/// none where the generator fails. It panics where the length does not fit in
/// 31 bits.
#[verifier::external_body]
pub(crate) fn random_bytes<const N: usize>() -> (bytes: Option<[u8; N]>)
    requires
        N <= 0x7fff_ffff,
{
    let mut bytes = [0_u8; N];
    openssl::rand::rand_bytes(&mut bytes).ok()?;
    Some(bytes)
}

/// `pem::Pem`: a key or certificate, which the library only passes on.
#[verifier::external_type_specification]
#[verifier::external_body]
pub struct ExPem(pem::Pem);

/// `actix_http::ws::Codec::encode`, on a codec for the server side: the message
/// becomes one frame, and none of these messages is refused.
#[verifier::external_body]
pub(crate) fn encode_websocket(message: OutboundMessage) -> (frame: Option<Vec<u8>>)
    ensures
        frame is Some,
        frame->0@ == websocket_frame(message),
{
    let message = match message {
        OutboundMessage::Text(text) => actix_http::ws::Message::Text(text.into()),
        OutboundMessage::Binary(bytes) => actix_http::ws::Message::Binary(bytes.into()),
        OutboundMessage::Pong(bytes) => actix_http::ws::Message::Pong(bytes.into()),
        OutboundMessage::Close(reason) => actix_http::ws::Message::Close(reason.map(|reason| {
            actix_http::ws::CloseReason { code: reason.code.into(), description: reason.description }
        })),
    };
    let mut frame = bytes::BytesMut::new();
    let mut codec = actix_http::ws::Codec::new();
    actix_codec::Encoder::encode(&mut codec, message, &mut frame).ok()?;
    Some(frame.to_vec())
}

/// What the text stands for as a key or certificate, where it is one.
pub uninterp spec fn parsed_pem(text: Seq<char>) -> Option<pem::Pem>;

/// `pem::parse`, by way of `FromStr`: the result depends on the text alone.
#[verifier::external_body]
pub(crate) fn parse_pem(text: &str) -> (parsed: Option<pem::Pem>)
    ensures
        parsed == parsed_pem(text@),
{
    text.parse::<pem::Pem>().ok()
}

/// The clone of a key or certificate has the same tag, headers and contents.
pub assume_specification[ <pem::Pem as Clone>::clone ](key: &pem::Pem) -> (copy: pem::Pem)
    ensures
        copy == *key,
;

/// `serde_json::Value`: a JSON value.
#[verifier::external_type_specification]
#[verifier::external_body]
pub struct ExJsonValue(serde_json::Value);

/// `serde_json::Map`: the entries of a JSON object.
#[verifier::external_type_specification]
#[verifier::external_body]
#[verifier::reject_recursive_types(K)]
#[verifier::reject_recursive_types(V)]
pub struct ExJsonMap<K, V>(serde_json::Map<K, V>);

/// What a JSON object holds.
pub uninterp spec fn entries_of(object: serde_json::Map<String, serde_json::Value>) -> Map<
    Seq<char>,
    serde_json::Value,
>;

/// What a JSON value holds if it is an object.
pub uninterp spec fn json_entries(value: serde_json::Value) -> Option<
    Map<Seq<char>, serde_json::Value>,
>;

/// Whether a JSON value is `null`.
pub uninterp spec fn json_null(value: serde_json::Value) -> bool;

/// `Value::is_null`.
pub assume_specification[ serde_json::Value::is_null ](value: &serde_json::Value) -> (null: bool)
    ensures
        null == json_null(*value),
        null ==> json_entries(*value) is None,
;

/// `Value::is_object`.
pub assume_specification[ serde_json::Value::is_object ](value: &serde_json::Value) -> (object:
    bool)
    ensures
        object == json_entries(*value) is Some,
        object ==> !json_null(*value),
;

/// The clone of a JSON value is the same JSON value.
pub assume_specification[ <serde_json::Value as Clone>::clone ](
    value: &serde_json::Value,
) -> (copy: serde_json::Value)
    ensures
        copy == *value,
;

/// The variant `Value::Null`.
#[verifier::external_body]
pub(crate) fn null_value() -> (value: serde_json::Value)
    ensures
        json_null(value),
        json_entries(value) is None,
{
    serde_json::Value::Null
}

/// Takes the entries out of the variant `Value::Object`; another value comes back.
#[verifier::external_body]
pub(crate) fn into_object(value: serde_json::Value) -> (object: Result<
    serde_json::Map<String, serde_json::Value>,
    serde_json::Value,
>)
    ensures
        match object {
            Ok(object) => json_entries(value) == Some(entries_of(object)),
            Err(other) => json_entries(value) is None && other == value,
        },
{
    match value {
        serde_json::Value::Object(object) => Ok(object),
        other => Err(other),
    }
}

/// The variant `Value::Object` with these entries.
#[verifier::external_body]
pub(crate) fn object_value(
    object: serde_json::Map<String, serde_json::Value>,
) -> (value: serde_json::Value)
    ensures
        json_entries(value) == Some(entries_of(object)),
        !json_null(value),
{
    serde_json::Value::Object(object)
}

/// `serde_json::Map::new`: no entries.
#[verifier::external_body]
pub(crate) fn empty_object() -> (object: serde_json::Map<String, serde_json::Value>)
    ensures
        entries_of(object).dom() == Set::<Seq<char>>::empty(),
{
    serde_json::Map::new()
}

/// `serde_json::Map::insert`: the entry takes the place of one with its key.
#[verifier::external_body]
pub(crate) fn insert_entry(
    object: &mut serde_json::Map<String, serde_json::Value>,
    key: String,
    value: serde_json::Value,
)
    ensures
        entries_of(*final(object)) == entries_of(*old(object)).insert(key@, value),
{
    object.insert(key, value);
}

/// `serde_json::Map::remove`: the entry with this key is gone, if there was one.
#[verifier::external_body]
pub(crate) fn remove_entry(object: &mut serde_json::Map<String, serde_json::Value>, key: &str)
    ensures
        entries_of(*final(object)) == entries_of(*old(object)).remove(key@),
{
    object.remove(key);
}

/// `serde_json::Map::into_iter`: each entry once. Nothing is said of their order.
#[verifier::external_body]
pub(crate) fn list_entries(
    object: serde_json::Map<String, serde_json::Value>,
) -> (entries: Vec<(String, serde_json::Value)>)
    ensures
        forall|i: int, j: int|
            0 <= i < j < entries@.len() ==> (#[trigger] entries@[i]).0@ != (
            #[trigger] entries@[j]).0@,
        forall|i: int|
            0 <= i < entries@.len() ==> entries_of(object).contains_key(
                (#[trigger] entries@[i]).0@,
            ) && entries_of(object)[entries@[i].0@] == entries@[i].1,
        forall|key: Seq<char>| #[trigger]
            entries_of(object).contains_key(key) ==> exists|i: int|
                0 <= i < entries@.len() && (#[trigger] entries@[i]).0@ == key,
{
    object.into_iter().collect()
}

/// What AV1 video becomes in packets of at most so many bytes.
pub uninterp spec fn av1_payloads(mtu: nat, frame: Seq<u8>) -> Option<Seq<Seq<u8>>>;

/// `Payloader::payload` of `webrtc::rtp`'s `Av1Payloader`, which keeps nothing
/// from one call to the next. It panics on a unit whose size goes beyond the frame.
#[verifier::external_body]
pub(crate) fn av1_payload(mtu: usize, frame: Vec<u8>) -> (payloads: Option<Vec<Vec<u8>>>)
    requires
        units_fit(frame@, 0),
    ensures
        match payloads {
            Some(payloads) => av1_payloads(mtu as nat, frame@) == Some(bytes_of(payloads@)),
            None => av1_payloads(mtu as nat, frame@) is None,
        },
{
    let frame = bytes::Bytes::from(frame);
    let mut payloader = webrtc::rtp::codecs::av1::Av1Payloader::default();
    let payloads = webrtc::rtp::packetizer::Payloader::payload(&mut payloader, mtu, &frame).ok()?;
    Some(payloads.into_iter().map(|payload| payload.to_vec()).collect())
}

/// `webrtc`'s `RTCSessionDescription`: a session description that was read, which
/// the library only passes on.
#[verifier::external_type_specification]
#[verifier::external_body]
pub struct ExSessionDescription(
    webrtc::peer_connection::sdp::session_description::RTCSessionDescription,
);

/// The text as an offer, where it is a session description.
pub uninterp spec fn offer_of(sdp: Seq<char>) -> Option<
    webrtc::peer_connection::sdp::session_description::RTCSessionDescription,
>;

/// `RTCSessionDescription::offer`: the result depends on the text alone.
#[verifier::external_body]
pub(crate) fn read_offer(sdp: String) -> (read: Option<
    webrtc::peer_connection::sdp::session_description::RTCSessionDescription,
>)
    ensures
        read == offer_of(sdp@),
{
    webrtc::peer_connection::sdp::session_description::RTCSessionDescription::offer(sdp).ok()
}

/// The text as an answer, where it is a session description.
pub uninterp spec fn answer_of(sdp: Seq<char>) -> Option<
    webrtc::peer_connection::sdp::session_description::RTCSessionDescription,
>;

/// `RTCSessionDescription::answer`: the result depends on the text alone.
#[verifier::external_body]
pub(crate) fn read_answer(sdp: String) -> (read: Option<
    webrtc::peer_connection::sdp::session_description::RTCSessionDescription,
>)
    ensures
        read == answer_of(sdp@),
{
    webrtc::peer_connection::sdp::session_description::RTCSessionDescription::answer(sdp).ok()
}

/// The text as a provisional answer, where it is a session description.
pub uninterp spec fn pranswer_of(sdp: Seq<char>) -> Option<
    webrtc::peer_connection::sdp::session_description::RTCSessionDescription,
>;

/// `RTCSessionDescription::pranswer`: the result depends on the text alone.
#[verifier::external_body]
pub(crate) fn read_pranswer(sdp: String) -> (read: Option<
    webrtc::peer_connection::sdp::session_description::RTCSessionDescription,
>)
    ensures
        read == pranswer_of(sdp@),
{
    webrtc::peer_connection::sdp::session_description::RTCSessionDescription::pranswer(sdp).ok()
}

} // verus!
