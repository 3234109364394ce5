//! Hands out one-use bridges and admits the browsers that come with them.

use crate::outside::{random_bytes, sha256_of};
use crate::seqs::{lemma_filter_all, lemma_filter_push};
use crate::text::{decimal_digits, occurs, same_text};
use crate::time::{Duration, Instant};
use crate::web_transport::endpoint::{
    law_setup_url_names_its_token, PublicEndpoint, PROTOCOL_VERSION,
};
use crate::web_transport::origin::{canonical_origin, canonicalize_https_origin};
use crate::web_transport::tokens::{
    consumption, encode_token, hash_token, hex, law_fresh_token_works_for_its_origin,
    law_token_works_once, lives_at, other_hash, unexpired, without_hash, PendingBridge,
    TokenConsumeRejection, TokenStore, MAX_PENDING_TOKENS,
};
use vstd::prelude::*;

verus! {

/// The header with which Chromium asks for the response of an older draft.
pub const DRAFT02_REQUEST_HEADER: &'static str = "sec-webtransport-http3-draft02";

/// Why no bridge was handed out.
#[derive(Clone, Copy, Debug, PartialEq, Eq, Structural)]
pub enum RegisterError {
    InvalidOrigin,
    NoRandomness,
    TooManyPending,
}

/// Why a request was turned away.
#[derive(Clone, Copy, Debug, PartialEq, Eq, Structural)]
pub enum AdmissionError {
    /// The request is not meant for this endpoint, or carries no token.
    InvalidRequest,
    InvalidOrigin,
    Token(TokenConsumeRejection),
}

/// What a control session gets for its browser.
#[derive(Clone, Debug, PartialEq, Eq)]
pub struct Registration {
    pub token_hash: [u8; 32],
    pub setup_url: String,
}

pub struct WebTransportHub<Bridge> {
    pub endpoint: PublicEndpoint,
    pub token_ttl: Duration,
    pub tokens: TokenStore<Bridge>,
}

impl<Bridge> WebTransportHub<Bridge> {
    pub open spec fn wf(self) -> bool {
        self.tokens.wf()
    }

    pub fn new(endpoint: PublicEndpoint, token_ttl: Duration) -> (hub: Self)
        ensures
            hub.endpoint == endpoint,
            hub.token_ttl == token_ttl,
            hub.tokens@ == Seq::<PendingBridge<Bridge>>::empty(),
            hub.wf(),
    {
        WebTransportHub { endpoint, token_ttl, tokens: TokenStore::new() }
    }

    /// Registers a bridge under a token: what [`WebTransportHub::register_for_origin`]
    /// does once it has one.
    pub fn register_with_token(
        &mut self,
        origin: &str,
        token: &[u8; 32],
        bridge: Bridge,
        now: Instant,
    ) -> (registered: Result<Registration, RegisterError>)
        requires
            old(self).wf(),
            now.has_room(old(self).token_ttl.nanos() as int),
        ensures
            final(self).wf(),
            final(self).endpoint == old(self).endpoint,
            final(self).token_ttl == old(self).token_ttl,
            match registered {
                Ok(registration) => {
                    &&& canonical_origin(origin@) is Some
                    &&& unexpired(old(self).tokens@, now).len() < MAX_PENDING_TOKENS
                    &&& registration.token_hash@ == sha256_of(token@)
                    &&& registration.setup_url@ == old(self).endpoint.public_url@ + "?v="@
                        + decimal_digits(PROTOCOL_VERSION as nat) + "&token="@ + hex(token@)
                    &&& final(self).tokens@.len() > 0
                    &&& final(self).tokens@ == without_hash(
                        unexpired(old(self).tokens@, now),
                        sha256_of(token@),
                    ).push(final(self).tokens@.last())
                    &&& ({
                        let entry = final(self).tokens@.last();
                        &&& entry.hash@ == sha256_of(token@)
                        &&& entry.expires_at.nanos() == now.nanos() + old(self).token_ttl.nanos()
                        &&& Some(entry.expected_origin@) == canonical_origin(origin@)
                        &&& !entry.shut_down
                        &&& entry.bridge == bridge
                    })
                },
                Err(RegisterError::InvalidOrigin) => {
                    &&& canonical_origin(origin@) is None
                    &&& final(self).tokens@ == old(self).tokens@
                },
                Err(RegisterError::TooManyPending) => {
                    &&& canonical_origin(origin@) is Some
                    &&& unexpired(old(self).tokens@, now).len() >= MAX_PENDING_TOKENS
                    &&& final(self).tokens@ == unexpired(old(self).tokens@, now)
                },
                Err(RegisterError::NoRandomness) => false,
            },
    {
        let expected_origin: String = match canonicalize_https_origin(origin) {
            Some(origin) => origin,
            None => {
                return Err(RegisterError::InvalidOrigin);
            },
        };
        let hash: [u8; 32] = hash_token(token);
        let text: String = encode_token(token);
        let entry = PendingBridge {
            hash,
            expires_at: now.after(self.token_ttl),
            expected_origin,
            shut_down: false,
            bridge,
        };
        if !self.tokens.insert(entry, now) {
            return Err(RegisterError::TooManyPending);
        }
        Ok(Registration { token_hash: hash, setup_url: self.endpoint.setup_url(text.as_str()) })
    }

    /// Registers a short-lived, one-use bridge for the browser of an
    /// authenticated session. Only the digest of its random token stays here.
    pub fn register_for_origin(&mut self, origin: &str, bridge: Bridge, now: Instant) -> (registered:
        Result<Registration, RegisterError>)
        requires
            old(self).wf(),
            now.has_room(old(self).token_ttl.nanos() as int),
        ensures
            final(self).wf(),
            final(self).endpoint == old(self).endpoint,
            final(self).token_ttl == old(self).token_ttl,
            canonical_origin(origin@) is None ==> registered == Err::<Registration, RegisterError>(
                RegisterError::InvalidOrigin,
            ) && final(self).tokens@ == old(self).tokens@,
            match registered {
                Ok(registration) => {
                    &&& canonical_origin(origin@) is Some
                    &&& unexpired(old(self).tokens@, now).len() < MAX_PENDING_TOKENS
                    &&& exists|token: [u8; 32]|
                        registration.token_hash@ == #[trigger] sha256_of(token@)
                            && registration.setup_url@ == old(self).endpoint.public_url@ + "?v="@
                            + decimal_digits(PROTOCOL_VERSION as nat) + "&token="@ + hex(token@)
                    &&& final(self).tokens@.len() > 0
                    &&& final(self).tokens@ == without_hash(
                        unexpired(old(self).tokens@, now),
                        registration.token_hash@,
                    ).push(final(self).tokens@.last())
                    &&& ({
                        let entry = final(self).tokens@.last();
                        &&& entry.hash@ == registration.token_hash@
                        &&& entry.expires_at.nanos() == now.nanos() + old(self).token_ttl.nanos()
                        &&& Some(entry.expected_origin@) == canonical_origin(origin@)
                        &&& !entry.shut_down
                        &&& entry.bridge == bridge
                    })
                },
                Err(RegisterError::InvalidOrigin) => canonical_origin(origin@) is None,
                Err(RegisterError::TooManyPending) => {
                    &&& canonical_origin(origin@) is Some
                    &&& unexpired(old(self).tokens@, now).len() >= MAX_PENDING_TOKENS
                    &&& final(self).tokens@ == unexpired(old(self).tokens@, now)
                },
                Err(RegisterError::NoRandomness) => {
                    &&& canonical_origin(origin@) is Some
                    &&& final(self).tokens@ == old(self).tokens@
                },
            },
    {
        if canonicalize_https_origin(origin).is_none() {
            return Err(RegisterError::InvalidOrigin);
        }
        match random_bytes::<32>() {
            Some(token) => self.register_with_token(origin, &token, bridge, now),
            None => Err(RegisterError::NoRandomness),
        }
    }

    /// Decides on a request. The token it carries is used up if the request is
    /// admitted.
    pub fn accept_request(
        &mut self,
        authority: &str,
        path: &str,
        origin: Option<&str>,
        now: Instant,
    ) -> (admitted: Result<Bridge, AdmissionError>)
        requires
            old(self).wf(),
        ensures
            final(self).wf(),
            final(self).endpoint == old(self).endpoint,
            final(self).token_ttl == old(self).token_ttl,
            match old(self).endpoint.requested_token(authority@, path@) {
                None => admitted == Err::<Bridge, AdmissionError>(AdmissionError::InvalidRequest)
                    && final(self).tokens@ == old(self).tokens@,
                Some(hash) => if origin is None || canonical_origin(origin->0@) is None {
                    admitted == Err::<Bridge, AdmissionError>(AdmissionError::InvalidOrigin)
                        && final(self).tokens@ == old(self).tokens@
                } else {
                    let purged = unexpired(old(self).tokens@, now);
                    match consumption(purged, hash, canonical_origin(origin->0@)->0) {
                        Ok(entry) => admitted == Ok::<Bridge, AdmissionError>(entry.bridge)
                            && final(self).tokens@ == without_hash(purged, hash),
                        Err(rejection) => {
                            &&& admitted == Err::<Bridge, AdmissionError>(
                                AdmissionError::Token(rejection),
                            )
                            &&& final(self).tokens@ == (if rejection
                                == TokenConsumeRejection::Unknown {
                                without_hash(purged, hash)
                            } else {
                                purged
                            })
                        },
                    }
                },
            },
    {
        let hash: [u8; 32] = match self.endpoint.validate_request(authority, path) {
            Some(hash) => hash,
            None => {
                return Err(AdmissionError::InvalidRequest);
            },
        };
        let origin: String = match origin {
            Some(origin) => match canonicalize_https_origin(origin) {
                Some(origin) => origin,
                None => {
                    return Err(AdmissionError::InvalidOrigin);
                },
            },
            None => {
                return Err(AdmissionError::InvalidOrigin);
            },
        };
        match self.tokens.consume(&hash, origin.as_str(), now) {
            Ok(bridge) => Ok(bridge),
            Err(rejection) => Err(AdmissionError::Token(rejection)),
        }
    }
}

/// Some header `name` holds `value`.
pub open spec fn has_header(
    headers: Seq<(String, String)>,
    name: Seq<char>,
    value: Seq<char>,
) -> bool {
    exists|i: int|
        0 <= i < headers.len() && (#[trigger] headers[i]).0@ == name && headers[i].1@ == value
}

/// Whether the response has to echo the older draft. The headers of a request
/// have one value for each name.
pub fn requests_draft02_response(headers: &Vec<(String, String)>) -> (requested: bool)
    ensures
        requested == has_header(headers@, DRAFT02_REQUEST_HEADER@, "1"@),
{
    let mut i: usize = 0;
    while i < headers.len()
        invariant
            i <= headers@.len(),
            forall|k: int|
                0 <= k < i ==> !((#[trigger] headers@[k]).0@ == DRAFT02_REQUEST_HEADER@
                    && headers@[k].1@ == "1"@),
        decreases headers.len() - i,
    {
        if same_text(headers[i].0.as_str(), DRAFT02_REQUEST_HEADER) && same_text(
            headers[i].1.as_str(),
            "1",
        ) {
            return true;
        }
        i = i + 1;
    }
    false
}

/// The address that a control session gets lets its browser in, until it
/// expires: once, and from the origin of the session alone. A request from
/// elsewhere does not use it up.
pub proof fn law_setup_url_opens_its_bridge_once<Bridge>(
    endpoint: PublicEndpoint,
    authority: Seq<char>,
    token: Seq<u8>,
    before: Seq<PendingBridge<Bridge>>,
    registered: Instant,
    entry: PendingBridge<Bridge>,
    now: Instant,
    origin: Seq<char>,
)
    requires
        endpoint.is_authority(authority),
        !occurs(endpoint.path@, '?'),
        token.len() == 32,
        entry.hash@ == sha256_of(token),
        !entry.shut_down,
        now.nanos() < entry.expires_at.nanos(),
    ensures
        endpoint.requested_token(
            authority,
            endpoint.path@ + "?v="@ + decimal_digits(PROTOCOL_VERSION as nat) + "&token="@ + hex(
                token,
            ),
        ) == Some(entry.hash@),
        ({
            let waiting = unexpired(
                without_hash(unexpired(before, registered), entry.hash@).push(entry),
                now,
            );
            let left = without_hash(waiting, entry.hash@);
            &&& origin == entry.expected_origin@ ==> consumption(waiting, entry.hash@, origin)
                == Ok::<PendingBridge<Bridge>, TokenConsumeRejection>(entry)
            &&& origin != entry.expected_origin@ ==> consumption(waiting, entry.hash@, origin)
                == Err::<PendingBridge<Bridge>, TokenConsumeRejection>(
                TokenConsumeRejection::OriginMismatch,
            )
            &&& consumption(left, entry.hash@, origin) == Err::<
                PendingBridge<Bridge>,
                TokenConsumeRejection,
            >(TokenConsumeRejection::Unknown)
        }),
{
    let hash = entry.hash@;
    let others = without_hash(unexpired(before, registered), hash);
    let alive = unexpired(others, now);
    law_setup_url_names_its_token(endpoint, authority, token);
    lemma_filter_push(others, lives_at(now), entry);
    assert forall|i: int| 0 <= i < alive.len() implies other_hash(hash)(#[trigger] alive[i]) by {
        others.lemma_filter_contains_rev(lives_at(now), alive[i]);
        let at = choose|at: int| 0 <= at < others.len() && others[at] == alive[i];
        unexpired(before, registered).lemma_filter_pred(other_hash(hash), at);
    }
    lemma_filter_all(alive, other_hash(hash));
    law_fresh_token_works_for_its_origin(alive, entry, origin);
    law_token_works_once(alive.push(entry), hash, origin);
}

/// A registration gives out an address that carries its token, for the origin that asked
/// and for as long as tokens live. An origin that is none is refused, and so is one more
/// than may wait.
pub proof fn law_what_a_registration_gives<Bridge>(
    hub: &mut WebTransportHub<Bridge>,
    origin: &str,
    token: &[u8; 32],
    bridge: Bridge,
    now: Instant,
    registered: Result<Registration, RegisterError>,
)
    requires
        call_ensures(
            WebTransportHub::<Bridge>::register_with_token,
            (hub, origin, token, bridge, now),
            registered,
        ),
    ensures
        ({
            let known = canonical_origin(origin@) is Some;
            let full = unexpired(old(hub).tokens@, now).len() >= 1024;
            let entry = final(hub).tokens@.last();
            &&& registered is Ok <==> known && !full
            &&& !known ==> registered == Err::<Registration, _>(RegisterError::InvalidOrigin)
            &&& known && full ==> registered == Err::<Registration, _>(
                RegisterError::TooManyPending,
            )
            &&& registered matches Ok(registration) ==> {
                &&& registration.token_hash@ == sha256_of(token@)
                &&& registration.setup_url@ == old(hub).endpoint.public_url@ + seq![
                    '?',
                    'v',
                    '=',
                    '4',
                    '&',
                    't',
                    'o',
                    'k',
                    'e',
                    'n',
                    '=',
                ] + hex(token@)
                &&& entry.bridge == bridge && !entry.shut_down
                &&& entry.hash@ == sha256_of(token@)
                &&& Some(entry.expected_origin@) == canonical_origin(origin@)
                &&& entry.expires_at.nanos() == now.nanos() + old(hub).token_ttl.nanos()
            }
            &&& final(hub).endpoint == old(hub).endpoint
        }),
{
    reveal_strlit("?v=");
    reveal_strlit("&token=");
    assert(decimal_digits(PROTOCOL_VERSION as nat) =~= seq!['4']) by {
        crate::text::law_decimal_notation(4, 4);
        reveal_strlit("0123456789");
    }
    let url = old(hub).endpoint.public_url@;
    assert(url + "?v="@ + seq!['4'] + "&token="@ + hex(token@) =~= url + seq![
        '?',
        'v',
        '=',
        '4',
        '&',
        't',
        'o',
        'k',
        'e',
        'n',
        '=',
    ] + hex(token@));
}

/// Who is let in: a request for this endpoint with a token that waits, from the origin
/// that the token is for. Each other request is refused for its own reason, and one
/// without a known origin leaves the tokens alone.
pub proof fn law_who_is_let_in<Bridge>(
    hub: &mut WebTransportHub<Bridge>,
    authority: &str,
    path: &str,
    origin: Option<&str>,
    now: Instant,
    admitted: Result<Bridge, AdmissionError>,
)
    requires
        call_ensures(
            WebTransportHub::<Bridge>::accept_request,
            (hub, authority, path, origin, now),
            admitted,
        ),
    ensures
        ({
            let asked = old(hub).endpoint.requested_token(authority@, path@);
            let from = if origin is Some {
                canonical_origin(origin->0@)
            } else {
                None
            };
            let opened = consumption(unexpired(old(hub).tokens@, now), asked->0, from->0);
            &&& admitted is Ok <==> asked is Some && from is Some && opened is Ok
            &&& admitted is Ok ==> admitted->Ok_0 == opened->Ok_0.bridge
            &&& admitted == Err::<Bridge, _>(AdmissionError::InvalidRequest) <==> asked is None
            &&& asked is Some && from is None <==> admitted == Err::<Bridge, _>(
                AdmissionError::InvalidOrigin,
            )
            &&& admitted matches Err(AdmissionError::Token(rejection)) ==> opened is Err
                && opened->Err_0 == rejection
            &&& asked is None || from is None ==> final(hub).tokens@ == old(hub).tokens@
            &&& admitted is Ok ==> consumption(final(hub).tokens@, asked->0, from->0) is Err
            &&& final(hub).endpoint == old(hub).endpoint
        }),
{
    let asked = old(hub).endpoint.requested_token(authority@, path@);
    if asked is Some && origin is Some && canonical_origin(origin->0@) is Some {
        crate::web_transport::tokens::law_token_works_once(
            unexpired(old(hub).tokens@, now),
            asked->0,
            canonical_origin(origin->0@)->0,
        );
    }
}

/// The older version of the protocol is answered when its header is there with a one.
pub proof fn law_when_the_older_version_is_answered(
    headers: &Vec<(String, String)>,
    requested: bool,
    i: int,
)
    requires
        call_ensures(requests_draft02_response, (headers,), requested),
        0 <= i < headers@.len(),
    ensures
        headers@[i].0@ == "sec-webtransport-http3-draft02"@ && headers@[i].1@ == seq!['1']
            ==> requested,
        headers@.len() == 1 && requested ==> headers@[i].0@ == "sec-webtransport-http3-draft02"@
            && headers@[i].1@ == seq!['1'],
{
    reveal_strlit("1");
    assert("1"@ =~= seq!['1']);
}

} // verus!
