//! Where the WebTransport endpoint is, and which requests are meant for it.

use crate::outside::{authority_host, authority_port, parse_authority, valid_authority};
use crate::text::{
    chars_of, decimal, decimal_digits, eq_ignore_ascii_case, find_char, find_from, has_char,
    lemma_find_from, lemma_find_is, lemma_find_none, lowered, occurs, part_is, part_of,
};
use crate::web_transport::tokens::{decode_token, decoded_token};
use vstd::prelude::*;

verus! {

/// The version of the frame protocol that both sides speak.
pub const PROTOCOL_VERSION: u8 = 4;

/// The port of an HTTPS address that names none.
pub const DEFAULT_HTTPS_PORT: u16 = 443;

/// Why an address cannot be that of the endpoint.
#[derive(Clone, Copy, Debug, PartialEq, Eq, Structural)]
pub enum EndpointError {
    NotHttps,
    QueryOrFragment,
    InvalidAuthority,
    MissingPort,
    InvalidPath,
}

/// The address under which browsers reach the endpoint.
#[derive(Clone, Debug, PartialEq, Eq)]
pub struct PublicEndpoint {
    pub public_url: String,
    pub authority: String,
    pub host: String,
    pub port: u16,
    pub path: String,
}

/// The address without `https://`.
pub open spec fn url_remainder(url: Seq<char>) -> Seq<char> {
    url.skip("https://"@.len() as int)
}

pub open spec fn is_https(url: Seq<char>) -> bool {
    url.len() >= "https://"@.len() && url.take("https://"@.len() as int) == "https://"@
}

/// The part of the address up to its path.
pub open spec fn url_authority(url: Seq<char>) -> Seq<char> {
    let rest = url_remainder(url);
    rest.take(find_from(rest, '/', 0) as int)
}

/// The path of the address, `/` where it has none.
pub open spec fn url_path(url: Seq<char>) -> Seq<char> {
    let rest = url_remainder(url);
    if occurs(rest, '/') {
        rest.skip(find_from(rest, '/', 0) as int)
    } else {
        "/"@
    }
}

/// What is wrong with an address, if anything is.
pub open spec fn endpoint_fault(url: Seq<char>) -> Option<EndpointError> {
    let rest = url_remainder(url);
    let authority = url_authority(url);
    if !is_https(url) {
        Some(EndpointError::NotHttps)
    } else if occurs(rest, '#') || occurs(rest, '?') {
        Some(EndpointError::QueryOrFragment)
    } else if authority.len() == 0 || occurs(authority, '@') || !valid_authority(authority) {
        Some(EndpointError::InvalidAuthority)
    } else if authority_port(authority) is None {
        Some(EndpointError::MissingPort)
    } else if occurs(url_path(url), '\r') || occurs(url_path(url), '\n') {
        Some(EndpointError::InvalidPath)
    } else {
        None
    }
}

/// The parts of an address without fault. An address without a path gets one.
pub open spec fn is_endpoint(url: Seq<char>, endpoint: PublicEndpoint) -> bool {
    &&& endpoint.authority@ == url_authority(url)
    &&& endpoint.host@ == authority_host(url_authority(url))
    &&& Some(endpoint.port) == authority_port(url_authority(url))
    &&& endpoint.path@ == url_path(url)
    &&& endpoint.public_url@ == (if url_path(url) == "/"@ && url.last() != '/' {
        url + "/"@
    } else {
        url
    })
}

impl PublicEndpoint {
    /// Takes the configured address apart. It has to be an HTTPS address with a
    /// port, and without credentials, query and fragment.
    pub fn parse(public_url: &str) -> (endpoint: Result<PublicEndpoint, EndpointError>)
        ensures
            match endpoint {
                Ok(endpoint) => endpoint_fault(public_url@) is None && is_endpoint(
                    public_url@,
                    endpoint,
                ),
                Err(error) => endpoint_fault(public_url@) == Some(error),
            },
    {
        proof {
            reveal_strlit("https://");
            reveal_strlit("/");
        }
        let chars: Vec<char> = chars_of(public_url);
        let scheme: usize = "https://".unicode_len();
        let ghost url = public_url@;
        if chars.len() < scheme || !part_is(&chars, 0, scheme, "https://") {
            assert(url.len() >= scheme ==> url.subrange(0, scheme as int) =~= url.take(
                scheme as int,
            ));
            return Err(EndpointError::NotHttps);
        }
        assert(url.subrange(0, scheme as int) =~= url.take(scheme as int));
        let rest_text: String = part_of(&chars, scheme, chars.len());
        let rest: Vec<char> = chars_of(rest_text.as_str());
        assert(rest@ =~= url_remainder(url));
        if has_char(&rest, '#') || has_char(&rest, '?') {
            return Err(EndpointError::QueryOrFragment);
        }
        let slash: usize = find_char(&rest, '/', 0);
        let authority: String = part_of(&rest, 0, slash);
        assert(authority@ =~= url_authority(url));
        let path: String = if slash < rest.len() {
            part_of(&rest, slash, rest.len())
        } else {
            "/".to_owned()
        };
        assert(slash < rest@.len() ==> rest@.subrange(slash as int, rest@.len() as int)
            =~= rest@.skip(slash as int));
        assert(path@ == url_path(url));
        let authority_chars: Vec<char> = chars_of(authority.as_str());
        if authority_chars.len() == 0 || has_char(&authority_chars, '@') {
            return Err(EndpointError::InvalidAuthority);
        }
        let parts = match parse_authority(authority.as_str()) {
            Some(parts) => parts,
            None => {
                return Err(EndpointError::InvalidAuthority);
            },
        };
        let port: u16 = match parts.port {
            Some(port) => port,
            None => {
                return Err(EndpointError::MissingPort);
            },
        };
        let path_chars: Vec<char> = chars_of(path.as_str());
        if has_char(&path_chars, '\r') || has_char(&path_chars, '\n') {
            return Err(EndpointError::InvalidPath);
        }
        let mut complete: String = public_url.to_owned();
        if part_is(&path_chars, 0, path_chars.len(), "/") && chars[chars.len() - 1] != '/' {
            complete.append("/");
        }
        assert(path@.subrange(0, path@.len() as int) =~= path@);
        Ok(PublicEndpoint { public_url: complete, authority, host: parts.host, port, path })
    }

    /// The address that a browser connects to with a token.
    pub fn setup_url(&self, token: &str) -> (url: String)
        ensures
            url@ == self.public_url@ + "?v="@ + decimal_digits(PROTOCOL_VERSION as nat)
                + "&token="@ + token@,
    {
        let version: String = decimal(PROTOCOL_VERSION as u64);
        let mut url: String = self.public_url.clone();
        url.append("?v=");
        url.append(version.as_str());
        url.append("&token=");
        url.append(token);
        url
    }

    /// Whether a request names this endpoint. Without a port it means the one of HTTPS.
    pub open spec fn is_authority(self, authority: Seq<char>) -> bool {
        &&& !occurs(authority, '@')
        &&& valid_authority(authority)
        &&& lowered(authority_host(authority)) == lowered(self.host@)
        &&& (match authority_port(authority) {
            Some(port) => port,
            None => DEFAULT_HTTPS_PORT,
        }) == self.port
    }

    pub fn matches_authority(&self, authority: &str) -> (matches: bool)
        ensures
            matches == self.is_authority(authority@),
    {
        if has_char(&chars_of(authority), '@') {
            return false;
        }
        match parse_authority(authority) {
            Some(parts) => {
                let port: u16 = match parts.port {
                    Some(port) => port,
                    None => DEFAULT_HTTPS_PORT,
                };
                eq_ignore_ascii_case(parts.host.as_str(), self.host.as_str()) && port == self.port
            },
            None => false,
        }
    }

    /// The digest of the token that a request carries, if the request is meant
    /// for this endpoint and speaks its protocol.
    pub open spec fn requested_token(
        self,
        authority: Seq<char>,
        path: Seq<char>,
    ) -> Option<Seq<u8>> {
        let mark = find_from(path, '?', 0);
        if !self.is_authority(authority) || mark >= path.len() || path.take(mark as int)
            != self.path@ {
            None
        } else {
            let scanned = scan_query(
                path.skip(mark as int + 1),
                0,
                QueryState { version_ok: false, token: None },
            );
            match scanned {
                Some(state) if state.version_ok => state.token,
                _ => None,
            }
        }
    }

    pub fn validate_request(&self, authority: &str, path: &str) -> (hash: Option<[u8; 32]>)
        ensures
            match hash {
                Some(hash) => self.requested_token(authority@, path@) == Some(hash@),
                None => self.requested_token(authority@, path@) is None,
            },
    {
        if !self.matches_authority(authority) {
            return None;
        }
        let chars: Vec<char> = chars_of(path);
        let mark: usize = find_char(&chars, '?', 0);
        if mark >= chars.len() {
            return None;
        }
        assert(path@.subrange(0, mark as int) =~= path@.take(mark as int));
        if !part_is(&chars, 0, mark, self.path.as_str()) {
            return None;
        }
        let query_text: String = part_of(&chars, mark + 1, chars.len());
        let query: Vec<char> = chars_of(query_text.as_str());
        assert(query@ =~= path@.skip(mark + 1));
        let mut version_ok: bool = false;
        let mut token: Option<[u8; 32]> = None;
        let mut from: usize = 0;
        let ghost whole = scan_query(
            query@,
            0,
            QueryState { version_ok: false, token: None },
        );
        loop
            invariant_except_break
                from <= query@.len(),
                whole == scan_query(query@, from as nat, state_of(version_ok, token)),
                self.requested_token(authority@, path@) == (match whole {
                    Some(state) if state.version_ok => state.token,
                    _ => None,
                }),
            ensures
                whole == Some(state_of(version_ok, token)),
                self.requested_token(authority@, path@) == (match whole {
                    Some(state) if state.version_ok => state.token,
                    _ => None,
                }),
            decreases query@.len() - from,
        {
            let end: usize = find_char(&query, '&', from);
            let equals: usize = find_char(&query, '=', from);
            proof {
                lemma_find_from(query@, '=', from as nat);
            }
            if equals >= end {
                return None;
            }
            assert(query@.subrange(from as int, equals as int) == field_name(
                query@,
                from as nat,
            ));
            if part_is(&query, from, equals, "v") {
                if version_ok || !part_is(&query, equals + 1, end, "4") {
                    proof {
                        reveal_strlit("v");
                        reveal_strlit("token");
                    }
                    return None;
                }
                version_ok = true;
            } else if part_is(&query, from, equals, "token") {
                if token.is_some() {
                    return None;
                }
                let value: String = part_of(&query, equals + 1, end);
                token = decode_token(value.as_str());
            } else {
                return None;
            }
            if end >= query.len() {
                proof {
                    reveal_strlit("v");
                    reveal_strlit("token");
                }
                break ;
            }
            proof {
                reveal_strlit("v");
                reveal_strlit("token");
            }
            from = end + 1;
        }
        if version_ok {
            token
        } else {
            None
        }
    }
}

/// What was found in a query so far.
pub struct QueryState {
    pub version_ok: bool,
    pub token: Option<Seq<u8>>,
}

pub open spec fn state_of(version_ok: bool, token: Option<[u8; 32]>) -> QueryState {
    QueryState {
        version_ok,
        token: match token {
            Some(hash) => Some(hash@),
            None => None,
        },
    }
}

/// The name of the query field that begins at `from`.
pub open spec fn field_name(query: Seq<char>, from: nat) -> Seq<char> {
    query.subrange(from as int, find_from(query, '=', from) as int)
}

/// The value of the query field that begins at `from`.
pub open spec fn field_value(query: Seq<char>, from: nat) -> Seq<char> {
    query.subrange(find_from(query, '=', from) as int + 1, find_from(query, '&', from) as int)
}

/// One field more: the version once, and a token once it could be decoded.
/// Anything else makes the query invalid.
pub open spec fn scan_field(query: Seq<char>, from: nat, state: QueryState) -> Option<QueryState> {
    if find_from(query, '=', from) >= find_from(query, '&', from) {
        None
    } else if field_name(query, from) == "v"@ {
        if !state.version_ok && field_value(query, from) == "4"@ {
            Some(QueryState { version_ok: true, ..state })
        } else {
            None
        }
    } else if field_name(query, from) == "token"@ {
        if state.token is None {
            Some(QueryState { token: decoded_token(field_value(query, from)), ..state })
        } else {
            None
        }
    } else {
        None
    }
}

/// What the fields from `from` on add up to.
pub open spec fn scan_query(query: Seq<char>, from: nat, state: QueryState) -> Option<QueryState>
    decreases query.len() - from,
{
    match scan_field(query, from, state) {
        Some(next) => {
            let end = find_from(query, '&', from);
            if end >= query.len() || end < from {
                Some(next)
            } else {
                scan_query(query, end + 1, next)
            }
        },
        None => None,
    }
}

/// The setup address that was made for a token leads back to the digest of that token.
pub proof fn law_setup_url_names_its_token(
    endpoint: PublicEndpoint,
    authority: Seq<char>,
    token: Seq<u8>,
)
    requires
        endpoint.is_authority(authority),
        !occurs(endpoint.path@, '?'),
        token.len() == 32,
    ensures
        decimal_digits(PROTOCOL_VERSION as nat) == "4"@,
        endpoint.requested_token(
            authority,
            endpoint.path@ + "?v="@ + decimal_digits(PROTOCOL_VERSION as nat) + "&token="@
                + crate::web_transport::tokens::hex(token),
        ) == Some(crate::outside::sha256_of(token)),
{
    reveal_strlit("?v=");
    reveal_strlit("4");
    reveal_strlit("&token=");
    reveal_strlit("v");
    reveal_strlit("token");
    let text = crate::web_transport::tokens::hex(token);
    let version = decimal_digits(PROTOCOL_VERSION as nat);
    assert(version =~= "4"@);
    let path = endpoint.path@ + "?v="@ + version + "&token="@ + text;
    let length = endpoint.path@.len();
    lemma_find_from(endpoint.path@, '?', 0);
    assert forall|i: int| 0 <= i < length implies #[trigger] path[i] != '?' by {
        assert(path[i] == endpoint.path@[i]);
    }
    lemma_find_is(path, '?', 0, length);
    assert(path.take(length as int) =~= endpoint.path@);
    let query = path.skip(length as int + 1);
    assert(query.len() == 74);
    assert(query[0] == 'v' && query[1] == '=' && query[2] == '4' && query[3] == '&');
    assert(query[4] == 't' && query[5] == 'o' && query[6] == 'k' && query[7] == 'e' && query[8]
        == 'n' && query[9] == '=');
    assert(query.subrange(10, 74) =~= text);
    crate::web_transport::tokens::law_token_text_round_trip(token);
    assert forall|i: int| 10 <= i < 74 implies #[trigger] query[i] != '&' && query[i] != '=' by {
        assert(query[i] == text[i - 10]);
        assert(crate::web_transport::tokens::nibble(text[i - 10]) is Some);
    }
    lemma_find_is(query, '&', 0, 3);
    lemma_find_is(query, '=', 0, 1);
    lemma_find_none(query, '&', 4);
    lemma_find_is(query, '=', 4, 9);
    let start = QueryState { version_ok: false, token: None };
    let half = QueryState { version_ok: true, token: None };
    assert(field_name(query, 0) =~= "v"@);
    assert(field_value(query, 0) =~= "4"@);
    assert(scan_field(query, 0, start) == Some(half));
    assert(field_name(query, 4) =~= "token"@);
    assert(field_value(query, 4) =~= text);
    let done = QueryState {
        version_ok: true,
        token: Some(crate::outside::sha256_of(token)),
    };
    assert(scan_field(query, 4, half) == Some(done));
    assert(scan_query(query, 4, half) == Some(done));
    assert(scan_query(query, 0, start) == Some(done));
}

/// A browser that follows the address of the endpoint names it: the address is
/// made of the authority and the path that requests are held against.
pub proof fn law_endpoint_knows_its_own_address(url: Seq<char>, endpoint: PublicEndpoint)
    requires
        endpoint_fault(url) is None,
        is_endpoint(url, endpoint),
    ensures
        endpoint.is_authority(endpoint.authority@),
        !occurs(endpoint.path@, '?'),
        endpoint.public_url@ == "https://"@ + endpoint.authority@ + endpoint.path@,
{
    reveal_strlit("https://");
    reveal_strlit("/");
    let rest = url_remainder(url);
    let authority = url_authority(url);
    let path = url_path(url);
    lemma_find_from(rest, '/', 0);
    lemma_find_from(rest, '?', 0);
    assert(url =~= "https://"@ + rest);
    if occurs(rest, '/') {
        assert(rest =~= authority + path);
        assert forall|i: int| 0 <= i < path.len() implies #[trigger] path[i] != '?' by {
            assert(rest[authority.len() + i] == path[i]);
        }
        lemma_find_none(path, '?', 0);
        if path == "/"@ {
            assert(url.last() == path[0]);
        }
        assert(endpoint.public_url@ =~= "https://"@ + authority + path);
    } else {
        assert(authority =~= rest);
        lemma_find_none(path, '?', 0);
        assert(url.last() == rest[rest.len() - 1]);
        assert(endpoint.public_url@ =~= "https://"@ + authority + path);
    }
}

/// Where the fields of a query begin, from `from` on.
pub open spec fn field_starts(query: Seq<char>, from: nat) -> Seq<nat>
    decreases query.len() - from,
{
    let end = find_from(query, '&', from);
    if end >= query.len() || end < from {
        seq![from]
    } else {
        seq![from] + field_starts(query, end + 1)
    }
}

/// The field at `from` has a name and a value, and is called `name`.
pub open spec fn field_is(query: Seq<char>, from: nat, name: Seq<char>) -> bool {
    find_from(query, '=', from) < find_from(query, '&', from) && field_name(query, from) == name
}

/// Every field of a query is a version or a token, the version is named at most
/// once and is the right one.
pub open spec fn fields_are_known(query: Seq<char>, starts: Seq<nat>) -> bool {
    &&& forall|i: int|
        0 <= i < starts.len() ==> field_is(query, #[trigger] starts[i], "v"@) || field_is(
            query,
            starts[i],
            "token"@,
        )
    &&& forall|i: int|
        0 <= i < starts.len() && field_is(query, #[trigger] starts[i], "v"@) ==> field_value(
            query,
            starts[i],
        ) == "4"@
    &&& forall|i: int, j: int|
        0 <= i < starts.len() && 0 <= j < starts.len() && field_is(
            query,
            #[trigger] starts[i],
            "v"@,
        ) && field_is(query, #[trigger] starts[j], "v"@) ==> i == j
}

/// Some field is a version.
pub open spec fn has_version(query: Seq<char>, starts: Seq<nat>) -> bool {
    exists|i: int| 0 <= i < starts.len() && field_is(query, #[trigger] starts[i], "v"@)
}

/// Some field is a token with this digest.
pub open spec fn has_token(query: Seq<char>, starts: Seq<nat>, digest: Seq<u8>) -> bool {
    exists|i: int|
        0 <= i < starts.len() && field_is(query, #[trigger] starts[i], "token"@) && decoded_token(
            field_value(query, starts[i]),
        ) == Some(digest)
}

proof fn lemma_scanned_fields(query: Seq<char>, from: nat, state: QueryState)
    requires
        scan_query(query, from, state) is Some,
    ensures
        ({
            let starts = field_starts(query, from);
            let found = scan_query(query, from, state)->0;
            &&& fields_are_known(query, starts)
            &&& found.version_ok == (state.version_ok || has_version(query, starts))
            &&& state.version_ok ==> !has_version(query, starts)
            &&& found.token is Some ==> state.token == found.token || has_token(
                query,
                starts,
                found.token->0,
            )
        }),
    decreases query.len() - from,
{
    reveal_strlit("v");
    reveal_strlit("token");
    assert("v"@ != "token"@) by {
        assert("v"@.len() != "token"@.len());
    }
    let starts = field_starts(query, from);
    let next = scan_field(query, from, state)->0;
    let end = find_from(query, '&', from);
    let found = scan_query(query, from, state)->0;
    assert(starts[0] == from);
    if end >= query.len() || end < from {
        assert(found == next);
    } else {
        let rest = field_starts(query, end + 1);
        lemma_scanned_fields(query, end + 1, next);
        assert(found == scan_query(query, end + 1, next)->0);
        assert(starts.len() == rest.len() + 1);
        assert forall|i: int| 0 < i < starts.len() implies #[trigger] starts[i] == rest[i - 1] by {}
        if has_version(query, rest) {
            let i = choose|i: int| 0 <= i < rest.len() && field_is(query, #[trigger] rest[i], "v"@);
            assert(starts[i + 1] == rest[i]);
        }
        if has_version(query, starts) {
            let i = choose|i: int|
                0 <= i < starts.len() && field_is(query, #[trigger] starts[i], "v"@);
            if i > 0 {
                assert(rest[i - 1] == starts[i]);
            }
        }
        if found.token is Some && has_token(query, rest, found.token->0) {
            let i = choose|i: int|
                0 <= i < rest.len() && field_is(query, #[trigger] rest[i], "token"@)
                    && decoded_token(field_value(query, rest[i])) == Some(found.token->0);
            assert(starts[i + 1] == rest[i]);
        }
        assert forall|i: int, j: int|
            0 <= i < starts.len() && 0 <= j < starts.len() && field_is(
                query,
                #[trigger] starts[i],
                "v"@,
            ) && field_is(query, #[trigger] starts[j], "v"@) implies i == j by {
            if i > 0 {
                assert(starts[i] == rest[i - 1]);
            }
            if j > 0 {
                assert(starts[j] == rest[j - 1]);
            }
        }
    }
}

/// The setup address of an endpoint is its authority and a request that leads
/// back to the digest of the token. No other request does: `authority` and `path`
/// have to name the host (in any case), the port (that of HTTPS if none is named)
/// and the path of the endpoint, and the query has to name the version, once and
/// the right one, a token that can be decoded, and nothing else.
pub proof fn law_setup_url_leads_back_to_its_token(
    url: Seq<char>,
    endpoint: PublicEndpoint,
    token: Seq<u8>,
    authority: Seq<char>,
    path: Seq<char>,
)
    requires
        endpoint_fault(url) is None,
        is_endpoint(url, endpoint),
        token.len() == 32,
    ensures
        ({
            let request = endpoint.path@ + "?v="@ + decimal_digits(PROTOCOL_VERSION as nat)
                + "&token="@ + crate::web_transport::tokens::hex(token);
            &&& endpoint.public_url@ + "?v="@ + decimal_digits(PROTOCOL_VERSION as nat)
                + "&token="@ + crate::web_transport::tokens::hex(token) == "https://"@
                + endpoint.authority@ + request
            &&& endpoint.requested_token(endpoint.authority@, request) == Some(
                crate::outside::sha256_of(token),
            )
        }),
        endpoint.requested_token(authority, path) is Some ==> {
            let mark = find_from(path, '?', 0);
            let query = path.skip(mark as int + 1);
            let starts = field_starts(query, 0);
            &&& lowered(authority_host(authority)) == lowered(endpoint.host@)
            &&& authority_port(authority) == Some(endpoint.port) || (authority_port(
                authority,
            ) is None && endpoint.port == DEFAULT_HTTPS_PORT)
            &&& mark < path.len()
            &&& path.take(mark as int) == endpoint.path@
            &&& fields_are_known(query, starts)
            &&& has_version(query, starts)
            &&& has_token(query, starts, endpoint.requested_token(authority, path)->0)
        },
{
    let version = decimal_digits(PROTOCOL_VERSION as nat);
    let text = crate::web_transport::tokens::hex(token);
    law_endpoint_knows_its_own_address(url, endpoint);
    law_setup_url_names_its_token(endpoint, endpoint.authority@, token);
    assert(endpoint.public_url@ + "?v="@ + version + "&token="@ + text =~= "https://"@
        + endpoint.authority@ + (endpoint.path@ + "?v="@ + version + "&token="@ + text));
    if endpoint.requested_token(authority, path) is Some {
        let query = path.skip(find_from(path, '?', 0) as int + 1);
        lemma_scanned_fields(query, 0, QueryState { version_ok: false, token: None });
    }
}

/// An address for browsers is https, a host with a port, and a path; it is taken apart
/// into these, and no path means the root. Queries, fragments, user names, a missing
/// port and line breaks are refused, each for its own reason.
pub proof fn law_which_addresses_are_taken(authority: Seq<char>, path: Seq<char>, scheme: Seq<char>)
    requires
        authority.len() > 0,
        !authority.contains('/') && !authority.contains('?') && !authority.contains('#'),
        path.len() == 0 || path[0] == '/',
        !is_https(scheme),
    ensures
        ({
            let url = "https://"@ + authority + path;
            let whole = !path.contains('?') && !path.contains('#');
            let bad = authority.contains('@') || !valid_authority(authority);
            &&& url_authority(url) == authority
            &&& url_path(url) == (if path.len() == 0 {
                seq!['/']
            } else {
                path
            })
            &&& !whole ==> endpoint_fault(url) == Some(EndpointError::QueryOrFragment)
            &&& whole && bad ==> endpoint_fault(url) == Some(EndpointError::InvalidAuthority)
            &&& whole && !bad && authority_port(authority) is None ==> endpoint_fault(url) == Some(
                EndpointError::MissingPort,
            )
            &&& whole && !bad && authority_port(authority) is Some ==> endpoint_fault(url) == (
            if path.contains('\r') || path.contains('\n') {
                Some(EndpointError::InvalidPath)
            } else {
                None
            })
            &&& endpoint_fault(scheme) == Some(EndpointError::NotHttps)
        }),
{
    reveal_strlit("https://");
    reveal_strlit("/");
    let url = "https://"@ + authority + path;
    let rest = url_remainder(url);
    assert(rest =~= authority + path);
    assert(url.take(8) =~= "https://"@);
    assert("/"@ =~= seq!['/']);
    assert forall|i: int| 0 <= i < authority.len() implies #[trigger] rest[i] != '/' by {
        assert(rest[i] == authority[i]);
        assert(authority.contains(authority[i]));
    }
    if path.len() > 0 {
        assert(rest[authority.len() as int] == path[0]);
        lemma_find_is(rest, '/', 0, authority.len());
        assert(rest.skip(authority.len() as int) =~= path);
    } else {
        assert(rest =~= authority);
        lemma_find_none(rest, '/', 0);
    }
    assert(rest.take(authority.len() as int) =~= authority);
    lemma_has(rest, authority, path, '?');
    lemma_has(rest, authority, path, '#');
    lemma_occurs(authority, '@');
    lemma_occurs(url_path(url), '\r');
    lemma_occurs(url_path(url), '\n');
    if path.len() == 0 {
        assert(!url_path(url).contains('\r') && !url_path(url).contains('\n'));
    }
}

proof fn lemma_occurs(text: Seq<char>, c: char)
    ensures
        occurs(text, c) <==> text.contains(c),
{
    lemma_find_from(text, c, 0);
    if !text.contains(c) {
        lemma_find_none(text, c, 0);
    }
}

proof fn lemma_has(whole: Seq<char>, front: Seq<char>, back: Seq<char>, c: char)
    requires
        whole == front + back,
        !front.contains(c),
    ensures
        occurs(whole, c) <==> back.contains(c),
{
    lemma_occurs(whole, c);
    if whole.contains(c) {
        let i = choose|i: int| 0 <= i < whole.len() && whole[i] == c;
        if i < front.len() {
            assert(front[i] == c);
        } else {
            assert(back[i - front.len()] == c);
        }
    }
    if back.contains(c) {
        let i = choose|i: int| 0 <= i < back.len() && back[i] == c;
        assert(whole[front.len() + i] == c);
    }
}

/// Who may ask: a request names the host of the endpoint, in any case, and its port.
/// A request without a port means the port of https.
pub proof fn law_who_may_ask(endpoint: PublicEndpoint, authority: Seq<char>)
    requires
        valid_authority(authority),
        !authority.contains('@'),
        lowered(authority_host(authority)) == lowered(endpoint.host@),
    ensures
        authority_port(authority) is Some ==> (endpoint.is_authority(authority)
            <==> authority_port(authority) == Some(endpoint.port)),
        authority_port(authority) is None ==> (endpoint.is_authority(authority) <==> endpoint.port
            == 443),
{
    lemma_occurs(authority, '@');
}

/// The query of a request has the version, which is four, and a token, each once; a
/// field without a value, or with another name, spoils it.
pub proof fn law_what_a_query_may_say(query: Seq<char>, from: nat, state: QueryState)
    ensures
        ({
            let named = find_from(query, '=', from) < find_from(query, '&', from);
            let name = field_name(query, from);
            let value = field_value(query, from);
            let read = scan_field(query, from, state);
            &&& !named || (name != seq!['v'] && name != seq!['t', 'o', 'k', 'e', 'n'])
                ==> read is None
            &&& named && name == seq!['v'] ==> (read is Some <==> !state.version_ok && value
                == seq!['4'])
            &&& named && name == seq!['t', 'o', 'k', 'e', 'n'] ==> (read is Some <==> state.token
                is None)
            &&& read is Some && name == seq!['v'] ==> read->0.version_ok && read->0.token
                == state.token
            &&& read is Some && name == seq!['t', 'o', 'k', 'e', 'n'] ==> read->0.version_ok
                == state.version_ok && read->0.token == decoded_token(value)
        }),
{
    reveal_strlit("v");
    reveal_strlit("4");
    reveal_strlit("token");
    assert("v"@ =~= seq!['v']);
    assert("4"@ =~= seq!['4']);
    assert("token"@ =~= seq!['t', 'o', 'k', 'e', 'n']);
    assert(seq!['v'].len() != seq!['t', 'o', 'k', 'e', 'n'].len());
}

} // verus!
