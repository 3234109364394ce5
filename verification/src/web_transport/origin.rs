//! Origins of web pages, in one spelling each.

use crate::outside::{authority_host, parse_authority, valid_authority};
use crate::text::{
    chars_of, decimal, decimal_digits, eq_ignore_ascii_case, find_char, find_from, find_last,
    find_last_char, has_char, is_digit, law_decimal_round_trip, lemma_find_from, lemma_find_is,
    lemma_find_last_is, lemma_find_last_none, lemma_find_none, lemma_only_digits, lower, lowered,
    occurs, parse_u16, parsed_u16, part_of, to_ascii_lowercase,
};
use crate::web_transport::endpoint::{url_remainder, DEFAULT_HTTPS_PORT};
use vstd::prelude::*;

verus! {

/// Whether `://` stands at `at`.
pub open spec fn scheme_ends_at(text: Seq<char>, at: nat) -> bool {
    &&& at + 3 <= text.len()
    &&& text[at as int] == ':'
    &&& text[at as int + 1] == '/'
    &&& text[at as int + 2] == '/'
}

/// The first place of `://` at or behind `from`.
pub open spec fn scheme_end(text: Seq<char>, from: nat) -> Option<nat>
    decreases text.len() - from,
{
    if from >= text.len() {
        None
    } else if scheme_ends_at(text, from) {
        Some(from)
    } else {
        scheme_end(text, from + 1)
    }
}

fn find_scheme_end(chars: &Vec<char>) -> (at: Option<usize>)
    ensures
        match at {
            Some(at) => scheme_end(chars@, 0) == Some(at as nat) && at + 3 <= chars@.len(),
            None => scheme_end(chars@, 0) is None,
        },
{
    let mut at: usize = 0;
    while at < chars.len()
        invariant
            at <= chars@.len(),
            scheme_end(chars@, 0) == scheme_end(chars@, at as nat),
        decreases chars.len() - at,
    {
        if chars.len() - at >= 3 && chars[at] == ':' && chars[at + 1] == '/' && chars[at + 2]
            == '/' {
            return Some(at);
        }
        at = at + 1;
    }
    None
}

/// The port that an authority names.
pub enum NamedPort {
    Absent,
    Port(u16),
    Invalid,
}

pub open spec fn named_port_text(text: Seq<char>) -> NamedPort {
    match parsed_u16(text) {
        Some(port) => NamedPort::Port(port),
        None => NamedPort::Invalid,
    }
}

/// The port in an authority: behind the address in brackets, or behind the last colon.
pub open spec fn named_port(authority: Seq<char>) -> NamedPort {
    if authority.len() > 0 && authority[0] == '[' {
        let closing = find_from(authority, ']', 0);
        if closing >= authority.len() {
            NamedPort::Invalid
        } else if closing + 1 == authority.len() {
            NamedPort::Absent
        } else if authority[closing as int + 1] == ':' {
            named_port_text(authority.skip(closing as int + 2))
        } else {
            NamedPort::Invalid
        }
    } else {
        match find_last(authority, ':', authority.len()) {
            Some(at) => named_port_text(authority.skip(at as int + 1)),
            None => NamedPort::Absent,
        }
    }
}

/// A host as it stands in an origin: an IPv6 address in brackets.
pub open spec fn bracketed(host: Seq<char>) -> Seq<char> {
    if host.len() > 0 && host[0] == '[' && host.last() == ']' {
        host
    } else if occurs(host, ':') {
        seq!['['] + host + seq![']']
    } else {
        host
    }
}

/// An origin from its parts. The port of HTTPS is left out.
pub open spec fn origin_text(host: Seq<char>, port: u16) -> Seq<char> {
    if port == DEFAULT_HTTPS_PORT {
        "https://"@ + bracketed(host)
    } else {
        "https://"@ + bracketed(host) + ":"@ + decimal_digits(port as nat)
    }
}

/// The one spelling of an HTTPS origin. A path, credentials, a query or a
/// fragment make it none, and so does any other scheme.
pub open spec fn canonical_origin(origin: Seq<char>) -> Option<Seq<char>> {
    match scheme_end(origin, 0) {
        None => None,
        Some(at) => {
            let authority = origin.skip(at as int + 3);
            let host = authority_host(authority);
            if lowered(origin.take(at as int)) != lowered("https"@) || authority.len() == 0
                || occurs(authority, '/') || occurs(authority, '?') || occurs(authority, '#')
                || occurs(authority, '@') || !valid_authority(authority) || host.len() == 0 {
                None
            } else {
                match named_port(authority) {
                    NamedPort::Absent => Some(origin_text(lowered(host), DEFAULT_HTTPS_PORT)),
                    NamedPort::Port(port) => Some(origin_text(lowered(host), port)),
                    NamedPort::Invalid => None,
                }
            }
        },
    }
}

fn explicit_port(chars: &Vec<char>) -> (port: Option<Option<u16>>)
    requires
        chars@.len() > 0,
    ensures
        match port {
            Some(Some(port)) => named_port(chars@) == NamedPort::Port(port),
            Some(None) => named_port(chars@) == NamedPort::Absent,
            None => named_port(chars@) == NamedPort::Invalid,
        },
{
    assert(chars.len() == chars@.len());
    if chars[0] == '[' {
        let closing: usize = find_char(chars, ']', 0);
        if closing >= chars.len() {
            return None;
        }
        if closing + 1 == chars.len() {
            return Some(None);
        }
        if chars[closing + 1] != ':' {
            return None;
        }
        match parse_u16(chars, closing + 2) {
            Some(port) => Some(Some(port)),
            None => None,
        }
    } else {
        match find_last_char(chars, ':') {
            Some(at) => match parse_u16(chars, at + 1) {
                Some(port) => Some(Some(port)),
                None => None,
            },
            None => Some(None),
        }
    }
}

fn write_origin(host: String, port: u16) -> (origin: String)
    ensures
        origin@ == origin_text(host@, port),
{
    proof {
        reveal_strlit("[");
        reveal_strlit("]");
    }
    let chars: Vec<char> = chars_of(host.as_str());
    let mut origin: String = "https://".to_owned();
    if chars.len() > 0 && chars[0] == '[' && chars[chars.len() - 1] == ']' {
        origin.append(host.as_str());
        assert(origin@ == "https://"@ + bracketed(host@));
    } else if has_char(&chars, ':') {
        origin.append("[");
        origin.append(host.as_str());
        origin.append("]");
        assert(origin@ =~= "https://"@ + bracketed(host@));
    } else {
        origin.append(host.as_str());
        assert(origin@ == "https://"@ + bracketed(host@));
    }
    if port != DEFAULT_HTTPS_PORT {
        let number: String = decimal(port as u64);
        origin.append(":");
        origin.append(number.as_str());
    }
    origin
}

/// Checks the origin that a browser states, and spells it in its one way.
pub fn canonicalize_https_origin(origin: &str) -> (canonical: Option<String>)
    ensures
        match canonical {
            Some(canonical) => canonical_origin(origin@) == Some(canonical@),
            None => canonical_origin(origin@) is None,
        },
{
    let chars: Vec<char> = chars_of(origin);
    let at: usize = match find_scheme_end(&chars) {
        Some(at) => at,
        None => {
            return None;
        },
    };
    assert(chars.len() == chars@.len());
    let scheme: String = part_of(&chars, 0, at);
    assert(scheme@ =~= origin@.take(at as int));
    let authority: String = part_of(&chars, at + 3, chars.len());
    assert(authority@ =~= origin@.skip(at as int + 3));
    if !eq_ignore_ascii_case(scheme.as_str(), "https") {
        return None;
    }
    let authority_chars: Vec<char> = chars_of(authority.as_str());
    if authority_chars.len() == 0 || has_char(&authority_chars, '/') || has_char(
        &authority_chars,
        '?',
    ) || has_char(&authority_chars, '#') || has_char(&authority_chars, '@') {
        return None;
    }
    let parts = match parse_authority(authority.as_str()) {
        Some(parts) => parts,
        None => {
            return None;
        },
    };
    if parts.host.as_str().is_empty() {
        return None;
    }
    let port: u16 = match explicit_port(&authority_chars) {
        Some(Some(port)) => port,
        Some(None) => DEFAULT_HTTPS_PORT,
        None => {
            return None;
        },
    };
    Some(write_origin(to_ascii_lowercase(parts.host.as_str()), port))
}

/// The host in a canonical origin is in lower case.
pub proof fn law_origin_host_is_lower_case(origin: Seq<char>)
    requires
        canonical_origin(origin) is Some,
    ensures
        exists|host: Seq<char>, port: u16|
            canonical_origin(origin) == Some(#[trigger] origin_text(host, port)) && host
                == lowered(host),
{
    let at = scheme_end(origin, 0)->0;
    let authority = origin.skip(at as int + 3);
    let host = lowered(authority_host(authority));
    assert(lowered(host) =~= host);
    match named_port(authority) {
        NamedPort::Absent => {
            assert(canonical_origin(origin) == Some(origin_text(host, DEFAULT_HTTPS_PORT)));
        },
        NamedPort::Port(port) => {
            assert(canonical_origin(origin) == Some(origin_text(host, port)));
        },
        NamedPort::Invalid => {},
    }
}

/// A character that is not a letter.
spec fn is_mark(c: char) -> bool {
    c == ':' || c == '/' || c == '?' || c == '#' || c == '@' || c == '[' || c == ']'
}

/// What an accepted origin says of its authority.
proof fn lemma_accepted_authority(origin: Seq<char>)
    requires
        canonical_origin(origin) is Some,
    ensures
        ({
            let authority = origin.skip(scheme_end(origin, 0)->0 as int + 3);
            let host = authority_host(authority);
            &&& host.len() > 0
            &&& forall|i: int|
                0 <= i < authority.len() ==> (#[trigger] authority[i]) != '/' && authority[i] != '?'
                    && authority[i] != '#' && authority[i] != '@'
            &&& host.len() <= authority.len()
            &&& host == authority.take(host.len() as int)
            &&& if authority[0] == '[' {
                &&& host.last() == ']'
                &&& forall|i: int| 0 <= i < host.len() - 1 ==> #[trigger] host[i] != ']'
            } else {
                forall|i: int| 0 <= i < host.len() ==> #[trigger] host[i] != ':'
            }
        }),
{
    let authority = origin.skip(scheme_end(origin, 0)->0 as int + 3);
    lemma_find_from(authority, '/', 0);
    lemma_find_from(authority, '?', 0);
    lemma_find_from(authority, '#', 0);
    lemma_find_from(authority, '@', 0);
    lemma_find_last_none(authority, '@', authority.len());
    lemma_find_from(authority, ']', 0);
    lemma_find_from(authority, ':', 0);
}

/// The spelling of an authority that names this host and port.
spec fn spelled(host: Seq<char>, port: u16) -> Seq<char> {
    if port == DEFAULT_HTTPS_PORT {
        host
    } else {
        host + ":"@ + decimal_digits(port as nat)
    }
}

/// An origin that is spelled in its one way is read as its host and port again.
proof fn lemma_spelled_origin(host: Seq<char>, port: u16)
    requires
        host.len() > 0,
        lowered(host) == host,
        forall|i: int|
            0 <= i < host.len() ==> (#[trigger] host[i]) != '/' && host[i] != '?' && host[i] != '#'
                && host[i] != '@',
        if host[0] == '[' {
            &&& host.last() == ']'
            &&& forall|i: int| 0 <= i < host.len() - 1 ==> #[trigger] host[i] != ']'
        } else {
            forall|i: int| 0 <= i < host.len() ==> #[trigger] host[i] != ':'
        },
        valid_authority(spelled(host, port)),
    ensures
        origin_text(host, port) == "https://"@ + spelled(host, port),
        canonical_origin(origin_text(host, port)) == Some(origin_text(host, port)),
{
    reveal_strlit("https://");
    reveal_strlit("https");
    reveal_strlit(":");
    let digits = decimal_digits(port as nat);
    let authority = spelled(host, port);
    let origin = "https://"@ + authority;
    lemma_only_digits(port as nat);
    law_decimal_round_trip(port);
    if host[0] != '[' {
        lemma_find_none(host, ':', 0);
    }
    assert(origin_text(host, port) =~= origin);
    assert(origin[0] == 'h' && origin[1] == 't' && origin[2] == 't' && origin[3] == 'p'
        && origin[4] == 's' && origin[5] == ':' && origin[6] == '/' && origin[7] == '/');
    assert(scheme_end(origin, 0) == Some(5nat)) by {
        reveal_with_fuel(scheme_end, 7);
    }
    assert(origin.skip(8) =~= authority);
    assert(origin.take(5) =~= "https"@);
    assert forall|i: int| 0 <= i < authority.len() implies (#[trigger] authority[i]) != '/'
        && authority[i] != '?' && authority[i] != '#' && authority[i] != '@' by {
        if i < host.len() {
            assert(authority[i] == host[i]);
        } else if i > host.len() {
            assert(authority[i] == digits[i - host.len() - 1]);
            assert(is_digit(authority[i]));
        }
    }
    lemma_find_none(authority, '/', 0);
    lemma_find_none(authority, '?', 0);
    lemma_find_none(authority, '#', 0);
    lemma_find_none(authority, '@', 0);
    lemma_find_last_none(authority, '@', authority.len());
    assert forall|i: int| 0 <= i < host.len() implies #[trigger] authority[i] == host[i] by {}
    let length = host.len();
    if port != DEFAULT_HTTPS_PORT {
        assert(authority[length as int] == ':');
        assert(authority.skip(length as int + 1) =~= digits);
        assert forall|i: int| length < i < authority.len() implies #[trigger] authority[i]
            != ':' by {
            assert(authority[i] == digits[i - length - 1]);
            assert(is_digit(authority[i]));
        }
    }
    if host[0] == '[' {
        assert(authority[length - 1] == host.last());
        lemma_find_is(authority, ']', 0, (length - 1) as nat);
        assert(authority.take(length as int) =~= host);
    } else {
        if port == DEFAULT_HTTPS_PORT {
            lemma_find_none(authority, ':', 0);
            lemma_find_last_none(authority, ':', authority.len());
        } else {
            lemma_find_is(authority, ':', 0, length);
            lemma_find_last_is(authority, ':', authority.len(), length);
        }
        assert(authority.take(length as int) =~= host);
    }
    assert(authority_host(authority) == host);
}

/// There is one spelling of each origin: `https://`, the host in lower case, and
/// the port unless it is that of HTTPS. An origin that has it keeps it, as long
/// as what stands behind `https://` is an authority by itself. Only what has the
/// scheme HTTPS, and no path, query, fragment or credentials, has such a spelling.
pub proof fn law_canonical_origin_stays(origin: Seq<char>)
    requires
        canonical_origin(origin) is Some,
        valid_authority(url_remainder(canonical_origin(origin)->0)),
    ensures
        canonical_origin(canonical_origin(origin)->0) == canonical_origin(origin),
        exists|host: Seq<char>, port: u16|
            canonical_origin(origin)->0 == #[trigger] origin_text(host, port) && host == lowered(
                host,
            ) && bracketed(host) == host,
        scheme_end(origin, 0) is Some,
        ({
            let at = scheme_end(origin, 0)->0;
            let authority = origin.skip(at as int + 3);
            &&& lowered(origin.take(at as int)) == "https"@
            &&& !occurs(authority, '/')
            &&& !occurs(authority, '?')
            &&& !occurs(authority, '#')
            &&& !occurs(authority, '@')
        }),
{
    reveal_strlit("https://");
    reveal_strlit("https");
    reveal_strlit(":");
    assert(lowered("https"@) =~= "https"@);
    lemma_accepted_authority(origin);
    let authority = origin.skip(scheme_end(origin, 0)->0 as int + 3);
    let host = authority_host(authority);
    let low = lowered(host);
    let port = match named_port(authority) {
        NamedPort::Port(port) => port,
        _ => DEFAULT_HTTPS_PORT,
    };
    assert(lowered(low) =~= low);
    assert forall|i: int| 0 <= i < low.len() implies #[trigger] low[i] == lower(host[i]) && host[i]
        == authority[i] by {}
    assert forall|i: int| 0 <= i < low.len() && is_mark(#[trigger] low[i]) implies low[i]
        == host[i] by {}
    assert(canonical_origin(origin)->0 == origin_text(low, port));
    if low[0] != '[' {
        lemma_find_none(low, ':', 0);
    }
    assert(bracketed(low) == low);
    assert(url_remainder(origin_text(low, port)) =~= spelled(low, port));
    lemma_spelled_origin(low, port);
}

/// The port of https is left out of an origin, and any other port is written behind a
/// colon. A host with colons in it stands in brackets, and no other host does.
pub proof fn law_how_origins_are_written(host: Seq<char>, port: u16)
    requires
        host.len() > 0,
        host[0] != '[',
    ensures
        origin_text(host, 443) == "https://"@ + bracketed(host),
        port != 443 ==> origin_text(host, port) == "https://"@ + bracketed(host) + seq![':']
            + decimal_digits(port as nat),
        host.contains(':') ==> bracketed(host) == seq!['['] + host + seq![']'],
        !host.contains(':') ==> bracketed(host) == host,
        bracketed(seq!['['] + host + seq![']']) == seq!['['] + host + seq![']'],
{
    reveal_strlit(":");
    assert(":"@ =~= seq![':']);
    lemma_find_from(host, ':', 0);
    if !host.contains(':') {
        crate::text::lemma_find_none(host, ':', 0);
    }
    let closed = seq!['['] + host + seq![']'];
    assert(closed[0] == '[' && closed.last() == ']');
}

/// The port of an authority is what stands behind its last colon; without a colon none
/// is named. Behind a host in brackets there is nothing, or a colon and a port.
pub proof fn law_which_port_is_named(host: Seq<char>, port: u16)
    requires
        host.len() > 0,
        forall|i: int|
            0 <= i < host.len() ==> (#[trigger] host[i]) != ':' && host[i] != '[' && host[i] != ']',
    ensures
        named_port(host) is Absent,
        named_port(host + seq![':'] + decimal_digits(port as nat)) == NamedPort::Port(port),
        named_port(host + seq![':']) is Invalid,
        named_port(seq!['['] + host + seq![']']) is Absent,
        named_port(seq!['['] + host) is Invalid,
        named_port(seq!['['] + host + seq![']', ':'] + decimal_digits(port as nat))
            == NamedPort::Port(port),
        named_port(seq!['['] + host + seq![']', 'x']) is Invalid,
{
    crate::text::law_decimal_round_trip(port);
    let digits = decimal_digits(port as nat);
    crate::text::lemma_only_digits(port as nat);
    lemma_find_last_none(host, ':', host.len());
    let named = host + seq![':'] + digits;
    assert(named[0] == host[0]);
    assert forall|i: int| host.len() < i < named.len() implies #[trigger] named[i] != ':' by {
        assert(named[i] == digits[i - host.len() - 1]);
    }
    lemma_find_last_is(named, ':', named.len(), host.len());
    assert(named.skip(host.len() as int + 1) =~= digits);
    let empty = host + seq![':'];
    assert(empty[0] == host[0]);
    lemma_find_last_is(empty, ':', empty.len(), host.len());
    assert(empty.skip(host.len() as int + 1) =~= Seq::<char>::empty());
    let closing = (host.len() + 1) as nat;
    let closed = seq!['['] + host + seq![']'];
    let open = seq!['['] + host;
    let ported = seq!['['] + host + seq![']', ':'] + digits;
    let spoiled = seq!['['] + host + seq![']', 'x'];
    assert forall|i: int| 0 <= i < closing implies #[trigger] closed[i] != ']' by {
        if i > 0 {
            assert(closed[i] == host[i - 1]);
        }
    }
    lemma_find_is(closed, ']', 0, closing);
    assert forall|i: int| 0 <= i < open.len() implies #[trigger] open[i] != ']' by {
        if i > 0 {
            assert(open[i] == host[i - 1]);
        }
    }
    crate::text::lemma_find_none(open, ']', 0);
    assert forall|i: int| 0 <= i < closing implies #[trigger] ported[i] != ']' by {
        if i > 0 {
            assert(ported[i] == host[i - 1]);
        }
    }
    assert(ported[closing as int] == ']' && ported[closing as int + 1] == ':');
    lemma_find_is(ported, ']', 0, closing);
    assert(ported.skip(closing as int + 2) =~= digits);
    assert forall|i: int| 0 <= i < closing implies #[trigger] spoiled[i] != ']' by {
        if i > 0 {
            assert(spoiled[i] == host[i - 1]);
        }
    }
    assert(spoiled[closing as int] == ']' && spoiled[closing as int + 1] == 'x');
    lemma_find_is(spoiled, ']', 0, closing);
}

/// Origins of plain hosts are accepted in any case and with the port of https or
/// without it, and come out the same. Other schemes, and anything behind the host and
/// port, are not accepted.
pub proof fn law_which_origins_are_accepted(scheme: Seq<char>, host: Seq<char>, c: char)
    requires
        forall|i: int|
            0 <= i < host.len() ==> ('a' <= #[trigger] host[i] && host[i] <= 'z') || ('A'
                <= host[i] && host[i] <= 'Z') || ('0' <= host[i] && host[i] <= '9') || host[i]
                == '.' || host[i] == '-',
        forall|i: int| 0 <= i < scheme.len() ==> #[trigger] scheme[i] != ':',
        c == '/' || c == '?' || c == '#' || c == '@',
    ensures
        ({
            let origin = scheme + seq![':', '/', '/'] + host;
            let https = lowered(scheme) == "https"@;
            &&& canonical_origin(origin) is Some <==> https && host.len() > 0 && valid_authority(
                host,
            )
            &&& canonical_origin(origin) matches Some(text) ==> text == "https://"@ + lowered(host)
            &&& canonical_origin(origin + seq![c]) is None
            &&& canonical_origin(scheme + host) is None
        }),
{
    reveal_strlit("https");
    let origin = scheme + seq![':', '/', '/'] + host;
    let at = scheme.len();
    lemma_scheme(origin, 0, at);
    assert(origin.take(at as int) =~= scheme);
    assert(origin.skip(at as int + 3) =~= host);
    assert(lowered("https"@) =~= "https"@);
    crate::text::lemma_find_none(host, '/', 0);
    crate::text::lemma_find_none(host, '?', 0);
    crate::text::lemma_find_none(host, '#', 0);
    crate::text::lemma_find_none(host, '@', 0);
    crate::text::lemma_find_none(host, ':', 0);
    lemma_find_last_none(host, '@', host.len());
    lemma_find_last_none(host, ':', host.len());
    assert(crate::outside::without_user_info(host) =~= host);
    assert(host.take(host.len() as int) =~= host);
    assert(authority_host(host) =~= host);
    let low = lowered(host);
    assert forall|i: int| 0 <= i < low.len() implies #[trigger] low[i] != ':' by {
        assert(low[i] == crate::text::lower(host[i]));
    }
    crate::text::lemma_find_none(low, ':', 0);
    if host.len() > 0 {
        assert(low[0] == crate::text::lower(host[0]));
        assert(bracketed(low) == low);
    }
    let longer = origin + seq![c];
    lemma_scheme(longer, 0, at);
    let rest = longer.skip(at as int + 3);
    assert(rest =~= host + seq![c]);
    assert(rest[host.len() as int] == c);
    lemma_find_from(rest, c, 0);
    let bare = scheme + host;
    assert forall|i: int| 0 <= i < bare.len() implies #[trigger] bare[i] != ':' by {
        if i >= scheme.len() {
            assert(bare[i] == host[i - scheme.len()]);
        } else {
            assert(bare[i] == scheme[i]);
        }
    }
    lemma_no_scheme(bare, 0);
}

proof fn lemma_scheme(text: Seq<char>, from: nat, at: nat)
    requires
        from <= at,
        at + 3 <= text.len(),
        text[at as int] == ':' && text[at as int + 1] == '/' && text[at as int + 2] == '/',
        forall|i: int| from <= i < at ==> #[trigger] text[i] != ':',
    ensures
        scheme_end(text, from) == Some(at),
    decreases at - from,
{
    if from < at {
        lemma_scheme(text, from + 1, at);
    }
}

proof fn lemma_no_scheme(text: Seq<char>, from: nat)
    requires
        forall|i: int| from <= i < text.len() ==> #[trigger] text[i] != ':',
    ensures
        scheme_end(text, from) is None,
    decreases text.len() - from,
{
    if from < text.len() {
        lemma_no_scheme(text, from + 1);
    }
}

} // verus!
