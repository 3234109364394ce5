//! One-use tokens that let a browser connect.
//!
//! The browser gets a random token in its setup address. The server keeps only
//! the digest of it, together with the origin that may use it and until when.

use crate::outside::{sha256, sha256_of};
use crate::text::{chars_of, same_text};
use crate::time::Instant;
use std::collections::VecDeque;
use vstd::prelude::*;

verus! {

/// How many tokens may be waiting.
pub const MAX_PENDING_TOKENS: usize = 1_024;

/// The digit for a number below sixteen.
pub open spec fn hex_digit(n: int) -> char {
    if n < 10 {
        (48 + n) as char
    } else {
        (87 + n) as char
    }
}

/// The number that a lower case digit stands for.
pub open spec fn nibble(c: char) -> Option<u8> {
    if '0' <= c && c <= '9' {
        Some((c as u32 - 48) as u8)
    } else if 'a' <= c && c <= 'f' {
        Some((c as u32 - 87) as u8)
    } else {
        None
    }
}

/// Two digits for each byte.
pub open spec fn hex(bytes: Seq<u8>) -> Seq<char> {
    Seq::new(
        bytes.len() * 2,
        |i: int|
            if i % 2 == 0 {
                hex_digit(bytes[i / 2] as int / 16)
            } else {
                hex_digit(bytes[i / 2] as int % 16)
            },
    )
}

/// Whether `text` is 32 bytes in hexadecimal notation.
pub open spec fn is_token_text(text: Seq<char>) -> bool {
    &&& text.len() == 64
    &&& forall|i: int| 0 <= i < 64 ==> nibble(#[trigger] text[i]) is Some
}

/// The bytes that a token text stands for.
pub open spec fn token_bytes(text: Seq<char>) -> Seq<u8> {
    Seq::new(32, |i: int| (nibble(text[2 * i])->0 * 16 + nibble(text[2 * i + 1])->0) as u8)
}

/// The digest of the token that `text` stands for.
pub open spec fn decoded_token(text: Seq<char>) -> Option<Seq<u8>> {
    if is_token_text(text) {
        Some(sha256_of(token_bytes(text)))
    } else {
        None
    }
}

pub fn hash_token(token: &[u8; 32]) -> (hash: [u8; 32])
    ensures
        hash@ == sha256_of(token@),
{
    sha256(token.as_slice())
}

fn digit_of(n: u8) -> (digit: char)
    requires
        n < 16,
    ensures
        digit == hex_digit(n as int),
{
    if n < 10 {
        (48 + n) as char
    } else {
        (87 + n) as char
    }
}

pub fn encode_token(token: &[u8; 32]) -> (text: String)
    ensures
        text@ == hex(token@),
{
    let mut text: String = String::new();
    let mut i: usize = 0;
    while i < 32
        invariant
            i <= 32,
            text@ == hex(token@).take(2 * i),
        decreases 32 - i,
    {
        let byte: u8 = token[i];
        assert(hex(token@).take(2 * (i + 1)) =~= hex(token@).take(2 * i).push(
            hex_digit(byte as int / 16),
        ).push(hex_digit(byte as int % 16)));
        text.push(digit_of(byte / 16));
        text.push(digit_of(byte % 16));
        i = i + 1;
    }
    assert(text@ =~= hex(token@));
    text
}

pub fn decode_nibble(value: char) -> (number: Option<u8>)
    ensures
        number == nibble(value),
{
    if '0' <= value && value <= '9' {
        Some((value as u32 - 48) as u8)
    } else if 'a' <= value && value <= 'f' {
        Some((value as u32 - 87) as u8)
    } else {
        None
    }
}

/// The digest of the token in `encoded`.
pub fn decode_token(encoded: &str) -> (hash: Option<[u8; 32]>)
    ensures
        match hash {
            Some(hash) => decoded_token(encoded@) == Some(hash@),
            None => decoded_token(encoded@) is None,
        },
{
    let chars: Vec<char> = chars_of(encoded);
    if chars.len() != 64 {
        return None;
    }
    let mut token: [u8; 32] = [0u8; 32];
    let mut i: usize = 0;
    while i < 32
        invariant
            i <= 32,
            chars@ == encoded@,
            chars@.len() == 64,
            forall|k: int| 0 <= k < 2 * i ==> nibble(#[trigger] chars@[k]) is Some,
            forall|k: int| 0 <= k < i ==> #[trigger] token@[k] == token_bytes(chars@)[k],
        decreases 32 - i,
    {
        let high: u8 = match decode_nibble(chars[2 * i]) {
            Some(high) => high,
            None => {
                assert(nibble(chars@[2 * i as int]) is None);
                return None;
            },
        };
        let low: u8 = match decode_nibble(chars[2 * i + 1]) {
            Some(low) => low,
            None => {
                assert(nibble(chars@[2 * i + 1]) is None);
                return None;
            },
        };
        token[i] = high * 16 + low;
        i = i + 1;
    }
    assert(token@ =~= token_bytes(encoded@));
    Some(hash_token(&token))
}

/// A connection that a browser may make.
pub struct PendingBridge<Bridge> {
    pub hash: [u8; 32],
    pub expires_at: Instant,
    pub expected_origin: String,
    /// The control session has ended meanwhile.
    pub shut_down: bool,
    pub bridge: Bridge,
}

/// Why a token was not accepted.
#[derive(Clone, Copy, Debug, PartialEq, Eq, Structural)]
pub enum TokenConsumeRejection {
    Unknown,
    OriginMismatch,
}

/// The tokens that were given out and not used yet.
pub struct TokenStore<Bridge> {
    entries: VecDeque<PendingBridge<Bridge>>,
}

impl<Bridge> View for TokenStore<Bridge> {
    type V = Seq<PendingBridge<Bridge>>;

    closed spec fn view(&self) -> Seq<PendingBridge<Bridge>> {
        self.entries@
    }
}

pub open spec fn lives_at<Bridge>(now: Instant) -> spec_fn(PendingBridge<Bridge>) -> bool {
    |entry: PendingBridge<Bridge>| entry.expires_at.nanos() > now.nanos()
}

pub open spec fn other_hash<Bridge>(hash: Seq<u8>) -> spec_fn(PendingBridge<Bridge>) -> bool {
    |entry: PendingBridge<Bridge>| entry.hash@ != hash
}

/// The entries that have not expired.
pub open spec fn unexpired<Bridge>(
    entries: Seq<PendingBridge<Bridge>>,
    now: Instant,
) -> Seq<PendingBridge<Bridge>> {
    entries.filter(lives_at(now))
}

/// The entries for other tokens.
pub open spec fn without_hash<Bridge>(
    entries: Seq<PendingBridge<Bridge>>,
    hash: Seq<u8>,
) -> Seq<PendingBridge<Bridge>> {
    entries.filter(other_hash(hash))
}

/// The place of a token among the entries, if it is there.
pub open spec fn index_of_hash<Bridge>(
    entries: Seq<PendingBridge<Bridge>>,
    hash: Seq<u8>,
    from: nat,
) -> Option<nat>
    decreases entries.len() - from,
{
    if from >= entries.len() {
        None
    } else if entries[from as int].hash@ == hash {
        Some(from)
    } else {
        index_of_hash(entries, hash, from + 1)
    }
}

/// No token stands there twice.
pub open spec fn distinct_hashes<Bridge>(entries: Seq<PendingBridge<Bridge>>) -> bool {
    entries.map_values(|entry: PendingBridge<Bridge>| entry.hash@).no_duplicates()
}

fn same_hash(a: &[u8; 32], b: &[u8; 32]) -> (same: bool)
    ensures
        same == (a@ == b@),
{
    let mut i: usize = 0;
    while i < 32
        invariant
            i <= 32,
            forall|k: int| 0 <= k < i ==> a@[k] == b@[k],
        decreases 32 - i,
    {
        if a[i] != b[i] {
            return false;
        }
        i = i + 1;
    }
    assert(a@ =~= b@);
    true
}

impl<Bridge> TokenStore<Bridge> {
    pub open spec fn wf(self) -> bool {
        &&& distinct_hashes(self@)
        &&& self@.len() <= MAX_PENDING_TOKENS
    }

    pub fn new() -> (store: Self)
        ensures
            store@ == Seq::<PendingBridge<Bridge>>::empty(),
            store.wf(),
    {
        TokenStore { entries: VecDeque::new() }
    }

    /// Forgets the tokens that have expired.
    pub fn purge_expired(&mut self, now: Instant)
        requires
            old(self).wf(),
        ensures
            final(self)@ == unexpired(old(self)@, now),
            final(self).wf(),
    {
        let ghost before = self.entries@;
        let ghost keep = lives_at::<Bridge>(now);
        let count: usize = self.entries.len();
        let mut i: usize = 0;
        assert(before.skip(0) =~= before);
        assert(before.take(0).filter(keep) =~= Seq::<PendingBridge<Bridge>>::empty()) by {
            reveal(Seq::filter);
        }
        while i < count
            invariant
                i <= count,
                count == before.len(),
                keep == lives_at::<Bridge>(now),
                self.entries@ == before.skip(i as int) + before.take(i as int).filter(keep),
            decreases count - i,
        {
            let ghost kept = before.take(i as int).filter(keep);
            proof {
                crate::seqs::lemma_filter_step(before, keep, i as int);
            }
            assert(before.skip(i as int) =~= seq![before[i as int]] + before.skip(i + 1));
            if let Some(entry) = self.entries.pop_front() {
                assert(self.entries@ =~= before.skip(i + 1) + kept);
                if entry.expires_at.as_nanos() > now.as_nanos() {
                    self.entries.push_back(entry);
                    assert(self.entries@ =~= before.skip(i + 1) + kept.push(before[i as int]));
                }
            }
            i = i + 1;
        }
        assert(self.entries@ =~= before.take(count as int).filter(keep));
        assert(before.take(count as int) =~= before);
        proof {
            lemma_filtered_store(before, keep);
        }
    }

    fn remove_hash(&mut self, hash: &[u8; 32]) -> (removed: Option<PendingBridge<Bridge>>)
        requires
            old(self).wf(),
        ensures
            final(self)@ == without_hash(old(self)@, hash@),
            final(self).wf(),
            match removed {
                Some(entry) => index_of_hash(old(self)@, hash@, 0) is Some && entry == old(self)@[index_of_hash(old(self)@, hash@, 0)->0 as int],
                None => index_of_hash(old(self)@, hash@, 0) is None,
            },
    {
        let ghost before = self.entries@;
        let ghost keep = other_hash::<Bridge>(hash@);
        let count: usize = self.entries.len();
        let mut removed: Option<PendingBridge<Bridge>> = None;
        let mut i: usize = 0;
        assert(before.skip(0) =~= before);
        assert(before.take(0).filter(keep) =~= Seq::<PendingBridge<Bridge>>::empty()) by {
            reveal(Seq::filter);
        }
        while i < count
            invariant
                i <= count,
                count == before.len(),
                keep == other_hash::<Bridge>(hash@),
                distinct_hashes(before),
                self.entries@ == before.skip(i as int) + before.take(i as int).filter(keep),
                match removed {
                    Some(entry) => index_of_hash(before, hash@, 0) is Some && entry
                        == before[index_of_hash(before, hash@, 0)->0 as int] && index_of_hash(
                        before,
                        hash@,
                        0,
                    )->0 < i,
                    None => index_of_hash(before, hash@, 0) == index_of_hash(
                        before,
                        hash@,
                        i as nat,
                    ),
                },
            decreases count - i,
        {
            let ghost kept = before.take(i as int).filter(keep);
            proof {
                crate::seqs::lemma_filter_step(before, keep, i as int);
                lemma_index_of_hash(before, hash@, 0);
            }
            assert(before.skip(i as int) =~= seq![before[i as int]] + before.skip(i + 1));
            if let Some(entry) = self.entries.pop_front() {
                assert(self.entries@ =~= before.skip(i + 1) + kept);
                if same_hash(&entry.hash, hash) {
                    proof {
                        if removed is Some {
                            let j = index_of_hash(before, hash@, 0)->0 as int;
                            let hashes = before.map_values(
                                |entry: PendingBridge<Bridge>| entry.hash@,
                            );
                            assert(hashes[j] == hashes[i as int]);
                        }
                    }
                    removed = Some(entry);
                } else {
                    self.entries.push_back(entry);
                    assert(self.entries@ =~= before.skip(i + 1) + kept.push(before[i as int]));
                }
            }
            i = i + 1;
        }
        assert(self.entries@ =~= before.take(count as int).filter(keep));
        assert(before.take(count as int) =~= before);
        proof {
            lemma_filtered_store(before, keep);
        }
        removed
    }

    /// Adds a token. It is refused while too many others wait.
    pub fn insert(&mut self, entry: PendingBridge<Bridge>, now: Instant) -> (inserted: bool)
        requires
            old(self).wf(),
        ensures
            final(self).wf(),
            inserted == (unexpired(old(self)@, now).len() < MAX_PENDING_TOKENS),
            final(self)@ == (if inserted {
                without_hash(unexpired(old(self)@, now), entry.hash@).push(entry)
            } else {
                unexpired(old(self)@, now)
            }),
    {
        self.purge_expired(now);
        if self.entries.len() >= MAX_PENDING_TOKENS {
            return false;
        }
        let ghost purged = self@;
        self.remove_hash(&entry.hash);
        proof {
            let keep = other_hash::<Bridge>(entry.hash@);
            let left = purged.filter(keep);
            purged.lemma_filter_len(keep);
            let key = |entry: PendingBridge<Bridge>| entry.hash@;
            assert(left.push(entry).map_values(key) =~= left.map_values(key).push(entry.hash@));
            assert forall|i: int| 0 <= i < left.len() implies #[trigger] left.map_values(key)[i]
                != entry.hash@ by {
                purged.lemma_filter_pred(keep, i);
            }
        }
        self.entries.push_back(entry);
        true
    }

    /// Marks the token of a control session that has ended.
    pub fn shut_down(&mut self, hash: &[u8; 32])
        requires
            old(self).wf(),
        ensures
            final(self).wf(),
            match index_of_hash(old(self)@, hash@, 0) {
                Some(at) => final(self)@ == without_hash(old(self)@, hash@).push(
                    (PendingBridge { shut_down: true, ..old(self)@[at as int] }),
                ),
                None => final(self)@ == without_hash(old(self)@, hash@),
            },
    {
        let ghost before = self@;
        let removed = self.remove_hash(hash);
        if let Some(entry) = removed {
            let mut entry = entry;
            entry.shut_down = true;
            proof {
                let keep = other_hash::<Bridge>(hash@);
                let left = before.filter(keep);
                lemma_index_of_hash(before, hash@, 0);
                lemma_filter_shrinks(before, hash@, index_of_hash(before, hash@, 0)->0 as int);
                let key = |entry: PendingBridge<Bridge>| entry.hash@;
                assert(left.push(entry).map_values(key) =~= left.map_values(key).push(
                    entry.hash@,
                ));
                assert forall|i: int| 0 <= i < left.len() implies #[trigger] left.map_values(
                    key,
                )[i] != entry.hash@ by {
                    before.lemma_filter_pred(keep, i);
                }
            }
            self.entries.push_back(entry);
        }
    }

    /// Uses a token up. One that is asked for from another origin is left for
    /// the right one.
    pub fn consume(&mut self, hash: &[u8; 32], origin: &str, now: Instant) -> (consumed: Result<
        Bridge,
        TokenConsumeRejection,
    >)
        requires
            old(self).wf(),
        ensures
            final(self).wf(),
            match consumption(unexpired(old(self)@, now), hash@, origin@) {
                Ok(entry) => {
                    &&& consumed == Ok::<Bridge, TokenConsumeRejection>(entry.bridge)
                    &&& final(self)@ == without_hash(unexpired(old(self)@, now), hash@)
                },
                Err(TokenConsumeRejection::Unknown) => {
                    &&& consumed == Err::<Bridge, TokenConsumeRejection>(
                        TokenConsumeRejection::Unknown,
                    )
                    &&& final(self)@ == without_hash(unexpired(old(self)@, now), hash@)
                },
                Err(TokenConsumeRejection::OriginMismatch) => {
                    &&& consumed == Err::<Bridge, TokenConsumeRejection>(
                        TokenConsumeRejection::OriginMismatch,
                    )
                    &&& final(self)@ == unexpired(old(self)@, now)
                },
            },
    {
        self.purge_expired(now);
        let ghost purged = self@;
        let mut i: usize = 0;
        let mut mismatch: bool = false;
        while i < self.entries.len()
            invariant_except_break
                i <= self.entries@.len(),
                index_of_hash(purged, hash@, 0) == index_of_hash(purged, hash@, i as nat),
                !mismatch,
            invariant
                purged == self.entries@,
                purged == self@,
                self.wf(),
            ensures
                mismatch == (consumption(purged, hash@, origin@) == Err::<
                    PendingBridge<Bridge>,
                    TokenConsumeRejection,
                >(TokenConsumeRejection::OriginMismatch)),
            decreases self.entries.len() - i,
        {
            let entry: &PendingBridge<Bridge> = &self.entries[i];
            if same_hash(&entry.hash, hash) {
                mismatch = !entry.shut_down && !same_text(entry.expected_origin.as_str(), origin);
                break ;
            }
            i = i + 1;
        }
        if mismatch {
            return Err(TokenConsumeRejection::OriginMismatch);
        }
        match self.remove_hash(hash) {
            Some(entry) => {
                if entry.shut_down {
                    Err(TokenConsumeRejection::Unknown)
                } else {
                    Ok(entry.bridge)
                }
            },
            None => Err(TokenConsumeRejection::Unknown),
        }
    }
}

/// What asking for a token from an origin comes to.
pub open spec fn consumption<Bridge>(
    entries: Seq<PendingBridge<Bridge>>,
    hash: Seq<u8>,
    origin: Seq<char>,
) -> Result<PendingBridge<Bridge>, TokenConsumeRejection> {
    match index_of_hash(entries, hash, 0) {
        Some(at) => if entries[at as int].shut_down {
            Err(TokenConsumeRejection::Unknown)
        } else if entries[at as int].expected_origin@ != origin {
            Err(TokenConsumeRejection::OriginMismatch)
        } else {
            Ok(entries[at as int])
        },
        None => Err(TokenConsumeRejection::Unknown),
    }
}

proof fn lemma_index_of_hash<Bridge>(
    entries: Seq<PendingBridge<Bridge>>,
    hash: Seq<u8>,
    from: nat,
)
    ensures
        match index_of_hash(entries, hash, from) {
            Some(at) => from <= at < entries.len() && entries[at as int].hash@ == hash,
            None => forall|i: int| from <= i < entries.len() ==> (#[trigger] entries[i]).hash@
                != hash,
        },
    decreases entries.len() - from,
{
    if from < entries.len() && entries[from as int].hash@ != hash {
        lemma_index_of_hash(entries, hash, from + 1);
    }
}

proof fn lemma_filtered_store<Bridge>(
    entries: Seq<PendingBridge<Bridge>>,
    keep: spec_fn(PendingBridge<Bridge>) -> bool,
)
    requires
        distinct_hashes(entries),
    ensures
        distinct_hashes(entries.filter(keep)),
        entries.filter(keep).len() <= entries.len(),
{
    entries.lemma_filter_len(keep);
    crate::seqs::lemma_filter_keeps_distinct(
        entries,
        keep,
        |entry: PendingBridge<Bridge>| entry.hash@,
    );
}

proof fn lemma_filter_shrinks<Bridge>(
    entries: Seq<PendingBridge<Bridge>>,
    hash: Seq<u8>,
    at: int,
)
    requires
        0 <= at < entries.len(),
        entries[at].hash@ == hash,
    ensures
        without_hash(entries, hash).len() < entries.len(),
    decreases entries.len(),
{
    reveal(Seq::filter);
    let keep = other_hash::<Bridge>(hash);
    if at == entries.len() - 1 {
        entries.drop_last().lemma_filter_len(keep);
    } else {
        lemma_filter_shrinks(entries.drop_last(), hash, at);
    }
}

/// A token that was used, or is asked for when it is gone, is unknown from then on.
pub proof fn law_token_works_once<Bridge>(
    entries: Seq<PendingBridge<Bridge>>,
    hash: Seq<u8>,
    origin: Seq<char>,
)
    ensures
        consumption(without_hash(entries, hash), hash, origin) == Err::<
            PendingBridge<Bridge>,
            TokenConsumeRejection,
        >(TokenConsumeRejection::Unknown),
{
    let left = without_hash(entries, hash);
    lemma_index_of_hash(left, hash, 0);
    if index_of_hash(left, hash, 0) is Some {
        entries.lemma_filter_pred(other_hash(hash), index_of_hash(left, hash, 0)->0 as int);
    }
}

/// A token that was just added can be used from its own origin, and from no other.
pub proof fn law_fresh_token_works_for_its_origin<Bridge>(
    entries: Seq<PendingBridge<Bridge>>,
    entry: PendingBridge<Bridge>,
    origin: Seq<char>,
)
    requires
        !entry.shut_down,
    ensures
        ({
            let after = without_hash(entries, entry.hash@).push(entry);
            if entry.expected_origin@ == origin {
                consumption(after, entry.hash@, origin) == Ok::<
                    PendingBridge<Bridge>,
                    TokenConsumeRejection,
                >(entry)
            } else {
                consumption(after, entry.hash@, origin) == Err::<
                    PendingBridge<Bridge>,
                    TokenConsumeRejection,
                >(TokenConsumeRejection::OriginMismatch)
            }
        }),
{
    let left = without_hash(entries, entry.hash@);
    let after = left.push(entry);
    lemma_index_of_hash(after, entry.hash@, 0);
    let at = index_of_hash(after, entry.hash@, 0);
    if at is None {
        assert(after[left.len() as int].hash@ == entry.hash@);
    } else if at->0 < left.len() {
        assert(after[at->0 as int] == left[at->0 as int]);
        entries.lemma_filter_pred(other_hash(entry.hash@), at->0 as int);
    }
}

/// A token is unknown once its time is over.
pub proof fn law_expired_token_is_unknown<Bridge>(
    entries: Seq<PendingBridge<Bridge>>,
    hash: Seq<u8>,
    origin: Seq<char>,
    now: Instant,
)
    requires
        forall|i: int|
            0 <= i < entries.len() && (#[trigger] entries[i]).hash@ == hash
                ==> entries[i].expires_at.nanos() <= now.nanos(),
    ensures
        consumption(unexpired(entries, now), hash, origin) == Err::<
            PendingBridge<Bridge>,
            TokenConsumeRejection,
        >(TokenConsumeRejection::Unknown),
{
    let left = unexpired(entries, now);
    let keep = lives_at::<Bridge>(now);
    lemma_index_of_hash(left, hash, 0);
    if index_of_hash(left, hash, 0) is Some {
        let at = index_of_hash(left, hash, 0)->0 as int;
        entries.lemma_filter_pred(keep, at);
        entries.lemma_filter_contains_rev(keep, left[at]);
    }
}

/// A token text decodes to the digest of the token that it was made from.
pub proof fn law_token_text_round_trip(token: Seq<u8>)
    requires
        token.len() == 32,
    ensures
        is_token_text(hex(token)),
        token_bytes(hex(token)) == token,
        decoded_token(hex(token)) == Some(sha256_of(token)),
{
    let text = hex(token);
    assert forall|i: int| 0 <= i < 64 implies nibble(#[trigger] text[i]) is Some by {}
    assert forall|i: int| 0 <= i < 32 implies #[trigger] token_bytes(text)[i] == token[i] by {
        let byte = token[i] as int;
        assert(text[2 * i] == hex_digit(byte / 16));
        assert(text[2 * i + 1] == hex_digit(byte % 16));
        assert(nibble(hex_digit(byte / 16))->0 == byte / 16);
        assert(nibble(hex_digit(byte % 16))->0 == byte % 16);
    }
    assert(token_bytes(text) =~= token);
}

/// The sixteen digits are those of lower case hexadecimal, and each stands for its
/// place among them; no other character stands for a number.
pub proof fn law_digits_are_lower_case(n: int, c: char)
    ensures
        ({
            let digits = "0123456789abcdef"@;
            &&& digits.len() == 16
            &&& 0 <= n < 16 ==> hex_digit(n) == digits[n] && nibble(digits[n]) == Some(n as u8)
            &&& nibble(c) matches Some(value) ==> value < 16 && digits[value as int] == c
        }),
{
    reveal_strlit("0123456789abcdef");
}

/// A token is written byte by byte, the higher digit of a byte first, and a text is a
/// token when it has two such digits for each of thirty-two bytes.
pub proof fn law_how_tokens_are_written(bytes: Seq<u8>, text: Seq<char>, i: int)
    requires
        0 <= i < bytes.len(),
        bytes.len() == 32,
    ensures
        hex(bytes).len() == 64,
        ({
            let high = nibble(hex(bytes)[2 * i]);
            let low = nibble(hex(bytes)[2 * i + 1]);
            high is Some && low is Some && high->0 * 16 + low->0 == bytes[i]
        }),
        decoded_token(text) is Some <==> text.len() == 64 && forall|k: int|
            0 <= k < 64 ==> nibble(#[trigger] text[k]) is Some,
{
    law_token_text_round_trip(bytes);
    assert(hex(bytes)[2 * i] == hex_digit(bytes[i] as int / 16));
    assert(hex(bytes)[2 * i + 1] == hex_digit(bytes[i] as int % 16));
    law_digits_are_lower_case(bytes[i] as int / 16, 'a');
    law_digits_are_lower_case(bytes[i] as int % 16, 'a');
}

/// What a waiting token opens: its own bridge, for its own origin. From another
/// origin, or after its session ended, it opens nothing, and a digest that waits
/// nowhere is unknown.
pub proof fn law_what_a_token_opens<Bridge>(
    entries: Seq<PendingBridge<Bridge>>,
    at: int,
    hash: Seq<u8>,
    origin: Seq<char>,
)
    requires
        distinct_hashes(entries),
        0 <= at < entries.len(),
    ensures
        ({
            let entry = entries[at];
            let opened = consumption(entries, entry.hash@, origin);
            &&& opened is Ok <==> !entry.shut_down && entry.expected_origin@ == origin
            &&& opened is Ok ==> opened->Ok_0 == entry
            &&& entry.shut_down ==> opened->Err_0 is Unknown
            &&& !entry.shut_down && entry.expected_origin@ != origin ==> opened->Err_0
                is OriginMismatch
        }),
        (forall|i: int| 0 <= i < entries.len() ==> (#[trigger] entries[i]).hash@ != hash)
            ==> consumption(entries, hash, origin) == Err::<
            PendingBridge<Bridge>,
            TokenConsumeRejection,
        >(TokenConsumeRejection::Unknown),
{
    lemma_index_of_hash(entries, entries[at].hash@, 0);
    lemma_index_of_hash(entries, hash, 0);
    let hashes = entries.map_values(|entry: PendingBridge<Bridge>| entry.hash@);
    assert(hashes[at] == entries[at].hash@);
    match index_of_hash(entries, entries[at].hash@, 0) {
        Some(found) => {
            assert(hashes[found as int] == entries[found as int].hash@);
        },
        None => {},
    }
}

/// Tokens wait until their time has come, neither longer nor shorter, and taking one
/// out leaves the others.
pub proof fn law_which_tokens_wait<Bridge>(
    entries: Seq<PendingBridge<Bridge>>,
    entry: PendingBridge<Bridge>,
    now: Instant,
    hash: Seq<u8>,
)
    ensures
        unexpired(entries, now).contains(entry) <==> entries.contains(entry) && now.nanos()
            < entry.expires_at.nanos(),
        without_hash(entries, hash).contains(entry) <==> entries.contains(entry) && entry.hash@
            != hash,
{
    lemma_filter_has(entries, lives_at(now), entry);
    lemma_filter_has(entries, other_hash(hash), entry);
}

proof fn lemma_filter_has<Bridge>(
    entries: Seq<PendingBridge<Bridge>>,
    keep: spec_fn(PendingBridge<Bridge>) -> bool,
    entry: PendingBridge<Bridge>,
)
    ensures
        entries.filter(keep).contains(entry) <==> entries.contains(entry) && keep(entry),
{
    if entries.filter(keep).contains(entry) {
        let i = choose|i: int|
            0 <= i < entries.filter(keep).len() && entries.filter(keep)[i] == entry;
        entries.lemma_filter_pred(keep, i);
        entries.lemma_filter_contains_rev(keep, entry);
    }
    if entries.contains(entry) && keep(entry) {
        let i = choose|i: int| 0 <= i < entries.len() && entries[i] == entry;
        entries.lemma_filter_contains(keep, i);
    }
}

/// No more than a thousand and twenty-four tokens wait at a time, no two of them alike.
pub proof fn law_how_many_tokens_wait<Bridge>(store: TokenStore<Bridge>, i: int, j: int)
    requires
        store.wf(),
        0 <= i < j < store@.len(),
    ensures
        store@.len() <= 1024,
        store@[i].hash@ != store@[j].hash@,
{
    let hashes = store@.map_values(|entry: PendingBridge<Bridge>| entry.hash@);
    assert(hashes[i] == store@[i].hash@ && hashes[j] == store@[j].hash@);
}

/// A token that was inserted waits with its bridge, unless too many wait already; it
/// takes the place of one with the same digest, and what has expired is gone.
pub proof fn law_inserted_token_waits<Bridge>(
    store: &mut TokenStore<Bridge>,
    entry: PendingBridge<Bridge>,
    now: Instant,
    inserted: bool,
    other: PendingBridge<Bridge>,
)
    requires
        call_ensures(TokenStore::<Bridge>::insert, (store, entry, now), inserted),
        other != entry,
    ensures
        inserted <==> unexpired(old(store)@, now).len() < 1024,
        inserted ==> final(store)@.contains(entry),
        final(store)@.contains(other) <==> old(store)@.contains(other) && now.nanos()
            < other.expires_at.nanos() && (inserted ==> other.hash@ != entry.hash@),
{
    let live = unexpired(old(store)@, now);
    law_which_tokens_wait(old(store)@, other, now, entry.hash@);
    law_which_tokens_wait(live, other, now, entry.hash@);
    let left = without_hash(live, entry.hash@);
    if inserted {
        let after = left.push(entry);
        assert(after[left.len() as int] == entry);
        if left.contains(other) {
            let i = choose|i: int| 0 <= i < left.len() && left[i] == other;
            assert(after[i] == other);
        }
        if after.contains(other) {
            let i = choose|i: int| 0 <= i < after.len() && after[i] == other;
            assert(left[i] == other);
        }
    }
}

/// A token is used up by the request that it lets in; a request from another origin does
/// not use it up.
pub proof fn law_token_is_used_up<Bridge>(
    store: &mut TokenStore<Bridge>,
    hash: &[u8; 32],
    origin: &str,
    now: Instant,
    consumed: Result<Bridge, TokenConsumeRejection>,
)
    requires
        call_ensures(TokenStore::<Bridge>::consume, (store, hash, origin, now), consumed),
    ensures
        ({
            let live = unexpired(old(store)@, now);
            let opened = consumption(live, hash@, origin@);
            &&& consumed is Ok <==> opened is Ok
            &&& consumed is Ok ==> consumed->Ok_0 == opened->Ok_0.bridge
            &&& consumed is Err ==> consumed->Err_0 == opened->Err_0
            &&& consumed is Ok ==> final(store)@ == without_hash(live, hash@)
            &&& consumed is Ok ==> consumption(final(store)@, hash@, origin@) is Err
            &&& consumed is Err && consumed->Err_0 is OriginMismatch ==> final(store)@ == live
        }),
{
    law_token_works_once(unexpired(old(store)@, now), hash@, origin@);
}

/// A session that ended shuts its token down: the token stays, but opens nothing.
pub proof fn law_token_of_an_ended_session<Bridge>(
    store: &mut TokenStore<Bridge>,
    hash: &[u8; 32],
    origin: Seq<char>,
)
    requires
        call_ensures(TokenStore::<Bridge>::shut_down, (store, hash), ()),
        final(store).wf(),
    ensures
        consumption(final(store)@, hash@, origin) == Err::<
            PendingBridge<Bridge>,
            TokenConsumeRejection,
        >(TokenConsumeRejection::Unknown),
{
    let before = old(store)@;
    let left = without_hash(before, hash@);
    let after = final(store)@;
    lemma_index_of_hash(before, hash@, 0);
    match index_of_hash(before, hash@, 0) {
        Some(at) => {
            assert(after.last().hash@ == hash@);
            law_what_a_token_opens(after, after.len() - 1, hash@, origin);
        },
        None => {
            law_token_works_once(before, hash@, origin);
        },
    }
}

} // verus!
