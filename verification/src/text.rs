//! Small functions on text.

use vstd::prelude::*;

verus! {

/// The decimal digit for a number below ten.
pub open spec fn digit(n: nat) -> char {
    (48 + n) as char
}

/// A number in decimal notation, without leading zeros.
pub open spec fn decimal_digits(n: nat) -> Seq<char>
    decreases n,
{
    if n < 10 {
        seq![digit(n)]
    } else {
        decimal_digits(n / 10).push(digit(n % 10))
    }
}

fn digit_text(n: u64) -> (text: &'static str)
    requires
        n < 10,
    ensures
        text@ == seq![digit(n as nat)],
{
    proof {
        reveal_strlit("0");
        reveal_strlit("1");
        reveal_strlit("2");
        reveal_strlit("3");
        reveal_strlit("4");
        reveal_strlit("5");
        reveal_strlit("6");
        reveal_strlit("7");
        reveal_strlit("8");
        reveal_strlit("9");
    }
    match n {
        0 => "0",
        1 => "1",
        2 => "2",
        3 => "3",
        4 => "4",
        5 => "5",
        6 => "6",
        7 => "7",
        8 => "8",
        _ => "9",
    }
}

/// A number in decimal notation.
pub fn decimal(n: u64) -> (text: String)
    ensures
        text@ == decimal_digits(n as nat),
    decreases n,
{
    if n < 10 {
        digit_text(n).to_owned()
    } else {
        let mut text: String = decimal(n / 10);
        text.append(digit_text(n % 10));
        assert(text@ =~= decimal_digits(n as nat));
        text
    }
}

/// An ASCII letter in lower case, any other character as it is.
pub open spec fn lower(c: char) -> char {
    if 'A' <= c && c <= 'Z' {
        (c as u32 + 32) as char
    } else {
        c
    }
}

/// A text with its ASCII letters in lower case.
pub open spec fn lowered(text: Seq<char>) -> Seq<char> {
    text.map_values(|c: char| lower(c))
}

fn to_lower(c: char) -> (l: u32)
    ensures
        l == lower(c) as u32,
{
    if 'A' <= c && c <= 'Z' {
        c as u32 + 32
    } else {
        c as u32
    }
}

/// Whether two texts differ at most in the case of ASCII letters.
pub fn eq_ignore_ascii_case(a: &str, b: &str) -> (equal: bool)
    ensures
        equal == (lowered(a@) == lowered(b@)),
{
    let length: usize = a.unicode_len();
    if length != b.unicode_len() {
        assert(lowered(a@).len() != lowered(b@).len());
        return false;
    }
    let mut i: usize = 0;
    while i < length
        invariant
            i <= length,
            length == a@.len(),
            length == b@.len(),
            forall|k: int| 0 <= k < i ==> lower(a@[k]) == lower(b@[k]),
        decreases length - i,
    {
        let x: char = a.get_char(i);
        let y: char = b.get_char(i);
        if to_lower(x) != to_lower(y) {
            assert(lowered(a@)[i as int] != lowered(b@)[i as int]);
            return false;
        }
        i = i + 1;
    }
    assert(lowered(a@) =~= lowered(b@));
    true
}

/// Whether two texts are the same.
pub fn same_text(a: &str, b: &str) -> (equal: bool)
    ensures
        equal == (a@ == b@),
{
    let length: usize = a.unicode_len();
    if length != b.unicode_len() {
        return false;
    }
    let mut i: usize = 0;
    while i < length
        invariant
            i <= length,
            length == a@.len(),
            length == b@.len(),
            forall|k: int| 0 <= k < i ==> a@[k] == b@[k],
        decreases length - i,
    {
        if a.get_char(i) != b.get_char(i) {
            return false;
        }
        i = i + 1;
    }
    assert(a@ =~= b@);
    true
}

/// The text up to its `limit`th character.
pub open spec fn shortened(text: Seq<char>, limit: nat) -> Seq<char> {
    if text.len() <= limit {
        text
    } else {
        text.take(limit as int)
    }
}

/// Cuts a text off after `limit` characters.
pub fn truncate_chars(text: &str, limit: usize) -> (cut: String)
    ensures
        cut@ == shortened(text@, limit as nat),
{
    if text.unicode_len() <= limit {
        text.to_owned()
    } else {
        text.substring_char(0, limit).to_owned()
    }
}

/// The white space characters of Unicode.
pub open spec fn is_white_space(c: char) -> bool {
    let code = c as u32;
    ||| 0x09 <= code <= 0x0d
    ||| code == 0x20
    ||| code == 0x85
    ||| code == 0xa0
    ||| code == 0x1680
    ||| 0x2000 <= code <= 0x200a
    ||| code == 0x2028
    ||| code == 0x2029
    ||| code == 0x202f
    ||| code == 0x205f
    ||| code == 0x3000
}

/// A text without any character that is not white space.
pub open spec fn is_blank(text: Seq<char>) -> bool {
    forall|i: int| 0 <= i < text.len() ==> is_white_space(#[trigger] text[i])
}

/// [`is_blank`], computed.
pub fn blank(text: &str) -> (all_white: bool)
    ensures
        all_white == is_blank(text@),
{
    let length: usize = text.unicode_len();
    let mut i: usize = 0;
    while i < length
        invariant
            i <= length,
            length == text@.len(),
            forall|k: int| 0 <= k < i ==> is_white_space(#[trigger] text@[k]),
        decreases length - i,
    {
        let code: u32 = text.get_char(i) as u32;
        let white: bool = (0x09 <= code && code <= 0x0d) || code == 0x20 || code == 0x85 || code
            == 0xa0 || code == 0x1680 || (0x2000 <= code && code <= 0x200a) || code == 0x2028
            || code == 0x2029 || code == 0x202f || code == 0x205f || code == 0x3000;
        if !white {
            assert(!is_white_space(text@[i as int]));
            return false;
        }
        i = i + 1;
    }
    true
}

/// [`String::push`] puts the character behind the text.
pub assume_specification[ String::push ](text: &mut String, c: char)
    ensures
        final(text)@ == old(text)@.push(c),
;

/// The characters of a text.
pub fn chars_of(text: &str) -> (chars: Vec<char>)
    ensures
        chars@ == text@,
{
    let mut chars: Vec<char> = Vec::new();
    for c in it: text.chars()
        invariant
            it.seq() == text@,
            chars@ == text@.take(it.index()),
    {
        assert(text@.take(it.index() + 1) =~= text@.take(it.index()).push(c));
        chars.push(c);
    }
    assert(chars@ =~= text@);
    chars
}

/// The text of some characters.
pub fn text_of(chars: &[char]) -> (text: String)
    ensures
        text@ == chars@,
{
    let mut text: String = String::new();
    let mut i: usize = 0;
    while i < chars.len()
        invariant
            i <= chars@.len(),
            text@ == chars@.take(i as int),
        decreases chars.len() - i,
    {
        assert(chars@.take(i + 1) =~= chars@.take(i as int).push(chars@[i as int]));
        text.push(chars[i]);
        i = i + 1;
    }
    assert(text@ =~= chars@);
    text
}

/// The text of the characters from `from` up to `to`.
pub fn part_of(chars: &Vec<char>, from: usize, to: usize) -> (text: String)
    requires
        from <= to <= chars@.len(),
    ensures
        text@ == chars@.subrange(from as int, to as int),
{
    let slice: &[char] = chars.as_slice();
    text_of(&slice[from..to])
}

/// The first place of `c` in `text` at or behind `from`, its length where there is none.
pub open spec fn find_from(text: Seq<char>, c: char, from: nat) -> nat
    decreases text.len() - from,
{
    if from >= text.len() {
        text.len()
    } else if text[from as int] == c {
        from
    } else {
        find_from(text, c, from + 1)
    }
}

/// [`find_from`] is what its name says.
pub proof fn lemma_find_from(text: Seq<char>, c: char, from: nat)
    requires
        from <= text.len(),
    ensures
        from <= find_from(text, c, from) <= text.len(),
        forall|i: int| from <= i < find_from(text, c, from) ==> #[trigger] text[i] != c,
        find_from(text, c, from) < text.len() ==> text[find_from(text, c, from) as int] == c,
    decreases text.len() - from,
{
    if from < text.len() && text[from as int] != c {
        lemma_find_from(text, c, from + 1);
    }
}

/// A place of `c` with none before it is the first one.
pub proof fn lemma_find_is(text: Seq<char>, c: char, from: nat, at: nat)
    requires
        from <= at < text.len(),
        text[at as int] == c,
        forall|i: int| from <= i < at ==> #[trigger] text[i] != c,
    ensures
        find_from(text, c, from) == at,
    decreases at - from,
{
    if from < at {
        lemma_find_is(text, c, from + 1, at);
    }
}

/// Where `c` does not occur, none is found.
pub proof fn lemma_find_none(text: Seq<char>, c: char, from: nat)
    requires
        from <= text.len(),
        forall|i: int| from <= i < text.len() ==> #[trigger] text[i] != c,
    ensures
        find_from(text, c, from) == text.len(),
    decreases text.len() - from,
{
    if from < text.len() {
        lemma_find_none(text, c, from + 1);
    }
}

/// [`find_from`], computed.
pub fn find_char(chars: &Vec<char>, c: char, from: usize) -> (at: usize)
    requires
        from <= chars@.len(),
    ensures
        at == find_from(chars@, c, from as nat),
        from <= at <= chars@.len(),
{
    let mut at: usize = from;
    while at < chars.len() && chars[at] != c
        invariant
            from <= at <= chars@.len(),
            find_from(chars@, c, from as nat) == find_from(chars@, c, at as nat),
        decreases chars.len() - at,
    {
        at = at + 1;
    }
    at
}

/// Whether `c` occurs in `text`.
pub open spec fn occurs(text: Seq<char>, c: char) -> bool {
    find_from(text, c, 0) < text.len()
}

/// [`occurs`], computed.
pub fn has_char(chars: &Vec<char>, c: char) -> (found: bool)
    ensures
        found == occurs(chars@, c),
{
    find_char(chars, c, 0) < chars.len()
}

/// The last place of `c` in the first `count` characters, if there is one.
pub open spec fn find_last(text: Seq<char>, c: char, count: nat) -> Option<nat>
    decreases count,
{
    if count == 0 {
        None
    } else if text[count - 1] == c {
        Some((count - 1) as nat)
    } else {
        find_last(text, c, (count - 1) as nat)
    }
}

/// A place of `c` with none behind it is the last one.
pub proof fn lemma_find_last_is(text: Seq<char>, c: char, count: nat, at: nat)
    requires
        at < count <= text.len(),
        text[at as int] == c,
        forall|i: int| at < i < count ==> #[trigger] text[i] != c,
    ensures
        find_last(text, c, count) == Some(at),
    decreases count,
{
    if at + 1 < count {
        lemma_find_last_is(text, c, (count - 1) as nat, at);
    }
}

/// Where `c` does not occur, there is no last place of it.
pub proof fn lemma_find_last_none(text: Seq<char>, c: char, count: nat)
    requires
        count <= text.len(),
        forall|i: int| 0 <= i < count ==> #[trigger] text[i] != c,
    ensures
        find_last(text, c, count) is None,
    decreases count,
{
    if count > 0 {
        lemma_find_last_none(text, c, (count - 1) as nat);
    }
}

/// [`find_last`], computed.
pub fn find_last_char(chars: &Vec<char>, c: char) -> (at: Option<usize>)
    ensures
        match at {
            Some(at) => find_last(chars@, c, chars@.len()) == Some(at as nat) && at < chars@.len(),
            None => find_last(chars@, c, chars@.len()) is None,
        },
{
    let mut count: usize = chars.len();
    while count > 0
        invariant
            count <= chars@.len(),
            find_last(chars@, c, chars@.len()) == find_last(chars@, c, count as nat),
        decreases count,
    {
        if chars[count - 1] == c {
            return Some(count - 1);
        }
        count = count - 1;
    }
    None
}

/// Whether the characters from `from` up to `to` are those of `text`.
pub fn part_is(chars: &Vec<char>, from: usize, to: usize, text: &str) -> (same: bool)
    requires
        from <= to <= chars@.len(),
    ensures
        same == (chars@.subrange(from as int, to as int) == text@),
{
    let other: Vec<char> = chars_of(text);
    let ghost part = chars@.subrange(from as int, to as int);
    if other.len() != to - from {
        assert(part.len() != text@.len());
        return false;
    }
    let mut i: usize = 0;
    while i < other.len()
        invariant
            i <= other@.len(),
            from <= to <= chars@.len(),
            other@.len() == to - from,
            part == chars@.subrange(from as int, to as int),
            other@ == text@,
            forall|k: int| 0 <= k < i ==> part[k] == other@[k],
        decreases other.len() - i,
    {
        if chars[from + i] != other[i] {
            assert(part[i as int] != text@[i as int]);
            return false;
        }
        i = i + 1;
    }
    assert(part =~= text@);
    true
}

pub open spec fn is_digit(c: char) -> bool {
    '0' <= c && c <= '9'
}

/// The number that decimal digits stand for, if they are digits.
pub open spec fn digits_value(text: Seq<char>) -> Option<nat>
    decreases text.len(),
{
    if text.len() == 0 {
        Some(0)
    } else {
        match digits_value(text.drop_last()) {
            Some(high) => if is_digit(text.last()) {
                Some(high * 10 + (text.last() as nat - 48) as nat)
            } else {
                None
            },
            None => None,
        }
    }
}

/// A number of 16 bits in decimal notation, with an optional plus sign.
pub open spec fn parsed_u16(text: Seq<char>) -> Option<u16> {
    let digits = if text.len() > 1 && text[0] == '+' {
        text.skip(1)
    } else {
        text
    };
    if digits.len() == 0 {
        None
    } else {
        match digits_value(digits) {
            Some(value) => if value <= u16::MAX {
                Some(value as u16)
            } else {
                None
            },
            None => None,
        }
    }
}

proof fn lemma_digits_grow(text: Seq<char>, count: int)
    requires
        0 <= count <= text.len(),
    ensures
        digits_value(text.take(count)) is None ==> digits_value(text) is None,
        digits_value(text) is Some ==> digits_value(text)->0 >= digits_value(
            text.take(count),
        )->0,
    decreases text.len(),
{
    if count == text.len() {
        assert(text.take(count) =~= text);
    } else {
        assert(text.drop_last().take(count) =~= text.take(count));
        lemma_digits_grow(text.drop_last(), count);
    }
}

/// Reads the characters from `from` on as a number of 16 bits.
pub fn parse_u16(chars: &Vec<char>, from: usize) -> (number: Option<u16>)
    requires
        from <= chars@.len(),
    ensures
        number == parsed_u16(chars@.skip(from as int)),
{
    let ghost text = chars@.skip(from as int);
    let length: usize = chars.len() - from;
    let start: usize = if length > 1 && chars[from] == '+' {
        from + 1
    } else {
        from
    };
    let ghost digits = chars@.skip(start as int);
    assert(digits =~= if text.len() > 1 && text[0] == '+' {
        text.skip(1)
    } else {
        text
    });
    if start == chars.len() {
        return None;
    }
    let ghost meaning = match digits_value(digits) {
        Some(value) => if value <= u16::MAX {
            Some(value as u16)
        } else {
            None
        },
        None => None,
    };
    assert(parsed_u16(text) == meaning);
    let mut value: u32 = 0;
    let mut i: usize = start;
    assert(digits.take(0) =~= Seq::<char>::empty());
    while i < chars.len()
        invariant
            start <= i <= chars@.len(),
            digits == chars@.skip(start as int),
            digits_value(digits.take(i - start)) == Some(value as nat),
            value <= u16::MAX,
            parsed_u16(chars@.skip(from as int)) == meaning,
            meaning == (match digits_value(digits) {
                Some(value) => if value <= u16::MAX {
                    Some(value as u16)
                } else {
                    None
                },
                None => None,
            }),
        decreases chars.len() - i,
    {
        let c: char = chars[i];
        proof {
            assert(digits.take(i + 1 - start).drop_last() =~= digits.take(i - start));
            assert(digits.take(i + 1 - start).last() == c);
            lemma_digits_grow(digits, i + 1 - start);
        }
        if c < '0' || c > '9' {
            return None;
        }
        value = value * 10 + (c as u32 - 48);
        if value > u16::MAX as u32 {
            return None;
        }
        i = i + 1;
    }
    assert(digits.take(i - start) =~= digits);
    Some(value as u16)
}

/// The text with its ASCII letters in lower case.
pub fn to_ascii_lowercase(text: &str) -> (low: String)
    ensures
        low@ == lowered(text@),
{
    let chars: Vec<char> = chars_of(text);
    let mut low: String = String::new();
    let mut i: usize = 0;
    while i < chars.len()
        invariant
            i <= chars@.len(),
            low@ == lowered(chars@.take(i as int)),
        decreases chars.len() - i,
    {
        let c: char = chars[i];
        assert(lowered(chars@.take(i + 1)) =~= lowered(chars@.take(i as int)).push(lower(c)));
        if 'A' <= c && c <= 'Z' {
            low.push(((c as u8) + 32) as char);
        } else {
            low.push(c);
        }
        i = i + 1;
    }
    assert(chars@.take(i as int) =~= chars@);
    low
}

/// Reading the decimal notation of a number of 16 bits gives the number.
pub proof fn law_decimal_round_trip(n: u16)
    ensures
        parsed_u16(decimal_digits(n as nat)) == Some(n),
{
    lemma_decimal_digits(n as nat);
}

/// A number in decimal notation is made of digits.
pub proof fn lemma_only_digits(n: nat)
    ensures
        forall|i: int|
            0 <= i < decimal_digits(n).len() ==> is_digit(#[trigger] decimal_digits(n)[i]),
    decreases n,
{
    let text = decimal_digits(n);
    assert(is_digit(digit(n % 10)));
    if n >= 10 {
        lemma_only_digits(n / 10);
        let front = decimal_digits(n / 10);
        assert forall|i: int| 0 <= i < text.len() implies is_digit(#[trigger] text[i]) by {
            if i < front.len() {
                assert(text[i] == front[i]);
            }
        }
    }
}

proof fn lemma_decimal_digits(n: nat)
    ensures
        decimal_digits(n).len() > 0,
        is_digit(decimal_digits(n)[0]),
        digits_value(decimal_digits(n)) == Some(n),
    decreases n,
{
    let text = decimal_digits(n);
    assert(digits_value(Seq::<char>::empty()) == Some(0nat));
    assert(text.last() == digit(n % 10));
    assert(digit(n % 10) as nat == 48 + n % 10);
    if n < 10 {
        assert(text.drop_last() =~= Seq::<char>::empty());
    } else {
        lemma_decimal_digits(n / 10);
        assert(text.drop_last() =~= decimal_digits(n / 10));
    }
}

/// A number in decimal notation is made of digits, does not begin with a needless zero
/// and has the number as its value, so that no two numbers are written alike.
pub proof fn law_decimal_notation(n: nat, other: nat)
    ensures
        digits_value(decimal_digits(n)) == Some(n),
        decimal_digits(n).len() > 0,
        n >= 10 ==> decimal_digits(n)[0] != '0',
        n < 10 ==> decimal_digits(n) == seq!["0123456789"@[n as int]],
        decimal_digits(n) == decimal_digits(other) ==> n == other,
{
    reveal_strlit("0123456789");
    lemma_decimal_digits(n);
    lemma_decimal_digits(other);
    lemma_no_needless_zero(n);
    if n < 10 {
        assert(digit(n) as nat == 48 + n);
        assert("0123456789"@[n as int] as nat == 48 + n);
        assert(decimal_digits(n) =~= seq!["0123456789"@[n as int]]);
    }
}

proof fn lemma_no_needless_zero(n: nat)
    ensures
        decimal_digits(n).len() > 0,
        n > 0 ==> decimal_digits(n)[0] != '0',
    decreases n,
{
    if n >= 10 {
        lemma_no_needless_zero(n / 10);
        assert(decimal_digits(n)[0] == decimal_digits(n / 10)[0]);
    } else {
        assert(digit(n) as nat == 48 + n);
    }
}

/// A digit counts ten times what follows it, and anything else spoils a number.
pub proof fn law_value_of_digits(text: Seq<char>, c: char)
    ensures
        digits_value(text.push(c)) is Some <==> digits_value(text) is Some && '0' <= c <= '9',
        digits_value(text.push(c)) is Some ==> digits_value(text.push(c))->0 == digits_value(
            text,
        )->0 * 10 + (c as int - 48),
        digits_value(Seq::empty()) == Some(0nat),
{
    assert(text.push(c).drop_last() =~= text);
    assert(text.push(c).last() == c);
}

/// A number of sixteen bits is read from digits, with a plus sign before them or
/// without, up to 65535. An empty text is no number, nor is a lone sign.
pub proof fn law_numbers_of_sixteen_bits(text: Seq<char>)
    requires
        text.len() > 0 ==> text[0] != '+',
    ensures
        parsed_u16(text) is Some <==> text.len() > 0 && digits_value(text) is Some
            && digits_value(text)->0 <= 65535,
        parsed_u16(text) matches Some(value) ==> Some(value as nat) == digits_value(text),
        text.len() > 0 ==> parsed_u16(seq!['+'] + text) == parsed_u16(text),
        parsed_u16(seq!['+']) is None,
{
    assert((seq!['+'] + text).skip(1) =~= text);
    let sign = seq!['+'];
    assert(sign.drop_last() =~= Seq::<char>::empty());
    assert(digits_value(sign) is None);
}

/// Only the twenty-six letters from A to Z have a lower case here, each its own; every
/// other character stays, and no character is added or lost.
pub proof fn law_lower_case(text: Seq<char>, i: int, letter: int)
    requires
        0 <= i < text.len(),
        0 <= letter < 26,
    ensures
        lowered(text).len() == text.len(),
        text[i] == "ABCDEFGHIJKLMNOPQRSTUVWXYZ"@[letter] ==> lowered(text)[i]
            == "abcdefghijklmnopqrstuvwxyz"@[letter],
        !("ABCDEFGHIJKLMNOPQRSTUVWXYZ"@.contains(text[i])) ==> lowered(text)[i] == text[i],
        lowered(lowered(text)) == lowered(text),
{
    reveal_strlit("ABCDEFGHIJKLMNOPQRSTUVWXYZ");
    reveal_strlit("abcdefghijklmnopqrstuvwxyz");
    if 'A' <= text[i] && text[i] <= 'Z' {
        assert("ABCDEFGHIJKLMNOPQRSTUVWXYZ"@[text[i] as int - 65] == text[i]);
    }
    assert("ABCDEFGHIJKLMNOPQRSTUVWXYZ"@[letter] as int == 65 + letter);
    assert("abcdefghijklmnopqrstuvwxyz"@[letter] as int == 97 + letter);
    assert(lowered(lowered(text)) =~= lowered(text));
}

/// A shortened text is the beginning of the text, as much of it as the limit allows.
pub proof fn law_shortened_texts(text: Seq<char>, limit: nat, i: int)
    ensures
        shortened(text, limit).len() <= limit,
        text.len() <= limit ==> shortened(text, limit) == text,
        text.len() > limit ==> shortened(text, limit).len() == limit,
        0 <= i < shortened(text, limit).len() ==> shortened(text, limit)[i] == text[i],
{
}

/// A character occurs in a text when it stands somewhere in it; it is found at the
/// first place from where the search begins, and at the last one from behind.
pub proof fn law_where_characters_are_found(text: Seq<char>, c: char, from: nat, at: int)
    requires
        from <= text.len(),
        0 <= at < text.len(),
    ensures
        occurs(text, c) <==> text.contains(c),
        from <= at && text[at] == c ==> find_from(text, c, from) <= at && find_last(
            text,
            c,
            text.len(),
        ) is Some && find_last(text, c, text.len())->0 >= at,
        find_from(text, c, from) < text.len() ==> text[find_from(text, c, from) as int] == c
            && find_from(text, c, from) >= from,
        find_last(text, c, text.len()) matches Some(last) ==> last < text.len() && text[last as int]
            == c,
        !text.contains(c) ==> find_from(text, c, from) == text.len() && find_last(
            text,
            c,
            text.len(),
        ) is None,
{
    lemma_find_from(text, c, from);
    lemma_find_from(text, c, 0);
    lemma_last(text, c, text.len(), at);
    if !text.contains(c) {
        lemma_find_none(text, c, from);
        lemma_find_last_none(text, c, text.len());
    }
}

proof fn lemma_last(text: Seq<char>, c: char, count: nat, at: int)
    requires
        count <= text.len(),
        0 <= at < text.len(),
    ensures
        at < count && text[at] == c ==> find_last(text, c, count) is Some && find_last(
            text,
            c,
            count,
        )->0 >= at,
        find_last(text, c, count) matches Some(last) ==> last < count && text[last as int] == c,
    decreases count,
{
    if count > 0 && text[count - 1] != c {
        lemma_last(text, c, (count - 1) as nat, at);
    }
}

/// The twenty-five characters that are white space.
pub open spec fn white_spaces() -> Seq<u32> {
    seq![
        0x9u32,
        0xa,
        0xb,
        0xc,
        0xd,
        0x20,
        0x85,
        0xa0,
        0x1680,
        0x2000,
        0x2001,
        0x2002,
        0x2003,
        0x2004,
        0x2005,
        0x2006,
        0x2007,
        0x2008,
        0x2009,
        0x200a,
        0x2028,
        0x2029,
        0x202f,
        0x205f,
        0x3000,
    ]
}

/// These characters, and no others, are white space. A text is blank when it is made
/// of them alone, so that the empty text is blank.
pub proof fn law_white_space(text: Seq<char>, c: char, i: int)
    requires
        0 <= i < 25,
    ensures
        is_white_space(c) ==> white_spaces().contains(c as u32),
        c as u32 == white_spaces()[i] ==> is_white_space(c),
        is_blank(Seq::empty()),
        is_blank(text.push(c)) <==> is_blank(text) && is_white_space(c),
{
    let all = white_spaces();
    if is_white_space(c) {
        let code = c as u32;
        let at = if 0x9 <= code <= 0xd {
            code - 0x9
        } else if code == 0x20 {
            5
        } else if code == 0x85 {
            6
        } else if code == 0xa0 {
            7
        } else if code == 0x1680 {
            8
        } else if 0x2000 <= code <= 0x200a {
            9 + (code - 0x2000)
        } else if code == 0x2028 {
            20
        } else if code == 0x2029 {
            21
        } else if code == 0x202f {
            22
        } else if code == 0x205f {
            23
        } else {
            24
        };
        assert(all[at as int] == code);
    }
    let longer = text.push(c);
    if is_blank(longer) {
        assert(longer[text.len() as int] == c);
        assert forall|k: int| 0 <= k < text.len() implies is_white_space(#[trigger] text[k]) by {
            assert(longer[k] == text[k]);
        }
    }
    if is_blank(text) && is_white_space(c) {
        assert forall|k: int| 0 <= k < longer.len() implies is_white_space(
            #[trigger] longer[k],
        ) by {
            if k < text.len() {
                assert(longer[k] == text[k]);
            }
        }
    }
}

} // verus!
