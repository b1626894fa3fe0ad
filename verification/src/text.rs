//! Text, as the rest of the crate reads and writes it: equality and order of names, the decimal
//! digits a message quotes, and the UTF-8 boundary between names and wire bytes.

use vstd::prelude::*;
use vstd::string::*;
use vstd::utf8::*;

verus! {

/// Whether two byte strings stand in dictionary order, the first no later than the second.
pub open spec fn bytes_le(a: Seq<u8>, b: Seq<u8>) -> bool
    decreases a.len(),
{
    if a.len() == 0 {
        true
    } else if b.len() == 0 {
        false
    } else if a[0] != b[0] {
        a[0] < b[0]
    } else {
        bytes_le(a.drop_first(), b.drop_first())
    }
}

/// Whether one name comes no later than another: names are ordered by their UTF-8 bytes.
pub open spec fn name_le(a: Seq<char>, b: Seq<char>) -> bool {
    bytes_le(encode_utf8(a), encode_utf8(b))
}

/// Whether one name comes strictly before another.
pub open spec fn name_lt(a: Seq<char>, b: Seq<char>) -> bool {
    name_le(a, b) && a != b
}

/// Whether a list of names is in strictly ascending order, so that no name occurs twice.
pub open spec fn ascending(names: Seq<Seq<char>>) -> bool {
    forall|i: int, j: int|
        0 <= i < j < names.len() ==> name_lt(#[trigger] names[i], #[trigger] names[j])
}

/// Whether a list of names is in name order, repeats allowed.
pub open spec fn in_name_order(names: Seq<Seq<char>>) -> bool {
    forall|i: int, j: int|
        0 <= i < j < names.len() ==> name_le(#[trigger] names[i], #[trigger] names[j])
}

proof fn lemma_bytes_reflexive(a: Seq<u8>)
    ensures
        bytes_le(a, a),
    decreases a.len(),
{
    if a.len() > 0 {
        lemma_bytes_reflexive(a.drop_first());
    }
}

proof fn lemma_bytes_total(a: Seq<u8>, b: Seq<u8>)
    ensures
        bytes_le(a, b) || bytes_le(b, a),
    decreases a.len(),
{
    if a.len() > 0 && b.len() > 0 && a[0] == b[0] {
        lemma_bytes_total(a.drop_first(), b.drop_first());
    }
}

proof fn lemma_bytes_antisymmetric(a: Seq<u8>, b: Seq<u8>)
    requires
        bytes_le(a, b),
        bytes_le(b, a),
    ensures
        a == b,
    decreases a.len(),
{
    if a.len() > 0 && b.len() > 0 {
        lemma_bytes_antisymmetric(a.drop_first(), b.drop_first());
        assert(a =~= seq![a[0]] + a.drop_first());
        assert(b =~= seq![b[0]] + b.drop_first());
    } else {
        assert(a =~= b);
    }
}

proof fn lemma_bytes_transitive(a: Seq<u8>, b: Seq<u8>, c: Seq<u8>)
    requires
        bytes_le(a, b),
        bytes_le(b, c),
    ensures
        bytes_le(a, c),
    decreases a.len(),
{
    if a.len() > 0 && b.len() > 0 && c.len() > 0 && a[0] == b[0] && b[0] == c[0] {
        lemma_bytes_transitive(a.drop_first(), b.drop_first(), c.drop_first());
    }
}

/// UTF-8 encodes no two texts alike.
pub proof fn lemma_encode_injective(a: Seq<char>, b: Seq<char>)
    requires
        encode_utf8(a) == encode_utf8(b),
    ensures
        a == b,
{
    encode_utf8_decode_utf8(a);
    encode_utf8_decode_utf8(b);
}

/// The order of names is total: of two different names exactly one comes first.
pub proof fn lemma_name_trichotomy(a: Seq<char>, b: Seq<char>)
    ensures
        name_lt(a, b) || name_lt(b, a) || a == b,
        !(name_lt(a, b) && name_lt(b, a)),
{
    lemma_bytes_total(encode_utf8(a), encode_utf8(b));
    if name_lt(a, b) && name_lt(b, a) {
        lemma_bytes_antisymmetric(encode_utf8(a), encode_utf8(b));
        lemma_encode_injective(a, b);
    }
}

/// The order of names is transitive.
pub proof fn lemma_name_transitive(a: Seq<char>, b: Seq<char>, c: Seq<char>)
    requires
        name_lt(a, b),
        name_lt(b, c),
    ensures
        name_lt(a, c),
{
    lemma_bytes_transitive(encode_utf8(a), encode_utf8(b), encode_utf8(c));
    if a == c {
        lemma_name_trichotomy(a, b);
    }
}

/// A name that does not come strictly before another comes no earlier than it.
pub proof fn lemma_name_le_total(a: Seq<char>, b: Seq<char>)
    ensures
        name_le(a, b) || name_lt(b, a),
        name_lt(a, b) ==> name_le(a, b),
        name_le(a, a),
{
    lemma_bytes_total(encode_utf8(a), encode_utf8(b));
    lemma_bytes_reflexive(encode_utf8(a));
}

/// The order of names that may repeat is transitive.
pub proof fn lemma_name_le_transitive(a: Seq<char>, b: Seq<char>, c: Seq<char>)
    requires
        name_le(a, b),
        name_le(b, c),
    ensures
        name_le(a, c),
{
    lemma_bytes_transitive(encode_utf8(a), encode_utf8(b), encode_utf8(c));
}

/// How two names stand to each other in name order.
pub enum NameOrder {
    /// The first name comes before the second.
    Before,
    /// The two names are the same.
    Same,
    /// The first name comes after the second.
    After,
}

/// Compare two names in name order.
pub fn compare_names(a: &str, b: &str) -> (order: NameOrder)
    ensures
        order is Before <==> name_lt(a@, b@),
        order is Same <==> a@ == b@,
        order is After <==> name_lt(b@, a@),
{
    let left: &[u8] = a.as_bytes();
    let right: &[u8] = b.as_bytes();
    let mut i: usize = 0;
    proof {
        lemma_name_trichotomy(a@, b@);
        assert(left@.skip(0) =~= left@);
        assert(right@.skip(0) =~= right@);
    }
    while i < left.len() && i < right.len() && left[i] == right[i]
        invariant
            i <= left.len(),
            i <= right.len(),
            left@.take(i as int) == right@.take(i as int),
            bytes_le(left@, right@) == bytes_le(left@.skip(i as int), right@.skip(i as int)),
            bytes_le(right@, left@) == bytes_le(right@.skip(i as int), left@.skip(i as int)),
        decreases left.len() - i,
    {
        proof {
            let k = i as int;
            assert(left@.skip(k).drop_first() =~= left@.skip(k + 1));
            assert(right@.skip(k).drop_first() =~= right@.skip(k + 1));
            assert(left@.take(k + 1) =~= left@.take(k).push(left@[k]));
            assert(right@.take(k + 1) =~= right@.take(k).push(right@[k]));
        }
        i = i + 1;
    }
    if i == left.len() && i == right.len() {
        proof {
            assert(left@.take(i as int) =~= left@);
            assert(right@.take(i as int) =~= right@);
            lemma_encode_injective(a@, b@);
        }
        NameOrder::Same
    } else if i == left.len() || (i < right.len() && left[i] < right[i]) {
        NameOrder::Before
    } else {
        NameOrder::After
    }
}

/// Whether two names are the same text.
pub fn same(a: &str, b: &str) -> (equal: bool)
    ensures
        equal == (a@ == b@),
{
    matches!(compare_names(a, b), NameOrder::Same)
}

/// Read bytes as text, if they are UTF-8.
///
/// Calls `core::str::from_utf8`, which gives back text exactly when the bytes are valid UTF-8, and
/// then the text that they encode.
#[verifier::external_body]
pub(crate) fn utf8_text(bytes: &[u8]) -> (text: Option<String>)
    ensures
        text is Some <==> valid_utf8(bytes@),
        text matches Some(t) ==> t@ == decode_utf8(bytes@),
{
    match core::str::from_utf8(bytes) {
        Ok(text) => Some(text.to_owned()),
        Err(_) => None,
    }
}

/// The characters of a text, one by one.
pub fn chars_of(text: &str) -> (chars: Vec<char>)
    ensures
        chars@ == text@,
{
    let mut chars: Vec<char> = Vec::new();
    for c in iter: text.chars()
        invariant
            iter.seq() == text@,
            chars@ == text@.take(iter.index() as int),
    {
        proof {
            let i = iter.index() as int;
            assert(text@.take(i + 1) =~= text@.take(i).push(text@[i]));
        }
        chars.push(c);
    }
    assert(text@.take(text@.len() as int) =~= text@);
    chars
}

/// A text split at the first occurrence of a character, which belongs to neither part.
pub open spec fn split_first(text: Seq<char>, at: char) -> Option<(Seq<char>, Seq<char>)>
    decreases text.len(),
{
    if text.len() == 0 {
        None
    } else if text[0] == at {
        Some((Seq::empty(), text.drop_first()))
    } else {
        match split_first(text.drop_first(), at) {
            Some((before, after)) => Some((seq![text[0]] + before, after)),
            None => None,
        }
    }
}

/// A text split at the last occurrence of a character, which belongs to neither part.
pub open spec fn split_last(text: Seq<char>, at: char) -> Option<(Seq<char>, Seq<char>)>
    decreases text.len(),
{
    if text.len() == 0 {
        None
    } else if text.last() == at {
        Some((text.drop_last(), Seq::empty()))
    } else {
        match split_last(text.drop_last(), at) {
            Some((before, after)) => Some((before, after.push(text.last()))),
            None => None,
        }
    }
}

/// Where a text splits first: at the first place that holds the character.
pub proof fn lemma_split_first(text: Seq<char>, at: char, i: int)
    requires
        0 <= i <= text.len(),
        forall|j: int| 0 <= j < i ==> text[j] != at,
        i < text.len() ==> text[i] == at,
    ensures
        i < text.len() ==> split_first(text, at) == Some((text.take(i), text.skip(i + 1))),
        i == text.len() ==> split_first(text, at) is None,
    decreases i,
{
    if i == 0 {
        if text.len() > 0 {
            assert(text.take(0) =~= Seq::empty());
            assert(text.skip(1) =~= text.drop_first());
        }
    } else {
        let rest = text.drop_first();
        assert forall|j: int| 0 <= j < i - 1 implies rest[j] != at by {
            assert(text[j + 1] != at);
        }
        assert(text[0] != at);
        lemma_split_first(rest, at, i - 1);
        if i < text.len() {
            assert(seq![text[0]] + rest.take(i - 1) =~= text.take(i));
            assert(rest.skip(i) =~= text.skip(i + 1));
        }
    }
}

proof fn lemma_split_last(text: Seq<char>, at: char, i: int)
    requires
        -1 <= i < text.len(),
        forall|j: int| i < j < text.len() ==> text[j] != at,
        i >= 0 ==> text[i] == at,
    ensures
        i >= 0 ==> split_last(text, at) == Some((text.take(i), text.skip(i + 1))),
        i == -1 ==> split_last(text, at) is None,
    decreases text.len(),
{
    if text.len() > 0 {
        if i == text.len() - 1 {
            assert(text.take(i) =~= text.drop_last());
            assert(text.skip(i + 1) =~= Seq::empty());
        } else {
            assert(text.last() != at);
            lemma_split_last(text.drop_last(), at, i);
            if i >= 0 {
                assert(text.drop_last().take(i) =~= text.take(i));
                assert(text.drop_last().skip(i + 1).push(text.last()) =~= text.skip(i + 1));
            }
        }
    }
}

/// A text splits at a character exactly where it holds one.
pub proof fn lemma_splits_where_held(text: Seq<char>, at: char)
    ensures
        split_first(text, at) is Some <==> text.contains(at),
    decreases text.len(),
{
    if text.len() > 0 {
        let rest = text.drop_first();
        lemma_splits_where_held(rest, at);
        assert(text[0] == at ==> text.contains(at));
        if rest.contains(at) {
            let i = choose|i: int| 0 <= i < rest.len() && rest[i] == at;
            assert(text[i + 1] == at);
        }
        if text.contains(at) && text[0] != at {
            let i = choose|i: int| 0 <= i < text.len() && text[i] == at;
            assert(rest[i - 1] == at);
        }
    }
}

/// Split a text at the first occurrence of a character.
pub fn split_at_first<'a>(text: &'a str, at: char) -> (parts: Option<(&'a str, &'a str)>)
    ensures
        match parts {
            Some((before, after)) => split_first(text@, at) == Some((before@, after@)),
            None => split_first(text@, at) is None,
        },
{
    let chars: Vec<char> = chars_of(text);
    let mut i: usize = 0;
    while i < chars.len() && chars[i] != at
        invariant
            i <= chars.len(),
            chars@ == text@,
            forall|j: int| 0 <= j < i ==> text@[j] != at,
        decreases chars.len() - i,
    {
        i = i + 1;
    }
    proof {
        lemma_split_first(text@, at, i as int);
    }
    if i == chars.len() {
        return None;
    }
    let before: &str = text.substring_char(0, i);
    let after: &str = text.substring_char(i + 1, chars.len());
    proof {
        assert(before@ =~= text@.take(i as int));
        assert(after@ =~= text@.skip(i + 1));
    }
    Some((before, after))
}

/// Split a text at the last occurrence of a character.
pub fn split_at_last<'a>(text: &'a str, at: char) -> (parts: Option<(&'a str, &'a str)>)
    ensures
        match parts {
            Some((before, after)) => split_last(text@, at) == Some((before@, after@)),
            None => split_last(text@, at) is None,
        },
{
    let chars: Vec<char> = chars_of(text);
    let mut end: usize = chars.len();
    while end > 0 && chars[end - 1] != at
        invariant
            end <= chars.len(),
            chars@ == text@,
            forall|j: int| end <= j < text@.len() ==> text@[j] != at,
        decreases end,
    {
        end = end - 1;
    }
    proof {
        lemma_split_last(text@, at, end - 1);
    }
    if end == 0 {
        return None;
    }
    let before: &str = text.substring_char(0, end - 1);
    let after: &str = text.substring_char(end, chars.len());
    proof {
        assert(before@ =~= text@.take(end - 1));
        assert(after@ =~= text@.skip(end as int));
    }
    Some((before, after))
}

/// What follows a prefix, if the text starts with it.
pub fn after_prefix<'a>(text: &'a str, prefix: &str) -> (rest: Option<&'a str>)
    ensures
        match rest {
            Some(rest) => {
                &&& prefix@.is_prefix_of(text@)
                &&& rest@ == text@.skip(prefix@.len() as int)
            },
            None => !prefix@.is_prefix_of(text@),
        },
{
    let len: usize = text.unicode_len();
    let cut: usize = prefix.unicode_len();
    if cut > len || !same(text.substring_char(0, cut), prefix) {
        return None;
    }
    let rest: &str = text.substring_char(cut, len);
    assert(rest@ =~= text@.skip(prefix@.len() as int));
    Some(rest)
}

/// What precedes a suffix, if the text ends with it.
pub fn before_suffix<'a>(text: &'a str, suffix: &str) -> (rest: Option<&'a str>)
    ensures
        match rest {
            Some(rest) => {
                &&& suffix@.is_suffix_of(text@)
                &&& rest@ == text@.take(text@.len() - suffix@.len())
            },
            None => !suffix@.is_suffix_of(text@),
        },
{
    let len: usize = text.unicode_len();
    let tail: usize = suffix.unicode_len();
    if tail > len || !same(text.substring_char(len - tail, len), suffix) {
        return None;
    }
    let rest: &str = text.substring_char(0, len - tail);
    assert(rest@ =~= text@.take(text@.len() - suffix@.len()));
    Some(rest)
}

/// An ASCII decimal digit.
pub open spec fn is_digit(c: char) -> bool {
    '0' as int <= c as int <= '9' as int
}

/// An ASCII letter.
pub open spec fn is_letter(c: char) -> bool {
    ('a' as int <= c as int <= 'z' as int) || ('A' as int <= c as int <= 'Z' as int)
}

/// The number a run of decimal digits writes.
pub open spec fn digits_value(digits: Seq<char>) -> nat
    decreases digits.len(),
{
    if digits.len() == 0 {
        0
    } else {
        (digits_value(digits.drop_last()) * 10 + (digits.last() as int - '0' as int)) as nat
    }
}

/// A number's text without its leading plus, if it has one.
pub open spec fn unsigned(text: Seq<char>) -> Seq<char> {
    if text.len() > 0 && text[0] == '+' {
        text.drop_first()
    } else {
        text
    }
}

/// A port number: decimal digits that write a number below 65536, with at most one leading plus.
pub open spec fn is_port(text: Seq<char>) -> bool {
    let digits = unsigned(text);
    &&& digits.len() > 0
    &&& forall|i: int| 0 <= i < digits.len() ==> is_digit(#[trigger] digits[i])
    &&& digits_value(digits) <= 0xFFFF
}

proof fn lemma_value_grows(digits: Seq<char>, i: int)
    requires
        0 <= i <= digits.len(),
        forall|j: int| 0 <= j < digits.len() ==> is_digit(#[trigger] digits[j]),
    ensures
        digits_value(digits.take(i)) <= digits_value(digits),
    decreases digits.len(),
{
    if i == digits.len() {
        assert(digits.take(i) =~= digits);
    } else {
        let shorter = digits.drop_last();
        assert forall|j: int| 0 <= j < shorter.len() implies is_digit(#[trigger] shorter[j]) by {
            assert(is_digit(digits[j]));
        }
        lemma_value_grows(shorter, i);
        assert(shorter.take(i) =~= digits.take(i));
        assert(is_digit(digits[digits.len() - 1]));
    }
}

/// Whether a text is a port number.
pub fn reads_as_port(text: &str) -> (port: bool)
    ensures
        port == is_port(text@),
{
    let chars: Vec<char> = chars_of(text);
    let start: usize = if chars.len() > 0 && chars[0] == '+' {
        1
    } else {
        0
    };
    let ghost digits = text@.skip(start as int);
    assert(digits =~= unsigned(text@));
    if chars.len() == start {
        return false;
    }
    let mut value: u32 = 0;
    let mut i: usize = start;
    assert(digits.take(0) =~= Seq::empty());
    while i < chars.len()
        invariant
            start <= i <= chars.len(),
            chars@ == text@,
            digits == text@.skip(start as int),
            digits == unsigned(text@),
            forall|j: int| 0 <= j < i - start ==> is_digit(#[trigger] digits[j]),
            value == digits_value(digits.take(i - start)),
            value <= 0xFFFF,
        decreases chars.len() - i,
    {
        let code: u32 = chars[i] as u32;
        let ghost k = i - start;
        proof {
            char_u32_cast(chars@[i as int], code);
        }
        assert(digits[k] == text@[i as int]);
        if code < 48 || code > 57 {
            assert(!is_digit(digits[k]));
            return false;
        }
        value = value * 10 + (code - 48);
        proof {
            assert(digits.take(k + 1).drop_last() =~= digits.take(k));
            assert(digits.take(k + 1).last() == digits[k]);
        }
        if value > 0xFFFF {
            proof {
                if forall|j: int| 0 <= j < digits.len() ==> is_digit(#[trigger] digits[j]) {
                    lemma_value_grows(digits, k + 1);
                }
            }
            return false;
        }
        i = i + 1;
    }
    assert(digits.take(i - start) =~= digits);
    true
}

/// Texts joined by a separator.
pub open spec fn join(parts: Seq<Seq<char>>, separator: Seq<char>) -> Seq<char>
    decreases parts.len(),
{
    if parts.len() == 0 {
        Seq::empty()
    } else if parts.len() == 1 {
        parts[0]
    } else {
        join(parts.drop_last(), separator) + separator + parts.last()
    }
}

/// The views of a list of owned texts.
pub open spec fn texts(list: Seq<String>) -> Seq<Seq<char>> {
    list.map_values(|text: String| text@)
}

/// Join texts by `, `.
pub fn comma_joined(parts: &Vec<String>) -> (joined: String)
    ensures
        joined@ == join(texts(parts@), ", "@),
{
    let mut joined: String = String::new();
    let mut i: usize = 0;
    let ghost all = texts(parts@);
    assert(all.take(0) =~= Seq::empty());
    while i < parts.len()
        invariant
            i <= parts.len(),
            all == texts(parts@),
            joined@ == join(all.take(i as int), ", "@),
        decreases parts.len() - i,
    {
        proof {
            let k = i as int;
            assert(all.take(k + 1).drop_last() =~= all.take(k));
            assert(all.take(k + 1).last() == parts@[k]@);
        }
        if i > 0 {
            joined.append(", ");
        }
        joined.append(parts[i].as_str());
        proof {
            if i == 0 {
                assert(joined@ =~= parts@[0]@);
            }
        }
        i = i + 1;
    }
    assert(all.take(i as int) =~= all);
    joined
}

/// The decimal digit of a number below ten.
pub open spec fn digit_text(digit: nat) -> Seq<char> {
    if digit == 0 {
        "0"@
    } else if digit == 1 {
        "1"@
    } else if digit == 2 {
        "2"@
    } else if digit == 3 {
        "3"@
    } else if digit == 4 {
        "4"@
    } else if digit == 5 {
        "5"@
    } else if digit == 6 {
        "6"@
    } else if digit == 7 {
        "7"@
    } else if digit == 8 {
        "8"@
    } else {
        "9"@
    }
}

/// A number in decimal, without leading zeros.
pub open spec fn decimal_text(number: nat) -> Seq<char>
    decreases number,
{
    if number < 10 {
        digit_text(number)
    } else {
        decimal_text(number / 10) + digit_text(number % 10)
    }
}

fn digit(value: u64) -> (text: &'static str)
    requires
        value < 10,
    ensures
        text@ == digit_text(value as nat),
{
    if value == 0 {
        "0"
    } else if value == 1 {
        "1"
    } else if value == 2 {
        "2"
    } else if value == 3 {
        "3"
    } else if value == 4 {
        "4"
    } else if value == 5 {
        "5"
    } else if value == 6 {
        "6"
    } else if value == 7 {
        "7"
    } else if value == 8 {
        "8"
    } else {
        "9"
    }
}

/// Write a number in decimal.
pub fn decimal(number: u64) -> (text: String)
    ensures
        text@ == decimal_text(number as nat),
    decreases number,
{
    if number < 10 {
        digit(number).to_owned()
    } else {
        let mut text = decimal(number / 10);
        text.append(digit(number % 10));
        text
    }
}

/// The hexadecimal digit of a number below sixteen.
pub open spec fn hex_digit_text(digit: nat) -> Seq<char> {
    if digit < 10 {
        digit_text(digit)
    } else if digit == 10 {
        "a"@
    } else if digit == 11 {
        "b"@
    } else if digit == 12 {
        "c"@
    } else if digit == 13 {
        "d"@
    } else if digit == 14 {
        "e"@
    } else {
        "f"@
    }
}

/// A byte in hexadecimal: `0x` and two digits.
pub open spec fn hex_text(byte: u8) -> Seq<char> {
    "0x"@ + hex_digit_text((byte / 16) as nat) + hex_digit_text((byte % 16) as nat)
}

fn hex_digit(value: u8) -> (text: &'static str)
    requires
        value < 16,
    ensures
        text@ == hex_digit_text(value as nat),
{
    if value < 10 {
        digit(value as u64)
    } else if value == 10 {
        "a"
    } else if value == 11 {
        "b"
    } else if value == 12 {
        "c"
    } else if value == 13 {
        "d"
    } else if value == 14 {
        "e"
    } else {
        "f"
    }
}

/// Write a byte in hexadecimal.
pub fn hexadecimal(byte: u8) -> (text: String)
    ensures
        text@ == hex_text(byte),
{
    String::from_str("0x").concat(hex_digit(byte / 16)).concat(hex_digit(byte % 16))
}

/// Names are ordered by their bytes, as a dictionary orders words: the first byte that differs
/// decides, and a name that another one starts with comes first.
pub proof fn names_are_ordered_by_their_bytes(
    a: &str,
    b: &str,
    order: NameOrder,
    shared: Seq<u8>,
    x: Seq<u8>,
    y: Seq<u8>,
)
    requires
        call_ensures(compare_names, (a, b), order),
        encode_utf8(a@) == shared + x,
        encode_utf8(b@) == shared + y,
    ensures
        x.len() == 0 && y.len() == 0 ==> order is Same,
        x.len() == 0 && y.len() > 0 ==> order is Before,
        x.len() > 0 && y.len() == 0 ==> order is After,
        x.len() > 0 && y.len() > 0 && x[0] < y[0] ==> order is Before,
        x.len() > 0 && y.len() > 0 && x[0] > y[0] ==> order is After,
{
    lemma_bytes_shared(shared, x, y);
    lemma_bytes_shared(shared, y, x);
    lemma_name_trichotomy(a@, b@);
    if x.len() == 0 && y.len() == 0 {
        assert(x =~= y);
        lemma_encode_injective(a@, b@);
    } else if a@ == b@ {
        assert((shared + x).skip(shared.len() as int) =~= x);
        assert((shared + y).skip(shared.len() as int) =~= y);
    }
}

proof fn lemma_bytes_shared(shared: Seq<u8>, x: Seq<u8>, y: Seq<u8>)
    ensures
        bytes_le(shared + x, shared + y) == bytes_le(x, y),
    decreases shared.len(),
{
    if shared.len() == 0 {
        assert(shared + x =~= x);
        assert(shared + y =~= y);
    } else {
        lemma_bytes_shared(shared.drop_first(), x, y);
        assert((shared + x).drop_first() =~= shared.drop_first() + x);
        assert((shared + y).drop_first() =~= shared.drop_first() + y);
    }
}

/// A text is cut in two at the first place that holds the character, and put together again from
/// the two parts.
pub proof fn a_text_splits_at_its_first<'a>(
    text: &'a str,
    at: char,
    parts: Option<(&'a str, &'a str)>,
)
    requires
        call_ensures(split_at_first, (text, at), parts),
    ensures
        match parts {
            Some((before, after)) => {
                &&& text@ == before@ + seq![at] + after@
                &&& !before@.contains(at)
            },
            None => !text@.contains(at),
        },
{
    lemma_split_first_parts(text@, at);
}

/// What the parts of a text split at its first are.
pub proof fn lemma_split_first_parts(text: Seq<char>, at: char)
    ensures
        match split_first(text, at) {
            Some((before, after)) => {
                &&& text == before + seq![at] + after
                &&& !before.contains(at)
            },
            None => !text.contains(at),
        },
    decreases text.len(),
{
    if text.len() > 0 {
        let rest = text.drop_first();
        assert(text =~= seq![text[0]] + rest);
        if text[0] == at {
            assert(text =~= Seq::empty() + seq![at] + rest);
        } else {
            lemma_split_first_parts(rest, at);
            match split_first(rest, at) {
                Some((before, after)) => {
                    let longer = seq![text[0]] + before;
                    assert(text =~= longer + seq![at] + after);
                    if longer.contains(at) {
                        let i = choose|i: int| 0 <= i < longer.len() && longer[i] == at;
                        assert(before[i - 1] == at);
                    }
                },
                None => {
                    if text.contains(at) {
                        let i = choose|i: int| 0 <= i < text.len() && text[i] == at;
                        assert(rest[i - 1] == at);
                    }
                },
            }
        }
    }
}

/// A text is cut in two at the last place that holds the character, and put together again from the
/// two parts.
pub proof fn a_text_splits_at_its_last<'a>(
    text: &'a str,
    at: char,
    parts: Option<(&'a str, &'a str)>,
)
    requires
        call_ensures(split_at_last, (text, at), parts),
    ensures
        match parts {
            Some((before, after)) => {
                &&& text@ == before@ + seq![at] + after@
                &&& !after@.contains(at)
            },
            None => !text@.contains(at),
        },
{
    lemma_split_last_parts(text@, at);
}

/// What the parts of a text split at its last are.
pub proof fn lemma_split_last_parts(text: Seq<char>, at: char)
    ensures
        match split_last(text, at) {
            Some((before, after)) => {
                &&& text == before + seq![at] + after
                &&& !after.contains(at)
            },
            None => !text.contains(at),
        },
    decreases text.len(),
{
    if text.len() > 0 {
        let rest = text.drop_last();
        assert(text =~= rest.push(text.last()));
        if text.last() == at {
            assert(text =~= rest + seq![at] + Seq::empty());
        } else {
            lemma_split_last_parts(rest, at);
            match split_last(rest, at) {
                Some((before, after)) => {
                    let longer = after.push(text.last());
                    assert(text =~= before + seq![at] + longer);
                    if longer.contains(at) {
                        let i = choose|i: int| 0 <= i < longer.len() && longer[i] == at;
                        assert(after[i] == at);
                    }
                },
                None => {
                    if text.contains(at) {
                        let i = choose|i: int| 0 <= i < text.len() && text[i] == at;
                        assert(rest[i] == at);
                    }
                },
            }
        }
    }
}

/// A text that is put together from two parts splits at its last into them, where the second part
/// does not hold the character.
pub proof fn lemma_joined_splits_last(before: Seq<char>, at: char, after: Seq<char>)
    requires
        !after.contains(at),
    ensures
        split_last(before + seq![at] + after, at) == Some((before, after)),
{
    let text = before + seq![at] + after;
    let n = before.len() as int;
    assert(text[n] == at);
    assert forall|j: int| n < j < text.len() implies text[j] != at by {
        assert(text[j] == after[j - n - 1]);
    }
    lemma_split_last(text, at, n);
    assert(text.take(n) =~= before);
    assert(text.skip(n + 1) =~= after);
}

/// A text that is put together from two parts splits at its first into them, where the first part
/// does not hold the character.
pub proof fn lemma_joined_splits_first(before: Seq<char>, at: char, after: Seq<char>)
    requires
        !before.contains(at),
    ensures
        split_first(before + seq![at] + after, at) == Some((before, after)),
{
    let text = before + seq![at] + after;
    let n = before.len() as int;
    assert(text[n] == at);
    assert forall|j: int| 0 <= j < n implies text[j] != at by {
        assert(text[j] == before[j]);
    }
    lemma_split_first(text, at, n);
    assert(text.take(n) =~= before);
    assert(text.skip(n + 1) =~= after);
}

proof fn lemma_digit(digit: nat)
    requires
        digit < 10,
    ensures
        digit_text(digit).len() == 1,
        '0' <= digit_text(digit)[0] <= '9',
        digit_text(digit)[0] as int == '0' as int + digit,
{
    reveal_strlit("0");
    reveal_strlit("1");
    reveal_strlit("2");
    reveal_strlit("3");
    reveal_strlit("4");
    reveal_strlit("5");
    reveal_strlit("6");
    reveal_strlit("7");
    reveal_strlit("8");
    reveal_strlit("9");
}

proof fn lemma_decimal(number: nat)
    ensures
        decimal_text(number).len() > 0,
        forall|i: int|
            0 <= i < decimal_text(number).len() ==> '0' <= #[trigger] decimal_text(number)[i]
                <= '9',
        digits_value(decimal_text(number)) == number,
        decimal_text(number).len() > 1 ==> decimal_text(number)[0] != '0',
        number > 0 ==> decimal_text(number)[0] != '0',
    decreases number,
{
    lemma_digit(number % 10);
    let text = decimal_text(number);
    if number < 10 {
        assert(digits_value(text.drop_last()) == 0);
    } else {
        lemma_decimal(number / 10);
        assert(text.drop_last() =~= decimal_text(number / 10));
        assert(text.last() == digit_text(number % 10)[0]);
    }
}

/// A number is written in the digits that read back as it, and with no zero before them.
pub proof fn a_number_reads_back(number: u64, text: String)
    requires
        call_ensures(decimal, (number,), text),
    ensures
        text@.len() > 0,
        forall|i: int| 0 <= i < text@.len() ==> '0' <= #[trigger] text@[i] <= '9',
        digits_value(text@) == number,
        number > 0 ==> text@[0] != '0',
        number == 0 ==> text@.len() == 1,
{
    lemma_decimal(number as nat);
    lemma_digit(0);
}

/// What a run of digits writes grows with each digit: ten times as much, and the digit's own value.
pub proof fn a_digit_weighs_ten_of_the_next(digits: Seq<char>, digit: char)
    requires
        '0' <= digit <= '9',
    ensures
        digits_value(Seq::<char>::empty()) == 0,
        digits_value(digits.push(digit)) == 10 * digits_value(digits) + (digit as int
            - '0' as int),
{
    assert(digits.push(digit).drop_last() =~= digits);
}

/// A written number is a port exactly when it is below 65536, and so is one with a plus before it.
pub proof fn a_port_is_a_number_below_two_to_the_sixteen(
    number: u64,
    written: String,
    text: &str,
    plain: bool,
    signed: &str,
    plus: bool,
)
    requires
        call_ensures(decimal, (number,), written),
        text@ == written@,
        signed@ == seq!['+'] + written@,
        call_ensures(reads_as_port, (text,), plain),
        call_ensures(reads_as_port, (signed,), plus),
    ensures
        plain == (number < 65536),
        plus == (number < 65536),
{
    lemma_decimal(number as nat);
    let digits = written@;
    assert('0' <= digits[0]);
    assert forall|i: int| 0 <= i < digits.len() implies is_digit(#[trigger] digits[i]) by {
        assert('0' <= digits[i] <= '9');
    }
    assert(unsigned(text@) == digits);
    assert(unsigned(signed@) =~= digits);
}

/// Nothing but digits is a port, whatever number they write, and no port is empty.
pub proof fn only_digits_are_a_port(text: &str, port: bool)
    requires
        call_ensures(reads_as_port, (text,), port),
        port,
    ensures
        text@.len() > 0,
        text@[0] == '+' || '0' <= text@[0] <= '9',
        forall|i: int| 0 < i < text@.len() ==> '0' <= #[trigger] text@[i] <= '9',
        text@[0] == '+' ==> text@.len() > 1 && digits_value(text@.drop_first()) < 65536,
        text@[0] != '+' ==> digits_value(text@) < 65536,
{
    let digits = unsigned(text@);
    assert(is_digit(digits[0]));
    assert forall|i: int| 0 < i < text@.len() implies '0' <= #[trigger] text@[i] <= '9' by {
        if text@[0] == '+' {
            assert(is_digit(digits[i - 1]));
        } else {
            assert(is_digit(digits[i]));
        }
    }
}

/// Texts are joined in order, with a comma and a blank between each two and nothing around them.
pub proof fn texts_are_joined_by_commas(
    parts: &Vec<String>,
    joined: String,
    more: &Vec<String>,
    longer: String,
    last: String,
)
    requires
        call_ensures(comma_joined, (parts,), joined),
        call_ensures(comma_joined, (more,), longer),
        more@ == parts@.push(last),
    ensures
        parts@.len() == 0 ==> joined@.len() == 0 && longer@ == last@,
        parts@.len() > 0 ==> longer@ == joined@ + ", "@ + last@,
{
    let all = texts(more@);
    assert(all.drop_last() =~= texts(parts@));
    assert(all.last() == last@);
}

/// The value of a hexadecimal digit.
pub open spec fn hex_value(digit: char) -> int {
    if '0' <= digit <= '9' {
        digit as int - '0' as int
    } else {
        digit as int - 'a' as int + 10
    }
}

proof fn lemma_hex_digit(digit: nat)
    requires
        digit < 16,
    ensures
        hex_digit_text(digit).len() == 1,
        hex_value(hex_digit_text(digit)[0]) == digit,
{
    if digit < 10 {
        lemma_digit(digit);
    }
    reveal_strlit("a");
    reveal_strlit("b");
    reveal_strlit("c");
    reveal_strlit("d");
    reveal_strlit("e");
    reveal_strlit("f");
}

/// A byte is written as `0x` and the two digits that read back as it.
pub proof fn a_byte_reads_back(byte: u8, text: String)
    requires
        call_ensures(hexadecimal, (byte,), text),
    ensures
        text@.len() == 4,
        text@[0] == '0' && text@[1] == 'x',
        16 * hex_value(text@[2]) + hex_value(text@[3]) == byte,
{
    reveal_strlit("0x");
    lemma_hex_digit((byte / 16) as nat);
    lemma_hex_digit((byte % 16) as nat);
}

} // verus!
