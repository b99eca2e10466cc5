//! The difficulty of a work request: how it is written, its default, and its bounds.

use crate::base16::{hex_digit, hex_of_bytes, hex_value, is_hex_digit, law_hex_digits};
use crate::endian::{be_bytes, lemma_le_bytes_len, le_bytes, le_value, law_le_round_trip};
use crate::text::chars_of;
use vstd::prelude::*;

verus! {

/// The threshold of a request that names no readable difficulty.
pub const WORK_THRESHOLD: u64 = 0xfffff00000000000;

/// Requests below this threshold are turned down.
pub const MIN_DIFFICULTY: u64 = 0xffffe00000000000;

/// Requests above this threshold are turned down.
pub const MAX_DIFFICULTY: u64 = 0xfffff80000000000;

/// `s` without the `0x` it begins with, however often that is repeated.
pub open spec fn without_prefix(s: Seq<char>) -> Seq<char>
    decreases s.len(),
{
    if s.len() >= 2 && s[0] == '0' && s[1] == 'x' {
        without_prefix(s.skip(2))
    } else {
        s
    }
}

/// `s` without the plus sign it may begin with.
pub open spec fn without_plus(s: Seq<char>) -> Seq<char> {
    if s.len() > 0 && s[0] == '+' {
        s.skip(1)
    } else {
        s
    }
}

/// The number that a row of hexadecimal digits stands for.
pub open spec fn hex_number(digits: Seq<char>) -> nat
    decreases digits.len(),
{
    if digits.len() == 0 {
        0
    } else {
        16 * hex_number(digits.drop_last()) + hex_value(digits.last()) as nat
    }
}

/// One or more hexadecimal digits and nothing else.
pub open spec fn is_hex_number(digits: Seq<char>) -> bool {
    &&& digits.len() > 0
    &&& forall|i: int| 0 <= i < digits.len() ==> is_hex_digit(#[trigger] digits[i])
}

/// The difficulty that `s` spells: `0x` any number of times, a plus sign or none, and
/// hexadecimal digits for a number of at most 64 bits.
pub open spec fn difficulty_of(s: Seq<char>) -> Option<u64> {
    let digits = without_plus(without_prefix(s));
    if is_hex_number(digits) && hex_number(digits) <= u64::MAX {
        Some(hex_number(digits) as u64)
    } else {
        None
    }
}

/// The threshold that a request asks for: the one that it spells, or else the default.
pub open spec fn threshold_of(difficulty: Option<Seq<char>>) -> u64 {
    match difficulty {
        Some(s) => match difficulty_of(s) {
            Some(t) => t,
            None => WORK_THRESHOLD,
        },
        None => WORK_THRESHOLD,
    }
}

/// A threshold that the miner is willing to work for.
pub open spec fn acceptable(threshold: u64) -> bool {
    MIN_DIFFICULTY <= threshold <= MAX_DIFFICULTY
}

/// An optional text, seen as its characters.
pub open spec fn opt_text(s: Option<String>) -> Option<Seq<char>> {
    match s {
        Some(s) => Some(s@),
        None => None,
    }
}

/// More digits never make a smaller number.
proof fn lemma_hex_number_grows(digits: Seq<char>, n: int)
    requires
        0 <= n <= digits.len(),
        forall|i: int| 0 <= i < digits.len() ==> is_hex_digit(#[trigger] digits[i]),
    ensures
        hex_number(digits.take(n)) <= hex_number(digits),
    decreases digits.len(),
{
    if n == digits.len() {
        assert(digits.take(n) =~= digits);
    } else {
        assert(is_hex_digit(digits.last()));
        lemma_hex_number_grows(digits.drop_last(), n);
        assert(digits.drop_last().take(n) =~= digits.take(n));
    }
}

/// The value of a hexadecimal digit, if `c` is one.
fn digit_value(c: char) -> (v: Option<u64>)
    ensures
        v is Some <==> is_hex_digit(c),
        v matches Some(d) ==> d == hex_value(c) && d < 16,
{
    let code: u32 = c as u32;
    if '0' <= c && c <= '9' {
        Some((code - 48) as u64)
    } else if 'a' <= c && c <= 'f' {
        Some((code - 97 + 10) as u64)
    } else if 'A' <= c && c <= 'F' {
        Some((code - 65 + 10) as u64)
    } else {
        None
    }
}

/// The number that the characters from `from` on spell in hexadecimal, if they do and it
/// fits 64 bits.
fn hex_number_from(chars: &Vec<char>, from: usize) -> (out: Option<u64>)
    requires
        from <= chars@.len(),
    ensures
        out == (if is_hex_number(chars@.skip(from as int)) && hex_number(chars@.skip(from as int))
            <= u64::MAX {
            Some(hex_number(chars@.skip(from as int)) as u64)
        } else {
            None
        }),
{
    let ghost digits = chars@.skip(from as int);
    if from == chars.len() {
        return None;
    }
    let mut n: u64 = 0;
    let mut i: usize = from;
    while i < chars.len()
        invariant
            from <= i <= chars@.len(),
            digits == chars@.skip(from as int),
            n == hex_number(digits.take(i - from)),
            forall|j: int| 0 <= j < i - from ==> is_hex_digit(#[trigger] digits[j]),
        decreases chars@.len() - i,
    {
        assert(digits[i - from] == chars@[i as int]);
        let ghost next = digits.take(i - from + 1);
        assert(next.drop_last() =~= digits.take(i - from));
        assert(next.last() == chars@[i as int]);
        match digit_value(chars[i]) {
            None => {
                return None;
            },
            Some(d) => {
                if n > (u64::MAX - d) / 16 {
                    proof {
                        assert(16 * n + d > u64::MAX);
                        if is_hex_number(digits) {
                            lemma_hex_number_grows(digits, i - from + 1);
                        }
                    }
                    return None;
                }
                n = 16 * n + d;
            },
        }
        i = i + 1;
    }
    assert(digits.take(digits.len() as int) =~= digits);
    Some(n)
}

/// Reads a difficulty. Anything but what `difficulty_of` describes gives `None`.
pub fn parse_difficulty(s: &str) -> (out: Option<u64>)
    ensures
        out == difficulty_of(s@),
{
    let chars: Vec<char> = chars_of(s);
    let mut from: usize = 0;
    assert(chars@.skip(0) =~= chars@);
    while chars.len() - from >= 2 && chars[from] == '0' && chars[from + 1] == 'x'
        invariant
            from <= chars@.len(),
            without_prefix(chars@.skip(from as int)) == without_prefix(chars@),
        decreases chars@.len() - from,
    {
        assert(chars@.skip(from as int).skip(2) =~= chars@.skip(from + 2));
        from = from + 2;
    }
    assert(without_prefix(chars@) == chars@.skip(from as int));
    if from < chars.len() && chars[from] == '+' {
        assert(chars@.skip(from as int).skip(1) =~= chars@.skip(from + 1));
        from = from + 1;
    }
    hex_number_from(&chars, from)
}

/// The threshold that a request asks for. A request without a difficulty, or with one that
/// cannot be read, asks for the default.
pub fn work_threshold(difficulty: &Option<String>) -> (threshold: u64)
    ensures
        threshold == threshold_of(opt_text(*difficulty)),
{
    match difficulty {
        Some(s) => match parse_difficulty(s.as_str()) {
            Some(t) => t,
            None => WORK_THRESHOLD,
        },
        None => WORK_THRESHOLD,
    }
}

/// Whether a threshold lies within the bounds, both included.
pub fn is_acceptable(threshold: u64) -> (ok: bool)
    ensures
        ok == acceptable(threshold),
{
    MIN_DIFFICULTY <= threshold && threshold <= MAX_DIFFICULTY
}

/// A request without a difficulty, or with one that cannot be read, asks for the default, and is
/// never turned down for it.
pub proof fn law_unreadable_is_the_default(difficulty: Option<Seq<char>>)
    requires
        difficulty matches Some(s) ==> difficulty_of(s) is None,
    ensures
        threshold_of(difficulty) == WORK_THRESHOLD,
        acceptable(threshold_of(difficulty)),
{
}

/// Appending a digit.
proof fn lemma_hex_number_push(digits: Seq<char>, c: char)
    ensures
        hex_number(digits.push(c)) == 16 * hex_number(digits) + hex_value(c) as nat,
{
    assert(digits.push(c).drop_last() =~= digits);
}

/// The hexadecimal text of bytes, most significant first, is the number that they stand for.
proof fn lemma_hex_of_le(bytes: Seq<u8>)
    ensures
        hex_number(hex_of_bytes(bytes.reverse())) == le_value(bytes),
    decreases bytes.len(),
{
    if bytes.len() == 0 {
        assert(hex_of_bytes(bytes.reverse()) =~= seq![]);
    } else {
        let rest = bytes.skip(1);
        lemma_hex_of_le(rest);
        let b = bytes[0] as int;
        let head = hex_of_bytes(rest.reverse());
        let high = hex_digit(b / 16);
        let low = hex_digit(b % 16);
        lemma_hex_number_push(head, high);
        lemma_hex_number_push(head.push(high), low);
        assert(hex_value(high) == b / 16);
        assert(hex_value(low) == b % 16);
        assert(bytes.reverse() =~= rest.reverse().push(bytes[0]));
        assert(hex_of_bytes(bytes.reverse()) =~= head.push(high).push(low));
    }
}

/// A threshold written as sixteen lower-case hexadecimal digits is read back as itself,
/// with `0x` in front of it or without.
pub proof fn law_difficulty_round_trip(threshold: u64)
    ensures
        difficulty_of(hex_of_bytes(be_bytes(threshold))) == Some(threshold),
        difficulty_of(seq!['0', 'x'] + hex_of_bytes(be_bytes(threshold))) == Some(threshold),
{
    let low = le_bytes(threshold as nat, 8);
    let s = hex_of_bytes(be_bytes(threshold));
    lemma_le_bytes_len(threshold as nat, 8);
    lemma_hex_of_le(low);
    law_le_round_trip(threshold);
    assert(s.len() == 16);
    assert forall|i: int| 0 <= i < s.len() implies is_hex_digit(#[trigger] s[i]) by {
        let b = be_bytes(threshold)[i / 2] as int;
        assert(0 <= b / 16 < 16 && 0 <= b % 16 < 16);
    }
    assert(is_hex_digit(s[0]) && is_hex_digit(s[1]));
    assert(without_prefix(s) == s);
    let t = seq!['0', 'x'] + s;
    assert(t.skip(2) =~= s);
    assert(without_prefix(t) == without_prefix(t.skip(2)));
}

/// The text begins with `0x`, or with a plus sign.
pub open spec fn is_marked(s: Seq<char>) -> bool {
    ||| s.len() >= 2 && s[0] == '0' && s[1] == 'x'
    ||| s.len() >= 1 && s[0] == '+'
}

/// A `0x` in front changes nothing; neither does one plus sign, which must stand right before the
/// digits.
pub proof fn law_marks_do_not_count(s: Seq<char>)
    ensures
        difficulty_of(seq!['0', 'x'] + s) == difficulty_of(s),
        difficulty_of(seq!['+'] + s) == (if is_marked(s) {
            None
        } else {
            difficulty_of(s)
        }),
{
    let t = seq!['0', 'x'] + s;
    assert(t.skip(2) =~= s);
    assert(without_prefix(t) == without_prefix(t.skip(2)));
    let u = seq!['+'] + s;
    assert(without_prefix(u) == u);
    assert(u.skip(1) =~= s);
    if is_marked(s) {
        if s[0] == '+' {
            assert(!is_hex_digit(s[0]));
        } else {
            assert(!is_hex_digit(s[1]));
        }
    }
}

/// Without a mark in front, a text spells a number only if it is not empty and every character is
/// a hexadecimal digit.
pub proof fn law_only_digits_are_read(s: Seq<char>, i: int)
    requires
        !is_marked(s),
        s.len() == 0 || (0 <= i < s.len() && !"0123456789abcdef"@.contains(s[i])
            && !"0123456789ABCDEF"@.contains(s[i])),
    ensures
        difficulty_of(s) is None,
{
    assert(without_prefix(s) == s);
    if s.len() > 0 {
        law_hex_digits(0, s[i]);
        assert(!is_hex_digit(s[i]));
    }
}

/// Digits are read from the left: a single digit spells its value, and a further one makes the
/// number sixteen times as large and adds its own value, as long as the number fits 64 bits.
pub proof fn law_each_digit_counts(s: Seq<char>, c: char, d: int)
    requires
        0 <= d < 16,
        c == "0123456789abcdef"@[d] || c == "0123456789ABCDEF"@[d],
        forall|i: int|
            0 <= i < s.len() ==> "0123456789abcdef"@.contains(#[trigger] s[i])
                || "0123456789ABCDEF"@.contains(s[i]),
    ensures
        difficulty_of(seq![c]) == Some(d as u64),
        s.len() > 0 ==> difficulty_of(s.push(c)) == (match difficulty_of(s) {
            Some(v) => if 16 * v + d <= u64::MAX {
                Some((16 * v + d) as u64)
            } else {
                None
            },
            None => None,
        }),
{
    reveal_strlit("0123456789abcdef");
    reveal_strlit("0123456789ABCDEF");
    law_hex_digits(d, c);
    assert("0123456789abcdef"@.contains(c) || "0123456789ABCDEF"@.contains(c));
    assert(is_hex_digit(c) && hex_value(c) == d);
    let one = seq![c];
    assert(one.drop_last() =~= seq![]);
    assert(hex_number(one) == 16 * hex_number(one.drop_last()) + hex_value(one.last()) as nat);
    assert(hex_number(one.drop_last()) == 0);
    assert(is_hex_number(one));
    assert(without_plus(without_prefix(one)) == one);
    if s.len() > 0 {
        assert forall|i: int| 0 <= i < s.len() implies is_hex_digit(#[trigger] s[i]) by {
            law_hex_digits(0, s[i]);
        }
        let t = s.push(c);
        assert forall|i: int| 0 <= i < t.len() implies is_hex_digit(#[trigger] t[i]) by {
            if i < s.len() {
                assert(t[i] == s[i]);
            }
        }
        assert(is_hex_digit(s[0]) && is_hex_digit(t[0]) && is_hex_digit(t[1]));
        if s.len() >= 2 {
            assert(is_hex_digit(s[1]));
        }
        assert(without_plus(without_prefix(s)) == s);
        assert(without_plus(without_prefix(t)) == t);
        lemma_hex_number_push(s, c);
    }
}

/// A request asks for exactly what it spells, and for the default only where it spells nothing;
/// and the miner is willing to work between the two bounds, both included, and nowhere else.
pub proof fn law_requests_are_taken_as_they_stand(difficulty: Option<String>, threshold: u64)
    ensures
        threshold_of(opt_text(difficulty)) == (if difficulty is Some && difficulty_of(
            difficulty->0@,
        ) is Some {
            difficulty_of(difficulty->0@)->0
        } else {
            0xfffff00000000000
        }),
        acceptable(threshold) <==> 0xffffe00000000000 <= threshold <= 0xfffff80000000000,
{
}

} // verus!
