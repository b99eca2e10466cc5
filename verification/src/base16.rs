//! Hexadecimal text.

use vstd::prelude::*;

verus! {

/// A character that stands for a hexadecimal digit, in either case.
pub open spec fn is_hex_digit(c: char) -> bool {
    '0' <= c <= '9' || 'a' <= c <= 'f' || 'A' <= c <= 'F'
}

/// What a hexadecimal digit stands for.
pub open spec fn hex_value(c: char) -> int {
    if '0' <= c <= '9' {
        c as int - '0' as int
    } else if 'a' <= c <= 'f' {
        c as int - 'a' as int + 10
    } else {
        c as int - 'A' as int + 10
    }
}

/// The lower-case hexadecimal digit that stands for `d`.
pub open spec fn hex_digit(d: int) -> char {
    if d < 10 {
        ('0' as int + d) as char
    } else {
        ('a' as int + d - 10) as char
    }
}

/// Text that spells bytes out, two hexadecimal digits each.
pub open spec fn is_hex_text(s: Seq<char>) -> bool {
    &&& s.len() % 2 == 0
    &&& forall|i: int| 0 <= i < s.len() ==> is_hex_digit(#[trigger] s[i])
}

/// The bytes that hexadecimal text spells out, high digit first.
pub open spec fn bytes_of_hex(s: Seq<char>) -> Seq<u8> {
    Seq::new(
        (s.len() / 2) as nat,
        |i: int| (16 * hex_value(s[2 * i]) + hex_value(s[2 * i + 1])) as u8,
    )
}

/// Bytes spelled out in lower-case hexadecimal, high digit first.
pub open spec fn hex_of_bytes(bytes: Seq<u8>) -> Seq<char> {
    Seq::new(
        2 * bytes.len(),
        |i: int|
            if i % 2 == 0 {
                hex_digit(bytes[i / 2] as int / 16)
            } else {
                hex_digit(bytes[i / 2] as int % 16)
            },
    )
}

/// The error of `hex::decode`.
#[verifier::external_type_specification]
#[verifier::external_body]
pub struct ExFromHexError(hex::FromHexError);

/// Calls `hex::decode`. It succeeds exactly on text made of an even number of hexadecimal
/// digits of either case, and then gives the bytes that the digit pairs spell, high digit
/// first. Which error a failure carries is not said.
#[verifier::external_body]
pub(crate) fn decode(s: &str) -> (out: Result<Vec<u8>, hex::FromHexError>)
    ensures
        out is Ok <==> is_hex_text(s@),
        out matches Ok(bytes) ==> bytes@ == bytes_of_hex(s@),
{
    hex::decode(s)
}

/// Calls `hex::encode`. Each byte becomes two lower-case hexadecimal digits, high digit first.
#[verifier::external_body]
pub(crate) fn encode(bytes: &[u8]) -> (out: String)
    ensures
        out@ == hex_of_bytes(bytes@),
{
    hex::encode(bytes)
}

/// Decoding what was encoded gives the bytes back.
pub proof fn law_hex_round_trip(bytes: Seq<u8>)
    ensures
        is_hex_text(hex_of_bytes(bytes)),
        bytes_of_hex(hex_of_bytes(bytes)) == bytes,
{
    let s = hex_of_bytes(bytes);
    assert forall|i: int| 0 <= i < bytes.len() implies bytes_of_hex(s)[i] == bytes[i] by {
        assert((2 * i) / 2 == i && (2 * i + 1) / 2 == i);
        let b = bytes[i] as int;
        assert(hex_value(hex_digit(b / 16)) == b / 16);
        assert(hex_value(hex_digit(b % 16)) == b % 16);
    }
    assert(bytes_of_hex(s) =~= bytes);
}

/// The sixteen digits in order: what each stands for, in either case, and that there are no
/// others.
pub proof fn law_hex_digits(d: int, c: char)
    requires
        0 <= d < 16,
    ensures
        hex_digit(d) == "0123456789abcdef"@[d],
        hex_value("0123456789abcdef"@[d]) == d,
        hex_value("0123456789ABCDEF"@[d]) == d,
        is_hex_digit(c) <==> ("0123456789abcdef"@.contains(c) || "0123456789ABCDEF"@.contains(c)),
{
    reveal_strlit("0123456789abcdef");
    reveal_strlit("0123456789ABCDEF");
    let lower = "0123456789abcdef"@;
    let upper = "0123456789ABCDEF"@;
    assert(lower[0] == '0' && lower[1] == '1' && lower[2] == '2' && lower[3] == '3');
    assert(lower[4] == '4' && lower[5] == '5' && lower[6] == '6' && lower[7] == '7');
    assert(lower[8] == '8' && lower[9] == '9' && lower[10] == 'a' && lower[11] == 'b');
    assert(lower[12] == 'c' && lower[13] == 'd' && lower[14] == 'e' && lower[15] == 'f');
    assert(upper[0] == '0' && upper[1] == '1' && upper[2] == '2' && upper[3] == '3');
    assert(upper[4] == '4' && upper[5] == '5' && upper[6] == '6' && upper[7] == '7');
    assert(upper[8] == '8' && upper[9] == '9' && upper[10] == 'A' && upper[11] == 'B');
    assert(upper[12] == 'C' && upper[13] == 'D' && upper[14] == 'E' && upper[15] == 'F');
    if is_hex_digit(c) {
        if '0' <= c <= '9' {
            assert(lower[c as int - 48] == c);
        } else if 'a' <= c <= 'f' {
            assert(lower[c as int - 87] == c);
        } else {
            assert(upper[c as int - 55] == c);
        }
    }
}

/// Bytes are spelled out one after the other, each as its high digit and its low digit.
pub proof fn law_bytes_are_spelled_one_by_one(a: Seq<u8>, b: Seq<u8>, byte: u8)
    ensures
        hex_of_bytes(a + b) == hex_of_bytes(a) + hex_of_bytes(b),
        hex_of_bytes(seq![byte]) == seq![
            "0123456789abcdef"@[byte as int / 16],
            "0123456789abcdef"@[byte as int % 16],
        ],
{
    assert forall|i: int| 0 <= i < 2 * (a + b).len() implies hex_of_bytes(a + b)[i] == (
    hex_of_bytes(a) + hex_of_bytes(b))[i] by {
        if i >= 2 * a.len() {
            assert((i - 2 * a.len()) / 2 == i / 2 - a.len());
            assert((i - 2 * a.len()) % 2 == i % 2);
        }
    }
    assert(hex_of_bytes(a + b) =~= hex_of_bytes(a) + hex_of_bytes(b));
    law_hex_digits(byte as int / 16, '0');
    law_hex_digits(byte as int % 16, '0');
    assert(hex_of_bytes(seq![byte]) =~= seq![
        hex_digit(byte as int / 16),
        hex_digit(byte as int % 16),
    ]);
}

/// Text is read two digits at a time, the high digit first, and is hexadecimal exactly where each
/// pair is two digits.
pub proof fn law_text_is_read_pair_by_pair(s: Seq<char>, high: char, low: char)
    requires
        s.len() % 2 == 0,
    ensures
        is_hex_text(Seq::<char>::empty()),
        bytes_of_hex(Seq::<char>::empty()) == Seq::<u8>::empty(),
        !is_hex_text(s.push(high)),
        is_hex_text(s.push(high).push(low)) <==> is_hex_text(s) && is_hex_digit(high)
            && is_hex_digit(low),
        bytes_of_hex(s.push(high).push(low)) == bytes_of_hex(s).push(
            (16 * hex_value(high) + hex_value(low)) as u8,
        ),
{
    let t = s.push(high).push(low);
    if is_hex_text(t) {
        assert(is_hex_digit(t[s.len() as int]) && is_hex_digit(t[s.len() as int + 1]));
        assert forall|i: int| 0 <= i < s.len() implies is_hex_digit(#[trigger] s[i]) by {
            assert(s[i] == t[i]);
        }
    }
    assert(bytes_of_hex(t) =~= bytes_of_hex(s).push(
        (16 * hex_value(high) + hex_value(low)) as u8,
    ));
    assert(bytes_of_hex(Seq::<char>::empty()) =~= Seq::<u8>::empty());
}

} // verus!
