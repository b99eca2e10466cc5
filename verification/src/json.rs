//! The JSON texts that the miner sends.

use crate::base16::{hex_digit, hex_value, law_hex_digits};
use vstd::prelude::*;

verus! {

/// A character as it stands inside a JSON string: quotes, backslashes and control characters
/// are escaped, everything else is left as it is.
pub open spec fn escaped_char(c: char) -> Seq<char> {
    if c == '"' {
        seq!['\\', '"']
    } else if c == '\\' {
        seq!['\\', '\\']
    } else if c == '\u{8}' {
        seq!['\\', 'b']
    } else if c == '\t' {
        seq!['\\', 't']
    } else if c == '\n' {
        seq!['\\', 'n']
    } else if c == '\u{c}' {
        seq!['\\', 'f']
    } else if c == '\r' {
        seq!['\\', 'r']
    } else if c as int <= 0x1f {
        seq!['\\', 'u', '0', '0', hex_digit(c as int / 16), hex_digit(c as int % 16)]
    } else {
        seq![c]
    }
}

/// A text as it stands inside a JSON string.
pub open spec fn escaped(s: Seq<char>) -> Seq<char>
    decreases s.len(),
{
    if s.len() == 0 {
        seq![]
    } else {
        escaped_char(s[0]) + escaped(s.skip(1))
    }
}

/// A text as a JSON string.
pub open spec fn quoted(s: Seq<char>) -> Seq<char> {
    seq!['"'] + escaped(s) + seq!['"']
}

/// Members of a JSON object, separated by commas.
pub open spec fn members_text(members: Seq<(&str, &str)>) -> Seq<char>
    decreases members.len(),
{
    if members.len() == 0 {
        seq![]
    } else {
        let member = quoted(members.last().0@) + seq![':'] + quoted(members.last().1@);
        if members.len() == 1 {
            member
        } else {
            members_text(members.drop_last()) + seq![','] + member
        }
    }
}

/// Keys whose order is plain from their first characters.
pub open spec fn in_order(members: Seq<(&str, &str)>) -> bool {
    forall|i: int, j: int|
        0 <= i < j < members.len() ==> {
            &&& (#[trigger] members[i]).0@.len() > 0
            &&& (#[trigger] members[j]).0@.len() > 0
            &&& members[i].0@[0] < members[j].0@[0]
        }
}

/// Collects pairs of texts into an object with `serde_json::Value::from_iter` and writes it with
/// the value's `Display`. The text is compact, with the members in the order given, which is
/// at once the order of insertion and the sorted order of the keys.
#[verifier::external_body]
fn object_text(members: Vec<(&str, &str)>) -> (out: String)
    requires
        in_order(members@),
    ensures
        out@ == seq!['{'] + members_text(members@) + seq!['}'],
{
    serde_json::Value::from_iter(members).to_string()
}

/// A text without anything to escape.
spec fn is_plain(s: Seq<char>) -> bool {
    forall|i: int| 0 <= i < s.len() ==> escaped_char(#[trigger] s[i]) == seq![s[i]]
}

/// Text without anything to escape stands for itself.
proof fn lemma_plain(s: Seq<char>)
    requires
        is_plain(s),
    ensures
        escaped(s) == s,
    decreases s.len(),
{
    if s.len() > 0 {
        assert forall|i: int| 0 <= i < s.skip(1).len() implies escaped_char(
            #[trigger] s.skip(1)[i],
        ) == seq![s.skip(1)[i]] by {
            assert(s.skip(1)[i] == s[i + 1]);
        }
        lemma_plain(s.skip(1));
        assert(escaped_char(s[0]) == seq![s[0]]);
        assert(s =~= seq![s[0]] + s.skip(1));
    } else {
        assert(s =~= seq![]);
    }
}

/// The registration message for an address.
pub open spec fn registration_message(address: Seq<char>) -> Seq<char> {
    "{\"kshs_address\":"@ + quoted(address) + "}"@
}

/// What a worker sends first: the address that its earnings go to.
pub fn registration_text(address: &str) -> (out: String)
    ensures
        out@ == registration_message(address@),
{
    let members: Vec<(&str, &str)> = vec![("kshs_address", address)];
    proof {
        reveal_strlit("kshs_address");
        reveal_strlit("{\"kshs_address\":");
        reveal_strlit("}");
        lemma_plain("kshs_address"@);
    }
    let out: String = object_text(members);
    assert(out@ =~= registration_message(address@));
    out
}

/// The answer to a ping.
pub fn pong_text() -> (out: String)
    ensures
        out@ == "{\"action\":\"pong\"}"@,
{
    let members: Vec<(&str, &str)> = vec![("action", "pong")];
    proof {
        reveal_strlit("action");
        reveal_strlit("pong");
        reveal_strlit("{\"action\":\"pong\"}");
        lemma_plain("action"@);
        lemma_plain("pong"@);
    }
    let out: String = object_text(members);
    assert(out@ =~= "{\"action\":\"pong\"}"@);
    out
}

/// The result message for a block and its work.
pub open spec fn result_message(hash: Seq<char>, work: Seq<char>) -> Seq<char> {
    "{\"hash\":"@ + quoted(hash) + ",\"work\":"@ + quoted(work) + "}"@
}

/// The result that is sent back for a block.
pub fn result_text(hash: &str, work: &str) -> (out: String)
    ensures
        out@ == result_message(hash@, work@),
{
    let members: Vec<(&str, &str)> = vec![("hash", hash), ("work", work)];
    proof {
        reveal_strlit("hash");
        reveal_strlit("work");
        reveal_strlit("{\"hash\":");
        reveal_strlit(",\"work\":");
        reveal_strlit("}");
        lemma_plain("hash"@);
        lemma_plain("work"@);
        assert(members@.drop_last() =~= seq![("hash", hash)]);
        assert(members_text(members@.drop_last()) == quoted("hash"@) + seq![':'] + quoted(hash@));
    }
    let out: String = object_text(members);
    assert(out@ =~= result_message(hash@, work@));
    out
}

/// The two digits of an escaped control character tell which it is.
proof fn lemma_same_digits(a: char, b: char)
    requires
        a as int <= 0x1f,
        b as int <= 0x1f,
        hex_digit(a as int / 16) == hex_digit(b as int / 16),
        hex_digit(a as int % 16) == hex_digit(b as int % 16),
    ensures
        a == b,
{
    assert(hex_value(hex_digit(a as int / 16)) == a as int / 16);
    assert(hex_value(hex_digit(b as int / 16)) == b as int / 16);
    assert(hex_value(hex_digit(a as int % 16)) == a as int % 16);
    assert(hex_value(hex_digit(b as int % 16)) == b as int % 16);
}

/// Inside a string, text and what follows the closing quote can be told apart.
proof fn lemma_string_ends_once(a: Seq<char>, b: Seq<char>, x: Seq<char>, y: Seq<char>)
    requires
        escaped(a) + seq!['"'] + x == escaped(b) + seq!['"'] + y,
    ensures
        a == b,
        x == y,
    decreases a.len(),
{
    let left = escaped(a) + seq!['"'] + x;
    let right = escaped(b) + seq!['"'] + y;
    if a.len() == 0 {
        assert(left[0] == '"');
        if b.len() > 0 {
            assert(right[0] == escaped_char(b[0])[0]);
            assert(false);
        }
        assert(a =~= b);
        assert(left.skip(1) =~= x);
        assert(right.skip(1) =~= y);
    } else if b.len() == 0 {
        assert(right[0] == '"');
        assert(left[0] == escaped_char(a[0])[0]);
        assert(false);
    } else {
        let ea = escaped_char(a[0]);
        let eb = escaped_char(b[0]);
        assert forall|i: int| 0 <= i < ea.len() implies left[i] == #[trigger] ea[i] by {}
        assert forall|i: int| 0 <= i < eb.len() implies right[i] == #[trigger] eb[i] by {}
        assert(left[0] == ea[0] && right[0] == eb[0]);
        if ea[0] == '\\' {
            assert(left[1] == ea[1] && right[1] == eb[1]);
            if ea[1] == 'u' {
                assert(left[4] == ea[4] && right[4] == eb[4]);
                assert(left[5] == ea[5] && right[5] == eb[5]);
                lemma_same_digits(a[0], b[0]);
            }
        }
        assert(a[0] == b[0]);
        let n = ea.len() as int;
        assert(left.skip(n) =~= escaped(a.skip(1)) + seq!['"'] + x);
        assert(right.skip(n) =~= escaped(b.skip(1)) + seq!['"'] + y);
        lemma_string_ends_once(a.skip(1), b.skip(1), x, y);
        assert(a =~= seq![a[0]] + a.skip(1));
        assert(b =~= seq![b[0]] + b.skip(1));
    }
}

/// A registration determines the address, whatever characters it holds: nobody is paid for
/// another's work.
pub proof fn law_registration_loses_nothing(address: Seq<char>, other: Seq<char>)
    requires
        registration_message(address) == registration_message(other),
    ensures
        address == other,
{
    reveal_strlit("{\"kshs_address\":");
    reveal_strlit("}");
    let n = "{\"kshs_address\":"@.len() as int + 1;
    assert(registration_message(address).skip(n) =~= escaped(address) + seq!['"'] + "}"@);
    assert(registration_message(other).skip(n) =~= escaped(other) + seq!['"'] + "}"@);
    lemma_string_ends_once(address, other, "}"@, "}"@);
}

/// A result message determines both the block and the work, whatever characters they hold.
pub proof fn law_result_loses_nothing(
    hash: Seq<char>,
    work: Seq<char>,
    other_hash: Seq<char>,
    other_work: Seq<char>,
)
    requires
        result_message(hash, work) == result_message(other_hash, other_work),
    ensures
        hash == other_hash,
        work == other_work,
{
    reveal_strlit("{\"hash\":");
    reveal_strlit(",\"work\":");
    reveal_strlit("}");
    let n = "{\"hash\":"@.len() as int + 1;
    let x = ",\"work\":"@ + quoted(work) + "}"@;
    let y = ",\"work\":"@ + quoted(other_work) + "}"@;
    assert(result_message(hash, work).skip(n) =~= escaped(hash) + seq!['"'] + x);
    assert(result_message(other_hash, other_work).skip(n) =~= escaped(other_hash) + seq!['"'] + y);
    lemma_string_ends_once(hash, other_hash, x, y);
    let m = ",\"work\":"@.len() as int + 1;
    assert(x.skip(m) =~= escaped(work) + seq!['"'] + "}"@);
    assert(y.skip(m) =~= escaped(other_work) + seq!['"'] + "}"@);
    lemma_string_ends_once(work, other_work, "}"@, "}"@);
}

/// What has to be escaped, and how: quotes and backslashes, five control characters by a letter,
/// the other control characters by number. Everything else stands for itself.
pub proof fn law_escapes(c: char)
    ensures
        escaped(seq!['"']) == "\\\""@,
        escaped(seq!['\\']) == "\\\\"@,
        escaped(seq!['\u{8}']) == "\\b"@,
        escaped(seq!['\t']) == "\\t"@,
        escaped(seq!['\n']) == "\\n"@,
        escaped(seq!['\u{c}']) == "\\f"@,
        escaped(seq!['\r']) == "\\r"@,
        c as int <= 0x1f && c != '\u{8}' && c != '\t' && c != '\n' && c != '\u{c}' && c != '\r'
            ==> escaped(seq![c]) == "\\u00"@.push("0123456789abcdef"@[c as int / 16]).push(
            "0123456789abcdef"@[c as int % 16],
        ),
        c as int > 0x1f && c != '"' && c != '\\' ==> escaped(seq![c]) == seq![c],
{
    reveal_strlit("\\\"");
    reveal_strlit("\\\\");
    reveal_strlit("\\b");
    reveal_strlit("\\t");
    reveal_strlit("\\n");
    reveal_strlit("\\f");
    reveal_strlit("\\r");
    reveal_strlit("\\u00");
    lemma_escaped_one('"');
    lemma_escaped_one('\\');
    lemma_escaped_one('\u{8}');
    lemma_escaped_one('\t');
    lemma_escaped_one('\n');
    lemma_escaped_one('\u{c}');
    lemma_escaped_one('\r');
    lemma_escaped_one(c);
    if c as int <= 0x1f {
        law_hex_digits(c as int / 16, c);
        law_hex_digits(c as int % 16, c);
    }
}

/// Text is escaped character by character.
proof fn lemma_escaped_one(c: char)
    ensures
        escaped(seq![c]) == escaped_char(c),
{
    assert(seq![c].skip(1) =~= seq![]);
    assert(escaped(seq![c].skip(1)) =~= seq![]);
    assert(escaped(seq![c]) == escaped_char(c) + escaped(seq![c].skip(1)));
}

/// Text is escaped piece by piece: nothing depends on what comes before or after.
pub proof fn law_escaping_goes_piece_by_piece(a: Seq<char>, b: Seq<char>)
    ensures
        escaped(a + b) == escaped(a) + escaped(b),
    decreases a.len(),
{
    if a.len() == 0 {
        assert(a + b =~= b);
    } else {
        law_escaping_goes_piece_by_piece(a.skip(1), b);
        assert((a + b).skip(1) =~= a.skip(1) + b);
    }
}

/// A registration is an object with one member, the address; one without anything to escape
/// stands in it as it is.
pub proof fn law_registration_holds_the_address(address: Seq<char>)
    ensures
        registration_message(address) == "{\"kshs_address\":\""@ + escaped(address) + "\"}"@,
        (forall|i: int|
            0 <= i < address.len() ==> #[trigger] address[i] as int > 0x1f && address[i] != '"'
                && address[i] != '\\') ==> registration_message(address)
            == "{\"kshs_address\":\""@ + address + "\"}"@,
{
    reveal_strlit("{\"kshs_address\":");
    reveal_strlit("{\"kshs_address\":\"");
    reveal_strlit("}");
    reveal_strlit("\"}");
    if forall|i: int|
        0 <= i < address.len() ==> #[trigger] address[i] as int > 0x1f && address[i] != '"'
            && address[i] != '\\' {
        lemma_plain(address);
    }
}

/// A result is an object with two members, the block and the work.
pub proof fn law_result_holds_block_and_work(hash: Seq<char>, work: Seq<char>)
    ensures
        result_message(hash, work) == "{\"hash\":\""@ + escaped(hash) + "\",\"work\":\""@ + escaped(
            work,
        ) + "\"}"@,
{
    reveal_strlit("{\"hash\":");
    reveal_strlit("{\"hash\":\"");
    reveal_strlit(",\"work\":");
    reveal_strlit("\",\"work\":\"");
    reveal_strlit("}");
    reveal_strlit("\"}");
}

/// Text without quotes, backslashes and control characters is not changed.
pub proof fn law_plain_text_stands_for_itself(s: Seq<char>)
    requires
        forall|i: int|
            0 <= i < s.len() ==> #[trigger] s[i] as int > 0x1f && s[i] != '"' && s[i] != '\\',
    ensures
        escaped(s) == s,
{
    lemma_plain(s);
}

} // verus!
