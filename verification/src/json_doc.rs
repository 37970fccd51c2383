//! JSON documents built with the `json` crate, and what their text is.
//!
//! `JsonValue` is opaque to the verifier.  Two names describe it: the text
//! that `json::stringify` writes for a value, and, for an object, its members
//! (each key with the text of its value) in the order in which they are
//! written out.  The wrappers below state what each call of the crate does to
//! these two, as the crate's source (version 0.12) shows it.
use json::JsonValue;
use vstd::prelude::*;

verus! {

#[verifier::external_type_specification]
#[verifier::external_body]
pub struct ExJsonValue(JsonValue);

/// The text that `json::stringify` writes for the value.
pub uninterp spec fn json_text(v: JsonValue) -> Seq<char>;

/// The members that a JSON object holds, in the order in which they are
/// written out: each key with the text of its value.
pub uninterp spec fn json_members(v: JsonValue) -> Seq<(Seq<char>, Seq<char>)>;

/// A digit in lower-case hexadecimal.
pub open spec fn hex_digit(n: nat) -> char {
    seq!['0', '1', '2', '3', '4', '5', '6', '7', '8', '9', 'a', 'b', 'c', 'd', 'e', 'f'][n as int]
}

/// How a character stands inside a JSON string: the quote, the backslash and
/// the control characters are escaped, everything else stands as it is.
pub open spec fn json_escaped_char(c: char) -> Seq<char> {
    if c == '"' {
        seq!['\\', '"']
    } else if c == '\\' {
        seq!['\\', '\\']
    } else if c == '\u{8}' {
        seq!['\\', 'b']
    } else if c == '\t' {
        seq!['\\', 't']
    } else if c == '\n' {
        seq!['\\', 'n']
    } else if c == '\u{c}' {
        seq!['\\', 'f']
    } else if c == '\r' {
        seq!['\\', 'r']
    } else if (c as nat) < 32 {
        seq!['\\', 'u', '0', '0', hex_digit((c as nat) / 16), hex_digit((c as nat) % 16)]
    } else {
        seq![c]
    }
}

/// The JSON text of a string: its escaped characters between quotes.
pub open spec fn json_string_text(s: Seq<char>) -> Seq<char> {
    seq!['"'] + json_escaped(s) + seq!['"']
}

/// The escaped characters of a string, one after the other.
pub open spec fn json_escaped(s: Seq<char>) -> Seq<char> {
    s.flat_map(|c: char| json_escaped_char(c))
}

/// The JSON text of a non-negative integer: its decimal digits.
pub open spec fn json_decimal_text(n: nat) -> Seq<char>
    decreases n,
{
    if n < 10 {
        seq![hex_digit(n)]
    } else {
        json_decimal_text(n / 10) + seq![hex_digit(n % 10)]
    }
}

/// One member of an object as it is written: the key, a colon, the value.
pub open spec fn json_member_text(m: (Seq<char>, Seq<char>)) -> Seq<char> {
    json_string_text(m.0) + seq![':'] + m.1
}

/// The members of an object written one after the other, separated by commas.
pub open spec fn json_members_text(ms: Seq<(Seq<char>, Seq<char>)>) -> Seq<char>
    decreases ms.len(),
{
    if ms.len() == 0 {
        Seq::empty()
    } else if ms.len() == 1 {
        json_member_text(ms[0])
    } else {
        json_members_text(ms.drop_last()) + seq![','] + json_member_text(ms.last())
    }
}

/// The JSON text of an object with the given members.
pub open spec fn json_object_text(ms: Seq<(Seq<char>, Seq<char>)>) -> Seq<char> {
    seq!['{'] + json_members_text(ms) + seq!['}']
}

/// The value is an object: its text is that of its members between braces
/// (no other kind of JSON value has a text that starts with a brace).
pub open spec fn json_is_object(v: JsonValue) -> bool {
    json_text(v) == json_object_text(json_members(v))
}

/// The members have the key.
pub open spec fn json_has_key(ms: Seq<(Seq<char>, Seq<char>)>, key: Seq<char>) -> bool {
    exists|i: int| 0 <= i < ms.len() && #[trigger] ms[i].0 == key
}

/// Where a member with the key stands, among members that have it.
pub open spec fn json_key_position(ms: Seq<(Seq<char>, Seq<char>)>, key: Seq<char>) -> int {
    choose|i: int| 0 <= i < ms.len() && #[trigger] ms[i].0 == key
}

/// The members after an insertion of `key` with the value text `text`: an
/// existing member with that key gets the new value where it stands, else the
/// member is added at the end.
pub open spec fn json_member_insert(
    ms: Seq<(Seq<char>, Seq<char>)>,
    key: Seq<char>,
    text: Seq<char>,
) -> Seq<(Seq<char>, Seq<char>)> {
    if json_has_key(ms, key) {
        ms.update(json_key_position(ms, key), (key, text))
    } else {
        ms.push((key, text))
    }
}

/// `JsonValue::new_object`: an object without members.
#[verifier::external_body]
pub(crate) fn json_new_object() -> (v: JsonValue)
    ensures
        json_members(v) == Seq::<(Seq<char>, Seq<char>)>::empty(),
        json_is_object(v),
{
    JsonValue::new_object()
}

/// `JsonValue::insert` on an object: the member with the key gets the value
/// (see `json_member_insert`), and the value stays an object.  On an object
/// the crate's `insert` cannot fail.
#[verifier::external_body]
pub(crate) fn json_insert(obj: &mut JsonValue, key: &str, value: JsonValue)
    requires
        json_is_object(*old(obj)),
    ensures
        json_is_object(*final(obj)),
        json_members(*final(obj)) == json_member_insert(
            json_members(*old(obj)),
            key@,
            json_text(value),
        ),
{
    let _ = obj.insert(key, value);
}

/// `JsonValue::from(&str)`: a JSON string, written with its escaped
/// characters between quotes.
#[verifier::external_body]
pub(crate) fn json_from_str(s: &str) -> (v: JsonValue)
    ensures
        json_text(v) == json_string_text(s@),
{
    JsonValue::from(s)
}

/// `JsonValue::from(u8)`: a JSON number, written as its decimal digits.
#[verifier::external_body]
pub(crate) fn json_from_u8(n: u8) -> (v: JsonValue)
    ensures
        json_text(v) == json_decimal_text(n as nat),
{
    JsonValue::from(n)
}

/// `json::stringify`: the compact text of the value.
#[verifier::external_body]
pub(crate) fn json_stringify(v: JsonValue) -> (s: String)
    ensures
        s@ == json_text(v),
{
    json::stringify(v)
}

/// An insertion leaves the key with the inserted value, keeps every member
/// with another key where it stands, and loses no member.
pub proof fn lemma_member_insert(ms: Seq<(Seq<char>, Seq<char>)>, key: Seq<char>, text: Seq<char>)
    ensures
        json_member_insert(ms, key, text).len() >= ms.len(),
        exists|m: int|
            0 <= m < json_member_insert(ms, key, text).len() && #[trigger] json_member_insert(
                ms,
                key,
                text,
            )[m] == (key, text),
        forall|m: int|
            0 <= m < ms.len() && (#[trigger] ms[m]).0 != key ==> json_member_insert(ms, key, text)[m]
                == ms[m],
{
    let r = json_member_insert(ms, key, text);
    if json_has_key(ms, key) {
        let i = json_key_position(ms, key);
        assert(r[i] == (key, text));
    } else {
        assert(r[ms.len() as int] == (key, text));
    }
}

/// A character that stands in a JSON string as it is.
pub open spec fn json_plain_char(c: char) -> bool {
    c != '"' && c != '\\' && (c as nat) >= 32
}

/// Escaping keeps every character of a string, in order: each character
/// gives at least one, and a plain one gives itself.
pub proof fn lemma_escaped(s: Seq<char>)
    ensures
        json_escaped(s).len() >= s.len(),
        (forall|i: int| 0 <= i < s.len() ==> json_plain_char(#[trigger] s[i])) ==> json_escaped(s) == s,
    decreases s.len(),
{
    let f = |c: char| json_escaped_char(c);
    if s.len() > 0 {
        let prev = s.drop_last();
        lemma_escaped(prev);
        prev.lemma_flat_map_push(f, s.last());
        assert(prev.push(s.last()) =~= s);
        assert(json_escaped(s) == json_escaped(prev) + json_escaped_char(s.last()));
        if forall|i: int| 0 <= i < s.len() ==> json_plain_char(#[trigger] s[i]) {
            assert forall|i: int| 0 <= i < prev.len() implies json_plain_char(#[trigger] prev[i]) by {
                assert(prev[i] == s[i]);
            }
            assert(json_plain_char(s[s.len() - 1]));
            assert(json_escaped(s) =~= prev + seq![s.last()]);
        }
    } else {
        assert(s.map_values(f) =~= Seq::<Seq<char>>::empty());
        assert(json_escaped(s) =~= Seq::<char>::empty());
    }
}

/// The text of a string is its escaped characters between two quotes, so at
/// least two longer than the string; a string of plain characters stands
/// between the quotes exactly as it is.
pub proof fn law_string_text(s: Seq<char>)
    ensures
        json_string_text(s).len() >= s.len() + 2,
        json_string_text(s)[0] == '"',
        json_string_text(s).last() == '"',
        (forall|i: int| 0 <= i < s.len() ==> json_plain_char(#[trigger] s[i])) ==> json_string_text(s)
            == seq!['"'] + s + seq!['"'],
{
    lemma_escaped(s);
}

/// `piece` stands in `text` from `off` on.
pub open spec fn occurs_at(text: Seq<char>, off: int, piece: Seq<char>) -> bool {
    0 <= off && off + piece.len() <= text.len() && text.subrange(off, off + piece.len()) == piece
}

/// Where the text of member `i` starts in the text of the members.
pub open spec fn member_offset(ms: Seq<(Seq<char>, Seq<char>)>, i: int) -> int
    decreases ms.len(),
{
    if ms.len() <= 1 {
        0
    } else if i == ms.len() - 1 {
        json_members_text(ms.drop_last()).len() + 1int
    } else {
        member_offset(ms.drop_last(), i)
    }
}

/// The text of an object holds the text of each of its members, whole,
/// between its braces.
pub proof fn law_object_holds_members(ms: Seq<(Seq<char>, Seq<char>)>)
    ensures
        forall|i: int|
            0 <= i < ms.len() ==> occurs_at(
                json_members_text(ms),
                member_offset(ms, i),
                json_member_text(#[trigger] ms[i]),
            ),
        json_object_text(ms).len() == json_members_text(ms).len() + 2,
        json_object_text(ms).subrange(1, json_object_text(ms).len() - 1) == json_members_text(ms),
    decreases ms.len(),
{
    let t = json_members_text(ms);
    assert(json_object_text(ms).subrange(1, json_object_text(ms).len() - 1) =~= t);
    if ms.len() > 0 {
        let prev = ms.drop_last();
        law_object_holds_members(prev);
        let tp = json_members_text(prev);
        let last = json_member_text(ms.last());
        assert forall|i: int| 0 <= i < ms.len() implies occurs_at(
            t,
            member_offset(ms, i),
            json_member_text(#[trigger] ms[i]),
        ) by {
            let mt = json_member_text(ms[i]);
            if ms.len() == 1 {
                assert(t.subrange(0, mt.len() as int) =~= mt);
            } else if i < ms.len() - 1 {
                assert(prev[i] == ms[i]);
                let off = member_offset(prev, i);
                assert(occurs_at(tp, off, json_member_text(prev[i])));
                assert(t == tp + seq![','] + last);
                assert(t.subrange(off, off + mt.len()) =~= tp.subrange(off, off + mt.len()));
            } else {
                assert(t == tp + seq![','] + last);
                assert(ms[i] == ms.last());
                assert(t.subrange(tp.len() + 1int, tp.len() + 1int + mt.len()) =~= last);
            }
        }
    }
}

/// Small numbers are written as their digit: quality of service 2 is `2`.
pub proof fn law_decimal_digit(n: nat)
    requires
        n < 10,
    ensures
        json_decimal_text(n) == seq![hex_digit(n)],
        json_decimal_text(2) == seq!['2'],
{
}

} // verus!
