//! Freshly generated identifiers.
use vstd::prelude::*;
use crate::text::{cat, chars_of, string_of};

verus! {

/// A lower-case hexadecimal digit.
pub open spec fn is_hex_digit(c: char) -> bool {
    '0' <= c <= '9' || 'a' <= c <= 'f'
}

/// The shape of a version 4 UUID without hyphens: 32 hexadecimal digits, with the version digit
/// at position 12 and the variant digit at position 16.
pub open spec fn is_simple_uuid(s: Seq<char>) -> bool {
    &&& s.len() == 32
    &&& forall|i: int| 0 <= i < s.len() ==> is_hex_digit(#[trigger] s[i])
    &&& s[12] == '4'
    &&& (s[16] == '8' || s[16] == '9' || s[16] == 'a' || s[16] == 'b')
}

/// The shape of a version 4 UUID with hyphens.
pub open spec fn is_hyphenated_uuid(s: Seq<char>) -> bool {
    &&& s.len() == 36
    &&& forall|i: int|
        0 <= i < s.len() ==> if i == 8 || i == 13 || i == 18 || i == 23 {
            s[i] == '-'
        } else {
            is_hex_digit(#[trigger] s[i])
        }
    &&& s[14] == '4'
    &&& (s[19] == '8' || s[19] == '9' || s[19] == 'a' || s[19] == 'b')
}

/// `uuid::Uuid::new_v4` printed by `simple`. The claim: the text has the shape of a version 4
/// UUID. Which of those it is depends on chance.
#[verifier::external_body]
fn uuid_simple() -> (r: String)
    ensures
        is_simple_uuid(r@),
{
    uuid::Uuid::new_v4().simple().to_string()
}

/// `uuid::Uuid::new_v4` printed by its `Display`. The claim: the text has the shape of a
/// hyphenated version 4 UUID. Which of those it is depends on chance.
#[verifier::external_body]
fn uuid_hyphenated() -> (r: String)
    ensures
        is_hyphenated_uuid(r@),
{
    uuid::Uuid::new_v4().to_string()
}

/// A new identifier for a stored record, or a new secret for a backend.
pub fn generate_record_id() -> (r: String)
    ensures
        is_hyphenated_uuid(r@),
{
    uuid_hyphenated()
}

/// `prefix` and the first 24 digits of a UUID.
pub open spec fn is_short_id(s: Seq<char>, prefix: Seq<char>) -> bool {
    exists|u: Seq<char>| #[trigger] is_simple_uuid(u) && s == prefix + u.take(24)
}

/// A new identifier that begins with `prefix`.
fn short_id(prefix: &str) -> (r: String)
    ensures
        is_short_id(r@, prefix@),
{
    let u = uuid_simple();
    let v = chars_of(&u);
    let head = string_of(vstd::slice::slice_subrange(v.as_slice(), 0, 24));
    assert(u@.subrange(0, 24) =~= u@.take(24));
    cat(prefix, &head)
}

/// Whether `s` is an identifier of a message.
pub open spec fn is_message_id(s: Seq<char>) -> bool {
    is_short_id(s, "msg_"@)
}

/// Whether `s` is an identifier of a tool use.
pub open spec fn is_tool_use_id(s: Seq<char>) -> bool {
    is_short_id(s, "toolu_"@)
}

/// A new message identifier.
pub fn generate_message_id() -> (r: String)
    ensures
        is_message_id(r@),
{
    short_id("msg_")
}

/// A new tool use identifier.
pub fn generate_tool_use_id() -> (r: String)
    ensures
        is_tool_use_id(r@),
{
    short_id("toolu_")
}

/// Identifiers of messages and of tool uses are told apart by how they begin; behind that stand
/// twenty-four hexadecimal digits.
pub proof fn law_identifiers(s: Seq<char>, i: int)
    ensures
        is_message_id(s) ==> s.len() == 28 && s.take(4) == "msg_"@,
        is_tool_use_id(s) ==> s.len() == 30 && s.take(6) == "toolu_"@,
        is_message_id(s) && 4 <= i < 28 ==> is_hex_digit(s[i]),
        is_tool_use_id(s) && 6 <= i < 30 ==> is_hex_digit(s[i]),
{
    reveal_strlit("msg_");
    reveal_strlit("toolu_");
    if is_message_id(s) {
        let u = choose|u: Seq<char>| #[trigger] is_simple_uuid(u) && s == "msg_"@ + u.take(24);
        assert(s.take(4) =~= "msg_"@);
        if 4 <= i < 28 {
            assert(s[i] == u[i - 4]);
        }
    }
    if is_tool_use_id(s) {
        let u = choose|u: Seq<char>| #[trigger] is_simple_uuid(u) && s == "toolu_"@ + u.take(24);
        assert(s.take(6) =~= "toolu_"@);
        if 6 <= i < 30 {
            assert(s[i] == u[i - 6]);
        }
    }
}

} // verus!
