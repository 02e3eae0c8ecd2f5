//! JSON text, read and written by `serde_json`.

use crate::quantity::Quantity;
use vstd::prelude::*;

verus! {

/// What one member of a JSON object holds, as a reader sees it.
pub enum Parsed {
    Text(Seq<char>),
    /// A number: its value as an unsigned integer, where it is one that fits, and
    /// its value as a binary64.
    Number(Option<u64>, Quantity),
    Flag(bool),
    /// Null, a list or an object.
    Other,
}

/// What one member of a JSON object holds, as a writer sets it.
pub enum Member {
    Text(Seq<char>),
    Count(u64),
    Flag(bool),
    Number(Quantity),
}

/// A value that `serde_json` has read.
#[verifier::external_type_specification]
#[verifier::external_body]
pub struct ExValue(serde_json::Value);

/// An object under construction, by its keys.
#[verifier::external_type_specification]
#[verifier::external_body]
#[verifier::reject_recursive_types(K)]
#[verifier::reject_recursive_types(V)]
pub struct ExObject<K, V>(serde_json::Map<K, V>);

/// The members of the object that `text` writes down; none where it writes down
/// another kind of value; `None` where it is no JSON.
pub uninterp spec fn text_members(text: Seq<char>) -> Option<Map<Seq<char>, Parsed>>;

/// The members of a value that was read; none where it is no object.
pub uninterp spec fn value_members(value: serde_json::Value) -> Map<Seq<char>, Parsed>;

/// The members of an object under construction.
pub uninterp spec fn object_members(
    object: serde_json::Map<String, serde_json::Value>,
) -> Map<Seq<char>, Member>;

/// The text of the object with these members.
pub uninterp spec fn object_text(members: Map<Seq<char>, Member>) -> Seq<char>;

/// The text that the member `key` holds, if it holds a text.
pub open spec fn text_of(members: Map<Seq<char>, Parsed>, key: Seq<char>) -> Option<Seq<char>> {
    if members.contains_key(key) {
        match members[key] {
            Parsed::Text(text) => Some(text),
            _ => None,
        }
    } else {
        None
    }
}

/// The unsigned integer that the member `key` holds, if it holds one.
pub open spec fn count_of(members: Map<Seq<char>, Parsed>, key: Seq<char>) -> Option<u64> {
    if members.contains_key(key) {
        match members[key] {
            Parsed::Number(whole, _) => whole,
            _ => None,
        }
    } else {
        None
    }
}

/// The number that the member `key` holds, if it holds one.
pub open spec fn number_of(members: Map<Seq<char>, Parsed>, key: Seq<char>) -> Option<Quantity> {
    if members.contains_key(key) {
        match members[key] {
            Parsed::Number(_, value) => Some(value),
            _ => None,
        }
    } else {
        None
    }
}

/// The truth value that the member `key` holds, if it holds one.
pub open spec fn flag_of(members: Map<Seq<char>, Parsed>, key: Seq<char>) -> Option<bool> {
    if members.contains_key(key) {
        match members[key] {
            Parsed::Flag(flag) => Some(flag),
            _ => None,
        }
    } else {
        None
    }
}

/// No member at all.
pub open spec fn no_members() -> Map<Seq<char>, Member> {
    Map::empty()
}

/// The number, if there is one, compares with others.
pub open spec fn comparable(number: Option<Quantity>) -> bool {
    number matches Some(value) ==> !value.nan()
}

/// A reader of what was written with `written` sees the same texts, unsigned
/// integers and truth values under the same keys. What binary64 a reader sees for
/// an unsigned integer is left open.
pub open spec fn read_back(
    written: Map<Seq<char>, Member>,
    read: Map<Seq<char>, Parsed>,
) -> bool {
    &&& read.dom() == written.dom()
    &&& forall|key: Seq<char>| #[trigger] written.contains_key(key) ==> match written[key] {
        Member::Text(text) => read[key] == Parsed::Text(text),
        Member::Count(count) => read[key] matches Parsed::Number(whole, _) && whole == Some(count),
        Member::Flag(flag) => read[key] == Parsed::Flag(flag),
        Member::Number(_) => true,
    }
}

/// A reader sees everything that was written with `written`, the binary64 numbers among it.
pub open spec fn faithful(
    written: Map<Seq<char>, Member>,
    read: Map<Seq<char>, Parsed>,
) -> bool {
    &&& read_back(written, read)
    &&& forall|key: Seq<char>| #[trigger] written.contains_key(key) ==> match written[key] {
        Member::Number(number) => read[key] matches Parsed::Number(_, value) && value == number,
        _ => true,
    }
}

/// `serde_json::from_str` into a `serde_json::Value`: fails on a text that is no
/// JSON, and what it reads is a function of the text.
#[verifier::external_body]
pub(crate) fn parse(text: &str) -> (r: Option<serde_json::Value>)
    ensures
        match r {
            Some(value) => text_members(text@) == Some(value_members(value)),
            None => text_members(text@) is None,
        },
{
    serde_json::from_str::<serde_json::Value>(text).ok()
}

/// `serde_json::Value::get` and `as_str`: the text under `key`, where the value is
/// an object whose member `key` is a string.
#[verifier::external_body]
pub(crate) fn text_member(value: &serde_json::Value, key: &str) -> (r: Option<String>)
    ensures
        match r {
            Some(text) => text_of(value_members(*value), key@) == Some(text@),
            None => text_of(value_members(*value), key@) is None,
        },
{
    value.get(key).and_then(|v| v.as_str()).map(|s| s.to_string())
}

/// `serde_json::Value::get` and `as_u64`: the number under `key`, where the value is
/// an object whose member `key` is an integer from 0 to the largest `u64`.
#[verifier::external_body]
pub(crate) fn count_member(value: &serde_json::Value, key: &str) -> (r: Option<u64>)
    ensures
        r == count_of(value_members(*value), key@),
{
    value.get(key).and_then(|v| v.as_u64())
}

/// `serde_json::Value::get` and `as_f64`: the number under `key`, where the value is
/// an object whose member `key` is a number. A number of JSON is finite.
#[verifier::external_body]
pub(crate) fn number_member(value: &serde_json::Value, key: &str) -> (r: Option<Quantity>)
    ensures
        r == number_of(value_members(*value), key@),
        comparable(r),
{
    value.get(key).and_then(|v| v.as_f64()).map(|x| Quantity { bits: x.to_bits() })
}

/// `serde_json::Value::get` and `as_bool`: the truth value under `key`, where the value is
/// an object whose member `key` is one.
#[verifier::external_body]
pub(crate) fn flag_member(value: &serde_json::Value, key: &str) -> (r: Option<bool>)
    ensures
        r == flag_of(value_members(*value), key@),
{
    value.get(key).and_then(|v| v.as_bool())
}

/// `serde_json::Map::new`: an object without members.
#[verifier::external_body]
pub(crate) fn empty_object() -> (r: serde_json::Map<String, serde_json::Value>)
    ensures
        object_members(r) == no_members(),
{
    serde_json::Map::new()
}

/// `serde_json::Map::insert` of a string: sets the member `key`, in place of one that
/// was there.
#[verifier::external_body]
pub(crate) fn insert_text(
    object: &mut serde_json::Map<String, serde_json::Value>,
    key: &str,
    text: &str,
)
    ensures
        object_members(*final(object)) == object_members(*old(object)).insert(
            key@,
            Member::Text(text@),
        ),
{
    object.insert(key.to_string(), serde_json::Value::from(text));
}

/// `serde_json::Map::insert` of an unsigned integer: sets the member `key`, in place
/// of one that was there.
#[verifier::external_body]
pub(crate) fn insert_count(
    object: &mut serde_json::Map<String, serde_json::Value>,
    key: &str,
    count: u64,
)
    ensures
        object_members(*final(object)) == object_members(*old(object)).insert(
            key@,
            Member::Count(count),
        ),
{
    object.insert(key.to_string(), serde_json::Value::from(count));
}

/// `serde_json::Map::insert` of a truth value: sets the member `key`, in place of one
/// that was there.
#[verifier::external_body]
pub(crate) fn insert_flag(
    object: &mut serde_json::Map<String, serde_json::Value>,
    key: &str,
    flag: bool,
)
    ensures
        object_members(*final(object)) == object_members(*old(object)).insert(
            key@,
            Member::Flag(flag),
        ),
{
    object.insert(key.to_string(), serde_json::Value::from(flag));
}

/// `serde_json::Value::to_string` of an object: its text is a function of its
/// members, and `serde_json` reads the members back out of it. No key is special to the reader:
/// the features `raw_value` and `arbitrary_precision` of `serde_json`, each of which reserves
/// one, are off.
#[verifier::external_body]
pub(crate) fn render(object: serde_json::Map<String, serde_json::Value>) -> (r: String)
    ensures
        r@ == object_text(object_members(object)),
        text_members(r@) is Some,
        read_back(object_members(object), text_members(r@)->0),
{
    serde_json::Value::Object(object).to_string()
}

/// A member is found under its key and nowhere else, and only as what it is.
pub proof fn members_are_looked_up(
    members: Map<Seq<char>, Parsed>,
    key: Seq<char>,
    text: Seq<char>,
    count: u64,
    number: Quantity,
    flag: bool,
)
    ensures
        text_of(members, key) == Some(text) <==> members.contains_key(key) && members[key]
            == Parsed::Text(text),
        count_of(members, key) == Some(count) <==> {
            &&& members.contains_key(key)
            &&& members[key] matches Parsed::Number(whole, _)
            &&& whole == Some(count)
        },
        number_of(members, key) == Some(number) <==> {
            &&& members.contains_key(key)
            &&& members[key] matches Parsed::Number(_, value)
            &&& value == number
        },
        flag_of(members, key) == Some(flag) <==> members.contains_key(key) && members[key]
            == Parsed::Flag(flag),
{
}

/// Nothing is found under a key that is not there.
pub proof fn missing_members_are_not_found(members: Map<Seq<char>, Parsed>, key: Seq<char>)
    requires
        !members.contains_key(key),
    ensures
        text_of(members, key) is None,
        count_of(members, key) is None,
        number_of(members, key) is None,
        flag_of(members, key) is None,
{
}

} // verus!
