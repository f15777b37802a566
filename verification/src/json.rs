//! Reading the PipeWire graph and its updates as JSON.
//!
//! What `pw-dump` prints is an array that may hold other values beside the objects of the
//! graph, so it is read as an array of any values first.

use vstd::prelude::*;

verus! {

/// The value type of `serde_json`, carried through as it is.
#[verifier::external_type_specification]
#[verifier::external_body]
pub struct ExJsonValue(serde_json::Value);

/// The error type of `serde_json`, carried through as it is.
#[verifier::external_type_specification]
#[verifier::external_body]
pub struct ExJsonError(serde_json::Error);

/// The values that `serde_json::from_str` reads from a text that is a JSON array.
/// Any other text has none.
pub uninterp spec fn json_array(text: Seq<char>) -> Option<Seq<serde_json::Value>>;

/// The values that `serde_json::from_slice` reads from bytes that are a JSON
/// array. Any other bytes have none.
pub uninterp spec fn json_array_in(bytes: Seq<u8>) -> Option<Seq<serde_json::Value>>;

/// Whether `serde_json::Value::is_object` holds of a value.
pub uninterp spec fn json_object(value: serde_json::Value) -> bool;

/// The objects among some values.
pub open spec fn objects(values: Seq<serde_json::Value>) -> Seq<serde_json::Value> {
    values.filter(|value: serde_json::Value| json_object(value))
}

/// `serde_json::from_str`, for an array of any values: the values of the array,
/// or an error where the text is no JSON array. Which values stand in the array
/// is left to the crate; the same text always gives the same ones.
#[verifier::external_body]
fn parse_array(text: &str) -> (r: Result<Vec<serde_json::Value>, serde_json::Error>)
    ensures
        match r {
            Ok(values) => json_array(text@) == Some(values@),
            Err(_) => json_array(text@) is None,
        },
{
    serde_json::from_str(text)
}

/// `serde_json::from_slice`, for an array of any values: the values of the array,
/// or an error where the bytes are no JSON array. Which values stand in the array
/// is left to the crate; the same bytes always give the same ones.
#[verifier::external_body]
fn parse_array_in(bytes: &[u8]) -> (r: Result<Vec<serde_json::Value>, serde_json::Error>)
    ensures
        match r {
            Ok(values) => json_array_in(bytes@) == Some(values@),
            Err(_) => json_array_in(bytes@) is None,
        },
{
    serde_json::from_slice(bytes)
}

/// `serde_json::Value::is_object`: whether the value is a JSON object. The same
/// value always gives the same answer.
#[verifier::external_body]
fn is_object(value: &serde_json::Value) -> (r: bool)
    ensures
        r == json_object(*value),
{
    value.is_object()
}

/// See [`objects`].
pub fn keep_objects(values: Vec<serde_json::Value>) -> (r: Vec<serde_json::Value>)
    ensures
        r@ == objects(values@),
{
    let ghost all = values@;
    let ghost keep = |value: serde_json::Value| json_object(value);
    let mut out: Vec<serde_json::Value> = Vec::new();
    for value in it: values
        invariant
            it.seq() == all,
            out@ == objects(all.take(it.index())),
            keep == (|value: serde_json::Value| json_object(value)),
    {
        proof {
            all.take(it.index()).lemma_filter_push(value, keep);
            assert(all.take(it.index() + 1) == all.take(it.index()).push(value));
        }
        if is_object(&value) {
            out.push(value);
        }
    }
    assert(all.take(all.len() as int) == all);
    out
}

/// The objects in an update, in order, or nothing where the update is no JSON
/// array.
pub fn update_objects(text: &str) -> (r: Option<Vec<serde_json::Value>>)
    ensures
        match r {
            Some(values) => json_array(text@) is Some && values@ == objects(json_array(text@)->0),
            None => json_array(text@) is None,
        },
{
    match parse_array(text) {
        Ok(values) => Some(keep_objects(values)),
        Err(_) => None,
    }
}

/// The objects in a graph, in order, or nothing where the bytes are no JSON array.
pub fn graph_objects(bytes: &[u8]) -> (r: Option<Vec<serde_json::Value>>)
    ensures
        match r {
            Some(values) => json_array_in(bytes@) is Some && values@ == objects(
                json_array_in(bytes@)->0,
            ),
            None => json_array_in(bytes@) is None,
        },
{
    match parse_array_in(bytes) {
        Ok(values) => Some(keep_objects(values)),
        Err(_) => None,
    }
}

// ---------------------------------------------------------------------------
// Laws
// ---------------------------------------------------------------------------

/// The values of an array are judged one by one, in order: each that is an object
/// is kept, and no other.
pub proof fn objects_are_told_one_by_one(
    a: Seq<serde_json::Value>,
    b: Seq<serde_json::Value>,
    value: serde_json::Value,
)
    ensures
        objects(a + b) == objects(a) + objects(b),
        json_object(value) ==> objects(seq![value]) == seq![value],
        !json_object(value) ==> objects(seq![value]) == Seq::<serde_json::Value>::empty(),
{
    let keep = |value: serde_json::Value| json_object(value);
    let none = Seq::<serde_json::Value>::empty();
    Seq::filter_distributes_over_add(a, b, keep);
    none.lemma_filter_push(value, keep);
    assert(none.push(value) =~= seq![value]);
    assert(objects(none) =~= none) by {
        reveal(Seq::filter);
    }
}

} // verus!
