use vstd::prelude::*;

verus! {

#[verifier::external_type_specification]
#[verifier::external_body]
pub struct ExJsonValue(serde_json::Value);

#[verifier::external_type_specification]
#[verifier::external_body]
pub struct ExJsonError(serde_json::Error);

/// Whether `s` is a well-formed JSON document, the condition under which
/// serde_json's parser accepts it; it depends on the text alone.
pub uninterp spec fn json_document_ok(s: Seq<char>) -> bool;

/// The document serde_json's parser reads from the well-formed text `s`; it
/// depends on the text alone.
pub uninterp spec fn json_value_of(s: Seq<char>) -> serde_json::Value;

/// Whether `s` is a well-formed JSON document whose top level is an object;
/// it depends on the text alone.
pub uninterp spec fn json_object_ok(s: Seq<char>) -> bool;

/// The members of the top-level object of the well-formed object text `s`,
/// as serde_json's map hands them out; they depend on the text alone.
pub uninterp spec fn json_members_of(s: Seq<char>) -> Seq<(Seq<char>, serde_json::Value)>;

/// The member of the JSON object `v` under the given key, or nothing when
/// `v` is no object or lacks the key.
pub uninterp spec fn json_member_of(v: serde_json::Value, key: Seq<char>) -> Option<
    serde_json::Value,
>;

/// The elements of the JSON array `v`, or nothing when `v` is no array.
pub uninterp spec fn json_elements_of(v: serde_json::Value) -> Option<Seq<serde_json::Value>>;

/// The boolean `v` holds, or nothing when `v` is no JSON boolean.
pub uninterp spec fn json_bool_of(v: serde_json::Value) -> Option<bool>;

/// The integer `v` holds, or nothing when `v` is no JSON integer an `i64`
/// can hold.
pub uninterp spec fn json_int_of(v: serde_json::Value) -> Option<i64>;

/// Relies on serde_json::from_str::<serde_json::Value>: it returns the
/// parsed document exactly when the text is well-formed JSON, and its result
/// depends on the text alone.
#[verifier::external_body]
pub(crate) fn parse_json_document(s: &str) -> (r: Result<serde_json::Value, serde_json::Error>)
    ensures
        r is Ok <==> json_document_ok(s@),
        r matches Ok(v) ==> v == json_value_of(s@),
{
    serde_json::from_str(s)
}

/// Relies on serde_json::from_str::<serde_json::Map<String, Value>>: it
/// succeeds exactly when the text is well-formed JSON with an object at the
/// top level, and then yields that object's members, a function of the text
/// alone.
#[verifier::external_body]
pub(crate) fn parse_json_object(s: &str) -> (r: Result<
    Vec<(String, serde_json::Value)>,
    serde_json::Error,
>)
    ensures
        r is Ok <==> json_object_ok(s@),
        r matches Ok(members) ==> members@.len() == json_members_of(s@).len() && (forall|i: int|
            0 <= i < members@.len() ==> (#[trigger] members@[i]).0@ == json_members_of(s@)[i].0
                && members@[i].1 == json_members_of(s@)[i].1),
{
    let object: serde_json::Map<String, serde_json::Value> = serde_json::from_str(s)?;
    Ok(object.into_iter().collect())
}

/// Relies on serde_json::Value::get with a string index: the member of a
/// JSON object under that key, or nothing when the value is no object or
/// lacks the key; a function of the value and the key alone.
#[verifier::external_body]
pub(crate) fn json_get<'a>(v: &'a serde_json::Value, key: &str) -> (r: Option<
    &'a serde_json::Value,
>)
    ensures
        match r {
            Some(member) => json_member_of(*v, key@) == Some(*member),
            None => json_member_of(*v, key@) is None,
        },
{
    v.get(key)
}

/// Relies on serde_json::Value::as_array: the elements when the value is a
/// JSON array, nothing otherwise; a function of the value alone.
#[verifier::external_body]
pub(crate) fn json_as_array<'a>(v: &'a serde_json::Value) -> (r: Option<&'a [serde_json::Value]>)
    ensures
        match r {
            Some(elements) => json_elements_of(*v) == Some(elements@),
            None => json_elements_of(*v) is None,
        },
{
    v.as_array().map(|elements| elements.as_slice())
}

/// Relies on serde_json::Value::as_bool: the value when it is a JSON
/// boolean, nothing otherwise; a function of the value alone.
#[verifier::external_body]
pub(crate) fn json_as_bool(v: &serde_json::Value) -> (r: Option<bool>)
    ensures
        r == json_bool_of(*v),
{
    v.as_bool()
}

/// Relies on serde_json::Value::as_i64: the value when it is a JSON integer
/// an `i64` can hold, nothing otherwise; a function of the value alone.
#[verifier::external_body]
pub(crate) fn json_as_i64(v: &serde_json::Value) -> (r: Option<i64>)
    ensures
        r == json_int_of(*v),
{
    v.as_i64()
}

} // verus!
