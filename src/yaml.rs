use vstd::prelude::*;
use serde_yaml::Value;

verus! {

#[verifier::external_type_specification]
#[verifier::external_body]
pub struct ExValue(serde_yaml::Value);

#[verifier::external_type_specification]
#[verifier::external_body]
pub struct ExError(serde_yaml::Error);

/// Whether `serde_yaml::from_str::<Value>` accepts the text.
pub uninterp spec fn yaml_valid(s: Seq<char>) -> bool;

/// The document that `serde_yaml::from_str::<Value>` reads from the text: its
/// tags, scalars and mapping entries in order. The hasher state that a
/// mapping carries is no part of what any item here observes of a value.
pub uninterp spec fn yaml_doc(s: Seq<char>) -> Value;

/// The text that `serde_yaml::to_string` makes of a value, where it makes one.
pub uninterp spec fn yaml_emitted(v: Value) -> Option<Seq<char>>;

/// What `Value::as_str` reads from a value.
pub uninterp spec fn yaml_str(v: Value) -> Option<Seq<char>>;

/// The entries, in order, of the mapping that `Value::as_mapping` exposes.
pub uninterp spec fn yaml_entries(v: Value) -> Option<Seq<(Value, Value)>>;

/// Relies on serde_yaml::from_str into a generic `Value`: it fails exactly on
/// text that is no YAML document, and otherwise returns the document the text
/// holds.
#[verifier::external_body]
pub(crate) fn parse_yaml(s: &str) -> (r: Result<Value, serde_yaml::Error>)
    ensures
        r is Ok <==> yaml_valid(s@),
        r matches Ok(v) ==> v == yaml_doc(s@),
{
    serde_yaml::from_str::<Value>(s)
}

/// Relies on serde_yaml::to_string: the YAML text of a value.
#[verifier::external_body]
pub(crate) fn emit_yaml(v: &Value) -> (r: Result<String, serde_yaml::Error>)
    ensures
        r is Ok <==> yaml_emitted(*v) is Some,
        r matches Ok(s) ==> yaml_emitted(*v) == Some(s@),
{
    serde_yaml::to_string(v)
}

/// Relies on `Value::String`: a string scalar, which `as_str` reads back and
/// which is no mapping.
#[verifier::external_body]
pub(crate) fn string_value(s: String) -> (r: Value)
    ensures
        yaml_str(r) == Some(s@),
        yaml_entries(r) is None,
{
    Value::String(s)
}

/// Relies on `Value::Mapping` collected from string-keyed entries: with keys
/// pairwise distinct, the mapping holds the entries in the order given.
#[verifier::external_body]
pub(crate) fn mapping_value(entries: Vec<(String, Value)>) -> (r: Value)
    requires
        forall|i: int, j: int|
            0 <= i < j < entries@.len() ==> entries@[i].0@ != entries@[j].0@,
    ensures
        yaml_str(r) is None,
        yaml_entries(r) matches Some(es) && es.len() == entries@.len() && forall|i: int|
            0 <= i < es.len() ==> yaml_str(#[trigger] es[i].0) == Some(entries@[i].0@) && es[i].1
                == entries@[i].1,
{
    Value::Mapping(entries.into_iter().map(|(k, v)| (Value::String(k), v)).collect())
}

/// Relies on `Value::as_mapping` and `Mapping::len`: the number of entries of
/// a mapping, `None` for any other value.
#[verifier::external_body]
pub(crate) fn mapping_len(v: &Value) -> (r: Option<usize>)
    ensures
        r is Some <==> yaml_entries(*v) is Some,
        r matches Some(n) ==> n == yaml_entries(*v)->0.len(),
{
    v.as_mapping().map(|m| m.len())
}

/// Relies on `Mapping::keys` and `Value::as_str`: the key of entry `i`, where
/// that key is a string.
#[verifier::external_body]
pub(crate) fn key_str_at(v: &Value, i: usize) -> (r: Option<String>)
    requires
        yaml_entries(*v) is Some,
        i < yaml_entries(*v)->0.len(),
    ensures
        r is Some <==> yaml_str(yaml_entries(*v)->0[i as int].0) is Some,
        r matches Some(s) ==> yaml_str(yaml_entries(*v)->0[i as int].0) == Some(s@),
{
    v.as_mapping().unwrap().keys().nth(i).unwrap().as_str().map(|s| s.to_string())
}

/// Relies on `Mapping::values`: the value of entry `i`.
#[verifier::external_body]
pub(crate) fn value_at(v: &Value, i: usize) -> (r: &Value)
    requires
        yaml_entries(*v) is Some,
        i < yaml_entries(*v)->0.len(),
    ensures
        *r == yaml_entries(*v)->0[i as int].1,
{
    v.as_mapping().unwrap().values().nth(i).unwrap()
}

/// Relies on `Mapping::values_mut`: the value of entry `i`, to be changed in
/// place; key and place of every entry stay.
#[verifier::external_body]
pub(crate) fn value_at_mut(v: &mut Value, i: usize) -> (r: &mut Value)
    requires
        yaml_entries(*old(v)) is Some,
        i < yaml_entries(*old(v))->0.len(),
    ensures
        *r == yaml_entries(*old(v))->0[i as int].1,
        yaml_entries(*final(v)) == Some(
            yaml_entries(*old(v))->0.update(
                i as int,
                (yaml_entries(*old(v))->0[i as int].0, *final(r)),
            ),
        ),
{
    v.as_mapping_mut().unwrap().values_mut().nth(i).unwrap()
}

} // verus!
