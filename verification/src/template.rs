//! Page contexts, kept in the types of `tera` and `serde_json`.
//!
//! A context holds, under string keys, texts and lists of records; a record
//! holds texts under string keys. Both are kept in the outside types and
//! spoken of through what they hold.

use vstd::prelude::*;

verus! {

#[verifier::external_type_specification]
#[verifier::external_body]
pub struct ExContext(tera::Context);

#[verifier::external_type_specification]
#[verifier::external_body]
pub struct ExJsonValue(serde_json::Value);

#[verifier::external_type_specification]
#[verifier::external_body]
#[verifier::reject_recursive_types(K)]
#[verifier::reject_recursive_types(V)]
pub struct ExJsonMap<K, V>(serde_json::Map<K, V>);

/// The texts that a record holds, by key.
pub uninterp spec fn record_fields(record: serde_json::Map<String, serde_json::Value>) -> Map<
    Seq<char>,
    Seq<char>,
>;

/// The texts that a context holds, by key.
pub uninterp spec fn context_texts(context: tera::Context) -> Map<Seq<char>, Seq<char>>;

/// The lists of records that a context holds, by key; each record as the
/// texts it holds.
pub uninterp spec fn context_lists(context: tera::Context) -> Map<
    Seq<char>,
    Seq<Map<Seq<char>, Seq<char>>>,
>;

/// No text under any key.
pub open spec fn no_texts() -> Map<Seq<char>, Seq<char>> {
    Map::empty()
}

/// No list under any key.
pub open spec fn no_lists() -> Map<Seq<char>, Seq<Map<Seq<char>, Seq<char>>>> {
    Map::empty()
}

/// The records of `records`, each as the texts it holds.
pub open spec fn records_view(
    records: Seq<serde_json::Map<String, serde_json::Value>>,
) -> Seq<Map<Seq<char>, Seq<char>>> {
    records.map_values(|r: serde_json::Map<String, serde_json::Value>| record_fields(r))
}

/// Calls `serde_json::Map::new`. Trusted: the new record holds nothing.
#[verifier::external_body]
pub(crate) fn new_record() -> (record: serde_json::Map<String, serde_json::Value>)
    ensures
        record_fields(record) == no_texts(),
{
    serde_json::Map::new()
}

/// Calls `serde_json::Map::insert` with a string value. Trusted: afterwards
/// the record holds `value` under `key`, and under every other key what it
/// held before.
#[verifier::external_body]
pub(crate) fn set_field(
    record: &mut serde_json::Map<String, serde_json::Value>,
    key: &str,
    value: &str,
)
    ensures
        record_fields(*final(record)) == record_fields(*old(record)).insert(key@, value@),
{
    record.insert(key.to_string(), serde_json::Value::String(value.to_string()));
}

/// Calls `tera::Context::new`. Trusted: the new context holds nothing.
#[verifier::external_body]
pub(crate) fn new_context() -> (context: tera::Context)
    ensures
        context_texts(context) == no_texts(),
        context_lists(context) == no_lists(),
{
    tera::Context::new()
}

/// Calls `tera::Context::insert` with a string. Trusted: afterwards the
/// context holds the text `value` under `key`, no list under it, and under
/// every other key what it held before.
#[verifier::external_body]
pub(crate) fn set_text(context: &mut tera::Context, key: &str, value: &str)
    ensures
        context_texts(*final(context)) == context_texts(*old(context)).insert(key@, value@),
        context_lists(*final(context)) == context_lists(*old(context)).remove(key@),
{
    context.insert(key, value);
}

/// Calls `tera::Context::insert` with a list of records. Trusted: afterwards
/// the context holds the list under `key`, no text under it, and under every
/// other key what it held before.
#[verifier::external_body]
pub(crate) fn set_list(
    context: &mut tera::Context,
    key: &str,
    records: &Vec<serde_json::Map<String, serde_json::Value>>,
)
    ensures
        context_lists(*final(context)) == context_lists(*old(context)).insert(
            key@,
            records_view(records@),
        ),
        context_texts(*final(context)) == context_texts(*old(context)).remove(key@),
{
    context.insert(key, records);
}

} // verus!
