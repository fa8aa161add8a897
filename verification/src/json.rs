//! JSON text of lists of records whose fields are all strings, as scripts
//! receive them.

use vstd::prelude::*;

verus! {

/// A record: its fields, name and text, in order.
pub open spec fn record_view(r: Seq<(String, String)>) -> Seq<(Seq<char>, Seq<char>)> {
    r.map_values(|f: (String, String)| (f.0@, f.1@))
}

pub open spec fn records_view(rs: Seq<Vec<(String, String)>>) -> Seq<Seq<(Seq<char>, Seq<char>)>> {
    rs.map_values(|r: Vec<(String, String)>| record_view(r@))
}

/// The compact JSON text `serde_json::to_string` gives for an array holding,
/// for each record, an object whose members are the record's fields as
/// strings.
pub uninterp spec fn records_json_text(rows: Seq<Seq<(Seq<char>, Seq<char>)>>) -> Seq<char>;

/// The compact JSON text of `rows` as an array of objects with string
/// members (`serde_json::to_string` of the `serde_json::Value` built from
/// them). Stated beyond the name: no records give `[]`.
#[verifier::external_body]
pub(crate) fn records_json(rows: &Vec<Vec<(String, String)>>) -> (r: String)
    ensures
        r@ == records_json_text(records_view(rows@)),
        rows@.len() == 0 ==> r@ == "[]"@,
{
    let arr: Vec<serde_json::Value> = rows
        .iter()
        .map(|row| serde_json::Value::Object(
            row.iter().map(|(k, v)| (k.clone(), serde_json::Value::String(v.clone()))).collect(),
        ))
        .collect();
    serde_json::to_string(&serde_json::Value::Array(arr)).unwrap_or_default()
}

} // verus!
