//! The store document as read and written by serde_yaml_ng: a mapping from
//! secret name to a mapping of string fields.
use crate::order::{bytes_lt, name_lt};
use std::collections::BTreeMap;
use vstd::prelude::*;
use vstd::utf8::{is_ascii_chars, is_ascii_chars_encode_utf8};

verus! {

#[verifier::external_type_specification]
#[verifier::external_body]
pub struct ExYamlError(serde_yaml_ng::Error);

/// One string field of a record.
pub struct RawField {
    pub key: String,
    pub value: String,
}

/// One entry of the document: a name and its fields.
pub struct RawRecord {
    pub name: String,
    pub fields: Vec<RawField>,
}

/// A record as mathematical values: the name, and each field's key and value.
pub type RecordView = (Seq<char>, Seq<(Seq<char>, Seq<char>)>);

/// The value of `r` as mathematical values.
pub open spec fn record_view(r: RawRecord) -> RecordView {
    (r.name@, r.fields@.map_values(|f: RawField| (f.key@, f.value@)))
}

/// The values of `v` as mathematical values.
pub open spec fn records_view(v: Seq<RawRecord>) -> Seq<RecordView> {
    v.map_values(|r: RawRecord| record_view(r))
}

/// Names strictly ascending, and within each record keys strictly ascending:
/// the shape of a mapping of mappings walked in key order.
pub open spec fn canonical_records(rs: Seq<RecordView>) -> bool {
    &&& forall|i: int, j: int| 0 <= i < j < rs.len() ==> name_lt(#[trigger] rs[i].0, #[trigger] rs[j].0)
    &&& forall|k: int, i: int, j: int|
        0 <= k < rs.len() && 0 <= i < j < rs[k].1.len() ==> name_lt(
            #[trigger] rs[k].1[i].0,
            #[trigger] rs[k].1[j].0,
        )
}

/// The records that serde_yaml_ng reads from `bytes` as a mapping from
/// string to mapping from string to string, walked in key order; `None`
/// where it rejects the bytes, among them a mapping that repeats a key.
pub uninterp spec fn yaml_records(bytes: Seq<u8>) -> Option<Seq<RecordView>>;

/// The text that serde_yaml_ng writes for `rs` as such a mapping.
pub uninterp spec fn yaml_emitted(rs: Seq<RecordView>) -> Seq<u8>;

/// Relies on `serde_yaml_ng::from_slice`: first into a `Value`, whose
/// `Mapping` refuses a repeated key (mapping.rs, `visit_map`), then into
/// nested `BTreeMap`s of `String`, walked in ascending key order. The result
/// depends on the bytes alone. Empty bytes are an empty document, which both
/// read as null and as an empty map (de.rs, `deserialize_map` on `Event::Void`).
#[verifier::external_body]
pub(crate) fn read_yaml(bytes: &[u8]) -> (r: Result<Vec<RawRecord>, serde_yaml_ng::Error>)
    ensures
        match r {
            Ok(v) => yaml_records(bytes@) == Some(records_view(v@)) && canonical_records(
                records_view(v@),
            ),
            Err(_) => yaml_records(bytes@).is_none(),
        },
        bytes@.len() == 0 ==> r is Ok && r->Ok_0@.len() == 0,
{
    serde_yaml_ng::from_slice::<serde_yaml_ng::Value>(bytes)?;
    let doc: BTreeMap<String, BTreeMap<String, String>> = serde_yaml_ng::from_slice(bytes)?;
    Ok(doc.into_iter().map(|(name, fields)| RawRecord {
        name,
        fields: fields.into_iter().map(|(key, value)| RawField { key, value }).collect(),
    }).collect())
}

/// Relies on `serde_yaml_ng::to_string` over nested `BTreeMap`s of `&str`.
/// The text depends on the entries alone. Its serializer fails only on
/// bytes, nested enums (ser.rs) and emitter faults, and its writer here is a
/// `Vec`, so string maps always succeed. `from_slice` reads the same entries
/// back, as the crate's round-trip tests hold of maps and of strings that
/// need quoting or escapes (tests/test_serde.rs: `test_serde`, `test_map`,
/// `test_string_escapes`, `test_strings_needing_quote`). Keys arrive in
/// ascending order and distinct, so the maps hold exactly the given entries
/// in the given order.
#[verifier::external_body]
pub(crate) fn write_yaml(records: &Vec<RawRecord>) -> (r: Result<Vec<u8>, serde_yaml_ng::Error>)
    requires
        canonical_records(records_view(records@)),
    ensures
        match r {
            Ok(b) => b@ == yaml_emitted(records_view(records@)) && yaml_records(b@) == Some(
                records_view(records@),
            ),
            Err(_) => false,
        },
{
    let doc: BTreeMap<&str, BTreeMap<&str, &str>> = records.iter().map(|r| (
        r.name.as_str(),
        r.fields.iter().map(|f| (f.key.as_str(), f.value.as_str())).collect(),
    )).collect();
    serde_yaml_ng::to_string(&doc).map(String::into_bytes)
}

/// The value of field `key` among `fields`: the first one under that key.
pub open spec fn field_value(fields: Seq<(Seq<char>, Seq<char>)>, key: Seq<char>) -> Option<Seq<char>>
    decreases fields.len(),
{
    if fields.len() == 0 {
        None
    } else if fields[0].0 == key {
        Some(fields[0].1)
    } else {
        field_value(fields.drop_first(), key)
    }
}

/// The value of the field named `key`, if the record has one.
pub fn find_field<'a>(fields: &'a Vec<RawField>, key: &str) -> (r: Option<&'a String>)
    ensures
        match r {
            Some(v) => field_value(fields@.map_values(|f: RawField| (f.key@, f.value@)), key@)
                == Some(v@),
            None => field_value(fields@.map_values(|f: RawField| (f.key@, f.value@)), key@).is_none(),
        },
{
    let ghost fs = fields@.map_values(|f: RawField| (f.key@, f.value@));
    let mut i: usize = 0;
    proof {
        assert(fs.subrange(0, fs.len() as int) =~= fs);
    }
    while i < fields.len()
        invariant
            fs == fields@.map_values(|f: RawField| (f.key@, f.value@)),
            i <= fs.len(),
            field_value(fs, key@) == field_value(fs.subrange(i as int, fs.len() as int), key@),
        decreases fs.len() - i,
    {
        let ghost rest = fs.subrange(i as int, fs.len() as int);
        assert(rest[0] == fs[i as int]);
        assert(rest.drop_first() =~= fs.subrange(i + 1, fs.len() as int));
        if crate::order::compare_names(fields[i].key.as_str(), key) == 0 {
            return Some(&fields[i].value);
        }
        i = i + 1;
    }
    None
}

/// "ciphertext" sorts before "nonce".
pub proof fn lemma_field_names_ordered()
    ensures
        name_lt("ciphertext"@, "nonce"@),
{
    reveal_strlit("ciphertext");
    reveal_strlit("nonce");
    let a = "ciphertext"@;
    let b = "nonce"@;
    assert(is_ascii_chars(a));
    assert(is_ascii_chars(b));
    is_ascii_chars_encode_utf8(a);
    is_ascii_chars_encode_utf8(b);
    assert(a[0] == 'c');
    assert(b[0] == 'n');
    let x = vstd::utf8::encode_utf8(a);
    let y = vstd::utf8::encode_utf8(b);
    assert(x[0] == 99u8);
    assert(y[0] == 110u8);
    assert(bytes_lt(x, y));
}

} // verus!
