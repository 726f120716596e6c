//! Loading a store from its document and writing it back.
use crate::document::{
    canonical_records, field_value, find_field, lemma_field_names_ordered, read_yaml, record_view,
    records_view, write_yaml, yaml_emitted, yaml_records, RawField, RawRecord, RecordView,
};
use crate::order::{lemma_name_lt_irreflexive, name_lt};
use crate::secret::SecretBase64;
use crate::store::SecretStore;
use vstd::prelude::*;

verus! {

/// Why a document could not be turned into a store.
#[derive(Debug)]
pub enum DocumentError {
    /// The bytes are not a mapping from names to mappings of string fields.
    Syntax,
    /// The record under the first name lacks the field named second.
    MissingField(String, String),
}

/// The envelope that record `r` describes: its `nonce` and `ciphertext` fields.
pub open spec fn record_envelope(r: RecordView) -> Option<(Seq<char>, Seq<char>)> {
    match (field_value(r.1, "nonce"@), field_value(r.1, "ciphertext"@)) {
        (Some(n), Some(c)) => Some((n, c)),
        _ => None,
    }
}

/// Every record of `rs` has both fields.
pub open spec fn records_complete(rs: Seq<RecordView>) -> bool {
    forall|i: int| 0 <= i < rs.len() ==> (#[trigger] record_envelope(rs[i])).is_some()
}

/// The store that reading `rs` in order builds: each record stored under its
/// name, a later record replacing an earlier one of the same name.
pub open spec fn records_map(rs: Seq<RecordView>) -> Map<Seq<char>, (Seq<char>, Seq<char>)>
    decreases rs.len(),
{
    if rs.len() == 0 {
        Map::empty()
    } else {
        match record_envelope(rs.last()) {
            Some(e) => records_map(rs.drop_last()).insert(rs.last().0, e),
            None => records_map(rs.drop_last()),
        }
    }
}

/// The store that a document holds, or `None` where it is not a well-formed store.
pub open spec fn parsed_store(bytes: Seq<u8>) -> Option<Map<Seq<char>, (Seq<char>, Seq<char>)>> {
    match yaml_records(bytes) {
        Some(rs) => if records_complete(rs) {
            Some(records_map(rs))
        } else {
            None
        },
        None => None,
    }
}

/// The record under which envelope `e` is written as `name`.
pub open spec fn store_record(name: Seq<char>, e: (Seq<char>, Seq<char>)) -> RecordView {
    (name, seq![("ciphertext"@, e.1), ("nonce"@, e.0)])
}

/// Reads a store from the bytes of its document.
///
/// Field values are not checked as base64 here; `open` does that.
pub fn load_store(bytes: &[u8]) -> (r: Result<SecretStore, DocumentError>)
    ensures
        match r {
            Ok(s) => s.wf() && parsed_store(bytes@) == Some(s@),
            Err(DocumentError::Syntax) => yaml_records(bytes@).is_none(),
            Err(DocumentError::MissingField(n, f)) => parsed_store(bytes@).is_none() && (f@
                == "nonce"@ || f@ == "ciphertext"@) && exists|i: int|
                0 <= i < yaml_records(bytes@)->0.len() && #[trigger] yaml_records(bytes@)->0[i].0 == n@
                    && field_value(yaml_records(bytes@)->0[i].1, f@).is_none(),
        },
        bytes@.len() == 0 ==> r is Ok && r->Ok_0@ == Map::<Seq<char>, (Seq<char>, Seq<char>)>::empty(),
{
    let records = match read_yaml(bytes) {
        Ok(v) => v,
        Err(_) => {
            return Err(DocumentError::Syntax);
        },
    };
    let ghost rs = records_view(records@);
    let mut store = SecretStore::new();
    let mut i: usize = 0;
    while i < records.len()
        invariant
            store.wf(),
            rs == records_view(records@),
            yaml_records(bytes@) == Some(rs),
            bytes@.len() == 0 ==> rs.len() == 0,
            i <= rs.len(),
            store@ == records_map(rs.take(i as int)),
            forall|j: int| 0 <= j < i ==> (#[trigger] record_envelope(rs[j])).is_some(),
        decreases rs.len() - i,
    {
        let rec = &records[i];
        assert(record_view(records@[i as int]) == rs[i as int]);
        let nonce = find_field(&rec.fields, "nonce");
        let ciphertext = find_field(&rec.fields, "ciphertext");
        match (nonce, ciphertext) {
            (Some(n), Some(c)) => {
                store.insert(
                    rec.name.clone(),
                    SecretBase64 { nonce: n.clone(), ciphertext: c.clone() },
                );
                proof {
                    assert(rs.take(i + 1).drop_last() =~= rs.take(i as int));
                }
            },
            (None, _) => {
                proof {
                    assert(record_envelope(rs[i as int]).is_none());
                    assert(!records_complete(rs));
                    assert(yaml_records(bytes@)->0[i as int].0 == rec.name@);
                }
                return Err(DocumentError::MissingField(rec.name.clone(), "nonce".to_owned()));
            },
            (Some(_), None) => {
                proof {
                    assert(record_envelope(rs[i as int]).is_none());
                    assert(!records_complete(rs));
                    assert(yaml_records(bytes@)->0[i as int].0 == rec.name@);
                }
                return Err(DocumentError::MissingField(rec.name.clone(), "ciphertext".to_owned()));
            },
        }
        i = i + 1;
    }
    proof {
        assert(rs.take(rs.len() as int) =~= rs);
        if bytes@.len() == 0 {
            assert(rs.len() == 0);
        }
    }
    Ok(store)
}

/// In records with strictly ascending names and both fields, the store built
/// holds exactly their names, each with its own record's envelope.
proof fn lemma_records_map(rs: Seq<RecordView>)
    requires
        records_complete(rs),
        forall|i: int, j: int| 0 <= i < j < rs.len() ==> name_lt(#[trigger] rs[i].0, #[trigger] rs[j].0),
    ensures
        forall|k: Seq<char>|
            #[trigger] records_map(rs).contains_key(k) <==> exists|i: int|
                0 <= i < rs.len() && #[trigger] rs[i].0 == k,
        forall|i: int|
            0 <= i < rs.len() ==> records_map(rs)[#[trigger] rs[i].0] == record_envelope(rs[i])->0,
    decreases rs.len(),
{
    if rs.len() > 0 {
        let t = rs.drop_last();
        let l = rs.len() - 1;
        assert(record_envelope(rs[l]).is_some());
        assert forall|i: int| 0 <= i < t.len() implies (#[trigger] record_envelope(t[i])).is_some() by {
            assert(record_envelope(rs[i]).is_some());
        }
        lemma_records_map(t);
        assert forall|k: Seq<char>|
            #[trigger] records_map(rs).contains_key(k) <==> exists|i: int|
                0 <= i < rs.len() && #[trigger] rs[i].0 == k by {
            if records_map(t).contains_key(k) {
                let i = choose|i: int| 0 <= i < t.len() && #[trigger] t[i].0 == k;
                assert(rs[i].0 == k);
            }
            if exists|i: int| 0 <= i < rs.len() && #[trigger] rs[i].0 == k {
                let i = choose|i: int| 0 <= i < rs.len() && #[trigger] rs[i].0 == k;
                if i < l {
                    assert(t[i].0 == k);
                }
            }
        }
        assert forall|i: int| 0 <= i < rs.len() implies records_map(rs)[#[trigger] rs[i].0]
            == record_envelope(rs[i])->0 by {
            if i < l {
                assert(t[i] == rs[i]);
                assert(name_lt(rs[i].0, rs[l].0));
                lemma_name_lt_irreflexive(rs[i].0);
            }
        }
    }
}

/// Writes `store` as a document, entries in ascending name order.
///
/// The bytes written read back as the same store.
pub fn serialize_store(store: &SecretStore) -> (r: Vec<u8>)
    requires
        store.wf(),
    ensures
        parsed_store(r@) == Some(store@),
{
    let names = store.names();
    let mut records: Vec<RawRecord> = Vec::new();
    let mut i: usize = 0;
    while i < names.len()
        invariant
            store.wf(),
            i <= names@.len(),
            records@.len() == i,
            forall|j: int|
                0 <= j < i ==> store@.contains_key(names@[j]@) && #[trigger] record_view(records@[j])
                    == store_record(names@[j]@, store@[names@[j]@]),
            forall|k: Seq<char>|
                #![trigger store@.contains_key(k)]
                store@.contains_key(k) <==> exists|j: int| 0 <= j < names@.len() && #[trigger] names@[j]@ == k,
        decreases names@.len() - i,
    {
        proof {
            assert(store@.contains_key(names@[i as int]@));
        }
        match store.get(names[i].as_str()) {
            Some(e) => {
                let mut fields: Vec<RawField> = Vec::new();
                fields.push(RawField { key: "ciphertext".to_owned(), value: e.ciphertext.clone() });
                fields.push(RawField { key: "nonce".to_owned(), value: e.nonce.clone() });
                let rec = RawRecord { name: names[i].clone(), fields };
                assert(record_view(rec).1 =~= store_record(names@[i as int]@, e@).1);
                records.push(rec);
            },
            None => {},
        }
        i = i + 1;
    }
    let ghost rs = records_view(records@);
    proof {
        lemma_field_names_ordered();
        lemma_name_lt_irreflexive("nonce"@);
        assert forall|j: int| 0 <= j < rs.len() implies #[trigger] rs[j] == store_record(
            names@[j]@,
            store@[names@[j]@],
        ) by {
            assert(rs[j] == record_view(records@[j]));
        }
        assert forall|k: int, a: int, b: int|
            0 <= k < rs.len() && 0 <= a < b < rs[k].1.len() implies name_lt(
            #[trigger] rs[k].1[a].0,
            #[trigger] rs[k].1[b].0,
        ) by {
            assert(rs[k] == store_record(names@[k]@, store@[names@[k]@]));
        }
        assert forall|a: int, b: int| 0 <= a < b < rs.len() implies name_lt(
            #[trigger] rs[a].0,
            #[trigger] rs[b].0,
        ) by {
            assert(rs[a] == store_record(names@[a]@, store@[names@[a]@]));
            assert(rs[b] == store_record(names@[b]@, store@[names@[b]@]));
        }
        assert(canonical_records(rs));
        assert forall|j: int| 0 <= j < rs.len() implies (#[trigger] record_envelope(rs[j]))
            == Some(store@[names@[j]@]) by {
            let f = rs[j].1;
            assert(rs[j] == store_record(names@[j]@, store@[names@[j]@]));
            assert(f[0].0 != "nonce"@);
            assert(f.drop_first()[0] == f[1]);
            assert(field_value(f.drop_first(), "nonce"@) == Some(f[1].1));
            assert(field_value(f, "nonce"@) == Some(f[1].1));
            assert(field_value(f, "ciphertext"@) == Some(f[0].1));
        }
    }
    match write_yaml(&records) {
        Ok(b) => {
            proof {
                lemma_records_map(rs);
                assert(records_map(rs) =~= store@) by {
                    assert forall|k: Seq<char>| #[trigger] records_map(rs).contains_key(k)
                        == store@.contains_key(k) by {
                        if store@.contains_key(k) {
                            let j = choose|j: int| 0 <= j < names@.len() && #[trigger] names@[j]@ == k;
                            assert(rs[j].0 == k);
                        }
                        if records_map(rs).contains_key(k) {
                            let j = choose|j: int| 0 <= j < rs.len() && #[trigger] rs[j].0 == k;
                            assert(names@[j]@ == k);
                        }
                    }
                    assert forall|k: Seq<char>| #[trigger] records_map(rs).contains_key(k) implies records_map(
                        rs,
                    )[k] == store@[k] by {
                        let j = choose|j: int| 0 <= j < rs.len() && #[trigger] rs[j].0 == k;
                        assert(record_envelope(rs[j]) == Some(store@[names@[j]@]));
                    }
                }
            }
            b
        },
        Err(_) => Vec::new(),
    }
}

} // verus!
