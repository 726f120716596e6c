//! The secret store: envelopes by name, kept in name order.
use crate::order::{compare_names, lemma_name_lt_irreflexive, lemma_name_lt_transitive, name_lt};
use crate::secret::SecretBase64;
use vstd::prelude::*;

verus! {

/// One stored entry as mathematical values: name, nonce text, ciphertext text.
pub type EntryView = (Seq<char>, (Seq<char>, Seq<char>));

/// Names of `s` appear in strictly ascending order.
pub open spec fn sorted_names(s: Seq<EntryView>) -> bool {
    forall|i: int, j: int| 0 <= i < j < s.len() ==> name_lt(#[trigger] s[i].0, #[trigger] s[j].0)
}

/// Some entry of `s` carries name `k`.
pub open spec fn has_name(s: Seq<EntryView>, k: Seq<char>) -> bool {
    exists|i: int| 0 <= i < s.len() && #[trigger] s[i].0 == k
}

/// A position of `s` that carries name `k`, where there is one.
pub open spec fn name_index(s: Seq<EntryView>, k: Seq<char>) -> int {
    choose|i: int| 0 <= i < s.len() && #[trigger] s[i].0 == k
}

/// The mapping that a sequence of entries with distinct names describes.
pub open spec fn entries_map(s: Seq<EntryView>) -> Map<Seq<char>, (Seq<char>, Seq<char>)> {
    Map::new(|k: Seq<char>| has_name(s, k), |k: Seq<char>| s[name_index(s, k)].1)
}

/// Sorted entries have distinct names.
proof fn lemma_sorted_distinct(s: Seq<EntryView>, i: int, j: int)
    requires
        sorted_names(s),
        0 <= i < s.len(),
        0 <= j < s.len(),
        s[i].0 == s[j].0,
    ensures
        i == j,
{
    lemma_name_lt_irreflexive(s[i].0);
    if i < j {
        assert(name_lt(s[i].0, s[j].0));
    } else if j < i {
        assert(name_lt(s[j].0, s[i].0));
    }
}

/// In sorted entries, the envelope under the name at `i` is the one at `i`.
proof fn lemma_entries_map_at(s: Seq<EntryView>, i: int)
    requires
        sorted_names(s),
        0 <= i < s.len(),
    ensures
        entries_map(s).contains_key(s[i].0),
        entries_map(s)[s[i].0] == s[i].1,
{
    let k = s[i].0;
    assert(has_name(s, k));
    let j = name_index(s, k);
    lemma_sorted_distinct(s, i, j);
}

/// Named secrets, each a sealed envelope, listed in ascending name order.
pub struct SecretStore {
    entries: Vec<(String, SecretBase64)>,
}

/// Entries held as values, seen as mathematical values.
pub open spec fn entries_view(v: Seq<(String, SecretBase64)>) -> Seq<EntryView> {
    v.map_values(|e: (String, SecretBase64)| (e.0@, e.1@))
}

impl SecretStore {
    /// The entries as mathematical values, in stored order.
    pub closed spec fn entry_views(&self) -> Seq<EntryView> {
        entries_view(self.entries@)
    }

    /// Names are unique and kept in ascending order.
    pub closed spec fn wf(&self) -> bool {
        sorted_names(self.entry_views())
    }
}

impl View for SecretStore {
    type V = Map<Seq<char>, (Seq<char>, Seq<char>)>;

    /// Each name mapped to its envelope's nonce and ciphertext text.
    closed spec fn view(&self) -> Map<Seq<char>, (Seq<char>, Seq<char>)> {
        entries_map(self.entry_views())
    }
}

impl SecretStore {
    /// An empty store.
    pub fn new() -> (r: SecretStore)
        ensures
            r.wf(),
            r@ == Map::<Seq<char>, (Seq<char>, Seq<char>)>::empty(),
    {
        let r = SecretStore { entries: Vec::new() };
        assert(r@ =~= Map::<Seq<char>, (Seq<char>, Seq<char>)>::empty());
        r
    }

    /// Stores `envelope` under `name`, replacing any envelope stored there.
    pub fn insert(&mut self, name: String, envelope: SecretBase64)
        requires
            old(self).wf(),
        ensures
            final(self).wf(),
            final(self)@ == old(self)@.insert(name@, envelope@),
    {
        let ghost s = self.entry_views();
        let ghost e: EntryView = (name@, envelope@);
        let mut i: usize = 0;
        let mut found = false;
        while i < self.entries.len()
            invariant_except_break
                !found,
            invariant
                self.entry_views() == s,
                sorted_names(s),
                i <= s.len(),
                s.len() == self.entries@.len(),
                forall|j: int| 0 <= j < i ==> name_lt(#[trigger] s[j].0, name@),
            ensures
                i <= s.len(),
                forall|j: int| 0 <= j < i ==> name_lt(#[trigger] s[j].0, name@),
                found ==> i < s.len() && s[i as int].0 == name@,
                !found ==> i == s.len() || name_lt(name@, s[i as int].0),
            decreases s.len() - i,
        {
            let c = compare_names(self.entries[i].0.as_str(), name.as_str());
            assert(self.entries@[i as int].0@ == s[i as int].0);
            if c == 0 {
                found = true;
                break;
            }
            if c > 0 {
                break;
            }
            i = i + 1;
        }
        let ghost p = i as int;
        if found {
            self.entries.set(i, (name, envelope));
            proof {
                let t = s.update(p, e);
                assert(self.entry_views() =~= t);
                assert(sorted_names(t)) by {
                    assert forall|a: int, b: int| 0 <= a < b < t.len() implies name_lt(
                        #[trigger] t[a].0,
                        #[trigger] t[b].0,
                    ) by {
                        assert(name_lt(s[a].0, s[b].0));
                    }
                }
                assert forall|k: Seq<char>| has_name(t, k) == (has_name(s, k) || k == name@) by {
                    if has_name(s, k) {
                        let j = choose|j: int| 0 <= j < s.len() && #[trigger] s[j].0 == k;
                        assert(t[j].0 == k);
                    }
                    if has_name(t, k) {
                        let j = choose|j: int| 0 <= j < t.len() && #[trigger] t[j].0 == k;
                        assert(s[j].0 == k);
                    }
                    if k == name@ {
                        assert(t[p].0 == k);
                    }
                }
                assert forall|k: Seq<char>| #[trigger] entries_map(t).contains_key(k) implies entries_map(t)[k]
                    == s_insert_value(s, e, k) by {
                    let j = name_index(t, k);
                    lemma_entries_map_at(t, j);
                    if k == name@ {
                        lemma_sorted_distinct(t, j, p);
                    }
                    if j != p {
                        lemma_entries_map_at(s, j);
                    }
                }
                assert(entries_map(t) =~= entries_map(s).insert(name@, envelope@));
            }
        } else {
            self.entries.insert(i, (name, envelope));
            proof {
                let t = s.insert(p, e);
                assert(self.entry_views() =~= t);
                assert forall|j: int| p <= j < s.len() implies name_lt(name@, #[trigger] s[j].0) by {
                    if j > p {
                        assert(name_lt(s[p].0, s[j].0));
                        lemma_name_lt_transitive(name@, s[p].0, s[j].0);
                    }
                }
                assert(sorted_names(t)) by {
                    assert forall|a: int, b: int| 0 <= a < b < t.len() implies name_lt(
                        #[trigger] t[a].0,
                        #[trigger] t[b].0,
                    ) by {
                        if a < p && b < p {
                            assert(name_lt(s[a].0, s[b].0));
                        } else if a < p && b == p {
                        } else if a < p {
                            assert(name_lt(s[a].0, s[b - 1].0));
                        } else if a == p {
                        } else {
                            assert(name_lt(s[a - 1].0, s[b - 1].0));
                        }
                    }
                }
                assert forall|k: Seq<char>| has_name(t, k) == (has_name(s, k) || k == name@) by {
                    if has_name(s, k) {
                        let j = choose|j: int| 0 <= j < s.len() && #[trigger] s[j].0 == k;
                        if j < p {
                            assert(t[j].0 == k);
                        } else {
                            assert(t[j + 1].0 == k);
                        }
                    }
                    if has_name(t, k) {
                        let j = choose|j: int| 0 <= j < t.len() && #[trigger] t[j].0 == k;
                        if j < p {
                            assert(s[j].0 == k);
                        } else if j > p {
                            assert(s[j - 1].0 == k);
                        }
                    }
                    if k == name@ {
                        assert(t[p].0 == k);
                    }
                }
                assert forall|k: Seq<char>| #[trigger] entries_map(t).contains_key(k) implies entries_map(t)[k]
                    == s_insert_value(s, e, k) by {
                    let j = name_index(t, k);
                    lemma_entries_map_at(t, j);
                    if k == name@ {
                        lemma_sorted_distinct(t, j, p);
                    }
                    if j < p {
                        lemma_entries_map_at(s, j);
                    } else if j > p {
                        lemma_entries_map_at(s, j - 1);
                    }
                }
                assert(entries_map(t) =~= entries_map(s).insert(name@, envelope@));
            }
        }
    }
}

impl SecretStore {
    /// The envelope stored under `name`, if any.
    pub fn get(&self, name: &str) -> (r: Option<&SecretBase64>)
        requires
            self.wf(),
        ensures
            match r {
                Some(e) => self@.contains_key(name@) && self@[name@] == e@,
                None => !self@.contains_key(name@),
            },
    {
        let ghost s = self.entry_views();
        let mut i: usize = 0;
        while i < self.entries.len()
            invariant
                s == self.entry_views(),
                self.wf(),
                s.len() == self.entries@.len(),
                i <= s.len(),
                forall|j: int| 0 <= j < i ==> #[trigger] s[j].0 != name@,
            decreases s.len() - i,
        {
            assert(self.entries@[i as int].0@ == s[i as int].0);
            if compare_names(self.entries[i].0.as_str(), name) == 0 {
                proof {
                    lemma_entries_map_at(s, i as int);
                }
                return Some(&self.entries[i].1);
            }
            i = i + 1;
        }
        None
    }

    /// The stored names in ascending order, one for each secret.
    pub fn names(&self) -> (r: Vec<String>)
        requires
            self.wf(),
        ensures
            forall|i: int, j: int| 0 <= i < j < r@.len() ==> name_lt(#[trigger] r@[i]@, #[trigger] r@[j]@),
            forall|k: Seq<char>|
                #![trigger self@.contains_key(k)]
                self@.contains_key(k) <==> exists|i: int| 0 <= i < r@.len() && #[trigger] r@[i]@ == k,
    {
        let ghost s = self.entry_views();
        let mut r: Vec<String> = Vec::new();
        let mut i: usize = 0;
        while i < self.entries.len()
            invariant
                s == self.entry_views(),
                s.len() == self.entries@.len(),
                i <= s.len(),
                r@.len() == i,
                forall|j: int| 0 <= j < i ==> #[trigger] r@[j]@ == s[j].0,
            decreases s.len() - i,
        {
            assert(self.entries@[i as int].0@ == s[i as int].0);
            r.push(self.entries[i].0.clone());
            i = i + 1;
        }
        proof {
            assert forall|a: int, b: int| 0 <= a < b < r@.len() implies name_lt(
                #[trigger] r@[a]@,
                #[trigger] r@[b]@,
            ) by {
                assert(name_lt(s[a].0, s[b].0));
            }
            assert forall|k: Seq<char>| #![trigger self@.contains_key(k)]
                self@.contains_key(k) <==> exists|i: int| 0 <= i < r@.len() && #[trigger] r@[i]@ == k by {
                if self@.contains_key(k) {
                    let j = name_index(s, k);
                    assert(r@[j]@ == k);
                }
                if exists|i: int| 0 <= i < r@.len() && #[trigger] r@[i]@ == k {
                    let j = choose|i: int| 0 <= i < r@.len() && #[trigger] r@[i]@ == k;
                    assert(s[j].0 == k);
                }
            }
        }
        r
    }

    /// The entries, in ascending name order.
    pub fn into_inner(self) -> (r: Vec<(String, SecretBase64)>)
        requires
            self.wf(),
        ensures
            sorted_names(entries_view(r@)),
            entries_map(entries_view(r@)) == self@,
    {
        self.entries
    }
}

/// The names of `secrets` in ascending order, one for each secret.
pub fn list_secret_names(secrets: &SecretStore) -> (r: Vec<String>)
    requires
        secrets.wf(),
    ensures
        forall|i: int, j: int| 0 <= i < j < r@.len() ==> name_lt(#[trigger] r@[i]@, #[trigger] r@[j]@),
        forall|k: Seq<char>|
            #![trigger secrets@.contains_key(k)]
            secrets@.contains_key(k) <==> exists|i: int| 0 <= i < r@.len() && #[trigger] r@[i]@ == k,
{
    secrets.names()
}

/// Two listings in strictly ascending order that hold the same names are
/// equal: the listing of a store depends on its contents alone, not on the
/// order in which the names were inserted.
pub proof fn lemma_listing_determined(a: Seq<Seq<char>>, b: Seq<Seq<char>>)
    requires
        forall|i: int, j: int| 0 <= i < j < a.len() ==> name_lt(#[trigger] a[i], #[trigger] a[j]),
        forall|i: int, j: int| 0 <= i < j < b.len() ==> name_lt(#[trigger] b[i], #[trigger] b[j]),
        forall|k: Seq<char>| a.contains(k) <==> b.contains(k),
    ensures
        a == b,
    decreases a.len(),
{
    if a.len() == 0 {
        if b.len() > 0 {
            assert(b.contains(b[0]));
        }
        assert(a =~= b);
    } else {
        assert(a.contains(a[0]));
        assert(b.len() > 0);
        let j = choose|j: int| 0 <= j < b.len() && b[j] == a[0];
        assert(b.contains(b[0]));
        let i = choose|i: int| 0 <= i < a.len() && a[i] == b[0];
        if j > 0 {
            assert(name_lt(b[0], b[j]));
            if i > 0 {
                assert(name_lt(a[0], a[i]));
                lemma_name_lt_transitive(a[0], b[0], a[0]);
            }
            lemma_name_lt_irreflexive(a[0]);
        }
        let a2 = a.drop_first();
        let b2 = b.drop_first();
        assert forall|k: Seq<char>| a2.contains(k) <==> b2.contains(k) by {
            if a2.contains(k) {
                let x = choose|x: int| 0 <= x < a2.len() && a2[x] == k;
                assert(name_lt(a[0], a[x + 1]));
                lemma_name_lt_irreflexive(k);
                assert(b.contains(k));
                let y = choose|y: int| 0 <= y < b.len() && b[y] == k;
                if y == 0 {
                    assert(false);
                }
                assert(b2[y - 1] == k);
            }
            if b2.contains(k) {
                let y = choose|y: int| 0 <= y < b2.len() && b2[y] == k;
                assert(name_lt(b[0], b[y + 1]));
                lemma_name_lt_irreflexive(k);
                assert(a.contains(k));
                let x = choose|x: int| 0 <= x < a.len() && a[x] == k;
                if x == 0 {
                    assert(false);
                }
                assert(a2[x - 1] == k);
            }
        }
        assert forall|x: int, y: int| 0 <= x < y < a2.len() implies name_lt(#[trigger] a2[x], #[trigger] a2[y]) by {
            assert(name_lt(a[x + 1], a[y + 1]));
        }
        assert forall|x: int, y: int| 0 <= x < y < b2.len() implies name_lt(#[trigger] b2[x], #[trigger] b2[y]) by {
            assert(name_lt(b[x + 1], b[y + 1]));
        }
        lemma_listing_determined(a2, b2);
        assert(a =~= b) by {
            assert forall|x: int| 0 <= x < a.len() implies a[x] == b[x] by {
                if x > 0 {
                    assert(a[x] == a2[x - 1]);
                    assert(b[x] == b2[x - 1]);
                }
            }
        }
    }
}

/// The value under `k` once `e` is stored over the mapping of `s`.
spec fn s_insert_value(s: Seq<EntryView>, e: EntryView, k: Seq<char>) -> (Seq<char>, Seq<char>) {
    entries_map(s).insert(e.0, e.1)[k]
}

} // verus!
