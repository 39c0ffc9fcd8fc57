//! The locally persisted collection index: named collections, each an ordered
//! list of item checksums. Creation and merge are idempotent; the caller holds
//! the index under one exclusive region for every check-then-act sequence and
//! persists a full snapshot after every change.

use vstd::prelude::*;

use crate::collector::Collection;
use crate::text::dec_int;
use crate::text::i32_to_string;
use crate::text::replace_all;
use crate::text::replaced;
use crate::text::str_eq;

verus! {

/// One named collection: its name and its checksums in insertion order.
pub struct CollectionRecord {
    pub name: String,
    pub checksums: Vec<String>,
}

impl DeepView for CollectionRecord {
    type V = (Seq<char>, Seq<Seq<char>>);

    open spec fn deep_view(&self) -> Self::V {
        (self.name@, self.checksums.deep_view())
    }
}

/// The collection index: an ordered list of named records, names unique.
pub struct CollectionIndex {
    pub records: Vec<CollectionRecord>,
}

/// Record names are pairwise distinct.
pub open spec fn model_wf(m: Seq<(Seq<char>, Seq<Seq<char>>)>) -> bool {
    forall|i: int, j: int| 0 <= i < j < m.len() ==> m[i].0 != m[j].0
}

/// Some record bears this name.
pub open spec fn model_has(m: Seq<(Seq<char>, Seq<Seq<char>>)>, name: Seq<char>) -> bool {
    exists|i: int| 0 <= i < m.len() && m[i].0 == name
}

/// The position of the record bearing this name (unique under `model_wf`).
pub open spec fn model_idx(m: Seq<(Seq<char>, Seq<Seq<char>>)>, name: Seq<char>) -> int {
    choose|i: int| 0 <= i < m.len() && m[i].0 == name
}

/// What creating a collection does: nothing when the name is taken, else a
/// new empty record appended at the end.
pub open spec fn model_create(m: Seq<(Seq<char>, Seq<Seq<char>>)>, name: Seq<char>) -> Seq<
    (Seq<char>, Seq<Seq<char>>),
> {
    if model_has(m, name) {
        m
    } else {
        m.push((name, Seq::empty()))
    }
}

/// What merging a checksum does: nothing when the record is missing or
/// already holds the checksum, else the checksum appended to that record.
pub open spec fn model_merge(
    m: Seq<(Seq<char>, Seq<Seq<char>>)>,
    name: Seq<char>,
    c: Seq<char>,
) -> Seq<(Seq<char>, Seq<Seq<char>>)> {
    if !model_has(m, name) {
        m
    } else {
        let i = model_idx(m, name);
        if m[i].1.contains(c) {
            m
        } else {
            m.update(i, (name, m[i].1.push(c)))
        }
    }
}

/// How many records bear this name.
pub open spec fn count_named(m: Seq<(Seq<char>, Seq<Seq<char>>)>, name: Seq<char>) -> nat
    decreases m.len(),
{
    if m.len() == 0 {
        0
    } else {
        count_named(m.drop_first(), name) + (if m[0].0 == name {
            1nat
        } else {
            0nat
        })
    }
}

/// A name can mark at most the one record `model_idx` points at.
pub proof fn lemma_idx_unique(m: Seq<(Seq<char>, Seq<Seq<char>>)>, name: Seq<char>, i: int)
    requires
        model_wf(m),
        0 <= i < m.len(),
        m[i].0 == name,
    ensures
        model_has(m, name),
        model_idx(m, name) == i,
{
    assert(model_has(m, name));
    let w = model_idx(m, name);
    assert(0 <= w < m.len() && m[w].0 == name);
    if w < i {
        assert(m[w].0 != m[i].0);
    } else if i < w {
        assert(m[i].0 != m[w].0);
    }
}

proof fn lemma_count_bounds(m: Seq<(Seq<char>, Seq<Seq<char>>)>, name: Seq<char>)
    ensures
        model_has(m, name) ==> count_named(m, name) >= 1,
        !model_has(m, name) ==> count_named(m, name) == 0,
    decreases m.len(),
{
    if m.len() > 0 {
        let sub = m.drop_first();
        lemma_count_bounds(sub, name);
        assert forall|k: int| 0 <= k < sub.len() implies sub[k] == m[k + 1] by {}
        if model_has(m, name) {
            let i = choose|i: int| 0 <= i < m.len() && m[i].0 == name;
            if i > 0 {
                assert(sub[i - 1].0 == name);
                assert(model_has(sub, name));
            }
        }
        if model_has(sub, name) {
            let i = choose|i: int| 0 <= i < sub.len() && sub[i].0 == name;
            assert(m[i + 1].0 == name);
            assert(model_has(m, name));
        }
    }
}

proof fn lemma_wf_count_le_one(m: Seq<(Seq<char>, Seq<Seq<char>>)>, name: Seq<char>)
    requires
        model_wf(m),
    ensures
        count_named(m, name) <= 1,
    decreases m.len(),
{
    if m.len() > 0 {
        let sub = m.drop_first();
        assert forall|i: int, j: int| 0 <= i < j < sub.len() implies sub[i].0 != sub[j].0 by {
            assert(sub[i] == m[i + 1]);
            assert(sub[j] == m[j + 1]);
        }
        lemma_wf_count_le_one(sub, name);
        if m[0].0 == name {
            assert(!model_has(sub, name)) by {
                if model_has(sub, name) {
                    let i = choose|i: int| 0 <= i < sub.len() && sub[i].0 == name;
                    assert(sub[i] == m[i + 1]);
                    assert(m[0].0 != m[i + 1].0);
                }
            }
            lemma_count_bounds(sub, name);
        }
    }
}

/// Creating a collection keeps names unique.
pub proof fn lemma_create_preserves_wf(m: Seq<(Seq<char>, Seq<Seq<char>>)>, name: Seq<char>)
    requires
        model_wf(m),
    ensures
        model_wf(model_create(m, name)),
{
    if !model_has(m, name) {
        let m2 = m.push((name, Seq::empty()));
        assert forall|i: int, j: int| 0 <= i < j < m2.len() implies m2[i].0 != m2[j].0 by {
            if j == m.len() {
                assert(m2[i] == m[i]);
                if m2[i].0 == name {
                    assert(model_has(m, name));
                }
            } else {
                assert(m2[i] == m[i]);
                assert(m2[j] == m[j]);
            }
        }
    }
}

/// Creating the same collection twice is the same as creating it once, and
/// exactly one record bears the name afterwards: what N serialized creation
/// calls for one name leave behind.
pub proof fn lemma_create_idempotent(m: Seq<(Seq<char>, Seq<Seq<char>>)>, name: Seq<char>)
    requires
        model_wf(m),
    ensures
        model_create(model_create(m, name), name) == model_create(m, name),
        count_named(model_create(m, name), name) == 1,
{
    let m2 = model_create(m, name);
    if model_has(m, name) {
        lemma_wf_count_le_one(m, name);
        lemma_count_bounds(m, name);
    } else {
        assert(m2 == m.push((name, Seq::empty())));
        assert(m2[m.len() as int].0 == name);
        assert(model_has(m2, name));
        lemma_create_preserves_wf(m, name);
        lemma_wf_count_le_one(m2, name);
        lemma_count_bounds(m2, name);
    }
}

/// Merging a checksum keeps names unique.
pub proof fn lemma_merge_preserves_wf(
    m: Seq<(Seq<char>, Seq<Seq<char>>)>,
    name: Seq<char>,
    c: Seq<char>,
)
    requires
        model_wf(m),
    ensures
        model_wf(model_merge(m, name, c)),
{
    let m2 = model_merge(m, name, c);
    assert(m2.len() == m.len());
    assert forall|k: int| 0 <= k < m.len() implies m2[k].0 == m[k].0 by {
        if model_has(m, name) {
            let i = model_idx(m, name);
            assert(0 <= i < m.len() && m[i].0 == name);
        }
    }
}

/// Merging the same checksum twice into the same collection leaves exactly
/// the record contents that merging it once leaves.
pub proof fn lemma_merge_idempotent(
    m: Seq<(Seq<char>, Seq<Seq<char>>)>,
    name: Seq<char>,
    c: Seq<char>,
)
    requires
        model_wf(m),
    ensures
        model_merge(model_merge(m, name, c), name, c) == model_merge(m, name, c),
{
    if model_has(m, name) {
        let i = model_idx(m, name);
        assert(0 <= i < m.len() && m[i].0 == name);
        lemma_idx_unique(m, name, i);
        if !m[i].1.contains(c) {
            let m2 = m.update(i, (name, m[i].1.push(c)));
            assert(m2[i].0 == name);
            lemma_merge_preserves_wf(m, name, c);
            lemma_idx_unique(m2, name, i);
            assert(m2[i].1.contains(c)) by {
                assert(m2[i].1[m[i].1.len() as int] == c);
            }
        }
    }
}

impl CollectionIndex {
    /// The index as a sequence of (name, checksums) pairs.
    pub open spec fn model(self) -> Seq<(Seq<char>, Seq<Seq<char>>)> {
        self.records.deep_view()
    }

    /// Names are pairwise distinct.
    pub open spec fn wf(self) -> bool {
        model_wf(self.model())
    }

    /// An index with no records.
    pub fn new() -> (r: CollectionIndex)
        ensures
            r.wf(),
            r.model() == Seq::<(Seq<char>, Seq<Seq<char>>)>::empty(),
    {
        let r = CollectionIndex { records: Vec::new() };
        proof {
            assert(r.model() =~= Seq::<(Seq<char>, Seq<Seq<char>>)>::empty());
        }
        r
    }

    /// Finds the position of the record bearing this name.
    fn index_of(&self, name: &str) -> (r: Option<usize>)
        ensures
            match r {
                Some(i) => 0 <= i < self.model().len() && self.model()[i as int].0 == name@,
                None => !model_has(self.model(), name@),
            },
    {
        let n = self.records.len();
        let mut i: usize = 0;
        while i < n
            invariant
                n == self.records@.len(),
                i <= n,
                forall|k: int| 0 <= k < i ==> self.model()[k].0 != name@,
            decreases n - i,
        {
            assert(self.model()[i as int].0 == self.records@[i as int].name@);
            if str_eq(self.records[i].name.as_str(), name) {
                return Some(i);
            }
            i = i + 1;
        }
        assert(!model_has(self.model(), name@));
        None
    }

    /// Inserts an empty record under this name unless one exists: idempotent,
    /// so that repeated calls for one name leave a single record. Returns
    /// whether a record was inserted.
    pub fn create_collection(&mut self, name: &str) -> (created: bool)
        requires
            old(self).wf(),
        ensures
            final(self).wf(),
            final(self).model() == model_create(old(self).model(), name@),
            created == !model_has(old(self).model(), name@),
    {
        let ghost m = self.model();
        match self.index_of(name) {
            Some(_) => {
                proof {
                    lemma_create_preserves_wf(m, name@);
                }
                false
            },
            None => {
                let record = CollectionRecord { name: name.to_owned(), checksums: Vec::new() };
                proof {
                    assert(record.deep_view() == (name@, Seq::<Seq<char>>::empty())) by {
                        assert(record.checksums.deep_view() =~= Seq::<Seq<char>>::empty());
                    }
                }
                self.records.push(record);
                proof {
                    assert(self.model() =~= m.push((name@, Seq::<Seq<char>>::empty())));
                    lemma_create_preserves_wf(m, name@);
                }
                true
            },
        }
    }

    /// Says whether the named record already holds this checksum.
    pub fn is_checksum_in_collection(&self, name: &str, checksum: &str) -> (r: bool)
        requires
            self.wf(),
            model_has(self.model(), name@),
        ensures
            r == self.model()[model_idx(self.model(), name@)].1.contains(checksum@),
    {
        let i: usize = match self.index_of(name) {
            Some(i) => i,
            None => {
                proof {
                    assert(false);
                }
                0
            },
        };
        proof {
            lemma_idx_unique(self.model(), name@, i as int);
        }
        let ghost hs = self.model()[i as int].1;
        let cs = &self.records[i].checksums;
        proof {
            assert(cs.deep_view() == hs);
        }
        let n = cs.len();
        let mut j: usize = 0;
        while j < n
            invariant
                n == cs@.len(),
                j <= n,
                hs == cs.deep_view(),
                0 <= i < self.model().len(),
                model_idx(self.model(), name@) == i as int,
                hs == self.model()[i as int].1,
                forall|k: int| 0 <= k < j ==> hs[k] != checksum@,
            decreases n - j,
        {
            assert(hs[j as int] == cs@[j as int]@);
            if str_eq(cs[j].as_str(), checksum) {
                assert(hs.contains(checksum@));
                return true;
            }
            j = j + 1;
        }
        assert(!hs.contains(checksum@));
        false
    }

    /// Appends the checksum to the named record unless it is already there:
    /// the idempotent merge. Returns whether the checksum was appended.
    pub fn add_to_collection(&mut self, name: &str, checksum: &str) -> (inserted: bool)
        requires
            old(self).wf(),
            model_has(old(self).model(), name@),
        ensures
            final(self).wf(),
            final(self).model() == model_merge(old(self).model(), name@, checksum@),
            inserted == !old(self).model()[model_idx(old(self).model(), name@)].1.contains(
                checksum@,
            ),
    {
        let ghost m = self.model();
        if self.is_checksum_in_collection(name, checksum) {
            return false;
        }
        let i: usize = match self.index_of(name) {
            Some(i) => i,
            None => {
                proof {
                    assert(false);
                }
                0
            },
        };
        proof {
            lemma_idx_unique(m, name@, i as int);
        }
        let ghost hs = m[i as int].1;
        self.records[i].checksums.push(checksum.to_owned());
        proof {
            assert(self.records@[i as int].deep_view() == (name@, hs.push(checksum@)));
            assert(self.model() =~= m.update(i as int, (name@, hs.push(checksum@))));
            lemma_merge_preserves_wf(m, name@, checksum@);
        }
        true
    }
}

/// Substitutes the `{collection_author}`, `{collection_title}` and
/// `{collection_id}` placeholders of a name template, in that order.
pub fn format_collection_name(fmt: &str, collection: &Collection) -> (out: String)
    ensures
        out@ == replaced(
            replaced(
                replaced(fmt@, "{collection_author}"@, collection.uploader.username@),
                "{collection_title}"@,
                collection.name@,
            ),
            "{collection_id}"@,
            dec_int(collection.id as int),
        ),
{
    let with_author = replace_all(fmt, "{collection_author}", collection.uploader.username.as_str());
    let with_title = replace_all(with_author.as_str(), "{collection_title}", collection.name.as_str());
    let id_text = i32_to_string(collection.id);
    replace_all(with_title.as_str(), "{collection_id}", id_text.as_str())
}

} // verus!
