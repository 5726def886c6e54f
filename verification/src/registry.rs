//! The keyed store backing the claim registry: a mapping from fingerprints
//! (arbitrary byte sequences) to ownership records, with unique keys and no
//! ordering semantics. Its abstract view is a `Map<Seq<u8>, Record>`.

use vstd::prelude::*;

verus! {

/// Identity of a participant. The host authenticates callers and hands their
/// identities in pre-validated; the registry only ever compares them for
/// equality.
pub type AccountId = u64;

/// A value of the host-supplied monotonic sequence counter, used verbatim as
/// the moment a record was last created or transferred.
pub type SequenceNumber = u64;

/// Ownership record stored for a registered fingerprint.
#[derive(Clone, Copy, PartialEq, Eq, Structural, Debug)]
pub struct Record {
    pub owner: AccountId,
    pub registered_at: SequenceNumber,
}

struct Entry {
    fingerprint: Vec<u8>,
    record: Record,
}

/// Keyed store mapping each registered fingerprint to its ownership record.
pub struct Registry {
    entries: Vec<Entry>,
}

spec fn entries_map(s: Seq<Entry>) -> Map<Seq<u8>, Record>
    decreases s.len(),
{
    if s.len() == 0 {
        Map::empty()
    } else {
        entries_map(s.drop_last()).insert(s.last().fingerprint@, s.last().record)
    }
}

spec fn unique_keys(s: Seq<Entry>) -> bool {
    forall|i: int, j: int|
        0 <= i < j < s.len() ==> #[trigger] s[i].fingerprint@ != #[trigger] s[j].fingerprint@
}

proof fn lemma_contains_iff_index(s: Seq<Entry>, k: Seq<u8>)
    ensures
        entries_map(s).contains_key(k) <==> exists|i: int|
            0 <= i < s.len() && #[trigger] s[i].fingerprint@ == k,
    decreases s.len(),
{
    if s.len() > 0 {
        lemma_contains_iff_index(s.drop_last(), k);
        if entries_map(s).contains_key(k) && k != s.last().fingerprint@ {
            let i = choose|i: int|
                0 <= i < s.drop_last().len() && #[trigger] s.drop_last()[i].fingerprint@ == k;
            assert(s[i].fingerprint@ == k);
        }
        if exists|i: int| 0 <= i < s.len() && #[trigger] s[i].fingerprint@ == k {
            let i = choose|i: int| 0 <= i < s.len() && #[trigger] s[i].fingerprint@ == k;
            if i < s.len() - 1 {
                assert(s.drop_last()[i].fingerprint@ == k);
            }
        }
    }
}

proof fn lemma_record_at_index(s: Seq<Entry>, i: int)
    requires
        unique_keys(s),
        0 <= i < s.len(),
    ensures
        entries_map(s).contains_key(s[i].fingerprint@),
        entries_map(s)[s[i].fingerprint@] == s[i].record,
    decreases s.len(),
{
    if i < s.len() - 1 {
        assert(unique_keys(s.drop_last())) by {
            assert forall|p: int, q: int| 0 <= p < q < s.drop_last().len() implies #[trigger] s
                .drop_last()[p].fingerprint@ != #[trigger] s.drop_last()[q].fingerprint@ by {
                assert(s[p].fingerprint@ != s[q].fingerprint@);
            }
        }
        lemma_record_at_index(s.drop_last(), i);
        assert(s.drop_last()[i] == s[i]);
        assert(s[i].fingerprint@ != s[s.len() - 1].fingerprint@);
    }
}

proof fn lemma_remove_index(s: Seq<Entry>, i: int)
    requires
        unique_keys(s),
        0 <= i < s.len(),
    ensures
        unique_keys(s.remove(i)),
        entries_map(s.remove(i)) =~= entries_map(s).remove(s[i].fingerprint@),
    decreases s.len(),
{
    assert forall|p: int, q: int| 0 <= p < q < s.remove(i).len() implies #[trigger] s.remove(
        i,
    )[p].fingerprint@ != #[trigger] s.remove(i)[q].fingerprint@ by {
        let p0: int = if p < i {
            p
        } else {
            p + 1
        };
        let q0: int = if q < i {
            q
        } else {
            q + 1
        };
        assert(s.remove(i)[p] == s[p0]);
        assert(s.remove(i)[q] == s[q0]);
        assert(s[p0].fingerprint@ != s[q0].fingerprint@);
    }
    let k = s[i].fingerprint@;
    if i == s.len() - 1 {
        assert(s.remove(i) =~= s.drop_last());
        assert(unique_keys(s.drop_last()));
        lemma_contains_iff_index(s.drop_last(), k);
        assert(!entries_map(s.drop_last()).contains_key(k));
        assert(entries_map(s.drop_last()) =~= entries_map(s.drop_last()).insert(k, s[i].record)
            .remove(k));
    } else {
        assert(unique_keys(s.drop_last())) by {
            assert forall|p: int, q: int| 0 <= p < q < s.drop_last().len() implies #[trigger] s
                .drop_last()[p].fingerprint@ != #[trigger] s.drop_last()[q].fingerprint@ by {
                assert(s[p].fingerprint@ != s[q].fingerprint@);
            }
        }
        lemma_remove_index(s.drop_last(), i);
        assert(s.remove(i).drop_last() =~= s.drop_last().remove(i));
        assert(s.remove(i).last() == s.last());
        assert(s.remove(i).len() == s.len() - 1);
        // k differs from the key of the final entry, so removing k commutes
        // with keeping that entry.
        assert(s[i].fingerprint@ != s[s.len() - 1].fingerprint@);
        assert(entries_map(s.remove(i)) == entries_map(s.drop_last().remove(i)).insert(
            s.last().fingerprint@,
            s.last().record,
        ));
        assert(entries_map(s.drop_last()).remove(k).insert(s.last().fingerprint@, s.last().record)
            =~= entries_map(s.drop_last()).insert(s.last().fingerprint@, s.last().record).remove(
            k,
        ));
    }
}

/// Copies a fingerprint; the copy holds the same bytes.
pub(crate) fn clone_fingerprint(fp: &Vec<u8>) -> (r: Vec<u8>)
    ensures
        r@ == fp@,
{
    let r = fp.clone();
    proof {
        assert forall|i: int| 0 <= i < fp@.len() implies r@[i] == fp@[i] by {
            assert(cloned::<u8>(fp@[i], r@[i]));
        }
        assert(r@ =~= fp@);
    }
    r
}

/// Compares two fingerprints byte for byte.
fn bytes_equal(a: &Vec<u8>, b: &Vec<u8>) -> (r: bool)
    ensures
        r == (a@ == b@),
{
    if a.len() != b.len() {
        return false;
    }
    let mut n: usize = 0;
    while n < a.len()
        invariant
            n <= a@.len(),
            a@.len() == b@.len(),
            forall|j: int| 0 <= j < n ==> a@[j] == b@[j],
        decreases a@.len() - n,
    {
        if a[n] != b[n] {
            return false;
        }
        n += 1;
    }
    proof {
        assert(a@ =~= b@);
    }
    true
}

impl View for Registry {
    type V = Map<Seq<u8>, Record>;

    closed spec fn view(&self) -> Map<Seq<u8>, Record> {
        entries_map(self.entries@)
    }
}

impl Registry {
    /// Keys are unique: no fingerprint is stored twice.
    pub closed spec fn wf(&self) -> bool {
        unique_keys(self.entries@)
    }

    /// A fresh, empty registry.
    pub fn new() -> (r: Registry)
        ensures
            r.wf(),
            r@ == Map::<Seq<u8>, Record>::empty(),
    {
        Registry { entries: Vec::new() }
    }

    fn find(&self, fp: &Vec<u8>) -> (r: Option<usize>)
        requires
            self.wf(),
        ensures
            match r {
                Some(i) => {
                    &&& i < self.entries@.len()
                    &&& self.entries@[i as int].fingerprint@ == fp@
                    &&& self@.contains_key(fp@)
                    &&& self@[fp@] == self.entries@[i as int].record
                },
                None => !self@.contains_key(fp@),
            },
    {
        let mut n: usize = 0;
        while n < self.entries.len()
            invariant
                self.wf(),
                n <= self.entries@.len(),
                forall|j: int| 0 <= j < n ==> #[trigger] self.entries@[j].fingerprint@ != fp@,
            decreases self.entries@.len() - n,
        {
            if bytes_equal(&self.entries[n].fingerprint, fp) {
                proof {
                    lemma_record_at_index(self.entries@, n as int);
                }
                return Some(n);
            }
            n += 1;
        }
        proof {
            lemma_contains_iff_index(self.entries@, fp@);
        }
        None
    }

    /// Whether the fingerprint is currently registered.
    pub fn contains(&self, fp: &Vec<u8>) -> (r: bool)
        requires
            self.wf(),
        ensures
            r == self@.contains_key(fp@),
    {
        self.find(fp).is_some()
    }

    /// Looks the fingerprint up; `None` when it is absent.
    pub fn get(&self, fp: &Vec<u8>) -> (r: Option<Record>)
        requires
            self.wf(),
        ensures
            self@.contains_key(fp@) ==> r == Some(self@[fp@]),
            !self@.contains_key(fp@) ==> r == None::<Record>,
    {
        match self.find(fp) {
            Some(i) => Some(self.entries[i].record),
            None => None,
        }
    }

    /// Stores a record under a fingerprint the caller has already checked to
    /// be absent.
    pub fn insert(&mut self, fp: Vec<u8>, record: Record)
        requires
            old(self).wf(),
            !old(self)@.contains_key(fp@),
        ensures
            final(self).wf(),
            final(self)@ == old(self)@.insert(fp@, record),
    {
        proof {
            lemma_contains_iff_index(self.entries@, fp@);
        }
        let ghost s0 = self.entries@;
        self.entries.push(Entry { fingerprint: fp, record });
        proof {
            assert(self.entries@.drop_last() =~= s0);
            assert forall|i: int, j: int| 0 <= i < j < self.entries@.len() implies #[trigger] self
                .entries@[i].fingerprint@ != #[trigger] self.entries@[j].fingerprint@ by {
                if j < s0.len() {
                    assert(s0[i].fingerprint@ != s0[j].fingerprint@);
                }
            }
            assert(entries_map(self.entries@) =~= entries_map(s0).insert(fp@, record));
        }
    }

    /// Atomically replaces the record of an existing fingerprint; fails
    /// without touching the store when the fingerprint is absent. The key
    /// set is never changed.
    pub fn update(&mut self, fp: &Vec<u8>, record: Record) -> (r: Result<(), ()>)
        requires
            old(self).wf(),
        ensures
            final(self).wf(),
            old(self)@.contains_key(fp@) ==> r == Ok::<(), ()>(()) && final(self)@ == old(
                self,
            )@.insert(fp@, record),
            !old(self)@.contains_key(fp@) ==> r == Err::<(), ()>(()) && final(self)@ == old(self)@,
            final(self)@.dom() == old(self)@.dom(),
    {
        match self.find(fp) {
            None => Err(()),
            Some(i) => {
                let ghost s0 = self.entries@;
                let ghost k = fp@;
                let entry = self.entries.remove(i);
                proof {
                    lemma_remove_index(s0, i as int);
                    lemma_contains_iff_index(s0.remove(i as int), k);
                }
                let ghost s1 = self.entries@;
                self.entries.push(Entry { fingerprint: entry.fingerprint, record });
                proof {
                    assert(self.entries@.drop_last() =~= s1);
                    assert forall|p: int, q: int| 0 <= p < q < self.entries@.len() implies
                        #[trigger] self.entries@[p].fingerprint@ != #[trigger] self
                        .entries@[q].fingerprint@ by {
                        if q < s1.len() {
                            assert(s1[p].fingerprint@ != s1[q].fingerprint@);
                        }
                    }
                    assert(entries_map(self.entries@) =~= entries_map(s1).insert(k, record));
                    assert(entries_map(s1).insert(k, record) =~= entries_map(s0).insert(k, record));
                    assert(entries_map(self.entries@).dom() =~= entries_map(s0).dom());
                }
                Ok(())
            },
        }
    }

    /// Deletes the fingerprint's entry if there is one; removing an absent
    /// fingerprint is a no-op.
    pub fn remove(&mut self, fp: &Vec<u8>)
        requires
            old(self).wf(),
        ensures
            final(self).wf(),
            final(self)@ == old(self)@.remove(fp@),
    {
        match self.find(fp) {
            None => {
                proof {
                    assert(self@ =~= self@.remove(fp@));
                }
            },
            Some(i) => {
                let ghost s0 = self.entries@;
                let _removed = self.entries.remove(i);
                proof {
                    lemma_remove_index(s0, i as int);
                }
            },
        }
    }
}

} // verus!
