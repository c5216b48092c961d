//! The keyed store: one entry per key, created on the first batch for that
//! key and never removed. Each entry keeps every sample it was given, in
//! order, and the running summary of them.
use vstd::prelude::*;
use crate::aggregate::{fold_max, fold_min, last_of, Aggregate};
use crate::truncation::{divisor_spec, pow10, truncated_divisor};

verus! {

/// What a query reports of a key that holds at least one sample. Values are
/// binary64 bit patterns. The mean is `sum / divisor` and the variance
/// `sum_of_squares / divisor - mean^2`, over the running sums of all samples.
#[derive(Clone, Copy, Debug, PartialEq, Eq, Structural)]
pub struct Summary {
    pub min: u64,
    pub max: u64,
    pub last: u64,
    pub count: usize,
    pub divisor: usize,
}

/// The three answers of a query.
#[derive(Clone, Copy, Debug, PartialEq, Eq, Structural)]
pub enum QueryOutcome {
    /// No batch was ever given for the key.
    NotFound,
    /// The key exists but holds no sample.
    Empty,
    /// The key holds samples.
    Found(Summary),
}

/// The summary of a non-empty sample sequence queried with exponent `k`.
pub open spec fn summary_of(s: Seq<u64>, k: nat) -> Summary {
    Summary {
        min: fold_min(s),
        max: fold_max(s),
        last: last_of(s),
        count: s.len() as usize,
        divisor: divisor_spec(k, s.len()) as usize,
    }
}

/// What a query of `key` with exponent `k` answers on a store whose contents are `m`.
pub open spec fn outcome_spec(m: Map<Seq<char>, Seq<u64>>, key: Seq<char>, k: nat) -> QueryOutcome {
    if !m.contains_key(key) {
        QueryOutcome::NotFound
    } else if m[key].len() == 0 {
        QueryOutcome::Empty
    } else {
        QueryOutcome::Found(summary_of(m[key], k))
    }
}

/// The samples held for `key`; none where the key is absent.
pub open spec fn samples_of(m: Map<Seq<char>, Seq<u64>>, key: Seq<char>) -> Seq<u64> {
    if m.contains_key(key) {
        m[key]
    } else {
        Seq::empty()
    }
}

/// The contents after a batch for `key`: the key is present and its samples
/// are the old ones followed by the batch.
pub open spec fn ingest_spec(
    m: Map<Seq<char>, Seq<u64>>,
    key: Seq<char>,
    values: Seq<u64>,
) -> Map<Seq<char>, Seq<u64>> {
    m.insert(key, samples_of(m, key) + values)
}

/// One key's samples and their summary.
struct Entry {
    key: String,
    samples: Vec<u64>,
    aggregate: Aggregate,
}

impl Entry {
    /// The summary is the fold of exactly the samples.
    pub closed spec fn wf(&self) -> bool {
        &&& self.aggregate.wf()
        &&& self.aggregate@ == self.samples@
    }

    pub closed spec fn key_view(&self) -> Seq<char> {
        self.key@
    }

    pub closed spec fn samples_view(&self) -> Seq<u64> {
        self.samples@
    }

    fn new(key: &String) -> (r: Entry)
        ensures
            r.wf(),
            r.key_view() == key@,
            r.samples_view() == Seq::<u64>::empty(),
    {
        Entry { key: key.clone(), samples: Vec::new(), aggregate: Aggregate::new() }
    }

    /// Appends each value of the batch and folds it into the summary.
    fn absorb(&mut self, values: &Vec<u64>)
        requires
            old(self).wf(),
            old(self).samples_view().len() + values@.len() <= usize::MAX,
        ensures
            final(self).wf(),
            final(self).key_view() == old(self).key_view(),
            final(self).samples_view() == old(self).samples_view() + values@,
    {
        let ghost start = self.samples@;
        let mut i: usize = 0;
        while i < values.len()
            invariant
                self.wf(),
                self.key@ == old(self).key@,
                i <= values@.len(),
                start == old(self).samples@,
                start.len() + values@.len() <= usize::MAX,
                self.samples@ == start + values@.subrange(0, i as int),
            decreases values@.len() - i,
        {
            let v = values[i];
            self.samples.push(v);
            self.aggregate.update(v);
            proof {
                assert(values@.subrange(0, i + 1) =~= values@.subrange(0, i as int).push(v));
            }
            i = i + 1;
        }
        proof {
            assert(values@.subrange(0, values@.len() as int) =~= values@);
        }
    }

    fn summarize(&self, k: u32) -> (r: QueryOutcome)
        requires
            self.wf(),
        ensures
            self.samples_view().len() == 0 ==> r == QueryOutcome::Empty,
            self.samples_view().len() > 0 ==> r == QueryOutcome::Found(
                summary_of(self.samples_view(), k as nat),
            ),
    {
        if self.samples.len() == 0 {
            QueryOutcome::Empty
        } else {
            let count = self.aggregate.count();
            QueryOutcome::Found(
                Summary {
                    min: self.aggregate.min(),
                    max: self.aggregate.max(),
                    last: self.aggregate.last(),
                    count,
                    divisor: truncated_divisor(k, count),
                },
            )
        }
    }
}

/// A store of per-key samples and summaries.
pub struct KeyedStore {
    entries: Vec<Entry>,
    contents: Ghost<Map<Seq<char>, Seq<u64>>>,
}

impl View for KeyedStore {
    type V = Map<Seq<char>, Seq<u64>>;

    /// Each key that was ever given a batch, with its samples in order.
    closed spec fn view(&self) -> Map<Seq<char>, Seq<u64>> {
        self.contents@
    }
}

impl KeyedStore {
    /// Keys are unique among the entries, and the entries are exactly the contents.
    pub closed spec fn wf(&self) -> bool {
        &&& forall|i: int|
            0 <= i < self.entries@.len() ==> {
                &&& (#[trigger] self.entries@[i]).wf()
                &&& self.contents@.contains_key(self.entries@[i].key_view())
                &&& self.contents@[self.entries@[i].key_view()] == self.entries@[i].samples_view()
            }
        &&& forall|i: int, j: int|
            0 <= i < self.entries@.len() && 0 <= j < self.entries@.len() && i != j
                ==> #[trigger] self.entries@[i].key_view() != #[trigger] self.entries@[j].key_view()
        &&& forall|key: Seq<char>|
            #[trigger] self.contents@.contains_key(key) ==> exists|i: int|
                0 <= i < self.entries@.len() && #[trigger] self.entries@[i].key_view() == key
    }

    /// An empty store.
    pub fn new() -> (r: KeyedStore)
        ensures
            r.wf(),
            r@ == Map::<Seq<char>, Seq<u64>>::empty(),
    {
        KeyedStore { entries: Vec::new(), contents: Ghost(Map::empty()) }
    }

    /// The position of the entry for `key`, if there is one.
    fn find(&self, key: &String) -> (r: Option<usize>)
        requires
            self.wf(),
        ensures
            r.is_none() ==> !self@.contains_key(key@),
            r.is_some() ==> r.unwrap() < self.entries@.len() && self.entries@[r.unwrap() as int].key_view() == key@,
    {
        let mut i: usize = 0;
        while i < self.entries.len()
            invariant
                self.wf(),
                i <= self.entries@.len(),
                forall|j: int| 0 <= j < i ==> self.entries@[j].key_view() != key@,
            decreases self.entries@.len() - i,
        {
            if self.entries[i].key == *key {
                return Some(i);
            }
            i = i + 1;
        }
        None
    }

    /// Whether a batch was ever given for `key`.
    pub fn contains_key(&self, key: &String) -> (r: bool)
        requires
            self.wf(),
        ensures
            r == self@.contains_key(key@),
    {
        self.find(key).is_some()
    }

    /// Folds a batch of values into the entry for `key`, creating the entry
    /// first if the key is new. An empty batch only creates the entry.
    pub fn ingest_batch(&mut self, key: &String, values: &Vec<u64>)
        requires
            old(self).wf(),
            samples_of(old(self)@, key@).len() + values@.len() <= usize::MAX,
        ensures
            final(self).wf(),
            final(self)@ == ingest_spec(old(self)@, key@, values@),
    {
        let idx = match self.find(key) {
            Some(i) => i,
            None => {
                let e = Entry::new(key);
                self.entries.push(e);
                self.contents = Ghost(self.contents@.insert(key@, Seq::empty()));
                proof {
                    let n = self.entries@.len() - 1;
                    assert(self.entries@[n as int].key_view() == key@);
                    assert forall|k2: Seq<char>| #[trigger] self.contents@.contains_key(k2) implies exists|i: int|
                        0 <= i < self.entries@.len() && #[trigger] self.entries@[i].key_view() == k2 by {
                        if k2 != key@ {
                            assert(old(self).contents@.contains_key(k2));
                            let i = choose|i: int|
                                0 <= i < old(self).entries@.len() && #[trigger] old(self).entries@[i].key_view() == k2;
                            assert(self.entries@[i].key_view() == k2);
                        }
                    }
                }
                self.entries.len() - 1
            },
        };
        let ghost mid = self.entries@;
        self.entries[idx].absorb(values);
        self.contents = Ghost(self.contents@.insert(key@, samples_of(old(self)@, key@) + values@));
        proof {
            assert forall|i: int| 0 <= i < self.entries@.len() && i != idx implies self.entries@[i] == mid[i] by {}
            assert forall|k2: Seq<char>| #[trigger] self.contents@.contains_key(k2) implies exists|i: int|
                0 <= i < self.entries@.len() && #[trigger] self.entries@[i].key_view() == k2 by {
                if k2 == key@ {
                    assert(self.entries@[idx as int].key_view() == k2);
                } else {
                    let i = choose|i: int| 0 <= i < mid.len() && #[trigger] mid[i].key_view() == k2;
                    assert(self.entries@[i].key_view() == k2);
                }
            }
        }
    }

    /// Reports on `key` with truncation exponent `k`: `NotFound` for a key
    /// never given a batch, `Empty` for one without samples, and otherwise
    /// the minimum, maximum, last value, count and `min(10^k, count)` as the
    /// divisor for the mean and variance.
    pub fn query_summary(&self, key: &String, k: u32) -> (r: QueryOutcome)
        requires
            self.wf(),
        ensures
            r == outcome_spec(self@, key@, k as nat),
    {
        match self.find(key) {
            None => QueryOutcome::NotFound,
            Some(i) => self.entries[i].summarize(k),
        }
    }
}

/// The contents after one batch for `key` per element of `batches`, in order.
pub open spec fn ingest_all(
    m: Map<Seq<char>, Seq<u64>>,
    key: Seq<char>,
    batches: Seq<Seq<u64>>,
) -> Map<Seq<char>, Seq<u64>>
    decreases batches.len(),
{
    if batches.len() == 0 {
        m
    } else {
        ingest_spec(ingest_all(m, key, batches.drop_last()), key, batches.last())
    }
}

/// How many values the batches hold together.
pub open spec fn total_len(batches: Seq<Seq<u64>>) -> nat
    decreases batches.len(),
{
    if batches.len() == 0 {
        0
    } else {
        total_len(batches.drop_last()) + batches.last().len()
    }
}

proof fn lemma_ingest_all_len(m: Map<Seq<char>, Seq<u64>>, key: Seq<char>, batches: Seq<Seq<u64>>)
    requires
        !m.contains_key(key),
    ensures
        samples_of(ingest_all(m, key, batches), key).len() == total_len(batches),
        batches.len() > 0 ==> ingest_all(m, key, batches).contains_key(key),
    decreases batches.len(),
{
    if batches.len() > 0 {
        lemma_ingest_all_len(m, key, batches.drop_last());
    }
}

/// Count accuracy: after batches for a new key holding `M > 0` values in all,
/// a query with `10^k >= M` reports a count of `M` and divides by `M`.
pub proof fn law_count_accuracy(
    m: Map<Seq<char>, Seq<u64>>,
    key: Seq<char>,
    batches: Seq<Seq<u64>>,
    k: nat,
)
    requires
        !m.contains_key(key),
        0 < total_len(batches) <= usize::MAX,
        total_len(batches) <= pow10(k),
    ensures
        outcome_spec(ingest_all(m, key, batches), key, k) matches QueryOutcome::Found(s)
            && s.count == total_len(batches) && s.divisor == total_len(batches),
{
    lemma_ingest_all_len(m, key, batches);
    assert(batches.len() > 0);
}

/// A key whose only batch was empty exists, and its query answers `Empty`,
/// whatever the exponent.
pub proof fn law_empty_batch_gives_empty(m: Map<Seq<char>, Seq<u64>>, key: Seq<char>, k: nat)
    requires
        !m.contains_key(key),
    ensures
        ingest_spec(m, key, Seq::empty()).contains_key(key),
        outcome_spec(ingest_spec(m, key, Seq::empty()), key, k) == QueryOutcome::Empty,
{
    assert(samples_of(m, key) + Seq::<u64>::empty() =~= Seq::<u64>::empty());
}

} // verus!
