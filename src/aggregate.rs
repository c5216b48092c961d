//! The per-key running summary: minimum, maximum, most recent value and
//! count of the observations folded in so far.
use vstd::prelude::*;
use crate::value::{
    is_nan, lemma_order_key_injective, max_of, max_spec, min_of, min_spec, precedes, NEG_INFINITY, POS_INFINITY, POS_ZERO,
};

verus! {

/// The minimum of a history, starting from positive infinity.
pub open spec fn fold_min(s: Seq<u64>) -> u64
    decreases s.len(),
{
    if s.len() == 0 {
        POS_INFINITY
    } else {
        min_spec(fold_min(s.drop_last()), s.last())
    }
}

/// The maximum of a history, starting from negative infinity.
pub open spec fn fold_max(s: Seq<u64>) -> u64
    decreases s.len(),
{
    if s.len() == 0 {
        NEG_INFINITY
    } else {
        max_spec(fold_max(s.drop_last()), s.last())
    }
}

/// The most recent observation of a history, positive zero before any.
pub open spec fn last_of(s: Seq<u64>) -> u64 {
    if s.len() == 0 {
        POS_ZERO
    } else {
        s.last()
    }
}

/// Running summary of a stream of observations.
pub struct Aggregate {
    min: u64,
    max: u64,
    last: u64,
    count: usize,
    history: Ghost<Seq<u64>>,
}

impl View for Aggregate {
    type V = Seq<u64>;

    /// The observations folded in, oldest first.
    closed spec fn view(&self) -> Seq<u64> {
        self.history@
    }
}

impl Aggregate {
    /// Every field is the fold of the history.
    pub closed spec fn wf(&self) -> bool {
        &&& self.min == fold_min(self.history@)
        &&& self.max == fold_max(self.history@)
        &&& self.last == last_of(self.history@)
        &&& self.count == self.history@.len()
    }

    /// An aggregate that has seen nothing: minimum positive infinity,
    /// maximum negative infinity, last value zero, count zero.
    pub fn new() -> (r: Aggregate)
        ensures
            r.wf(),
            r@ == Seq::<u64>::empty(),
    {
        Aggregate {
            min: POS_INFINITY,
            max: NEG_INFINITY,
            last: POS_ZERO,
            count: 0,
            history: Ghost(Seq::empty()),
        }
    }

    /// Folds one observation in.
    pub fn update(&mut self, value: u64)
        requires
            old(self).wf(),
            old(self)@.len() < usize::MAX,
        ensures
            final(self).wf(),
            final(self)@ == old(self)@.push(value),
    {
        self.min = min_of(self.min, value);
        self.max = max_of(self.max, value);
        self.last = value;
        self.count = self.count + 1;
        self.history = Ghost(self.history@.push(value));
        proof {
            assert(self.history@.drop_last() =~= old(self).history@);
        }
    }

    /// The smallest observation seen, NaN skipped; positive infinity if none.
    pub fn min(&self) -> (r: u64)
        requires
            self.wf(),
        ensures
            r == fold_min(self@),
    {
        self.min
    }

    /// The largest observation seen, NaN skipped; negative infinity if none.
    pub fn max(&self) -> (r: u64)
        requires
            self.wf(),
        ensures
            r == fold_max(self@),
    {
        self.max
    }

    /// The most recent observation; zero if none.
    pub fn last(&self) -> (r: u64)
        requires
            self.wf(),
        ensures
            r == last_of(self@),
    {
        self.last
    }

    /// How many observations were folded in.
    pub fn count(&self) -> (r: usize)
        requires
            self.wf(),
        ensures
            r == self@.len(),
    {
        self.count
    }
}

/// The reported minimum is the true minimum: where the history holds a
/// number that is not NaN, the minimum is such a number of the history and
/// precedes every other one; otherwise it is positive infinity.
pub proof fn law_min_is_least(s: Seq<u64>)
    ensures
        (exists|i: int| 0 <= i < s.len() && !is_nan(s[i])) ==> {
            &&& !is_nan(fold_min(s))
            &&& s.contains(fold_min(s))
            &&& forall|i: int| 0 <= i < s.len() && !is_nan(s[i]) ==> precedes(fold_min(s), s[i])
        },
        (forall|i: int| 0 <= i < s.len() ==> is_nan(s[i])) ==> fold_min(s) == POS_INFINITY,
    decreases s.len(),
{
    if s.len() > 0 {
        let p = s.drop_last();
        law_min_is_least(p);
        assert forall|i: int| 0 <= i < p.len() implies p[i] == s[i] by {}
        if exists|i: int| 0 <= i < p.len() && !is_nan(p[i]) {
            assert(p.contains(fold_min(p)));
            let j = choose|j: int| 0 <= j < p.len() && p[j] == fold_min(p);
            assert(s[j] == fold_min(p));
        } else {
            assert forall|i: int| 0 <= i < s.len() - 1 implies is_nan(s[i]) by {
                assert(is_nan(p[i]));
            }
        }
        assert(s[s.len() - 1] == s.last());
    }
}

/// The reported maximum is the true maximum: where the history holds a
/// number that is not NaN, the maximum is such a number of the history and
/// every other one precedes it; otherwise it is negative infinity.
pub proof fn law_max_is_greatest(s: Seq<u64>)
    ensures
        (exists|i: int| 0 <= i < s.len() && !is_nan(s[i])) ==> {
            &&& !is_nan(fold_max(s))
            &&& s.contains(fold_max(s))
            &&& forall|i: int| 0 <= i < s.len() && !is_nan(s[i]) ==> precedes(s[i], fold_max(s))
        },
        (forall|i: int| 0 <= i < s.len() ==> is_nan(s[i])) ==> fold_max(s) == NEG_INFINITY,
    decreases s.len(),
{
    if s.len() > 0 {
        let p = s.drop_last();
        law_max_is_greatest(p);
        assert forall|i: int| 0 <= i < p.len() implies p[i] == s[i] by {}
        if exists|i: int| 0 <= i < p.len() && !is_nan(p[i]) {
            assert(p.contains(fold_max(p)));
            let j = choose|j: int| 0 <= j < p.len() && p[j] == fold_max(p);
            assert(s[j] == fold_max(p));
        } else {
            assert forall|i: int| 0 <= i < s.len() - 1 implies is_nan(s[i]) by {
                assert(is_nan(p[i]));
            }
        }
        assert(s[s.len() - 1] == s.last());
    }
}

/// The minimum, maximum and count do not depend on the order in which the
/// observations arrived: two histories holding the same observations, each
/// as often, report the same three values.
pub proof fn law_order_independent(s1: Seq<u64>, s2: Seq<u64>)
    requires
        s1.to_multiset() == s2.to_multiset(),
    ensures
        fold_min(s1) == fold_min(s2),
        fold_max(s1) == fold_max(s2),
        s1.len() == s2.len(),
{
    broadcast use vstd::seq_lib::group_to_multiset_ensures;
    assert(s1.len() == s1.to_multiset().len());
    assert(s2.len() == s2.to_multiset().len());
    law_min_is_least(s1);
    law_min_is_least(s2);
    law_max_is_greatest(s1);
    law_max_is_greatest(s2);
    assert forall|x: u64| s1.contains(x) <==> s2.contains(x) by {
        assert(s1.contains(x) <==> s1.to_multiset().count(x) > 0);
        assert(s2.contains(x) <==> s2.to_multiset().count(x) > 0);
    }
    if exists|i: int| 0 <= i < s1.len() && !is_nan(s1[i]) {
        let i = choose|i: int| 0 <= i < s1.len() && !is_nan(s1[i]);
        assert(s2.contains(s1[i]));
        let j = choose|j: int| 0 <= j < s2.len() && s2[j] == s1[i];
        assert(!is_nan(s2[j]));
        let a = fold_min(s1);
        let b = fold_min(s2);
        let ia = choose|ia: int| 0 <= ia < s1.len() && s1[ia] == a;
        let ib = choose|ib: int| 0 <= ib < s2.len() && s2[ib] == b;
        assert(s2.contains(a));
        assert(s1.contains(b));
        let ja = choose|ja: int| 0 <= ja < s2.len() && s2[ja] == a;
        let jb = choose|jb: int| 0 <= jb < s1.len() && s1[jb] == b;
        assert(precedes(b, a));
        assert(precedes(a, b));
        lemma_order_key_injective(a, b);
        let c = fold_max(s1);
        let d = fold_max(s2);
        let ic = choose|ic: int| 0 <= ic < s1.len() && s1[ic] == c;
        let id = choose|id: int| 0 <= id < s2.len() && s2[id] == d;
        assert(s2.contains(c));
        assert(s1.contains(d));
        let jc = choose|jc: int| 0 <= jc < s2.len() && s2[jc] == c;
        let jd = choose|jd: int| 0 <= jd < s1.len() && s1[jd] == d;
        assert(precedes(c, d));
        assert(precedes(d, c));
        lemma_order_key_injective(c, d);
    } else {
        assert forall|j: int| 0 <= j < s2.len() implies is_nan(s2[j]) by {
            assert(s1.contains(s2[j]));
        }
    }
}

} // verus!
