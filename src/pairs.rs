//! The colour-pair table: which (foreground, background) combination each
//! registered pair index stands for, with eviction of the highest slot
//! once the driver's pair space is exhausted.
use vstd::prelude::*;
use crate::palette::closest;
use crate::types::Color;

verus! {

/// A resolved (foreground, background) palette combination.
#[derive(Clone, Copy, Debug, PartialEq, Eq, Structural)]
pub struct PairKey {
    pub fg: i16,
    pub bg: i16,
}

/// Where the table holds `k`, as a position in its slot sequence.
pub open spec fn slot_of(s: Seq<PairKey>, k: PairKey) -> int {
    choose|i: int| 0 <= i < s.len() && s[i] == k
}

/// The pair index handed out when `k` is requested from slots `s` with a
/// driver limit of `max` pairs (pair `i + 1` lives in slot `i`).
pub open spec fn index_for(s: Seq<PairKey>, max: int, k: PairKey) -> int {
    if s.contains(k) {
        slot_of(s, k) + 1
    } else if s.len() + 1 < max {
        s.len() + 1int
    } else {
        max - 1
    }
}

/// Whether requesting `k` must register a new pair with the driver.
pub open spec fn registers(s: Seq<PairKey>, k: PairKey) -> bool {
    !s.contains(k)
}

/// Whether requesting `k` evicts the occupant of the highest slot.
pub open spec fn evicts(s: Seq<PairKey>, max: int, k: PairKey) -> bool {
    !s.contains(k) && s.len() + 1 >= max
}

/// The slots after requesting `k`.
pub open spec fn after_request(s: Seq<PairKey>, max: int, k: PairKey) -> Seq<PairKey> {
    if s.contains(k) {
        s
    } else if s.len() + 1 < max {
        s.push(k)
    } else {
        s.update(max - 2, k)
    }
}

/// Well-formed slots: at most `max - 1` of them, no combination twice.
pub open spec fn slots_wf(s: Seq<PairKey>, max: int) -> bool {
    &&& 2 <= max
    &&& s.len() <= max - 1
    &&& s.no_duplicates()
}

/// The slots after a run of requests.
pub open spec fn run(s: Seq<PairKey>, max: int, keys: Seq<PairKey>) -> Seq<PairKey>
    decreases keys.len(),
{
    if keys.len() == 0 {
        s
    } else {
        after_request(run(s, max, keys.drop_last()), max, keys.last())
    }
}

/// How many pairs a run of requests registers with the driver.
pub open spec fn run_registrations(s: Seq<PairKey>, max: int, keys: Seq<PairKey>) -> nat
    decreases keys.len(),
{
    if keys.len() == 0 {
        0
    } else {
        run_registrations(s, max, keys.drop_last()) + if registers(
            run(s, max, keys.drop_last()),
            keys.last(),
        ) {
            1nat
        } else {
            0nat
        }
    }
}

/// How many evictions a run of requests causes.
pub open spec fn run_evictions(s: Seq<PairKey>, max: int, keys: Seq<PairKey>) -> nat
    decreases keys.len(),
{
    if keys.len() == 0 {
        0
    } else {
        run_evictions(s, max, keys.drop_last()) + if evicts(
            run(s, max, keys.drop_last()),
            max,
            keys.last(),
        ) {
            1nat
        } else {
            0nat
        }
    }
}

/// The index handed out for the `i`-th request of a run.
pub open spec fn run_index(s: Seq<PairKey>, max: int, keys: Seq<PairKey>, i: int) -> int {
    index_for(run(s, max, keys.take(i)), max, keys[i])
}

/// Outcome of one request to the table.
#[derive(Clone, Copy, Debug, PartialEq, Eq, Structural)]
pub struct PairRequest {
    /// The pair index to activate.
    pub index: i32,
    /// Whether the caller must register `index` with the driver.
    pub registered: bool,
    /// The combination that lost its pair to make room, if any.
    pub evicted: Option<PairKey>,
}

/// The table of registered colour pairs.
pub struct ColorPairs {
    slots: Vec<PairKey>,
    max_pairs: i16,
}

impl ColorPairs {
    pub closed spec fn view(&self) -> Seq<PairKey> {
        self.slots@
    }

    pub closed spec fn max(&self) -> int {
        self.max_pairs as int
    }

    pub open spec fn wf(&self) -> bool {
        slots_wf(self@, self.max())
    }

    /// An empty table for a driver that offers `max_pairs` pairs, pair 0
    /// included.
    pub fn new(max_pairs: i16) -> (r: ColorPairs)
        requires
            2 <= max_pairs,
        ensures
            r.wf(),
            r@ == Seq::<PairKey>::empty(),
            r.max() == max_pairs,
    {
        ColorPairs { slots: Vec::new(), max_pairs }
    }

    /// The number of pairs currently registered.
    pub fn len(&self) -> (r: usize)
        ensures
            r == self@.len(),
    {
        self.slots.len()
    }

    fn find(&self, k: PairKey) -> (r: Option<usize>)
        ensures
            match r {
                Some(i) => i < self@.len() && self@[i as int] == k,
                None => !self@.contains(k),
            },
    {
        let mut i: usize = 0;
        while i < self.slots.len()
            invariant
                0 <= i <= self.slots@.len(),
                forall|j: int| 0 <= j < i ==> self.slots@[j] != k,
            decreases self.slots@.len() - i,
        {
            if self.slots[i] == k {
                return Some(i);
            }
            i = i + 1;
        }
        None
    }

    /// The pair index for `k`: the one it already holds, else a fresh one,
    /// else the highest slot, whose occupant is evicted.
    pub fn request(&mut self, k: PairKey) -> (r: PairRequest)
        requires
            old(self).wf(),
        ensures
            final(self).wf(),
            final(self).max() == old(self).max(),
            final(self)@ == after_request(old(self)@, old(self).max(), k),
            r.index == index_for(old(self)@, old(self).max(), k),
            r.registered == registers(old(self)@, k),
            1 <= r.index < old(self).max(),
            final(self)@[r.index - 1] == k,
            match r.evicted {
                Some(e) => evicts(old(self)@, old(self).max(), k) && e == old(self)@[r.index - 1],
                None => !evicts(old(self)@, old(self).max(), k),
            },
    {
        match self.find(k) {
            Some(i) => {
                proof {
                    assert(self@.contains(k));
                    let j = slot_of(self@, k);
                    assert(self@[j] == k);
                    assert(j == i);
                }
                PairRequest { index: i as i32 + 1, registered: false, evicted: None }
            },
            None => {
                let n = self.slots.len();
                if n + 1 < self.max_pairs as usize {
                    self.slots.push(k);
                    PairRequest { index: n as i32 + 1, registered: true, evicted: None }
                } else {
                    let last = (self.max_pairs - 2) as usize;
                    let e = self.slots[last];
                    self.slots.set(last, k);
                    proof {
                        let s = old(self)@;
                        assert forall|a: int, b: int|
                            0 <= a < self@.len() && 0 <= b < self@.len() && a != b implies
                            self@[a] != self@[b] by {
                            if a != last && b != last {
                                assert(s[a] != s[b]);
                            } else if a == last {
                                assert(s.contains(s[b]));
                            } else {
                                assert(s.contains(s[a]));
                            }
                        }
                    }
                    PairRequest {
                        index: (self.max_pairs - 1) as i32,
                        registered: true,
                        evicted: Some(e),
                    }
                }
            },
        }
    }
}

proof fn lemma_run_fresh(max: int, keys: Seq<PairKey>)
    requires
        2 <= max,
        keys.no_duplicates(),
        keys.len() <= max - 1,
    ensures
        run(Seq::empty(), max, keys) == keys,
        run_registrations(Seq::empty(), max, keys) == keys.len(),
        run_evictions(Seq::empty(), max, keys) == 0,
    decreases keys.len(),
{
    if keys.len() > 0 {
        let init = keys.drop_last();
        assert(init.no_duplicates()) by {
            assert forall|a: int, b: int| 0 <= a < init.len() && 0 <= b < init.len() && a != b
                implies init[a] != init[b] by {
                assert(keys[a] != keys[b]);
            }
        }
        lemma_run_fresh(max, init);
        assert(!init.contains(keys.last())) by {
            if init.contains(keys.last()) {
                let j = choose|j: int| 0 <= j < init.len() && init[j] == keys.last();
                assert(keys[j] == keys[keys.len() - 1]);
            }
        }
        assert(init.push(keys.last()) =~= keys);
    }
}

/// Requesting up to `max - 1` distinct combinations from an empty table
/// registers each once, evicts nothing, and hands out the indices
/// `1, 2, .., N` in request order.
pub proof fn lemma_distinct_requests_fill_in_order(max: int, keys: Seq<PairKey>)
    requires
        2 <= max,
        keys.no_duplicates(),
        keys.len() <= max - 1,
    ensures
        run(Seq::empty(), max, keys) == keys,
        run_registrations(Seq::empty(), max, keys) == keys.len(),
        run_evictions(Seq::empty(), max, keys) == 0,
        forall|i: int| 0 <= i < keys.len() ==> #[trigger] run_index(Seq::empty(), max, keys, i) == i + 1,
{
    lemma_run_fresh(max, keys);
    assert forall|i: int| 0 <= i < keys.len() implies #[trigger] run_index(
        Seq::empty(),
        max,
        keys,
        i,
    ) == i + 1 by {
        let pre = keys.take(i);
        assert(pre.no_duplicates()) by {
            assert forall|a: int, b: int| 0 <= a < pre.len() && 0 <= b < pre.len() && a != b
                implies pre[a] != pre[b] by {
                assert(keys[a] != keys[b]);
            }
        }
        lemma_run_fresh(max, pre);
        assert(!pre.contains(keys[i])) by {
            if pre.contains(keys[i]) {
                let j = choose|j: int| 0 <= j < pre.len() && pre[j] == keys[i];
                assert(keys[j] == keys[i]);
            }
        }
    }
}

/// Requesting one distinct combination more than the table holds evicts
/// exactly once: the last request takes the highest index from the
/// combination requested just before it, which then is no longer held,
/// so asking for it again registers it anew.
pub proof fn lemma_overflow_evicts_once(max: int, keys: Seq<PairKey>)
    requires
        2 <= max,
        keys.no_duplicates(),
        keys.len() == max,
    ensures
        run_evictions(Seq::empty(), max, keys) == 1,
        run_registrations(Seq::empty(), max, keys) == keys.len(),
        run_index(Seq::empty(), max, keys, max - 1) == max - 1,
        run(Seq::empty(), max, keys) == keys.take(max - 2).push(keys[max - 1]),
        registers(run(Seq::empty(), max, keys), keys[max - 2]),
{
    let init = keys.drop_last();
    assert(init.no_duplicates()) by {
        assert forall|a: int, b: int| 0 <= a < init.len() && 0 <= b < init.len() && a != b
            implies init[a] != init[b] by {
            assert(keys[a] != keys[b]);
        }
    }
    lemma_run_fresh(max, init);
    assert(keys.take(max - 1) =~= init);
    assert(!init.contains(keys.last())) by {
        if init.contains(keys.last()) {
            let j = choose|j: int| 0 <= j < init.len() && init[j] == keys.last();
            assert(keys[j] == keys[keys.len() - 1]);
        }
    }
    let fin = run(Seq::empty(), max, keys);
    assert(fin =~= keys.take(max - 2).push(keys[max - 1]));
    assert(!fin.contains(keys[max - 2])) by {
        if fin.contains(keys[max - 2]) {
            let j = choose|j: int| 0 <= j < fin.len() && fin[j] == keys[max - 2];
            if j < max - 2 {
                assert(keys[j] == keys[max - 2]);
            } else {
                assert(keys[max - 1] == keys[max - 2]);
            }
        }
    }
}

/// Two colours that reduce to the same palette entry share a pair: after
/// either one is requested as foreground over background `bg`, the other
/// is a hit on the same index and registers nothing.
pub proof fn lemma_same_reduction_same_pair(
    s: Seq<PairKey>,
    max: int,
    n: int,
    c1: Color,
    c2: Color,
    bg: i16,
)
    requires
        slots_wf(s, max),
        closest(c1, n) == closest(c2, n),
    ensures
        ({
            let k1 = PairKey { fg: closest(c1, n) as i16, bg };
            let k2 = PairKey { fg: closest(c2, n) as i16, bg };
            let s1 = after_request(s, max, k1);
            &&& index_for(s, max, k1) == index_for(s, max, k2)
            &&& !registers(s1, k2)
            &&& index_for(s1, max, k2) == index_for(s, max, k1)
        }),
{
    let k1 = PairKey { fg: closest(c1, n) as i16, bg };
    let s1 = after_request(s, max, k1);
    if !s.contains(k1) && s.len() + 1 < max {
        assert(s1[s.len() as int] == k1);
    } else if !s.contains(k1) {
        assert(s1[max - 2] == k1);
    }
    assert(s1.contains(k1));
    let j = slot_of(s1, k1);
    if s.contains(k1) {
        assert(s1 == s);
    } else if s.len() + 1 < max {
        assert(j == s.len()) by {
            if j != s.len() {
                assert(s.contains(s1[j]));
            }
        }
    } else {
        assert(j == max - 2) by {
            if j != max - 2 {
                assert(s[j] == k1);
            }
        }
    }
}

} // verus!
