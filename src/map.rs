//! A small open-addressing hash map with linear probing, keyed by `u64`.
//!
//! Keys are hashed by folding their little-endian bytes with `h * 31 + b`.
//! The table doubles before an insertion once it is half full, so a free
//! bucket always remains. Inserting a key that is already present adds a
//! second entry; lookups find the one reached first along the probe.
use vstd::prelude::*;
use vstd::arithmetic::div_mod::{lemma_mod_pos_bound, lemma_mod_self_0, lemma_small_mod};

verus! {

/// Buckets a fresh map starts with.
pub const INITIAL_BUCKETS: usize = 16;

/// Byte `i` (little-endian) of `k`.
pub open spec fn key_byte(k: u64, i: u64) -> u8 {
    ((k >> (8 * i)) & 0xff) as u8
}

/// One step of the hash fold.
pub open spec fn hash_step(h: u64, b: u8) -> u64 {
    h.wrapping_mul(31).wrapping_add(b as u64)
}

/// The hash fold over the first `n` bytes of `k`.
pub open spec fn hash_prefix(k: u64, n: nat) -> u64
    decreases n,
{
    if n == 0 {
        0
    } else {
        hash_step(hash_prefix(k, (n - 1) as nat), key_byte(k, (n - 1) as u64))
    }
}

/// Hash of a key: the fold over its eight bytes.
pub open spec fn key_hash(k: u64) -> u64 {
    hash_prefix(k, 8)
}

/// Hashes a key by folding its bytes.
pub fn simple_hash(k: u64) -> (r: u64)
    ensures
        r == key_hash(k),
{
    let mut h: u64 = 0;
    let mut i: u64 = 0;
    while i < 8
        invariant
            i <= 8,
            h == hash_prefix(k, i as nat),
        decreases 8 - i,
    {
        let b: u8 = ((k >> (8 * i)) & 0xff) as u8;
        h = h.wrapping_mul(31).wrapping_add(b as u64);
        i = i + 1;
    }
    h
}

/// Index after `i` in a table of `n` buckets, wrapping to the first.
pub open spec fn next_index(i: nat, n: nat) -> nat {
    if i + 1 >= n {
        0
    } else {
        i + 1
    }
}

/// Home bucket of `k` in a table of `n` buckets.
pub open spec fn home(k: u64, n: nat) -> nat {
    (key_hash(k) as nat) % n
}

/// First free bucket met when probing `fuel` buckets from `i`.
pub open spec fn probe_empty<V>(b: Seq<Option<(u64, V)>>, i: nat, fuel: nat) -> Option<nat>
    decreases fuel,
{
    if fuel == 0 || i >= b.len() {
        None
    } else if b[i as int] is None {
        Some(i)
    } else {
        probe_empty(b, next_index(i, b.len()), (fuel - 1) as nat)
    }
}

/// Value of the first entry for `k` met when probing `fuel` buckets from `i`,
/// stopping at a free bucket.
pub open spec fn probe_get<V>(b: Seq<Option<(u64, V)>>, k: u64, i: nat, fuel: nat) -> Option<V>
    decreases fuel,
{
    if fuel == 0 || i >= b.len() {
        None
    } else {
        match b[i as int] {
            None => None,
            Some(e) => if e.0 == k {
                Some(e.1)
            } else {
                probe_get(b, k, next_index(i, b.len()), (fuel - 1) as nat)
            },
        }
    }
}

/// What a lookup of `k` in the buckets `b` finds.
pub open spec fn lookup<V>(b: Seq<Option<(u64, V)>>, k: u64) -> Option<V> {
    probe_get(b, k, home(k, b.len()), b.len())
}

/// Number of occupied buckets.
pub open spec fn count_some<V>(b: Seq<Option<(u64, V)>>) -> nat
    decreases b.len(),
{
    if b.len() == 0 {
        0
    } else {
        count_some(b.drop_last()) + if b.last() is Some {
            1nat
        } else {
            0nat
        }
    }
}

/// `b` with `(k, v)` put in the first free bucket from the home of `k`.
pub open spec fn place<V>(b: Seq<Option<(u64, V)>>, k: u64, v: V) -> Seq<Option<(u64, V)>> {
    match probe_empty(b, home(k, b.len()), b.len()) {
        Some(i) => b.update(i as int, Some((k, v))),
        None => b,
    }
}

/// `n` free buckets.
pub open spec fn empty_buckets<V>(n: nat) -> Seq<Option<(u64, V)>> {
    Seq::new(n, |i: int| None)
}

/// `acc` with the entries of `old` placed in turn, first to last.
pub open spec fn reinsert<V>(acc: Seq<Option<(u64, V)>>, old: Seq<Option<(u64, V)>>) -> Seq<
    Option<(u64, V)>,
>
    decreases old.len(),
{
    if old.len() == 0 {
        acc
    } else {
        let before = reinsert(acc, old.drop_last());
        match old.last() {
            Some(e) => place(before, e.0, e.1),
            None => before,
        }
    }
}

/// Buckets after inserting `(k, v)` into `b`: the table first doubles when
/// at least half full.
pub open spec fn after_insert<V>(b: Seq<Option<(u64, V)>>, k: u64, v: V) -> Seq<Option<(u64, V)>> {
    let t = if 2 * count_some(b) >= b.len() {
        reinsert(empty_buckets(2 * b.len()), b)
    } else {
        b
    };
    place(t, k, v)
}

proof fn lemma_probe_empty_none<V>(b: Seq<Option<(u64, V)>>, i: nat, fuel: nat)
    requires
        i < b.len(),
        fuel <= b.len(),
        probe_empty(b, i, fuel) is None,
    ensures
        forall|p: int|
            ((i <= p < b.len() && p < i + fuel) || (0 <= p && p + b.len() < i + fuel))
                ==> #[trigger] b[p] is Some,
    decreases fuel,
{
    if fuel > 0 {
        let j = next_index(i, b.len());
        lemma_probe_empty_none(b, j, (fuel - 1) as nat);
        assert forall|p: int|
            ((i <= p < b.len() && p < i + fuel) || (0 <= p && p + b.len() < i + fuel))
                implies #[trigger] b[p] is Some by {
            if p != i {
                assert((j <= p < b.len() && p < j + fuel - 1) || (0 <= p && p + b.len() < j + fuel - 1));
            }
        }
    }
}

proof fn lemma_probe_empty_some<V>(b: Seq<Option<(u64, V)>>, i: nat, fuel: nat)
    requires
        probe_empty(b, i, fuel) is Some,
    ensures
        probe_empty(b, i, fuel)->0 < b.len(),
        b[probe_empty(b, i, fuel)->0 as int] is None,
    decreases fuel,
{
    if fuel > 0 && i < b.len() && b[i as int] is Some {
        lemma_probe_empty_some(b, next_index(i, b.len()), (fuel - 1) as nat);
    }
}

proof fn lemma_count_some_bound<V>(b: Seq<Option<(u64, V)>>)
    ensures
        count_some(b) <= b.len(),
        count_some(b) == b.len() <==> forall|p: int| 0 <= p < b.len() ==> #[trigger] b[p] is Some,
    decreases b.len(),
{
    if b.len() > 0 {
        lemma_count_some_bound(b.drop_last());
        if count_some(b) == b.len() {
            assert forall|p: int| 0 <= p < b.len() implies #[trigger] b[p] is Some by {
                if p < b.len() - 1 {
                    assert(b.drop_last()[p] == b[p]);
                }
            }
        }
        if forall|p: int| 0 <= p < b.len() ==> #[trigger] b[p] is Some {
            assert forall|p: int| 0 <= p < b.drop_last().len() implies #[trigger] b.drop_last()[p] is Some by {
                assert(b[p] is Some);
            }
        }
    }
}

/// A table with a free bucket has one along every full probe.
proof fn lemma_free_bucket_found<V>(b: Seq<Option<(u64, V)>>, i: nat)
    requires
        i < b.len(),
        count_some(b) < b.len(),
    ensures
        probe_empty(b, i, b.len()) is Some,
        probe_empty(b, i, b.len())->0 < b.len(),
        b[probe_empty(b, i, b.len())->0 as int] is None,
{
    lemma_count_some_bound(b);
    if probe_empty(b, i, b.len()) is None {
        lemma_probe_empty_none(b, i, b.len());
        assert forall|p: int| 0 <= p < b.len() implies #[trigger] b[p] is Some by {
            assert(b[p] is Some);
        }
    }
    lemma_probe_empty_some(b, i, b.len());
}

proof fn lemma_count_some_update<V>(b: Seq<Option<(u64, V)>>, j: int, e: (u64, V))
    requires
        0 <= j < b.len(),
        b[j] is None,
    ensures
        count_some(b.update(j, Some(e))) == count_some(b) + 1,
    decreases b.len(),
{
    let c = b.update(j, Some(e));
    if j < b.len() - 1 {
        assert(c.drop_last() =~= b.drop_last().update(j, Some(e)));
        lemma_count_some_update(b.drop_last(), j, e);
    } else {
        assert(c.drop_last() =~= b.drop_last());
    }
}

proof fn lemma_place_count<V>(b: Seq<Option<(u64, V)>>, k: u64, v: V)
    requires
        b.len() > 0,
        count_some(b) < b.len(),
    ensures
        count_some(place(b, k, v)) == count_some(b) + 1,
        place(b, k, v).len() == b.len(),
{
    lemma_mod_pos_bound(key_hash(k) as int, b.len() as int);
    lemma_free_bucket_found(b, home(k, b.len()));
    let j = probe_empty(b, home(k, b.len()), b.len())->0;
    lemma_count_some_update(b, j as int, (k, v));
}

proof fn lemma_next_index(i: usize, n: usize)
    requires
        i < n,
    ensures
        ((i + 1) % (n as int)) as nat == next_index(i as nat, n as nat),
{
    if i + 1 < n {
        lemma_small_mod((i + 1) as nat, n as nat);
    } else {
        lemma_mod_self_0(n as int);
    }
}

/// A map from `u64` keys to values of `V`, by open addressing.
pub struct HashMap<V> {
    buckets: Vec<Option<(u64, V)>>,
    len: usize,
}

impl<V> View for HashMap<V> {
    type V = Seq<Option<(u64, V)>>;

    closed spec fn view(&self) -> Seq<Option<(u64, V)>> {
        self.buckets@
    }
}

impl<V> HashMap<V> {
    /// The table has buckets, fewer entries than buckets, and counts its
    /// entries.
    pub closed spec fn wf(&self) -> bool {
        &&& self.buckets@.len() >= 2
        &&& count_some(self.buckets@) < self.buckets@.len()
        &&& self.len == count_some(self.buckets@)
    }

    /// An empty map of [`INITIAL_BUCKETS`] buckets.
    pub fn new() -> (r: Self)
        ensures
            r.wf(),
            r@ == empty_buckets::<V>(INITIAL_BUCKETS as nat),
    {
        let mut buckets: Vec<Option<(u64, V)>> = Vec::new();
        let mut i: usize = 0;
        while i < INITIAL_BUCKETS
            invariant
                i <= INITIAL_BUCKETS,
                buckets@ =~= empty_buckets::<V>(i as nat),
            decreases INITIAL_BUCKETS - i,
        {
            buckets.push(None);
            i = i + 1;
        }
        proof {
            assert(count_some(buckets@) == 0) by {
                lemma_count_none(buckets@);
            }
        }
        HashMap { buckets, len: 0 }
    }

    /// Puts `(key, value)` in the first free bucket from the home of `key`.
    fn insert_no_grow(&mut self, key: u64, value: V)
        requires
            old(self).buckets@.len() > 0,
            count_some(old(self).buckets@) < old(self).buckets@.len(),
            old(self).len == count_some(old(self).buckets@),
        ensures
            final(self).buckets@ == place(old(self).buckets@, key, value),
            final(self).buckets@.len() == old(self).buckets@.len(),
            final(self).len == old(self).len + 1,
            final(self).len == count_some(final(self).buckets@),
    {
        let n = self.buckets.len();
        let start = self.hash(key);
        let mut idx = start;
        let mut steps: usize = 0;
        proof {
            lemma_free_bucket_found(self.buckets@, start as nat);
            lemma_place_count(self.buckets@, key, value);
        }
        while steps < n
            invariant
                n == self.buckets@.len(),
                self.buckets@ == old(self).buckets@,
                self.len == old(self).len,
                steps <= n,
                idx < n,
                start == home(key, n as nat),
                probe_empty(self.buckets@, start as nat, n as nat) == probe_empty(
                    self.buckets@,
                    idx as nat,
                    (n - steps) as nat,
                ),
                probe_empty(self.buckets@, start as nat, n as nat) is Some,
                self.len == count_some(old(self).buckets@),
                count_some(old(self).buckets@) < n,
                count_some(place(old(self).buckets@, key, value)) == count_some(old(self).buckets@) + 1,
            decreases n - steps,
        {
            if self.buckets[idx].is_none() {
                self.buckets[idx] = Some((key, value));
                self.len = self.len + 1;
                return;
            }
            proof {
                lemma_next_index(idx, n);
            }
            idx = (idx + 1) % n;
            steps = steps + 1;
        }
        proof {
            assert(false);
        }
    }

    /// Doubles the table and places the old entries again, first to last.
    fn resize(&mut self)
        requires
            old(self).wf(),
            old(self).buckets@.len() * 2 <= usize::MAX,
        ensures
            final(self).buckets@ == reinsert(
                empty_buckets::<V>(2 * old(self).buckets@.len()),
                old(self).buckets@,
            ),
            final(self).buckets@.len() == 2 * old(self).buckets@.len(),
            final(self).len == count_some(final(self).buckets@),
            final(self).len == old(self).len,
    {
        let n = self.buckets.len();
        let ghost old_b = self.buckets@;
        let mut old_buckets: Vec<Option<(u64, V)>> = Vec::new();
        let mut i: usize = 0;
        while i < 2 * n
            invariant
                i <= 2 * n,
                2 * n <= usize::MAX,
                old_buckets@ =~= empty_buckets::<V>(i as nat),
            decreases 2 * n - i,
        {
            old_buckets.push(None);
            i = i + 1;
        }
        std::mem::swap(&mut self.buckets, &mut old_buckets);
        self.len = 0;
        proof {
            lemma_count_none(self.buckets@);
        }
        let mut rev: Vec<Option<(u64, V)>> = Vec::new();
        while old_buckets.len() > 0
            invariant
                old_buckets@ == old_b.subrange(0, old_buckets@.len() as int),
                old_buckets@.len() <= n,
                n == old_b.len(),
                rev@.len() == n - old_buckets@.len(),
                forall|k: int| 0 <= k < rev@.len() ==> #[trigger] rev@[k] == old_b[n - 1 - k],
            decreases old_buckets@.len(),
        {
            let e = old_buckets.pop().unwrap();
            rev.push(e);
        }
        let mut j: usize = 0;
        while rev.len() > 0
            invariant
                n == old_b.len(),
                count_some(old_b) < n,
                2 * n <= usize::MAX,
                j <= n,
                rev@.len() == n - j,
                forall|k: int| 0 <= k < rev@.len() ==> #[trigger] rev@[k] == old_b[n - 1 - k],
                self.buckets@.len() == 2 * n,
                self.buckets@ == reinsert(empty_buckets::<V>((2 * n) as nat), old_b.subrange(0, j as int)),
                self.len == count_some(self.buckets@),
                self.len == count_some(old_b.subrange(0, j as int)),
            decreases rev@.len(),
        {
            let e = rev.pop().unwrap();
            proof {
                assert(e == old_b[j as int]);
                assert(old_b.subrange(0, j + 1).drop_last() =~= old_b.subrange(0, j as int));
                lemma_count_prefix(old_b, (j + 1) as nat);
            }
            match e {
                Some(kv) => {
                    self.insert_no_grow(kv.0, kv.1);
                },
                None => {},
            }
            j = j + 1;
        }
        proof {
            assert(old_b.subrange(0, n as int) =~= old_b);
        }
    }

    /// Adds `(key, value)`, doubling the table first when it is at least half
    /// full. An entry already there for `key` stays: a second one is added.
    pub fn insert(&mut self, key: u64, value: V)
        requires
            old(self).wf(),
            old(self)@.len() * 2 <= usize::MAX,
        ensures
            final(self).wf(),
            final(self)@ == after_insert(old(self)@, key, value),
    {
        if self.len * 2 >= self.buckets.len() {
            self.resize();
        }
        proof {
            lemma_count_some_bound(self.buckets@);
        }
        self.insert_no_grow(key, value);
    }

    /// An iterator over the entries, in bucket order.
    pub fn iter(&self) -> (r: Iter<'_, V>)
        ensures
            r.buckets() == self@,
            r.index() == 0,
    {
        Iter { buckets: &self.buckets, index: 0 }
    }

    /// Home bucket of `key`.
    fn hash(&self, key: u64) -> (r: usize)
        requires
            self.buckets@.len() > 0,
        ensures
            r == home(key, self.buckets@.len()),
            r < self.buckets@.len(),
    {
        let n = self.buckets.len();
        (simple_hash(key) % (n as u64)) as usize
    }

    /// The value of the entry for `key` met first along its probe.
    pub fn get(&self, key: &u64) -> (r: Option<&V>)
        requires
            self.wf(),
        ensures
            match r {
                Some(v) => lookup(self@, *key) == Some(*v),
                None => lookup(self@, *key) is None,
            },
    {
        let n = self.buckets.len();
        let mut idx = self.hash(*key);
        let mut steps: usize = 0;
        while steps < n
            invariant
                self.wf(),
                n == self@.len(),
                steps <= n,
                idx < n,
                lookup(self@, *key) == probe_get(self@, *key, idx as nat, (n - steps) as nat),
            decreases n - steps,
        {
            match &self.buckets[idx] {
                None => return None,
                Some(e) => {
                    if e.0 == *key {
                        return Some(&e.1);
                    }
                },
            }
            proof {
                lemma_next_index(idx, n);
            }
            idx = (idx + 1) % n;
            steps = steps + 1;
        }
        None
    }
}

proof fn lemma_count_none<V>(b: Seq<Option<(u64, V)>>)
    requires
        forall|p: int| 0 <= p < b.len() ==> #[trigger] b[p] is None,
    ensures
        count_some(b) == 0,
    decreases b.len(),
{
    if b.len() > 0 {
        lemma_count_none(b.drop_last());
    }
}

proof fn lemma_count_prefix<V>(b: Seq<Option<(u64, V)>>, j: nat)
    requires
        j <= b.len(),
    ensures
        count_some(b.subrange(0, j as int)) <= count_some(b),
    decreases b.len() - j,
{
    if j < b.len() {
        lemma_count_prefix(b, j + 1);
        assert(b.subrange(0, j + 1 as int).drop_last() =~= b.subrange(0, j as int));
    } else {
        assert(b.subrange(0, j as int) =~= b);
    }
}

/// Walks the entries of a [`HashMap`] in bucket order.
pub struct Iter<'a, V> {
    buckets: &'a Vec<Option<(u64, V)>>,
    index: usize,
}

impl<'a, V> Iter<'a, V> {
    /// The buckets walked.
    pub closed spec fn buckets(&self) -> Seq<Option<(u64, V)>> {
        self.buckets@
    }

    /// The next bucket to look at.
    pub closed spec fn index(&self) -> nat {
        self.index as nat
    }

    /// The entry in the first occupied bucket from the current one, moving
    /// past it; `None` once no occupied bucket is left.
    pub fn next(&mut self) -> (r: Option<(&'a u64, &'a V)>)
        ensures
            final(self).buckets() == old(self).buckets(),
            match r {
                Some(e) => {
                    let j = final(self).index() - 1;
                    &&& old(self).index() <= j < old(self).buckets().len()
                    &&& old(self).buckets()[j] == Some((*e.0, *e.1))
                    &&& forall|m: int|
                        old(self).index() <= m < j ==> #[trigger] old(self).buckets()[m] is None
                },
                None => {
                    &&& forall|m: int|
                        old(self).index() <= m < old(self).buckets().len()
                            ==> #[trigger] old(self).buckets()[m] is None
                    &&& final(self).index() == if old(self).index() <= old(self).buckets().len() {
                        old(self).buckets().len()
                    } else {
                        old(self).index()
                    }
                },
            },
    {
        let b: &'a Vec<Option<(u64, V)>> = self.buckets;
        let ghost start = self.index;
        while self.index < b.len()
            invariant
                self.buckets == b,
                b == old(self).buckets,
                start == old(self).index,
                start <= self.index,
                forall|m: int| start <= m < self.index ==> #[trigger] b@[m] is None,
                start <= b@.len() ==> self.index <= b@.len(),
                start > b@.len() ==> self.index == start,
            decreases b@.len() - self.index,
        {
            match &b[self.index] {
                Some(e) => {
                    self.index = self.index + 1;
                    return Some((&e.0, &e.1));
                },
                None => {},
            }
            self.index = self.index + 1;
        }
        None
    }
}

} // verus!
