//! The stream-admission cache: which stream identifiers are admitted, and
//! how many records of each have been seen.

use vstd::prelude::*;

verus! {

/// A counter that stops at the largest `usize`.
pub open spec fn bumped(c: nat) -> nat {
    if c < usize::MAX {
        c + 1
    } else {
        c
    }
}

/// What `admit` does to the cache `m`, and whether it admits `h`: a known
/// stream is counted and admitted; an unknown one is added with count 1 while
/// fewer than `max_hashes` streams are known; otherwise it is refused.
pub open spec fn admit_model(m: Map<Seq<char>, nat>, h: Seq<char>, max_hashes: nat) -> (
    Map<Seq<char>, nat>,
    bool,
) {
    if m.contains_key(h) {
        (m.insert(h, bumped(m[h])), true)
    } else if m.len() < max_hashes {
        (m.insert(h, 1), true)
    } else {
        (m, false)
    }
}

/// A stored row count as a cache count: negatives become 0, and counts past
/// the largest `usize` stop there.
pub open spec fn count_of_rows(c: i64) -> nat {
    if c < 0 {
        0
    } else if c > usize::MAX {
        usize::MAX as nat
    } else {
        c as nat
    }
}

/// The (stream, count) pairs of a store query, as values.
pub open spec fn pairs_view(top: Seq<(String, i64)>) -> Seq<(Seq<char>, nat)> {
    top.map_values(|p: (String, i64)| (p.0@, count_of_rows(p.1)))
}

/// The map holding the given pairs; a later pair for the same stream wins.
pub open spec fn seed_map(pairs: Seq<(Seq<char>, nat)>) -> Map<Seq<char>, nat>
    decreases pairs.len(),
{
    if pairs.len() == 0 {
        Map::empty()
    } else {
        seed_map(pairs.drop_last()).insert(pairs.last().0, pairs.last().1)
    }
}

/// The cache rebuilt from the first `max_hashes` pairs of `top`.
pub open spec fn reseeded(top: Seq<(String, i64)>, max_hashes: nat) -> Map<Seq<char>, nat> {
    let n = if top.len() < max_hashes {
        top.len()
    } else {
        max_hashes
    };
    seed_map(pairs_view(top).take(n as int))
}

/// The cache after a sweep: rebuilt from `top` when it holds more than
/// `max_hashes` streams, else unchanged.
pub open spec fn swept(m: Map<Seq<char>, nat>, top: Seq<(String, i64)>, max_hashes: nat) -> Map<
    Seq<char>,
    nat,
> {
    if m.len() > max_hashes {
        reseeded(top, max_hashes)
    } else {
        m
    }
}

/// The stream-admission cache: stream identifier to observed record count.
///
/// The entries sit in two parallel vectors searched in order, so admission
/// costs up to one string comparison per known stream. A `HashMap` keyed by
/// `String` would be faster, but vstd specifies hash maps only for key types
/// whose hashing and equality it models (the integer types), and `String` is
/// not among them; over such a map nothing the cache promises could be proved.
pub struct LogStats {
    keys: Vec<String>,
    counts: Vec<usize>,
    model: Ghost<Map<Seq<char>, nat>>,
}

impl View for LogStats {
    type V = Map<Seq<char>, nat>;

    closed spec fn view(&self) -> Map<Seq<char>, nat> {
        self.model@
    }
}

impl LogStats {
    /// The stored streams are distinct and agree with the model.
    pub closed spec fn wf(&self) -> bool {
        &&& self.keys@.len() == self.counts@.len()
        &&& self.model@.dom().finite()
        &&& self.model@.len() == self.keys@.len()
        &&& forall|i: int|
            0 <= i < self.keys@.len() ==> {
                &&& self.model@.contains_key(#[trigger] self.keys@[i]@)
                &&& self.model@[self.keys@[i]@] == self.counts@[i] as nat
            }
        &&& forall|k: Seq<char>| #[trigger]
            self.model@.contains_key(k) ==> exists|i: int|
                0 <= i < self.keys@.len() && #[trigger] self.keys@[i]@ == k
        &&& forall|i: int, j: int|
            0 <= i < j < self.keys@.len() ==> #[trigger] self.keys@[i]@ != #[trigger] self.keys@[j]@
    }

    /// A well-formed cache holds finitely many streams.
    pub proof fn lemma_finite(&self)
        requires
            self.wf(),
        ensures
            self@.dom().finite(),
    {
    }

    /// An empty cache.
    pub fn new() -> (s: LogStats)
        ensures
            s.wf(),
            s@.dom().finite(),
            s@ == Map::<Seq<char>, nat>::empty(),
    {
        LogStats { keys: Vec::new(), counts: Vec::new(), model: Ghost(Map::empty()) }
    }

    /// Number of distinct streams held.
    pub fn cardinality(&self) -> (n: usize)
        requires
            self.wf(),
        ensures
            n == self@.len(),
    {
        self.keys.len()
    }

    /// The count held for `hash`, if the stream is known.
    pub fn count_of(&self, hash: &String) -> (r: Option<usize>)
        requires
            self.wf(),
        ensures
            r is Some <==> self@.contains_key(hash@),
            r matches Some(c) ==> self@[hash@] == c as nat,
    {
        match self.position(hash) {
            Some(i) => Some(self.counts[i]),
            None => None,
        }
    }

    fn position(&self, hash: &String) -> (r: Option<usize>)
        requires
            self.wf(),
        ensures
            r matches Some(i) ==> i < self.keys@.len() && self.keys@[i as int]@ == hash@,
            r is None ==> !self@.contains_key(hash@),
    {
        let mut i: usize = 0;
        while i < self.keys.len()
            invariant
                self.wf(),
                i <= self.keys@.len(),
                forall|j: int| 0 <= j < i ==> #[trigger] self.keys@[j]@ != hash@,
            decreases self.keys@.len() - i,
        {
            if self.keys[i] == *hash {
                return Some(i);
            }
            i += 1;
        }
        None
    }

    fn set_at(&mut self, i: usize, count: usize)
        requires
            old(self).wf(),
            i < old(self).keys@.len(),
        ensures
            final(self).wf(),
            final(self)@ == old(self)@.insert(old(self).keys@[i as int]@, count as nat),
    {
        let ghost k = self.keys@[i as int]@;
        self.counts.set(i, count);
        self.model = Ghost(self.model@.insert(k, count as nat));
        assert(self.model@.dom() =~= old(self).model@.dom());
        assert forall|kk: Seq<char>| #[trigger] self.model@.contains_key(kk) implies exists|j: int|
            0 <= j < self.keys@.len() && #[trigger] self.keys@[j]@ == kk by {
            assert(old(self).model@.contains_key(kk));
            let j = choose|j: int|
                0 <= j < old(self).keys@.len() && #[trigger] old(self).keys@[j]@ == kk;
            assert(self.keys@[j]@ == kk);
        }
    }

    fn push_new(&mut self, hash: String, count: usize)
        requires
            old(self).wf(),
            !old(self)@.contains_key(hash@),
        ensures
            final(self).wf(),
            final(self)@ == old(self)@.insert(hash@, count as nat),
    {
        let ghost k = hash@;
        let ghost n = self.keys@.len();
        self.keys.push(hash);
        self.counts.push(count);
        self.model = Ghost(self.model@.insert(k, count as nat));
        assert(self.keys@[n as int]@ == k);
        assert forall|kk: Seq<char>| #[trigger] self.model@.contains_key(kk) implies exists|j: int|
            0 <= j < self.keys@.len() && #[trigger] self.keys@[j]@ == kk by {
            if kk != k {
                assert(old(self).model@.contains_key(kk));
                let j = choose|j: int| 0 <= j < old(self).keys@.len() && #[trigger] old(self).keys@[j]@ == kk;
                assert(self.keys@[j]@ == kk);
            }
        }
    }

    /// Sets the count of `hash`, adding the stream if it is new.
    pub fn put(&mut self, hash: String, count: usize)
        requires
            old(self).wf(),
        ensures
            final(self).wf(),
            final(self)@.dom().finite(),
            final(self)@ == old(self)@.insert(hash@, count as nat),
    {
        match self.position(&hash) {
            Some(i) => self.set_at(i, count),
            None => self.push_new(hash, count),
        }
    }

    /// Decides whether a record of stream `hash` is accepted, and counts it.
    pub fn admit_hash(&mut self, hash: &String, max_hashes: usize) -> (admitted: bool)
        requires
            old(self).wf(),
        ensures
            final(self).wf(),
            final(self)@.dom().finite(),
            (final(self)@, admitted) == admit_model(old(self)@, hash@, max_hashes as nat),
            final(self)@.len() == old(self)@.len() + if admitted && !old(self)@.contains_key(
                hash@,
            ) {
                1int
            } else {
                0int
            },
    {
        proof {
            self.lemma_finite();
        }
        match self.position(hash) {
            Some(i) => {
                let c = self.counts[i];
                let next = if c < usize::MAX {
                    c + 1
                } else {
                    c
                };
                self.set_at(i, next);
                true
            },
            None => {
                if self.keys.len() < max_hashes {
                    self.push_new(hash.clone(), 1);
                    true
                } else {
                    false
                }
            },
        }
    }

    /// Whether the cache holds more streams than `max_hashes` and must be
    /// rebuilt from the store.
    pub fn needs_reseed(&self, max_hashes: usize) -> (r: bool)
        requires
            self.wf(),
        ensures
            r == (self@.len() > max_hashes),
    {
        self.keys.len() > max_hashes
    }

    /// Replaces the whole content with the first `max_hashes` of the
    /// (stream, row count) pairs `top`.
    pub fn reseed(&mut self, top: &Vec<(String, i64)>, max_hashes: usize)
        ensures
            final(self).wf(),
            final(self)@.dom().finite(),
            final(self)@ == reseeded(top@, max_hashes as nat),
            final(self)@.len() <= max_hashes,
    {
        let limit: usize = if top.len() < max_hashes {
            top.len()
        } else {
            max_hashes
        };
        let mut fresh = LogStats::new();
        let mut i: usize = 0;
        while i < limit
            invariant
                limit <= top@.len(),
                limit <= max_hashes,
                i <= limit,
                fresh.wf(),
                fresh@ == seed_map(pairs_view(top@).take(i as int)),
                fresh@.len() <= i,
            decreases limit - i,
        {
            let key = top[i].0.clone();
            let count = count_from_rows(top[i].1);
            proof {
                let p = pairs_view(top@);
                assert(p.take(i + 1).drop_last() =~= p.take(i as int));
            }
            fresh.put(key, count);
            i += 1;
        }
        *self = fresh;
    }
}

fn count_from_rows(c: i64) -> (r: usize)
    ensures
        r as nat == count_of_rows(c),
{
    if c < 0 {
        0
    } else if c as u64 > usize::MAX as u64 {
        usize::MAX
    } else {
        c as usize
    }
}

/// `seed_map` holds no more streams than it was given pairs.
pub proof fn lemma_seed_map_len(pairs: Seq<(Seq<char>, nat)>)
    ensures
        seed_map(pairs).dom().finite(),
        seed_map(pairs).len() <= pairs.len(),
    decreases pairs.len(),
{
    if pairs.len() > 0 {
        lemma_seed_map_len(pairs.drop_last());
    }
}

/// Admission never takes a cache past `max_hashes` streams.
pub proof fn lemma_admit_keeps_bound(m: Map<Seq<char>, nat>, h: Seq<char>, max_hashes: nat)
    requires
        m.dom().finite(),
        m.len() <= max_hashes,
    ensures
        admit_model(m, h, max_hashes).0.dom().finite(),
        admit_model(m, h, max_hashes).0.len() <= max_hashes,
{
    if m.contains_key(h) {
        assert(m.insert(h, bumped(m[h])).dom() =~= m.dom());
    }
}

/// After a sweep the cache holds at most `max_hashes` streams.
pub proof fn lemma_sweep_bounds_cache(
    m: Map<Seq<char>, nat>,
    top: Seq<(String, i64)>,
    max_hashes: nat,
)
    ensures
        swept(m, top, max_hashes).len() <= max_hashes,
{
    if m.len() > max_hashes {
        let n = if top.len() < max_hashes {
            top.len()
        } else {
            max_hashes
        };
        lemma_seed_map_len(pairs_view(top).take(n as int));
    }
}

/// With room for one more stream, a new stream is admitted, and the next new
/// stream after it is refused, leaving the cache as it was.
pub proof fn lemma_last_slot(
    m: Map<Seq<char>, nat>,
    first: Seq<char>,
    second: Seq<char>,
    max_hashes: nat,
)
    requires
        m.dom().finite(),
        m.len() + 1 == max_hashes,
        !m.contains_key(first),
        !m.contains_key(second),
        first != second,
    ensures
        admit_model(m, first, max_hashes).1,
        !admit_model(admit_model(m, first, max_hashes).0, second, max_hashes).1,
        admit_model(admit_model(m, first, max_hashes).0, second, max_hashes).0 == admit_model(
            m,
            first,
            max_hashes,
        ).0,
{
}

} // verus!
