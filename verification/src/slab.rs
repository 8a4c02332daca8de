use vstd::prelude::*;

verus! {

/// An opaque small-integer identifier for a slot in one of the reactor's
/// slabs. Tokens are stable for the lifetime of the slot they name.
#[derive(Clone, Copy, PartialEq, Eq, Structural, Debug, Hash)]
pub struct Token(pub usize);

/// Counts the occupied slots of a slot table.
pub open spec fn num_some<T>(s: Seq<Option<T>>) -> int
    decreases s.len(),
{
    if s.len() == 0 {
        0
    } else {
        num_some(s.drop_last()) + if s.last() is Some {
            1int
        } else {
            0int
        }
    }
}

proof fn lemma_num_some_bounds<T>(s: Seq<Option<T>>)
    ensures
        0 <= num_some(s) <= s.len(),
    decreases s.len(),
{
    if s.len() > 0 {
        lemma_num_some_bounds(s.drop_last());
    }
}

proof fn lemma_num_some_update<T>(s: Seq<Option<T>>, i: int, v: Option<T>)
    requires
        0 <= i < s.len(),
    ensures
        num_some(s.update(i, v)) == num_some(s) + (if v is Some {
            1int
        } else {
            0int
        }) - (if s[i] is Some {
            1int
        } else {
            0int
        }),
    decreases s.len(),
{
    let t = s.update(i, v);
    if i == s.len() - 1 {
        assert(t.drop_last() =~= s.drop_last());
    } else {
        assert(t.drop_last() =~= s.drop_last().update(i, v));
        assert(t.last() == s.last());
        lemma_num_some_update(s.drop_last(), i, v);
    }
}

proof fn lemma_num_some_all_some<T>(s: Seq<Option<T>>)
    requires
        forall|i: int| 0 <= i < s.len() ==> s[i] is Some,
    ensures
        num_some(s) == s.len(),
    decreases s.len(),
{
    if s.len() > 0 {
        lemma_num_some_all_some(s.drop_last());
    }
}

proof fn lemma_num_some_has_none<T>(s: Seq<Option<T>>, i: int)
    requires
        0 <= i < s.len(),
        s[i] is None,
    ensures
        num_some(s) < s.len(),
    decreases s.len(),
{
    lemma_num_some_bounds(s.drop_last());
    if i < s.len() - 1 {
        lemma_num_some_has_none(s.drop_last(), i);
    }
}

/// A dense slot table keyed by `Token`, drawing its tokens from the
/// half-open range `[start, start + capacity)`. Insertion allocates the
/// lowest free token; a token stays valid until its slot is removed.
pub struct Slab<T> {
    entries: Vec<Option<T>>,
    off: usize,
    count: usize,
}

impl<T> Slab<T> {
    /// The slots, indexed from 0; slot `i` holds the entry for token `start + i`.
    pub closed spec fn slots(&self) -> Seq<Option<T>> {
        self.entries@
    }

    /// The first token of this slab's range.
    pub closed spec fn start(&self) -> int {
        self.off as int
    }

    /// How many slots the slab was configured with.
    pub open spec fn capacity_spec(&self) -> int {
        self.slots().len() as int
    }

    /// One past the last token of this slab's range.
    pub open spec fn end(&self) -> int {
        self.start() + self.capacity_spec()
    }

    pub open spec fn in_range(&self, t: int) -> bool {
        self.start() <= t < self.end()
    }

    /// The slot index a token names.
    pub open spec fn idx(&self, t: int) -> int {
        t - self.start()
    }

    /// Whether the token names a filled slot.
    pub open spec fn occupied(&self, t: int) -> bool {
        self.in_range(t) && self.slots()[self.idx(t)] is Some
    }

    /// The entry a token names.
    pub open spec fn value_at(&self, t: int) -> T
        recommends
            self.occupied(t),
    {
        self.slots()[self.idx(t)]->0
    }

    /// How many slots are filled.
    pub closed spec fn count_spec(&self) -> int {
        self.count as int
    }

    pub open spec fn wf(&self) -> bool {
        &&& self.count_spec() == num_some(self.slots())
        &&& self.end() <= usize::MAX
    }

    /// An empty slab whose tokens start at `off`.
    pub fn new_starting_at(off: Token, capacity: usize) -> (s: Slab<T>)
        requires
            off.0 + capacity <= usize::MAX,
        ensures
            s.wf(),
            s.start() == off.0,
            s.capacity_spec() == capacity,
            s.count_spec() == 0,
            forall|t: int| !s.occupied(t),
    {
        let mut entries: Vec<Option<T>> = Vec::new();
        let mut i: usize = 0;
        while i < capacity
            invariant
                i <= capacity,
                entries@.len() == i,
                forall|j: int| 0 <= j < i ==> entries@[j] is None,
                num_some(entries@) == 0,
            decreases capacity - i,
        {
            let ghost prev = entries@;
            entries.push(None);
            proof {
                assert(entries@.drop_last() =~= prev);
            }
            i = i + 1;
        }
        Slab { entries, off: off.0, count: 0 }
    }

    /// Whether `tok` names a filled slot.
    pub fn contains(&self, tok: Token) -> (r: bool)
        ensures
            r == self.occupied(tok.0 as int),
    {
        tok.0 >= self.off && tok.0 - self.off < self.entries.len() && self.entries[tok.0
            - self.off].is_some()
    }

    /// How many slots are filled.
    pub fn count(&self) -> (r: usize)
        ensures
            r as int == self.count_spec(),
    {
        self.count
    }

    /// How many slots the slab was configured with.
    pub fn capacity(&self) -> (r: usize)
        ensures
            r as int == self.capacity_spec(),
    {
        self.entries.len()
    }

    /// What holds after `val` was inserted under the token `tok`: the
    /// lowest free slot was taken, and nothing else changed.
    pub open spec fn insert_post(pre: Self, post: Self, val: T, tok: Token) -> bool {
        &&& pre.in_range(tok.0 as int)
        &&& !pre.occupied(tok.0 as int)
        &&& forall|t: int| pre.start() <= t < tok.0 ==> pre.occupied(t)
        &&& post.slots() == pre.slots().update(pre.idx(tok.0 as int), Some(val))
        &&& post.count_spec() == pre.count_spec() + 1
        &&& pre.count_spec() < pre.capacity_spec()
        &&& post.start() == pre.start()
        &&& post.capacity_spec() == pre.capacity_spec()
    }

    /// Fills the lowest free slot with `val` and returns its token; a full
    /// slab returns the value back and is left unchanged.
    pub fn insert(&mut self, val: T) -> (r: Result<Token, T>)
        requires
            old(self).wf(),
        ensures
            final(self).wf(),
            final(self).start() == old(self).start(),
            final(self).capacity_spec() == old(self).capacity_spec(),
            match r {
                Ok(tok) => Self::insert_post(*old(self), *final(self), val, tok),
                Err(v) => {
                    &&& v == val
                    &&& old(self).count_spec() == old(self).capacity_spec()
                    &&& *final(self) == *old(self)
                },
            },
    {
        let mut i: usize = 0;
        while i < self.entries.len()
            invariant
                self == old(self),
                self.wf(),
                i <= self.entries@.len(),
                forall|j: int| 0 <= j < i ==> self.entries@[j] is Some,
            decreases self.entries@.len() - i,
        {
            if self.entries[i].is_none() {
                proof {
                    lemma_num_some_has_none(self.entries@, i as int);
                    lemma_num_some_update(self.entries@, i as int, Some(val));
                }
                let slot = vstd::std_specs::vec::vec_index_mut(&mut self.entries, i);
                *slot = Some(val);
                self.count = self.count + 1;
                return Ok(Token(self.off + i));
            }
            i = i + 1;
        }
        proof {
            lemma_num_some_all_some(self.entries@);
        }
        Err(val)
    }

    /// A borrow of the entry `tok` names, if the slot is filled.
    pub fn get(&self, tok: Token) -> (r: Option<&T>)
        ensures
            match r {
                Some(v) => self.occupied(tok.0 as int) && *v == self.value_at(tok.0 as int),
                None => !self.occupied(tok.0 as int),
            },
    {
        if tok.0 >= self.off && tok.0 - self.off < self.entries.len() {
            match &self.entries[tok.0 - self.off] {
                Some(v) => Some(v),
                None => None,
            }
        } else {
            None
        }
    }

    /// A mutable borrow of the entry `tok` names, if the slot is filled.
    pub fn get_mut(&mut self, tok: Token) -> (r: Option<&mut T>)
        requires
            old(self).wf(),
        ensures
            match r {
                Some(v) => {
                    &&& old(self).occupied(tok.0 as int)
                    &&& *v == old(self).value_at(tok.0 as int)
                    &&& final(self).slots() == old(self).slots().update(
                        old(self).idx(tok.0 as int),
                        Some(*final(v)),
                    )
                    &&& final(self).count_spec() == old(self).count_spec()
                    &&& final(self).start() == old(self).start()
                    &&& final(self).wf()
                },
                None => !old(self).occupied(tok.0 as int) && *final(self) == *old(self),
            },
    {
        if tok.0 >= self.off && tok.0 - self.off < self.entries.len() && self.entries[tok.0
            - self.off].is_some() {
            let i = tok.0 - self.off;
            proof {
                lemma_num_some_update(
                    self.entries@,
                    i as int,
                    self.entries@[i as int],
                );
            }
            let slot = vstd::std_specs::vec::vec_index_mut(&mut self.entries, i);
            match slot {
                Some(v) => {
                    proof {
                        lemma_num_some_update(old(self).entries@, i as int, Some(*final(v)));
                    }
                    Some(v)
                },
                None => unreached(),
            }
        } else {
            None
        }
    }

    /// Swaps `val` into the filled slot `tok` names and returns the previous
    /// entry; this is the vacate-and-restore primitive.
    pub fn replace(&mut self, tok: Token, val: T) -> (r: T)
        requires
            old(self).wf(),
            old(self).occupied(tok.0 as int),
        ensures
            final(self).wf(),
            r == old(self).value_at(tok.0 as int),
            final(self).slots() == old(self).slots().update(
                old(self).idx(tok.0 as int),
                Some(val),
            ),
            final(self).count_spec() == old(self).count_spec(),
            final(self).start() == old(self).start(),
            final(self).capacity_spec() == old(self).capacity_spec(),
    {
        let i = tok.0 - self.off;
        proof {
            lemma_num_some_update(self.entries@, i as int, Some(val));
        }
        let slot = vstd::std_specs::vec::vec_index_mut(&mut self.entries, i);
        let prev = slot.take();
        *slot = Some(val);
        match prev {
            Some(v) => v,
            None => unreached(),
        }
    }

    /// Empties the slot `tok` names and returns its entry; an unfilled token
    /// returns `None` and leaves the slab unchanged.
    pub fn remove(&mut self, tok: Token) -> (r: Option<T>)
        requires
            old(self).wf(),
        ensures
            final(self).wf(),
            final(self).start() == old(self).start(),
            final(self).capacity_spec() == old(self).capacity_spec(),
            match r {
                Some(v) => {
                    &&& old(self).occupied(tok.0 as int)
                    &&& v == old(self).value_at(tok.0 as int)
                    &&& final(self).slots() == old(self).slots().update(
                        old(self).idx(tok.0 as int),
                        None,
                    )
                    &&& final(self).count_spec() == old(self).count_spec() - 1
                },
                None => !old(self).occupied(tok.0 as int) && *final(self) == *old(self),
            },
    {
        if tok.0 >= self.off && tok.0 - self.off < self.entries.len() && self.entries[tok.0
            - self.off].is_some() {
            let i = tok.0 - self.off;
            proof {
                lemma_num_some_update(self.entries@, i as int, None::<T>);
                lemma_num_some_bounds(self.entries@.update(i as int, None::<T>));
            }
            let slot = vstd::std_specs::vec::vec_index_mut(&mut self.entries, i);
            let prev = slot.take();
            self.count = self.count - 1;
            match prev {
                Some(v) => Some(v),
                None => unreached(),
            }
        } else {
            None
        }
    }
}

/// A well-formed slab never holds more entries than it was configured for;
/// together with `insert`, which errors on a full slab without side
/// effects, the configured capacity is never exceeded.
pub proof fn lemma_count_within_capacity<T>(s: Slab<T>)
    requires
        s.wf(),
    ensures
        0 <= s.count_spec() <= s.capacity_spec(),
{
    lemma_num_some_bounds(s.slots());
}

/// Tokens are handed out in increasing order until a removal frees an
/// earlier slot: of two consecutive insertions, the second returns the
/// greater token.
pub proof fn lemma_tokens_monotonic<T>(
    s0: Slab<T>,
    s1: Slab<T>,
    s2: Slab<T>,
    v1: T,
    v2: T,
    t1: Token,
    t2: Token,
)
    requires
        Slab::insert_post(s0, s1, v1, t1),
        Slab::insert_post(s1, s2, v2, t2),
    ensures
        t2.0 > t1.0,
{
    if t2.0 < t1.0 {
        assert(s0.occupied(t2.0 as int));
        assert(s1.occupied(t2.0 as int));
    }
    if t2.0 == t1.0 {
        assert(s1.occupied(t2.0 as int));
    }
}

} // verus!
