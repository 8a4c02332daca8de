use vstd::prelude::*;

verus! {

/// Concatenation of a sequence of byte buffers.
pub open spec fn concat_bufs(s: Seq<Seq<u8>>) -> Seq<u8>
    decreases s.len(),
{
    if s.len() == 0 {
        Seq::empty()
    } else {
        s[0] + concat_bufs(s.skip(1))
    }
}

proof fn lemma_concat_push(s: Seq<Seq<u8>>, v: Seq<u8>)
    ensures
        concat_bufs(s.push(v)) == concat_bufs(s) + v,
    decreases s.len(),
{
    if s.len() == 0 {
        assert(s.push(v).skip(1) =~= Seq::<Seq<u8>>::empty());
        assert(s.push(v)[0] == v);
        assert(concat_bufs(Seq::<Seq<u8>>::empty()) =~= Seq::<u8>::empty());
        assert(concat_bufs(s.push(v)) =~= v + Seq::<u8>::empty());
        assert(concat_bufs(s.push(v)) =~= concat_bufs(s) + v);
    } else {
        assert(s.push(v).skip(1) =~= s.skip(1).push(v));
        lemma_concat_push(s.skip(1), v);
        assert(concat_bufs(s.push(v)) =~= concat_bufs(s) + v);
    }
}

/// What the outcome of one write attempt on the sink was. The sink itself —
/// a non-blocking socket — lives with the caller, who reports back how many
/// bytes it took.
#[derive(Clone, Copy, PartialEq, Eq, Structural, Debug)]
pub enum DrainStatus {
    /// The queue is empty; everything was written.
    Empty,
    /// Bytes remain; attempt another write of the current head remainder.
    Busy,
    /// The sink took nothing; stop draining and re-arm writable interest.
    NotWritable,
}

/// A per-socket FIFO of partially written byte buffers. The queue tracks a
/// byte offset into its head buffer; the bytes still owed to the sink are
/// the head past the offset followed by the remaining buffers, in order.
/// The caller performs the actual non-blocking writes and reports each
/// outcome back, so the accounting here is exact whatever the sink does.
pub struct OutQueue {
    q: Vec<Vec<u8>>,
    offset: usize,
}

impl OutQueue {
    /// The queued buffers as byte sequences.
    pub closed spec fn bufs(self) -> Seq<Seq<u8>> {
        self.q@.map_values(|v: Vec<u8>| v@)
    }

    /// The offset into the head buffer of bytes already written.
    pub closed spec fn offset_spec(self) -> int {
        self.offset as int
    }

    /// No buffer is stored empty, the offset stays inside the head, and an
    /// empty queue carries no offset.
    pub open spec fn wf(self) -> bool {
        &&& self.bufs().len() == 0 ==> self.offset_spec() == 0
        &&& forall|i: int| 0 <= i < self.bufs().len() ==> (#[trigger] self.bufs()[i]).len() > 0
        &&& self.bufs().len() > 0 ==> self.offset_spec() < self.bufs()[0].len()
    }

    /// The bytes still owed to the sink, in order.
    pub open spec fn pending(self) -> Seq<u8> {
        if self.bufs().len() == 0 {
            Seq::empty()
        } else {
            self.bufs()[0].skip(self.offset_spec()) + concat_bufs(self.bufs().skip(1))
        }
    }

    /// An empty queue.
    pub fn new() -> (r: OutQueue)
        ensures
            r.wf(),
            r.pending() == Seq::<u8>::empty(),
            r.bufs().len() == 0,
    {
        OutQueue { q: Vec::new(), offset: 0 }
    }

    /// Whether nothing is owed.
    pub fn is_empty(&self) -> (r: bool)
        requires
            self.wf(),
        ensures
            r == (self.bufs().len() == 0),
            r == (self.pending().len() == 0),
    {
        proof {
            if self.bufs().len() > 0 {
                assert(self.pending().len() >= self.bufs()[0].skip(self.offset_spec()).len());
            }
        }
        self.q.len() == 0
    }

    /// The head buffer, if any; together with [`OutQueue::offset`] it names
    /// the slice the caller should write next.
    pub fn front(&self) -> (r: Option<&Vec<u8>>)
        ensures
            match r {
                Some(v) => self.bufs().len() > 0 && v@ == self.bufs()[0],
                None => self.bufs().len() == 0,
            },
    {
        if self.q.len() == 0 {
            None
        } else {
            Some(&self.q[0])
        }
    }

    /// How many bytes of the head buffer were already written.
    pub fn offset(&self) -> (r: usize)
        ensures
            r as int == self.offset_spec(),
    {
        self.offset
    }

    /// Accounts for one attempt to send `buf`: the caller tried an
    /// immediate write only if the queue was empty, and `written` bytes
    /// went out. Everything of `buf` past `written` is now owed; the result
    /// says whether the whole buffer went. On `false` the caller must
    /// include writable in its interest and drain later.
    pub fn write(&mut self, buf: Vec<u8>, written: usize) -> (r: bool)
        requires
            old(self).wf(),
            written <= buf@.len(),
            old(self).bufs().len() > 0 ==> written == 0,
        ensures
            final(self).wf(),
            r == (written == buf@.len()),
            final(self).pending() == old(self).pending() + buf@.skip(written as int),
            r ==> *final(self) == *old(self),
    {
        if written == buf.len() {
            proof {
                assert(buf@.skip(written as int) =~= Seq::<u8>::empty());
                assert(old(self).pending() + buf@.skip(written as int) =~= old(self).pending());
            }
            return true;
        }
        if self.q.len() == 0 {
            self.offset = written;
            self.q.push(buf);
            proof {
                assert(self.bufs() =~= old(self).bufs().push(buf@));
                assert(self.bufs().skip(1) =~= Seq::<Seq<u8>>::empty());
                assert(self.pending() =~= old(self).pending() + buf@.skip(written as int));
            }
        } else {
            self.q.push(buf);
            proof {
                assert(self.bufs() =~= old(self).bufs().push(buf@));
                assert(self.bufs().skip(1) =~= old(self).bufs().skip(1).push(buf@));
                lemma_concat_push(old(self).bufs().skip(1), buf@);
                assert(self.bufs()[0] == old(self).bufs()[0]);
                assert(buf@.skip(0) =~= buf@);
                assert(self.pending() =~= old(self).pending() + buf@.skip(written as int));
            }
        }
        false
    }

    /// Accounts for one write attempt while flushing: the caller tried to
    /// send the head remainder and `written` bytes of it went out. The
    /// bytes owed shrink by exactly the first `written` — nothing is lost
    /// and nothing is sent twice. Zero bytes taken on a backed-up queue
    /// means the sink is not writable; the caller stops and re-arms
    /// writable interest. Draining an empty queue touches nothing and
    /// reports it empty.
    pub fn drain(&mut self, written: usize) -> (r: DrainStatus)
        requires
            old(self).wf(),
            old(self).bufs().len() > 0 ==> written <= old(self).bufs()[0].len() - old(
                self,
            ).offset_spec(),
            old(self).bufs().len() == 0 ==> written == 0,
        ensures
            final(self).wf(),
            final(self).pending() == old(self).pending().skip(written as int),
            r == DrainStatus::NotWritable <==> (written == 0 && old(self).bufs().len() > 0),
            written == 0 ==> *final(self) == *old(self),
            r == DrainStatus::Empty <==> final(self).pending().len() == 0,
            r == DrainStatus::Empty <==> final(self).bufs().len() == 0,
    {
        if self.q.len() == 0 {
            proof {
                assert(self.pending() =~= self.pending().skip(0));
            }
            return DrainStatus::Empty;
        }
        proof {
            assert(old(self).pending().len() >= old(self).bufs()[0].skip(
                old(self).offset_spec(),
            ).len());
        }
        if written == 0 {
            proof {
                assert(self.pending() =~= self.pending().skip(0));
            }
            return DrainStatus::NotWritable;
        }
        let head_len = self.q[0].len();
        if written == head_len - self.offset {
            let _ = self.q.remove(0);
            self.offset = 0;
            proof {
                assert(self.bufs() =~= old(self).bufs().skip(1));
                assert(self.pending() =~= old(self).pending().skip(written as int));
                if self.bufs().len() > 0 {
                    assert(self.pending().len() >= self.bufs()[0].skip(0).len());
                }
            }
            if self.q.len() == 0 {
                DrainStatus::Empty
            } else {
                DrainStatus::Busy
            }
        } else {
            self.offset = self.offset + written;
            proof {
                assert(self.bufs() =~= old(self).bufs());
                assert(self.bufs()[0].skip(self.offset_spec()) =~= old(self).bufs()[0].skip(
                    old(self).offset_spec(),
                ).skip(written as int));
                assert(self.pending() =~= old(self).pending().skip(written as int));
                assert(self.pending().len() > 0);
            }
            DrainStatus::Busy
        }
    }
}

} // verus!
