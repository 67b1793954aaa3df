//! Grouping accepted records into write transactions, and a bounded queue
//! of records that drops the oldest when full.

use vstd::prelude::*;
use std::collections::VecDeque;
use crate::record::LogMessage;

verus! {

/// Records the writer has taken from its channel and not yet handed out in
/// a batch.
pub struct WriteBatch {
    pending: Vec<LogMessage>,
    max_batch: usize,
    received: Ghost<Seq<LogMessage>>,
    flushed: Ghost<Seq<LogMessage>>,
}

impl WriteBatch {
    /// Every record taken from the channel, in order.
    pub closed spec fn received(&self) -> Seq<LogMessage> {
        self.received@
    }

    /// Every record handed out in a batch, in order.
    pub closed spec fn flushed(&self) -> Seq<LogMessage> {
        self.flushed@
    }

    /// The records waiting for the next batch.
    pub closed spec fn pending(&self) -> Seq<LogMessage> {
        self.pending@
    }

    /// Size at which a batch is handed out without waiting.
    pub closed spec fn max_batch(&self) -> nat {
        self.max_batch as nat
    }

    /// Nothing is lost or reordered between the channel and the batches.
    pub closed spec fn wf(&self) -> bool {
        &&& self.flushed@ + self.pending@ == self.received@
        &&& self.pending@.len() < self.max_batch
    }

    /// An empty batch that is handed out once it holds `max_batch` records.
    pub fn new(max_batch: usize) -> (b: WriteBatch)
        requires
            max_batch > 0,
        ensures
            b.wf(),
            b.max_batch() == max_batch,
            b.pending().len() < b.max_batch(),
            b.received() == Seq::<LogMessage>::empty(),
            b.flushed() == Seq::<LogMessage>::empty(),
            b.pending() == Seq::<LogMessage>::empty(),
    {
        WriteBatch {
            pending: Vec::new(),
            max_batch,
            received: Ghost(Seq::empty()),
            flushed: Ghost(Seq::empty()),
        }
    }

    /// Adds a record taken from the channel. Hands out the batch, this record
    /// last, when it has reached its size or when `more_waiting` says that no
    /// other record is ready in the channel.
    pub fn push(&mut self, record: LogMessage, more_waiting: bool) -> (out: Option<
        Vec<LogMessage>,
    >)
        requires
            old(self).wf(),
        ensures
            final(self).wf(),
            final(self).max_batch() == old(self).max_batch(),
            final(self).pending().len() < final(self).max_batch(),
            out matches Some(b) ==> 1 <= b@.len() <= old(self).max_batch(),
            final(self).received() == old(self).received().push(record),
            ({
                let next = old(self).pending().push(record);
                if next.len() >= old(self).max_batch() || !more_waiting {
                    &&& out matches Some(batch) && batch@ == next
                    &&& final(self).pending() == Seq::<LogMessage>::empty()
                    &&& final(self).flushed() == old(self).flushed() + next
                } else {
                    &&& out is None
                    &&& final(self).pending() == next
                    &&& final(self).flushed() == old(self).flushed()
                }
            }),
    {
        self.pending.push(record);
        self.received = Ghost(self.received@.push(record));
        if self.pending.len() >= self.max_batch || !more_waiting {
            let mut batch: Vec<LogMessage> = Vec::new();
            std::mem::swap(&mut batch, &mut self.pending);
            self.flushed = Ghost(self.flushed@ + batch@);
            proof {
                assert(self.flushed@ + self.pending@ == self.flushed@);
            }
            Some(batch)
        } else {
            proof {
                assert(self.flushed@ + self.pending@ == old(self).flushed@ + old(self).pending@.push(
                    record,
                ));
            }
            None
        }
    }

    /// Hands out whatever is waiting, at the end of the stream.
    pub fn drain(&mut self) -> (batch: Vec<LogMessage>)
        requires
            old(self).wf(),
        ensures
            final(self).wf(),
            final(self).max_batch() == old(self).max_batch(),
            batch@.len() < final(self).max_batch(),
            batch@ == old(self).pending(),
            final(self).pending() == Seq::<LogMessage>::empty(),
            final(self).received() == old(self).received(),
            final(self).flushed() == old(self).flushed() + batch@,
    {
        let mut batch: Vec<LogMessage> = Vec::new();
        std::mem::swap(&mut batch, &mut self.pending);
        self.flushed = Ghost(self.flushed@ + batch@);
        proof {
            assert(self.flushed@ + self.pending@ == self.flushed@);
        }
        batch
    }
}

/// The writer hands out records in the order it took them from the channel:
/// what was handed out, followed by what waits, is what was received.
pub proof fn lemma_batches_keep_order(b: &WriteBatch)
    requires
        b.wf(),
    ensures
        b.flushed() + b.pending() == b.received(),
        b.flushed().len() <= b.received().len(),
        forall|i: int| 0 <= i < b.flushed().len() ==> #[trigger] b.flushed()[i] == b.received()[i],
{
    assert forall|i: int| 0 <= i < b.flushed().len() implies #[trigger] b.flushed()[i]
        == b.received()[i] by {
        assert((b.flushed() + b.pending())[i] == b.flushed()[i]);
    }
}

/// A queue of at most `max_size` records that drops its oldest record to
/// make room for a new one.
pub struct LogQueue {
    queue: VecDeque<LogMessage>,
    max_size: usize,
}

impl View for LogQueue {
    type V = Seq<LogMessage>;

    closed spec fn view(&self) -> Seq<LogMessage> {
        self.queue@
    }
}

impl LogQueue {
    /// The bound given at creation.
    pub closed spec fn max_size(&self) -> nat {
        self.max_size as nat
    }

    /// An empty queue of at most `max_size` records.
    pub fn new(max_size: usize) -> (q: LogQueue)
        ensures
            q@ == Seq::<LogMessage>::empty(),
            q.max_size() == max_size,
    {
        LogQueue { queue: VecDeque::with_capacity(max_size), max_size }
    }

    /// Appends `log`; when the queue already held `max_size` records or
    /// more, the oldest is removed first and returned.
    pub fn push(&mut self, log: LogMessage) -> (dropped: Option<LogMessage>)
        ensures
            final(self).max_size() == old(self).max_size(),
            if old(self)@.len() >= old(self).max_size() && old(self)@.len() > 0 {
                &&& dropped == Some(old(self)@[0])
                &&& final(self)@ == old(self)@.drop_first().push(log)
            } else {
                &&& dropped is None
                &&& final(self)@ == old(self)@.push(log)
            },
    {
        let dropped = if self.queue.len() >= self.max_size {
            self.queue.pop_front()
        } else {
            None
        };
        self.queue.push_back(log);
        dropped
    }

    /// Number of records held.
    pub fn len(&self) -> (n: usize)
        ensures
            n == self@.len(),
    {
        self.queue.len()
    }
}

} // verus!
