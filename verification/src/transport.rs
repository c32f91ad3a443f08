//! Transport outcomes, and a scripted transport for driving the I/O loop.
//!
//! The real transport lives outside the library: whoever owns it reports
//! each non-blocking read or write attempt as one of the outcomes below,
//! and the loop logic decides what follows.  The scripted transport plays a
//! fixed list of outcomes back, so whole sessions can be run, verified and
//! tested without any I/O.
use vstd::prelude::*;

verus! {

/// What one non-blocking read attempt on the transport produced.
pub enum ReadOutcome {
    /// The bytes read.  An empty payload means the transport returned zero
    /// bytes without an end-of-stream signal, which the loop treats as an
    /// unexpected closure.
    Data(Vec<u8>),
    /// Nothing to read this cycle; not an error.
    WouldBlock,
    /// Orderly end of stream: the remote side closed.
    EndOfStream,
    /// Any other read error, with its message.
    Failed(String),
}

/// What one write attempt on the transport produced.
pub enum WriteOutcome {
    /// The transport accepted this many bytes from the front of what was
    /// offered; possibly fewer than offered, never more.
    Accepted(usize),
    /// The transport accepted nothing this time; not an error.
    WouldBlock,
    /// Any other write error, with its message.
    Failed(String),
}

/// What one flush-and-sync attempt after a write produced.
pub enum SyncOutcome {
    /// The sync went through, or would have blocked; neither is an error.
    Done,
    /// The sync failed with this message: reported, but not fatal by
    /// itself.
    Failed(String),
}

/// One scripted answer to a write attempt.
pub enum WriteStep {
    /// Accept up to this many of the offered bytes.
    AcceptUpTo(usize),
    /// Accept nothing.
    WouldBlock,
    /// Fail with this message.
    Failed(String),
}

/// A transport that answers read and write attempts from fixed scripts.
///
/// Read outcomes are played oldest first; an exhausted script answers
/// `WouldBlock` forever.  Write steps are consumed one per attempt the same
/// way.  Every byte the transport accepts is appended to `taken`, so what
/// "arrived at the remote side" and in what order is part of the state.
pub struct ScriptedTransport {
    reads: Vec<ReadOutcome>,
    writes: Vec<WriteStep>,
    syncs: Vec<SyncOutcome>,
    taken: Vec<u8>,
    shut: bool,
}

/// The read outcome the scripted transport will answer next.
pub open spec fn next_read(reads: Seq<ReadOutcome>) -> ReadOutcome {
    if reads.len() == 0 {
        ReadOutcome::WouldBlock
    } else {
        reads.first()
    }
}

/// The write step the scripted transport will consume next.
pub open spec fn next_write(writes: Seq<WriteStep>) -> WriteStep {
    if writes.len() == 0 {
        WriteStep::WouldBlock
    } else {
        writes.first()
    }
}

/// The sync outcome the scripted transport will consume next.
pub open spec fn next_sync(syncs: Seq<SyncOutcome>) -> SyncOutcome {
    if syncs.len() == 0 {
        SyncOutcome::Done
    } else {
        syncs.first()
    }
}

impl ScriptedTransport {
    /// The read outcomes not yet played.
    pub closed spec fn spec_reads(&self) -> Seq<ReadOutcome> {
        self.reads@
    }

    /// The write steps not yet consumed.
    pub closed spec fn spec_writes(&self) -> Seq<WriteStep> {
        self.writes@
    }

    /// The sync outcomes not yet consumed.
    pub closed spec fn spec_syncs(&self) -> Seq<SyncOutcome> {
        self.syncs@
    }

    /// Every byte accepted so far, in the order accepted.
    pub closed spec fn spec_taken(&self) -> Seq<u8> {
        self.taken@
    }

    /// True once the loop has signalled orderly shutdown.
    pub closed spec fn spec_shut(&self) -> bool {
        self.shut
    }

    /// A transport that will play the given scripts.
    pub fn new(reads: Vec<ReadOutcome>, writes: Vec<WriteStep>, syncs: Vec<SyncOutcome>) -> (t:
        ScriptedTransport)
        ensures
            t.spec_reads() == reads@,
            t.spec_writes() == writes@,
            t.spec_syncs() == syncs@,
            t.spec_taken() == Seq::<u8>::empty(),
            !t.spec_shut(),
    {
        ScriptedTransport { reads, writes, syncs, taken: Vec::new(), shut: false }
    }

    /// The bytes that have arrived, for inspection after a run.
    pub fn taken_so_far(&self) -> (s: &[u8])
        ensures
            s@ == self.spec_taken(),
    {
        self.taken.as_slice()
    }

    /// One non-blocking read attempt: plays the next scripted outcome, or
    /// `WouldBlock` when the script is exhausted.
    pub fn poll_read(&mut self) -> (r: ReadOutcome)
        ensures
            r == next_read(old(self).spec_reads()),
            final(self).spec_reads() == if old(self).spec_reads().len() == 0 {
                old(self).spec_reads()
            } else {
                old(self).spec_reads().drop_first()
            },
            final(self).spec_writes() == old(self).spec_writes(),
            final(self).spec_syncs() == old(self).spec_syncs(),
            final(self).spec_taken() == old(self).spec_taken(),
            final(self).spec_shut() == old(self).spec_shut(),
    {
        if self.reads.len() == 0 {
            ReadOutcome::WouldBlock
        } else {
            let r = self.reads.remove(0);
            assert(self.reads@ =~= old(self).spec_reads().drop_first());
            r
        }
    }

    /// One write attempt offering `data`: consumes the next scripted step.
    /// An accepting step takes `min(limit, data.len())` bytes from the
    /// front of `data`, in order, and reports how many it took.
    pub fn attempt_write(&mut self, data: &[u8]) -> (r: WriteOutcome)
        ensures
            final(self).spec_reads() == old(self).spec_reads(),
            final(self).spec_syncs() == old(self).spec_syncs(),
            final(self).spec_shut() == old(self).spec_shut(),
            final(self).spec_writes() == if old(self).spec_writes().len() == 0 {
                old(self).spec_writes()
            } else {
                old(self).spec_writes().drop_first()
            },
            match next_write(old(self).spec_writes()) {
                WriteStep::AcceptUpTo(limit) => {
                    let n = if (limit as int) <= data@.len() {
                        limit as int
                    } else {
                        data@.len() as int
                    };
                    r == WriteOutcome::Accepted(n as usize) && final(self).spec_taken()
                        == old(self).spec_taken() + data@.take(n)
                },
                WriteStep::WouldBlock => r == WriteOutcome::WouldBlock && final(self).spec_taken()
                    == old(self).spec_taken(),
                WriteStep::Failed(msg) => r == WriteOutcome::Failed(msg)
                    && final(self).spec_taken() == old(self).spec_taken(),
            },
    {
        if self.writes.len() == 0 {
            return WriteOutcome::WouldBlock;
        }
        let step = self.writes.remove(0);
        assert(self.writes@ =~= old(self).spec_writes().drop_first());
        match step {
            WriteStep::AcceptUpTo(limit) => {
                let n: usize = if limit <= data.len() {
                    limit
                } else {
                    data.len()
                };
                let mut i: usize = 0;
                while i < n
                    invariant
                        i <= n <= data@.len(),
                        self.taken@ == old(self).spec_taken() + data@.take(i as int),
                        self.reads@ == old(self).spec_reads(),
                        self.writes@ == old(self).spec_writes().drop_first(),
                        self.syncs@ == old(self).spec_syncs(),
                        self.shut == old(self).spec_shut(),
                        data@.len() <= usize::MAX,
                    decreases n - i,
                {
                    self.taken.push(data[i]);
                    assert(self.taken@ =~= old(self).spec_taken() + data@.take(i + 1));
                    i = i + 1;
                }
                WriteOutcome::Accepted(n)
            },
            WriteStep::WouldBlock => WriteOutcome::WouldBlock,
            WriteStep::Failed(msg) => WriteOutcome::Failed(msg),
        }
    }

    /// One flush-and-sync attempt after a write: consumes the next
    /// scripted sync outcome, or `Done` when the script is exhausted.
    pub fn attempt_sync(&mut self) -> (r: SyncOutcome)
        ensures
            r == next_sync(old(self).spec_syncs()),
            final(self).spec_syncs() == if old(self).spec_syncs().len() == 0 {
                old(self).spec_syncs()
            } else {
                old(self).spec_syncs().drop_first()
            },
            final(self).spec_reads() == old(self).spec_reads(),
            final(self).spec_writes() == old(self).spec_writes(),
            final(self).spec_taken() == old(self).spec_taken(),
            final(self).spec_shut() == old(self).spec_shut(),
    {
        if self.syncs.len() == 0 {
            SyncOutcome::Done
        } else {
            let r = self.syncs.remove(0);
            assert(self.syncs@ =~= old(self).spec_syncs().drop_first());
            r
        }
    }

    /// Orderly shutdown: signal outbound end-of-stream and close.  On the
    /// scripted transport nothing can fail; errors on a real transport are
    /// tolerated and ignored the same way.
    pub fn shutdown(&mut self)
        ensures
            final(self).spec_reads() == old(self).spec_reads(),
            final(self).spec_writes() == old(self).spec_writes(),
            final(self).spec_syncs() == old(self).spec_syncs(),
            final(self).spec_taken() == old(self).spec_taken(),
            final(self).spec_shut(),
    {
        self.shut = true;
    }
}

} // verus!
