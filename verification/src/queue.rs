//! The bounded single-producer/single-consumer command queue between the
//! protocol adapter and the render loop.
//!
//! Every operation is non-blocking. The queue keeps arrival order — it may
//! lag, but it never reorders — and when it is full a new command is
//! dropped rather than blocking the producer or growing memory: a
//! deliberate backpressure point under sustained overload.

use vstd::prelude::*;
use crate::effect::LedEffectCommand;
use crate::effect::command_wf;

verus! {

/// Largest capacity a command queue accepts.
pub const QUEUE_CAP_MAX: usize = 1024;

/// A bounded FIFO of commands.
pub struct CommandQueue {
    buf: Vec<LedEffectCommand>,
    cap: usize,
}

impl CommandQueue {
    /// The pending commands, oldest first.
    pub closed spec fn contents(&self) -> Seq<LedEffectCommand> {
        self.buf@
    }

    /// The fixed capacity the queue was created with.
    pub closed spec fn capacity(&self) -> usize {
        self.cap
    }

    /// A well-formed queue: its load never exceeds its capacity and every
    /// pending command is well-formed.
    pub closed spec fn wf(&self) -> bool {
        &&& 1 <= self.cap <= QUEUE_CAP_MAX
        &&& self.buf@.len() <= self.cap as int
        &&& forall|i: int| 0 <= i < self.buf@.len() ==> command_wf(#[trigger] self.buf@[i])
    }

    /// An empty queue of capacity `cap`.
    pub fn new(cap: usize) -> (r: CommandQueue)
        requires
            1 <= cap <= QUEUE_CAP_MAX,
        ensures
            r.wf(),
            r.contents() == Seq::<LedEffectCommand>::empty(),
            r.capacity() == cap,
    {
        let buf: Vec<LedEffectCommand> = Vec::new();
        proof {
            assert(Seq::<LedEffectCommand>::empty() =~= buf@);
        }
        CommandQueue { buf, cap }
    }

    /// Append one command, unless the queue is full: a full queue drops
    /// the command and reports that, never blocking and never reordering.
    pub fn enqueue(&mut self, cmd: LedEffectCommand) -> (accepted: bool)
        requires
            old(self).wf(),
            command_wf(cmd),
        ensures
            final(self).wf(),
            final(self).capacity() == old(self).capacity(),
            accepted <==> old(self).contents().len() < old(self).capacity() as int,
            accepted ==> final(self).contents() == old(self).contents().push(cmd),
            !accepted ==> final(self).contents() == old(self).contents(),
    {
        if self.buf.len() < self.cap {
            self.buf.push(cmd);
            true
        } else {
            false
        }
    }

    /// Remove and return the oldest command, or `None` when the queue is
    /// empty.
    pub fn dequeue(&mut self) -> (r: Option<LedEffectCommand>)
        requires
            old(self).wf(),
        ensures
            final(self).wf(),
            final(self).capacity() == old(self).capacity(),
            old(self).contents().len() == 0 ==> r is None && final(self).contents() == old(
                self,
            ).contents(),
            old(self).contents().len() > 0 ==> {
                &&& r == Some(old(self).contents()[0])
                &&& command_wf(old(self).contents()[0])
                &&& final(self).contents() == old(self).contents().drop_first()
            },
    {
        if self.buf.len() == 0 {
            None
        } else {
            let cmd: LedEffectCommand = self.buf.remove(0);
            proof {
                assert(self.buf@ =~= old(self).buf@.drop_first());
            }
            Some(cmd)
        }
    }

    /// Whether a command is pending, without dequeuing: the render loop's
    /// preemption probe.
    pub fn has_pending(&self) -> (r: bool)
        ensures
            r <==> self.contents().len() > 0,
    {
        self.buf.len() > 0
    }

    /// The number of pending commands.
    pub fn len(&self) -> (r: usize)
        ensures
            r as int == self.contents().len(),
    {
        self.buf.len()
    }
}

} // verus!
