//! The step controller: executing a call, loop, repeat-prefixed or
//! interrupt instruction to completion without descending into it, by
//! patching a temporary breakpoint over the return site.
//!
//! CPU control and memory writes sit behind a request/response channel, so
//! the controller is a state machine: `action` names the next operation, the
//! caller performs it and acknowledges through the matching `feed_*` call
//! (or `fail`).  On any failure after the return site was patched, the
//! controller still walks through the restore phase, so that breakpoint
//! bytes are never deliberately left behind in guest memory.

use vstd::prelude::*;

use crate::x86::Address;
use crate::x86::dec::{decode_of, decode_one, Decoded, MAX_INSTR_LEN, OFFSET_CEILING};

verus! {

/// The software-breakpoint opcode patched over the return site.
pub const INT3_OPCODE: u8 = 0xCC;

/// Classification that makes step-over patch a breakpoint instead of
/// issuing a plain single step: a successfully decoded call, loop,
/// repeat-prefixed instruction or software interrupt.
pub open spec fn step_special(d: Decoded) -> bool {
    !d.invalid && (d.call || d.looping || d.rep || d.int_imm8)
}

/// One operation the step controller asks its driver to perform.  Reads and
/// writes target the controller's segment.
#[derive(Copy, Clone, PartialEq, Eq, Structural, Debug)]
pub enum StepAction {
    /// Read `length` bytes starting at `offset`.
    Read { offset: u32, length: u32 },
    /// Write `value` at `offset`; the port answers with the previous byte.
    Write { offset: u32, value: u8 },
    /// Execute one instruction.
    StepIn,
    /// Resume the CPU until it stops.
    Run,
}

/// Where the controller stands.
#[derive(Copy, Clone, PartialEq, Eq, Structural, Debug)]
pub enum StepPhase {
    /// Nothing done yet: the bytes at the start address must be read.
    Start,
    /// A plain single step was issued.
    AwaitStep,
    /// Breakpoint bytes are being written over the return site.
    Patch,
    /// The CPU was set running toward the breakpoint.
    Running,
    /// The saved original bytes are being written back.
    Restore,
    /// The operation is over.
    Done,
}

/// The patching writes: `n` breakpoint bytes over the return site.
pub open spec fn cc_writes(site: u32, n: nat) -> Seq<StepAction> {
    Seq::new(n, |j: int| StepAction::Write { offset: (site + j) as u32, value: INT3_OPCODE })
}

/// The restoring writes: the saved original bytes written back over the
/// return site, in order.
pub open spec fn restore_writes(site: u32, saved: Seq<u8>) -> Seq<StepAction> {
    Seq::new(saved.len(), |j: int| StepAction::Write { offset: (site + j) as u32, value: saved[j] })
}

/// The step controller's state.
pub struct StepOver {
    segment: u16,
    offset: u32,
    site: u32,
    n: usize,
    idx: usize,
    saved: Vec<u8>,
    phase: StepPhase,
    failed: bool,
    history: Ghost<Seq<StepAction>>,
}

impl StepOver {
    /// The segment every read and write targets.
    pub closed spec fn seg(&self) -> u16 {
        self.segment
    }

    /// The address of the instruction being stepped over.
    pub closed spec fn start_off(&self) -> u32 {
        self.offset
    }

    /// The return site: start of the instruction after the one stepped
    /// over.
    pub closed spec fn site_of(&self) -> u32 {
        self.site
    }

    /// Length in bytes of the return-site instruction: the number of
    /// breakpoint bytes to write and restore.
    pub closed spec fn patch_len(&self) -> nat {
        self.n as nat
    }

    /// How many writes of the current phase are already acknowledged.
    pub closed spec fn idx_of(&self) -> nat {
        self.idx as nat
    }

    /// The original bytes the patch writes returned, in site order.
    pub closed spec fn saved_bytes(&self) -> Seq<u8> {
        self.saved@
    }

    /// Where the controller stands.
    pub closed spec fn phase(&self) -> StepPhase {
        self.phase
    }

    /// Whether some operation was reported failed.
    pub closed spec fn failed(&self) -> bool {
        self.failed
    }

    /// Every operation performed on the controller's behalf so far, in
    /// order.
    pub closed spec fn history(&self) -> Seq<StepAction> {
        self.history@
    }

    /// The initial read: twice the maximal instruction length, so that the
    /// instruction at the start address and the one after it can both be
    /// decoded.
    pub open spec fn read_action(&self) -> StepAction {
        StepAction::Read { offset: self.start_off(), length: (2 * MAX_INSTR_LEN) as u32 }
    }

    /// The controller's invariant: indices stay in range, arithmetic stays
    /// in bounds, and while nothing failed the history is exactly what the
    /// current phase dictates.
    pub closed spec fn wf(&self) -> bool {
        &&& self.offset <= OFFSET_CEILING
        &&& self.site + self.n <= u32::MAX
        &&& self.n <= MAX_INSTR_LEN
        &&& (self.phase is Patch ==> self.saved@.len() == self.idx && self.idx < self.n)
        &&& (self.phase is Running ==> self.saved@.len() == self.n && self.n > 0 && self.idx == 0)
        &&& (self.phase is Restore ==> self.saved@.len() == self.n && self.idx < self.n)
        &&& (!self.failed ==> match self.phase {
            StepPhase::Start => self.history@ == Seq::<StepAction>::empty(),
            StepPhase::AwaitStep => self.history@ == seq![self.read_action()],
            StepPhase::Patch => self.history@ == seq![self.read_action()]
                + cc_writes(self.site, self.idx as nat),
            StepPhase::Running => self.history@ == seq![self.read_action()]
                + cc_writes(self.site, self.n as nat),
            StepPhase::Restore => self.history@ == seq![self.read_action()]
                + cc_writes(self.site, self.n as nat) + seq![StepAction::Run]
                + restore_writes(self.site, self.saved@.take(self.idx as int)),
            StepPhase::Done => true,
        })
    }

    /// An upper bound on how many more operations the controller will ask
    /// for: every transition strictly decreases it, so a driver loop
    /// terminates.
    pub open spec fn steps_left(&self) -> nat {
        match self.phase() {
            StepPhase::Start => (2 * MAX_INSTR_LEN + 3) as nat,
            StepPhase::AwaitStep => 1,
            StepPhase::Patch => ((self.patch_len() - self.idx_of()) + self.patch_len() + 2) as nat,
            StepPhase::Running => (self.patch_len() + 1) as nat,
            StepPhase::Restore => (self.patch_len() - self.idx_of()) as nat,
            StepPhase::Done => 0,
        }
    }

    /// Start a step-over at `addr`.
    pub fn new(addr: Address) -> (r: StepOver)
        requires
            addr.offset <= OFFSET_CEILING,
        ensures
            r.wf(),
            r.phase() is Start,
            r.seg() == addr.segment,
            r.start_off() == addr.offset,
            !r.failed(),
            r.history() == Seq::<StepAction>::empty(),
    {
        StepOver {
            segment: addr.segment,
            offset: addr.offset,
            site: 0,
            n: 0,
            idx: 0,
            saved: Vec::new(),
            phase: StepPhase::Start,
            failed: false,
            history: Ghost(Seq::empty()),
        }
    }

    /// The operation the driver should perform next, or `None` once the
    /// controller is done.
    pub fn action(&self) -> (r: Option<StepAction>)
        requires
            self.wf(),
        ensures
            r is Some <==> !(self.phase() is Done),
            self.phase() is Start ==> r == Some(self.read_action()),
            self.phase() is AwaitStep ==> r == Some(StepAction::StepIn),
            self.phase() is Patch ==> r == Some(StepAction::Write {
                offset: (self.site_of() + self.idx_of()) as u32,
                value: INT3_OPCODE,
            }),
            self.phase() is Running ==> r == Some(StepAction::Run),
            self.phase() is Restore ==> r == Some(StepAction::Write {
                offset: (self.site_of() + self.idx_of()) as u32,
                value: self.saved_bytes()[self.idx_of() as int],
            }),
    {
        match self.phase {
            StepPhase::Start => Some(StepAction::Read {
                offset: self.offset,
                length: (2 * MAX_INSTR_LEN) as u32,
            }),
            StepPhase::AwaitStep => Some(StepAction::StepIn),
            StepPhase::Patch => Some(StepAction::Write {
                offset: self.site + self.idx as u32,
                value: INT3_OPCODE,
            }),
            StepPhase::Running => Some(StepAction::Run),
            StepPhase::Restore => Some(StepAction::Write {
                offset: self.site + self.idx as u32,
                value: self.saved[self.idx],
            }),
            StepPhase::Done => None,
        }
    }

    /// Whether some operation failed along the way.
    pub fn had_error(&self) -> (r: bool)
        ensures
            r == self.failed(),
    {
        self.failed
    }

    /// Consume the answer to the initial read and decide: a plain single
    /// step for an ordinary instruction; nothing at all if the return site
    /// does not decode; otherwise begin patching the breakpoint over the
    /// return site.
    pub fn feed_read(&mut self, data: Vec<u8>)
        requires
            old(self).wf(),
            old(self).phase() is Start,
        ensures
            final(self).wf(),
            final(self).seg() == old(self).seg(),
            final(self).start_off() == old(self).start_off(),
            final(self).failed() == old(self).failed(),
            final(self).history() == old(self).history().push(old(self).read_action()),
            ({
                let d0 = decode_of(data@, old(self).start_off());
                let d1 = decode_of(
                    data@.skip(d0.len as int),
                    (old(self).start_off() + d0.len) as u32,
                );
                if !step_special(d0) {
                    final(self).phase() is AwaitStep
                } else if d1.invalid {
                    final(self).phase() is Done
                } else {
                    &&& final(self).phase() is Patch
                    &&& final(self).site_of() == old(self).start_off() + d0.len
                    &&& final(self).patch_len() == d1.len
                    &&& final(self).idx_of() == 0
                    &&& final(self).saved_bytes() == Seq::<u8>::empty()
                }
            }),
            final(self).steps_left() < old(self).steps_left(),
    {
        let d0 = decode_one(data.as_slice(), 0, self.offset);
        proof {
            assert(data@.skip(0) =~= data@);
        }
        self.history = Ghost(
            self.history@.push(StepAction::Read {
                offset: self.offset,
                length: (2 * MAX_INSTR_LEN) as u32,
            }),
        );
        let special = !d0.invalid && (d0.call || d0.looping || d0.rep || d0.int_imm8);
        if !special {
            self.phase = StepPhase::AwaitStep;
            return;
        }
        let d1 = decode_one(data.as_slice(), d0.len, self.offset + d0.len as u32);
        if d1.invalid {
            self.phase = StepPhase::Done;
            return;
        }
        self.site = self.offset + d0.len as u32;
        self.n = d1.len;
        self.idx = 0;
        self.saved = Vec::new();
        self.phase = StepPhase::Patch;
        proof {
            if !self.failed {
                assert(cc_writes(self.site, 0) =~= Seq::<StepAction>::empty());
                assert(self.history@ =~= seq![self.read_action()] + cc_writes(self.site, 0));
            }
        }
    }

    /// Acknowledge a `StepIn` or `Run` operation.  After a plain single
    /// step the controller is done, and its whole history is one read and
    /// one `step_in`: no memory was written.  After `run`, restoring
    /// begins.
    pub fn feed_ack(&mut self)
        requires
            old(self).wf(),
            old(self).phase() is AwaitStep || old(self).phase() is Running,
        ensures
            final(self).wf(),
            final(self).seg() == old(self).seg(),
            final(self).start_off() == old(self).start_off(),
            final(self).site_of() == old(self).site_of(),
            final(self).patch_len() == old(self).patch_len(),
            final(self).saved_bytes() == old(self).saved_bytes(),
            final(self).failed() == old(self).failed(),
            old(self).phase() is AwaitStep ==> {
                &&& final(self).phase() is Done
                &&& final(self).history() == old(self).history().push(StepAction::StepIn)
                &&& (!old(self).failed() ==> final(self).history()
                    == seq![old(self).read_action(), StepAction::StepIn])
            },
            old(self).phase() is Running ==> {
                &&& final(self).phase() is Restore
                &&& final(self).idx_of() == 0
                &&& final(self).history() == old(self).history().push(StepAction::Run)
            },
            final(self).steps_left() < old(self).steps_left(),
    {
        match self.phase {
            StepPhase::AwaitStep => {
                self.history = Ghost(self.history@.push(StepAction::StepIn));
                self.phase = StepPhase::Done;
                proof {
                    if !self.failed {
                        assert(self.history@ =~= seq![self.read_action(), StepAction::StepIn]);
                    }
                }
            },
            _ => {
                self.history = Ghost(self.history@.push(StepAction::Run));
                self.idx = 0;
                self.phase = StepPhase::Restore;
                proof {
                    assert(self.saved@.take(0) =~= Seq::<u8>::empty());
                    assert(restore_writes(self.site, self.saved@.take(0))
                        =~= Seq::<StepAction>::empty());
                    if !self.failed {
                        assert(self.history@ =~= seq![self.read_action()]
                            + cc_writes(self.site, self.n as nat) + seq![StepAction::Run]
                            + restore_writes(self.site, self.saved@.take(0)));
                    }
                }
            },
        }
    }

    /// Consume the previous byte a write returned.  While patching, the
    /// byte is saved; when the last patch write is acknowledged the CPU is
    /// set running.  While restoring, the acknowledged byte is counted off;
    /// when the last one lands the controller is done, and its whole
    /// history is exactly one read, the breakpoint writes, one `run`, and
    /// the restoring writes, in that order.
    pub fn feed_write(&mut self, prev: u8)
        requires
            old(self).wf(),
            old(self).phase() is Patch || old(self).phase() is Restore,
        ensures
            final(self).wf(),
            final(self).seg() == old(self).seg(),
            final(self).start_off() == old(self).start_off(),
            final(self).site_of() == old(self).site_of(),
            final(self).patch_len() == old(self).patch_len(),
            final(self).failed() == old(self).failed(),
            old(self).phase() is Patch ==> {
                &&& final(self).history() == old(self).history().push(StepAction::Write {
                    offset: (old(self).site_of() + old(self).idx_of()) as u32,
                    value: INT3_OPCODE,
                })
                &&& final(self).saved_bytes() == old(self).saved_bytes().push(prev)
                &&& if old(self).idx_of() + 1 < old(self).patch_len() {
                    final(self).phase() is Patch && final(self).idx_of() == old(self).idx_of() + 1
                } else {
                    final(self).phase() is Running
                }
            },
            old(self).phase() is Restore ==> {
                &&& final(self).history() == old(self).history().push(StepAction::Write {
                    offset: (old(self).site_of() + old(self).idx_of()) as u32,
                    value: old(self).saved_bytes()[old(self).idx_of() as int],
                })
                &&& final(self).saved_bytes() == old(self).saved_bytes()
                &&& if old(self).idx_of() + 1 < old(self).patch_len() {
                    final(self).phase() is Restore && final(self).idx_of() == old(self).idx_of() + 1
                } else {
                    final(self).phase() is Done
                }
                &&& (old(self).idx_of() + 1 == old(self).patch_len() && !old(self).failed())
                    ==> final(self).history() == seq![old(self).read_action()]
                        + cc_writes(old(self).site_of(), old(self).patch_len())
                        + seq![StepAction::Run]
                        + restore_writes(old(self).site_of(), old(self).saved_bytes())
            },
            final(self).steps_left() < old(self).steps_left(),
    {
        match self.phase {
            StepPhase::Patch => {
                let ghost h0 = self.history@;
                let ghost idx0 = self.idx as int;
                self.history = Ghost(self.history@.push(StepAction::Write {
                    offset: (self.site + self.idx) as u32,
                    value: INT3_OPCODE,
                }));
                self.saved.push(prev);
                self.idx = self.idx + 1;
                if self.idx < self.n {
                    proof {
                        if !self.failed {
                            assert(cc_writes(self.site, (idx0 + 1) as nat)
                                =~= cc_writes(self.site, idx0 as nat).push(StepAction::Write {
                                offset: (self.site + idx0) as u32,
                                value: INT3_OPCODE,
                            }));
                            assert(self.history@ =~= seq![self.read_action()]
                                + cc_writes(self.site, self.idx as nat));
                        }
                    }
                } else {
                    self.idx = 0;
                    self.phase = StepPhase::Running;
                    proof {
                        if !self.failed {
                            assert(cc_writes(self.site, self.n as nat)
                                =~= cc_writes(self.site, idx0 as nat).push(StepAction::Write {
                                offset: (self.site + idx0) as u32,
                                value: INT3_OPCODE,
                            }));
                            assert(self.history@ =~= seq![self.read_action()]
                                + cc_writes(self.site, self.n as nat));
                        }
                    }
                }
            },
            _ => {
                let ghost idx0 = self.idx as int;
                self.history = Ghost(self.history@.push(StepAction::Write {
                    offset: (self.site + self.idx) as u32,
                    value: self.saved@[self.idx as int],
                }));
                self.idx = self.idx + 1;
                proof {
                    if !self.failed {
                        assert(restore_writes(self.site, self.saved@.take(idx0 + 1))
                            =~= restore_writes(self.site, self.saved@.take(idx0)).push(
                            StepAction::Write {
                                offset: (self.site + idx0) as u32,
                                value: self.saved@[idx0],
                            },
                        ));
                        assert(self.history@ =~= seq![self.read_action()]
                            + cc_writes(self.site, self.n as nat) + seq![StepAction::Run]
                            + restore_writes(self.site, self.saved@.take(self.idx as int)));
                    }
                }
                if self.idx >= self.n {
                    self.phase = StepPhase::Done;
                    proof {
                        if !self.failed {
                            assert(self.saved@.take(self.idx as int) =~= self.saved@);
                        }
                    }
                }
            },
        }
    }

    /// Note that the pending operation failed.  Before anything was
    /// patched, the controller simply stops; once breakpoint bytes are in
    /// guest memory it still walks through the restore phase for every byte
    /// already patched, skipping over a restore write that itself failed.
    pub fn fail(&mut self)
        requires
            old(self).wf(),
            !(old(self).phase() is Done),
        ensures
            final(self).wf(),
            final(self).seg() == old(self).seg(),
            final(self).start_off() == old(self).start_off(),
            final(self).site_of() == old(self).site_of(),
            final(self).saved_bytes() == old(self).saved_bytes(),
            final(self).failed(),
            final(self).history() == old(self).history(),
            old(self).phase() is Start || old(self).phase() is AwaitStep
                ==> final(self).phase() is Done,
            old(self).phase() is Patch ==> if old(self).idx_of() > 0 {
                final(self).phase() is Restore && final(self).patch_len() == old(self).idx_of()
                    && final(self).idx_of() == 0
            } else {
                final(self).phase() is Done
            },
            old(self).phase() is Running ==> final(self).phase() is Restore
                && final(self).idx_of() == 0 && final(self).patch_len() == old(self).patch_len(),
            old(self).phase() is Restore ==> if old(self).idx_of() + 1 < old(self).patch_len() {
                final(self).phase() is Restore && final(self).idx_of() == old(self).idx_of() + 1
                    && final(self).patch_len() == old(self).patch_len()
            } else {
                final(self).phase() is Done
            },
            final(self).steps_left() < old(self).steps_left(),
    {
        self.failed = true;
        match self.phase {
            StepPhase::Start => {
                self.phase = StepPhase::Done;
            },
            StepPhase::AwaitStep => {
                self.phase = StepPhase::Done;
            },
            StepPhase::Patch => {
                if self.idx > 0 {
                    self.n = self.idx;
                    self.idx = 0;
                    self.phase = StepPhase::Restore;
                } else {
                    self.phase = StepPhase::Done;
                }
            },
            StepPhase::Running => {
                self.idx = 0;
                self.phase = StepPhase::Restore;
            },
            StepPhase::Restore => {
                if self.idx + 1 < self.n {
                    self.idx = self.idx + 1;
                } else {
                    self.phase = StepPhase::Done;
                }
            },
            StepPhase::Done => {},
        }
    }
}

} // verus!
