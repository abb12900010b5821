//! The top-level control state machine: which pane owns the keyboard, and
//! what a control command asks of the CPU.
//!
//! CPU control is a request/response channel, so a command that needs it
//! returns an action; the caller performs it and reports back through
//! `regs_loaded`, `run_started`, `stepped` or `io_failed`.

use vstd::prelude::*;

use crate::bus::Regs;
use crate::tui::PaneStatus;
use crate::tui::status_bar::{Status, status_matches};
use crate::x86::Address;

verus! {

/// The pane that owns the keyboard.
#[derive(Copy, Clone, PartialEq, Eq, Structural, Debug)]
pub enum Pane {
    Code,
    Data,
    Registers,
}

/// A control command.
#[derive(Copy, Clone, PartialEq, Eq, Structural, Debug)]
pub enum Message {
    /// Re-read the registers and reload the panes.
    Reload,
    /// Give the keyboard to another pane.
    ChangePane(Pane),
    /// Resume the CPU.
    Run,
    /// Execute the instruction under the instruction pointer without
    /// descending into it.
    StepOver,
    /// Execute one instruction.
    StepIn,
}

/// What a command asks the caller to do against the remote CPU.
#[derive(Copy, Clone, PartialEq, Eq, Structural, Debug)]
pub enum Action {
    /// Read the registers and report them through `regs_loaded`.
    FetchRegs,
    /// Resume the CPU and report through `run_started` (or `io_failed`).
    Run,
    /// Drive a step-over at the given address, then re-read the registers
    /// and report them through `stepped` (or `io_failed`).
    StepOver(Address),
    /// Single-step, then re-read the registers and report them through
    /// `stepped` (or `io_failed`).
    StepIn,
}

/// The control machine's state.
pub struct DebugBox {
    pane: Pane,
    reload: bool,
    status: Status,
    regs: Regs,
}

impl DebugBox {
    /// The pane that owns the keyboard.
    pub closed spec fn pane_of(&self) -> Pane {
        self.pane
    }

    /// Whether the panes should reload what they show.
    pub closed spec fn reload_flag(&self) -> bool {
        self.reload
    }

    /// The session state.
    pub closed spec fn status_of(&self) -> Status {
        self.status
    }

    /// The last register snapshot.
    pub closed spec fn regs_of(&self) -> Regs {
        self.regs
    }

    /// A fresh control machine: the code pane owns the keyboard.  The
    /// caller makes the first register read itself and passes the outcome:
    /// the snapshot, or the failure message.
    pub fn new(regs: Option<Regs>, detach_message: Option<String>) -> (r: DebugBox)
        ensures
            r.pane_of() == Pane::Code,
            !r.reload_flag(),
            match regs {
                Some(g) => r.regs_of() == g && r.status_of() is Attached,
                None => r.regs_of() == Regs::zeroed() && match r.status_of() {
                    Status::Attached => false,
                    Status::Detached(m) => m == detach_message,
                },
            },
    {
        match regs {
            Some(g) => DebugBox {
                pane: Pane::Code,
                reload: false,
                status: Status::Attached,
                regs: g,
            },
            None => DebugBox {
                pane: Pane::Code,
                reload: false,
                status: Status::Detached(detach_message),
                regs: Regs::new_zeroed(),
            },
        }
    }

    /// Whether a session is live.
    pub fn attached(&self) -> (r: bool)
        ensures
            r == self.status_of() is Attached,
    {
        matches!(self.status, Status::Attached)
    }

    /// The pane status handed down to the given pane.
    pub fn pane_status(&self, pane: Pane) -> (r: PaneStatus)
        ensures
            r.attached == self.status_of() is Attached,
            r.focused == (self.pane_of() == pane),
            r.reload == self.reload_flag(),
    {
        PaneStatus {
            attached: matches!(self.status, Status::Attached),
            focused: self.pane == pane,
            reload: self.reload,
        }
    }

    /// The address of the instruction the CPU stands at.
    pub fn code_addr(&self) -> (r: Address)
        ensures
            r == (Address { segment: self.regs_of().cs, offset: self.regs_of().eip }),
    {
        Address { segment: self.regs.cs, offset: self.regs.eip }
    }

    /// The address the data pane starts at.
    pub fn data_addr(&self) -> (r: Address)
        ensures
            r == (Address { segment: self.regs_of().ds, offset: 0 }),
    {
        Address { segment: self.regs.ds, offset: 0 }
    }

    /// Handle a control command: pane switches happen at once; commands
    /// that need the CPU hand an action back, and do so only while a
    /// session is live.  The reload flag holds for one command only.
    pub fn update_impl(&mut self, msg: Message) -> (r: (bool, Option<Action>))
        ensures
            final(self).regs_of() == old(self).regs_of(),
            final(self).status_of() == old(self).status_of(),
            !final(self).reload_flag(),
            match msg {
                Message::Reload => final(self).pane_of() == old(self).pane_of()
                    && r == (false, Some(Action::FetchRegs)),
                Message::ChangePane(p) => final(self).pane_of() == p && r == (
                    true,
                    None::<Action>,
                ),
                Message::Run => final(self).pane_of() == old(self).pane_of()
                    && r == if old(self).status_of() is Attached {
                    (false, Some(Action::Run))
                } else {
                    (false, None::<Action>)
                },
                Message::StepOver => final(self).pane_of() == old(self).pane_of()
                    && r == if old(self).status_of() is Attached {
                    (
                        false,
                        Some(Action::StepOver(Address {
                            segment: old(self).regs_of().cs,
                            offset: old(self).regs_of().eip,
                        })),
                    )
                } else {
                    (false, None::<Action>)
                },
                Message::StepIn => final(self).pane_of() == old(self).pane_of()
                    && r == if old(self).status_of() is Attached {
                    (false, Some(Action::StepIn))
                } else {
                    (false, None::<Action>)
                },
            },
    {
        self.reload = false;
        match msg {
            Message::Reload => (false, Some(Action::FetchRegs)),
            Message::ChangePane(p) => {
                self.pane = p;
                (true, None)
            },
            Message::Run => {
                if matches!(self.status, Status::Attached) {
                    (false, Some(Action::Run))
                } else {
                    (false, None)
                }
            },
            Message::StepOver => {
                if matches!(self.status, Status::Attached) {
                    (false, Some(Action::StepOver(Address {
                        segment: self.regs.cs,
                        offset: self.regs.eip,
                    })))
                } else {
                    (false, None)
                }
            },
            Message::StepIn => {
                if matches!(self.status, Status::Attached) {
                    (false, Some(Action::StepIn))
                } else {
                    (false, None)
                }
            },
        }
    }

    /// A register read succeeded: the session is live and the panes should
    /// reload.
    pub fn regs_loaded(&mut self, regs: Regs)
        ensures
            final(self).pane_of() == old(self).pane_of(),
            final(self).regs_of() == regs,
            final(self).status_of() is Attached,
            final(self).reload_flag(),
    {
        self.regs = regs;
        self.status = Status::Attached;
        self.reload = true;
    }

    /// The CPU was set running: the session shows as detached until the
    /// next reload.
    pub fn run_started(&mut self)
        ensures
            final(self).pane_of() == old(self).pane_of(),
            final(self).regs_of() == old(self).regs_of(),
            final(self).reload_flag() == old(self).reload_flag(),
            match final(self).status_of() {
                Status::Attached => false,
                Status::Detached(m) => m is None,
            },
    {
        self.status = Status::Detached(None);
    }

    /// A step completed and the registers were re-read: the panes should
    /// reload.
    pub fn stepped(&mut self, regs: Regs)
        ensures
            final(self).pane_of() == old(self).pane_of(),
            final(self).regs_of() == regs,
            final(self).status_of() == old(self).status_of(),
            final(self).reload_flag(),
    {
        self.regs = regs;
        self.reload = true;
    }

    /// A CPU call failed: the session shows as detached, with the failure
    /// message.
    pub fn io_failed(&mut self, message: Option<String>)
        ensures
            final(self).pane_of() == old(self).pane_of(),
            final(self).regs_of() == old(self).regs_of(),
            final(self).reload_flag() == old(self).reload_flag(),
            match final(self).status_of() {
                Status::Attached => false,
                Status::Detached(m) => m == message,
            },
    {
        self.status = Status::Detached(message);
    }

    /// The last register snapshot, for the register pane.
    pub fn regs(&self) -> (r: Regs)
        ensures
            r == self.regs_of(),
    {
        self.regs
    }

    /// The session state, for the status bar.
    pub fn status(&self) -> (r: Status)
        ensures
            status_matches(r, self.status_of()),
    {
        clone_status(&self.status)
    }
}

/// Copy a session state.
fn clone_status(s: &Status) -> (r: Status)
    ensures
        status_matches(r, *s),
{
    match s {
        Status::Attached => Status::Attached,
        Status::Detached(None) => Status::Detached(None),
        Status::Detached(Some(m)) => Status::Detached(Some(clone_message(m))),
    }
}

/// Copy a message.
fn clone_message(s: &String) -> (r: String)
    ensures
        r@ == s@,
{
    s.clone()
}

} // verus!
