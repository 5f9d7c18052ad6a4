//! The per-thread enter/exit state machine.
//!
//! A thread alternates between two entry modes: `Enter` (the next hardware
//! entry is fresh) and `Resume` (the next entry resumes after an asynchronous
//! exit). The hardware call itself is performed by an unverified shell; this
//! module decides, from the previous mode and the reported outcome, the next
//! mode, the nested-exception depth, and what the caller must do next.

use vstd::prelude::*;

use crate::block::{Block, Message, Request, SYS_ENARX_CPUID, SYS_ENARX_GETATT};
use crate::Error;

verus! {

/// How to enter an enclave.
#[derive(Clone, Copy, Debug, PartialEq, Eq, Structural)]
pub enum Entry {
    /// Enter the enclave at its defined entry point.
    Enter,
    /// Resume the enclave after an asynchronous exit.
    Resume,
}

impl Entry {
    /// The leaf value the hardware entry call expects for this entry kind.
    pub fn leaf(&self) -> (r: u32)
        ensures
            r == if self is Enter { 2u32 } else { 3u32 },
    {
        match self {
            Entry::Enter => 2,
            Entry::Resume => 3,
        }
    }
}

/// The trap vector of an intentionally illegal instruction: the exit the
/// syscall-proxy convention forces on purpose.
pub const VECTOR_INVALID_OPCODE: u8 = 6;

/// Details of an asynchronous exit, as the hardware reports them. Transient:
/// consumed immediately by the state machine and never persisted.
#[derive(Clone, Copy, Debug)]
pub struct ExceptionInfo {
    /// The entry mode of the entry that ended in this exit.
    pub last: Entry,
    /// The trap vector.
    pub trap: u8,
    /// The trap-specific error code.
    pub code: u16,
    /// The faulting address.
    pub addr: u64,
}

/// The five-register payload passed to and from the enclave. Every other
/// register is treated as clobbered by the isolated code.
#[derive(Clone, Copy, Debug, PartialEq, Eq, Structural)]
pub struct Registers {
    pub rdi: u64,
    pub rsi: u64,
    pub rdx: u64,
    pub r8: u64,
    pub r9: u64,
}

impl Default for Registers {
    fn default() -> (r: Self)
        ensures
            r == (Registers { rdi: 0, rsi: 0, rdx: 0, r8: 0, r9: 0 }),
    {
        Registers { rdi: 0, rsi: 0, rdx: 0, r8: 0, r9: 0 }
    }
}

/// What the generic caller is told after a step.
#[derive(Clone, Copy, Debug, PartialEq, Eq, Structural)]
pub enum Command {
    /// Nothing to service: re-enter immediately.
    Continue,
    /// The block carries a syscall request the caller must service.
    SysCall,
}

/// What the driving shell must do after a step. The two internally serviced
/// requests never reach the generic caller; see [`Action::surfaced`].
#[derive(Clone, Copy, Debug, PartialEq, Eq, Structural)]
pub enum Action {
    /// Re-enter immediately.
    Continue,
    /// Hand the block to the generic caller to service a syscall.
    SysCall,
    /// Run the CPU-identification passthrough and write its words back.
    Cpuid { leaf: u64, subleaf: u64 },
    /// Retrieve an attestation report and write the reply back.
    Attest { nonce: u64, nonce_len: u64, buf: u64, buf_len: u64 },
}

impl Action {
    /// What the generic caller sees: only a syscall request surfaces; the
    /// internally serviced requests appear as a bare continue.
    pub fn surfaced(&self) -> (c: Command)
        ensures
            c == (if self is SysCall { Command::SysCall } else { Command::Continue }),
    {
        match self {
            Action::SysCall => Command::SysCall,
            _ => Command::Continue,
        }
    }
}

/// One enclave thread: bound to a thread-control page, owning its register
/// scratch area, shared block, entry mode and nested-exception depth.
#[derive(Clone, Copy, Debug)]
pub struct Thread {
    /// Virtual page number of the thread-control page this thread enters.
    pub tcs: usize,
    /// The register payload of the next entry.
    pub registers: Registers,
    /// The shared untrusted message block.
    pub block: Block,
    /// The hardware's nested-exception-frame depth. Never negative.
    pub cssa: usize,
    /// The entry mode of the next hardware entry.
    pub how: Entry,
}

/// The entry mode after a hardware outcome: a clean return leads to `Resume`,
/// the designated illegal-instruction exit to `Enter`, and anything else is
/// an exit this runtime cannot resume.
pub open spec fn next_entry(outcome: Result<(), ExceptionInfo>) -> Option<Entry> {
    match outcome {
        Ok(_) => Some(Entry::Resume),
        Err(ei) => if ei.trap == VECTOR_INVALID_OPCODE {
            Some(Entry::Enter)
        } else {
            None
        },
    }
}

/// How a request in the block is dispatched once a proxy trap was serviced.
pub open spec fn decode_request(req: Request) -> Action {
    if req.num == SYS_ENARX_CPUID {
        Action::Cpuid { leaf: req.arg@[0], subleaf: req.arg@[1] }
    } else if req.num == SYS_ENARX_GETATT {
        Action::Attest {
            nonce: req.arg@[0],
            nonce_len: req.arg@[1],
            buf: req.arg@[2],
            buf_len: req.arg@[3],
        }
    } else {
        Action::SysCall
    }
}

/// The full transition function: next thread state and result, from the
/// previous state and the hardware's reported outcome. Every error leaves
/// the state unchanged; each error is a fatal defect the caller must abort on.
pub open spec fn step_spec(s: Thread, outcome: Result<(), ExceptionInfo>) -> (Thread, Result<
    Action,
    Error,
>) {
    match next_entry(outcome) {
        None => (s, Err(Error::UnexpectedExit)),
        Some(Entry::Enter) => (
            Thread { how: Entry::Enter, cssa: (s.cssa + 1) as usize, ..s },
            Ok(Action::Continue),
        ),
        Some(Entry::Resume) => if s.cssa == 0 {
            (s, Err(Error::DepthUnderflow))
        } else {
            let stepped = Thread { how: Entry::Resume, cssa: (s.cssa - 1) as usize, ..s };
            if s.how is Enter {
                match s.block.msg {
                    Message::Req(req) => (stepped, Ok(decode_request(req))),
                    Message::Rep(_) => (s, Err(Error::MissingRequest)),
                }
            } else {
                (stepped, Ok(Action::Continue))
            }
        },
    }
}

impl Thread {
    /// Dedicates the one guaranteed register slot to the address of the
    /// shared block before a hardware entry; the shell supplies the address.
    pub fn set_block_register(&mut self, block_addr: u64)
        ensures
            *final(self) == (Thread {
                registers: Registers { rdi: block_addr, ..old(self).registers },
                ..*old(self)
            }),
    {
        self.registers.rdi = block_addr;
    }

    /// Advances the state machine by one hardware outcome.
    ///
    /// A clean return becomes `Resume` and decrements the depth, rejecting a
    /// depth underflow before any change. The designated illegal-instruction
    /// exit becomes `Enter` and increments the depth. Any other asynchronous
    /// exit is refused. On the transition that means a proxy trap was just
    /// serviced, the block's request is decoded into the action to take.
    pub fn enter(&mut self, outcome: Result<(), ExceptionInfo>) -> (r: Result<Action, Error>)
        requires
            old(self).cssa < usize::MAX,
        ensures
            *final(self) == step_spec(*old(self), outcome).0,
            r == step_spec(*old(self), outcome).1,
    {
        let prev = self.how;
        let next = match outcome {
            Ok(_) => Entry::Resume,
            Err(ei) => {
                if ei.trap == VECTOR_INVALID_OPCODE {
                    Entry::Enter
                } else {
                    return Err(Error::UnexpectedExit);
                }
            },
        };
        match next {
            Entry::Enter => {
                self.how = Entry::Enter;
                self.cssa = self.cssa + 1;
                Ok(Action::Continue)
            },
            Entry::Resume => {
                if self.cssa == 0 {
                    return Err(Error::DepthUnderflow);
                }
                if let Entry::Enter = prev {
                    match self.block.msg {
                        Message::Req(req) => {
                            self.how = Entry::Resume;
                            self.cssa = self.cssa - 1;
                            if req.num == SYS_ENARX_CPUID {
                                Ok(Action::Cpuid { leaf: req.arg[0], subleaf: req.arg[1] })
                            } else if req.num == SYS_ENARX_GETATT {
                                Ok(Action::Attest {
                                    nonce: req.arg[0],
                                    nonce_len: req.arg[1],
                                    buf: req.arg[2],
                                    buf_len: req.arg[3],
                                })
                            } else {
                                Ok(Action::SysCall)
                            }
                        },
                        Message::Rep(_) => Err(Error::MissingRequest),
                    }
                } else {
                    self.how = Entry::Resume;
                    self.cssa = self.cssa - 1;
                    Ok(Action::Continue)
                }
            },
        }
    }

    /// Writes the four CPU-identification words back into the request's
    /// argument slots, in place, as the passthrough convention expects.
    pub fn resolve_cpuid(&mut self, eax: u32, ebx: u32, ecx: u32, edx: u32) -> (r: Result<
        (),
        Error,
    >)
        ensures
            old(self).block.msg matches Message::Rep(_) ==> r == Err::<(), Error>(
                Error::MissingRequest,
            ) && *final(self) == *old(self),
            old(self).block.msg matches Message::Req(q) ==> r == Ok::<(), Error>(()) && (
            final(self).block.msg matches Message::Req(q2) && q2.num == q.num && q2.arg@ =~= seq![
                eax as u64,
                ebx as u64,
                ecx as u64,
                edx as u64,
                q.arg@[4],
                q.arg@[5],
            ]) && final(self).tcs == old(self).tcs && final(self).registers == old(self).registers
                && final(self).cssa == old(self).cssa && final(self).how == old(self).how,
    {
        match self.block.msg {
            Message::Req(req) => {
                let filled = Request {
                    num: req.num,
                    arg: [eax as u64, ebx as u64, ecx as u64, edx as u64, req.arg[4], req.arg[5]],
                };
                self.block.msg = Message::Req(filled);
                Ok(())
            },
            Message::Rep(_) => Err(Error::MissingRequest),
        }
    }

    /// Writes the attestation result as the block's reply: the report length
    /// in the first word, zero in the second, as the convention expects.
    pub fn resolve_attest(&mut self, result: u64)
        ensures
            *final(self) == (Thread {
                block: Block {
                    msg: Message::Rep(crate::block::Reply { ret0: result, ret1: 0 }),
                },
                ..*old(self)
            }),
    {
        self.block.msg = Message::Rep(crate::block::Reply { ret0: result, ret1: 0 });
    }
}

/// The next entry mode follows the hardware outcome alone: on an accepted
/// step the thread resumes exactly after a clean return, and enters afresh
/// exactly after the designated illegal-instruction exit. The step is
/// accepted whenever the outcome is one of those two, the depth is positive
/// on a clean return, and a request is in the block where the previous mode
/// was a fresh entry. (A fresh thread starts in the fresh-entry mode with
/// depth zero: see the spawning constructor.)
pub proof fn lemma_mode_follows_outcome(s: Thread, outcome: Result<(), ExceptionInfo>)
    requires
        next_entry(outcome) is Some,
        next_entry(outcome) == Some(Entry::Resume) ==> s.cssa > 0,
        s.how is Enter && next_entry(outcome) == Some(Entry::Resume) ==> s.block.msg is Req,
    ensures
        step_spec(s, outcome).1 is Ok,
        step_spec(s, outcome).0.how is Resume <==> outcome is Ok,
        step_spec(s, outcome).0.how is Enter <==> (outcome matches Err(ei) && ei.trap
            == VECTOR_INVALID_OPCODE),
{
}

/// A pending CPU-identification request is serviced internally: on the
/// transition that decodes the block (previous mode a fresh entry, clean
/// return, positive depth), the step yields the passthrough action carrying
/// the request's leaf words — never the generic syscall action, so the
/// generic caller is only ever told to continue.
pub proof fn lemma_cpuid_serviced_internally(s: Thread, outcome: Result<(), ExceptionInfo>)
    requires
        s.how is Enter,
        outcome is Ok,
        s.cssa > 0,
        s.block.msg matches Message::Req(q) && q.num == SYS_ENARX_CPUID,
    ensures
        s.block.msg matches Message::Req(q) ==> step_spec(s, outcome).1 == Ok::<Action, Error>(
            Action::Cpuid { leaf: q.arg@[0], subleaf: q.arg@[1] },
        ),
        step_spec(s, outcome).1 matches Ok(a) && !(a is SysCall),
{
}

/// The thread state after a sequence of hardware outcomes, first to last.
pub open spec fn run_spec(s: Thread, outs: Seq<Result<(), ExceptionInfo>>) -> Thread
    decreases outs.len(),
{
    if outs.len() == 0 {
        s
    } else {
        run_spec(step_spec(s, outs[0]).0, outs.drop_first())
    }
}

/// Whether every step of the run is accepted (no step reports a defect).
pub open spec fn run_accepted(s: Thread, outs: Seq<Result<(), ExceptionInfo>>) -> bool
    decreases outs.len(),
{
    outs.len() == 0 || (step_spec(s, outs[0]).1 is Ok && run_accepted(
        step_spec(s, outs[0]).0,
        outs.drop_first(),
    ))
}

/// How many outcomes of the sequence transition to the given entry mode.
pub open spec fn count_transitions(outs: Seq<Result<(), ExceptionInfo>>, e: Entry) -> int
    decreases outs.len(),
{
    if outs.len() == 0 {
        0
    } else {
        (if next_entry(outs[0]) == Some(e) {
            1int
        } else {
            0int
        }) + count_transitions(outs.drop_first(), e)
    }
}

/// A transition count is never negative.
pub proof fn lemma_count_transitions_nonneg(outs: Seq<Result<(), ExceptionInfo>>, e: Entry)
    ensures
        count_transitions(outs, e) >= 0,
    decreases outs.len(),
{
    if outs.len() > 0 {
        lemma_count_transitions_nonneg(outs.drop_first(), e);
    }
}

/// The depth counter is the surplus of enter transitions over resume
/// transitions: over any accepted run it equals its starting value plus the
/// number of `Enter` transitions minus the number of `Resume` transitions,
/// and the resume count never exceeds that budget. Since the depth is an
/// unsigned machine integer, it is non-negative for the thread's lifetime;
/// a step that would drive it below zero is rejected before any change.
pub proof fn lemma_depth_counts(s: Thread, outs: Seq<Result<(), ExceptionInfo>>)
    requires
        run_accepted(s, outs),
        s.cssa + count_transitions(outs, Entry::Enter) <= usize::MAX,
    ensures
        run_spec(s, outs).cssa == s.cssa + count_transitions(outs, Entry::Enter)
            - count_transitions(outs, Entry::Resume),
        count_transitions(outs, Entry::Resume) <= s.cssa + count_transitions(outs, Entry::Enter),
    decreases outs.len(),
{
    lemma_count_transitions_nonneg(outs, Entry::Enter);
    lemma_count_transitions_nonneg(outs, Entry::Resume);
    if outs.len() > 0 {
        let rest = outs.drop_first();
        lemma_count_transitions_nonneg(rest, Entry::Enter);
        lemma_depth_counts(step_spec(s, outs[0]).0, rest);
    }
}

/// Starting from depth zero, after an accepted run with `n` enter
/// transitions and `m` resume transitions the depth equals `n - m`,
/// and `m` never exceeds `n`.
pub proof fn lemma_depth_is_entry_surplus(s: Thread, outs: Seq<Result<(), ExceptionInfo>>)
    requires
        s.cssa == 0,
        run_accepted(s, outs),
        count_transitions(outs, Entry::Enter) <= usize::MAX,
    ensures
        run_spec(s, outs).cssa == count_transitions(outs, Entry::Enter) - count_transitions(
            outs,
            Entry::Resume,
        ),
        count_transitions(outs, Entry::Resume) <= count_transitions(outs, Entry::Enter),
{
    lemma_depth_counts(s, outs);
}

/// A resume outcome at depth zero is rejected before any underflow:
/// the step reports the defect and leaves the thread unchanged.
pub proof fn lemma_underflow_rejected(s: Thread, outcome: Result<(), ExceptionInfo>)
    requires
        s.cssa == 0,
        next_entry(outcome) == Some(Entry::Resume),
    ensures
        step_spec(s, outcome).0 == s,
        step_spec(s, outcome).1 == Err::<Action, Error>(Error::DepthUnderflow),
{
}

} // verus!
