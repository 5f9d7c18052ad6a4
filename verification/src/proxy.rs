//! The in-enclave side of the syscall proxy.
//!
//! The isolated code cannot perform real host syscalls. It writes a request
//! into the shared block, issues a release fence so every prior write is
//! externally visible, and forces an asynchronous exit with an intentionally
//! illegal instruction; the unverified shell performs that exit. On
//! resumption an acquire fence makes the host-written reply visible before
//! it is read. A circuit breaker for detected tampering is a one-way latch:
//! once tripped, any attempt to run the isolated code exits immediately.

use vstd::prelude::*;

use crate::block::{reply_errno, reply_is_error, Block, Message, Request};
use crate::Error;

verus! {

/// The irrevocable exit of the isolated code, with its exit code. This is
/// not an error channel: nothing may handle it and continue, by design.
#[derive(Clone, Copy, Debug, PartialEq, Eq, Structural)]
pub struct TerminalExit {
    pub code: u8,
}

/// Relies on core::sync::atomic::compiler_fence with release ordering:
/// keeps every prior write to the shared block from being moved beyond
/// this point, so the request is externally visible before control
/// leaves the enclave.
#[verifier::external_body]
fn fence_release() {
    core::sync::atomic::compiler_fence(core::sync::atomic::Ordering::Release);
}

/// Relies on core::sync::atomic::compiler_fence with acquire ordering:
/// keeps every later read of the shared block from being moved before
/// this point, so the reply the host wrote while the enclave was not
/// executing is visible before it is read.
#[verifier::external_body]
fn fence_acquire() {
    core::sync::atomic::compiler_fence(core::sync::atomic::Ordering::Acquire);
}

/// The state the isolated code keeps between entries: its view of the
/// shared block, and the circuit breaker.
#[derive(Clone, Copy, Debug)]
pub struct Handler {
    /// The shared untrusted message block.
    pub block: Block,
    /// The circuit breaker: set on detected tampering, never cleared.
    pub tripped: bool,
}

/// What entry does once the breaker is tripped: an immediate terminal exit.
pub open spec fn on_enter_spec(h: Handler) -> Option<u8> {
    if h.tripped {
        Some(1u8)
    } else {
        None
    }
}

/// Tripping the breaker: the latch is set whatever the state was.
pub open spec fn attacked_spec(h: Handler) -> Handler {
    Handler { tripped: true, ..h }
}

/// Preparing a proxied request: refused with the terminal exit once the
/// breaker is tripped, otherwise the request occupies the block.
pub open spec fn prepare_spec(h: Handler, req: Request) -> (Handler, Result<(), TerminalExit>) {
    if h.tripped {
        (h, Err(TerminalExit { code: 1 }))
    } else {
        (Handler { block: Block { msg: Message::Req(req) }, ..h }, Ok(()))
    }
}

impl Handler {
    /// A fresh handler over an empty block, breaker untripped.
    pub fn new() -> (r: Self)
        ensures
            !r.tripped,
            r.block.msg matches Message::Req(q) && q.num == 0,
    {
        Handler { block: Block::default(), tripped: false }
    }

    /// Checked first on every entry of the isolated code: once the breaker
    /// is tripped, entry does nothing but exit immediately, before touching
    /// hardware or the block.
    pub fn on_enter(&self) -> (r: Option<u8>)
        ensures
            r == on_enter_spec(*self),
    {
        if self.tripped {
            Some(1)
        } else {
            None
        }
    }

    /// Trips the circuit breaker and exits the isolated code with code 1.
    /// The latch is one-way: no path ever resets it, because the untrusted
    /// host may retry entry after an attack.
    pub fn attacked(&mut self) -> (r: TerminalExit)
        ensures
            *final(self) == attacked_spec(*old(self)),
            r == (TerminalExit { code: 1 }),
    {
        self.tripped = true;
        TerminalExit { code: 1 }
    }

    /// Writes a request into the shared block and issues the release fence;
    /// the shell must then force the designated illegal-instruction exit.
    /// Short-circuits with the terminal exit if the breaker is tripped.
    pub fn proxy_prepare(&mut self, req: Request) -> (r: Result<(), TerminalExit>)
        ensures
            *final(self) == prepare_spec(*old(self), req).0,
            r == prepare_spec(*old(self), req).1,
    {
        if self.tripped {
            return Err(TerminalExit { code: 1 });
        }
        self.block.msg = Message::Req(req);
        fence_release();
        Ok(())
    }

    /// On resumption after the forced exit: issues the acquire fence, then
    /// reads the block's reply. A block still holding a request means the
    /// host never serviced it: a protocol defect.
    pub fn proxy_complete(&self) -> (r: Result<Result<(u64, u64), i32>, Error>)
        ensures
            self.block.msg matches Message::Req(_) ==> r == Err::<Result<(u64, u64), i32>, Error>(
                Error::MissingReply,
            ),
            self.block.msg matches Message::Rep(rep) ==> (r matches Ok(inner) && (inner is Err
                <==> reply_is_error(rep)) && (inner matches Ok(v) ==> v == (rep.ret0, rep.ret1))
                && (inner matches Err(e) ==> e == reply_errno(rep))),
    {
        fence_acquire();
        match &self.block.msg {
            Message::Rep(rep) => Ok(crate::block::reply_to_result(rep)),
            Message::Req(_) => Err(Error::MissingReply),
        }
    }
}

/// Tripping the circuit breaker from any state prevents any subsequent
/// entry from doing anything but an immediate terminal exit: entry reports
/// exit code 1, a prepared request is refused with the same exit and
/// leaves the state unchanged, and a second attempt behaves identically.
pub proof fn lemma_breaker_latch(h0: Handler, req1: Request, req2: Request)
    ensures
        attacked_spec(h0).tripped,
        on_enter_spec(attacked_spec(h0)) == Some(1u8),
        prepare_spec(attacked_spec(h0), req1).0 == attacked_spec(h0),
        prepare_spec(attacked_spec(h0), req1).1 == Err::<(), TerminalExit>(
            TerminalExit { code: 1 },
        ),
        prepare_spec(prepare_spec(attacked_spec(h0), req1).0, req2) == prepare_spec(
            attacked_spec(h0),
            req1,
        ),
{
}

} // verus!
