//! The shared message block: a fixed-layout region, readable and writable by
//! both the isolated code and the host, that carries exactly one in-flight
//! request/reply pair. Ownership alternates strictly between the two sides;
//! the enum models which half of the pair is live.

use vstd::prelude::*;

verus! {

/// Operation number of the attestation-report retrieval request.
pub const SYS_ENARX_GETATT: u64 = 0xEA01;

/// Operation number of the CPU-identification passthrough request.
pub const SYS_ENARX_CPUID: u64 = 0xEA04;

/// Replies encode failure in the first result word: any value strictly above
/// this floor is a negated errno, exactly as the host kernel reports it.
pub const REPLY_ERROR_FLOOR: u64 = 0xFFFF_FFFF_FFFF_F000;

/// One proxied request: an operation number and up to six argument words.
#[derive(Clone, Copy, Debug, PartialEq, Eq)]
pub struct Request {
    pub num: u64,
    pub arg: [u64; 6],
}

/// One reply: two result words; failure is a negated errno in the first.
#[derive(Clone, Copy, Debug, PartialEq, Eq, Structural)]
pub struct Reply {
    pub ret0: u64,
    pub ret1: u64,
}

/// Which half of the request/reply pair currently occupies the block.
#[derive(Clone, Copy, Debug, PartialEq, Eq)]
pub enum Message {
    /// The isolated code has written a request the host is yet to service.
    Req(Request),
    /// The host has written a reply the isolated code is yet to read.
    Rep(Reply),
}

/// The shared untrusted-memory message block.
#[derive(Clone, Copy, Debug, PartialEq, Eq)]
pub struct Block {
    pub msg: Message,
}

impl Default for Block {
    /// An empty block: a zeroed request, as both sides expect at spawn time.
    fn default() -> (r: Self)
        ensures
            r.msg matches Message::Req(q) && q.num == 0 && q.arg@ =~= seq![0u64, 0u64, 0u64, 0u64, 0u64, 0u64],
    {
        Block { msg: Message::Req(Request { num: 0, arg: [0, 0, 0, 0, 0, 0] }) }
    }
}

/// Whether a reply reports failure.
pub open spec fn reply_is_error(r: Reply) -> bool {
    r.ret0 > REPLY_ERROR_FLOOR
}

/// The positive errno a failing reply carries.
pub open spec fn reply_errno(r: Reply) -> int {
    (u64::MAX - r.ret0) + 1
}

/// Decodes a reply as the isolated code does: a first word above the error
/// floor is a negated errno; anything else is a successful pair of words.
pub fn reply_to_result(r: &Reply) -> (out: Result<(u64, u64), i32>)
    ensures
        out is Err <==> reply_is_error(*r),
        out matches Ok(v) ==> v == (r.ret0, r.ret1),
        out matches Err(e) ==> e == reply_errno(*r),
{
    if r.ret0 > REPLY_ERROR_FLOOR {
        let magnitude: u64 = (u64::MAX - r.ret0) + 1;
        assert(magnitude <= 4096);
        Err(magnitude as i32)
    } else {
        Ok((r.ret0, r.ret1))
    }
}

} // verus!
