use sgx_keep::block::{Block, Message, Reply, Request, SYS_ENARX_CPUID, SYS_ENARX_GETATT};
use sgx_keep::thread::{
    Action, Command, Entry, ExceptionInfo, Registers, Thread, VECTOR_INVALID_OPCODE,
};
use sgx_keep::Error;

fn fresh_thread() -> Thread {
    Thread {
        tcs: 7,
        registers: Registers::default(),
        block: Block::default(),
        cssa: 0,
        how: Entry::Enter,
    }
}

fn ud2_exit(last: Entry) -> ExceptionInfo {
    ExceptionInfo { last, trap: VECTOR_INVALID_OPCODE, code: 0, addr: 0 }
}

#[test]
fn entry_leaf_values() {
    assert_eq!(Entry::Enter.leaf(), 2);
    assert_eq!(Entry::Resume.leaf(), 3);
}

#[test]
fn state_machine_scenario() {
    // Fresh thread, depth 0, about to enter. The isolated code traps the
    // designated illegal instruction to request service.
    let mut t = fresh_thread();
    t.block.msg = Message::Req(Request { num: SYS_ENARX_CPUID, arg: [1, 0, 0, 0, 0, 0] });

    let a = t.enter(Err(ud2_exit(Entry::Enter))).unwrap();
    assert_eq!(a, Action::Continue);
    assert_eq!(t.how, Entry::Enter);
    assert_eq!(t.cssa, 1);

    // The handler layer finishes cleanly: depth drops to 0 and the block's
    // request number is decoded. The CPU-id passthrough is serviced
    // internally and never surfaces as a generic command.
    let a = t.enter(Ok(())).unwrap();
    assert_eq!(t.how, Entry::Resume);
    assert_eq!(t.cssa, 0);
    assert_eq!(a, Action::Cpuid { leaf: 1, subleaf: 0 });
    assert_eq!(a.surfaced(), Command::Continue);
}

#[test]
fn depth_counts_enters_minus_resumes() {
    let mut t = fresh_thread();
    // Three enter transitions, then two resumes: depth is 3 - 2 = 1.
    for _ in 0..3 {
        t.enter(Err(ud2_exit(Entry::Enter))).unwrap();
    }
    assert_eq!(t.cssa, 3);
    t.enter(Ok(())).unwrap();
    t.how = Entry::Resume; // resumes that are not proxy completions
    t.enter(Ok(())).unwrap();
    assert_eq!(t.cssa, 1);
}

#[test]
fn depth_underflow_rejected_before_change() {
    let mut t = fresh_thread();
    let before_how = t.how;
    let r = t.enter(Ok(()));
    assert_eq!(r, Err(Error::DepthUnderflow));
    assert_eq!(t.cssa, 0);
    assert_eq!(t.how, before_how);
}

#[test]
fn unexpected_exit_is_fatal() {
    let mut t = fresh_thread();
    t.cssa = 1;
    let gp_fault = ExceptionInfo { last: Entry::Enter, trap: 13, code: 0, addr: 0xdead };
    let r = t.enter(Err(gp_fault));
    assert_eq!(r, Err(Error::UnexpectedExit));
    assert_eq!(t.cssa, 1);
}

#[test]
fn attest_request_decoded_and_replied() {
    let mut t = fresh_thread();
    t.block.msg = Message::Req(Request { num: SYS_ENARX_GETATT, arg: [10, 20, 30, 40, 0, 0] });
    t.enter(Err(ud2_exit(Entry::Enter))).unwrap();
    let a = t.enter(Ok(())).unwrap();
    assert_eq!(a, Action::Attest { nonce: 10, nonce_len: 20, buf: 30, buf_len: 40 });
    t.resolve_attest(432);
    match t.block.msg {
        Message::Rep(rep) => {
            assert_eq!(rep.ret0, 432);
            assert_eq!(rep.ret1, 0);
        }
        Message::Req(_) => panic!("reply expected"),
    }
}

#[test]
fn ordinary_syscall_surfaces_to_caller() {
    let mut t = fresh_thread();
    t.block.msg = Message::Req(Request { num: 1, arg: [3, 0x1000, 17, 0, 0, 0] });
    t.enter(Err(ud2_exit(Entry::Enter))).unwrap();
    let a = t.enter(Ok(())).unwrap();
    assert_eq!(a, Action::SysCall);
    assert_eq!(a.surfaced(), Command::SysCall);
}

#[test]
fn cpuid_words_written_in_place() {
    let mut t = fresh_thread();
    t.block.msg = Message::Req(Request { num: SYS_ENARX_CPUID, arg: [1, 0, 8, 9, 55, 66] });
    t.resolve_cpuid(0xa, 0xb, 0xc, 0xd).unwrap();
    match t.block.msg {
        Message::Req(q) => {
            assert_eq!(q.num, SYS_ENARX_CPUID);
            assert_eq!(q.arg, [0xa, 0xb, 0xc, 0xd, 55, 66]);
        }
        Message::Rep(_) => panic!("request expected"),
    }
}

#[test]
fn cpuid_without_request_is_defect() {
    let mut t = fresh_thread();
    t.block.msg = Message::Rep(Reply { ret0: 0, ret1: 0 });
    assert_eq!(t.resolve_cpuid(1, 2, 3, 4), Err(Error::MissingRequest));
}

#[test]
fn proxy_completion_without_request_is_defect() {
    let mut t = fresh_thread();
    t.cssa = 1;
    t.block.msg = Message::Rep(Reply { ret0: 0, ret1: 0 });
    let r = t.enter(Ok(()));
    assert_eq!(r, Err(Error::MissingRequest));
    assert_eq!(t.cssa, 1);
}
