use sgx_keep::block::{reply_to_result, Message, Reply, Request};
use sgx_keep::proxy::{Handler, TerminalExit};
use sgx_keep::Error;

#[test]
fn shared_block_round_trip() {
    // The isolated side writes a request and forces the exit path...
    let mut h = Handler::new();
    let req = Request { num: 9, arg: [11, 22, 33, 44, 55, 66] };
    h.proxy_prepare(req).unwrap();
    match h.block.msg {
        Message::Req(q) => assert_eq!(q, req),
        Message::Rep(_) => panic!("request expected in the block"),
    }

    // ...the host services it while the enclave is not executing and
    // writes the reply after the fence pair...
    h.block.msg = Message::Rep(Reply { ret0: 42, ret1: 7 });

    // ...and on resumption the isolated side reads exactly that reply.
    let out = h.proxy_complete().unwrap();
    assert_eq!(out, Ok((42, 7)));
}

#[test]
fn reply_errno_decoding() {
    // -38 (ENOSYS) encoded as the kernel returns it.
    let rep = Reply { ret0: (-38i64) as u64, ret1: 0 };
    assert_eq!(reply_to_result(&rep), Err(38));
    let rep = Reply { ret0: 5, ret1: 9 };
    assert_eq!(reply_to_result(&rep), Ok((5, 9)));
    // The error floor itself is still a successful value.
    let rep = Reply { ret0: u64::MAX - 4095, ret1: 0 };
    assert_eq!(reply_to_result(&rep), Ok((u64::MAX - 4095, 0)));
}

#[test]
fn completion_without_reply_is_defect() {
    let mut h = Handler::new();
    h.proxy_prepare(Request { num: 1, arg: [0; 6] }).unwrap();
    assert_eq!(h.proxy_complete(), Err(Error::MissingReply));
}

#[test]
fn circuit_breaker_is_one_way() {
    let mut h = Handler::new();
    assert_eq!(h.on_enter(), None);

    let exit = h.attacked();
    assert_eq!(exit, TerminalExit { code: 1 });

    // Both subsequent entry attempts do nothing but the same terminal exit.
    assert_eq!(h.on_enter(), Some(1));
    assert_eq!(h.on_enter(), Some(1));

    let before = h.block.msg;
    let r1 = h.proxy_prepare(Request { num: 3, arg: [0; 6] });
    assert_eq!(r1, Err(TerminalExit { code: 1 }));
    let r2 = h.proxy_prepare(Request { num: 4, arg: [0; 6] });
    assert_eq!(r2, Err(TerminalExit { code: 1 }));
    assert_eq!(h.block.msg, before);
    assert!(h.tripped);
}
