use helix_bridge::codec::WindowSize;
use helix_bridge::multiplexer::{OutboundMsg, OutboundQueue};
use helix_bridge::sandbox::SandboxHandle;
use helix_bridge::session::{InboundAction, Session, SessionState};

fn active_session() -> Session {
    let mut s = Session::new();
    assert_eq!(s.state, SessionState::Starting);
    s.activate();
    assert_eq!(s.state, SessionState::Active);
    s
}

#[test]
fn client_data_reaches_the_process_input() {
    let s = active_session();
    let mut handle = SandboxHandle::start(80, 24);
    let msg: [u8; 4] = [0x00, b'l', b's', b'\n'];
    match s.route_inbound(&msg) {
        InboundAction::WriteProcess(bytes) => {
            assert!(handle.feed(&bytes));
        },
        _ => panic!("a data frame must be written to the process"),
    }
    assert_eq!(handle.input, b"ls\n".to_vec());
}

#[test]
fn client_resize_reaches_the_handle() {
    let s = active_session();
    let mut handle = SandboxHandle::start(80, 24);
    let mut msg = vec![0x01u8];
    msg.extend_from_slice(b"{\"cols\":80,\"rows\":24}");
    match s.route_inbound(&msg) {
        InboundAction::ResizeProcess(ws) => {
            assert_eq!(ws, WindowSize { cols: 80, rows: 24 });
            assert!(handle.apply_resize(ws));
        },
        _ => panic!("a resize frame must resize the pseudo-terminal"),
    }
    assert_eq!(handle.cols, 80);
    assert_eq!(handle.rows, 24);
}

#[test]
fn empty_data_payload_writes_nothing() {
    let s = active_session();
    match s.route_inbound(&[0x00]) {
        InboundAction::Ignore => {},
        _ => panic!("a tag-only data frame must not trigger a write"),
    }
}

#[test]
fn unknown_tag_writes_nothing_and_is_no_error() {
    let s = active_session();
    match s.route_inbound(&[0x42, 1, 2, 3]) {
        InboundAction::Ignore => {},
        _ => panic!("an unknown tag must be dropped silently"),
    }
}

#[test]
fn malformed_resize_is_fatal() {
    let s = active_session();
    match s.route_inbound(&[0x01, b'n', b'o']) {
        InboundAction::Fail => {},
        _ => panic!("a malformed control frame must be fatal"),
    }
}

#[test]
fn ping_enqueues_exactly_one_pong_ahead_of_later_output() {
    let s = active_session();
    let mut q = OutboundQueue::new();
    s.on_ping(b"beat".to_vec(), &mut q);
    assert_eq!(q.len(), 1);
    let eof = s.on_pty_read(b"hello", &mut q);
    assert!(!eof);
    assert_eq!(q.len(), 2);
    match q.dequeue() {
        Some(OutboundMsg::Pong(p)) => assert_eq!(p, b"beat".to_vec()),
        _ => panic!("the pong must be delivered before later process output"),
    }
    match q.dequeue() {
        Some(OutboundMsg::Binary(b)) => assert_eq!(b, vec![0u8, 104, 101, 108, 108, 111]),
        _ => panic!("the process output must follow the pong"),
    }
    assert!(q.dequeue().is_none());
}

#[test]
fn process_output_reaches_the_client_as_one_tagged_message() {
    let s = active_session();
    let mut q = OutboundQueue::new();
    let eof = s.on_pty_read(b"hello", &mut q);
    assert!(!eof);
    assert_eq!(q.len(), 1);
    match q.dequeue() {
        Some(OutboundMsg::Binary(b)) => {
            assert_eq!(b, vec![0x00u8, b'h', b'e', b'l', b'l', b'o'])
        },
        _ => panic!("process output must leave as one binary data frame"),
    }
}

#[test]
fn queue_delivers_in_enqueue_order() {
    let mut q = OutboundQueue::new();
    assert!(q.is_empty());
    q.enqueue(OutboundMsg::Binary(vec![0, 1]));
    q.enqueue(OutboundMsg::Pong(vec![9]));
    q.enqueue(OutboundMsg::Binary(vec![0, 2]));
    match q.dequeue() {
        Some(OutboundMsg::Binary(b)) => assert_eq!(b, vec![0, 1]),
        _ => panic!("first enqueued, first sent"),
    }
    match q.dequeue() {
        Some(OutboundMsg::Pong(p)) => assert_eq!(p, vec![9]),
        _ => panic!("first enqueued, first sent"),
    }
    match q.dequeue() {
        Some(OutboundMsg::Binary(b)) => assert_eq!(b, vec![0, 2]),
        _ => panic!("first enqueued, first sent"),
    }
    assert!(q.dequeue().is_none());
}

#[test]
fn process_exit_tears_down_exactly_once() {
    let mut s = active_session();
    let mut q = OutboundQueue::new();
    let mut handle = SandboxHandle::start(80, 24);
    // The process hangs up: the output pump sees a zero-byte read.
    let eof = s.on_pty_read(&[], &mut q);
    assert!(eof);
    assert!(q.is_empty());
    // The first pump exit moves the session to Closing and asks for the
    // teardown; the two other pumps exit later and must not ask again.
    assert!(s.pump_exited());
    assert_eq!(s.state, SessionState::Closing);
    handle.terminate();
    assert!(handle.terminated);
    assert!(!s.pump_exited());
    assert!(!s.pump_exited());
    assert_eq!(s.state, SessionState::Closing);
    s.terminated();
    assert_eq!(s.state, SessionState::Terminated);
}
