//! Verified core of a terminal-session bridge.
//!
//! The library holds the logic of a service that attaches a remote client to
//! an interactive program running on a pseudo-terminal inside a sandbox: the
//! wire-frame codec, the outbound message queue, the session state machine,
//! the lifecycle rules (variant validation, session naming, teardown), and
//! the parsing of version-probe output. All I/O — the websocket, the
//! pseudo-terminal, the sandbox runtime — lives outside the library, which
//! only decides what each byte stream and event means.

pub mod codec;
pub mod multiplexer;
pub mod lifecycle;
pub mod sandbox;
pub mod session;
pub mod versions;
