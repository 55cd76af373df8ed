//! The session bridge state machine.
//!
//! One session bridges one client connection to one sandboxed process over
//! three pumps: client to process, process to queue, queue to client. The
//! bridge itself only decides: what an inbound message means, what goes on
//! the outbound queue, and when the session moves through its phases
//! `Starting -> Active -> Closing -> Terminated`. The first pump to exit —
//! success or error, it makes no difference — sends the session to
//! `Closing`, and exactly that first exit triggers the sandbox teardown.

use vstd::prelude::*;
use crate::codec::{
    decode, decode_spec, encode_data_spec, Decoded, DecodedModel, Frame, FrameModel, WindowSize,
};
use crate::multiplexer::{OutboundMsg, OutboundMsgModel, OutboundQueue};

verus! {

/// Phases of one bridge session.
#[derive(Clone, Copy, PartialEq, Eq, Structural, Debug)]
pub enum SessionState {
    /// The sandbox is being launched; no pump runs yet.
    Starting,
    /// The pseudo-terminal is attached and all three pumps run.
    Active,
    /// Some pump has exited; the sandbox is being torn down.
    Closing,
    /// The sandboxed process has been removed.
    Terminated,
}

/// What the connection loop must do with one inbound client message.
pub enum InboundAction {
    /// Write these bytes to the process's terminal input.
    WriteProcess(Vec<u8>),
    /// Apply this geometry to the pseudo-terminal.
    ResizeProcess(WindowSize),
    /// Do nothing: an empty data payload, an unknown tag, or an empty
    /// message.
    Ignore,
    /// A malformed control frame: fatal for the session.
    Fail,
}

/// Mathematical model of an [`InboundAction`].
pub enum InboundActionModel {
    WriteProcess(Seq<u8>),
    ResizeProcess(u16, u16),
    Ignore,
    Fail,
}

impl View for InboundAction {
    type V = InboundActionModel;

    open spec fn view(&self) -> InboundActionModel {
        match self {
            InboundAction::WriteProcess(b) => InboundActionModel::WriteProcess(b@),
            InboundAction::ResizeProcess(ws) => InboundActionModel::ResizeProcess(
                ws.cols,
                ws.rows,
            ),
            InboundAction::Ignore => InboundActionModel::Ignore,
            InboundAction::Fail => InboundActionModel::Fail,
        }
    }
}

/// What one inbound binary message means for the process: a data frame
/// with nonempty payload is written, a data frame with empty payload is
/// skipped, a resize frame resizes, an ignored tag does nothing, and a
/// malformed control frame is fatal.
pub open spec fn route_inbound_spec(raw: Seq<u8>) -> InboundActionModel {
    match decode_spec(raw) {
        DecodedModel::Valid(FrameModel::Data(payload)) => if payload.len() == 0 {
            InboundActionModel::Ignore
        } else {
            InboundActionModel::WriteProcess(payload)
        },
        DecodedModel::Valid(FrameModel::Resize(c, r)) => InboundActionModel::ResizeProcess(c, r),
        DecodedModel::Ignored => InboundActionModel::Ignore,
        DecodedModel::MalformedControlFrame => InboundActionModel::Fail,
    }
}

/// How a pump exit moves the session on: the first exit out of `Active`
/// starts the teardown, every later one changes nothing.
pub open spec fn pump_exit_spec(s: SessionState) -> (SessionState, bool) {
    if s == SessionState::Active {
        (SessionState::Closing, true)
    } else {
        (s, false)
    }
}

/// The state of one bridge session.
pub struct Session {
    /// The phase the session is in.
    pub state: SessionState,
}

impl Session {
    /// A new session, still launching its sandbox.
    pub fn new() -> (s: Session)
        ensures
            s.state == SessionState::Starting,
    {
        Session { state: SessionState::Starting }
    }

    /// Enter `Active`: the pseudo-terminal handle is available and the
    /// three pumps are launched.
    pub fn activate(&mut self)
        requires
            old(self).state == SessionState::Starting,
        ensures
            final(self).state == SessionState::Active,
    {
        self.state = SessionState::Active;
    }

    /// Decide what one inbound binary client message means.
    pub fn route_inbound(&self, raw: &[u8]) -> (a: InboundAction)
        requires
            self.state == SessionState::Active,
        ensures
            a@ == route_inbound_spec(raw@),
    {
        match decode(raw) {
            Decoded::Valid(Frame::Data(payload)) => {
                if payload.len() == 0 {
                    InboundAction::Ignore
                } else {
                    InboundAction::WriteProcess(payload)
                }
            },
            Decoded::Valid(Frame::Resize(ws)) => InboundAction::ResizeProcess(ws),
            Decoded::Ignored => InboundAction::Ignore,
            Decoded::MalformedControlFrame => InboundAction::Fail,
        }
    }

    /// Answer a native ping: enqueue exactly one pong that echoes the
    /// ping's payload.
    pub fn on_ping(&self, payload: Vec<u8>, q: &mut OutboundQueue)
        requires
            self.state == SessionState::Active,
        ensures
            final(q)@ == old(q)@.push(OutboundMsgModel::Pong(payload@)),
    {
        q.enqueue(OutboundMsg::Pong(payload));
    }

    /// Take one read from the pseudo-terminal: a nonempty chunk is framed
    /// as data and enqueued, an empty read means the process hung up.
    pub fn on_pty_read(&self, chunk: &[u8], q: &mut OutboundQueue) -> (eof: bool)
        requires
            self.state == SessionState::Active,
        ensures
            eof == (chunk@.len() == 0),
            chunk@.len() == 0 ==> final(q)@ == old(q)@,
            chunk@.len() > 0 ==> final(q)@ == old(q)@.push(
                OutboundMsgModel::Binary(encode_data_spec(chunk@)),
            ),
    {
        if chunk.len() == 0 {
            return true;
        }
        let framed = crate::codec::encode_data(chunk);
        q.enqueue(OutboundMsg::Binary(framed));
        false
    }

    /// Record that one pump has exited. Returns whether the sandbox must
    /// be torn down now: true exactly on the first exit of an active
    /// session, so teardown is triggered once however many pumps follow.
    pub fn pump_exited(&mut self) -> (terminate_now: bool)
        ensures
            (final(self).state, terminate_now) == pump_exit_spec(old(self).state),
    {
        if matches!(self.state, SessionState::Active) {
            self.state = SessionState::Closing;
            true
        } else {
            false
        }
    }

    /// Record that the sandboxed process has been removed.
    pub fn terminated(&mut self)
        requires
            old(self).state == SessionState::Closing,
        ensures
            final(self).state == SessionState::Terminated,
    {
        self.state = SessionState::Terminated;
    }
}

/// Law: a data frame that holds only its tag byte decodes without error
/// and writes nothing to the process.
pub proof fn lemma_empty_data_writes_nothing(raw: Seq<u8>)
    requires
        raw.len() == 1,
        raw[0] == crate::codec::TAG_DATA,
    ensures
        decode_spec(raw) == DecodedModel::Valid(FrameModel::Data(Seq::<u8>::empty())),
        route_inbound_spec(raw) == InboundActionModel::Ignore,
{
    assert(raw.drop_first() =~= Seq::<u8>::empty());
}

/// Law: an unrecognized tag byte is ignored — decoding never errors on
/// it and routing never writes to the process, whatever the payload.
pub proof fn lemma_unknown_tag_ignored(raw: Seq<u8>)
    requires
        raw.len() > 0,
        raw[0] != crate::codec::TAG_DATA,
        raw[0] != crate::codec::TAG_RESIZE,
    ensures
        decode_spec(raw) == DecodedModel::Ignored,
        route_inbound_spec(raw) == InboundActionModel::Ignore,
{
}

/// Law: teardown is triggered exactly once — after the pump exit that
/// left `Active`, no later pump exit asks for it again, whatever state
/// the session was in.
pub proof fn lemma_single_teardown(s: SessionState)
    ensures
        !pump_exit_spec(pump_exit_spec(s).0).1,
{
}

/// Law: a ping answered while process output keeps arriving stays ahead
/// of it — the pong stands in the queue before any chunk enqueued later,
/// and it is the only message the ping added.
pub proof fn lemma_pong_before_later_output(
    q: Seq<OutboundMsgModel>,
    payload: Seq<u8>,
    chunk: Seq<u8>,
)
    ensures
        ({
            let after_ping = q.push(OutboundMsgModel::Pong(payload));
            let after_chunk = after_ping.push(
                OutboundMsgModel::Binary(encode_data_spec(chunk)),
            );
            &&& after_ping.len() == q.len() + 1
            &&& after_ping.subrange(0, q.len() as int) == q
            &&& after_chunk[q.len() as int] == OutboundMsgModel::Pong(payload)
            &&& after_chunk[q.len() as int + 1] == OutboundMsgModel::Binary(
                encode_data_spec(chunk),
            )
        }),
{
    let after_ping = q.push(OutboundMsgModel::Pong(payload));
    assert(after_ping.subrange(0, q.len() as int) =~= q);
}

} // verus!
