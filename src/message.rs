//! The values that travel through a session: framed messages, the handler's
//! replies, and the errors that end a connection.
use vstd::prelude::*;

verus! {

/// One framed protocol message: the correlation identifier chosen by the
/// requester, the operation, and the controls that travelled with it.
pub struct Message<Op, Ctl> {
    pub msgid: i32,
    pub op: Op,
    pub ctrl: Vec<Ctl>,
}

impl<Op, Ctl> Message<Op, Ctl> {
    /// A response to the request `msgid`: same identifier, no controls.
    pub fn reply(msgid: i32, op: Op) -> (r: Self)
        ensures
            r.msgid == msgid,
            r.op == op,
            r.ctrl@ == Seq::<Ctl>::empty(),
    {
        Message { msgid, op, ctrl: Vec::new() }
    }
}

/// What the handler answers to one operation.
pub enum Reply<Op> {
    /// Responses to write in this order; an empty batch is a valid answer.
    Continue(Vec<Op>),
    /// No further responses: the connection ends after this request.
    Terminate,
}

/// The stage of a connection in which a fatal error came up.
#[derive(Clone, Copy, Debug, PartialEq, Eq, Structural)]
pub enum Phase {
    Receive,
    Send,
    Flush,
}

/// The words that annotate an error raised in phase `p`.
pub open spec fn phase_context(p: Phase) -> Seq<char> {
    match p {
        Phase::Receive => "while receiving a message"@,
        Phase::Send => "while sending a response"@,
        Phase::Flush => "while flushing responses"@,
    }
}

impl Phase {
    /// The context to attach to an error raised in this phase.
    pub fn context(&self) -> (r: &'static str)
        ensures
            r@ == phase_context(*self),
    {
        proof {
            reveal_strlit("while receiving a message");
            reveal_strlit("while sending a response");
            reveal_strlit("while flushing responses");
        }
        match self {
            Phase::Receive => "while receiving a message",
            Phase::Send => "while sending a response",
            Phase::Flush => "while flushing responses",
        }
    }
}

/// A fatal error of a connection, with the phase in which it came up.
pub struct SessionError<E> {
    pub phase: Phase,
    pub cause: E,
}

} // verus!
