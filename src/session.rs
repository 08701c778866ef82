//! The decisions of one connection: which I/O to perform next, given what the
//! last I/O gave back.
use vstd::prelude::*;
use crate::message::{Message, Phase, Reply, SessionError};

verus! {

/// Where a connection stands between two steps.
pub ghost enum StateView<Op> {
    /// Waiting for the next inbound message.
    Receiving,
    /// The operation of request `id` is with the handler.
    Dispatching(i32),
    /// A response of request `id` is being written; the sequence holds the
    /// responses still to write after it, in order.
    Sending(i32, Seq<Op>),
    /// The batch is written and the flush is under way.
    Flushing,
    /// The connection has ended; nothing more is done on it.
    Closed,
}

/// What the driver reports back after performing an action.
pub ghost enum EventView<Op, Ctl, E> {
    Received(i32, Op, Seq<Ctl>),
    DecodeFailed(E),
    StreamEnded,
    Continued(Seq<Op>),
    Terminated,
    Written,
    WriteFailed(E),
    Flushed,
    FlushFailed(E),
}

/// What the session asks the driver to do next.
pub ghost enum ActionView<Op, Ctl, E> {
    ReadNext,
    Dispatch(Op),
    Write(i32, Op, Seq<Ctl>),
    Flush,
    Finish(Result<(), SessionError<E>>),
}

/// The outcome that the driver hands to the session.
pub enum Event<Op, Ctl, E> {
    /// The reader produced a message.
    Received(Message<Op, Ctl>),
    /// The reader failed to decode the next message.
    DecodeFailed(E),
    /// The inbound stream ended cleanly.
    StreamEnded,
    /// The handler answered the dispatched operation.
    Replied(Reply<Op>),
    /// The last response was handed to the writer.
    Written,
    /// The writer refused the last response.
    WriteFailed(E),
    /// The flush completed.
    Flushed,
    /// The flush failed.
    FlushFailed(E),
}

/// The I/O that the session asks the driver to perform.
pub enum Action<Op, Ctl, E> {
    /// Pull the next item from the reader.
    ReadNext,
    /// Hand this operation to the handler.
    Dispatch(Op),
    /// Write this message.
    Write(Message<Op, Ctl>),
    /// Flush the writer.
    Flush,
    /// Close the connection with this outcome.
    Finish(Result<(), SessionError<E>>),
}

impl<Op, Ctl, E> View for Event<Op, Ctl, E> {
    type V = EventView<Op, Ctl, E>;

    open spec fn view(&self) -> EventView<Op, Ctl, E> {
        match self {
            Event::Received(m) => EventView::Received(m.msgid, m.op, m.ctrl@),
            Event::DecodeFailed(e) => EventView::DecodeFailed(*e),
            Event::StreamEnded => EventView::StreamEnded,
            Event::Replied(Reply::Continue(ops)) => EventView::Continued(ops@),
            Event::Replied(Reply::Terminate) => EventView::Terminated,
            Event::Written => EventView::Written,
            Event::WriteFailed(e) => EventView::WriteFailed(*e),
            Event::Flushed => EventView::Flushed,
            Event::FlushFailed(e) => EventView::FlushFailed(*e),
        }
    }
}

impl<Op, Ctl, E> View for Action<Op, Ctl, E> {
    type V = ActionView<Op, Ctl, E>;

    open spec fn view(&self) -> ActionView<Op, Ctl, E> {
        match self {
            Action::ReadNext => ActionView::ReadNext,
            Action::Dispatch(op) => ActionView::Dispatch(*op),
            Action::Write(m) => ActionView::Write(m.msgid, m.op, m.ctrl@),
            Action::Flush => ActionView::Flush,
            Action::Finish(r) => ActionView::Finish(*r),
        }
    }
}

/// Whether a session in state `s` can take event `e`: each action has its own
/// outcomes, and a closed session takes none.
pub open spec fn accepts<Op, Ctl, E>(s: StateView<Op>, e: EventView<Op, Ctl, E>) -> bool {
    match s {
        StateView::Receiving => e is Received || e is DecodeFailed || e is StreamEnded,
        StateView::Dispatching(_) => e is Continued || e is Terminated,
        StateView::Sending(_, _) => e is Written || e is WriteFailed,
        StateView::Flushing => e is Flushed || e is FlushFailed,
        StateView::Closed => false,
    }
}

/// Writes the first of `ops` as a response to request `id`, or flushes when
/// none is left.
pub open spec fn send_next<Op, Ctl, E>(id: i32, ops: Seq<Op>) -> (
    StateView<Op>,
    ActionView<Op, Ctl, E>,
) {
    if ops.len() == 0 {
        (StateView::Flushing, ActionView::Flush)
    } else {
        (StateView::Sending(id, ops.drop_first()), ActionView::Write(id, ops[0], Seq::empty()))
    }
}

/// The state that follows `s` on event `e`, and the action asked for then.
/// Meaningful where `accepts(s, e)`.
pub open spec fn next<Op, Ctl, E>(s: StateView<Op>, e: EventView<Op, Ctl, E>) -> (
    StateView<Op>,
    ActionView<Op, Ctl, E>,
) {
    match (s, e) {
        (StateView::Receiving, EventView::Received(id, op, _)) => (
            StateView::Dispatching(id),
            ActionView::Dispatch(op),
        ),
        (StateView::Receiving, EventView::DecodeFailed(err)) => (
            StateView::Closed,
            ActionView::Finish(Err(SessionError { phase: Phase::Receive, cause: err })),
        ),
        (StateView::Receiving, EventView::StreamEnded) => (
            StateView::Closed,
            ActionView::Finish(Ok(())),
        ),
        (StateView::Dispatching(id), EventView::Continued(ops)) => send_next(id, ops),
        (StateView::Dispatching(_), EventView::Terminated) => (
            StateView::Closed,
            ActionView::Finish(Ok(())),
        ),
        (StateView::Sending(id, ops), EventView::Written) => send_next(id, ops),
        (StateView::Sending(_, _), EventView::WriteFailed(err)) => (
            StateView::Closed,
            ActionView::Finish(Err(SessionError { phase: Phase::Send, cause: err })),
        ),
        (StateView::Flushing, EventView::Flushed) => (StateView::Receiving, ActionView::ReadNext),
        (StateView::Flushing, EventView::FlushFailed(err)) => (
            StateView::Closed,
            ActionView::Finish(Err(SessionError { phase: Phase::Flush, cause: err })),
        ),
        _ => (StateView::Closed, ActionView::Finish(Ok(()))),
    }
}

enum State<Op> {
    Receiving,
    Dispatching(i32),
    Sending(i32, Vec<Op>),
    Flushing,
    Closed,
}

/// The state of one connection's session loop.
pub struct SessionLoop<Op> {
    state: State<Op>,
}

impl<Op> View for SessionLoop<Op> {
    type V = StateView<Op>;

    closed spec fn view(&self) -> StateView<Op> {
        match self.state {
            State::Receiving => StateView::Receiving,
            State::Dispatching(id) => StateView::Dispatching(id),
            State::Sending(id, ops) => StateView::Sending(id, ops@),
            State::Flushing => StateView::Flushing,
            State::Closed => StateView::Closed,
        }
    }
}

fn send_next_exec<Op, Ctl, E>(id: i32, ops: Vec<Op>) -> (r: (SessionLoop<Op>, Action<Op, Ctl, E>))
    ensures
        (r.0@, r.1@) == send_next::<Op, Ctl, E>(id, ops@),
{
    let mut ops = ops;
    if ops.len() == 0 {
        (SessionLoop { state: State::Flushing }, Action::Flush)
    } else {
        let ghost before = ops@;
        let op = ops.remove(0);
        assert(ops@ =~= before.drop_first());
        (SessionLoop { state: State::Sending(id, ops) }, Action::Write(Message::reply(id, op)))
    }
}

impl<Op> SessionLoop<Op> {
    /// A fresh connection, waiting for its first message. The driver starts
    /// by reading.
    pub fn new() -> (r: Self)
        ensures
            r@ == StateView::<Op>::Receiving,
    {
        SessionLoop { state: State::Receiving }
    }

    /// Whether the connection has ended.
    pub fn is_closed(&self) -> (r: bool)
        ensures
            r == (self@ == StateView::<Op>::Closed),
    {
        match self.state {
            State::Closed => true,
            _ => false,
        }
    }

    /// Whether this session can take `ev` now, that is whether `ev` is an
    /// outcome of the action that it last asked for.
    pub fn accepts<Ctl, E>(&self, ev: &Event<Op, Ctl, E>) -> (r: bool)
        ensures
            r == accepts(self@, ev@),
    {
        match (&self.state, ev) {
            (State::Receiving, Event::Received(_)) => true,
            (State::Receiving, Event::DecodeFailed(_)) => true,
            (State::Receiving, Event::StreamEnded) => true,
            (State::Dispatching(_), Event::Replied(_)) => true,
            (State::Sending(_, _), Event::Written) => true,
            (State::Sending(_, _), Event::WriteFailed(_)) => true,
            (State::Flushing, Event::Flushed) => true,
            (State::Flushing, Event::FlushFailed(_)) => true,
            _ => false,
        }
    }

    /// Takes the outcome of the last action and decides the next one.
    ///
    /// A received message goes to the handler by its operation alone. Each
    /// response of a batch is written in order as a message that carries the
    /// request's identifier and no controls, and every batch, an empty one
    /// too, is followed by a flush; after the flush the next message is read.
    /// The end of the inbound stream and the handler's request to terminate
    /// close the connection without error. A decode, write or flush failure
    /// closes it with that error, annotated with its phase.
    pub fn step<Ctl, E>(self, ev: Event<Op, Ctl, E>) -> (r: (Self, Action<Op, Ctl, E>))
        requires
            accepts(self@, ev@),
        ensures
            (r.0@, r.1@) == next(self@, ev@),
    {
        match (self.state, ev) {
            (State::Receiving, Event::Received(m)) => (
                SessionLoop { state: State::Dispatching(m.msgid) },
                Action::Dispatch(m.op),
            ),
            (State::Receiving, Event::DecodeFailed(err)) => (
                SessionLoop { state: State::Closed },
                Action::Finish(Err(SessionError { phase: Phase::Receive, cause: err })),
            ),
            (State::Receiving, Event::StreamEnded) => (
                SessionLoop { state: State::Closed },
                Action::Finish(Ok(())),
            ),
            (State::Dispatching(id), Event::Replied(Reply::Continue(ops))) => send_next_exec(id, ops),
            (State::Dispatching(_), Event::Replied(Reply::Terminate)) => (
                SessionLoop { state: State::Closed },
                Action::Finish(Ok(())),
            ),
            (State::Sending(id, ops), Event::Written) => send_next_exec(id, ops),
            (State::Sending(_, _), Event::WriteFailed(err)) => (
                SessionLoop { state: State::Closed },
                Action::Finish(Err(SessionError { phase: Phase::Send, cause: err })),
            ),
            (State::Flushing, Event::Flushed) => (
                SessionLoop { state: State::Receiving },
                Action::ReadNext,
            ),
            (State::Flushing, Event::FlushFailed(err)) => (
                SessionLoop { state: State::Closed },
                Action::Finish(Err(SessionError { phase: Phase::Flush, cause: err })),
            ),
            _ => (SessionLoop { state: State::Closed }, Action::Finish(Ok(()))),
        }
    }
}

} // verus!
