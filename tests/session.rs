use ldap_session::{Action, Event, Message, Phase, Reply, SessionError, SessionLoop};

#[derive(Debug, Clone, PartialEq)]
enum Op {
    Bind,
    BindResponse(bool),
    Unbind,
    Search,
    SearchResultEntry(u32),
    SearchDone,
    Compare,
}

/// What the driver was asked to do, in order.
#[derive(Debug, PartialEq)]
enum Io {
    Read,
    Dispatch(Op),
    Write(i32, Op, usize),
    Flush,
}

enum Inbound {
    Msg(i32, Op, Vec<u8>),
    Garbled(&'static str),
}

struct Script {
    inbound: Vec<Inbound>,
    replies: Vec<Reply<Op>>,
    fail_write_at: Option<usize>,
    fail_flush_at: Option<usize>,
}

fn drive(script: Script) -> (Vec<Io>, Result<(), SessionError<String>>) {
    let mut inbound = script.inbound.into_iter();
    let mut replies = script.replies.into_iter();
    let mut writes = 0usize;
    let mut flushes = 0usize;
    let mut log = Vec::new();
    let mut session: SessionLoop<Op> = SessionLoop::new();
    let mut action: Action<Op, u8, String> = Action::ReadNext;
    loop {
        let ev = match action {
            Action::ReadNext => {
                log.push(Io::Read);
                match inbound.next() {
                    None => Event::StreamEnded,
                    Some(Inbound::Msg(msgid, op, ctrl)) => Event::Received(Message { msgid, op, ctrl }),
                    Some(Inbound::Garbled(e)) => Event::DecodeFailed(e.to_string()),
                }
            }
            Action::Dispatch(op) => {
                log.push(Io::Dispatch(op));
                Event::Replied(replies.next().expect("handler script ran out"))
            }
            Action::Write(m) => {
                log.push(Io::Write(m.msgid, m.op, m.ctrl.len()));
                writes += 1;
                if script.fail_write_at == Some(writes) {
                    Event::WriteFailed("broken pipe".to_string())
                } else {
                    Event::Written
                }
            }
            Action::Flush => {
                log.push(Io::Flush);
                flushes += 1;
                if script.fail_flush_at == Some(flushes) {
                    Event::FlushFailed("reset by peer".to_string())
                } else {
                    Event::Flushed
                }
            }
            Action::Finish(outcome) => {
                assert!(session.is_closed());
                return (log, outcome);
            }
        };
        assert!(session.accepts(&ev));
        let (s, a) = session.step(ev);
        session = s;
        action = a;
    }
}

fn script(inbound: Vec<Inbound>, replies: Vec<Reply<Op>>) -> Script {
    Script { inbound, replies, fail_write_at: None, fail_flush_at: None }
}

#[test]
fn bind_gets_one_response_then_flush() {
    let (log, outcome) = drive(script(
        vec![Inbound::Msg(1, Op::Bind, vec![])],
        vec![Reply::Continue(vec![Op::BindResponse(true)])],
    ));
    assert_eq!(
        log,
        vec![
            Io::Read,
            Io::Dispatch(Op::Bind),
            Io::Write(1, Op::BindResponse(true), 0),
            Io::Flush,
            Io::Read,
        ]
    );
    assert!(outcome.is_ok());
}

#[test]
fn unbind_terminate_closes_without_output() {
    let (log, outcome) = drive(script(
        vec![Inbound::Msg(2, Op::Unbind, vec![]), Inbound::Msg(7, Op::Bind, vec![])],
        vec![Reply::Terminate],
    ));
    assert_eq!(log, vec![Io::Read, Io::Dispatch(Op::Unbind)]);
    assert!(outcome.is_ok());
}

#[test]
fn search_responses_keep_their_order_and_id() {
    let (log, outcome) = drive(script(
        vec![Inbound::Msg(3, Op::Search, vec![])],
        vec![Reply::Continue(vec![
            Op::SearchResultEntry(1),
            Op::SearchResultEntry(2),
            Op::SearchDone,
        ])],
    ));
    assert_eq!(
        log,
        vec![
            Io::Read,
            Io::Dispatch(Op::Search),
            Io::Write(3, Op::SearchResultEntry(1), 0),
            Io::Write(3, Op::SearchResultEntry(2), 0),
            Io::Write(3, Op::SearchDone, 0),
            Io::Flush,
            Io::Read,
        ]
    );
    assert!(outcome.is_ok());
}

#[test]
fn responses_carry_request_ids_in_order() {
    let (log, outcome) = drive(script(
        vec![
            Inbound::Msg(10, Op::Bind, vec![]),
            Inbound::Msg(11, Op::Search, vec![]),
            Inbound::Msg(12, Op::Compare, vec![]),
        ],
        vec![
            Reply::Continue(vec![Op::BindResponse(false)]),
            Reply::Continue(vec![Op::SearchResultEntry(5), Op::SearchDone]),
            Reply::Continue(vec![]),
        ],
    ));
    let ids: Vec<i32> = log
        .iter()
        .filter_map(|io| match io {
            Io::Write(id, _, _) => Some(*id),
            _ => None,
        })
        .collect();
    assert_eq!(ids, vec![10, 11, 11]);
    assert_eq!(log.iter().filter(|io| **io == Io::Flush).count(), 3);
    assert!(outcome.is_ok());
}

#[test]
fn inbound_controls_are_not_echoed() {
    let (log, _) = drive(script(
        vec![Inbound::Msg(4, Op::Bind, vec![1, 2, 3])],
        vec![Reply::Continue(vec![Op::BindResponse(true)])],
    ));
    assert_eq!(log[2], Io::Write(4, Op::BindResponse(true), 0));
}

#[test]
fn empty_batch_writes_nothing_but_flushes_and_continues() {
    let (log, outcome) = drive(script(
        vec![Inbound::Msg(5, Op::Compare, vec![]), Inbound::Msg(6, Op::Bind, vec![])],
        vec![Reply::Continue(vec![]), Reply::Continue(vec![Op::BindResponse(true)])],
    ));
    assert_eq!(
        log,
        vec![
            Io::Read,
            Io::Dispatch(Op::Compare),
            Io::Flush,
            Io::Read,
            Io::Dispatch(Op::Bind),
            Io::Write(6, Op::BindResponse(true), 0),
            Io::Flush,
            Io::Read,
        ]
    );
    assert!(outcome.is_ok());
}

#[test]
fn terminate_stops_reading_after_earlier_responses() {
    let (log, outcome) = drive(script(
        vec![
            Inbound::Msg(1, Op::Bind, vec![]),
            Inbound::Msg(2, Op::Unbind, vec![]),
            Inbound::Msg(3, Op::Search, vec![]),
        ],
        vec![Reply::Continue(vec![Op::BindResponse(true)]), Reply::Terminate],
    ));
    assert_eq!(
        log,
        vec![
            Io::Read,
            Io::Dispatch(Op::Bind),
            Io::Write(1, Op::BindResponse(true), 0),
            Io::Flush,
            Io::Read,
            Io::Dispatch(Op::Unbind),
        ]
    );
    assert!(outcome.is_ok());
}

#[test]
fn decode_error_aborts_before_dispatch() {
    let (log, outcome) = drive(script(
        vec![
            Inbound::Msg(1, Op::Bind, vec![]),
            Inbound::Garbled("bad tag"),
            Inbound::Msg(3, Op::Search, vec![]),
        ],
        vec![Reply::Continue(vec![Op::BindResponse(true)])],
    ));
    assert_eq!(
        log,
        vec![
            Io::Read,
            Io::Dispatch(Op::Bind),
            Io::Write(1, Op::BindResponse(true), 0),
            Io::Flush,
            Io::Read,
        ]
    );
    let err = outcome.unwrap_err();
    assert_eq!(err.phase, Phase::Receive);
    assert_eq!(err.cause, "bad tag");
}

#[test]
fn write_failure_aborts_mid_batch() {
    let mut s = script(
        vec![Inbound::Msg(1, Op::Bind, vec![]), Inbound::Msg(2, Op::Search, vec![])],
        vec![
            Reply::Continue(vec![Op::BindResponse(true)]),
            Reply::Continue(vec![Op::SearchResultEntry(1), Op::SearchResultEntry(2), Op::SearchDone]),
        ],
    );
    s.fail_write_at = Some(3);
    let (log, outcome) = drive(s);
    assert_eq!(
        log,
        vec![
            Io::Read,
            Io::Dispatch(Op::Bind),
            Io::Write(1, Op::BindResponse(true), 0),
            Io::Flush,
            Io::Read,
            Io::Dispatch(Op::Search),
            Io::Write(2, Op::SearchResultEntry(1), 0),
            Io::Write(2, Op::SearchResultEntry(2), 0),
        ]
    );
    let err = outcome.unwrap_err();
    assert_eq!(err.phase, Phase::Send);
    assert_eq!(err.cause, "broken pipe");
}

#[test]
fn flush_failure_aborts_after_batch() {
    let mut s = script(
        vec![Inbound::Msg(8, Op::Search, vec![]), Inbound::Msg(9, Op::Bind, vec![])],
        vec![Reply::Continue(vec![Op::SearchDone])],
    );
    s.fail_flush_at = Some(1);
    let (log, outcome) = drive(s);
    assert_eq!(
        log,
        vec![Io::Read, Io::Dispatch(Op::Search), Io::Write(8, Op::SearchDone, 0), Io::Flush]
    );
    let err = outcome.unwrap_err();
    assert_eq!(err.phase, Phase::Flush);
    assert_eq!(err.cause, "reset by peer");
}

#[test]
fn empty_stream_ends_cleanly() {
    let (log, outcome) = drive(script(vec![], vec![]));
    assert_eq!(log, vec![Io::Read]);
    assert!(outcome.is_ok());
}

#[test]
fn events_out_of_turn_are_refused() {
    let session: SessionLoop<Op> = SessionLoop::new();
    assert!(!session.is_closed());
    assert!(!session.accepts(&Event::<Op, u8, String>::Written));
    assert!(!session.accepts(&Event::<Op, u8, String>::Replied(Reply::Terminate)));
    assert!(session.accepts(&Event::<Op, u8, String>::StreamEnded));
    let (session, _) = session.step(Event::<Op, u8, String>::StreamEnded);
    assert!(session.is_closed());
    assert!(!session.accepts(&Event::<Op, u8, String>::StreamEnded));
    assert!(!session.accepts(&Event::<Op, u8, String>::Flushed));
}

#[test]
fn reply_message_echoes_id_without_controls() {
    let m: Message<Op, u8> = Message::reply(42, Op::SearchDone);
    assert_eq!(m.msgid, 42);
    assert_eq!(m.op, Op::SearchDone);
    assert!(m.ctrl.is_empty());
}

#[test]
fn phases_name_their_context() {
    assert_eq!(Phase::Receive.context(), "while receiving a message");
    assert_eq!(Phase::Send.context(), "while sending a response");
    assert_eq!(Phase::Flush.context(), "while flushing responses");
}
