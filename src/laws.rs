//! What holds of whole runs of a session: the order and tagging of
//! responses, and how each way of ending a connection stops it.
use vstd::prelude::*;
use crate::message::{Phase, SessionError};
use crate::session::{accepts, next, ActionView, EventView, StateView};

verus! {

/// The state reached from `s` through the events `evs`, and the actions
/// asked for on the way, one per event.
pub open spec fn run<Op, Ctl, E>(s: StateView<Op>, evs: Seq<EventView<Op, Ctl, E>>) -> (
    StateView<Op>,
    Seq<ActionView<Op, Ctl, E>>,
)
    decreases evs.len(),
{
    if evs.len() == 0 {
        (s, Seq::empty())
    } else {
        let (s1, a) = next(s, evs[0]);
        let (s2, acts) = run(s1, evs.drop_first());
        (s2, seq![a] + acts)
    }
}

/// Whether a session in state `s` takes each of `evs` in turn.
pub open spec fn takes_all<Op, Ctl, E>(s: StateView<Op>, evs: Seq<EventView<Op, Ctl, E>>) -> bool
    decreases evs.len(),
{
    evs.len() == 0 || (accepts(s, evs[0]) && takes_all(next(s, evs[0]).0, evs.drop_first()))
}

/// The messages that `acts` write, as identifier and operation, in order.
pub open spec fn written<Op, Ctl, E>(acts: Seq<ActionView<Op, Ctl, E>>) -> Seq<(i32, Op)>
    decreases acts.len(),
{
    if acts.len() == 0 {
        Seq::empty()
    } else {
        match acts[0] {
            ActionView::Write(id, op, _) => seq![(id, op)] + written(acts.drop_first()),
            _ => written(acts.drop_first()),
        }
    }
}

/// `n` successful writes in a row.
pub open spec fn writes_done<Op, Ctl, E>(n: nat) -> Seq<EventView<Op, Ctl, E>> {
    Seq::new(n, |i: int| EventView::Written)
}

/// The write actions for the responses `ops` to request `id`.
pub open spec fn replies<Op, Ctl, E>(id: i32, ops: Seq<Op>) -> Seq<ActionView<Op, Ctl, E>> {
    ops.map_values(|op: Op| ActionView::Write(id, op, Seq::empty()))
}

/// The responses `ops`, each tagged with the identifier `id`.
pub open spec fn tagged<Op>(id: i32, ops: Seq<Op>) -> Seq<(i32, Op)> {
    ops.map_values(|op: Op| (id, op))
}

/// The events of one request answered by `batch` with every write and the
/// flush succeeding.
pub open spec fn exchange<Op, Ctl, E>(id: i32, op: Op, ctrl: Seq<Ctl>, batch: Seq<Op>) -> Seq<
    EventView<Op, Ctl, E>,
> {
    seq![EventView::Received(id, op, ctrl), EventView::Continued(batch)] + writes_done(
        batch.len(),
    ) + seq![EventView::Flushed]
}

/// The events of the requests `reqs` (identifier, operation, controls), the
/// `i`th answered by `batches[i]`, with all I/O succeeding.
pub open spec fn conversation<Op, Ctl, E>(
    reqs: Seq<(i32, Op, Seq<Ctl>)>,
    batches: Seq<Seq<Op>>,
) -> Seq<EventView<Op, Ctl, E>>
    decreases reqs.len(),
{
    if reqs.len() == 0 || batches.len() == 0 {
        Seq::empty()
    } else {
        exchange(reqs[0].0, reqs[0].1, reqs[0].2, batches[0]) + conversation(
            reqs.drop_first(),
            batches.drop_first(),
        )
    }
}

/// The responses owed to `reqs` answered by `batches`: each batch in order,
/// tagged with its request's identifier.
pub open spec fn answers<Op, Ctl>(reqs: Seq<(i32, Op, Seq<Ctl>)>, batches: Seq<Seq<Op>>) -> Seq<
    (i32, Op),
>
    decreases reqs.len(),
{
    if reqs.len() == 0 || batches.len() == 0 {
        Seq::empty()
    } else {
        tagged(reqs[0].0, batches[0]) + answers(reqs.drop_first(), batches.drop_first())
    }
}

proof fn lemma_run_append<Op, Ctl, E>(
    s: StateView<Op>,
    a: Seq<EventView<Op, Ctl, E>>,
    b: Seq<EventView<Op, Ctl, E>>,
)
    ensures
        run(s, a + b).0 == run(run(s, a).0, b).0,
        run(s, a + b).1 == run(s, a).1 + run(run(s, a).0, b).1,
        takes_all(s, a + b) == (takes_all(s, a) && takes_all(run(s, a).0, b)),
    decreases a.len(),
{
    if a.len() == 0 {
        assert(a + b =~= b);
        assert(run(s, a).1 + run(run(s, a).0, b).1 =~= run(run(s, a).0, b).1);
    } else {
        let s1 = next(s, a[0]).0;
        let x = next(s, a[0]).1;
        assert((a + b)[0] == a[0]);
        assert((a + b).drop_first() =~= a.drop_first() + b);
        lemma_run_append(s1, a.drop_first(), b);
        let r1 = run(s1, a.drop_first()).1;
        let r2 = run(run(s1, a.drop_first()).0, b).1;
        assert(seq![x] + (r1 + r2) =~= (seq![x] + r1) + r2);
    }
}

proof fn lemma_written_append<Op, Ctl, E>(
    a: Seq<ActionView<Op, Ctl, E>>,
    b: Seq<ActionView<Op, Ctl, E>>,
)
    ensures
        written(a + b) == written(a) + written(b),
    decreases a.len(),
{
    if a.len() == 0 {
        assert(a + b =~= b);
        assert(written(a) + written(b) =~= written(b));
    } else {
        assert((a + b)[0] == a[0]);
        assert((a + b).drop_first() =~= a.drop_first() + b);
        lemma_written_append(a.drop_first(), b);
        match a[0] {
            ActionView::Write(id, op, _) => {
                assert(seq![(id, op)] + (written(a.drop_first()) + written(b)) =~= (seq![
                    (id, op),
                ] + written(a.drop_first())) + written(b));
            },
            _ => {},
        }
    }
}

proof fn lemma_written_replies<Op, Ctl, E>(id: i32, ops: Seq<Op>)
    ensures
        written(replies::<Op, Ctl, E>(id, ops)) == tagged(id, ops),
    decreases ops.len(),
{
    if ops.len() == 0 {
        assert(tagged(id, ops) =~= Seq::empty());
    } else {
        let r = replies::<Op, Ctl, E>(id, ops);
        assert(r.drop_first() =~= replies::<Op, Ctl, E>(id, ops.drop_first()));
        lemma_written_replies::<Op, Ctl, E>(id, ops.drop_first());
        assert(tagged(id, ops) =~= seq![(id, ops[0])] + tagged(id, ops.drop_first()));
    }
}

/// After `k` successful writes a batch has written its first `k` responses
/// and still holds the rest.
proof fn lemma_sending<Op, Ctl, E>(id: i32, ops: Seq<Op>, k: nat)
    requires
        k <= ops.len(),
    ensures
        takes_all(StateView::Sending(id, ops), writes_done::<Op, Ctl, E>(k)),
        run(StateView::Sending(id, ops), writes_done::<Op, Ctl, E>(k)) == (
            StateView::Sending(id, ops.skip(k as int)),
            replies::<Op, Ctl, E>(id, ops.take(k as int)),
        ),
    decreases k,
{
    let w = writes_done::<Op, Ctl, E>(k);
    if k == 0 {
        assert(ops.skip(0) =~= ops);
        assert(replies::<Op, Ctl, E>(id, ops.take(0)) =~= Seq::empty());
    } else {
        assert(w.drop_first() =~= writes_done::<Op, Ctl, E>((k - 1) as nat));
        lemma_sending::<Op, Ctl, E>(id, ops.drop_first(), (k - 1) as nat);
        assert(ops.drop_first().skip(k - 1) =~= ops.skip(k as int));
        assert(replies::<Op, Ctl, E>(id, ops.take(k as int)) =~= seq![
            ActionView::Write(id, ops[0], Seq::empty()),
        ] + replies::<Op, Ctl, E>(id, ops.drop_first().take(k - 1)));
    }
}

proof fn lemma_run_one<Op, Ctl, E>(s: StateView<Op>, e: EventView<Op, Ctl, E>)
    ensures
        run(s, seq![e]) == (next(s, e).0, seq![next(s, e).1]),
        takes_all(s, seq![e]) == accepts(s, e),
{
    let one = seq![e];
    assert(one.drop_first() =~= Seq::<EventView<Op, Ctl, E>>::empty());
    assert(one[0] == e);
    assert(run(next(s, e).0, one.drop_first()) == (next(s, e).0, Seq::<ActionView<Op, Ctl, E>>::empty()));
    assert(takes_all(next(s, e).0, one.drop_first()));
    assert(seq![next(s, e).1] + Seq::<ActionView<Op, Ctl, E>>::empty() =~= seq![next(s, e).1]);
}

/// A batch handed back by the handler is written in full, then flushed.
proof fn lemma_batch<Op, Ctl, E>(id: i32, batch: Seq<Op>)
    ensures
        takes_all(
            StateView::Dispatching(id),
            seq![EventView::<Op, Ctl, E>::Continued(batch)] + writes_done(batch.len()),
        ),
        run(
            StateView::Dispatching(id),
            seq![EventView::<Op, Ctl, E>::Continued(batch)] + writes_done(batch.len()),
        ) == (StateView::<Op>::Flushing, replies::<Op, Ctl, E>(id, batch) + seq![
            ActionView::<Op, Ctl, E>::Flush,
        ]),
{
    let c = seq![EventView::<Op, Ctl, E>::Continued(batch)];
    let d = StateView::<Op>::Dispatching(id);
    lemma_run_one(d, c[0]);
    if batch.len() == 0 {
        let w = writes_done::<Op, Ctl, E>(0);
        assert(c + w =~= c);
        assert(replies::<Op, Ctl, E>(id, batch) + seq![ActionView::<Op, Ctl, E>::Flush] =~= seq![
            ActionView::<Op, Ctl, E>::Flush,
        ]);
    } else {
        let rest = batch.drop_first();
        let n = rest.len();
        let w = writes_done::<Op, Ctl, E>(n);
        let last = seq![EventView::<Op, Ctl, E>::Written];
        assert(writes_done::<Op, Ctl, E>(batch.len()) =~= w + last);
        assert(c + (w + last) =~= (c + w) + last);
        lemma_run_append(d, c, w);
        lemma_sending::<Op, Ctl, E>(id, rest, n);
        let s2 = StateView::Sending(id, rest.skip(n as int));
        lemma_run_append(d, c + w, last);
        lemma_run_one(s2, last[0]);
        assert(rest.skip(n as int) =~= Seq::empty());
        assert(rest.take(n as int) =~= rest);
        assert(replies::<Op, Ctl, E>(id, batch) =~= seq![
            ActionView::<Op, Ctl, E>::Write(id, batch[0], Seq::empty()),
        ] + replies::<Op, Ctl, E>(id, rest));
        assert((seq![ActionView::<Op, Ctl, E>::Write(id, batch[0], Seq::empty())]
            + replies::<Op, Ctl, E>(id, rest)) + seq![ActionView::<Op, Ctl, E>::Flush]
            =~= replies::<Op, Ctl, E>(id, batch) + seq![ActionView::<Op, Ctl, E>::Flush]);
    }
}

/// One request answered by `batch`: the operation goes to the handler, the
/// batch is written and flushed, and the next message is read.
proof fn lemma_exchange<Op, Ctl, E>(id: i32, op: Op, ctrl: Seq<Ctl>, batch: Seq<Op>)
    ensures
        takes_all(StateView::Receiving, exchange::<Op, Ctl, E>(id, op, ctrl, batch)),
        run(StateView::Receiving, exchange::<Op, Ctl, E>(id, op, ctrl, batch)) == (
            StateView::<Op>::Receiving,
            seq![ActionView::<Op, Ctl, E>::Dispatch(op)] + replies::<Op, Ctl, E>(id, batch)
                + seq![ActionView::<Op, Ctl, E>::Flush, ActionView::<Op, Ctl, E>::ReadNext],
        ),
{
    let r = seq![EventView::<Op, Ctl, E>::Received(id, op, ctrl)];
    let cw = seq![EventView::<Op, Ctl, E>::Continued(batch)] + writes_done(batch.len());
    let f = seq![EventView::<Op, Ctl, E>::Flushed];
    assert(exchange::<Op, Ctl, E>(id, op, ctrl, batch) =~= (r + cw) + f);
    lemma_run_one(StateView::<Op>::Receiving, r[0]);
    lemma_batch::<Op, Ctl, E>(id, batch);
    lemma_run_append(StateView::<Op>::Receiving, r, cw);
    lemma_run_one(StateView::<Op>::Flushing, f[0]);
    lemma_run_append(StateView::<Op>::Receiving, r + cw, f);
    assert((seq![ActionView::<Op, Ctl, E>::Dispatch(op)] + (replies::<Op, Ctl, E>(id, batch)
        + seq![ActionView::<Op, Ctl, E>::Flush])) + seq![ActionView::<Op, Ctl, E>::ReadNext]
        =~= seq![ActionView::<Op, Ctl, E>::Dispatch(op)] + replies::<Op, Ctl, E>(id, batch)
        + seq![ActionView::<Op, Ctl, E>::Flush, ActionView::<Op, Ctl, E>::ReadNext]);
}

proof fn lemma_written_exchange<Op, Ctl, E>(id: i32, op: Op, batch: Seq<Op>)
    ensures
        written(
            seq![ActionView::<Op, Ctl, E>::Dispatch(op)] + replies::<Op, Ctl, E>(id, batch)
                + seq![ActionView::<Op, Ctl, E>::Flush, ActionView::<Op, Ctl, E>::ReadNext],
        ) == tagged(id, batch),
{
    let d = seq![ActionView::<Op, Ctl, E>::Dispatch(op)];
    let rp = replies::<Op, Ctl, E>(id, batch);
    let fr = seq![ActionView::<Op, Ctl, E>::Flush, ActionView::<Op, Ctl, E>::ReadNext];
    lemma_written_append(d, rp);
    lemma_written_append(d + rp, fr);
    lemma_written_replies::<Op, Ctl, E>(id, batch);
    assert(d.drop_first() =~= Seq::<ActionView<Op, Ctl, E>>::empty());
    assert(fr.drop_first().drop_first() =~= Seq::<ActionView<Op, Ctl, E>>::empty());
    assert(written(fr.drop_first()) == written(fr.drop_first().drop_first()));
    assert(Seq::<(i32, Op)>::empty() + tagged(id, batch) + Seq::<(i32, Op)>::empty() =~= tagged(
        id,
        batch,
    ));
}

/// Requests that all decode, answered by batches whose writes and flushes all
/// succeed, are answered in order: the messages written are exactly each
/// batch in turn, every response tagged with the identifier of the request
/// that it answers, and the session is then ready for the next message. When
/// the inbound stream then ends, the session closes without error.
pub proof fn lemma_responses_follow_requests<Op, Ctl, E>(
    reqs: Seq<(i32, Op, Seq<Ctl>)>,
    batches: Seq<Seq<Op>>,
)
    requires
        reqs.len() == batches.len(),
    ensures
        takes_all(StateView::Receiving, conversation::<Op, Ctl, E>(reqs, batches)),
        run(StateView::Receiving, conversation::<Op, Ctl, E>(reqs, batches)).0
            == StateView::<Op>::Receiving,
        written(run(StateView::Receiving, conversation::<Op, Ctl, E>(reqs, batches)).1)
            == answers(reqs, batches),
        run(
            StateView::Receiving,
            conversation::<Op, Ctl, E>(reqs, batches) + seq![EventView::StreamEnded],
        ) == (StateView::<Op>::Closed, run(
            StateView::Receiving,
            conversation::<Op, Ctl, E>(reqs, batches),
        ).1 + seq![ActionView::<Op, Ctl, E>::Finish(Ok(()))]),
    decreases reqs.len(),
{
    let end = seq![EventView::<Op, Ctl, E>::StreamEnded];
    lemma_run_one(StateView::<Op>::Receiving, end[0]);
    lemma_follow_requests_body::<Op, Ctl, E>(reqs, batches);
    lemma_run_append(StateView::<Op>::Receiving, conversation::<Op, Ctl, E>(reqs, batches), end);
}

/// The successful conversation alone, by induction on its requests.
proof fn lemma_follow_requests_body<Op, Ctl, E>(
    reqs: Seq<(i32, Op, Seq<Ctl>)>,
    batches: Seq<Seq<Op>>,
)
    requires
        reqs.len() == batches.len(),
    ensures
        takes_all(StateView::Receiving, conversation::<Op, Ctl, E>(reqs, batches)),
        run(StateView::Receiving, conversation::<Op, Ctl, E>(reqs, batches)).0
            == StateView::<Op>::Receiving,
        written(run(StateView::Receiving, conversation::<Op, Ctl, E>(reqs, batches)).1)
            == answers(reqs, batches),
    decreases reqs.len(),
{
    if reqs.len() == 0 {
        assert(written(Seq::<ActionView<Op, Ctl, E>>::empty()) =~= Seq::empty());
    } else {
        let ex = exchange::<Op, Ctl, E>(reqs[0].0, reqs[0].1, reqs[0].2, batches[0]);
        let rest = conversation::<Op, Ctl, E>(reqs.drop_first(), batches.drop_first());
        lemma_exchange::<Op, Ctl, E>(reqs[0].0, reqs[0].1, reqs[0].2, batches[0]);
        lemma_written_exchange::<Op, Ctl, E>(reqs[0].0, reqs[0].1, batches[0]);
        lemma_follow_requests_body::<Op, Ctl, E>(reqs.drop_first(), batches.drop_first());
        lemma_run_append(StateView::<Op>::Receiving, ex, rest);
        lemma_written_append(
            run(StateView::<Op>::Receiving, ex).1,
            run(StateView::<Op>::Receiving, rest).1,
        );
    }
}

proof fn lemma_run_len<Op, Ctl, E>(s: StateView<Op>, evs: Seq<EventView<Op, Ctl, E>>)
    ensures
        run(s, evs).1.len() == evs.len(),
    decreases evs.len(),
{
    if evs.len() > 0 {
        lemma_run_len(next(s, evs[0]).0, evs.drop_first());
    }
}

/// A successful conversation followed by `tail`: the tail runs as it would
/// from a fresh session, after the conversation's responses; and once the
/// tail has closed the session, no further event is taken.
proof fn lemma_after_conversation<Op, Ctl, E>(
    reqs: Seq<(i32, Op, Seq<Ctl>)>,
    batches: Seq<Seq<Op>>,
    tail: Seq<EventView<Op, Ctl, E>>,
    later: Seq<EventView<Op, Ctl, E>>,
)
    requires
        reqs.len() == batches.len(),
        tail.len() > 0,
    ensures
        ({
            let pre = conversation::<Op, Ctl, E>(reqs, batches);
            &&& takes_all(StateView::Receiving, pre + tail) == takes_all(StateView::Receiving, tail)
            &&& run(StateView::Receiving, pre + tail).0 == run(StateView::Receiving, tail).0
            &&& run(StateView::Receiving, pre + tail).1.last() == run(
                StateView::Receiving,
                tail,
            ).1.last()
            &&& written(run(StateView::Receiving, pre + tail).1) == answers(reqs, batches)
                + written(run(StateView::Receiving, tail).1)
            &&& (run(StateView::Receiving, tail).0 == StateView::<Op>::Closed && later.len() > 0
                ==> !takes_all(StateView::Receiving, pre + tail + later))
        }),
{
    let r = StateView::<Op>::Receiving;
    let pre = conversation::<Op, Ctl, E>(reqs, batches);
    lemma_responses_follow_requests::<Op, Ctl, E>(reqs, batches);
    lemma_run_append(r, pre, tail);
    lemma_run_len(r, tail);
    lemma_written_append(run(r, pre).1, run(r, tail).1);
    lemma_run_append(r, pre + tail, later);
}

/// A batch is empty: nothing is written for the request, the flush still
/// follows, and the session goes on to read the next message.
pub proof fn lemma_empty_batch_writes_nothing<Op, Ctl, E>(id: i32, op: Op, ctrl: Seq<Ctl>)
    ensures
        takes_all(StateView::Receiving, exchange::<Op, Ctl, E>(id, op, ctrl, Seq::empty())),
        run(StateView::Receiving, exchange::<Op, Ctl, E>(id, op, ctrl, Seq::empty())) == (
            StateView::<Op>::Receiving,
            seq![
                ActionView::<Op, Ctl, E>::Dispatch(op),
                ActionView::<Op, Ctl, E>::Flush,
                ActionView::<Op, Ctl, E>::ReadNext,
            ],
        ),
{
    lemma_exchange::<Op, Ctl, E>(id, op, ctrl, Seq::empty());
    assert(seq![ActionView::<Op, Ctl, E>::Dispatch(op)] + replies::<Op, Ctl, E>(id, Seq::empty())
        + seq![ActionView::<Op, Ctl, E>::Flush, ActionView::<Op, Ctl, E>::ReadNext] =~= seq![
        ActionView::<Op, Ctl, E>::Dispatch(op),
        ActionView::<Op, Ctl, E>::Flush,
        ActionView::<Op, Ctl, E>::ReadNext,
    ]);
}

/// The handler asks to terminate after a request: the session closes without
/// error, writes nothing for that request, and takes no further event, so no
/// further message is read.
pub proof fn lemma_terminate_ends_session<Op, Ctl, E>(
    reqs: Seq<(i32, Op, Seq<Ctl>)>,
    batches: Seq<Seq<Op>>,
    id: i32,
    op: Op,
    ctrl: Seq<Ctl>,
    later: Seq<EventView<Op, Ctl, E>>,
)
    requires
        reqs.len() == batches.len(),
    ensures
        ({
            let evs = conversation::<Op, Ctl, E>(reqs, batches) + seq![
                EventView::Received(id, op, ctrl),
                EventView::Terminated,
            ];
            &&& takes_all(StateView::Receiving, evs)
            &&& run(StateView::Receiving, evs).0 == StateView::<Op>::Closed
            &&& run(StateView::Receiving, evs).1.last() == ActionView::<Op, Ctl, E>::Finish(Ok(()))
            &&& written(run(StateView::Receiving, evs).1) == answers(reqs, batches)
            &&& (later.len() > 0 ==> !takes_all(StateView::Receiving, evs + later))
        }),
{
    let r = StateView::<Op>::Receiving;
    let a = seq![EventView::<Op, Ctl, E>::Received(id, op, ctrl)];
    let b = seq![EventView::<Op, Ctl, E>::Terminated];
    let tail = seq![EventView::<Op, Ctl, E>::Received(id, op, ctrl), EventView::Terminated];
    assert(tail =~= a + b);
    lemma_run_one(r, a[0]);
    lemma_run_one(StateView::<Op>::Dispatching(id), b[0]);
    lemma_run_append(r, a, b);
    let acts = run(r, tail).1;
    assert(acts =~= seq![ActionView::<Op, Ctl, E>::Dispatch(op), ActionView::Finish(Ok(()))]);
    assert(acts.drop_first().drop_first() =~= Seq::<ActionView<Op, Ctl, E>>::empty());
    assert(written(acts.drop_first()) == written(acts.drop_first().drop_first()));
    lemma_after_conversation(reqs, batches, tail, later);
    assert(answers(reqs, batches) + Seq::empty() =~= answers(reqs, batches));
}

/// A message fails to decode: the session closes with a receive error
/// carrying the decode error, hands nothing of it to the handler, writes
/// nothing for it, and takes no further event.
pub proof fn lemma_decode_error_aborts<Op, Ctl, E>(
    reqs: Seq<(i32, Op, Seq<Ctl>)>,
    batches: Seq<Seq<Op>>,
    err: E,
    later: Seq<EventView<Op, Ctl, E>>,
)
    requires
        reqs.len() == batches.len(),
    ensures
        ({
            let pre = conversation::<Op, Ctl, E>(reqs, batches);
            let evs = pre + seq![EventView::DecodeFailed(err)];
            &&& takes_all(StateView::Receiving, evs)
            &&& run(StateView::Receiving, evs).0 == StateView::<Op>::Closed
            &&& run(StateView::Receiving, evs).1 == run(StateView::Receiving, pre).1 + seq![
                ActionView::<Op, Ctl, E>::Finish(
                    Err(SessionError { phase: Phase::Receive, cause: err }),
                ),
            ]
            &&& written(run(StateView::Receiving, evs).1) == answers(reqs, batches)
            &&& (later.len() > 0 ==> !takes_all(StateView::Receiving, evs + later))
        }),
{
    let r = StateView::<Op>::Receiving;
    let pre = conversation::<Op, Ctl, E>(reqs, batches);
    let tail = seq![EventView::<Op, Ctl, E>::DecodeFailed(err)];
    lemma_run_one(r, tail[0]);
    lemma_run_append(r, pre, tail);
    let acts = run(r, tail).1;
    assert(acts.drop_first() =~= Seq::<ActionView<Op, Ctl, E>>::empty());
    assert(written(acts.drop_first()) =~= Seq::<(i32, Op)>::empty());
    assert(written(acts) =~= Seq::<(i32, Op)>::empty());
    lemma_responses_follow_requests::<Op, Ctl, E>(reqs, batches);
    lemma_after_conversation(reqs, batches, tail, later);
    assert(answers(reqs, batches) + Seq::empty() =~= answers(reqs, batches));
}

proof fn lemma_written_single<Op, Ctl, E>(x: ActionView<Op, Ctl, E>)
    ensures
        written(seq![x]) == (match x {
            ActionView::Write(id, op, _) => seq![(id, op)],
            _ => Seq::<(i32, Op)>::empty(),
        }),
{
    let one = seq![x];
    assert(one[0] == x);
    assert(one.drop_first() =~= Seq::<ActionView<Op, Ctl, E>>::empty());
    assert(written(one.drop_first()) =~= Seq::<(i32, Op)>::empty());
    match x {
        ActionView::Write(id, op, _) => {
            assert(seq![(id, op)] + Seq::<(i32, Op)>::empty() =~= seq![(id, op)]);
        },
        _ => {},
    }
}

/// A write fails after the first `k` responses of a batch were written: the
/// session closes with a send error carrying the write error. What was
/// written is the responses of the earlier requests, each once, then the
/// responses of this batch up to the one that failed; no further event is
/// taken, so nothing is written again.
pub proof fn lemma_write_failure_aborts<Op, Ctl, E>(
    reqs: Seq<(i32, Op, Seq<Ctl>)>,
    batches: Seq<Seq<Op>>,
    id: i32,
    op: Op,
    ctrl: Seq<Ctl>,
    batch: Seq<Op>,
    k: nat,
    err: E,
    later: Seq<EventView<Op, Ctl, E>>,
)
    requires
        reqs.len() == batches.len(),
        k < batch.len(),
    ensures
        ({
            let evs = conversation::<Op, Ctl, E>(reqs, batches) + (seq![
                EventView::Received(id, op, ctrl),
                EventView::Continued(batch),
            ] + writes_done(k) + seq![EventView::WriteFailed(err)]);
            &&& takes_all(StateView::Receiving, evs)
            &&& run(StateView::Receiving, evs).0 == StateView::<Op>::Closed
            &&& run(StateView::Receiving, evs).1.last() == ActionView::<Op, Ctl, E>::Finish(
                Err(SessionError { phase: Phase::Send, cause: err }),
            )
            &&& written(run(StateView::Receiving, evs).1) == answers(reqs, batches) + tagged(
                id,
                batch.take(k + 1 as int),
            )
            &&& (later.len() > 0 ==> !takes_all(StateView::Receiving, evs + later))
        }),
{
    let r = StateView::<Op>::Receiving;
    let rest = batch.drop_first();
    let a = seq![EventView::<Op, Ctl, E>::Received(id, op, ctrl)];
    let c = seq![EventView::<Op, Ctl, E>::Continued(batch)];
    let w = writes_done::<Op, Ctl, E>(k);
    let f = seq![EventView::<Op, Ctl, E>::WriteFailed(err)];
    let tail = seq![EventView::Received(id, op, ctrl), EventView::Continued(batch)] + w + f;
    assert(tail =~= ((a + c) + w) + f);
    let s1 = StateView::<Op>::Dispatching(id);
    let s2 = StateView::Sending(id, rest);
    let s3 = StateView::Sending(id, rest.skip(k as int));
    lemma_run_one(r, a[0]);
    lemma_run_one(s1, c[0]);
    lemma_sending::<Op, Ctl, E>(id, rest, k);
    lemma_run_one(s3, f[0]);
    lemma_run_append(r, a, c);
    lemma_run_append(r, a + c, w);
    lemma_run_append(r, (a + c) + w, f);
    let x1 = ActionView::<Op, Ctl, E>::Dispatch(op);
    let x2 = ActionView::<Op, Ctl, E>::Write(id, batch[0], Seq::empty());
    let x3 = replies::<Op, Ctl, E>(id, rest.take(k as int));
    let x4 = ActionView::<Op, Ctl, E>::Finish(Err(SessionError { phase: Phase::Send, cause: err }));
    assert(run(r, tail).1 =~= ((seq![x1] + seq![x2]) + x3) + seq![x4]);
    lemma_written_single(x1);
    lemma_written_single(x2);
    lemma_written_single(x4);
    lemma_written_replies::<Op, Ctl, E>(id, rest.take(k as int));
    lemma_written_append(seq![x1], seq![x2]);
    lemma_written_append(seq![x1] + seq![x2], x3);
    lemma_written_append((seq![x1] + seq![x2]) + x3, seq![x4]);
    assert(tagged(id, batch.take(k + 1 as int)) =~= seq![(id, batch[0])] + tagged(id, rest.take(k as int)));
    assert(written(run(r, tail).1) =~= tagged(id, batch.take(k + 1 as int)));
    lemma_after_conversation(reqs, batches, tail, later);
}

/// The flush after a batch fails: the session closes with a flush error
/// carrying the flush's error. What was written is the responses of the
/// earlier requests, each once, then the whole batch; no further event is
/// taken, so nothing is written again.
pub proof fn lemma_flush_failure_aborts<Op, Ctl, E>(
    reqs: Seq<(i32, Op, Seq<Ctl>)>,
    batches: Seq<Seq<Op>>,
    id: i32,
    op: Op,
    ctrl: Seq<Ctl>,
    batch: Seq<Op>,
    err: E,
    later: Seq<EventView<Op, Ctl, E>>,
)
    requires
        reqs.len() == batches.len(),
    ensures
        ({
            let evs = conversation::<Op, Ctl, E>(reqs, batches) + (seq![
                EventView::Received(id, op, ctrl),
                EventView::Continued(batch),
            ] + writes_done(batch.len()) + seq![EventView::FlushFailed(err)]);
            &&& takes_all(StateView::Receiving, evs)
            &&& run(StateView::Receiving, evs).0 == StateView::<Op>::Closed
            &&& run(StateView::Receiving, evs).1.last() == ActionView::<Op, Ctl, E>::Finish(
                Err(SessionError { phase: Phase::Flush, cause: err }),
            )
            &&& written(run(StateView::Receiving, evs).1) == answers(reqs, batches) + tagged(
                id,
                batch,
            )
            &&& (later.len() > 0 ==> !takes_all(StateView::Receiving, evs + later))
        }),
{
    let r = StateView::<Op>::Receiving;
    let a = seq![EventView::<Op, Ctl, E>::Received(id, op, ctrl)];
    let cw = seq![EventView::<Op, Ctl, E>::Continued(batch)] + writes_done(batch.len());
    let f = seq![EventView::<Op, Ctl, E>::FlushFailed(err)];
    let tail = seq![EventView::Received(id, op, ctrl), EventView::Continued(batch)]
        + writes_done(batch.len()) + f;
    assert(tail =~= (a + cw) + f);
    lemma_run_one(r, a[0]);
    lemma_batch::<Op, Ctl, E>(id, batch);
    lemma_run_one(StateView::<Op>::Flushing, f[0]);
    lemma_run_append(r, a, cw);
    lemma_run_append(r, a + cw, f);
    let x1 = ActionView::<Op, Ctl, E>::Dispatch(op);
    let x2 = replies::<Op, Ctl, E>(id, batch);
    let x3 = ActionView::<Op, Ctl, E>::Flush;
    let x4 = ActionView::<Op, Ctl, E>::Finish(Err(SessionError { phase: Phase::Flush, cause: err }));
    assert(run(r, tail).1 =~= ((seq![x1] + x2) + seq![x3]) + seq![x4]);
    lemma_written_single(x1);
    lemma_written_single(x3);
    lemma_written_single(x4);
    lemma_written_replies::<Op, Ctl, E>(id, batch);
    lemma_written_append(seq![x1], x2);
    lemma_written_append(seq![x1] + x2, seq![x3]);
    lemma_written_append((seq![x1] + x2) + seq![x3], seq![x4]);
    assert(written(run(r, tail).1) =~= tagged(id, batch));
    lemma_after_conversation(reqs, batches, tail, later);
}

} // verus!
