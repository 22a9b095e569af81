//! The connection-wide laws: properties of the tables and of whole runs
//! of the dispatcher, stated over the transition function and proved once
//! and for all.

use vstd::prelude::*;
use crate::wire::ReturnBodyV;
use crate::table::{ExportTableV, desc_insert_pos};
use crate::handles::{CapHandleV, Export, spec_encode_table, lemma_spec_push_wf};
use crate::answer::{DeferredCallV, spec_do_call, spec_drain};
use crate::events::{ActionV, RpcEvent};
use crate::dispatch::{ConnV, Question, spec_step, spec_incoming};
use crate::handles::LocalCap;

verus! {

// ------------------------------------------------------------------
// Id reuse: free ids and occupied ids stay disjoint, and allocation
// always takes the minimum free id.
// ------------------------------------------------------------------

/// In a well-formed table no id is both free and occupied.
pub proof fn lemma_free_occupied_disjoint<T>(t: ExportTableV<T>)
    requires
        t.wf(),
    ensures
        forall|i: int| 0 <= i < t.free.len() ==> !t.occupied(#[trigger] t.free[i]),
{
}

/// The next allocation takes the minimum of the free set when it is
/// non-empty, and never an id whose slot is still occupied.
pub proof fn lemma_allocate_takes_min<T>(t: ExportTableV<T>)
    requires
        t.wf(),
        t.slots.len() < 0xffff_ffff,
    ensures
        forall|j: int| 0 <= j < t.free.len() ==> t.next_id() <= #[trigger] t.free[j],
        !t.occupied(t.next_id()),
{
    if t.free.len() > 0 {
        assert forall|j: int| 0 <= j < t.free.len() implies t.next_id() <= t.free[j] by {
            if j < t.free.len() - 1 {
                assert(t.free[j] > t.free[t.free.len() - 1]);
            }
        }
    }
}

/// An allocation keeps the table well formed (so the disjointness above
/// is preserved by every allocate).
pub proof fn lemma_push_preserves_wf<T>(t: ExportTableV<T>, v: T)
    requires
        t.wf(),
    ensures
        t.spec_push(v).wf(),
{
    lemma_spec_push_wf(t, v);
}

/// Where an id lands in a strictly descending free list that does not
/// hold it.
proof fn lemma_desc_insert_pos_bounds(s: Seq<u32>, id: u32)
    requires
        forall|i: int, j: int| 0 <= i < j < s.len() ==> #[trigger] s[i] > #[trigger] s[j],
        forall|i: int| 0 <= i < s.len() ==> #[trigger] s[i] != id,
    ensures
        0 <= desc_insert_pos(s, id) <= s.len(),
        forall|j: int| 0 <= j < desc_insert_pos(s, id) ==> #[trigger] s[j] > id,
        forall|j: int| desc_insert_pos(s, id) <= j < s.len() ==> #[trigger] s[j] < id,
    decreases s.len(),
{
    if s.len() == 0 {
    } else if s[0] < id {
        assert forall|j: int| 0 <= j < s.len() implies s[j] < id by {
            if j > 0 {
                assert(s[0] > s[j]);
            }
        }
    } else {
        let tail = s.skip(1);
        assert forall|i: int, j: int|
            0 <= i < j < tail.len() implies #[trigger] tail[i] > #[trigger] tail[j] by {
            assert(s[i + 1] > s[j + 1]);
        }
        assert forall|i: int| 0 <= i < tail.len() implies #[trigger] tail[i] != id by {
            assert(s[i + 1] != id);
        }
        lemma_desc_insert_pos_bounds(tail, id);
        let p = 1 + desc_insert_pos(tail, id);
        assert forall|j: int| 0 <= j < p implies #[trigger] s[j] > id by {
            if j > 0 {
                assert(tail[j - 1] > id);
            }
        }
        assert forall|j: int| p <= j < s.len() implies #[trigger] s[j] < id by {
            assert(tail[j - 1] < id);
        }
    }
}

/// Freeing an occupied slot keeps the table well formed: the freed id
/// joins the free set in order, and the free set still names only empty
/// slots.
pub proof fn lemma_erase_preserves_wf<T>(t: ExportTableV<T>, id: u32)
    requires
        t.wf(),
        t.occupied(id),
    ensures
        t.spec_erase(id).wf(),
{
    assert forall|i: int| 0 <= i < t.free.len() implies #[trigger] t.free[i] != id by {
        assert(t.slots[t.free[i] as int] is None);
    }
    lemma_desc_insert_pos_bounds(t.free, id);
    let p = desc_insert_pos(t.free, id);
    let post = t.spec_erase(id);
    assert(post.free == t.free.insert(p, id));
    assert forall|i: int, j: int|
        0 <= i < j < post.free.len() implies #[trigger] post.free[i] > #[trigger] post.free[j] by {
        assert(forall|m: int| 0 <= m < p ==> #[trigger] post.free[m] == t.free[m]);
        assert(post.free[p] == id);
        assert(forall|m: int| p < m < post.free.len() ==> #[trigger] post.free[m] == t.free[m - 1]);
    }
    assert forall|i: int|
        0 <= i < post.free.len() implies (#[trigger] post.free[i] as int) < post.slots.len()
        && post.slots[post.free[i] as int] is None by {
        if i < p {
            assert(post.free[i] == t.free[i]);
        } else if i == p {
        } else {
            assert(post.free[i] == t.free[i - 1]);
        }
    }
}

/// Overwriting an occupied slot keeps the table well formed.
pub proof fn lemma_update_preserves_wf<T>(t: ExportTableV<T>, id: u32, v: T)
    requires
        t.wf(),
        t.occupied(id),
    ensures
        t.spec_update(id, v).wf(),
{
    assert forall|i: int|
        0 <= i < t.free.len() implies t.spec_update(id, v).slots[#[trigger] t.free[i] as int]
        is None by {
        assert(t.slots[t.free[i] as int] is None);
        assert(t.free[i] != id);
    }
}

/// Every dispatcher step keeps the connection well formed: the id
/// allocation invariants hold in every reachable state.
pub proof fn lemma_step_preserves_wf(s: ConnV, ev: RpcEvent, restored: Option<LocalCap>)
    requires
        s.wf(),
    ensures
        spec_step(s, ev, restored).conn.wf(),
{
    let post = spec_step(s, ev, restored).conn;
    if s.shutdown {
    } else {
        match ev {
            RpcEvent::IncomingMessage(m) => {
                if crate::handles::decode_table_ok(crate::dispatch::incoming_cap_table(m@)) {
                    match m@ {
                        crate::wire::MessageV::Return { answer_id, .. } => {
                            if s.questions.occupied(answer_id) && s.questions.at(
                                answer_id,
                            ).is_awaiting_return {
                                let q = s.questions.at(answer_id);
                                lemma_update_preserves_wf(
                                    s.questions,
                                    answer_id,
                                    Question { sink: q.sink, is_awaiting_return: false },
                                );
                            }
                        },
                        crate::wire::MessageV::Release { id, reference_count } => {
                            if reference_count == 1 && s.exports.occupied(id) {
                                lemma_erase_preserves_wf(s.exports, id);
                            }
                        },
                        crate::wire::MessageV::Restore { .. } => {
                            match restored {
                                Some(cap) => {
                                    lemma_spec_push_wf(s.exports, Export { cap });
                                },
                                None => {},
                            }
                        },
                        _ => {},
                    }
                }
            },
            RpcEvent::Outgoing(om) => {
                match om.message@ {
                    crate::wire::MessageV::Call { .. } => {
                        lemma_spec_push_wf(
                            s.questions,
                            Question { sink: om.answer_sink, is_awaiting_return: true },
                        );
                        crate::handles::lemma_encode_table_wf(om@.handles, s.exports);
                    },
                    crate::wire::MessageV::Restore { .. } => {
                        lemma_spec_push_wf(
                            s.questions,
                            Question { sink: om.answer_sink, is_awaiting_return: true },
                        );
                    },
                    _ => {},
                }
            },
            RpcEvent::ReturnEvent { message, handles } => {
                match message@ {
                    crate::wire::MessageV::Return {
                        body: crate::wire::ReturnBodyV::Results(_),
                        ..
                    } => {
                        crate::handles::lemma_encode_table_wf(
                            crate::handles::view_handles(handles@),
                            s.exports,
                        );
                    },
                    _ => {},
                }
            },
            RpcEvent::NewLocalServer { cap, .. } => {
                lemma_spec_push_wf(s.exports, Export { cap });
            },
            _ => {},
        }
    }
}

// ------------------------------------------------------------------
// Pipeline order: sub-calls buffered against a pending answer run in
// exactly their arrival order once the answer is sent.
// ------------------------------------------------------------------

/// When every buffered sub-call resolves to a dispatch, draining yields
/// exactly one dispatch per sub-call, in arrival order.
pub proof fn lemma_pipeline_order(
    ws: Seq<DeferredCallV>,
    body: ReturnBodyV,
    handles: Seq<Option<CapHandleV>>,
)
    requires
        forall|i: int|
            0 <= i < ws.len() ==> spec_do_call(
                body,
                handles,
                (#[trigger] ws[i]).interface_id,
                ws[i].method_id,
                ws[i].ops,
                ws[i].context,
            ) is Some,
    ensures
        spec_drain(ws, body, handles).len() == ws.len(),
        forall|i: int|
            0 <= i < ws.len() ==> #[trigger] spec_drain(ws, body, handles)[i] == spec_do_call(
                body,
                handles,
                ws[i].interface_id,
                ws[i].method_id,
                ws[i].ops,
                ws[i].context,
            )->0,
    decreases ws.len(),
{
    if ws.len() == 0 {
    } else {
        lemma_pipeline_order(ws.drop_last(), body, handles);
        assert(forall|i: int|
            0 <= i < ws.len() - 1 ==> #[trigger] ws.drop_last()[i] == ws[i]);
    }
}

/// Even when some sub-calls resolve to nothing, no dispatch is ever
/// reordered: draining a longer prefix only appends.
pub proof fn lemma_drain_is_monotone(
    ws: Seq<DeferredCallV>,
    body: ReturnBodyV,
    handles: Seq<Option<CapHandleV>>,
    k: int,
)
    requires
        0 <= k <= ws.len(),
    ensures
        spec_drain(ws.take(k), body, handles).is_prefix_of(spec_drain(ws, body, handles)),
    decreases ws.len() - k,
{
    if k == ws.len() {
        assert(ws.take(k) =~= ws);
    } else {
        lemma_drain_is_monotone(ws, body, handles, k + 1);
        assert(ws.take(k + 1).drop_last() =~= ws.take(k));
        assert(ws.take(k + 1).last() == ws[k]);
    }
}

// ------------------------------------------------------------------
// Question one-shot: over any run of the dispatcher, a question's
// response sink fires at most once; the return that fires it marks the
// question answered, so it can never fire again.
// ------------------------------------------------------------------

/// How many actions of this list fire the response sink `s`.
pub open spec fn count_fires(actions: Seq<ActionV>, s: u64) -> nat
    decreases actions.len(),
{
    if actions.len() == 0 {
        0
    } else {
        count_fires(actions.drop_last(), s) + (match actions.last() {
            ActionV::DeliverResponse { sink, .. } => if sink == s {
                1nat
            } else {
                0nat
            },
            _ => 0nat,
        })
    }
}

/// Whether question `qid` is live and carries the sink `x`.
pub open spec fn owns_sink(c: ConnV, qid: u32, x: u64) -> bool {
    c.questions.occupied(qid) && c.questions.at(qid).sink == x
}

/// Whether question `qid` is live, carries the sink `x`, and still owes
/// it a response.
pub open spec fn holds_sink(c: ConnV, qid: u32, x: u64) -> bool {
    owns_sink(c, qid, x) && c.questions.at(qid).is_awaiting_return
}

/// Whether some live question still awaiting its return holds the sink
/// `x`.
pub open spec fn question_holds_sink(c: ConnV, x: u64) -> bool {
    exists|qid: u32| #[trigger] holds_sink(c, qid, x)
}

/// No live question carries the sink `x` at all.
pub open spec fn sink_unowned(c: ConnV, x: u64) -> bool {
    forall|qid: u32| !(#[trigger] owns_sink(c, qid, x))
}

/// At most one live question carries the sink `x`.
pub open spec fn sink_unique(c: ConnV, x: u64) -> bool {
    forall|q1: u32, q2: u32|
        #[trigger] owns_sink(c, q1, x) && #[trigger] owns_sink(c, q2, x) ==> q1 == q2
}

/// Whether this event hands the sink `s` to the dispatcher as a new
/// question's response sink.
pub open spec fn introduces_sink(ev: RpcEvent, s: u64) -> bool {
    match ev {
        RpcEvent::Outgoing(om) => om.answer_sink == s && (om.message@ is Call || om.message@
            is Restore),
        _ => false,
    }
}

/// Draining buffered sub-calls never fires a response sink.
proof fn lemma_drain_no_fires(
    ws: Seq<DeferredCallV>,
    body: ReturnBodyV,
    handles: Seq<Option<CapHandleV>>,
    s: u64,
)
    ensures
        count_fires(spec_drain(ws, body, handles), s) == 0,
    decreases ws.len(),
{
    if ws.len() == 0 {
    } else {
        lemma_drain_no_fires(ws.drop_last(), body, handles, s);
        let w = ws.last();
        match spec_do_call(body, handles, w.interface_id, w.method_id, w.ops, w.context) {
            Some(a) => {
                assert(spec_drain(ws, body, handles).drop_last() =~= spec_drain(
                    ws.drop_last(),
                    body,
                    handles,
                ));
            },
            None => {},
        }
    }
}

/// A list with no response delivery fires nothing.
proof fn lemma_count_no_deliver(actions: Seq<ActionV>, x: u64)
    requires
        forall|i: int| 0 <= i < actions.len() ==> !((#[trigger] actions[i]) is DeliverResponse),
    ensures
        count_fires(actions, x) == 0,
    decreases actions.len(),
{
    if actions.len() > 0 {
        lemma_count_no_deliver(actions.drop_last(), x);
    }
}

/// The incoming-message case of the step lemma: only a return fires; it
/// fires its question's sink exactly once and marks the question as no
/// longer awaiting, so the sink is never held afterwards.
proof fn lemma_incoming_fires(
    s: ConnV,
    m: crate::wire::MessageV,
    restored: Option<LocalCap>,
    x: u64,
)
    requires
        s.wf(),
        sink_unique(s, x),
    ensures
        count_fires(spec_incoming(s, m, restored).actions, x) <= 1,
        count_fires(spec_incoming(s, m, restored).actions, x) == 1 ==> question_holds_sink(s, x)
            && !question_holds_sink(spec_incoming(s, m, restored).conn, x),
        !question_holds_sink(s, x) ==> count_fires(spec_incoming(s, m, restored).actions, x) == 0,
        forall|qid: u32|
            #[trigger] owns_sink(spec_incoming(s, m, restored).conn, qid, x) ==> owns_sink(
                s,
                qid,
                x,
            ),
        forall|qid: u32|
            #[trigger] holds_sink(spec_incoming(s, m, restored).conn, qid, x) ==> holds_sink(
                s,
                qid,
                x,
            ),
{
    let st = spec_incoming(s, m, restored);
    let post = st.conn;
    if !crate::handles::decode_table_ok(crate::dispatch::incoming_cap_table(m)) {
        assert(count_fires(st.actions, x) == 0);
    } else {
        match m {
            crate::wire::MessageV::Return { answer_id, .. } => {
                if !s.questions.occupied(answer_id) || !s.questions.at(
                    answer_id,
                ).is_awaiting_return {
                    assert(count_fires(st.actions, x) == 0);
                    assert(post.questions == s.questions);
                } else {
                    let q = s.questions.at(answer_id);
                    let q2 = Question { sink: q.sink, is_awaiting_return: false };
                    assert(post.questions == s.questions.spec_update(answer_id, q2));
                    assert(post.questions.slots == s.questions.slots.update(
                        answer_id as int,
                        Some(q2),
                    ));
                    let acts = st.actions;
                    assert(acts.len() == 1);
                    assert(acts[0] is DeliverResponse);
                    assert(acts[0]->DeliverResponse_sink == q.sink);
                    assert(acts.last() == acts[0]);
                    assert(acts.drop_last() =~= Seq::<ActionV>::empty());
                    assert(count_fires(acts.drop_last(), x) == 0);
                    assert forall|qid: u32|
                        #[trigger] owns_sink(post, qid, x) implies owns_sink(s, qid, x) by {
                        if qid != answer_id {
                            assert(post.questions.slots[qid as int] == s.questions.slots[
                                qid as int
                            ]);
                        }
                    }
                    assert forall|qid: u32|
                        #[trigger] holds_sink(post, qid, x) implies holds_sink(s, qid, x) by {
                        assert(qid != answer_id) by {
                            assert(post.questions.at(answer_id) == q2);
                        }
                        assert(post.questions.slots[qid as int] == s.questions.slots[qid as int]);
                    }
                    if q.sink == x {
                        assert(count_fires(st.actions, x) == 1);
                        assert(holds_sink(s, answer_id, x));
                        assert(question_holds_sink(s, x));
                        assert(!question_holds_sink(post, x)) by {
                            if question_holds_sink(post, x) {
                                let qid = choose|qid: u32| #[trigger] holds_sink(post, qid, x);
                                assert(holds_sink(s, qid, x));
                                assert(owns_sink(s, qid, x) && owns_sink(s, answer_id, x));
                                assert(qid == answer_id);
                                assert(post.questions.at(answer_id) == q2);
                            }
                        }
                    } else {
                        assert(count_fires(st.actions, x) == 0);
                    }
                }
            },
            _ => {
                assert(forall|i: int|
                    0 <= i < st.actions.len() ==> !((#[trigger] st.actions[i])
                        is DeliverResponse));
                lemma_count_no_deliver(st.actions, x);
                assert(st.conn.questions == s.questions);
            },
        }
    }
}

/// One dispatcher step on a sink it does not introduce: it fires `x` at
/// most once; a fire means some question still held `x` and none does
/// afterwards; and the step adds no question carrying `x`.
pub proof fn lemma_step_fires(s: ConnV, ev: RpcEvent, restored: Option<LocalCap>, x: u64)
    requires
        s.wf(),
        s.questions.slots.len() < 0xffff_ffff,
        !introduces_sink(ev, x),
        sink_unique(s, x),
    ensures
        count_fires(spec_step(s, ev, restored).actions, x) <= 1,
        count_fires(spec_step(s, ev, restored).actions, x) == 1 ==> question_holds_sink(s, x)
            && !question_holds_sink(spec_step(s, ev, restored).conn, x),
        !question_holds_sink(s, x) ==> count_fires(spec_step(s, ev, restored).actions, x) == 0,
        forall|qid: u32|
            #[trigger] owns_sink(spec_step(s, ev, restored).conn, qid, x) ==> owns_sink(
                s,
                qid,
                x,
            ),
        forall|qid: u32|
            #[trigger] holds_sink(spec_step(s, ev, restored).conn, qid, x) ==> holds_sink(
                s,
                qid,
                x,
            ),
{
    let st = spec_step(s, ev, restored);
    let post = st.conn;
    if s.shutdown {
        assert(count_fires(st.actions, x) == 0);
    } else {
        match ev {
            RpcEvent::IncomingMessage(m) => {
                lemma_incoming_fires(s, m@, restored, x);
            },
            RpcEvent::Outgoing(om) => {
                lemma_count_no_deliver(st.actions, x);
                if om.message@ is Call || om.message@ is Restore {
                    let q = Question { sink: om.answer_sink, is_awaiting_return: true };
                    let nid = s.questions.next_id();
                    assert(post.questions == s.questions.spec_push(q));
                    assert forall|qid: u32|
                        #[trigger] owns_sink(post, qid, x) implies owns_sink(s, qid, x) by {
                        if qid == nid {
                            assert(post.questions.at(nid) == q);
                        } else {
                            if s.questions.free.len() > 0 {
                                assert(post.questions.slots[qid as int] == s.questions.slots[
                                    qid as int
                                ]);
                            } else {
                                if (qid as int) < s.questions.slots.len() {
                                    assert(post.questions.slots[qid as int]
                                        == s.questions.slots[qid as int]);
                                } else {
                                    assert(!post.questions.occupied(qid));
                                }
                            }
                        }
                    }
                    assert(forall|qid: u32|
                        #[trigger] holds_sink(post, qid, x) ==> owns_sink(post, qid, x));
                    assert forall|qid: u32|
                        #[trigger] holds_sink(post, qid, x) implies holds_sink(s, qid, x) by {
                        assert(owns_sink(s, qid, x));
                        assert(qid != nid) by {
                            crate::laws::lemma_allocate_takes_min(s.questions);
                        }
                        assert(post.questions.slots[qid as int] == s.questions.slots[qid as int]);
                    }
                } else {
                    assert(post.questions == s.questions);
                }
            },
            RpcEvent::OutgoingDeferred(..) => {
                lemma_count_no_deliver(st.actions, x);
                assert(post.questions == s.questions);
            },
            RpcEvent::AnswerSent { message, handles } => {
                match message@ {
                    crate::wire::MessageV::Return { answer_id, body } => {
                        if s.answers.contains_key(answer_id) && s.answers[answer_id].status
                            is Pending {
                            lemma_drain_no_fires(
                                s.answers[answer_id].status->Pending_0,
                                body,
                                crate::handles::view_handles(handles@),
                                x,
                            );
                        } else {
                            assert(count_fires(st.actions, x) == 0);
                        }
                    },
                    _ => {
                        assert(count_fires(st.actions, x) == 0);
                    },
                }
                assert(post.questions == s.questions);
            },
            RpcEvent::NewLocalServer { .. } => {
                lemma_count_no_deliver(st.actions, x);
                assert(post.questions == s.questions);
            },
            RpcEvent::ReturnEvent { .. } => {
                lemma_count_no_deliver(st.actions, x);
                assert(post.questions == s.questions);
            },
            RpcEvent::ShutdownEvent => {
                assert(count_fires(st.actions, x) == 0);
                assert(post.questions == s.questions);
            },
        }
    }
}

/// An introducing step fires nothing, and the new question is the only
/// question carrying `x` that was not carrying it before.
proof fn lemma_step_intro(s: ConnV, ev: RpcEvent, restored: Option<LocalCap>, x: u64)
    requires
        s.wf(),
        s.questions.slots.len() < 0xffff_ffff,
        !s.shutdown,
        introduces_sink(ev, x),
    ensures
        count_fires(spec_step(s, ev, restored).actions, x) == 0,
        forall|qid: u32|
            #[trigger] owns_sink(spec_step(s, ev, restored).conn, qid, x) ==> owns_sink(s, qid, x)
                || qid == s.questions.next_id(),
{
    let st = spec_step(s, ev, restored);
    let post = st.conn;
    lemma_count_no_deliver(st.actions, x);
    match ev {
        RpcEvent::Outgoing(om) => {
            let q = Question { sink: om.answer_sink, is_awaiting_return: true };
            let nid = s.questions.next_id();
            assert(post.questions == s.questions.spec_push(q));
            assert forall|qid: u32|
                #[trigger] owns_sink(post, qid, x) implies owns_sink(s, qid, x) || qid == nid by {
                if qid != nid {
                    if s.questions.free.len() > 0 {
                        assert(post.questions.slots[qid as int] == s.questions.slots[qid as int]);
                    } else {
                        if (qid as int) < s.questions.slots.len() {
                            assert(post.questions.slots[qid as int] == s.questions.slots[
                                qid as int
                            ]);
                        } else {
                            assert(!post.questions.occupied(qid));
                        }
                    }
                }
            }
        },
        _ => {},
    }
}

/// A run of the dispatcher: each state follows from the one before it by
/// one event.
pub open spec fn run_ok(
    states: Seq<ConnV>,
    events: Seq<RpcEvent>,
    restoreds: Seq<Option<LocalCap>>,
) -> bool {
    &&& states.len() == events.len() + 1
    &&& restoreds.len() == events.len()
    &&& forall|i: int|
        0 <= i < events.len() ==> #[trigger] states[i + 1] == spec_step(
            states[i],
            events[i],
            restoreds[i],
        ).conn
}

/// Total fires for sink `x` over the whole run.
pub open spec fn total_fires(
    states: Seq<ConnV>,
    events: Seq<RpcEvent>,
    restoreds: Seq<Option<LocalCap>>,
    x: u64,
) -> nat
    decreases events.len(),
{
    if events.len() == 0 {
        0
    } else {
        total_fires(states.drop_last(), events.drop_last(), restoreds.drop_last(), x)
            + count_fires(
            spec_step(states[events.len() - 1], events.last(), restoreds.last()).actions,
            x,
        )
    }
}

/// The question one-shot law: over any run of the dispatcher that starts
/// with the sink `x` carried by no question and hands it to at most one
/// outgoing request, the response sink `x` fires at most once, and at
/// most one live question ever carries it.
#[verifier::rlimit(60)]
pub proof fn lemma_question_one_shot(
    states: Seq<ConnV>,
    events: Seq<RpcEvent>,
    restoreds: Seq<Option<LocalCap>>,
    x: u64,
)
    requires
        run_ok(states, events, restoreds),
        forall|i: int| 0 <= i < states.len() ==> (#[trigger] states[i]).wf(),
        forall|i: int|
            0 <= i < states.len() ==> (#[trigger] states[i]).questions.slots.len() < 0xffff_ffff,
        sink_unowned(states[0], x),
        forall|i: int, j: int|
            0 <= i < events.len() && 0 <= j < events.len() && introduces_sink(
                #[trigger] events[i],
                x,
            ) && introduces_sink(#[trigger] events[j], x) ==> i == j,
    ensures
        total_fires(states, events, restoreds, x) <= 1,
        sink_unique(states.last(), x),
        total_fires(states, events, restoreds, x) + (if question_holds_sink(states.last(), x) {
            1int
        } else {
            0int
        }) <= (if exists|j: int|
            0 <= j < events.len() && introduces_sink(#[trigger] events[j], x) {
            1int
        } else {
            0int
        }),
        (forall|j: int| 0 <= j < events.len() ==> !introduces_sink(#[trigger] events[j], x))
            ==> sink_unowned(states.last(), x),
    decreases events.len(),
{
    if events.len() == 0 {
        assert(states.last() == states[0]);
    } else {
        let n = events.len() as int;
        let sp = states.drop_last();
        let ep = events.drop_last();
        let rp = restoreds.drop_last();
        assert(run_ok(sp, ep, rp)) by {
            assert forall|i: int|
                0 <= i < ep.len() implies #[trigger] sp[i + 1] == spec_step(
                sp[i],
                ep[i],
                rp[i],
            ).conn by {
                assert(sp[i + 1] == states[i + 1]);
                assert(sp[i] == states[i]);
                assert(ep[i] == events[i]);
                assert(rp[i] == restoreds[i]);
            }
        }
        assert(forall|i: int| 0 <= i < sp.len() ==> #[trigger] sp[i] == states[i]);
        assert(forall|i: int| 0 <= i < ep.len() ==> #[trigger] ep[i] == events[i]);
        lemma_question_one_shot(sp, ep, rp, x);
        let pre = states[n - 1];
        let post = states[n];
        let ev = events[n - 1];
        let rs = restoreds[n - 1];
        assert(sp.last() == pre);
        assert(states.last() == post);
        assert(post == spec_step(pre, ev, rs).conn);
        let fires_pre = total_fires(sp, ep, rp, x);
        let step_count = count_fires(spec_step(pre, ev, rs).actions, x);
        assert(total_fires(states, events, restoreds, x) == fires_pre + step_count) by {
            assert(events.last() == ev);
            assert(restoreds.last() == rs);
            assert(states[events.len() - 1] == pre);
        }
        if introduces_sink(ev, x) {
            assert forall|j: int| 0 <= j < ep.len() implies !introduces_sink(
                #[trigger] ep[j],
                x,
            ) by {
                if introduces_sink(events[j], x) {
                    assert(j == n - 1);
                }
            }
            assert(sink_unowned(pre, x));
            assert(!question_holds_sink(pre, x)) by {
                if question_holds_sink(pre, x) {
                    let qid = choose|qid: u32| #[trigger] holds_sink(pre, qid, x);
                    assert(owns_sink(pre, qid, x));
                }
            }
            assert(fires_pre == 0);
            if pre.shutdown {
                assert(step_count == 0);
                assert(post == pre);
                assert(sink_unique(post, x));
            } else {
                lemma_step_intro(pre, ev, rs, x);
                assert(step_count == 0);
                assert(sink_unique(post, x)) by {
                    assert forall|q1: u32, q2: u32|
                        #[trigger] owns_sink(post, q1, x) && #[trigger] owns_sink(
                            post,
                            q2,
                            x,
                        ) implies q1 == q2 by {
                        assert(q1 == pre.questions.next_id() || owns_sink(pre, q1, x));
                        assert(q2 == pre.questions.next_id() || owns_sink(pre, q2, x));
                    }
                }
                assert(exists|j: int|
                    0 <= j < events.len() && introduces_sink(#[trigger] events[j], x)) by {
                    assert(introduces_sink(events[n - 1], x));
                }
            }
        } else {
            lemma_step_fires(pre, ev, rs, x);
            assert(sink_unique(post, x)) by {
                assert forall|q1: u32, q2: u32|
                    #[trigger] owns_sink(post, q1, x) && #[trigger] owns_sink(
                        post,
                        q2,
                        x,
                    ) implies q1 == q2 by {
                    assert(owns_sink(pre, q1, x) && owns_sink(pre, q2, x));
                }
            }
            if (forall|j: int| 0 <= j < ep.len() ==> !introduces_sink(#[trigger] ep[j], x)) {
                assert(sink_unowned(pre, x));
                assert(sink_unowned(post, x)) by {
                    assert forall|qid: u32| !(#[trigger] owns_sink(post, qid, x)) by {
                        if owns_sink(post, qid, x) {
                            assert(owns_sink(pre, qid, x));
                        }
                    }
                }
                assert forall|j: int| 0 <= j < events.len() implies !introduces_sink(
                    #[trigger] events[j],
                    x,
                ) by {
                    if j < n - 1 {
                        assert(ep[j] == events[j]);
                    }
                }
            }
            if step_count == 1 {
                assert(question_holds_sink(pre, x));
                assert(!question_holds_sink(post, x));
                assert(exists|j: int|
                    0 <= j < ep.len() && introduces_sink(#[trigger] ep[j], x)) by {
                    if forall|j: int| 0 <= j < ep.len() ==> !introduces_sink(
                        #[trigger] ep[j],
                        x,
                    ) {
                        assert(sink_unowned(pre, x));
                        let qid = choose|qid: u32| #[trigger] holds_sink(pre, qid, x);
                        assert(owns_sink(pre, qid, x));
                        assert(false);
                    }
                }
                assert(exists|j: int|
                    0 <= j < events.len() && introduces_sink(#[trigger] events[j], x)) by {
                    let j = choose|j: int|
                        0 <= j < ep.len() && introduces_sink(#[trigger] ep[j], x);
                    assert(introduces_sink(events[j], x));
                }
            } else {
                assert(step_count == 0);
                if question_holds_sink(post, x) {
                    assert(question_holds_sink(pre, x)) by {
                        let qid = choose|qid: u32| #[trigger] holds_sink(post, qid, x);
                        assert(holds_sink(pre, qid, x));
                    }
                    assert(exists|j: int|
                        0 <= j < events.len() && introduces_sink(#[trigger] events[j], x)) by {
                        if forall|j: int| 0 <= j < ep.len() ==> !introduces_sink(
                            #[trigger] ep[j],
                            x,
                        ) {
                            assert(sink_unowned(pre, x));
                            let qid = choose|qid: u32| #[trigger] holds_sink(pre, qid, x);
                            assert(owns_sink(pre, qid, x));
                            assert(false);
                        } else {
                            let j = choose|j: int|
                                !(0 <= j < ep.len() ==> !introduces_sink(#[trigger] ep[j], x));
                            assert(introduces_sink(events[j], x));
                        }
                    }
                }
            }
        }
    }
}

// ------------------------------------------------------------------
// Shutdown: once the connection is shut down, no further event is
// processed: the state never changes again and no action is emitted.
// ------------------------------------------------------------------

/// After shutdown every step is a no-op.
pub proof fn lemma_shutdown_final(s: ConnV, ev: RpcEvent, restored: Option<LocalCap>)
    requires
        s.shutdown,
    ensures
        spec_step(s, ev, restored).conn == s,
        spec_step(s, ev, restored).actions.len() == 0,
        spec_step(s, ev, restored).error is None,
{
}

/// The shutdown event itself stops the connection.
pub proof fn lemma_shutdown_event(s: ConnV, restored: Option<LocalCap>)
    ensures
        spec_step(s, RpcEvent::ShutdownEvent, restored).conn.shutdown,
        spec_step(s, RpcEvent::ShutdownEvent, restored).actions.len() == 0,
{
}

/// Once any state of a run is shut down, every later state is the same
/// state, and no later step emits an action: the dispatcher has
/// terminated.
pub proof fn lemma_run_after_shutdown(
    states: Seq<ConnV>,
    events: Seq<RpcEvent>,
    restoreds: Seq<Option<LocalCap>>,
    k: int,
)
    requires
        run_ok(states, events, restoreds),
        0 <= k < states.len(),
        states[k].shutdown,
    ensures
        forall|j: int| k <= j < states.len() ==> #[trigger] states[j] == states[k],
        forall|j: int|
            k <= j < events.len() ==> (#[trigger] spec_step(
                states[j],
                events[j],
                restoreds[j],
            )).actions.len() == 0,
{
    assert forall|j: int| k <= j < states.len() implies #[trigger] states[j] == states[k] by {
        lemma_run_shutdown_stays(states, events, restoreds, k, j);
    }
}

/// Helper induction for [`lemma_run_after_shutdown`].
proof fn lemma_run_shutdown_stays(
    states: Seq<ConnV>,
    events: Seq<RpcEvent>,
    restoreds: Seq<Option<LocalCap>>,
    k: int,
    j: int,
)
    requires
        run_ok(states, events, restoreds),
        0 <= k <= j < states.len(),
        states[k].shutdown,
    ensures
        states[j] == states[k],
    decreases j - k,
{
    if j > k {
        lemma_run_shutdown_stays(states, events, restoreds, k, j - 1);
        let i = j - 1;
        assert(states[i + 1] == spec_step(states[i], events[i], restoreds[i]).conn);
        assert(states[i + 1] == states[j]);
    }
}

/// A return for a live question that still awaits one delivers the
/// response to that question's sink exactly once, and the question never
/// awaits again.
pub proof fn lemma_return_delivers_exactly_once(
    s: ConnV,
    m: crate::wire::MessageV,
    restored: Option<LocalCap>,
)
    requires
        s.wf(),
        m matches crate::wire::MessageV::Return { answer_id, .. } && s.questions.occupied(
            answer_id,
        ) && s.questions.at(answer_id).is_awaiting_return,
        crate::handles::decode_table_ok(crate::dispatch::incoming_cap_table(m)),
    ensures
        ({
            let answer_id = m->Return_answer_id;
            let sink = s.questions.at(answer_id).sink;
            let st = spec_incoming(s, m, restored);
            &&& count_fires(st.actions, sink) == 1
            &&& st.conn.questions.occupied(answer_id)
            &&& !st.conn.questions.at(answer_id).is_awaiting_return
            &&& st.error is None
        }),
{
    let answer_id = m->Return_answer_id;
    let q = s.questions.at(answer_id);
    let st = spec_incoming(s, m, restored);
    let acts = st.actions;
    assert(acts.len() == 1);
    assert(acts.last() == acts[0]);
    assert(acts[0] is DeliverResponse && acts[0]->DeliverResponse_sink == q.sink);
    assert(acts.drop_last() =~= Seq::<ActionV>::empty());
    assert(count_fires(acts.drop_last(), q.sink) == 0);
    assert(st.conn.questions == s.questions.spec_update(
        answer_id,
        Question { sink: q.sink, is_awaiting_return: false },
    ));
}



// ------------------------------------------------------------------
// Descriptor round trip: what one endpoint encodes, the peer decodes
// back to a structurally equal handle, up to handle identity for
// imports.
// ------------------------------------------------------------------

/// An occupied export slot survives an allocation untouched.
pub proof fn lemma_push_preserves_occupied(ex: ExportTableV<Export>, v: Export, id: u32)
    requires
        ex.wf(),
        ex.occupied(id),
    ensures
        ex.spec_push(v).occupied(id),
        ex.spec_push(v).at(id) == ex.at(id),
{
    if ex.free.len() > 0 {
        assert(ex.slots[ex.free.last() as int] is None);
    }
}

/// Every export slot occupied before an encoding is occupied, unchanged,
/// after it.
pub proof fn lemma_encode_preserves_exports(
    hs: Seq<Option<CapHandleV>>,
    ex: ExportTableV<Export>,
    id: u32,
)
    requires
        ex.wf(),
        ex.occupied(id),
    ensures
        spec_encode_table(hs, ex).1.occupied(id),
        spec_encode_table(hs, ex).1.at(id) == ex.at(id),
    decreases hs.len(),
{
    if hs.len() == 0 {
    } else {
        lemma_encode_preserves_exports(hs.drop_last(), ex, id);
        let ex1 = spec_encode_table(hs.drop_last(), ex).1;
        crate::handles::lemma_encode_table_wf(hs.drop_last(), ex);
        match hs.last() {
            Some(CapHandleV::Local { cap }) => {
                lemma_push_preserves_occupied(ex1, Export { cap }, id);
            },
            _ => {},
        }
    }
}

/// How a handle placed into an outbound cap table reappears at the peer:
/// absent stays absent, both promised-answer flavours come back as a
/// promised-answer handle with the same question id and transform, and a
/// local capability comes back as an import of the export allocated for
/// it, whose entry owns that very capability. An import handle does not
/// round-trip in this core: its descriptor names the peer's own export,
/// and this core refuses `receiverHosted` on arrival.
pub open spec fn round_trips_to(
    h: Option<CapHandleV>,
    d: Option<CapHandleV>,
    ex2: ExportTableV<Export>,
) -> bool {
    match h {
        None => d is None,
        Some(CapHandleV::Pipeline { question_id, ops }) => d == Some(
            CapHandleV::PromisedAnswer { answer_id: question_id, ops },
        ),
        Some(CapHandleV::PromisedAnswer { answer_id, ops }) => d == Some(
            CapHandleV::PromisedAnswer { answer_id, ops },
        ),
        Some(CapHandleV::Local { cap }) => d matches Some(CapHandleV::Import { import_id })
            && ex2.occupied(import_id) && ex2.at(import_id).cap == cap,
        Some(CapHandleV::Import { .. }) => true,
    }
}

/// The round-trip law: encoding a cap table of handles and decoding it
/// back, as the peer does on arrival, yields a cap table of the same
/// shape whose entries correspond structurally to the originals, up to
/// handle identity for imports.
pub proof fn lemma_cap_table_round_trip(hs: Seq<Option<CapHandleV>>, ex: ExportTableV<Export>)
    requires
        ex.wf(),
        ex.slots.len() + hs.len() < 0xffff_ffff,
        forall|i: int|
            0 <= i < hs.len() ==> !((#[trigger] hs[i]) matches Some(CapHandleV::Import { .. })),
    ensures
        crate::handles::decode_table_ok(spec_encode_table(hs, ex).0),
        crate::handles::spec_decode_table(spec_encode_table(hs, ex).0).len() == hs.len(),
        forall|i: int|
            0 <= i < hs.len() ==> round_trips_to(
                hs[i],
                #[trigger] crate::handles::spec_decode_table(spec_encode_table(hs, ex).0)[i],
                spec_encode_table(hs, ex).1,
            ),
    decreases hs.len(),
{
    let enc = spec_encode_table(hs, ex);
    crate::handles::lemma_encode_table_wf(hs, ex);
    if hs.len() == 0 {
    } else {
        let pre = hs.drop_last();
        assert(forall|i: int| 0 <= i < pre.len() ==> #[trigger] pre[i] == hs[i]);
        lemma_cap_table_round_trip(pre, ex);
        let enc1 = spec_encode_table(pre, ex);
        crate::handles::lemma_encode_table_wf(pre, ex);
        let decs = crate::handles::spec_decode_table(enc.0);
        let decs1 = crate::handles::spec_decode_table(enc1.0);
        assert(enc.0.drop_last() =~= enc1.0);
        assert forall|i: int|
            0 <= i < enc.0.len() implies #[trigger] crate::handles::spec_decode_descriptor(
            enc.0[i],
        ) is Some by {
            if i < enc1.0.len() {
                assert(enc.0[i] == enc1.0[i]);
            }
        }
        assert forall|i: int| 0 <= i < hs.len() implies round_trips_to(
            hs[i],
            #[trigger] decs[i],
            enc.1,
        ) by {
            if i < pre.len() {
                assert(enc.0[i] == enc1.0[i]);
                assert(decs[i] == decs1[i]);
                assert(round_trips_to(pre[i], decs1[i], enc1.1));
                match hs[i] {
                    Some(CapHandleV::Local { cap }) => {
                        match decs1[i] {
                            Some(CapHandleV::Import { import_id }) => {
                                match hs.last() {
                                    Some(CapHandleV::Local { cap: c2 }) => {
                                        lemma_push_preserves_occupied(
                                            enc1.1,
                                            Export { cap: c2 },
                                            import_id,
                                        );
                                    },
                                    _ => {},
                                }
                            },
                            _ => {},
                        }
                    },
                    _ => {},
                }
            } else {
                assert(decs[i] == (match crate::handles::spec_decode_descriptor(enc.0.last()) {
                    Some(h) => h,
                    None => None,
                }));
                match hs.last() {
                    Some(CapHandleV::Local { cap }) => {
                        assert(enc1.1.spec_push(Export { cap }).occupied(enc1.1.next_id())) by {
                            lemma_spec_push_wf(enc1.1, Export { cap });
                        }
                    },
                    _ => {},
                }
            }
        }
    }
}

} // verus!
