//! Local state for an inbound call being serviced.
//!
//! A pending answer accumulates pipelined sub-calls in arrival order; once
//! its return has been flushed, the buffered sub-calls are dispatched in
//! that same order against the now-materialised results, and later
//! sub-calls run immediately.

use vstd::prelude::*;
use crate::wire::{
    ExportId, PipelineOp, ReturnBody, ReturnBodyV, spec_pipelined_cap_index,
    get_pipelined_cap_index,
};
use crate::handles::{CapHandle, CapHandleV, view_handles};
use crate::context::{DispatchContext, DispatchContextV};
use crate::events::{Action, ActionV, view_actions};

verus! {

/// One buffered pipelined sub-call, waiting for its target answer's
/// results.
#[derive(Debug)]
pub struct DeferredCall {
    pub interface_id: u64,
    pub method_id: u16,
    pub ops: Vec<PipelineOp>,
    pub context: DispatchContext,
}

/// Mathematical view of [`DeferredCall`].
#[verifier::ext_equal]
pub struct DeferredCallV {
    pub interface_id: u64,
    pub method_id: u16,
    pub ops: Seq<PipelineOp>,
    pub context: DispatchContextV,
}

impl View for DeferredCall {
    type V = DeferredCallV;

    open spec fn view(&self) -> DeferredCallV {
        DeferredCallV {
            interface_id: self.interface_id,
            method_id: self.method_id,
            ops: self.ops@,
            context: self.context@,
        }
    }
}

/// The state of an answer: still being serviced, or already returned.
#[derive(Debug)]
pub enum AnswerStatus {
    /// The return has been flushed: the body and the handles of its
    /// results cap table are kept for pipelined sub-calls.
    AnswerStatusSent { body: ReturnBody, handles: Vec<Option<CapHandle>> },
    /// The call is still being serviced; pipelined sub-calls wait here in
    /// arrival order.
    AnswerStatusPending(Vec<DeferredCall>),
}

/// Mathematical view of [`AnswerStatus`].
#[verifier::ext_equal]
pub enum AnswerStatusV {
    Sent { body: ReturnBodyV, handles: Seq<Option<CapHandleV>> },
    Pending(Seq<DeferredCallV>),
}

impl View for AnswerStatus {
    type V = AnswerStatusV;

    open spec fn view(&self) -> AnswerStatusV {
        match self {
            AnswerStatus::AnswerStatusSent { body, handles } => AnswerStatusV::Sent {
                body: body@,
                handles: view_handles(handles@),
            },
            AnswerStatus::AnswerStatusPending(ws) => AnswerStatusV::Pending(view_waiters(ws@)),
        }
    }
}

/// View of a waiter list.
pub open spec fn view_waiters(s: Seq<DeferredCall>) -> Seq<DeferredCallV> {
    s.map_values(|w: DeferredCall| w@)
}

/// Local state for an inbound call the local endpoint is servicing.
#[derive(Debug)]
pub struct Answer {
    pub status: AnswerStatus,
    /// Export ids allocated for the result capabilities.
    pub result_exports: Vec<ExportId>,
}

/// Mathematical view of [`Answer`].
#[verifier::ext_equal]
pub struct AnswerV {
    pub status: AnswerStatusV,
    pub result_exports: Seq<ExportId>,
}

impl View for Answer {
    type V = AnswerV;

    open spec fn view(&self) -> AnswerV {
        AnswerV { status: self.status@, result_exports: self.result_exports@ }
    }
}

/// A fresh answer: pending, with no buffered sub-calls.
pub open spec fn fresh_answer() -> AnswerV {
    AnswerV { status: AnswerStatusV::Pending(Seq::empty()), result_exports: Seq::empty() }
}

/// The dispatch a sub-call resolves to against a sent return: walk the
/// transform over the results content to a capability pointer, look the
/// handle up in the results cap table, and invoke it when it is local.
/// An exception return, a walk that leaves the tree, or a non-local
/// handle dispatches nothing.
pub open spec fn spec_do_call(
    body: ReturnBodyV,
    handles: Seq<Option<CapHandleV>>,
    interface_id: u64,
    method_id: u16,
    ops: Seq<PipelineOp>,
    context: DispatchContextV,
) -> Option<ActionV> {
    match body {
        ReturnBodyV::Results(p) => match spec_pipelined_cap_index(p.content, ops) {
            Some(idx) => if (idx as int) < handles.len() {
                match handles[idx as int] {
                    Some(CapHandleV::Local { cap }) => Some(
                        ActionV::DispatchCall { cap, interface_id, method_id, context },
                    ),
                    _ => None,
                }
            } else {
                None
            },
            None => None,
        },
        _ => None,
    }
}

/// The actions produced by draining a waiter list against a sent return,
/// in arrival order; waiters that resolve to nothing are skipped.
pub open spec fn spec_drain(
    waiters: Seq<DeferredCallV>,
    body: ReturnBodyV,
    handles: Seq<Option<CapHandleV>>,
) -> Seq<ActionV>
    decreases waiters.len(),
{
    if waiters.len() == 0 {
        Seq::empty()
    } else {
        let earlier = spec_drain(waiters.drop_last(), body, handles);
        let w = waiters.last();
        match spec_do_call(body, handles, w.interface_id, w.method_id, w.ops, w.context) {
            Some(a) => earlier.push(a),
            None => earlier,
        }
    }
}

/// Performs one sub-call against a sent return.
fn do_call(
    body: &ReturnBody,
    handles: &Vec<Option<CapHandle>>,
    interface_id: u64,
    method_id: u16,
    ops: &Vec<PipelineOp>,
    context: DispatchContext,
) -> (r: Option<Action>)
    ensures
        match r {
            Some(a) => spec_do_call(
                body@,
                view_handles(handles@),
                interface_id,
                method_id,
                ops@,
                context@,
            ) == Some(a@),
            None => spec_do_call(
                body@,
                view_handles(handles@),
                interface_id,
                method_id,
                ops@,
                context@,
            ) is None,
        },
{
    match body {
        ReturnBody::Results(p) => {
            match get_pipelined_cap_index(&p.content, ops) {
                Some(idx) => {
                    if (idx as usize) < handles.len() {
                        proof {
                            assert(view_handles(handles@)[idx as int] == (
                            match handles@[idx as int] {
                                Some(x) => Some(x@),
                                None => None,
                            }));
                        }
                        match &handles[idx as usize] {
                            Some(CapHandle::Local { cap }) => Some(
                                Action::DispatchCall {
                                    cap: *cap,
                                    interface_id,
                                    method_id,
                                    context,
                                },
                            ),
                            _ => None,
                        }
                    } else {
                        None
                    }
                },
                None => None,
            }
        },
        _ => None,
    }
}

impl Answer {
    pub fn new() -> (r: Answer)
        ensures
            r@ == fresh_answer(),
    {
        let r = Answer {
            status: AnswerStatus::AnswerStatusPending(Vec::new()),
            result_exports: Vec::new(),
        };
        proof {
            assert(view_waiters(Seq::<DeferredCall>::empty()) =~= Seq::<DeferredCallV>::empty());
            assert(r@.result_exports =~= Seq::<ExportId>::empty());
        }
        r
    }

    /// Receives a pipelined sub-call: buffered in arrival order while the
    /// answer is pending, performed immediately once it has been sent.
    pub fn receive(
        &mut self,
        interface_id: u64,
        method_id: u16,
        ops: Vec<PipelineOp>,
        context: DispatchContext,
    ) -> (r: Option<Action>)
        ensures
            final(self)@.result_exports == old(self)@.result_exports,
            match old(self)@.status {
                AnswerStatusV::Pending(ws) => final(self)@.status == AnswerStatusV::Pending(
                    ws.push(
                        DeferredCallV {
                            interface_id,
                            method_id,
                            ops: ops@,
                            context: context@,
                        },
                    ),
                ) && r is None,
                AnswerStatusV::Sent { body, handles } => final(self)@.status == old(
                    self,
                )@.status && match r {
                    Some(a) => spec_do_call(body, handles, interface_id, method_id, ops@, context@)
                        == Some(a@),
                    None => spec_do_call(body, handles, interface_id, method_id, ops@, context@)
                        is None,
                },
            },
    {
        match &mut self.status {
            AnswerStatus::AnswerStatusSent { body, handles } => {
                do_call(body, handles, interface_id, method_id, &ops, context)
            },
            AnswerStatus::AnswerStatusPending(ws) => {
                let ghost pre = ws@;
                ws.push(DeferredCall { interface_id, method_id, ops, context });
                proof {
                    assert(view_waiters(ws@) =~= view_waiters(pre).push(
                        DeferredCallV {
                            interface_id,
                            method_id,
                            ops: ops@,
                            context: context@,
                        },
                    ));
                }
                None
            },
        }
    }

    /// Marks the answer as sent and synchronously drains its buffered
    /// sub-calls, in the exact order they were buffered, performing each
    /// against the sent results.
    pub fn sent(&mut self, body: ReturnBody, handles: Vec<Option<CapHandle>>) -> (actions: Vec<
        Action,
    >)
        requires
            old(self)@.status is Pending,
        ensures
            final(self)@.status == (AnswerStatusV::Sent {
                body: body@,
                handles: view_handles(handles@),
            }),
            final(self)@.result_exports == old(self)@.result_exports,
            view_actions(actions@) == spec_drain(
                old(self)@.status->Pending_0,
                body@,
                view_handles(handles@),
            ),
    {
        let mut prev = AnswerStatus::AnswerStatusPending(Vec::new());
        std::mem::swap(&mut prev, &mut self.status);
        let waiters = match prev {
            AnswerStatus::AnswerStatusPending(ws) => ws,
            AnswerStatus::AnswerStatusSent { .. } => {
                proof {
                    assert(false);
                }
                Vec::new()
            },
        };
        let ghost full = view_waiters(waiters@);
        let ghost bv = body@;
        let ghost hv = view_handles(handles@);
        let mut actions: Vec<Action> = Vec::new();
        let mut k: usize = 0;
        let total = waiters.len();
        while k < total
            invariant
                k <= total,
                total == waiters@.len(),
                full == view_waiters(waiters@),
                full.len() == total as int,
                bv == body@,
                hv == view_handles(handles@),
                view_actions(actions@) == spec_drain(full.take(k as int), bv, hv),
                forall|i: int| k <= i < total ==> #[trigger] waiters@[i]@ == full[i],
            decreases total - k,
        {
            proof {
                assert(full.take(k + 1).drop_last() =~= full.take(k as int));
                assert(full.take(k + 1).last() == full[k as int]);
            }
            let ghost prev_actions = actions@;
            let w = waiter_at(&waiters, k);
            let DeferredCall { interface_id, method_id, ops, context } = w;
            let step = do_call(&body, &handles, interface_id, method_id, &ops, context);
            match step {
                Some(a) => {
                    actions.push(a);
                },
                None => {},
            }
            proof {
                assert(view_actions(actions@) =~= spec_drain(full.take(k + 1), bv, hv)) by {
                    assert(view_actions(prev_actions) == spec_drain(full.take(k as int), bv, hv));
                    if actions@.len() > prev_actions.len() {
                        assert(view_actions(actions@) =~= view_actions(prev_actions).push(
                            actions@.last()@,
                        ));
                    } else {
                        assert(view_actions(actions@) =~= view_actions(prev_actions));
                    }
                }
            }
            k = k + 1;
        }
        proof {
            assert(full.take(total as int) =~= full);
        }
        self.status = AnswerStatus::AnswerStatusSent { body, handles };
        actions
    }
}

/// Moves the waiter at `k` out of the list, leaving a placeholder that is
/// never consulted again.
fn waiter_at(waiters: &Vec<DeferredCall>, k: usize) -> (r: DeferredCall)
    requires
        k < waiters@.len(),
    ensures
        r@ == waiters@[k as int]@,
{
    let w = &waiters[k];
    let DeferredCall { interface_id, method_id, ops, context } = w;
    DeferredCall {
        interface_id: *interface_id,
        method_id: *method_id,
        ops: crate::wire::copy_ops(ops),
        context: dup_context(context),
    }
}

/// Structural copy of a dispatch context.
fn dup_context(c: &DispatchContext) -> (r: DispatchContext)
    ensures
        r@ == c@,
{
    match c {
        DispatchContext::Wire(ctx) => DispatchContext::Wire(
            crate::context::RpcCallContext {
                answer_id: ctx.answer_id,
                params: ctx.params.dup(),
                param_handles: crate::handles::dup_handles(&ctx.param_handles),
                results: ctx.results.dup(),
                result_handles: crate::handles::dup_handles(&ctx.result_handles),
            },
        ),
        DispatchContext::Deferred(ctx) => DispatchContext::Deferred(
            crate::context::PromisedAnswerRpcCallContext {
                sink: ctx.sink,
                params: ctx.params.dup(),
                param_handles: crate::handles::dup_handles(&ctx.param_handles),
                results: ctx.results.dup(),
                result_handles: crate::handles::dup_handles(&ctx.result_handles),
            },
        ),
    }
}

} // verus!
