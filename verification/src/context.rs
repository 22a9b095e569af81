//! Call contexts and responses.
//!
//! A call context surfaces the params of an inbound call to user code and
//! collects the results it writes. User code ends the call by exactly one
//! of `done`, `fail` or `abandon`; ownership makes a second completion
//! impossible. The wire flavour completes into a `Return` addressed to the
//! original question; the deferred flavour completes into a local response
//! for the awaiting pipelined request.

use vstd::prelude::*;
use crate::wire::{
    AnswerId, Content, ContentV, Message, MessageV, Payload, PayloadV, ReturnBody, ReturnBodyV,
};
use crate::handles::{CapHandle, CapHandleV, view_handles};

verus! {

/// The reason carried by every abort or failure `Return` of this core.
pub open spec fn abort_reason() -> Seq<char> {
    "aborted"@
}

/// Context for an inbound call whose completion travels back on the wire.
#[derive(Debug)]
pub struct RpcCallContext {
    /// The question id of the inbound call, which the `Return` answers.
    pub answer_id: AnswerId,
    /// The inbound params payload.
    pub params: Payload,
    /// The decoded handles of the params cap table.
    pub param_handles: Vec<Option<CapHandle>>,
    /// The results user code has written so far.
    pub results: Content,
    /// The handles user code has placed in the results.
    pub result_handles: Vec<Option<CapHandle>>,
}

/// Mathematical view of [`RpcCallContext`].
#[verifier::ext_equal]
pub struct RpcCallContextV {
    pub answer_id: AnswerId,
    pub params: PayloadV,
    pub param_handles: Seq<Option<CapHandleV>>,
    pub results: ContentV,
    pub result_handles: Seq<Option<CapHandleV>>,
}

impl View for RpcCallContext {
    type V = RpcCallContextV;

    open spec fn view(&self) -> RpcCallContextV {
        RpcCallContextV {
            answer_id: self.answer_id,
            params: self.params@,
            param_handles: view_handles(self.param_handles@),
            results: self.results@,
            result_handles: view_handles(self.result_handles@),
        }
    }
}

impl RpcCallContext {
    /// Builds the context for an inbound `Call`: params come from the
    /// message, the results start empty, and the eventual `Return` is
    /// pre-addressed to the call's question id.
    pub fn new(message: Message, handles: Vec<Option<CapHandle>>) -> (r: RpcCallContext)
        requires
            message@ is Call,
        ensures
            r@.answer_id == message@->Call_question_id,
            r@.params == message@->Call_params,
            r@.param_handles == view_handles(handles@),
            r@.results is Null,
            r@.result_handles.len() == 0,
    {
        match message {
            Message::Call { question_id, params, .. } => RpcCallContext {
                answer_id: question_id,
                params,
                param_handles: handles,
                results: Content::Null,
                result_handles: Vec::new(),
            },
            _ => {
                proof {
                    assert(false);
                }
                RpcCallContext {
                    answer_id: 0,
                    params: Payload { content: Content::Null, cap_table: Vec::new() },
                    param_handles: Vec::new(),
                    results: Content::Null,
                    result_handles: Vec::new(),
                }
            },
        }
    }

    /// The params view and the results builder, for user code.
    pub fn get(&mut self) -> (r: (&Content, &mut Content))
        ensures
            *r.0 == old(self).params.content,
            *r.1 == old(self).results,
            final(self).answer_id == old(self).answer_id,
            final(self).params == old(self).params,
            final(self).param_handles == old(self).param_handles,
            final(self).result_handles == old(self).result_handles,
            final(self).results == *final(r.1),
    {
        (&self.params.content, &mut self.results)
    }

    /// Ends the call successfully: yields the `Return` carrying the
    /// results and the handles to be encoded into its cap table. The
    /// caller posts it back to the dispatcher as a return event.
    pub fn done(self) -> (r: (Message, Vec<Option<CapHandle>>))
        ensures
            r.0@ == (MessageV::Return {
                answer_id: self.answer_id,
                body: ReturnBodyV::Results(
                    PayloadV { content: self@.results, cap_table: Seq::empty() },
                ),
            }),
            view_handles(r.1@) == self@.result_handles,
    {
        let RpcCallContext { answer_id, results, result_handles, .. } = self;
        let m = Message::Return {
            answer_id,
            body: ReturnBody::Results(Payload { content: results, cap_table: Vec::new() }),
        };
        proof {
            assert(m@->Return_body->Results_0.cap_table =~= Seq::<
                crate::wire::CapDescriptorV,
            >::empty());
        }
        (m, result_handles)
    }

    /// Ends the call with a failure: yields a `Return` whose exception
    /// reason is the abort text, addressed to the original question.
    pub fn fail(self) -> (r: Message)
        ensures
            r@ == (MessageV::Return {
                answer_id: self.answer_id,
                body: ReturnBodyV::Exception(abort_reason()),
            }),
    {
        abort_return(self.answer_id)
    }

    /// The completion for a context dropped without `done` or `fail`: one
    /// `Return.exception` with the abort reason, addressed to the original
    /// question id.
    pub fn abandon(self) -> (r: Message)
        ensures
            r@ == (MessageV::Return {
                answer_id: self.answer_id,
                body: ReturnBodyV::Exception(abort_reason()),
            }),
    {
        abort_return(self.answer_id)
    }
}

/// The unsolicited or failing `Return` for `answer_id`, with the abort
/// reason.
pub fn abort_return(answer_id: AnswerId) -> (r: Message)
    ensures
        r@ == (MessageV::Return {
            answer_id,
            body: ReturnBodyV::Exception(abort_reason()),
        }),
{
    Message::Return { answer_id, body: ReturnBody::Exception("aborted".to_owned()) }
}

/// Context for a pipelined call deferred against a local answer: its
/// completion goes to the local response sink of the awaiting request, not
/// to the wire.
#[derive(Debug)]
pub struct PromisedAnswerRpcCallContext {
    /// The response sink of the request that issued the deferred call.
    pub sink: u64,
    /// The call's params payload.
    pub params: Payload,
    /// The handles accompanying the params.
    pub param_handles: Vec<Option<CapHandle>>,
    /// The results user code has written so far.
    pub results: Content,
    /// The handles user code has placed in the results.
    pub result_handles: Vec<Option<CapHandle>>,
}

/// Mathematical view of [`PromisedAnswerRpcCallContext`].
#[verifier::ext_equal]
pub struct PromisedAnswerRpcCallContextV {
    pub sink: u64,
    pub params: PayloadV,
    pub param_handles: Seq<Option<CapHandleV>>,
    pub results: ContentV,
    pub result_handles: Seq<Option<CapHandleV>>,
}

impl View for PromisedAnswerRpcCallContext {
    type V = PromisedAnswerRpcCallContextV;

    open spec fn view(&self) -> PromisedAnswerRpcCallContextV {
        PromisedAnswerRpcCallContextV {
            sink: self.sink,
            params: self.params@,
            param_handles: view_handles(self.param_handles@),
            results: self.results@,
            result_handles: view_handles(self.result_handles@),
        }
    }
}

impl PromisedAnswerRpcCallContext {
    /// Builds the context for a deferred call from its `Call` message and
    /// the response sink of the awaiting request.
    pub fn new(sink: u64, message: Message, handles: Vec<Option<CapHandle>>) -> (r:
        PromisedAnswerRpcCallContext)
        requires
            message@ is Call,
        ensures
            r@.sink == sink,
            r@.params == message@->Call_params,
            r@.param_handles == view_handles(handles@),
            r@.results is Null,
            r@.result_handles.len() == 0,
    {
        match message {
            Message::Call { params, .. } => PromisedAnswerRpcCallContext {
                sink,
                params,
                param_handles: handles,
                results: Content::Null,
                result_handles: Vec::new(),
            },
            _ => {
                proof {
                    assert(false);
                }
                PromisedAnswerRpcCallContext {
                    sink,
                    params: Payload { content: Content::Null, cap_table: Vec::new() },
                    param_handles: Vec::new(),
                    results: Content::Null,
                    result_handles: Vec::new(),
                }
            },
        }
    }

    /// The params view and the results builder, for user code.
    pub fn get(&mut self) -> (r: (&Content, &mut Content))
        ensures
            *r.0 == old(self).params.content,
            *r.1 == old(self).results,
            final(self).sink == old(self).sink,
            final(self).params == old(self).params,
            final(self).param_handles == old(self).param_handles,
            final(self).result_handles == old(self).result_handles,
            final(self).results == *final(r.1),
    {
        (&self.params.content, &mut self.results)
    }

    /// Ends the deferred call successfully: yields the local response that
    /// fulfils the awaiting request.
    pub fn done(self) -> (r: LocalResponse)
        ensures
            r@.message == (MessageV::Return {
                answer_id: 0,
                body: ReturnBodyV::Results(
                    PayloadV { content: self@.results, cap_table: Seq::empty() },
                ),
            }),
            r@.handles == self@.result_handles,
    {
        let PromisedAnswerRpcCallContext { results, result_handles, .. } = self;
        let m = Message::Return {
            answer_id: 0,
            body: ReturnBody::Results(Payload { content: results, cap_table: Vec::new() }),
        };
        proof {
            assert(m@->Return_body->Results_0.cap_table =~= Seq::<
                crate::wire::CapDescriptorV,
            >::empty());
        }
        LocalResponse { message: m, handles: result_handles }
    }

    /// Ends the deferred call with a failure: the local response carries
    /// an exception with the abort reason.
    pub fn fail(self) -> (r: LocalResponse)
        ensures
            r@.message == (MessageV::Return {
                answer_id: 0,
                body: ReturnBodyV::Exception(abort_reason()),
            }),
            r@.handles.len() == 0,
    {
        LocalResponse { message: abort_return(0), handles: Vec::new() }
    }
}

/// The decoded response delivered over a question's one-shot sink.
#[derive(Debug)]
pub struct RpcResponse {
    /// The inbound `Return` message.
    pub message: Message,
    /// The decoded handles of its results cap table.
    pub handles: Vec<Option<CapHandle>>,
}

/// Mathematical view of [`RpcResponse`].
#[verifier::ext_equal]
pub struct RpcResponseV {
    pub message: MessageV,
    pub handles: Seq<Option<CapHandleV>>,
}

impl View for RpcResponse {
    type V = RpcResponseV;

    open spec fn view(&self) -> RpcResponseV {
        RpcResponseV { message: self.message@, handles: view_handles(self.handles@) }
    }
}

/// The capability a response's results point at, if the results content is
/// a capability pointer into the decoded cap table.
pub open spec fn spec_response_capability(r: RpcResponseV) -> Option<CapHandleV> {
    match r.message {
        MessageV::Return { body: ReturnBodyV::Results(p), .. } => match p.content {
            ContentV::Capability(idx) => if (idx as int) < r.handles.len() {
                r.handles[idx as int]
            } else {
                None
            },
            _ => None,
        },
        _ => None,
    }
}

impl RpcResponse {
    pub fn new(message: Message, handles: Vec<Option<CapHandle>>) -> (r: RpcResponse)
        ensures
            r@.message == message@,
            r@.handles == view_handles(handles@),
    {
        RpcResponse { message, handles }
    }

    /// The whole decoded message, as the awaiting caller reads it.
    pub fn get(&self) -> (r: &Message)
        ensures
            *r == self.message,
    {
        &self.message
    }

    /// The capability handle carried at the root of the results, used by
    /// bootstrap callers to obtain their first import.
    pub fn get_capability(&self) -> (r: Option<&CapHandle>)
        ensures
            match r {
                Some(h) => spec_response_capability(self@) == Some(h@),
                None => spec_response_capability(self@) is None,
            },
    {
        match &self.message {
            Message::Return { body: ReturnBody::Results(p), .. } => match &p.content {
                Content::Capability(idx) => {
                    if (*idx as usize) < self.handles.len() {
                        match &self.handles[*idx as usize] {
                            Some(h) => Some(h),
                            None => None,
                        }
                    } else {
                        None
                    }
                },
                _ => None,
            },
            _ => None,
        }
    }
}

/// The response fulfilling a locally deferred pipelined request.
#[derive(Debug)]
pub struct LocalResponse {
    /// The `Return` built by the deferred call's context.
    pub message: Message,
    /// The handles its results carry.
    pub handles: Vec<Option<CapHandle>>,
}

/// Mathematical view of [`LocalResponse`].
#[verifier::ext_equal]
pub struct LocalResponseV {
    pub message: MessageV,
    pub handles: Seq<Option<CapHandleV>>,
}

impl View for LocalResponse {
    type V = LocalResponseV;

    open spec fn view(&self) -> LocalResponseV {
        LocalResponseV { message: self.message@, handles: view_handles(self.handles@) }
    }
}

impl LocalResponse {
    pub fn new(message: Message, handles: Vec<Option<CapHandle>>) -> (r: LocalResponse)
        ensures
            r@.message == message@,
            r@.handles == view_handles(handles@),
    {
        LocalResponse { message, handles }
    }

    /// The whole message, as the awaiting caller reads it.
    pub fn get(&self) -> (r: &Message)
        ensures
            *r == self.message,
    {
        &self.message
    }
}

/// The two call-context flavours the dispatcher hands to local
/// capabilities.
#[derive(Debug)]
pub enum DispatchContext {
    /// Completion travels back on the wire as a `Return`.
    Wire(RpcCallContext),
    /// Completion fulfils a locally deferred request.
    Deferred(PromisedAnswerRpcCallContext),
}

/// Mathematical view of [`DispatchContext`].
#[verifier::ext_equal]
pub enum DispatchContextV {
    Wire(RpcCallContextV),
    Deferred(PromisedAnswerRpcCallContextV),
}

impl View for DispatchContext {
    type V = DispatchContextV;

    open spec fn view(&self) -> DispatchContextV {
        match self {
            DispatchContext::Wire(c) => DispatchContextV::Wire(c@),
            DispatchContext::Deferred(c) => DispatchContextV::Deferred(c@),
        }
    }
}

} // verus!
