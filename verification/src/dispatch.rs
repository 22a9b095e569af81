//! The dispatcher: single owner of the four tables and sole point of
//! protocol decisions.
//!
//! Every transition of a connection is one call of
//! [`RpcConnectionState::handle_event`], whose whole behaviour — the next
//! state, the actions handed back to the embedding, and whether the event
//! was fatal — is given by the transition function [`spec_step`].

use vstd::prelude::*;
use crate::wire::{
    AnswerId, CapDescriptor, CapDescriptorV, Content, ContentV, ExportId, Message, MessageV,
    MessageTarget, MessageTargetV, Payload, PayloadV, PipelineOp, QuestionId, ReturnBody,
    ReturnBodyV, RpcError, view_cap_table,
};
use crate::table::{ExportTable, ExportTableV, ImportTable};
use crate::handles::{
    CapHandle, CapHandleV, Export, LocalCap, decode_cap_table, decode_table_ok, encode_cap_table,
    spec_decode_table, spec_encode_table, view_handles,
};
use crate::context::{
    DispatchContext, DispatchContextV, PromisedAnswerRpcCallContextV, RpcCallContext,
    RpcCallContextV, RpcResponse, RpcResponseV,
};
use crate::answer::{
    Answer, AnswerStatusV, AnswerV, DeferredCallV, fresh_answer, spec_do_call, spec_drain,
};
use crate::events::{Action, ActionV, OutgoingMessage, RpcEvent, view_actions};

verus! {

/// Local state for an outgoing call awaiting its return: the one-shot
/// response sink, and whether the return is still owed.
#[derive(Clone, Copy, Debug, PartialEq, Eq, Structural)]
pub struct Question {
    pub sink: u64,
    pub is_awaiting_return: bool,
}

/// Local state for a peer-hosted capability we hold a handle to; the id
/// itself identifies it.
#[derive(Clone, Copy, Debug, PartialEq, Eq, Structural)]
pub struct Import;

/// The external hook that resolves a sturdy reference to a local
/// capability at bootstrap. An implementation decides freely; the
/// dispatcher's contract only ties its behaviour to `restore_spec`.
pub trait SturdyRefRestorer {
    /// What this restorer yields for each object id.
    spec fn restore_spec(&self, object_id: ContentV) -> Option<LocalCap>;

    /// Resolves an object id to a local capability, or nothing.
    fn restore(&self, object_id: &Content) -> (r: Option<LocalCap>)
        ensures
            r == self.restore_spec(object_id@),
    ;
}

impl SturdyRefRestorer for () {
    open spec fn restore_spec(&self, object_id: ContentV) -> Option<LocalCap> {
        None
    }

    fn restore(&self, object_id: &Content) -> (r: Option<LocalCap>) {
        None
    }
}

/// Mathematical view of a whole connection.
#[verifier::ext_equal]
pub struct ConnV {
    pub questions: ExportTableV<Question>,
    pub exports: ExportTableV<Export>,
    pub answers: Map<u32, AnswerV>,
    pub imports: Map<u32, Import>,
    pub shutdown: bool,
}

impl ConnV {
    /// Both id-allocating tables are well formed.
    pub open spec fn wf(self) -> bool {
        self.questions.wf() && self.exports.wf()
    }
}

/// The connection in its initial state: four empty tables, running.
pub open spec fn initial_conn() -> ConnV {
    ConnV {
        questions: ExportTableV { slots: Seq::empty(), free: Seq::empty() },
        exports: ExportTableV { slots: Seq::empty(), free: Seq::empty() },
        answers: Map::empty(),
        imports: Map::empty(),
        shutdown: false,
    }
}

/// The outcome of one dispatcher step: the next connection state, the
/// actions handed to the embedding, and the fatal error if the event
/// tore the connection down.
#[verifier::ext_equal]
pub struct Step {
    pub conn: ConnV,
    pub actions: Seq<ActionV>,
    pub error: Option<RpcError>,
}

/// A successful step.
pub open spec fn step_ok(conn: ConnV, actions: Seq<ActionV>) -> Step {
    Step { conn, actions, error: None }
}

/// A fatal step: the connection shuts down, nothing else happens.
pub open spec fn fatal(s: ConnV, e: RpcError) -> Step {
    Step {
        conn: ConnV { shutdown: true, ..s },
        actions: Seq::empty(),
        error: Some(e),
    }
}

/// A sequence of zero or one actions.
pub open spec fn opt_action(o: Option<ActionV>) -> Seq<ActionV> {
    match o {
        Some(a) => seq![a],
        None => Seq::empty(),
    }
}

/// The cap table an inbound message carries: on a call's params, on a
/// return's results, nowhere else.
pub open spec fn incoming_cap_table(m: MessageV) -> Seq<CapDescriptorV> {
    match m {
        MessageV::Call { params, .. } => params.cap_table,
        MessageV::Return { body: ReturnBodyV::Results(p), .. } => p.cap_table,
        _ => Seq::empty(),
    }
}

/// The import table after walking an inbound cap table: every
/// `senderHosted` descriptor installs an import at its id.
pub open spec fn spec_register_imports(m: Map<u32, Import>, t: Seq<CapDescriptorV>) -> Map<
    u32,
    Import,
>
    decreases t.len(),
{
    if t.len() == 0 {
        m
    } else {
        let m1 = spec_register_imports(m, t.drop_last());
        match t.last() {
            CapDescriptorV::SenderHosted(id) => m1.insert(id, Import),
            _ => m1,
        }
    }
}

/// The wire-flavoured call context for an inbound call.
pub open spec fn wire_context(
    question_id: QuestionId,
    params: PayloadV,
    handles: Seq<Option<CapHandleV>>,
) -> DispatchContextV {
    DispatchContextV::Wire(
        RpcCallContextV {
            answer_id: question_id,
            params,
            param_handles: handles,
            results: ContentV::Null,
            result_handles: Seq::empty(),
        },
    )
}

/// One step on an inbound message. The cap table is decoded first; a
/// descriptor kind this core refuses is fatal. Then every `senderHosted`
/// entry registers an import, and the receiver is computed: a call goes
/// to an export or a promised answer, a return fires its question's sink
/// once and marks the question answered (a repeat return is fatal), a
/// release frees an export, a restore exports the restored
/// capability and answers with it, and every other kind is ignored.
pub open spec fn spec_incoming(s: ConnV, m: MessageV, restored: Option<LocalCap>) -> Step {
    let table = incoming_cap_table(m);
    if !decode_table_ok(table) {
        fatal(s, RpcError::UnhandledDescriptor)
    } else {
        let handles = spec_decode_table(table);
        let s1 = ConnV { imports: spec_register_imports(s.imports, table), ..s };
        match m {
            MessageV::Call { question_id, target, interface_id, method_id, params } => {
                match target {
                    MessageTargetV::ImportedCap(id) => if !s1.exports.occupied(id) {
                        fatal(s1, RpcError::UnknownExport(id))
                    } else {
                        step_ok(
                            ConnV { answers: s1.answers.insert(question_id, fresh_answer()), ..s1 },
                            seq![
                                ActionV::DispatchCall {
                                    cap: s1.exports.at(id).cap,
                                    interface_id,
                                    method_id,
                                    context: wire_context(question_id, params, handles),
                                },
                            ],
                        )
                    },
                    MessageTargetV::PromisedAnswer(qid, tops) => if qid != question_id
                        && !s1.answers.contains_key(qid) {
                        fatal(s1, RpcError::UnknownAnswer(qid))
                    } else {
                        let a2 = s1.answers.insert(question_id, fresh_answer());
                        let ta = a2[qid];
                        let ctx = wire_context(question_id, params, handles);
                        match ta.status {
                            AnswerStatusV::Pending(ws) => step_ok(
                                ConnV {
                                    answers: a2.insert(
                                        qid,
                                        AnswerV {
                                            status: AnswerStatusV::Pending(
                                                ws.push(
                                                    DeferredCallV {
                                                        interface_id,
                                                        method_id,
                                                        ops: tops,
                                                        context: ctx,
                                                    },
                                                ),
                                            ),
                                            result_exports: ta.result_exports,
                                        },
                                    ),
                                    ..s1
                                },
                                Seq::empty(),
                            ),
                            AnswerStatusV::Sent { body, handles: bh } => step_ok(
                                ConnV { answers: a2, ..s1 },
                                opt_action(
                                    spec_do_call(body, bh, interface_id, method_id, tops, ctx),
                                ),
                            ),
                        }
                    },
                }
            },
            MessageV::Return { answer_id, .. } => if !s1.questions.occupied(answer_id)
                || !s1.questions.at(answer_id).is_awaiting_return {
                fatal(s1, RpcError::UnknownQuestion(answer_id))
            } else {
                let q = s1.questions.at(answer_id);
                step_ok(
                    ConnV {
                        questions: s1.questions.spec_update(
                            answer_id,
                            Question { sink: q.sink, is_awaiting_return: false },
                        ),
                        ..s1
                    },
                    seq![
                        ActionV::DeliverResponse {
                            sink: q.sink,
                            response: RpcResponseV { message: m, handles },
                        },
                    ],
                )
            },
            MessageV::Release { id, reference_count } => if reference_count != 1 {
                fatal(s1, RpcError::BadReferenceCount(reference_count))
            } else if !s1.exports.occupied(id) {
                fatal(s1, RpcError::UnknownExport(id))
            } else {
                step_ok(ConnV { exports: s1.exports.spec_erase(id), ..s1 }, Seq::empty())
            },
            MessageV::Restore { question_id, .. } => match restored {
                None => fatal(s1, RpcError::RestoreFailed),
                Some(cap) => {
                    let idx = s1.exports.next_id();
                    step_ok(
                        ConnV {
                            exports: s1.exports.spec_push(Export { cap }),
                            answers: s1.answers.insert(question_id, fresh_answer()),
                            ..s1
                        },
                        seq![
                            ActionV::WriteMessage {
                                message: MessageV::Return {
                                    answer_id: question_id,
                                    body: ReturnBodyV::Results(
                                        PayloadV {
                                            content: ContentV::Capability(0),
                                            cap_table: seq![CapDescriptorV::SenderHosted(idx)],
                                        },
                                    ),
                                },
                                handles: seq![Some(CapHandleV::Local { cap })],
                            },
                        ],
                    )
                },
            },
            _ => step_ok(s1, seq![ActionV::Unhandled { message: m }]),
        }
    }
}

/// One step on a locally initiated call or restore: allocate a question,
/// write its id into the message, publish the id, encode the cap table,
/// and hand the message to the writer. A return passes straight through
/// to the writer; any other kind is fatal.
pub open spec fn spec_outgoing(s: ConnV, om: OutgoingMessage) -> Step {
    match om.message@ {
        MessageV::Call { target, interface_id, method_id, params, .. } => {
            let qid = s.questions.next_id();
            let enc = spec_encode_table(om@.handles, s.exports);
            step_ok(
                ConnV {
                    questions: s.questions.spec_push(
                        Question { sink: om.answer_sink, is_awaiting_return: true },
                    ),
                    exports: enc.1,
                    ..s
                },
                seq![
                    ActionV::PublishQuestionId { sink: om.question_sink, id: qid },
                    ActionV::WriteMessage {
                        message: MessageV::Call {
                            question_id: qid,
                            target,
                            interface_id,
                            method_id,
                            params: PayloadV { content: params.content, cap_table: enc.0 },
                        },
                        handles: om@.handles,
                    },
                ],
            )
        },
        MessageV::Restore { object_id, .. } => {
            let qid = s.questions.next_id();
            step_ok(
                ConnV {
                    questions: s.questions.spec_push(
                        Question { sink: om.answer_sink, is_awaiting_return: true },
                    ),
                    ..s
                },
                seq![
                    ActionV::PublishQuestionId { sink: om.question_sink, id: qid },
                    ActionV::WriteMessage {
                        message: MessageV::Restore { question_id: qid, object_id },
                        handles: om@.handles,
                    },
                ],
            )
        },
        MessageV::Return { .. } => step_ok(
            s,
            seq![ActionV::WriteMessage { message: om.message@, handles: om@.handles }],
        ),
        _ => fatal(s, RpcError::UnsupportedOutgoing),
    }
}

/// One step on a pipelined call deferred against a local answer: no wire
/// traffic; the call is buffered while the answer is pending and runs
/// immediately once it has been sent.
pub open spec fn spec_outgoing_deferred(
    s: ConnV,
    om: OutgoingMessage,
    answer_id: AnswerId,
    ops: Seq<PipelineOp>,
) -> Step {
    match om.message@ {
        MessageV::Call { interface_id, method_id, params, .. } => {
            let ctx = DispatchContextV::Deferred(
                PromisedAnswerRpcCallContextV {
                    sink: om.answer_sink,
                    params,
                    param_handles: om@.handles,
                    results: ContentV::Null,
                    result_handles: Seq::empty(),
                },
            );
            if !s.answers.contains_key(answer_id) {
                fatal(s, RpcError::UnknownAnswer(answer_id))
            } else {
                let ta = s.answers[answer_id];
                match ta.status {
                    AnswerStatusV::Pending(ws) => step_ok(
                        ConnV {
                            answers: s.answers.insert(
                                answer_id,
                                AnswerV {
                                    status: AnswerStatusV::Pending(
                                        ws.push(
                                            DeferredCallV {
                                                interface_id,
                                                method_id,
                                                ops,
                                                context: ctx,
                                            },
                                        ),
                                    ),
                                    result_exports: ta.result_exports,
                                },
                            ),
                            ..s
                        },
                        Seq::empty(),
                    ),
                    AnswerStatusV::Sent { body, handles: bh } => step_ok(
                        s,
                        opt_action(spec_do_call(body, bh, interface_id, method_id, ops, ctx)),
                    ),
                }
            }
        },
        _ => fatal(s, RpcError::UnsupportedOutgoing),
    }
}

/// One step on a writer confirmation: a flushed return moves its answer
/// to sent and drains the buffered sub-calls in arrival order. A repeat
/// confirmation for an already-sent answer is fatal; a confirmation that
/// is not a return is ignored.
pub open spec fn spec_answer_sent(
    s: ConnV,
    message: Message,
    handles: Seq<Option<CapHandleV>>,
) -> Step {
    match message@ {
        MessageV::Return { answer_id, body } => if !s.answers.contains_key(answer_id) {
            fatal(s, RpcError::UnknownAnswer(answer_id))
        } else {
            let ta = s.answers[answer_id];
            match ta.status {
                AnswerStatusV::Sent { .. } => fatal(s, RpcError::AnswerAlreadySent(answer_id)),
                AnswerStatusV::Pending(ws) => step_ok(
                    ConnV {
                        answers: s.answers.insert(
                            answer_id,
                            AnswerV {
                                status: AnswerStatusV::Sent { body, handles },
                                result_exports: ta.result_exports,
                            },
                        ),
                        ..s
                    },
                    spec_drain(ws, body, handles),
                ),
            }
        },
        _ => step_ok(s, Seq::empty()),
    }
}

/// One step on a completed local call: encode the results cap table and
/// hand the return to the writer.
pub open spec fn spec_return_event(
    s: ConnV,
    message: Message,
    handles: Seq<Option<CapHandleV>>,
) -> Step {
    match message@ {
        MessageV::Return { answer_id, body: ReturnBodyV::Results(p) } => {
            let enc = spec_encode_table(handles, s.exports);
            step_ok(
                ConnV { exports: enc.1, ..s },
                seq![
                    ActionV::WriteMessage {
                        message: MessageV::Return {
                            answer_id,
                            body: ReturnBodyV::Results(
                                PayloadV { content: p.content, cap_table: enc.0 },
                            ),
                        },
                        handles,
                    },
                ],
            )
        },
        _ => step_ok(s, seq![ActionV::WriteMessage { message: message@, handles }]),
    }
}

/// One step on an export request: allocate the export and publish its id.
pub open spec fn spec_new_local_server(s: ConnV, cap: LocalCap, id_sink: u64) -> Step {
    let id = s.exports.next_id();
    step_ok(
        ConnV { exports: s.exports.spec_push(Export { cap }), ..s },
        seq![ActionV::PublishExportId { sink: id_sink, id }],
    )
}

/// The dispatcher's transition function: what one event does to the
/// connection. After shutdown no event is processed.
pub open spec fn spec_step(s: ConnV, ev: RpcEvent, restored: Option<LocalCap>) -> Step {
    if s.shutdown {
        step_ok(s, Seq::empty())
    } else {
        match ev {
            RpcEvent::IncomingMessage(m) => spec_incoming(s, m@, restored),
            RpcEvent::Outgoing(om) => spec_outgoing(s, om),
            RpcEvent::OutgoingDeferred(om, answer_id, ops) => spec_outgoing_deferred(
                s,
                om,
                answer_id,
                ops@,
            ),
            RpcEvent::AnswerSent { message, handles } => spec_answer_sent(
                s,
                message,
                view_handles(handles@),
            ),
            RpcEvent::NewLocalServer { cap, id_sink } => spec_new_local_server(s, cap, id_sink),
            RpcEvent::ReturnEvent { message, handles } => spec_return_event(
                s,
                message,
                view_handles(handles@),
            ),
            RpcEvent::ShutdownEvent => step_ok(
                ConnV { shutdown: true, ..s },
                Seq::empty(),
            ),
        }
    }
}

/// What the restorer would yield for this event: consulted only for an
/// inbound restore.
pub open spec fn spec_event_restored<R: SturdyRefRestorer>(r: &R, ev: RpcEvent) -> Option<
    LocalCap,
> {
    match ev {
        RpcEvent::IncomingMessage(m) => match m {
            Message::Restore { object_id, .. } => r.restore_spec(object_id@),
            _ => None,
        },
        _ => None,
    }
}

/// How many export slots an event can allocate at most: one per handle it
/// encodes, one for a restore or an export request.
pub open spec fn event_budget(ev: RpcEvent) -> int {
    match ev {
        RpcEvent::IncomingMessage(_) => 1,
        RpcEvent::Outgoing(om) => om.handles@.len() as int,
        RpcEvent::OutgoingDeferred(..) => 0,
        RpcEvent::AnswerSent { .. } => 0,
        RpcEvent::NewLocalServer { .. } => 1,
        RpcEvent::ReturnEvent { handles, .. } => handles@.len() as int,
        RpcEvent::ShutdownEvent => 0,
    }
}

/// View of the answer table.
pub open spec fn view_answers(m: Map<u32, Answer>) -> Map<u32, AnswerV> {
    Map::new(|k: u32| m.contains_key(k), |k: u32| m[k]@)
}

/// Per-connection RPC state: the four tables and the shutdown flag, owned
/// by the dispatcher alone.
pub struct RpcConnectionState {
    questions: ExportTable<Question>,
    exports: ExportTable<Export>,
    answers: ImportTable<Answer>,
    imports: ImportTable<Import>,
    shutdown: bool,
}

impl View for RpcConnectionState {
    type V = ConnV;

    closed spec fn view(&self) -> ConnV {
        ConnV {
            questions: self.questions@,
            exports: self.exports@,
            answers: view_answers(self.answers@),
            imports: self.imports@,
            shutdown: self.shutdown,
        }
    }
}

impl RpcConnectionState {
    pub fn new() -> (r: RpcConnectionState)
        ensures
            r@ == initial_conn(),
            r@.wf(),
    {
        let r = RpcConnectionState {
            questions: ExportTable::new(),
            exports: ExportTable::new(),
            answers: ImportTable::new(),
            imports: ImportTable::new(),
            shutdown: false,
        };
        proof {
            assert(r@.questions.slots =~= Seq::<Option<Question>>::empty());
            assert(r@.questions.free =~= Seq::<u32>::empty());
            assert(r@.exports.slots =~= Seq::<Option<Export>>::empty());
            assert(r@.exports.free =~= Seq::<u32>::empty());
            assert(r@.answers =~= Map::<u32, AnswerV>::empty());
            assert(r@ =~= initial_conn());
        }
        r
    }

    /// Consumes one event: the sole mutator of the four tables. The next
    /// state, the actions and the error are exactly those of
    /// [`spec_step`]; on a fatal event the connection is shut down and
    /// nothing else changes.
    pub fn handle_event<R: SturdyRefRestorer>(&mut self, event: RpcEvent, restorer: &R) -> (r:
        Result<Vec<Action>, RpcError>)
        requires
            old(self)@.wf(),
            old(self)@.questions.slots.len() < 0xffff_fffe,
            old(self)@.exports.slots.len() + event_budget(event) < 0xffff_fffe,
        ensures
            final(self)@ == spec_step(old(self)@, event, spec_event_restored(restorer, event)).conn,
            final(self)@.wf(),
            match r {
                Ok(actions) => spec_step(
                    old(self)@,
                    event,
                    spec_event_restored(restorer, event),
                ).error is None && view_actions(actions@) == spec_step(
                    old(self)@,
                    event,
                    spec_event_restored(restorer, event),
                ).actions,
                Err(e) => spec_step(old(self)@, event, spec_event_restored(restorer, event)).error
                    == Some(e),
            },
    {
        if self.shutdown {
            let actions: Vec<Action> = Vec::new();
            proof {
                assert(view_actions(actions@) =~= Seq::<ActionV>::empty());
            }
            return Ok(actions);
        }
        match event {
            RpcEvent::ShutdownEvent => {
                self.shutdown = true;
                let actions: Vec<Action> = Vec::new();
                proof {
                    assert(view_actions(actions@) =~= Seq::<ActionV>::empty());
                    assert(final(self)@ =~= (ConnV { shutdown: true, ..old(self)@ }));
                }
                Ok(actions)
            },
            RpcEvent::NewLocalServer { cap, id_sink } => {
                let id = self.exports.push(Export { cap });
                let mut actions: Vec<Action> = Vec::new();
                actions.push(Action::PublishExportId { sink: id_sink, id });
                proof {
                    let st = spec_new_local_server(old(self)@, cap, id_sink);
                    assert(final(self)@ =~~= st.conn);
                    assert(view_actions(actions@) =~= st.actions);
                }
                Ok(actions)
            },
            RpcEvent::IncomingMessage(m) => self.handle_incoming(m, restorer),
            RpcEvent::Outgoing(om) => self.handle_outgoing(om),
            RpcEvent::OutgoingDeferred(om, answer_id, ops) => self.handle_outgoing_deferred(
                om,
                answer_id,
                ops,
            ),
            RpcEvent::AnswerSent { message, handles } => self.handle_answer_sent(message, handles),
            RpcEvent::ReturnEvent { message, handles } => self.handle_return_event(
                message,
                handles,
            ),
        }
    }

    /// Handles a locally initiated call or restore.
    fn handle_outgoing(&mut self, om: OutgoingMessage) -> (r: Result<Vec<Action>, RpcError>)
        requires
            old(self)@.wf(),
            !old(self)@.shutdown,
            old(self)@.questions.slots.len() < 0xffff_fffe,
            old(self)@.exports.slots.len() + om.handles@.len() < 0xffff_fffe,
        ensures
            final(self)@ == spec_outgoing(old(self)@, om).conn,
            final(self)@.wf(),
            match r {
                Ok(actions) => spec_outgoing(old(self)@, om).error is None && view_actions(
                    actions@,
                ) == spec_outgoing(old(self)@, om).actions,
                Err(e) => spec_outgoing(old(self)@, om).error == Some(e),
            },
    {
        let ghost st = spec_outgoing(old(self)@, om);
        let OutgoingMessage { message, handles, answer_sink, question_sink } = om;
        match message {
            Message::Call { question_id: _, target, interface_id, method_id, params } => {
                let qid = self.questions.push(
                    Question { sink: answer_sink, is_awaiting_return: true },
                );
                let Payload { content, cap_table: _ } = params;
                let ds = encode_cap_table(&mut self.exports, &handles);
                let m2 = Message::Call {
                    question_id: qid,
                    target,
                    interface_id,
                    method_id,
                    params: Payload { content, cap_table: ds },
                };
                let mut actions: Vec<Action> = Vec::new();
                actions.push(Action::PublishQuestionId { sink: question_sink, id: qid });
                actions.push(Action::WriteMessage { message: m2, handles });
                proof {
                    assert(final(self)@ =~~= st.conn);
                    assert(view_actions(actions@) =~~= st.actions);
                }
                Ok(actions)
            },
            Message::Restore { question_id: _, object_id } => {
                let qid = self.questions.push(
                    Question { sink: answer_sink, is_awaiting_return: true },
                );
                let m2 = Message::Restore { question_id: qid, object_id };
                let mut actions: Vec<Action> = Vec::new();
                actions.push(Action::PublishQuestionId { sink: question_sink, id: qid });
                actions.push(Action::WriteMessage { message: m2, handles });
                proof {
                    assert(final(self)@ =~~= st.conn);
                    assert(view_actions(actions@) =~~= st.actions);
                }
                Ok(actions)
            },
            Message::Return { answer_id, body } => {
                let m2 = Message::Return { answer_id, body };
                let mut actions: Vec<Action> = Vec::new();
                actions.push(Action::WriteMessage { message: m2, handles });
                proof {
                    assert(final(self)@ =~~= st.conn);
                    assert(view_actions(actions@) =~~= st.actions);
                }
                Ok(actions)
            },
            _ => {
                self.shutdown = true;
                proof {
                    assert(final(self)@ =~~= st.conn);
                }
                Err(RpcError::UnsupportedOutgoing)
            },
        }
    }

    /// Handles a pipelined call deferred against a local answer.
    fn handle_outgoing_deferred(
        &mut self,
        om: OutgoingMessage,
        answer_id: AnswerId,
        ops: Vec<PipelineOp>,
    ) -> (r: Result<Vec<Action>, RpcError>)
        requires
            old(self)@.wf(),
            !old(self)@.shutdown,
        ensures
            final(self)@ == spec_outgoing_deferred(old(self)@, om, answer_id, ops@).conn,
            final(self)@.wf(),
            match r {
                Ok(actions) => spec_outgoing_deferred(old(self)@, om, answer_id, ops@).error
                    is None && view_actions(actions@) == spec_outgoing_deferred(
                    old(self)@,
                    om,
                    answer_id,
                    ops@,
                ).actions,
                Err(e) => spec_outgoing_deferred(old(self)@, om, answer_id, ops@).error == Some(e),
            },
    {
        let ghost st = spec_outgoing_deferred(old(self)@, om, answer_id, ops@);
        let OutgoingMessage { message, handles, answer_sink, question_sink: _ } = om;
        match message {
            Message::Call { interface_id, method_id, params, .. } => {
                let ctx = DispatchContext::Deferred(
                    crate::context::PromisedAnswerRpcCallContext {
                        sink: answer_sink,
                        params,
                        param_handles: handles,
                        results: Content::Null,
                        result_handles: Vec::new(),
                    },
                );
                match self.answers.take(answer_id) {
                    None => {
                        self.shutdown = true;
                        proof {
                            assert(final(self)@.answers =~~= st.conn.answers);
                            assert(final(self)@ =~~= st.conn);
                        }
                        Err(RpcError::UnknownAnswer(answer_id))
                    },
                    Some(mut ta) => {
                        let step = ta.receive(interface_id, method_id, ops, ctx);
                        self.answers.insert(answer_id, ta);
                        let mut actions: Vec<Action> = Vec::new();
                        match step {
                            Some(a) => {
                                actions.push(a);
                            },
                            None => {},
                        }
                        proof {
                            assert(final(self)@.answers =~~= st.conn.answers);
                            assert(final(self)@ =~~= st.conn);
                            assert(view_actions(actions@) =~~= st.actions);
                        }
                        Ok(actions)
                    },
                }
            },
            _ => {
                self.shutdown = true;
                proof {
                    assert(final(self)@ =~~= st.conn);
                }
                Err(RpcError::UnsupportedOutgoing)
            },
        }
    }

    /// Handles a writer confirmation.
    fn handle_answer_sent(&mut self, message: Message, handles: Vec<Option<CapHandle>>) -> (r:
        Result<Vec<Action>, RpcError>)
        requires
            old(self)@.wf(),
            !old(self)@.shutdown,
        ensures
            final(self)@ == spec_answer_sent(old(self)@, message, view_handles(handles@)).conn,
            final(self)@.wf(),
            match r {
                Ok(actions) => spec_answer_sent(
                    old(self)@,
                    message,
                    view_handles(handles@),
                ).error is None && view_actions(actions@) == spec_answer_sent(
                    old(self)@,
                    message,
                    view_handles(handles@),
                ).actions,
                Err(e) => spec_answer_sent(old(self)@, message, view_handles(handles@)).error
                    == Some(e),
            },
    {
        let ghost st = spec_answer_sent(old(self)@, message, view_handles(handles@));
        match message {
            Message::Return { answer_id, body } => {
                match self.answers.take(answer_id) {
                    None => {
                        self.shutdown = true;
                        proof {
                            assert(final(self)@.answers =~~= st.conn.answers);
                            assert(final(self)@ =~~= st.conn);
                        }
                        Err(RpcError::UnknownAnswer(answer_id))
                    },
                    Some(mut ta) => {
                        let already = match &ta.status {
                            crate::answer::AnswerStatus::AnswerStatusSent { .. } => true,
                            crate::answer::AnswerStatus::AnswerStatusPending(_) => false,
                        };
                        if already {
                            self.answers.insert(answer_id, ta);
                            self.shutdown = true;
                            proof {
                                assert(final(self)@.answers =~~= st.conn.answers);
                                assert(final(self)@ =~~= st.conn);
                            }
                            Err(RpcError::AnswerAlreadySent(answer_id))
                        } else {
                            let actions = ta.sent(body, handles);
                            self.answers.insert(answer_id, ta);
                            proof {
                                assert(final(self)@.answers =~~= st.conn.answers);
                                assert(final(self)@ =~~= st.conn);
                                assert(view_actions(actions@) == st.actions);
                            }
                            Ok(actions)
                        }
                    },
                }
            },
            _ => {
                let actions: Vec<Action> = Vec::new();
                proof {
                    assert(view_actions(actions@) =~= Seq::<ActionV>::empty());
                    assert(final(self)@ =~~= st.conn);
                }
                Ok(actions)
            },
        }
    }

    /// Handles a completed local call ready to be transmitted.
    fn handle_return_event(&mut self, message: Message, handles: Vec<Option<CapHandle>>) -> (r:
        Result<Vec<Action>, RpcError>)
        requires
            old(self)@.wf(),
            !old(self)@.shutdown,
            old(self)@.exports.slots.len() + handles@.len() < 0xffff_fffe,
        ensures
            final(self)@ == spec_return_event(old(self)@, message, view_handles(handles@)).conn,
            final(self)@.wf(),
            match r {
                Ok(actions) => spec_return_event(
                    old(self)@,
                    message,
                    view_handles(handles@),
                ).error is None && view_actions(actions@) == spec_return_event(
                    old(self)@,
                    message,
                    view_handles(handles@),
                ).actions,
                Err(e) => spec_return_event(old(self)@, message, view_handles(handles@)).error
                    == Some(e),
            },
    {
        let ghost st = spec_return_event(old(self)@, message, view_handles(handles@));
        match message {
            Message::Return { answer_id, body: ReturnBody::Results(p) } => {
                let Payload { content, cap_table: _ } = p;
                let ds = encode_cap_table(&mut self.exports, &handles);
                let m2 = Message::Return {
                    answer_id,
                    body: ReturnBody::Results(Payload { content, cap_table: ds }),
                };
                let mut actions: Vec<Action> = Vec::new();
                actions.push(Action::WriteMessage { message: m2, handles });
                proof {
                    assert(final(self)@ =~~= st.conn);
                    assert(view_actions(actions@) =~~= st.actions);
                }
                Ok(actions)
            },
            other => {
                let mut actions: Vec<Action> = Vec::new();
                actions.push(Action::WriteMessage { message: other, handles });
                proof {
                    assert(final(self)@ =~~= st.conn);
                    assert(view_actions(actions@) =~~= st.actions);
                }
                Ok(actions)
            },
        }
    }

    /// Handles one inbound message.
    fn handle_incoming<R: SturdyRefRestorer>(&mut self, m: Message, restorer: &R) -> (r: Result<
        Vec<Action>,
        RpcError,
    >)
        requires
            old(self)@.wf(),
            !old(self)@.shutdown,
            old(self)@.exports.slots.len() + 1 < 0xffff_fffe,
        ensures
            final(self)@ == spec_incoming(old(self)@, m@, spec_msg_restored(restorer, m)).conn,
            final(self)@.wf(),
            match r {
                Ok(actions) => spec_incoming(
                    old(self)@,
                    m@,
                    spec_msg_restored(restorer, m),
                ).error is None && view_actions(actions@) == spec_incoming(
                    old(self)@,
                    m@,
                    spec_msg_restored(restorer, m),
                ).actions,
                Err(e) => spec_incoming(old(self)@, m@, spec_msg_restored(restorer, m)).error
                    == Some(e),
            },
    {
        let ghost st = spec_incoming(old(self)@, m@, spec_msg_restored(restorer, m));
        let ghost table = incoming_cap_table(m@);
        let handles: Vec<Option<CapHandle>>;
        match &m {
            Message::Call { params, .. } => {
                match decode_cap_table(&params.cap_table) {
                    Ok(h) => {
                        handles = h;
                    },
                    Err(e) => {
                        self.shutdown = true;
                        proof {
                            assert(final(self)@ =~~= st.conn);
                        }
                        return Err(e);
                    },
                }
            },
            Message::Return { body: ReturnBody::Results(p), .. } => {
                match decode_cap_table(&p.cap_table) {
                    Ok(h) => {
                        handles = h;
                    },
                    Err(e) => {
                        self.shutdown = true;
                        proof {
                            assert(final(self)@ =~~= st.conn);
                        }
                        return Err(e);
                    },
                }
            },
            _ => {
                handles = Vec::new();
                proof {
                    assert(decode_table_ok(table));
                    assert(view_handles(handles@) =~= spec_decode_table(table));
                }
            },
        }
        match &m {
            Message::Call { params, .. } => {
                register_imports(&mut self.imports, &params.cap_table);
            },
            Message::Return { body: ReturnBody::Results(p), .. } => {
                register_imports(&mut self.imports, &p.cap_table);
            },
            _ => {
                proof {
                    assert(spec_register_imports(old(self)@.imports, table) =~= old(
                        self,
                    )@.imports);
                }
            },
        }
        let ghost s1 = ConnV {
            imports: spec_register_imports(old(self)@.imports, table),
            ..old(self)@
        };
        proof {
            assert(self@ =~~= s1);
        }
        match m {
            Message::Call { question_id, target, interface_id, method_id, params } => {
                match target {
                    MessageTarget::ImportedCap(id) => {
                        let cap = match self.exports.get(id) {
                            Some(ex) => ex.cap,
                            None => {
                                self.shutdown = true;
                                proof {
                                    assert(final(self)@ =~~= st.conn);
                                }
                                return Err(RpcError::UnknownExport(id));
                            },
                        };
                        self.answers.insert(question_id, Answer::new());
                        let ctx = RpcCallContext {
                            answer_id: question_id,
                            params,
                            param_handles: handles,
                            results: Content::Null,
                            result_handles: Vec::new(),
                        };
                        let mut actions: Vec<Action> = Vec::new();
                        actions.push(
                            Action::DispatchCall {
                                cap,
                                interface_id,
                                method_id,
                                context: DispatchContext::Wire(ctx),
                            },
                        );
                        proof {
                            assert(final(self)@.answers =~~= st.conn.answers);
                            assert(final(self)@ =~~= st.conn);
                            assert(view_actions(actions@) =~~= st.actions);
                        }
                        Ok(actions)
                    },
                    MessageTarget::PromisedAnswer(qid, tops) => {
                        if qid != question_id && !self.answers.contains(qid) {
                            self.shutdown = true;
                            proof {
                                assert(final(self)@ =~~= st.conn);
                            }
                            return Err(RpcError::UnknownAnswer(qid));
                        }
                        self.answers.insert(question_id, Answer::new());
                        let ctx = DispatchContext::Wire(
                            RpcCallContext {
                                answer_id: question_id,
                                params,
                                param_handles: handles,
                                results: Content::Null,
                                result_handles: Vec::new(),
                            },
                        );
                        let mut ta = match self.answers.take(qid) {
                            Some(a) => a,
                            None => {
                                proof {
                                    assert(false);
                                }
                                Answer::new()
                            },
                        };
                        let step = ta.receive(interface_id, method_id, tops, ctx);
                        self.answers.insert(qid, ta);
                        let mut actions: Vec<Action> = Vec::new();
                        match step {
                            Some(a) => {
                                actions.push(a);
                            },
                            None => {},
                        }
                        proof {
                            assert(final(self)@.answers =~~= st.conn.answers);
                            assert(final(self)@ =~~= st.conn);
                            assert(view_actions(actions@) =~~= st.actions);
                        }
                        Ok(actions)
                    },
                }
            },
            Message::Return { answer_id, body } => {
                let sink = match self.questions.get(answer_id) {
                    Some(q) => {
                        if !q.is_awaiting_return {
                            self.shutdown = true;
                            proof {
                                assert(final(self)@ =~~= st.conn);
                            }
                            return Err(RpcError::UnknownQuestion(answer_id));
                        }
                        q.sink
                    },
                    None => {
                        self.shutdown = true;
                        proof {
                            assert(final(self)@ =~~= st.conn);
                        }
                        return Err(RpcError::UnknownQuestion(answer_id));
                    },
                };
                self.questions.update(
                    answer_id,
                    Question { sink, is_awaiting_return: false },
                );
                let response = RpcResponse {
                    message: Message::Return { answer_id, body },
                    handles,
                };
                let mut actions: Vec<Action> = Vec::new();
                actions.push(Action::DeliverResponse { sink, response });
                proof {
                    assert(final(self)@ =~~= st.conn);
                    assert(view_actions(actions@) =~~= st.actions);
                }
                Ok(actions)
            },
            Message::Release { id, reference_count } => {
                if reference_count != 1 {
                    self.shutdown = true;
                    proof {
                        assert(final(self)@ =~~= st.conn);
                    }
                    return Err(RpcError::BadReferenceCount(reference_count));
                }
                if !self.exports.contains(id) {
                    self.shutdown = true;
                    proof {
                        assert(final(self)@ =~~= st.conn);
                    }
                    return Err(RpcError::UnknownExport(id));
                }
                self.exports.erase(id);
                let actions: Vec<Action> = Vec::new();
                proof {
                    assert(final(self)@ =~~= st.conn);
                    assert(view_actions(actions@) =~= Seq::<ActionV>::empty());
                }
                Ok(actions)
            },
            Message::Restore { question_id, object_id } => {
                match restorer.restore(&object_id) {
                    None => {
                        self.shutdown = true;
                        proof {
                            assert(final(self)@ =~~= st.conn);
                        }
                        Err(RpcError::RestoreFailed)
                    },
                    Some(cap) => {
                        let idx = self.exports.push(Export { cap });
                        let mut cap_table: Vec<CapDescriptor> = Vec::new();
                        cap_table.push(CapDescriptor::SenderHosted(idx));
                        let retmsg = Message::Return {
                            answer_id: question_id,
                            body: ReturnBody::Results(
                                Payload { content: Content::Capability(0), cap_table },
                            ),
                        };
                        self.answers.insert(question_id, Answer::new());
                        let mut hs: Vec<Option<CapHandle>> = Vec::new();
                        hs.push(Some(CapHandle::Local { cap }));
                        let mut actions: Vec<Action> = Vec::new();
                        actions.push(Action::WriteMessage { message: retmsg, handles: hs });
                        proof {
                            assert(final(self)@.answers =~~= st.conn.answers);
                            assert(final(self)@ =~~= st.conn);
                            assert(view_actions(actions@) =~~= st.actions);
                        }
                        Ok(actions)
                    },
                }
            },
            other => {
                let mut actions: Vec<Action> = Vec::new();
                actions.push(Action::Unhandled { message: other });
                proof {
                    assert(final(self)@ =~~= st.conn);
                    assert(view_actions(actions@) =~~= st.actions);
                }
                Ok(actions)
            },
        }
    }
}

/// What the restorer would yield for this message: consulted only for a
/// restore.
pub open spec fn spec_msg_restored<R: SturdyRefRestorer>(r: &R, m: Message) -> Option<LocalCap> {
    match m {
        Message::Restore { object_id, .. } => r.restore_spec(object_id@),
        _ => None,
    }
}

/// Compares two byte strings.
pub fn bytes_eq(a: &Vec<u8>, b: &Vec<u8>) -> (r: bool)
    ensures
        r == (a@ == b@),
{
    if a.len() != b.len() {
        return false;
    }
    let mut k: usize = 0;
    while k < a.len()
        invariant
            k <= a@.len(),
            a@.len() == b@.len(),
            forall|i: int| 0 <= i < k ==> a@[i] == b@[i],
        decreases a@.len() - k,
    {
        if a[k] != b[k] {
            return false;
        }
        k = k + 1;
    }
    proof {
        assert(a@ =~= b@);
    }
    true
}

/// The capability registered under `name`, the most recent registration
/// winning.
pub open spec fn spec_lookup(s: Seq<(Vec<u8>, LocalCap)>, name: Seq<u8>) -> Option<LocalCap>
    decreases s.len(),
{
    if s.len() == 0 {
        None
    } else if s.last().0@ == name {
        Some(s.last().1)
    } else {
        spec_lookup(s.drop_last(), name)
    }
}

/// The named local capabilities one endpoint offers for bootstrap: a
/// registry from sturdy names to local capability tokens, consulted by
/// the dispatcher when the peer sends a restore.
#[derive(Debug)]
pub struct ExportedCaps {
    /// Name-to-capability registrations, oldest first.
    pub objects: Vec<(Vec<u8>, LocalCap)>,
}

impl ExportedCaps {
    pub fn new() -> (r: ExportedCaps)
        ensures
            r.objects@.len() == 0,
    {
        ExportedCaps { objects: Vec::new() }
    }

    /// Registers `cap` under `name`; a later registration under the same
    /// name wins.
    pub fn register(&mut self, name: Vec<u8>, cap: LocalCap)
        ensures
            final(self).objects@ == old(self).objects@.push((name, cap)),
            forall|n: Seq<u8>|
                spec_lookup(final(self).objects@, n) == if n == name@ {
                    Some(cap)
                } else {
                    spec_lookup(old(self).objects@, n)
                },
    {
        let ghost pre = self.objects@;
        self.objects.push((name, cap));
        proof {
            assert forall|n: Seq<u8>|
                spec_lookup(self.objects@, n) == (if n == name@ {
                    Some(cap)
                } else {
                    spec_lookup(pre, n)
                }) by {
                assert(self.objects@.drop_last() =~= pre);
            }
        }
    }
}

impl SturdyRefRestorer for ExportedCaps {
    /// A text object id restores the capability registered under that
    /// name; any other object id restores nothing.
    open spec fn restore_spec(&self, object_id: ContentV) -> Option<LocalCap> {
        match object_id {
            ContentV::Text(name) => spec_lookup(self.objects@, name),
            _ => None,
        }
    }

    fn restore(&self, object_id: &Content) -> (r: Option<LocalCap>) {
        match object_id {
            Content::Text(name) => {
                let mut k: usize = self.objects.len();
                proof {
                    assert(self.objects@.take(k as int) =~= self.objects@);
                }
                while k > 0
                    invariant
                        k <= self.objects@.len(),
                        object_id@ == ContentV::Text(name@),
                        spec_lookup(self.objects@, name@) == spec_lookup(
                            self.objects@.take(k as int),
                            name@,
                        ),
                    decreases k,
                {
                    k = k - 1;
                    let entry = &self.objects[k];
                    if bytes_eq(&entry.0, name) {
                        proof {
                            let pfx = self.objects@.take(k + 1);
                            assert(pfx.last() == self.objects@[k as int]);
                            assert(*entry == self.objects@[k as int]);
                            assert(pfx.last().0@ == name@);
                            assert(spec_lookup(pfx, name@) == Some(pfx.last().1));
                            assert(spec_lookup(self.objects@, name@) == Some(entry.1));
                        }
                        return Some(entry.1);
                    }
                    proof {
                        assert(self.objects@.take(k + 1).last() == self.objects@[k as int]);
                        assert(self.objects@.take(k + 1).drop_last() =~= self.objects@.take(
                            k as int,
                        ));
                    }
                }
                proof {
                    assert(self.objects@.take(0) =~= Seq::<(Vec<u8>, LocalCap)>::empty());
                }
                None
            },
            _ => None,
        }
    }
}

/// Builds the bootstrap request that asks the peer to restore the
/// capability registered under `name`: a `Restore` whose object id is the
/// name as text. The dispatcher assigns the question id when the request
/// goes out.
pub fn bootstrap_request(name: &Vec<u8>) -> (r: Message)
    ensures
        r@ == (MessageV::Restore { question_id: 0, object_id: ContentV::Text(name@) }),
{
    Message::Restore { question_id: 0, object_id: Content::Text(crate::wire::copy_bytes(name)) }
}

/// Installs an import for every `senderHosted` descriptor of an inbound
/// cap table.
fn register_imports(imports: &mut ImportTable<Import>, t: &Vec<CapDescriptor>)
    ensures
        final(imports)@ == spec_register_imports(old(imports)@, view_cap_table(t@)),
{
    let ghost tv = view_cap_table(t@);
    let mut k: usize = 0;
    while k < t.len()
        invariant
            k <= t@.len(),
            tv == view_cap_table(t@),
            tv.len() == t@.len(),
            imports@ == spec_register_imports(old(imports)@, tv.take(k as int)),
        decreases t@.len() - k,
    {
        proof {
            assert(tv.take(k + 1).drop_last() =~= tv.take(k as int));
            assert(tv.take(k + 1).last() == tv[k as int]);
            assert(tv[k as int] == t@[k as int]@);
        }
        match &t[k] {
            CapDescriptor::SenderHosted(id) => {
                imports.insert(*id, Import);
            },
            _ => {},
        }
        k = k + 1;
    }
    proof {
        assert(tv.take(tv.len() as int) =~= tv);
    }
}

} // verus!
