//! The dispatcher's event and action vocabulary.
//!
//! Every task of a connection talks to the dispatcher solely through
//! [`RpcEvent`] values; the dispatcher answers with [`Action`] values that
//! the embedding performs: writing a message, firing a one-shot sink,
//! or invoking a local capability.

use vstd::prelude::*;
use crate::wire::{AnswerId, Message, MessageV, PipelineOp, QuestionId, ExportId};
use crate::handles::{CapHandle, CapHandleV, LocalCap, view_handles};
use crate::context::{DispatchContext, DispatchContextV, RpcResponse, RpcResponseV};

verus! {

/// A locally initiated call or restore on its way out, together with the
/// sinks its issuer awaits: the response sink receives the decoded
/// response, the question sink receives the allocated question id.
#[derive(Debug)]
pub struct OutgoingMessage {
    /// The message to send; its question id is assigned by the dispatcher.
    pub message: Message,
    /// The handles to encode into the message's cap table.
    pub handles: Vec<Option<CapHandle>>,
    /// One-shot sink for the response.
    pub answer_sink: u64,
    /// One-shot sink for the allocated question id.
    pub question_sink: u64,
}

/// Mathematical view of [`OutgoingMessage`].
#[verifier::ext_equal]
pub struct OutgoingMessageV {
    pub message: MessageV,
    pub handles: Seq<Option<CapHandleV>>,
    pub answer_sink: u64,
    pub question_sink: u64,
}

impl View for OutgoingMessage {
    type V = OutgoingMessageV;

    open spec fn view(&self) -> OutgoingMessageV {
        OutgoingMessageV {
            message: self.message@,
            handles: view_handles(self.handles@),
            answer_sink: self.answer_sink,
            question_sink: self.question_sink,
        }
    }
}

impl OutgoingMessage {
    pub fn new(message: Message, handles: Vec<Option<CapHandle>>, answer_sink: u64,
        question_sink: u64) -> (r: OutgoingMessage)
        ensures
            r@.message == message@,
            r@.handles == view_handles(handles@),
            r@.answer_sink == answer_sink,
            r@.question_sink == question_sink,
    {
        OutgoingMessage { message, handles, answer_sink, question_sink }
    }
}

/// One event consumed by the dispatcher.
#[derive(Debug)]
pub enum RpcEvent {
    /// A decoded inbound message from the reader.
    IncomingMessage(Message),
    /// A locally initiated call or restore needing a fresh question id.
    Outgoing(OutgoingMessage),
    /// A pipelined call whose target is a local answer not yet sent: no
    /// wire traffic; it runs locally once the answer's results exist.
    OutgoingDeferred(OutgoingMessage, AnswerId, Vec<PipelineOp>),
    /// The writer confirms a return has been flushed.
    AnswerSent { message: Message, handles: Vec<Option<CapHandle>> },
    /// Request to export a locally hosted capability.
    NewLocalServer { cap: LocalCap, id_sink: u64 },
    /// A completed local call ready to be transmitted as a return.
    ReturnEvent { message: Message, handles: Vec<Option<CapHandle>> },
    /// The connection is closed.
    ShutdownEvent,
}

/// One action the dispatcher asks the embedding to perform.
#[derive(Debug)]
pub enum Action {
    /// Hand the message to the writer; the handles stay with it so the
    /// writer's confirmation can carry them back.
    WriteMessage { message: Message, handles: Vec<Option<CapHandle>> },
    /// Fire the response sink of a question with the decoded response.
    DeliverResponse { sink: u64, response: RpcResponse },
    /// Fire the question-id sink of an outgoing request.
    PublishQuestionId { sink: u64, id: QuestionId },
    /// Fire the export-id sink of a new local server request.
    PublishExportId { sink: u64, id: ExportId },
    /// Invoke a local capability with a call context.
    DispatchCall {
        cap: LocalCap,
        interface_id: u64,
        method_id: u16,
        context: DispatchContext,
    },
    /// A message kind this core parses and ignores; the embedding may log
    /// it.
    Unhandled { message: Message },
}

/// Mathematical view of [`Action`].
#[verifier::ext_equal]
pub enum ActionV {
    WriteMessage { message: MessageV, handles: Seq<Option<CapHandleV>> },
    DeliverResponse { sink: u64, response: RpcResponseV },
    PublishQuestionId { sink: u64, id: QuestionId },
    PublishExportId { sink: u64, id: ExportId },
    DispatchCall {
        cap: LocalCap,
        interface_id: u64,
        method_id: u16,
        context: DispatchContextV,
    },
    Unhandled { message: MessageV },
}

impl View for Action {
    type V = ActionV;

    open spec fn view(&self) -> ActionV {
        match self {
            Action::WriteMessage { message, handles } => ActionV::WriteMessage {
                message: message@,
                handles: view_handles(handles@),
            },
            Action::DeliverResponse { sink, response } => ActionV::DeliverResponse {
                sink: *sink,
                response: response@,
            },
            Action::PublishQuestionId { sink, id } => ActionV::PublishQuestionId {
                sink: *sink,
                id: *id,
            },
            Action::PublishExportId { sink, id } => ActionV::PublishExportId {
                sink: *sink,
                id: *id,
            },
            Action::DispatchCall { cap, interface_id, method_id, context } => {
                ActionV::DispatchCall {
                    cap: *cap,
                    interface_id: *interface_id,
                    method_id: *method_id,
                    context: context@,
                }
            },
            Action::Unhandled { message } => ActionV::Unhandled { message: message@ },
        }
    }
}

/// View of an action list.
pub open spec fn view_actions(s: Seq<Action>) -> Seq<ActionV> {
    s.map_values(|a: Action| a@)
}

} // verus!
