//! Client capability handles and the cap-descriptor translator.
//!
//! A handle is the local face of a capability. The four flavours share one
//! "make a call" operation and differ only in how they tag the outgoing
//! target. The translator turns each inbound wire descriptor into a handle
//! and each outbound handle into a wire descriptor, exporting local
//! capabilities on their first transmission.

use vstd::prelude::*;
use crate::wire::{
    AnswerId, CapDescriptor, CapDescriptorV, Content, ExportId, ImportId, Message, MessageTarget,
    Payload, PipelineOp, QuestionId, RpcError, copy_ops, view_cap_table,
};
use crate::table::{ExportTable, ExportTableV};

verus! {

/// An opaque token for a locally hosted capability. The embedding assigns
/// the tokens; the connection core only stores and dispatches on them.
pub type LocalCap = u64;

/// An export table entry: an owning handle to a local capability that is
/// currently visible to the peer.
#[derive(Clone, Copy, Debug, PartialEq, Eq, Structural)]
pub struct Export {
    pub cap: LocalCap,
}

/// A client capability handle.
#[derive(Debug)]
pub enum CapHandle {
    /// A peer-hosted capability, named by the peer's export id.
    Import { import_id: ImportId },
    /// A capability inside the not-yet-returned results of a remote
    /// question, reached by a transform.
    Pipeline { question_id: QuestionId, ops: Vec<PipelineOp> },
    /// A capability inside the results of a local answer that is still
    /// being serviced.
    PromisedAnswer { answer_id: AnswerId, ops: Vec<PipelineOp> },
    /// A locally hosted capability.
    Local { cap: LocalCap },
}

/// Mathematical view of [`CapHandle`].
#[verifier::ext_equal]
pub enum CapHandleV {
    Import { import_id: ImportId },
    Pipeline { question_id: QuestionId, ops: Seq<PipelineOp> },
    PromisedAnswer { answer_id: AnswerId, ops: Seq<PipelineOp> },
    Local { cap: LocalCap },
}

impl View for CapHandle {
    type V = CapHandleV;

    open spec fn view(&self) -> CapHandleV {
        match self {
            CapHandle::Import { import_id } => CapHandleV::Import { import_id: *import_id },
            CapHandle::Pipeline { question_id, ops } => CapHandleV::Pipeline {
                question_id: *question_id,
                ops: ops@,
            },
            CapHandle::PromisedAnswer { answer_id, ops } => CapHandleV::PromisedAnswer {
                answer_id: *answer_id,
                ops: ops@,
            },
            CapHandle::Local { cap } => CapHandleV::Local { cap: *cap },
        }
    }
}

/// View of a decoded cap table: one optional handle per descriptor.
pub open spec fn view_handles(h: Seq<Option<CapHandle>>) -> Seq<Option<CapHandleV>> {
    h.map_values(
        |o: Option<CapHandle>|
            match o {
                Some(x) => Some(x@),
                None => None,
            },
    )
}

impl CapHandle {
    /// Structural copy; handles are freely shareable.
    pub fn dup(&self) -> (r: CapHandle)
        ensures
            r@ == self@,
    {
        match self {
            CapHandle::Import { import_id } => CapHandle::Import { import_id: *import_id },
            CapHandle::Pipeline { question_id, ops } => CapHandle::Pipeline {
                question_id: *question_id,
                ops: copy_ops(ops),
            },
            CapHandle::PromisedAnswer { answer_id, ops } => CapHandle::PromisedAnswer {
                answer_id: *answer_id,
                ops: copy_ops(ops),
            },
            CapHandle::Local { cap } => CapHandle::Local { cap: *cap },
        }
    }

    /// The wire descriptor this handle serialises as when placed into an
    /// outbound cap table: an import round-trips the peer's own id back as
    /// `receiverHosted`, and both promised-answer flavours serialise as
    /// `receiverAnswer` with the same question id and transform. A local
    /// capability has no descriptor of its own until the translator
    /// exports it.
    pub fn describe(&self) -> (r: Option<CapDescriptor>)
        ensures
            match self@ {
                CapHandleV::Import { import_id } => r matches Some(d) && d@
                    == CapDescriptorV::ReceiverHosted(import_id),
                CapHandleV::Pipeline { question_id, ops } => r matches Some(d) && d@
                    == CapDescriptorV::ReceiverAnswer(question_id, ops),
                CapHandleV::PromisedAnswer { answer_id, ops } => r matches Some(d) && d@
                    == CapDescriptorV::ReceiverAnswer(answer_id, ops),
                CapHandleV::Local { .. } => r is None,
            },
    {
        match self {
            CapHandle::Import { import_id } => Some(CapDescriptor::ReceiverHosted(*import_id)),
            CapHandle::Pipeline { question_id, ops } => Some(
                CapDescriptor::ReceiverAnswer(*question_id, copy_ops(ops)),
            ),
            CapHandle::PromisedAnswer { answer_id, ops } => Some(
                CapDescriptor::ReceiverAnswer(*answer_id, copy_ops(ops)),
            ),
            CapHandle::Local { .. } => None,
        }
    }

    /// Builds the `Call` message for a new request on this handle. The
    /// question id is a placeholder; the dispatcher assigns the real one
    /// when the outgoing event is processed. The local flavour dispatches
    /// without the wire and is outside this core.
    pub fn new_call(&self, interface_id: u64, method_id: u16) -> (r: Message)
        requires
            !(self@ is Local),
        ensures
            r@ matches crate::wire::MessageV::Call {
                question_id,
                target,
                interface_id: i,
                method_id: m,
                params,
            } && question_id == 0 && i == interface_id && m == method_id && params.content
                is Null && params.cap_table.len() == 0 && match self@ {
                CapHandleV::Import { import_id } => target
                    == crate::wire::MessageTargetV::ImportedCap(import_id),
                CapHandleV::Pipeline { question_id: q, ops } => target
                    == crate::wire::MessageTargetV::PromisedAnswer(q, ops),
                CapHandleV::PromisedAnswer { answer_id, ops } => target
                    == crate::wire::MessageTargetV::PromisedAnswer(answer_id, ops),
                CapHandleV::Local { .. } => false,
            },
    {
        let target = match self {
            CapHandle::Import { import_id } => MessageTarget::ImportedCap(*import_id),
            CapHandle::Pipeline { question_id, ops } => MessageTarget::PromisedAnswer(
                *question_id,
                copy_ops(ops),
            ),
            CapHandle::PromisedAnswer { answer_id, ops } => MessageTarget::PromisedAnswer(
                *answer_id,
                copy_ops(ops),
            ),
            CapHandle::Local { .. } => MessageTarget::ImportedCap(0),
        };
        Message::Call {
            question_id: 0,
            target,
            interface_id,
            method_id,
            params: Payload { content: Content::Null, cap_table: Vec::new() },
        }
    }
}

/// How one inbound descriptor decodes, when it decodes at all: the peer's
/// hosted capability becomes an import handle, a promised answer becomes a
/// promised-answer handle, an absent or unimplemented descriptor becomes
/// an absent handle, and the kinds this core refuses decode to nothing.
pub open spec fn spec_decode_descriptor(d: CapDescriptorV) -> Option<Option<CapHandleV>> {
    match d {
        CapDescriptorV::NoDescriptor => Some(None),
        CapDescriptorV::SenderHosted(id) => Some(Some(CapHandleV::Import { import_id: id })),
        CapDescriptorV::SenderPromise(_) => Some(None),
        CapDescriptorV::ReceiverHosted(_) => None,
        CapDescriptorV::ReceiverAnswer(q, ops) => Some(
            Some(CapHandleV::PromisedAnswer { answer_id: q, ops }),
        ),
        CapDescriptorV::ThirdPartyHosted => None,
    }
}

/// Whether every descriptor in the table decodes.
pub open spec fn decode_table_ok(t: Seq<CapDescriptorV>) -> bool {
    forall|i: int| 0 <= i < t.len() ==> #[trigger] spec_decode_descriptor(t[i]) is Some
}

/// The decoded handle table.
pub open spec fn spec_decode_table(t: Seq<CapDescriptorV>) -> Seq<Option<CapHandleV>> {
    t.map_values(
        |d: CapDescriptorV|
            match spec_decode_descriptor(d) {
                Some(h) => h,
                None => None,
            },
    )
}

/// Translates an inbound cap table into client handles, one per
/// descriptor. Fails, fatally for the connection, exactly when some
/// descriptor is a kind this core refuses (`receiverHosted` or
/// `thirdPartyHosted` from the peer).
pub fn decode_cap_table(t: &Vec<CapDescriptor>) -> (r: Result<Vec<Option<CapHandle>>, RpcError>)
    ensures
        match r {
            Ok(hs) => decode_table_ok(view_cap_table(t@)) && view_handles(hs@)
                == spec_decode_table(view_cap_table(t@)),
            Err(e) => !decode_table_ok(view_cap_table(t@)) && e == RpcError::UnhandledDescriptor,
        },
{
    let ghost tv = view_cap_table(t@);
    let mut out: Vec<Option<CapHandle>> = Vec::new();
    let mut k: usize = 0;
    while k < t.len()
        invariant
            k <= t@.len(),
            tv == view_cap_table(t@),
            tv.len() == t@.len(),
            out@.len() == k as int,
            forall|i: int| 0 <= i < k ==> #[trigger] spec_decode_descriptor(tv[i]) is Some,
            forall|i: int|
                0 <= i < k ==> #[trigger] view_handles(out@)[i] == spec_decode_table(tv)[i],
        decreases t@.len() - k,
    {
        assert(tv[k as int] == t@[k as int]@);
        let ghost prev = out@;
        match &t[k] {
            CapDescriptor::NoDescriptor => {
                out.push(None);
            },
            CapDescriptor::SenderHosted(id) => {
                out.push(Some(CapHandle::Import { import_id: *id }));
            },
            CapDescriptor::SenderPromise(_) => {
                out.push(None);
            },
            CapDescriptor::ReceiverHosted(_) => {
                proof {
                    assert(spec_decode_descriptor(tv[k as int]) is None);
                    assert(!decode_table_ok(tv));
                }
                return Err(RpcError::UnhandledDescriptor);
            },
            CapDescriptor::ReceiverAnswer(q, ops) => {
                out.push(Some(CapHandle::PromisedAnswer { answer_id: *q, ops: copy_ops(ops) }));
            },
            CapDescriptor::ThirdPartyHosted => {
                proof {
                    assert(spec_decode_descriptor(tv[k as int]) is None);
                    assert(!decode_table_ok(tv));
                }
                return Err(RpcError::UnhandledDescriptor);
            },
        }
        proof {
            let ov = out@;
            assert forall|i: int|
                0 <= i < k + 1 implies #[trigger] view_handles(ov)[i] == spec_decode_table(tv)[
                i
            ] by {
                assert(view_handles(ov)[i] == (match ov[i] {
                    Some(x) => Some(x@),
                    None => None,
                }));
                assert(spec_decode_table(tv)[i] == (match spec_decode_descriptor(tv[i]) {
                    Some(h) => h,
                    None => None,
                }));
                if i < k {
                    assert(ov[i] == prev[i]);
                    assert(view_handles(prev)[i] == spec_decode_table(tv)[i]);
                    assert(view_handles(prev)[i] == (match prev[i] {
                        Some(x) => Some(x@),
                        None => None,
                    }));
                }
            }
        }
        k = k + 1;
    }
    proof {
        assert(view_handles(out@) =~= spec_decode_table(tv));
    }
    Ok(out)
}

/// How an outbound handle table encodes, threading the export table
/// through: absent handles stay absent, an import round-trips the peer's
/// id as `receiverHosted`, both promised-answer flavours become
/// `receiverAnswer`, and a local capability is exported at the next free
/// export id and emitted as `senderHosted`.
pub open spec fn spec_encode_table(hs: Seq<Option<CapHandleV>>, ex: ExportTableV<Export>) -> (
    Seq<CapDescriptorV>,
    ExportTableV<Export>,
)
    decreases hs.len(),
{
    if hs.len() == 0 {
        (Seq::<CapDescriptorV>::empty(), ex)
    } else {
        let (ds, ex1) = spec_encode_table(hs.drop_last(), ex);
        match hs.last() {
            None => (ds.push(CapDescriptorV::NoDescriptor), ex1),
            Some(CapHandleV::Import { import_id }) => (
                ds.push(CapDescriptorV::ReceiverHosted(import_id)),
                ex1,
            ),
            Some(CapHandleV::Pipeline { question_id, ops }) => (
                ds.push(CapDescriptorV::ReceiverAnswer(question_id, ops)),
                ex1,
            ),
            Some(CapHandleV::PromisedAnswer { answer_id, ops }) => (
                ds.push(CapDescriptorV::ReceiverAnswer(answer_id, ops)),
                ex1,
            ),
            Some(CapHandleV::Local { cap }) => (
                ds.push(CapDescriptorV::SenderHosted(ex1.next_id())),
                ex1.spec_push(Export { cap }),
            ),
        }
    }
}

/// Encoding keeps the export table well formed and grows its slots by at
/// most one per handle.
pub proof fn lemma_encode_table_wf(hs: Seq<Option<CapHandleV>>, ex: ExportTableV<Export>)
    requires
        ex.wf(),
    ensures
        spec_encode_table(hs, ex).1.wf(),
        spec_encode_table(hs, ex).1.slots.len() <= ex.slots.len() + hs.len(),
        spec_encode_table(hs, ex).0.len() == hs.len(),
    decreases hs.len(),
{
    if hs.len() == 0 {
    } else {
        lemma_encode_table_wf(hs.drop_last(), ex);
        let (ds, ex1) = spec_encode_table(hs.drop_last(), ex);
        match hs.last() {
            Some(CapHandleV::Local { cap }) => {
                lemma_spec_push_wf(ex1, Export { cap });
            },
            _ => {},
        }
    }
}

/// An allocation keeps an export-table view well formed.
pub proof fn lemma_spec_push_wf<T>(ex: ExportTableV<T>, v: T)
    requires
        ex.wf(),
    ensures
        ex.spec_push(v).wf(),
        ex.spec_push(v).slots.len() <= ex.slots.len() + 1,
{
    let post = ex.spec_push(v);
    if ex.free.len() > 0 {
        assert forall|i: int|
            0 <= i < post.free.len() implies post.slots[#[trigger] post.free[i] as int]
            is None by {
            assert(post.free[i] == ex.free[i]);
            assert(ex.free[i] > ex.free[ex.free.len() - 1]);
        }
    } else {
        assert forall|i: int|
            0 <= i < post.free.len() implies post.slots[#[trigger] post.free[i] as int]
            is None by {
            assert(post.slots[post.free[i] as int] == ex.slots[ex.free[i] as int]);
        }
    }
}

/// Translates an outbound handle table into wire descriptors, parallel to
/// the handle table, exporting each local capability at a fresh export id.
pub fn encode_cap_table(exports: &mut ExportTable<Export>, handles: &Vec<Option<CapHandle>>) -> (r:
    Vec<CapDescriptor>)
    requires
        old(exports)@.wf(),
        old(exports)@.slots.len() + handles@.len() < 0xffff_ffff,
    ensures
        final(exports)@.wf(),
        view_cap_table(r@) == spec_encode_table(view_handles(handles@), old(exports)@).0,
        final(exports)@ == spec_encode_table(view_handles(handles@), old(exports)@).1,
{
    let ghost hv = view_handles(handles@);
    let ghost pre = exports@;
    let mut out: Vec<CapDescriptor> = Vec::new();
    let mut k: usize = 0;
    while k < handles.len()
        invariant
            k <= handles@.len(),
            hv == view_handles(handles@),
            hv.len() == handles@.len(),
            pre.wf(),
            pre.slots.len() + handles@.len() < 0xffff_ffff,
            out@.len() == k as int,
            view_cap_table(out@) == spec_encode_table(hv.take(k as int), pre).0,
            exports@ == spec_encode_table(hv.take(k as int), pre).1,
        decreases handles@.len() - k,
    {
        proof {
            lemma_encode_table_wf(hv.take(k as int), pre);
            assert(hv.take(k + 1).drop_last() =~= hv.take(k as int));
            assert(hv.take(k + 1).last() == hv[k as int]);
            assert(hv[k as int] == view_handles(handles@)[k as int]);
        }
        match &handles[k] {
            None => {
                out.push(CapDescriptor::NoDescriptor);
            },
            Some(CapHandle::Import { import_id }) => {
                out.push(CapDescriptor::ReceiverHosted(*import_id));
            },
            Some(CapHandle::Pipeline { question_id, ops }) => {
                out.push(CapDescriptor::ReceiverAnswer(*question_id, copy_ops(ops)));
            },
            Some(CapHandle::PromisedAnswer { answer_id, ops }) => {
                out.push(CapDescriptor::ReceiverAnswer(*answer_id, copy_ops(ops)));
            },
            Some(CapHandle::Local { cap }) => {
                let id = exports.push(Export { cap: *cap });
                out.push(CapDescriptor::SenderHosted(id));
            },
        }
        proof {
            assert(view_cap_table(out@) =~= spec_encode_table(hv.take(k + 1), pre).0);
        }
        k = k + 1;
    }
    proof {
        assert(hv.take(hv.len() as int) =~= hv);
        lemma_encode_table_wf(hv, pre);
    }
    out
}

/// A pipeline over a remote question: every transform yields a pipeline
/// handle bound to the same question.
#[derive(Clone, Copy, Debug, PartialEq, Eq, Structural)]
pub struct RpcPipeline {
    pub question_id: QuestionId,
}

impl RpcPipeline {
    /// An independent handle bound to the same question.
    pub fn copy(&self) -> (r: RpcPipeline)
        ensures
            r == *self,
    {
        RpcPipeline { question_id: self.question_id }
    }

    /// The pipelined capability reached by `ops` inside this question's
    /// future results.
    pub fn get_pipelined_cap(&self, ops: Vec<PipelineOp>) -> (r: CapHandle)
        ensures
            r@ == (CapHandleV::Pipeline { question_id: self.question_id, ops: ops@ }),
    {
        CapHandle::Pipeline { question_id: self.question_id, ops }
    }
}

/// The pipeline of a locally deferred request: sub-pipelining is not
/// supported by this core, so it never yields a capability.
#[derive(Clone, Copy, Debug, PartialEq, Eq, Structural)]
pub struct PromisedAnswerRpcPipeline;

impl PromisedAnswerRpcPipeline {
    /// An independent copy.
    pub fn copy(&self) -> (r: PromisedAnswerRpcPipeline)
        ensures
            r == *self,
    {
        PromisedAnswerRpcPipeline
    }

    /// Sub-pipelining on a locally deferred request is unsupported.
    pub fn get_pipelined_cap(&self, _ops: &Vec<PipelineOp>) -> (r: Option<CapHandle>)
        ensures
            r is None,
    {
        None
    }
}

/// Structural copy of a handle table.
pub fn dup_handles(h: &Vec<Option<CapHandle>>) -> (r: Vec<Option<CapHandle>>)
    ensures
        view_handles(r@) == view_handles(h@),
{
    let mut out: Vec<Option<CapHandle>> = Vec::new();
    let mut k: usize = 0;
    while k < h.len()
        invariant
            k <= h@.len(),
            out@.len() == k as int,
            forall|i: int|
                0 <= i < k ==> #[trigger] view_handles(out@)[i] == view_handles(h@)[i],
        decreases h@.len() - k,
    {
        let ghost prev = out@;
        let e = match &h[k] {
            Some(x) => Some(x.dup()),
            None => None,
        };
        out.push(e);
        proof {
            assert forall|i: int|
                0 <= i < k + 1 implies #[trigger] view_handles(out@)[i] == view_handles(h@)[
                i
            ] by {
                assert(view_handles(out@)[i] == (match out@[i] {
                    Some(x) => Some(x@),
                    None => None,
                }));
                assert(view_handles(h@)[i] == (match h@[i] {
                    Some(x) => Some(x@),
                    None => None,
                }));
                if i < k {
                    assert(out@[i] == prev[i]);
                    assert(view_handles(prev)[i] == (match prev[i] {
                        Some(x) => Some(x@),
                        None => None,
                    }));
                }
            }
        }
        k = k + 1;
    }
    proof {
        assert(view_handles(out@) =~= view_handles(h@));
    }
    out
}

} // verus!
