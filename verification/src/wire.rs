//! The wire message model: the decoded form of every message kind the
//! protocol carries, together with mathematical views of each type.

use vstd::prelude::*;

verus! {

broadcast use vstd::std_specs::vec::group_vec_axioms;

/// Key into the local question table; mirrored on the peer as an answer id.
pub type QuestionId = u32;
/// Key into the local answer table; mirrored on the peer as a question id.
pub type AnswerId = u32;
/// Key into the local export table; mirrored on the peer as an import id.
pub type ExportId = u32;
/// Key into the local import table; mirrored on the peer as an export id.
pub type ImportId = u32;

/// One step of a promised-answer transform: it either stays at the current
/// value or descends into one of its pointer fields.
#[derive(Clone, Copy, Debug, PartialEq, Eq, Structural)]
pub enum PipelineOp {
    Noop,
    GetPointerField(u16),
}

/// The decoded content of a payload: a pointer tree. A capability stored in
/// content is an index into the cap table that travels beside it.
#[derive(Debug)]
pub enum Content {
    Null,
    Text(Vec<u8>),
    Capability(u32),
    Pointers(Vec<Content>),
}

/// Mathematical view of [`Content`].
#[verifier::ext_equal]
pub enum ContentV {
    Null,
    Text(Seq<u8>),
    Capability(u32),
    Pointers(Seq<ContentV>),
}

pub open spec fn view_content(c: Content) -> ContentV
    decreases c,
{
    match c {
        Content::Null => ContentV::Null,
        Content::Text(t) => ContentV::Text(t@),
        Content::Capability(i) => ContentV::Capability(i),
        Content::Pointers(v) => ContentV::Pointers(view_content_vec(v)),
    }
}

/// View of a vector of content nodes, element by element.
pub open spec fn view_content_vec(v: Vec<Content>) -> Seq<ContentV>
    decreases v,
{
    Seq::new(
        v.len() as nat,
        |i: int|
            if 0 <= i < v.len() {
                view_content(v[i])
            } else {
                ContentV::Null
            },
    )
}

impl View for Content {
    type V = ContentV;

    open spec fn view(&self) -> ContentV {
        view_content(*self)
    }
}

impl Content {
    /// Structural copy; `Clone` is derived only for unverified callers.
    pub fn dup(&self) -> (r: Content)
        ensures
            r@ == self@,
        decreases *self,
    {
        match self {
            Content::Null => Content::Null,
            Content::Text(t) => Content::Text(copy_bytes(t)),
            Content::Capability(i) => Content::Capability(*i),
            Content::Pointers(v) => {
                let out = dup_content_vec(v);
                let r = Content::Pointers(out);
                proof {
                    let sv = (Content::Pointers(*v))@;
                    let rv = r@;
                    match (sv, rv) {
                        (ContentV::Pointers(s), ContentV::Pointers(t)) => {
                            assert forall|j: int| 0 <= j < s.len() implies s[j] == t[j] by {
                                assert(out@[j]@ == v@[j]@);
                            }
                            assert(s =~= t);
                        },
                        _ => {},
                    }
                }
                r
            },
        }
    }
}

/// Copies a vector of content nodes, element by element.
fn dup_content_vec(v: &Vec<Content>) -> (out: Vec<Content>)
    ensures
        out@.len() == v@.len(),
        forall|j: int| 0 <= j < v@.len() ==> #[trigger] out@[j]@ == v@[j]@,
    decreases *v,
{
    let mut out: Vec<Content> = Vec::new();
    let mut k: usize = 0;
    while k < v.len()
        invariant
            k <= v@.len(),
            out@.len() == k as int,
            forall|j: int| 0 <= j < k ==> #[trigger] out@[j]@ == v@[j]@,
        decreases v@.len() - k,
    {
        proof {
            vstd::std_specs::vec::axiom_vec_index_decreases(*v, k as int);
        }
        let e = v[k].dup();
        out.push(e);
        k = k + 1;
    }
    out
}

/// Copies a byte vector; the result carries the same bytes.
pub fn copy_bytes(v: &Vec<u8>) -> (r: Vec<u8>)
    ensures
        r@ == v@,
{
    let mut out: Vec<u8> = Vec::new();
    let mut k: usize = 0;
    while k < v.len()
        invariant
            k <= v@.len(),
            out@ == v@.subrange(0, k as int),
        decreases v@.len() - k,
    {
        out.push(v[k]);
        assert(out@ =~= v@.subrange(0, k + 1 as int));
        k = k + 1;
    }
    assert(out@ =~= v@);
    out
}

/// Copies a transform; the result carries the same operations.
pub fn copy_ops(v: &Vec<PipelineOp>) -> (r: Vec<PipelineOp>)
    ensures
        r@ == v@,
{
    let mut out: Vec<PipelineOp> = Vec::new();
    let mut k: usize = 0;
    while k < v.len()
        invariant
            k <= v@.len(),
            out@ == v@.subrange(0, k as int),
        decreases v@.len() - k,
    {
        out.push(v[k]);
        assert(out@ =~= v@.subrange(0, k + 1 as int));
        k = k + 1;
    }
    assert(out@ =~= v@);
    out
}

/// A wire capability descriptor: the serialised form of one cap-table entry.
#[derive(Clone, Debug, PartialEq, Eq)]
pub enum CapDescriptor {
    NoDescriptor,
    SenderHosted(ExportId),
    SenderPromise(ExportId),
    ReceiverHosted(ImportId),
    ReceiverAnswer(QuestionId, Vec<PipelineOp>),
    ThirdPartyHosted,
}

/// Mathematical view of [`CapDescriptor`].
#[verifier::ext_equal]
pub enum CapDescriptorV {
    NoDescriptor,
    SenderHosted(ExportId),
    SenderPromise(ExportId),
    ReceiverHosted(ImportId),
    ReceiverAnswer(QuestionId, Seq<PipelineOp>),
    ThirdPartyHosted,
}

impl View for CapDescriptor {
    type V = CapDescriptorV;

    open spec fn view(&self) -> CapDescriptorV {
        match *self {
            CapDescriptor::NoDescriptor => CapDescriptorV::NoDescriptor,
            CapDescriptor::SenderHosted(id) => CapDescriptorV::SenderHosted(id),
            CapDescriptor::SenderPromise(id) => CapDescriptorV::SenderPromise(id),
            CapDescriptor::ReceiverHosted(id) => CapDescriptorV::ReceiverHosted(id),
            CapDescriptor::ReceiverAnswer(q, ops) => CapDescriptorV::ReceiverAnswer(q, ops@),
            CapDescriptor::ThirdPartyHosted => CapDescriptorV::ThirdPartyHosted,
        }
    }
}

/// View of a whole cap table.
pub open spec fn view_cap_table(t: Seq<CapDescriptor>) -> Seq<CapDescriptorV> {
    t.map_values(|d: CapDescriptor| d@)
}

/// A payload: content plus the cap table its capability pointers index into.
#[derive(Debug)]
pub struct Payload {
    pub content: Content,
    pub cap_table: Vec<CapDescriptor>,
}

/// Mathematical view of [`Payload`].
#[verifier::ext_equal]
pub struct PayloadV {
    pub content: ContentV,
    pub cap_table: Seq<CapDescriptorV>,
}

impl View for Payload {
    type V = PayloadV;

    open spec fn view(&self) -> PayloadV {
        PayloadV { content: self.content@, cap_table: view_cap_table(self.cap_table@) }
    }
}

impl Payload {
    pub fn new(content: Content, cap_table: Vec<CapDescriptor>) -> (r: Payload)
        ensures
            r.content@ == content@,
            r.cap_table@ == cap_table@,
    {
        Payload { content, cap_table }
    }
}

/// The target of a call: a capability the peer exported, or a promised
/// answer the peer is still servicing.
#[derive(Clone, Debug, PartialEq, Eq)]
pub enum MessageTarget {
    ImportedCap(ExportId),
    PromisedAnswer(QuestionId, Vec<PipelineOp>),
}

/// Mathematical view of [`MessageTarget`].
#[verifier::ext_equal]
pub enum MessageTargetV {
    ImportedCap(ExportId),
    PromisedAnswer(QuestionId, Seq<PipelineOp>),
}

impl View for MessageTarget {
    type V = MessageTargetV;

    open spec fn view(&self) -> MessageTargetV {
        match *self {
            MessageTarget::ImportedCap(id) => MessageTargetV::ImportedCap(id),
            MessageTarget::PromisedAnswer(q, ops) => MessageTargetV::PromisedAnswer(q, ops@),
        }
    }
}

/// The union carried by a `Return` message.
#[derive(Debug)]
pub enum ReturnBody {
    Results(Payload),
    Exception(String),
    Canceled,
    ResultsSentElsewhere,
    TakeFromOtherQuestion(QuestionId),
    AcceptFromThirdParty,
}

/// Mathematical view of [`ReturnBody`].
#[verifier::ext_equal]
pub enum ReturnBodyV {
    Results(PayloadV),
    Exception(Seq<char>),
    Canceled,
    ResultsSentElsewhere,
    TakeFromOtherQuestion(QuestionId),
    AcceptFromThirdParty,
}

impl View for ReturnBody {
    type V = ReturnBodyV;

    open spec fn view(&self) -> ReturnBodyV {
        match self {
            ReturnBody::Results(p) => ReturnBodyV::Results(p@),
            ReturnBody::Exception(reason) => ReturnBodyV::Exception(reason@),
            ReturnBody::Canceled => ReturnBodyV::Canceled,
            ReturnBody::ResultsSentElsewhere => ReturnBodyV::ResultsSentElsewhere,
            ReturnBody::TakeFromOtherQuestion(q) => ReturnBodyV::TakeFromOtherQuestion(*q),
            ReturnBody::AcceptFromThirdParty => ReturnBodyV::AcceptFromThirdParty,
        }
    }
}

/// One decoded wire message.
#[derive(Debug)]
pub enum Message {
    Call {
        question_id: QuestionId,
        target: MessageTarget,
        interface_id: u64,
        method_id: u16,
        params: Payload,
    },
    Return { answer_id: AnswerId, body: ReturnBody },
    Restore { question_id: QuestionId, object_id: Content },
    Release { id: ExportId, reference_count: u32 },
    Finish,
    Resolve,
    Disembargo,
    Save,
    Delete,
    Provide,
    Accept,
    Join,
    Unimplemented,
    Abort { reason: String },
}

/// Mathematical view of [`Message`].
#[verifier::ext_equal]
pub enum MessageV {
    Call {
        question_id: QuestionId,
        target: MessageTargetV,
        interface_id: u64,
        method_id: u16,
        params: PayloadV,
    },
    Return { answer_id: AnswerId, body: ReturnBodyV },
    Restore { question_id: QuestionId, object_id: ContentV },
    Release { id: ExportId, reference_count: u32 },
    Finish,
    Resolve,
    Disembargo,
    Save,
    Delete,
    Provide,
    Accept,
    Join,
    Unimplemented,
    Abort { reason: Seq<char> },
}

impl View for Message {
    type V = MessageV;

    open spec fn view(&self) -> MessageV {
        match self {
            Message::Call { question_id, target, interface_id, method_id, params } => {
                MessageV::Call {
                    question_id: *question_id,
                    target: target@,
                    interface_id: *interface_id,
                    method_id: *method_id,
                    params: params@,
                }
            },
            Message::Return { answer_id, body } => {
                MessageV::Return { answer_id: *answer_id, body: body@ }
            },
            Message::Restore { question_id, object_id } => {
                MessageV::Restore { question_id: *question_id, object_id: object_id@ }
            },
            Message::Release { id, reference_count } => {
                MessageV::Release { id: *id, reference_count: *reference_count }
            },
            Message::Finish => MessageV::Finish,
            Message::Resolve => MessageV::Resolve,
            Message::Disembargo => MessageV::Disembargo,
            Message::Save => MessageV::Save,
            Message::Delete => MessageV::Delete,
            Message::Provide => MessageV::Provide,
            Message::Accept => MessageV::Accept,
            Message::Join => MessageV::Join,
            Message::Unimplemented => MessageV::Unimplemented,
            Message::Abort { reason } => MessageV::Abort { reason: reason@ },
        }
    }
}

/// Why an inbound message or event was fatal to the connection: protocol
/// violations tear the whole connection down.
#[derive(Clone, Copy, Debug, PartialEq, Eq, Structural)]
pub enum RpcError {
    /// A `Return.answerId` names no live local question.
    UnknownQuestion(u32),
    /// A call target or release names no live local export.
    UnknownExport(u32),
    /// A promised-answer target or a deferred call names no local answer.
    UnknownAnswer(u32),
    /// A `Release` whose reference count is not the single one supported.
    BadReferenceCount(u32),
    /// An incoming cap table carries a descriptor kind this core refuses.
    UnhandledDescriptor,
    /// The restorer yielded no capability for a `Restore` object id.
    RestoreFailed,
    /// A `Return` was confirmed for an answer that had already been sent.
    AnswerAlreadySent(u32),
    /// An outgoing event carried a message kind it cannot carry.
    UnsupportedOutgoing,
}

/// Walks a transform over content: `Noop` stays put, `GetPointerField(i)`
/// descends into pointer field `i`. Yields the content reached, or nothing
/// when a step leaves the pointer tree.
pub open spec fn spec_walk(c: ContentV, ops: Seq<PipelineOp>) -> Option<ContentV>
    decreases ops.len(),
{
    if ops.len() == 0 {
        Some(c)
    } else {
        match ops[0] {
            PipelineOp::Noop => spec_walk(c, ops.skip(1)),
            PipelineOp::GetPointerField(i) => match c {
                ContentV::Pointers(fields) => {
                    if (i as int) < fields.len() {
                        spec_walk(fields[i as int], ops.skip(1))
                    } else {
                        None
                    }
                },
                _ => None,
            },
        }
    }
}

/// The cap-table index reached by walking `ops` over `c`, when the walk
/// lands on a capability pointer.
pub open spec fn spec_pipelined_cap_index(c: ContentV, ops: Seq<PipelineOp>) -> Option<u32> {
    match spec_walk(c, ops) {
        Some(ContentV::Capability(idx)) => Some(idx),
        _ => None,
    }
}

/// Walks a transform over content and returns the index of the capability
/// it reaches in the accompanying cap table, if any.
pub fn get_pipelined_cap_index(content: &Content, ops: &Vec<PipelineOp>) -> (r: Option<u32>)
    ensures
        r == spec_pipelined_cap_index(content@, ops@),
{
    let mut cur: &Content = content;
    let mut k: usize = 0;
    proof {
        assert(ops@.skip(0) =~= ops@);
    }
    while k < ops.len()
        invariant
            k <= ops@.len(),
            spec_walk(content@, ops@) == spec_walk(cur@, ops@.skip(k as int)),
        decreases ops@.len() - k,
    {
        let ghost pre = cur@;
        let ghost rest = ops@.skip(k as int);
        assert(rest[0] == ops@[k as int]);
        match ops[k] {
            PipelineOp::Noop => {
                proof {
                    assert(rest.skip(1) =~= ops@.skip(k + 1 as int));
                }
            },
            PipelineOp::GetPointerField(i) => {
                match cur {
                    Content::Pointers(fields) => {
                        if (i as usize) < fields.len() {
                            cur = &fields[i as usize];
                            proof {
                                assert(pre matches ContentV::Pointers(fs) && cur@ == fs[
                                    i as int
                                ]);
                                assert(rest.skip(1) =~= ops@.skip(k + 1 as int));
                            }
                        } else {
                            proof {
                                assert(spec_walk(pre, rest) is None);
                            }
                            return None;
                        }
                    },
                    _ => {
                        proof {
                            assert(spec_walk(pre, rest) is None);
                        }
                        return None;
                    },
                }
            },
        }
        k = k + 1;
    }
    proof {
        assert(ops@.skip(ops@.len() as int) =~= Seq::<PipelineOp>::empty());
    }
    match cur {
        Content::Capability(idx) => Some(*idx),
        _ => None,
    }
}


impl Payload {
    /// Structural copy.
    pub fn dup(&self) -> (r: Payload)
        ensures
            r@ == self@,
    {
        let mut table: Vec<CapDescriptor> = Vec::new();
        let mut k: usize = 0;
        while k < self.cap_table.len()
            invariant
                k <= self.cap_table@.len(),
                table@.len() == k as int,
                forall|i: int| 0 <= i < k ==> #[trigger] table@[i]@ == self.cap_table@[i]@,
            decreases self.cap_table@.len() - k,
        {
            let d = match &self.cap_table[k] {
                CapDescriptor::NoDescriptor => CapDescriptor::NoDescriptor,
                CapDescriptor::SenderHosted(id) => CapDescriptor::SenderHosted(*id),
                CapDescriptor::SenderPromise(id) => CapDescriptor::SenderPromise(*id),
                CapDescriptor::ReceiverHosted(id) => CapDescriptor::ReceiverHosted(*id),
                CapDescriptor::ReceiverAnswer(q, ops) => CapDescriptor::ReceiverAnswer(
                    *q,
                    copy_ops(ops),
                ),
                CapDescriptor::ThirdPartyHosted => CapDescriptor::ThirdPartyHosted,
            };
            table.push(d);
            k = k + 1;
        }
        let r = Payload { content: self.content.dup(), cap_table: table };
        proof {
            assert(view_cap_table(r.cap_table@) =~= view_cap_table(self.cap_table@));
        }
        r
    }
}

impl ReturnBody {
    /// Structural copy.
    pub fn dup(&self) -> (r: ReturnBody)
        ensures
            r@ == self@,
    {
        match self {
            ReturnBody::Results(p) => ReturnBody::Results(p.dup()),
            ReturnBody::Exception(reason) => ReturnBody::Exception(reason.clone()),
            ReturnBody::Canceled => ReturnBody::Canceled,
            ReturnBody::ResultsSentElsewhere => ReturnBody::ResultsSentElsewhere,
            ReturnBody::TakeFromOtherQuestion(q) => ReturnBody::TakeFromOtherQuestion(*q),
            ReturnBody::AcceptFromThirdParty => ReturnBody::AcceptFromThirdParty,
        }
    }
}

impl MessageTarget {
    /// Structural copy.
    pub fn dup(&self) -> (r: MessageTarget)
        ensures
            r@ == self@,
    {
        match self {
            MessageTarget::ImportedCap(id) => MessageTarget::ImportedCap(*id),
            MessageTarget::PromisedAnswer(q, ops) => MessageTarget::PromisedAnswer(
                *q,
                copy_ops(ops),
            ),
        }
    }
}

impl Message {
    /// Structural copy.
    pub fn dup(&self) -> (r: Message)
        ensures
            r@ == self@,
    {
        match self {
            Message::Call { question_id, target, interface_id, method_id, params } => {
                Message::Call {
                    question_id: *question_id,
                    target: target.dup(),
                    interface_id: *interface_id,
                    method_id: *method_id,
                    params: params.dup(),
                }
            },
            Message::Return { answer_id, body } => Message::Return {
                answer_id: *answer_id,
                body: body.dup(),
            },
            Message::Restore { question_id, object_id } => Message::Restore {
                question_id: *question_id,
                object_id: object_id.dup(),
            },
            Message::Release { id, reference_count } => Message::Release {
                id: *id,
                reference_count: *reference_count,
            },
            Message::Finish => Message::Finish,
            Message::Resolve => Message::Resolve,
            Message::Disembargo => Message::Disembargo,
            Message::Save => Message::Save,
            Message::Delete => Message::Delete,
            Message::Provide => Message::Provide,
            Message::Accept => Message::Accept,
            Message::Join => Message::Join,
            Message::Unimplemented => Message::Unimplemented,
            Message::Abort { reason } => Message::Abort { reason: reason.clone() },
        }
    }
}

} // verus!
