//! Unit tests: descriptor translation, pipeline walks, the restorer
//! registry, deferred calls, and every fatal error of the dispatcher.

use caprpc::context::DispatchContext;
use caprpc::dispatch::{bootstrap_request, ExportedCaps, RpcConnectionState, SturdyRefRestorer};
use caprpc::events::{Action, OutgoingMessage, RpcEvent};
use caprpc::handles::{
    decode_cap_table, CapHandle, Export, PromisedAnswerRpcPipeline, RpcPipeline,
};
use caprpc::table::{ExportTable, ImportTable};
use caprpc::wire::{
    get_pipelined_cap_index, CapDescriptor, Content, Message, Payload, PipelineOp, ReturnBody,
    RpcError,
};

#[test]
fn descriptors_decode_to_handles() {
    let table = vec![
        CapDescriptor::SenderHosted(2),
        CapDescriptor::ReceiverAnswer(4, vec![PipelineOp::GetPointerField(1)]),
        CapDescriptor::NoDescriptor,
        CapDescriptor::SenderPromise(9),
    ];
    let handles = decode_cap_table(&table).unwrap();
    assert!(matches!(handles[0], Some(CapHandle::Import { import_id: 2 })));
    match &handles[1] {
        Some(CapHandle::PromisedAnswer { answer_id, ops }) => {
            assert_eq!(*answer_id, 4);
            assert_eq!(ops, &vec![PipelineOp::GetPointerField(1)]);
        }
        other => panic!("expected promised answer, got {:?}", other),
    }
    assert!(handles[2].is_none());
    assert!(handles[3].is_none());
}

#[test]
fn refused_descriptors_fail_decoding() {
    let table = vec![CapDescriptor::ReceiverHosted(1)];
    assert_eq!(decode_cap_table(&table).unwrap_err(), RpcError::UnhandledDescriptor);
    let table = vec![CapDescriptor::NoDescriptor, CapDescriptor::ThirdPartyHosted];
    assert_eq!(decode_cap_table(&table).unwrap_err(), RpcError::UnhandledDescriptor);
}

#[test]
fn describe_round_trips_ids_and_ops() {
    let import = CapHandle::Import { import_id: 6 };
    assert!(matches!(
        import.describe(),
        Some(CapDescriptor::ReceiverHosted(6))
    ));

    let ops = vec![PipelineOp::Noop, PipelineOp::GetPointerField(2)];
    let pipeline = CapHandle::Pipeline { question_id: 3, ops: ops.clone() };
    match pipeline.describe() {
        Some(CapDescriptor::ReceiverAnswer(3, got)) => assert_eq!(got, ops),
        other => panic!("expected receiver answer, got {:?}", other),
    }

    let promised = CapHandle::PromisedAnswer { answer_id: 5, ops: ops.clone() };
    match promised.describe() {
        Some(CapDescriptor::ReceiverAnswer(5, got)) => assert_eq!(got, ops),
        other => panic!("expected receiver answer, got {:?}", other),
    }

    assert!(CapHandle::Local { cap: 1 }.describe().is_none());
}

#[test]
fn pipeline_walk_reaches_nested_capability() {
    let content = Content::Pointers(vec![
        Content::Text(b"x".to_vec()),
        Content::Pointers(vec![Content::Capability(4)]),
    ]);
    let ops = vec![
        PipelineOp::Noop,
        PipelineOp::GetPointerField(1),
        PipelineOp::GetPointerField(0),
    ];
    assert_eq!(get_pipelined_cap_index(&content, &ops), Some(4));

    // A step out of the tree reaches nothing.
    let bad = vec![PipelineOp::GetPointerField(7)];
    assert_eq!(get_pipelined_cap_index(&content, &bad), None);

    // The empty transform reaches a capability only if the root is one.
    assert_eq!(get_pipelined_cap_index(&content, &Vec::new()), None);
    assert_eq!(
        get_pipelined_cap_index(&Content::Capability(2), &Vec::new()),
        Some(2)
    );
}

#[test]
fn pipeline_handles_copy_and_transform() {
    let p = RpcPipeline { question_id: 8 };
    assert_eq!(p.copy(), p);
    let cap = p.get_pipelined_cap(vec![PipelineOp::Noop]);
    match cap {
        CapHandle::Pipeline { question_id, ops } => {
            assert_eq!(question_id, 8);
            assert_eq!(ops, vec![PipelineOp::Noop]);
        }
        other => panic!("expected pipeline handle, got {:?}", other),
    }
    let lp = PromisedAnswerRpcPipeline;
    assert_eq!(lp.copy(), lp);
    assert!(lp.get_pipelined_cap(&vec![PipelineOp::Noop]).is_none());
}

#[test]
fn restorer_registry_latest_registration_wins() {
    let mut caps = ExportedCaps::new();
    assert_eq!(caps.restore(&Content::Text(b"a".to_vec())), None);
    caps.register(b"a".to_vec(), 1);
    caps.register(b"b".to_vec(), 2);
    assert_eq!(caps.restore(&Content::Text(b"a".to_vec())), Some(1));
    assert_eq!(caps.restore(&Content::Text(b"b".to_vec())), Some(2));
    caps.register(b"a".to_vec(), 3);
    assert_eq!(caps.restore(&Content::Text(b"a".to_vec())), Some(3));
    // Only text object ids restore anything.
    assert_eq!(caps.restore(&Content::Null), None);
    assert_eq!(caps.restore(&Content::Capability(0)), None);
}

#[test]
fn deferred_call_buffers_until_sent() {
    let nullr = ();
    let mut caps = ExportedCaps::new();
    caps.register(b"root".to_vec(), 7);
    let mut server = RpcConnectionState::new();

    // An inbound restore synthesises answer 0.
    let acts = server
        .handle_event(
            RpcEvent::IncomingMessage(bootstrap_request(&b"root".to_vec())),
            &caps,
        )
        .unwrap();
    let (ret, handles) = {
        let mut found = None;
        for a in acts {
            if let Action::WriteMessage { message, handles } = a {
                found = Some((message, handles));
            }
        }
        found.unwrap()
    };

    // A locally deferred pipelined call against the pending answer 0
    // produces no wire traffic and no action yet.
    let call = Message::Call {
        question_id: 0,
        target: caprpc::wire::MessageTarget::ImportedCap(0),
        interface_id: 77,
        method_id: 9,
        params: Payload { content: Content::Null, cap_table: Vec::new() },
    };
    let ev = RpcEvent::OutgoingDeferred(
        OutgoingMessage {
            message: call,
            handles: Vec::new(),
            answer_sink: 55,
            question_sink: 0,
        },
        0,
        Vec::new(),
    );
    let acts = server.handle_event(ev, &nullr).unwrap();
    assert!(acts.is_empty());

    // Once the restore's return is flushed, the deferred call runs
    // against the restored capability and completes locally.
    let acts = server
        .handle_event(RpcEvent::AnswerSent { message: ret, handles }, &caps)
        .unwrap();
    assert_eq!(acts.len(), 1);
    let ctx = match acts.into_iter().next().unwrap() {
        Action::DispatchCall { cap, interface_id, method_id, context: DispatchContext::Deferred(c) } => {
            assert_eq!(cap, 7);
            assert_eq!(interface_id, 77);
            assert_eq!(method_id, 9);
            c
        }
        other => panic!("expected deferred dispatch, got {:?}", other),
    };
    assert_eq!(ctx.sink, 55);
    let resp = ctx.fail();
    match resp.get() {
        Message::Return { body: ReturnBody::Exception(reason), .. } => {
            assert_eq!(reason, "aborted");
        }
        other => panic!("expected local exception, got {:?}", other),
    }
}

fn fresh() -> (RpcConnectionState, ExportedCaps) {
    let mut caps = ExportedCaps::new();
    caps.register(b"root".to_vec(), 7);
    (RpcConnectionState::new(), caps)
}

#[test]
fn release_with_wrong_count_is_fatal() {
    let (mut conn, caps) = fresh();
    conn.handle_event(
        RpcEvent::IncomingMessage(bootstrap_request(&b"root".to_vec())),
        &caps,
    )
    .unwrap();
    let err = conn
        .handle_event(
            RpcEvent::IncomingMessage(Message::Release { id: 0, reference_count: 2 }),
            &caps,
        )
        .unwrap_err();
    assert_eq!(err, RpcError::BadReferenceCount(2));
    // The connection is torn down.
    let acts = conn
        .handle_event(RpcEvent::IncomingMessage(Message::Finish), &caps)
        .unwrap();
    assert!(acts.is_empty());
}

#[test]
fn release_of_unknown_export_is_fatal() {
    let (mut conn, caps) = fresh();
    let err = conn
        .handle_event(
            RpcEvent::IncomingMessage(Message::Release { id: 4, reference_count: 1 }),
            &caps,
        )
        .unwrap_err();
    assert_eq!(err, RpcError::UnknownExport(4));
}

#[test]
fn call_on_unknown_export_is_fatal() {
    let (mut conn, caps) = fresh();
    let call = CapHandle::Import { import_id: 9 }.new_call(1, 1);
    let err = conn
        .handle_event(RpcEvent::IncomingMessage(call), &caps)
        .unwrap_err();
    assert_eq!(err, RpcError::UnknownExport(9));
}

#[test]
fn return_for_unknown_question_is_fatal() {
    let (mut conn, caps) = fresh();
    let ret = Message::Return {
        answer_id: 0,
        body: ReturnBody::Canceled,
    };
    let err = conn
        .handle_event(RpcEvent::IncomingMessage(ret), &caps)
        .unwrap_err();
    assert_eq!(err, RpcError::UnknownQuestion(0));
}

#[test]
fn second_return_for_same_question_is_fatal() {
    let nullr = ();
    let mut client = RpcConnectionState::new();
    let acts = client
        .handle_event(
            RpcEvent::Outgoing(OutgoingMessage {
                message: bootstrap_request(&b"root".to_vec()),
                handles: Vec::new(),
                answer_sink: 1,
                question_sink: 2,
            }),
            &nullr,
        )
        .unwrap();
    assert!(matches!(acts[0], Action::PublishQuestionId { id: 0, .. }));
    let ret = Message::Return { answer_id: 0, body: ReturnBody::Canceled };
    let acts = client
        .handle_event(RpcEvent::IncomingMessage(ret.dup()), &nullr)
        .unwrap();
    assert!(matches!(acts[0], Action::DeliverResponse { sink: 1, .. }));
    // The response sink fires at most once: a repeat return is fatal, not
    // a second fire.
    let err = client
        .handle_event(RpcEvent::IncomingMessage(ret), &nullr)
        .unwrap_err();
    assert_eq!(err, RpcError::UnknownQuestion(0));
}

#[test]
fn repeat_writer_confirmation_is_fatal() {
    let (mut conn, caps) = fresh();
    let acts = conn
        .handle_event(
            RpcEvent::IncomingMessage(bootstrap_request(&b"root".to_vec())),
            &caps,
        )
        .unwrap();
    let (ret, handles) = {
        let mut found = None;
        for a in acts {
            if let Action::WriteMessage { message, handles } = a {
                found = Some((message, handles));
            }
        }
        found.unwrap()
    };
    conn.handle_event(
        RpcEvent::AnswerSent { message: ret.dup(), handles },
        &caps,
    )
    .unwrap();
    let err = conn
        .handle_event(RpcEvent::AnswerSent { message: ret, handles: Vec::new() }, &caps)
        .unwrap_err();
    assert_eq!(err, RpcError::AnswerAlreadySent(0));
}

#[test]
fn restore_of_unknown_name_is_fatal() {
    let (mut conn, caps) = fresh();
    let err = conn
        .handle_event(
            RpcEvent::IncomingMessage(bootstrap_request(&b"nobody".to_vec())),
            &caps,
        )
        .unwrap_err();
    assert_eq!(err, RpcError::RestoreFailed);
}

#[test]
fn incoming_refused_descriptor_is_fatal() {
    let (mut conn, caps) = fresh();
    let call = Message::Call {
        question_id: 0,
        target: caprpc::wire::MessageTarget::ImportedCap(0),
        interface_id: 1,
        method_id: 1,
        params: Payload {
            content: Content::Null,
            cap_table: vec![CapDescriptor::ReceiverHosted(3)],
        },
    };
    let err = conn
        .handle_event(RpcEvent::IncomingMessage(call), &caps)
        .unwrap_err();
    assert_eq!(err, RpcError::UnhandledDescriptor);
}

#[test]
fn pipelined_call_on_unknown_answer_is_fatal() {
    let (mut conn, caps) = fresh();
    let call = Message::Call {
        question_id: 5,
        target: caprpc::wire::MessageTarget::PromisedAnswer(9, Vec::new()),
        interface_id: 1,
        method_id: 1,
        params: Payload { content: Content::Null, cap_table: Vec::new() },
    };
    let err = conn
        .handle_event(RpcEvent::IncomingMessage(call), &caps)
        .unwrap_err();
    assert_eq!(err, RpcError::UnknownAnswer(9));
}

#[test]
fn outgoing_of_unsupported_kind_is_fatal() {
    let nullr = ();
    let mut conn = RpcConnectionState::new();
    let err = conn
        .handle_event(
            RpcEvent::Outgoing(OutgoingMessage {
                message: Message::Finish,
                handles: Vec::new(),
                answer_sink: 0,
                question_sink: 0,
            }),
            &nullr,
        )
        .unwrap_err();
    assert_eq!(err, RpcError::UnsupportedOutgoing);
}

#[test]
fn outgoing_call_exports_local_handles() {
    let nullr = ();
    let mut conn = RpcConnectionState::new();
    let call = CapHandle::Import { import_id: 0 }.new_call(1, 1);
    let acts = conn
        .handle_event(
            RpcEvent::Outgoing(OutgoingMessage {
                message: call,
                handles: vec![
                    Some(CapHandle::Local { cap: 40 }),
                    None,
                    Some(CapHandle::Import { import_id: 2 }),
                ],
                answer_sink: 1,
                question_sink: 2,
            }),
            &nullr,
        )
        .unwrap();
    let mut msg = None;
    for a in acts {
        if let Action::WriteMessage { message, .. } = a {
            msg = Some(message);
        }
    }
    match msg.unwrap() {
        Message::Call { params, .. } => {
            assert_eq!(params.cap_table.len(), 3);
            assert!(matches!(params.cap_table[0], CapDescriptor::SenderHosted(0)));
            assert!(matches!(params.cap_table[1], CapDescriptor::NoDescriptor));
            assert!(matches!(params.cap_table[2], CapDescriptor::ReceiverHosted(2)));
        }
        other => panic!("expected call, got {:?}", other),
    }
}

#[test]
fn sender_hosted_descriptors_register_imports() {
    // Registration is observable only through the state machine's view,
    // so exercise it through a full return carrying a sender-hosted cap.
    let nullr = ();
    let mut client = RpcConnectionState::new();
    client
        .handle_event(
            RpcEvent::Outgoing(OutgoingMessage {
                message: bootstrap_request(&b"root".to_vec()),
                handles: Vec::new(),
                answer_sink: 1,
                question_sink: 2,
            }),
            &nullr,
        )
        .unwrap();
    let ret = Message::Return {
        answer_id: 0,
        body: ReturnBody::Results(Payload {
            content: Content::Capability(0),
            cap_table: vec![CapDescriptor::SenderHosted(0)],
        }),
    };
    let acts = client
        .handle_event(RpcEvent::IncomingMessage(ret), &nullr)
        .unwrap();
    match &acts[0] {
        Action::DeliverResponse { response, .. } => {
            assert!(matches!(
                response.get_capability(),
                Some(CapHandle::Import { import_id: 0 })
            ));
        }
        other => panic!("expected delivery, got {:?}", other),
    }
}

#[test]
fn table_reuses_minimum_free_id() {
    let mut t: ExportTable<Export> = ExportTable::new();
    assert_eq!(t.push(Export { cap: 1 }), 0);
    assert_eq!(t.push(Export { cap: 2 }), 1);
    assert_eq!(t.push(Export { cap: 3 }), 2);
    t.erase(2);
    t.erase(0);
    // The freed ids come back smallest first; then allocation appends.
    assert_eq!(t.push(Export { cap: 4 }), 0);
    assert_eq!(t.push(Export { cap: 5 }), 2);
    assert_eq!(t.push(Export { cap: 6 }), 3);
    assert!(t.contains(1));
    assert_eq!(t.get(1).map(|e| e.cap), Some(2));
    assert!(t.get(9).is_none());
}

#[test]
fn import_table_has_no_reuse_policy() {
    let mut t: ImportTable<u64> = ImportTable::new();
    assert!(!t.contains(3));
    t.insert(3, 30);
    t.insert(90, 900);
    assert_eq!(t.get(3), Some(&30));
    t.insert(3, 31);
    assert_eq!(t.get(3), Some(&31));
    assert_eq!(t.take(3), Some(31));
    assert!(!t.contains(3));
    assert!(t.contains(90));
    assert_eq!(t.take(4), None);
}

#[test]
fn null_restorer_restores_nothing() {
    let nullr = ();
    assert_eq!(nullr.restore(&Content::Text(b"root".to_vec())), None);
}
