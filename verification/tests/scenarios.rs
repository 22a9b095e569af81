//! End-to-end scenarios driving a client and a server dispatcher against
//! each other, message by message.

use caprpc::answer::AnswerStatus;
use caprpc::context::DispatchContext;
use caprpc::dispatch::{bootstrap_request, ExportedCaps, RpcConnectionState};
use caprpc::events::{Action, OutgoingMessage, RpcEvent};
use caprpc::handles::CapHandle;
use caprpc::wire::{CapDescriptor, Content, Message, Payload, PipelineOp, ReturnBody};

fn outgoing(message: Message, answer_sink: u64, question_sink: u64) -> RpcEvent {
    RpcEvent::Outgoing(OutgoingMessage {
        message,
        handles: Vec::new(),
        answer_sink,
        question_sink,
    })
}

/// Pulls the single written message (and its handles) out of an action list.
fn written(actions: Vec<Action>) -> (Message, Vec<Option<CapHandle>>) {
    let mut found = None;
    for a in actions {
        if let Action::WriteMessage { message, handles } = a {
            assert!(found.is_none(), "more than one message written");
            found = Some((message, handles));
        }
    }
    found.expect("no message written")
}

fn set_params(call: Message, content: Content) -> Message {
    match call {
        Message::Call {
            question_id,
            target,
            interface_id,
            method_id,
            ..
        } => Message::Call {
            question_id,
            target,
            interface_id,
            method_id,
            params: Payload {
                content,
                cap_table: Vec::new(),
            },
        },
        other => panic!("not a call: {:?}", other),
    }
}

#[test]
fn bootstrap_and_one_call() {
    let nullr = ();
    let mut caps = ExportedCaps::new();
    caps.register(b"root".to_vec(), 7);
    let mut server = RpcConnectionState::new();
    let mut client = RpcConnectionState::new();

    // Client sends Restore(objectId="root"); the dispatcher assigns id 0.
    let req = bootstrap_request(&b"root".to_vec());
    let acts = client.handle_event(outgoing(req, 11, 12), &nullr).unwrap();
    assert!(matches!(acts[0], Action::PublishQuestionId { sink: 12, id: 0 }));
    let (restore_msg, _) = written(acts);
    match &restore_msg {
        Message::Restore { question_id, object_id } => {
            assert_eq!(*question_id, 0);
            assert!(matches!(object_id, Content::Text(t) if t == b"root"));
        }
        other => panic!("expected restore, got {:?}", other),
    }

    // Server restores cap 7, exports it at id 0, answers with a one-cap table.
    let acts = server
        .handle_event(RpcEvent::IncomingMessage(restore_msg), &caps)
        .unwrap();
    let (ret, ret_handles) = written(acts);
    match &ret {
        Message::Return { answer_id: 0, body: ReturnBody::Results(p) } => {
            assert!(matches!(p.content, Content::Capability(0)));
            assert_eq!(p.cap_table.len(), 1);
            assert!(matches!(p.cap_table[0], CapDescriptor::SenderHosted(0)));
        }
        other => panic!("expected results return, got {:?}", other),
    }
    assert!(matches!(ret_handles[0], Some(CapHandle::Local { cap: 7 })));

    // Writer confirms; the server's answer 0 becomes sent.
    let echo = ret.dup();
    server
        .handle_event(
            RpcEvent::AnswerSent { message: echo, handles: ret_handles },
            &caps,
        )
        .unwrap();

    // Client receives the return as Import 0.
    let acts = client
        .handle_event(RpcEvent::IncomingMessage(ret), &nullr)
        .unwrap();
    assert_eq!(acts.len(), 1);
    let import = match &acts[0] {
        Action::DeliverResponse { sink: 11, response } => {
            match response.get_capability() {
                Some(CapHandle::Import { import_id }) => *import_id,
                other => panic!("expected import, got {:?}", other),
            }
        }
        other => panic!("expected response delivery, got {:?}", other),
    };
    assert_eq!(import, 0);

    // Client calls interface 42, method 3 with "ping"; question id is 1.
    let handle = CapHandle::Import { import_id: import };
    let call = set_params(handle.new_call(42, 3), Content::Text(b"ping".to_vec()));
    let acts = client.handle_event(outgoing(call, 21, 22), &nullr).unwrap();
    assert!(matches!(acts[0], Action::PublishQuestionId { sink: 22, id: 1 }));
    let (call_msg, _) = written(acts);

    // Server dispatches the call to the restored capability.
    let acts = server
        .handle_event(RpcEvent::IncomingMessage(call_msg), &caps)
        .unwrap();
    assert_eq!(acts.len(), 1);
    let mut ctx = match acts.into_iter().next().unwrap() {
        Action::DispatchCall { cap, interface_id, method_id, context: DispatchContext::Wire(c) } => {
            assert_eq!(cap, 7);
            assert_eq!(interface_id, 42);
            assert_eq!(method_id, 3);
            c
        }
        other => panic!("expected wire dispatch, got {:?}", other),
    };

    // The user handler reads "ping" and writes "pong".
    {
        let (params, results) = ctx.get();
        assert!(matches!(params, Content::Text(t) if t == b"ping"));
        *results = Content::Text(b"pong".to_vec());
    }
    let (done_msg, done_handles) = ctx.done();
    let acts = server
        .handle_event(
            RpcEvent::ReturnEvent { message: done_msg, handles: done_handles },
            &caps,
        )
        .unwrap();
    let (ret2, _) = written(acts);
    match &ret2 {
        Message::Return { answer_id: 1, body: ReturnBody::Results(p) } => {
            assert!(matches!(&p.content, Content::Text(t) if t == b"pong"));
        }
        other => panic!("expected pong return, got {:?}", other),
    }

    // The client's second request future yields "pong".
    let acts = client
        .handle_event(RpcEvent::IncomingMessage(ret2), &nullr)
        .unwrap();
    match &acts[0] {
        Action::DeliverResponse { sink: 21, response } => match response.get() {
            Message::Return { body: ReturnBody::Results(p), .. } => {
                assert!(matches!(&p.content, Content::Text(t) if t == b"pong"));
            }
            other => panic!("expected results, got {:?}", other),
        },
        other => panic!("expected response delivery, got {:?}", other),
    }
}

#[test]
fn pipelining_dispatches_in_order() {
    let nullr = ();
    let mut caps = ExportedCaps::new();
    caps.register(b"root".to_vec(), 7);
    let mut server = RpcConnectionState::new();
    let mut client = RpcConnectionState::new();

    // Bootstrap so the next question ids are 1 and 2, as on a live
    // connection.
    let req = bootstrap_request(&b"root".to_vec());
    let acts = client.handle_event(outgoing(req, 1, 2), &nullr).unwrap();
    let (restore_msg, _) = written(acts);
    let acts = server
        .handle_event(RpcEvent::IncomingMessage(restore_msg), &caps)
        .unwrap();
    let (ret, ret_handles) = written(acts);
    let echo = ret.dup();
    server
        .handle_event(RpcEvent::AnswerSent { message: echo, handles: ret_handles }, &caps)
        .unwrap();
    client
        .handle_event(RpcEvent::IncomingMessage(ret), &nullr)
        .unwrap();

    // Call 1 on the import; its results will contain a capability.
    let call1 = CapHandle::Import { import_id: 0 }.new_call(10, 1);
    let acts = client.handle_event(outgoing(call1, 31, 32), &nullr).unwrap();
    assert!(matches!(acts[0], Action::PublishQuestionId { id: 1, .. }));
    let (call1_msg, _) = written(acts);

    // Call 2 immediately pipelines on pointer field 0 of call 1's future
    // results.
    let pipeline = caprpc::handles::RpcPipeline { question_id: 1 };
    let pcap = pipeline.get_pipelined_cap(vec![PipelineOp::GetPointerField(0)]);
    let call2 = pcap.new_call(20, 2);
    let acts = client.handle_event(outgoing(call2, 41, 42), &nullr).unwrap();
    assert!(matches!(acts[0], Action::PublishQuestionId { id: 2, .. }));
    let (call2_msg, _) = written(acts);

    // The server starts servicing call 1...
    let acts = server
        .handle_event(RpcEvent::IncomingMessage(call1_msg), &caps)
        .unwrap();
    let mut ctx1 = match acts.into_iter().next().unwrap() {
        Action::DispatchCall { context: DispatchContext::Wire(c), .. } => c,
        other => panic!("expected dispatch, got {:?}", other),
    };

    // ...and buffers call 2 against the still-pending answer 1.
    let acts = server
        .handle_event(RpcEvent::IncomingMessage(call2_msg), &caps)
        .unwrap();
    assert!(acts.is_empty());

    // Handler for call 1 finishes with a capability at pointer field 0.
    {
        let (_, results) = ctx1.get();
        *results = Content::Pointers(vec![Content::Capability(0)]);
    }
    ctx1.result_handles.push(Some(CapHandle::Local { cap: 9 }));
    let (done1, h1) = ctx1.done();
    let acts = server
        .handle_event(RpcEvent::ReturnEvent { message: done1, handles: h1 }, &caps)
        .unwrap();
    let (ret1, ret1_handles) = written(acts);
    match &ret1 {
        Message::Return { answer_id: 1, .. } => {}
        other => panic!("expected return for answer 1, got {:?}", other),
    }

    // The writer confirms return 1: the buffered pipelined call runs
    // against the materialised results, in arrival order.
    let acts = server
        .handle_event(
            RpcEvent::AnswerSent { message: ret1, handles: ret1_handles },
            &caps,
        )
        .unwrap();
    assert_eq!(acts.len(), 1);
    let mut ctx2 = match acts.into_iter().next().unwrap() {
        Action::DispatchCall { cap, interface_id, method_id, context: DispatchContext::Wire(c) } => {
            assert_eq!(cap, 9);
            assert_eq!(interface_id, 20);
            assert_eq!(method_id, 2);
            c
        }
        other => panic!("expected pipelined dispatch, got {:?}", other),
    };

    // Its completion is the second return, addressed after the first.
    {
        let (_, results) = ctx2.get();
        *results = Content::Text(b"later".to_vec());
    }
    let (done2, h2) = ctx2.done();
    let acts = server
        .handle_event(RpcEvent::ReturnEvent { message: done2, handles: h2 }, &caps)
        .unwrap();
    let (ret2, _) = written(acts);
    match &ret2 {
        Message::Return { answer_id: 2, .. } => {}
        other => panic!("expected return for answer 2, got {:?}", other),
    }
}

#[test]
fn released_export_id_is_reused() {
    let nullr = ();
    let mut server = RpcConnectionState::new();
    let acts = server
        .handle_event(RpcEvent::NewLocalServer { cap: 5, id_sink: 1 }, &nullr)
        .unwrap();
    assert!(matches!(acts[0], Action::PublishExportId { sink: 1, id: 0 }));
    let acts = server
        .handle_event(RpcEvent::NewLocalServer { cap: 6, id_sink: 2 }, &nullr)
        .unwrap();
    assert!(matches!(acts[0], Action::PublishExportId { sink: 2, id: 1 }));

    // The peer releases export 0 with reference count 1.
    let acts = server
        .handle_event(
            RpcEvent::IncomingMessage(Message::Release { id: 0, reference_count: 1 }),
            &nullr,
        )
        .unwrap();
    assert!(acts.is_empty());

    // The next cap exported is assigned id 0 again.
    let acts = server
        .handle_event(RpcEvent::NewLocalServer { cap: 8, id_sink: 3 }, &nullr)
        .unwrap();
    assert!(matches!(acts[0], Action::PublishExportId { sink: 3, id: 0 }));
}

#[test]
fn peer_exception_propagates() {
    let nullr = ();
    let mut caps = ExportedCaps::new();
    caps.register(b"root".to_vec(), 7);
    let mut server = RpcConnectionState::new();
    let mut client = RpcConnectionState::new();

    let req = bootstrap_request(&b"root".to_vec());
    let acts = client.handle_event(outgoing(req, 1, 2), &nullr).unwrap();
    let (restore_msg, _) = written(acts);
    let acts = server
        .handle_event(RpcEvent::IncomingMessage(restore_msg), &caps)
        .unwrap();
    let (ret, _) = written(acts);
    client
        .handle_event(RpcEvent::IncomingMessage(ret), &nullr)
        .unwrap();

    let call = CapHandle::Import { import_id: 0 }.new_call(1, 1);
    let acts = client.handle_event(outgoing(call, 5, 6), &nullr).unwrap();
    let (call_msg, _) = written(acts);
    let acts = server
        .handle_event(RpcEvent::IncomingMessage(call_msg), &caps)
        .unwrap();
    let ctx = match acts.into_iter().next().unwrap() {
        Action::DispatchCall { context: DispatchContext::Wire(c), .. } => c,
        other => panic!("expected dispatch, got {:?}", other),
    };

    // The server handler fails; the wire shows an exception return with
    // reason "aborted".
    let fail_msg = ctx.fail();
    let acts = server
        .handle_event(
            RpcEvent::ReturnEvent { message: fail_msg, handles: Vec::new() },
            &caps,
        )
        .unwrap();
    let (ret, _) = written(acts);
    match &ret {
        Message::Return { answer_id: 1, body: ReturnBody::Exception(reason) } => {
            assert_eq!(reason, "aborted");
        }
        other => panic!("expected exception return, got {:?}", other),
    }

    // The client's request future resolves as a failed response carrying
    // that reason.
    let acts = client
        .handle_event(RpcEvent::IncomingMessage(ret), &nullr)
        .unwrap();
    match &acts[0] {
        Action::DeliverResponse { sink: 5, response } => match response.get() {
            Message::Return { body: ReturnBody::Exception(reason), .. } => {
                assert_eq!(reason, "aborted");
            }
            other => panic!("expected exception, got {:?}", other),
        },
        other => panic!("expected response delivery, got {:?}", other),
    }
}

#[test]
fn dropped_context_aborts_once() {
    let nullr = ();
    let mut caps = ExportedCaps::new();
    caps.register(b"root".to_vec(), 7);
    let mut server = RpcConnectionState::new();

    let acts = server
        .handle_event(
            RpcEvent::IncomingMessage(bootstrap_request(&b"root".to_vec())),
            &caps,
        )
        .unwrap();
    let (_ret, _) = written(acts);

    let call = CapHandle::Import { import_id: 0 }.new_call(1, 1);
    let call = match call {
        Message::Call { target, interface_id, method_id, params, .. } => Message::Call {
            question_id: 3,
            target,
            interface_id,
            method_id,
            params,
        },
        other => panic!("not a call: {:?}", other),
    };
    let acts = server
        .handle_event(RpcEvent::IncomingMessage(call), &caps)
        .unwrap();
    let ctx = match acts.into_iter().next().unwrap() {
        Action::DispatchCall { context: DispatchContext::Wire(c), .. } => c,
        other => panic!("expected dispatch, got {:?}", other),
    };

    // The handler is dropped without resolving: exactly one unsolicited
    // exception return, addressed to the original question id.
    let abort_msg = ctx.abandon();
    match &abort_msg {
        Message::Return { answer_id: 3, body: ReturnBody::Exception(reason) } => {
            assert_eq!(reason, "aborted");
        }
        other => panic!("expected abort return, got {:?}", other),
    }
    let acts = server
        .handle_event(
            RpcEvent::ReturnEvent { message: abort_msg, handles: Vec::new() },
            &caps,
        )
        .unwrap();
    let (ret, _) = written(acts);
    assert!(matches!(
        ret,
        Message::Return { answer_id: 3, body: ReturnBody::Exception(_) }
    ));
}

#[test]
fn unknown_message_is_ignored() {
    let nullr = ();
    let mut caps = ExportedCaps::new();
    caps.register(b"root".to_vec(), 7);
    let mut server = RpcConnectionState::new();

    // The peer sends Finish: logged, no further action.
    let acts = server
        .handle_event(RpcEvent::IncomingMessage(Message::Finish), &caps)
        .unwrap();
    assert_eq!(acts.len(), 1);
    assert!(matches!(acts[0], Action::Unhandled { message: Message::Finish }));

    // Subsequent calls continue to function.
    let acts = server
        .handle_event(
            RpcEvent::IncomingMessage(bootstrap_request(&b"root".to_vec())),
            &caps,
        )
        .unwrap();
    let (ret, _) = written(acts);
    assert!(matches!(
        ret,
        Message::Return { answer_id: 0, body: ReturnBody::Results(_) }
    ));
}

#[test]
fn shutdown_stops_processing() {
    let nullr = ();
    let mut conn = RpcConnectionState::new();
    let acts = conn.handle_event(RpcEvent::ShutdownEvent, &nullr).unwrap();
    assert!(acts.is_empty());
    // After shutdown no further event is processed.
    let acts = conn
        .handle_event(RpcEvent::IncomingMessage(Message::Finish), &nullr)
        .unwrap();
    assert!(acts.is_empty());
    let acts = conn
        .handle_event(RpcEvent::NewLocalServer { cap: 1, id_sink: 1 }, &nullr)
        .unwrap();
    assert!(acts.is_empty());
}

#[test]
fn answer_status_starts_pending() {
    let a = caprpc::answer::Answer::new();
    assert!(matches!(a.status, AnswerStatus::AnswerStatusPending(ref ws) if ws.is_empty()));
    assert!(a.result_exports.is_empty());
}
