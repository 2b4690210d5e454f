//! End-to-end sessions played against the router's state machine: the test
//! stands in for the transport and for the remote endpoints.
use wampire::{
    ArgList, ClientAction, ClientState, ConnectionHandler, Dict, ErrorKind, ErrorType, Message,
    MatchingPolicy, Realm, Reason, RegisterOptions, Router, SubscribeOptions, Value, URI,
};

fn register(realm: &mut Realm, callee: &mut ConnectionHandler, request: u64, procedure: &str) -> u64 {
    let out = callee
        .handle_register(realm, request, RegisterOptions::new(), URI::new(procedure))
        .unwrap();
    match out.replies[0].message {
        Message::Registered(rid, registration_id) => {
            assert_eq!(rid, request);
            registration_id
        }
        _ => panic!("expected a registered acknowledgement"),
    }
}

#[test]
fn add_endpoint_answers_the_sum() {
    let mut realm = Realm::new();
    let mut callee = ConnectionHandler::new();
    let mut caller = ConnectionHandler::new();
    let registration_id = register(&mut realm, &mut callee, 1, "ca.test.add");

    let args = Some(vec![Value::Integer(2), Value::Integer(3)]);
    let out = caller
        .handle_call(&mut realm, 7, wampire::CallOptions::new(), URI::new("ca.test.add"), args, None)
        .unwrap();
    assert_eq!(out.replies.len(), 1);
    let mut replies = out.replies;
    let outbound = replies.remove(0);
    assert_eq!(outbound.to, callee.id);
    let (invocation_id, call_args) = match outbound.message {
        Message::Invocation(invocation_id, rid, _details, Some(a), None) => {
            assert_eq!(rid, registration_id);
            (invocation_id, a)
        }
        _ => panic!("expected an invocation"),
    };

    let a = call_args.get_int(0).unwrap().unwrap();
    let b = call_args.get_int(1).unwrap().unwrap();
    let out = callee
        .handle_yield(&mut realm, invocation_id, wampire::YieldOptions::new(), Some(vec![Value::Integer(a + b)]), None)
        .unwrap();
    let mut replies = out.replies;
    let outbound = replies.remove(0);
    assert_eq!(outbound.to, caller.id);
    match outbound.message {
        Message::Result(call_id, _details, Some(result_args), None) => {
            assert_eq!(call_id, 7);
            assert_eq!(result_args, vec![Value::Integer(5)]);
        }
        _ => panic!("expected a result"),
    }
}

#[test]
fn echo_endpoint_answers_the_payloads() {
    let mut realm = Realm::new();
    let mut callee = ConnectionHandler::new();
    let mut caller = ConnectionHandler::new();
    register(&mut realm, &mut callee, 1, "ca.test.echo");

    let args = Some(vec![
        Value::String("hi".to_string()),
        Value::String("there".to_string()),
    ]);
    let mut kwargs = Dict::new();
    kwargs.insert("k".to_string(), Value::Integer(1));
    let out = caller
        .handle_call(&mut realm, 9, wampire::CallOptions::new(), URI::new("ca.test.echo"), args, Some(kwargs))
        .unwrap();
    let mut replies = out.replies;
    let outbound = replies.remove(0);
    let (invocation_id, echo_args, echo_kwargs) = match outbound.message {
        Message::Invocation(invocation_id, _rid, _details, Some(a), Some(k)) => {
            (invocation_id, a, k)
        }
        _ => panic!("expected an invocation with both payloads"),
    };

    let out = callee
        .handle_yield(&mut realm, invocation_id, wampire::YieldOptions::new(), Some(echo_args), Some(echo_kwargs))
        .unwrap();
    let mut replies = out.replies;
    let outbound = replies.remove(0);
    match outbound.message {
        Message::Result(call_id, _details, Some(result_args), Some(result_kwargs)) => {
            assert_eq!(call_id, 9);
            assert_eq!(
                result_args,
                vec![
                    Value::String("hi".to_string()),
                    Value::String("there".to_string()),
                ]
            );
            let mut expected = Dict::new();
            expected.insert("k".to_string(), Value::Integer(1));
            assert_eq!(result_kwargs, expected);
        }
        _ => panic!("expected a result with both payloads"),
    }
}

#[test]
fn unregistered_procedure_refuses_calls() {
    let mut realm = Realm::new();
    let mut callee = ConnectionHandler::new();
    let mut caller = ConnectionHandler::new();
    let registration_id = register(&mut realm, &mut callee, 1, "ca.test.mult");

    let out = callee
        .handle_unregister(&mut realm, 2, registration_id)
        .unwrap();
    match out.replies[0].message {
        Message::Unregistered(rid) => assert_eq!(rid, 2),
        _ => panic!("expected an unregistered acknowledgement"),
    }

    let r = caller.handle_call(&mut realm, 3, wampire::CallOptions::new(), URI::new("ca.test.mult"), None, None);
    match r {
        Err(e) => match e.kind {
            ErrorKind::ErrorReason(ty, rid, reason) => {
                assert_eq!(ty, ErrorType::Call);
                assert_eq!(rid, 3);
                assert_eq!(reason, Reason::NoSuchProcedure);
            }
            _ => panic!("expected a per-request error"),
        },
        Ok(_) => panic!("the call must fail"),
    }
}

#[test]
fn prefix_subscriber_sees_the_concrete_topic() {
    let mut realm = Realm::new();
    let mut subscriber = ConnectionHandler::new();
    let mut publisher = ConnectionHandler::new();

    let options = SubscribeOptions {
        pattern_match: MatchingPolicy::Prefix,
    };
    let out = subscriber
        .handle_subscribe(&mut realm, 1, options, URI::new("com.example"))
        .unwrap();
    let subscription_id = match out.replies[0].message {
        Message::Subscribed(_, subscription_id) => subscription_id,
        _ => panic!("expected a subscribed acknowledgement"),
    };

    let out = publisher
        .handle_publish(
            &mut realm,
            2,
            wampire::PublishOptions::new(false),
            URI::new("com.example.alpha"),
            Some(vec![Value::Integer(1)]),
            None,
        )
        .unwrap();
    let event = out.event.unwrap();
    assert_eq!(event.targets.len(), 1);
    assert_eq!(event.targets[0].connection, subscriber.id);
    assert_eq!(event.targets[0].subscription_id, subscription_id);
    assert!(!event.targets[0].strict);
    assert_eq!(event.topic, URI::new("com.example.alpha"));
    assert_eq!(event.args, Some(vec![Value::Integer(1)]));
}

#[test]
fn wildcard_subscription_matches_one_topic_and_not_another() {
    let mut realm = Realm::new();
    let mut subscriber = ConnectionHandler::new();
    let mut publisher = ConnectionHandler::new();

    let options = SubscribeOptions {
        pattern_match: MatchingPolicy::Wildcard,
    };
    subscriber
        .handle_subscribe(&mut realm, 1, options, URI::new("ca..topic.one"))
        .unwrap();

    let out = publisher
        .handle_publish(
            &mut realm,
            2,
            wampire::PublishOptions::new(false),
            URI::new("ca.anything.topic.one"),
            None,
            None,
        )
        .unwrap();
    assert_eq!(out.event.unwrap().targets.len(), 1);

    let out = publisher
        .handle_publish(
            &mut realm,
            3,
            wampire::PublishOptions::new(false),
            URI::new("ca.anything.topic.two"),
            None,
            None,
        )
        .unwrap();
    assert_eq!(out.event.unwrap().targets.len(), 0);
}

#[test]
fn publisher_does_not_hear_its_own_publication() {
    let mut realm = Realm::new();
    let mut peer = ConnectionHandler::new();
    peer.handle_subscribe(&mut realm, 1, SubscribeOptions::new(), URI::new("ca.t"))
        .unwrap();
    let out = peer
        .handle_publish(
            &mut realm,
            2,
            wampire::PublishOptions::new(true),
            URI::new("ca.t"),
            None,
            None,
        )
        .unwrap();
    let event = out.event.unwrap();
    assert_eq!(event.targets.len(), 0);
    match out.replies[0].message {
        Message::Published(rid, publication_id) => {
            assert_eq!(rid, 2);
            assert_eq!(publication_id, event.publication_id);
        }
        _ => panic!("expected a published acknowledgement"),
    }
}

#[test]
fn disconnect_cleanup_silences_the_former_subscriber() {
    let mut realm = Realm::new();
    let mut subscriber = ConnectionHandler::new();
    let mut publisher = ConnectionHandler::new();
    subscriber
        .handle_subscribe(&mut realm, 1, SubscribeOptions::new(), URI::new("ca.gone"))
        .unwrap();
    let failures = subscriber.remove(&mut realm);
    assert_eq!(failures.len(), 0);
    let out = publisher
        .handle_publish(
            &mut realm,
            2,
            wampire::PublishOptions::new(false),
            URI::new("ca.gone"),
            None,
            None,
        )
        .unwrap();
    assert_eq!(out.event.unwrap().targets.len(), 0);
}

#[test]
fn callee_disconnect_fails_pending_calls_back_to_the_caller() {
    let mut realm = Realm::new();
    let mut callee = ConnectionHandler::new();
    let mut caller = ConnectionHandler::new();
    register(&mut realm, &mut callee, 1, "ca.test.slow");
    caller
        .handle_call(&mut realm, 5, wampire::CallOptions::new(), URI::new("ca.test.slow"), None, None)
        .unwrap();
    let failures = callee.remove(&mut realm);
    assert_eq!(failures.len(), 1);
    assert_eq!(failures[0].to, caller.id);
    match &failures[0].message {
        Message::Error(ty, rid, _details, reason, None, None) => {
            assert_eq!(*ty, ErrorType::Call);
            assert_eq!(*rid, 5);
            assert_eq!(*reason, Reason::NetworkFailure);
        }
        _ => panic!("expected a network-failure error"),
    }
}

#[test]
fn hello_attaches_and_goodbye_parts_gracefully() {
    let mut router = Router::new();
    router.add_realm("wampire_realm");
    let mut conn = ConnectionHandler::new();

    let out = conn
        .handle_message(
            &mut router,
            wampire::Client::hello(URI::new("wampire_realm")),
        )
        .unwrap();
    match &out.replies[0].message {
        Message::Welcome(session_id, _details) => assert_eq!(*session_id, conn.id),
        _ => panic!("expected a welcome"),
    }

    let mut client = wampire::Client::new();
    client.handle_message(Message::Welcome(
        conn.id,
        wampire::WelcomeDetails::new(wampire::RouterRoles::new()),
    ));
    assert_eq!(client.state, ClientState::Connected);

    let goodbye = client.shutdown().unwrap();
    let out = conn.handle_message(&mut router, goodbye).unwrap();
    assert!(out.close);
    let last = out.replies.last().unwrap();
    match &last.message {
        Message::Goodbye(_, reason) => assert_eq!(*reason, Reason::GoodbyeAndOut),
        _ => panic!("expected a goodbye echo"),
    }

    let (actions, keep_open) = client.handle_message(Message::Goodbye(
        wampire::ErrorDetails::new(),
        Reason::GoodbyeAndOut,
    ));
    assert!(!keep_open);
    assert!(matches!(actions[0], ClientAction::ShutdownComplete));
    assert_eq!(client.state, ClientState::Disconnected);
}

#[test]
fn unknown_realm_refuses_the_handshake() {
    let mut router = Router::new();
    let mut conn = ConnectionHandler::new();
    let r = conn.handle_message(&mut router, wampire::Client::hello(URI::new("nowhere")));
    match r {
        Err(e) => match e.kind {
            ErrorKind::HandshakeError(reason) => assert_eq!(reason, Reason::NoSuchRealm),
            _ => panic!("expected a handshake error"),
        },
        Ok(_) => panic!("the handshake must fail"),
    }
}

#[test]
fn unknown_subscription_id_refuses_unsubscribing() {
    let mut realm = Realm::new();
    let mut subscriber = ConnectionHandler::new();
    let r = subscriber.handle_unsubscribe(&mut realm, 4, 123456);
    match r {
        Err(e) => match e.kind {
            ErrorKind::ErrorReason(ty, rid, reason) => {
                assert_eq!(ty, ErrorType::Unsubscribe);
                assert_eq!(rid, 4);
                assert_eq!(reason, Reason::NoSuchSubscription);
            }
            _ => panic!("expected a per-request error"),
        },
        Ok(_) => panic!("the unsubscribe must fail"),
    }
}

#[test]
fn subscribe_and_unsubscribe_round_trip_through_the_realm() {
    let mut realm = Realm::new();
    let mut subscriber = ConnectionHandler::new();
    let mut publisher = ConnectionHandler::new();
    let out = subscriber
        .handle_subscribe(&mut realm, 1, SubscribeOptions::new(), URI::new("ca.r"))
        .unwrap();
    let subscription_id = match out.replies[0].message {
        Message::Subscribed(_, id) => id,
        _ => panic!("expected a subscribed acknowledgement"),
    };
    let out = subscriber
        .handle_unsubscribe(&mut realm, 2, subscription_id)
        .unwrap();
    match out.replies[0].message {
        Message::Unsubscribed(rid) => assert_eq!(rid, 2),
        _ => panic!("expected an unsubscribed acknowledgement"),
    }
    let out = publisher
        .handle_publish(
            &mut realm,
            3,
            wampire::PublishOptions::new(false),
            URI::new("ca.r"),
            None,
            None,
        )
        .unwrap();
    assert_eq!(out.event.unwrap().targets.len(), 0);
}

#[test]
fn session_identifiers_stay_in_the_browser_safe_range() {
    for _ in 0..16 {
        let conn = ConnectionHandler::new();
        assert!(1 <= conn.id && conn.id < (1u64 << 53));
    }
}

#[test]
fn shutdown_says_goodbye_to_every_connection() {
    let mut router = Router::new();
    router.add_realm("wampire_realm");
    let mut first = ConnectionHandler::new();
    let mut second = ConnectionHandler::new();
    first
        .handle_message(&mut router, wampire::Client::hello(URI::new("wampire_realm")))
        .unwrap();
    second
        .handle_message(&mut router, wampire::Client::hello(URI::new("wampire_realm")))
        .unwrap();
    let goodbyes = router.shutdown();
    assert_eq!(goodbyes.len(), 2);
    assert_eq!(goodbyes[0].to, first.id);
    assert_eq!(goodbyes[1].to, second.id);
    for outbound in &goodbyes {
        match &outbound.message {
            Message::Goodbye(_, reason) => assert_eq!(*reason, Reason::SystemShutdown),
            _ => panic!("expected a goodbye"),
        }
    }
}

#[test]
fn event_broadcast_builds_one_frame_per_target() {
    let mut realm = Realm::new();
    let mut subscriber = ConnectionHandler::new();
    let mut publisher = ConnectionHandler::new();
    let options = SubscribeOptions {
        pattern_match: MatchingPolicy::Prefix,
    };
    let out = subscriber
        .handle_subscribe(&mut realm, 1, options, URI::new("com.example"))
        .unwrap();
    let subscription_id = match out.replies[0].message {
        Message::Subscribed(_, id) => id,
        _ => panic!("expected a subscribed acknowledgement"),
    };
    let out = publisher
        .handle_publish(
            &mut realm,
            2,
            wampire::PublishOptions::new(false),
            URI::new("com.example.beta"),
            Some(vec![Value::Integer(7)]),
            None,
        )
        .unwrap();
    let event = out.event.unwrap();
    let frames = event.messages();
    assert_eq!(frames.len(), 1);
    assert_eq!(frames[0].to, subscriber.id);
    match &frames[0].message {
        Message::Event(sid, pid, details, Some(args), None) => {
            assert_eq!(*sid, subscription_id);
            assert_eq!(*pid, event.publication_id);
            assert_eq!(details.topic, Some(URI::new("com.example.beta")));
            assert_eq!(args, &vec![Value::Integer(7)]);
        }
        _ => panic!("expected an event with the published payload"),
    }
}

#[test]
fn failed_handshake_leaves_the_connection_uninitialized() {
    let mut router = Router::new();
    let mut conn = ConnectionHandler::new();
    let r = conn.handle_message(&mut router, wampire::Client::hello(URI::new("nowhere")));
    assert!(r.is_err());
    assert_eq!(conn.state, wampire::ConnectionState::Initializing);
    assert_eq!(conn.realm, None);
}

#[test]
fn subprotocol_choice_takes_the_first_spoken_offer() {
    let offered = vec![
        "chat.v1".to_string(),
        "wamp.2.msgpack".to_string(),
        "wamp.2.json".to_string(),
    ];
    assert_eq!(wampire::select_subprotocol(&offered), Some(1));
    let none_spoken = vec!["chat.v1".to_string()];
    assert_eq!(wampire::select_subprotocol(&none_spoken), None);
    assert_eq!(wampire::select_subprotocol(&Vec::new()), None);
}
