//! The client state machine: request correlation and event dispatch.
use wampire::{
    Client, ClientAction, ClientState, Dict, ErrorType, MatchingPolicy, Message, Reason,
    Registration, ResultDetails, Subscription, Value, WelcomeDetails, URI,
};

fn connected_client() -> Client {
    let mut client = Client::new();
    client.handle_message(Message::Welcome(
        42,
        WelcomeDetails::new(wampire::RouterRoles::new()),
    ));
    assert_eq!(client.state, ClientState::Connected);
    client
}

#[test]
fn subscribe_is_acknowledged_and_events_reach_the_callback() {
    let mut client = connected_client();
    let m = client.subscribe(URI::new("ca.tests.topic"));
    let request_id = match m {
        Message::Subscribe(request_id, _options, ref topic) => {
            assert_eq!(topic, &URI::new("ca.tests.topic"));
            request_id
        }
        _ => panic!("expected a subscribe request"),
    };

    let (actions, keep_open) = client.handle_message(Message::Subscribed(request_id, 77));
    assert!(keep_open);
    match &actions[0] {
        ClientAction::SubscribeComplete(rid, subscription) => {
            assert_eq!(*rid, request_id);
            assert_eq!(subscription.topic, URI::new("ca.tests.topic"));
            assert_eq!(subscription.subscription_id, 77);
        }
        _ => panic!("expected the subscription to complete"),
    }

    let (actions, _) = client.handle_message(Message::Event(
        77,
        5,
        wampire::EventDetails::new(),
        Some(vec![Value::Integer(1)]),
        None,
    ));
    match &actions[0] {
        ClientAction::EventReceived(subscription_id, args, kwargs) => {
            assert_eq!(*subscription_id, 77);
            assert_eq!(args, &vec![Value::Integer(1)]);
            assert_eq!(kwargs, &Dict::new());
        }
        _ => panic!("expected the event to reach the callback"),
    }
}

#[test]
fn unsubscribe_drops_the_subscription() {
    let mut client = connected_client();
    let m = client.subscribe(URI::new("ca.tests.topic"));
    let request_id = match m {
        Message::Subscribe(request_id, _, _) => request_id,
        _ => panic!("expected a subscribe request"),
    };
    client.handle_message(Message::Subscribed(request_id, 77));

    let m = client.unsubscribe(Subscription {
        topic: URI::new("ca.tests.topic"),
        subscription_id: 77,
    });
    let request_id = match m {
        Message::Unsubscribe(request_id, subscription_id) => {
            assert_eq!(subscription_id, 77);
            request_id
        }
        _ => panic!("expected an unsubscribe request"),
    };
    let (actions, _) = client.handle_message(Message::Unsubscribed(request_id));
    assert!(matches!(actions[0], ClientAction::UnsubscribeComplete(_, 77)));

    let (actions, _) = client.handle_message(Message::Event(
        77,
        5,
        wampire::EventDetails::new(),
        None,
        None,
    ));
    assert!(actions.is_empty());
}

#[test]
fn register_call_and_result_correlate_by_request_id() {
    let mut client = connected_client();
    let m = client.register(URI::new("ca.tests.proc"));
    let request_id = match m {
        Message::Register(request_id, _, _) => request_id,
        _ => panic!("expected a register request"),
    };
    let (actions, _) = client.handle_message(Message::Registered(request_id, 88));
    match &actions[0] {
        ClientAction::RegisterComplete(_, registration) => {
            assert_eq!(registration.registration_id, 88);
            assert_eq!(registration.procedure, URI::new("ca.tests.proc"));
        }
        _ => panic!("expected the registration to complete"),
    }

    let m = client.call(URI::new("ca.other.proc"), Some(vec![Value::Integer(4)]), None);
    let call_id = match m {
        Message::Call(call_id, _, _, _, _) => call_id,
        _ => panic!("expected a call request"),
    };
    let (actions, _) = client.handle_message(Message::Result(
        call_id,
        ResultDetails::new(),
        Some(vec![Value::Integer(8)]),
        None,
    ));
    match &actions[0] {
        ClientAction::CallComplete(rid, args, _kwargs) => {
            assert_eq!(*rid, call_id);
            assert_eq!(args, &vec![Value::Integer(8)]);
        }
        _ => panic!("expected the call to complete"),
    }
}

#[test]
fn invocations_reach_the_registered_callback_only() {
    let mut client = connected_client();
    let m = client.register(URI::new("ca.tests.proc"));
    let request_id = match m {
        Message::Register(request_id, _, _) => request_id,
        _ => panic!("expected a register request"),
    };
    client.handle_message(Message::Registered(request_id, 88));

    let (actions, _) = client.handle_message(Message::Invocation(
        500,
        88,
        wampire::InvocationDetails::new(),
        Some(vec![Value::Integer(4)]),
        None,
    ));
    assert!(matches!(actions[0], ClientAction::InvocationReceived(500, 88, _, _)));

    let (actions, _) = client.handle_message(Message::Invocation(
        501,
        1234,
        wampire::InvocationDetails::new(),
        None,
        None,
    ));
    assert!(actions.is_empty());
}

#[test]
fn errors_fail_the_request_they_name() {
    let mut client = connected_client();
    let m = client.call(URI::new("ca.tests.proc"), None, None);
    let call_id = match m {
        Message::Call(call_id, _, _, _, _) => call_id,
        _ => panic!("expected a call request"),
    };
    let (actions, _) = client.handle_message(Message::Error(
        ErrorType::Call,
        call_id,
        Dict::new(),
        Reason::NoSuchProcedure,
        None,
        None,
    ));
    match &actions[0] {
        ClientAction::RequestFailed(ty, rid, error) => {
            assert_eq!(*ty, ErrorType::Call);
            assert_eq!(*rid, call_id);
            assert_eq!(error.reason, Reason::NoSuchProcedure);
        }
        _ => panic!("expected the call to fail"),
    }
}

#[test]
fn request_ids_rise_one_by_one() {
    let mut client = connected_client();
    let first = match client.publish(URI::new("ca.a"), None, None) {
        Message::Publish(id, _, _, _, _) => id,
        _ => panic!("expected a publish request"),
    };
    let second = match client.publish(URI::new("ca.b"), None, None) {
        Message::Publish(id, _, _, _, _) => id,
        _ => panic!("expected a publish request"),
    };
    assert_eq!(second, first + 1);
}

#[test]
fn publish_with_acknowledgement_completes_with_the_publication_id() {
    let mut client = connected_client();
    let m = client.publish_and_acknowledge(URI::new("ca.tests.topic"), None, None);
    let request_id = match m {
        Message::Publish(request_id, options, _, _, _) => {
            assert!(options.should_acknowledge());
            request_id
        }
        _ => panic!("expected a publish request"),
    };
    let (actions, _) = client.handle_message(Message::Published(request_id, 999));
    assert!(matches!(actions[0], ClientAction::PublishComplete(_, 999)));
}

#[test]
fn shutdown_outside_a_session_yields_no_goodbye() {
    let mut client = Client::new();
    assert!(client.shutdown().is_none());
}

#[test]
fn subscribe_with_pattern_names_the_policy() {
    let mut client = connected_client();
    let m = client.subscribe_with_pattern(URI::new("com.example"), MatchingPolicy::Prefix);
    match m {
        Message::Subscribe(_, options, _) => {
            assert_eq!(options.pattern_match, MatchingPolicy::Prefix)
        }
        _ => panic!("expected a subscribe request"),
    }
}

#[test]
fn register_with_pattern_names_the_policy() {
    let mut client = connected_client();
    let m = client.register_with_pattern(URI::new("com.example"), MatchingPolicy::Wildcard);
    match m {
        Message::Register(_, options, _) => {
            assert_eq!(options.pattern_match, MatchingPolicy::Wildcard)
        }
        _ => panic!("expected a register request"),
    }
}

#[test]
fn unregister_completes_and_drops_the_registration() {
    let mut client = connected_client();
    let m = client.register(URI::new("ca.tests.proc"));
    let request_id = match m {
        Message::Register(request_id, _, _) => request_id,
        _ => panic!("expected a register request"),
    };
    client.handle_message(Message::Registered(request_id, 88));
    let m = client.unregister(Registration {
        procedure: URI::new("ca.tests.proc"),
        registration_id: 88,
    });
    let request_id = match m {
        Message::Unregister(request_id, 88) => request_id,
        _ => panic!("expected an unregister request"),
    };
    let (actions, _) = client.handle_message(Message::Unregistered(request_id));
    assert!(matches!(actions[0], ClientAction::UnregisterComplete(_, 88)));
}

#[test]
fn yields_and_invocation_errors_name_the_invocation() {
    match Client::yield_result(500, Some(vec![Value::Integer(1)]), None) {
        Message::Yield(500, _, Some(args), None) => assert_eq!(args, vec![Value::Integer(1)]),
        _ => panic!("expected a yield"),
    }
    let error = wampire::CallError::new(Reason::InvalidArgument, None, None);
    match Client::yield_error(500, error) {
        Message::Error(ErrorType::Invocation, 500, _, Reason::InvalidArgument, None, None) => {}
        _ => panic!("expected an invocation error"),
    }
}

#[test]
fn connection_loss_fails_every_pending_request() {
    let mut client = connected_client();
    let call_id = match client.call(URI::new("ca.slow"), None, None) {
        Message::Call(id, _, _, _, _) => id,
        _ => panic!("expected a call request"),
    };
    let publish_id = match client.publish_and_acknowledge(URI::new("ca.t"), None, None) {
        Message::Publish(id, _, _, _, _) => id,
        _ => panic!("expected a publish request"),
    };
    client.shutdown().unwrap();
    let actions = client.connection_lost();
    assert_eq!(actions.len(), 3);
    match &actions[0] {
        ClientAction::RequestFailed(ErrorType::Publish, rid, error) => {
            assert_eq!(*rid, publish_id);
            assert_eq!(error.reason, Reason::NetworkFailure);
        }
        _ => panic!("expected the publish to fail over"),
    }
    match &actions[1] {
        ClientAction::RequestFailed(ErrorType::Call, rid, error) => {
            assert_eq!(*rid, call_id);
            assert_eq!(error.reason, Reason::NetworkFailure);
        }
        _ => panic!("expected the call to fail over"),
    }
    assert!(matches!(actions[2], ClientAction::ShutdownComplete));
    assert_eq!(client.state, ClientState::Disconnected);
}
