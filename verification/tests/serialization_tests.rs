//! The wire codec, carried through real JSON text and MsgPack bytes: every
//! message kind round-trips, and the JSON text is exactly the expected one.
use serde_json::Value as JsonValue;
use wampire::{
    CallOptions, ClientRoles, Dict, ErrorDetails, ErrorType, EventDetails, HelloDetails,
    InvocationDetails, Message, PublishOptions, Reason, RegisterOptions, ResultDetails,
    RouterRoles, SubscribeOptions, Value, WelcomeDetails, YieldOptions, URI,
};

fn tree_to_json(v: Value) -> JsonValue {
    match v {
        Value::Dict(d) => {
            let mut m = serde_json::Map::new();
            for (k, x) in d.entries {
                m.insert(k, tree_to_json(x));
            }
            JsonValue::Object(m)
        }
        Value::List(l) => JsonValue::Array(l.into_iter().map(tree_to_json).collect()),
        Value::String(s) => JsonValue::String(s),
        Value::Integer(i) => JsonValue::from(i),
        Value::UnsignedInteger(u) => JsonValue::from(u),
        Value::Float(bits) => JsonValue::from(f64::from_bits(bits)),
        Value::Boolean(b) => JsonValue::Bool(b),
    }
}

fn json_to_tree(v: JsonValue) -> Value {
    match v {
        JsonValue::Object(m) => {
            let mut d = Dict::new();
            for (k, x) in m {
                d.insert(k, json_to_tree(x));
            }
            Value::Dict(d)
        }
        JsonValue::Array(a) => Value::List(a.into_iter().map(json_to_tree).collect()),
        JsonValue::String(s) => Value::String(s),
        JsonValue::Number(n) => {
            if let Some(u) = n.as_u64() {
                Value::UnsignedInteger(u)
            } else if let Some(i) = n.as_i64() {
                Value::Integer(i)
            } else {
                Value::Float(n.as_f64().unwrap().to_bits())
            }
        }
        JsonValue::Bool(b) => Value::Boolean(b),
        JsonValue::Null => panic!("the value model holds no null"),
    }
}

fn two_way<F: Fn() -> Message>(make: F, expected: &str) {
    let json = serde_json::to_string(&tree_to_json(make().to_wire())).unwrap();
    assert_eq!(json, expected);
    let back = Message::from_wire(json_to_tree(serde_json::from_str(expected).unwrap())).unwrap();
    assert_eq!(back, make());
    let buf = rmp_serde::to_vec(&tree_to_json(make().to_wire())).unwrap();
    let decoded: JsonValue = rmp_serde::from_slice(&buf).unwrap();
    let back = Message::from_wire(json_to_tree(decoded)).unwrap();
    assert_eq!(back, make());
}

#[test]
fn serialize_hello() {
    two_way(
        || Message::Hello(URI::new("ca.dal.wamp.test"), HelloDetails::new(ClientRoles::new_basic())),
        "[1,\"ca.dal.wamp.test\",{\"roles\":{\"publisher\":{\"features\":{}},\"subscriber\":{\"features\":{}},\"caller\":{\"features\":{}},\"callee\":{\"features\":{}}}}]",
    );
    two_way(
        || Message::Hello(URI::new("ca.dal.wamp.test"), HelloDetails::new_with_agent(ClientRoles::new(), "dal_wamp")),
        "[1,\"ca.dal.wamp.test\",{\"agent\":\"dal_wamp\",\"roles\":{\"publisher\":{\"features\":{}},\"subscriber\":{\"features\":{\"pattern_based_subscription\":true}},\"caller\":{\"features\":{}},\"callee\":{\"features\":{}}}}]",
    )
}

#[test]
fn serialize_welcome() {
    two_way(
        || Message::Welcome(493782, WelcomeDetails::new(RouterRoles::new_basic())),
        "[2,493782,{\"roles\":{\"dealer\":{},\"broker\":{}}}]",
    );
    two_way(
        || Message::Welcome(493782, WelcomeDetails::new_with_agent(RouterRoles::new(), "dal_wamp")),
        "[2,493782,{\"agent\":\"dal_wamp\",\"roles\":{\"dealer\":{\"features\":{\"pattern_based_registration\":true}},\"broker\":{\"features\":{\"pattern_based_subscription\":true}}}}]",
    );
}

#[test]
fn serialize_abort() {
    two_way(
        || Message::Abort(ErrorDetails::new(), Reason::NoSuchRealm),
        "[3,{},\"wamp.error.no_such_realm\"]",
    );
    two_way(
        || Message::Abort(ErrorDetails::new_with_message("The realm does not exist"), Reason::NoSuchRealm),
        "[3,{\"message\":\"The realm does not exist\"},\"wamp.error.no_such_realm\"]",
    );
}

#[test]
fn serialize_goodbye() {
    two_way(
        || Message::Goodbye(ErrorDetails::new(), Reason::GoodbyeAndOut),
        "[6,{},\"wamp.error.goodbye_and_out\"]",
    );
    two_way(
        || Message::Goodbye(ErrorDetails::new_with_message("The host is shutting down now"), Reason::SystemShutdown),
        "[6,{\"message\":\"The host is shutting down now\"},\"wamp.error.system_shutdown\"]",
    );
}

#[test]
fn serialize_error() {
    two_way(
        || Message::Error(ErrorType::Subscribe, 713845233, Dict::new(), Reason::NotAuthorized, None, None),
        "[8,32,713845233,{},\"wamp.error.not_authorized\"]",
    );
    two_way(
        || Message::Error(ErrorType::Unsubscribe, 3746383, Dict::new(), Reason::InvalidURI, Some(Vec::new()), None),
        "[8,34,3746383,{},\"wamp.error.invalid_uri\",[]]",
    );
    two_way(
        || Message::Error(
            ErrorType::Register,
            8534533,
            Dict::new(),
            Reason::InvalidArgument,
            Some(Vec::new()),
            Some(Dict::new()),
        ),
        "[8,64,8534533,{},\"wamp.error.invalid_argument\",[],{}]",
    );
}

#[test]
fn serialize_subscribe() {
    two_way(
        || Message::Subscribe(58944, SubscribeOptions::new(), URI::new("ca.dal.test.the_sub")),
        "[32,58944,{},\"ca.dal.test.the_sub\"]",
    )
}

#[test]
fn serialize_subscribed() {
    two_way(|| Message::Subscribed(47853, 48975938), "[33,47853,48975938]")
}

#[test]
fn serialize_unsubscribe() {
    two_way(|| Message::Unsubscribe(754, 8763), "[34,754,8763]")
}

#[test]
fn serialize_unsubscribed() {
    two_way(|| Message::Unsubscribed(675343), "[35,675343]")
}

#[test]
fn serialize_publish() {
    two_way(
        || Message::Publish(453453, PublishOptions::new(false), URI::new("ca.dal.test.topic1"), None, None),
        "[16,453453,{},\"ca.dal.test.topic1\"]",
    );
    two_way(
        || Message::Publish(
            23934583,
            PublishOptions::new(true),
            URI::new("ca.dal.test.topic2"),
            Some(vec![Value::String("a value".to_string())]),
            None,
        ),
        "[16,23934583,{\"acknowledge\":true},\"ca.dal.test.topic2\",[\"a value\"]]",
    );
    two_way(
        || {
            let mut kwargs = Dict::new();
            kwargs.insert("key1".to_string(), Value::List(vec![Value::Integer(-5)]));
            Message::Publish(
                3243542,
                PublishOptions::new(true),
                URI::new("ca.dal.test.topic3"),
                Some(Vec::new()),
                Some(kwargs),
            )
        },
        "[16,3243542,{\"acknowledge\":true},\"ca.dal.test.topic3\",[],{\"key1\":[-5]}]",
    )
}

#[test]
fn serialize_published() {
    two_way(|| Message::Published(23443, 564564), "[17,23443,564564]")
}

#[test]
fn serialize_event() {
    two_way(
        || Message::Event(4353453, 298173, EventDetails::new(), None, None),
        "[36,4353453,298173,{}]",
    );
    two_way(
        || Message::Event(
            764346,
            3895494,
            EventDetails::new(),
            Some(vec![Value::String("a value".to_string())]),
            None,
        ),
        "[36,764346,3895494,{},[\"a value\"]]",
    );
    two_way(
        || {
            let mut kwargs = Dict::new();
            kwargs.insert("key1".to_string(), Value::List(vec![Value::Integer(-5)]));
            Message::Event(65675, 587495, EventDetails::new(), Some(Vec::new()), Some(kwargs))
        },
        "[36,65675,587495,{},[],{\"key1\":[-5]}]",
    )
}

#[test]
fn serialize_register() {
    two_way(
        || Message::Register(25349185, RegisterOptions::new(), URI::new("ca.test.proc")),
        "[64,25349185,{},\"ca.test.proc\"]",
    );
}

#[test]
fn serialize_registered() {
    two_way(|| Message::Registered(25349185, 2103333224), "[65,25349185,2103333224]");
}

#[test]
fn serialize_unregister() {
    two_way(|| Message::Unregister(788923562, 2103333224), "[66,788923562,2103333224]");
}

#[test]
fn serialize_unregistered() {
    two_way(|| Message::Unregistered(788923562), "[67,788923562]");
}

#[test]
fn serialize_call() {
    two_way(
        || Message::Call(7814135, CallOptions::new(), URI::new("com.myapp.ping"), None, None),
        "[48,7814135,{},\"com.myapp.ping\"]",
    );
    two_way(
        || Message::Call(
            764346,
            CallOptions::new(),
            URI::new("com.myapp.echo"),
            Some(vec![Value::String("a value".to_string())]),
            None,
        ),
        "[48,764346,{},\"com.myapp.echo\",[\"a value\"]]",
    );
    two_way(
        || {
            let mut kwargs = Dict::new();
            kwargs.insert("key1".to_string(), Value::List(vec![Value::UnsignedInteger(5)]));
            Message::Call(
                764346,
                CallOptions::new(),
                URI::new("com.myapp.compute"),
                Some(Vec::new()),
                Some(kwargs),
            )
        },
        "[48,764346,{},\"com.myapp.compute\",[],{\"key1\":[5]}]",
    )
}

#[test]
fn serialize_invocation() {
    two_way(
        || Message::Invocation(
            764346,
            9823526,
            InvocationDetails::new(),
            Some(vec![Value::String("a value".to_string())]),
            None,
        ),
        "[68,764346,9823526,{},[\"a value\"]]",
    );
    two_way(
        || {
            let mut kwargs = Dict::new();
            kwargs.insert("key1".to_string(), Value::List(vec![Value::UnsignedInteger(5)]));
            Message::Invocation(764346, 9823526, InvocationDetails::new(), Some(Vec::new()), Some(kwargs))
        },
        "[68,764346,9823526,{},[],{\"key1\":[5]}]",
    )
}

#[test]
fn serialize_yield() {
    two_way(|| Message::Yield(6131533, YieldOptions::new(), None, None), "[70,6131533,{}]");
    two_way(
        || Message::Yield(
            6131533,
            YieldOptions::new(),
            Some(vec![Value::String("a value".to_string())]),
            None,
        ),
        "[70,6131533,{},[\"a value\"]]",
    );
    two_way(
        || {
            let mut kwargs = Dict::new();
            kwargs.insert("key1".to_string(), Value::List(vec![Value::UnsignedInteger(5)]));
            Message::Yield(6131533, YieldOptions::new(), Some(Vec::new()), Some(kwargs))
        },
        "[70,6131533,{},[],{\"key1\":[5]}]",
    )
}

#[test]
fn serialize_result() {
    two_way(|| Message::Result(7814135, ResultDetails::new(), None, None), "[50,7814135,{}]");
    two_way(
        || Message::Result(
            764346,
            ResultDetails::new(),
            Some(vec![Value::String("a value".to_string())]),
            None,
        ),
        "[50,764346,{},[\"a value\"]]",
    );
    two_way(
        || {
            let mut kwargs = Dict::new();
            kwargs.insert("key1".to_string(), Value::List(vec![Value::Float(8.6f64.to_bits())]));
            Message::Result(764346, ResultDetails::new(), Some(Vec::new()), Some(kwargs))
        },
        "[50,764346,{},[],{\"key1\":[8.6]}]",
    )
}

#[test]
fn unknown_tag_fails_decoding() {
    let r = Message::from_wire(json_to_tree(serde_json::from_str("[99,1,2]").unwrap()));
    assert!(r.is_err());
}

#[test]
fn keyword_payload_alone_rides_behind_an_empty_list() {
    let mut kwargs = Dict::new();
    kwargs.insert("k".to_string(), Value::Integer(1));
    let m = Message::Yield(7, YieldOptions::new(), None, Some(kwargs));
    let json = serde_json::to_string(&tree_to_json(m.to_wire())).unwrap();
    assert_eq!(json, "[70,7,{},[],{\"k\":1}]");
}
