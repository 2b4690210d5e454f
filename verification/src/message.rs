//! The messages of the protocol and their wire form: each message is an
//! array whose first element is a numeric tag, and whose trailing positional
//! and keyword payloads are optional.
//!
//! Writing appends the payloads by the tail rule: nothing when both are
//! absent, the list alone when only it is present, and an empty list ahead
//! of the keyword dictionary when only the dictionary is present.  Reading
//! is permissive about the tail and treats a missing tail as absent.
use vstd::prelude::*;

use crate::errors::{ErrorType, Reason};
use crate::policies::{InvocationPolicy, MatchingPolicy};
use crate::options::{
    CallOptions, ErrorDetails, EventDetails, HelloDetails, InvocationDetails, PublishOptions,
    RegisterOptions, ResultDetails, SubscribeOptions, WelcomeDetails, YieldOptions,
};
use crate::value::{Dict, List, Value, URI};
use crate::ID;

verus! {

/// A message of the protocol, one variant per wire tag.
#[derive(Debug, PartialEq)]
pub enum Message {
    /// Tag 1: a client joins a realm.
    Hello(URI, HelloDetails),
    /// Tag 2: the router admits a session.
    Welcome(ID, WelcomeDetails),
    /// Tag 3: a peer refuses the handshake.
    Abort(ErrorDetails, Reason),
    /// Tag 6: a peer leaves the session.
    Goodbye(ErrorDetails, Reason),
    /// Tag 8: a request failed; names the request kind and id.
    Error(ErrorType, ID, Dict, Reason, Option<List>, Option<Dict>),
    /// Tag 32: a client asks to observe a topic pattern.
    Subscribe(ID, SubscribeOptions, URI),
    /// Tag 33: the router acknowledges a subscription.
    Subscribed(ID, ID),
    /// Tag 34: a client drops a subscription.
    Unsubscribe(ID, ID),
    /// Tag 35: the router acknowledges the drop.
    Unsubscribed(ID),
    /// Tag 16: a client publishes to a topic.
    Publish(ID, PublishOptions, URI, Option<List>, Option<Dict>),
    /// Tag 17: the router acknowledges a publication.
    Published(ID, ID),
    /// Tag 36: the router delivers a publication to a subscriber.
    Event(ID, ID, EventDetails, Option<List>, Option<Dict>),
    /// Tag 64: a client offers a procedure.
    Register(ID, RegisterOptions, URI),
    /// Tag 65: the router acknowledges a registration.
    Registered(ID, ID),
    /// Tag 66: a client withdraws a procedure.
    Unregister(ID, ID),
    /// Tag 67: the router acknowledges the withdrawal.
    Unregistered(ID),
    /// Tag 48: a client calls a procedure.
    Call(ID, CallOptions, URI, Option<List>, Option<Dict>),
    /// Tag 68: the router hands a call to a callee.
    Invocation(ID, ID, InvocationDetails, Option<List>, Option<Dict>),
    /// Tag 70: a callee answers an invocation.
    Yield(ID, YieldOptions, Option<List>, Option<Dict>),
    /// Tag 50: the router hands a call's outcome to the caller.
    Result(ID, ResultDetails, Option<List>, Option<Dict>),
}

/// The identifier a wire value carries, read from either integer shape.
pub open spec fn spec_as_id(v: Value) -> Option<u64> {
    match v {
        Value::UnsignedInteger(u) => Some(u),
        Value::Integer(i) => if i >= 0 {
            Some(i as u64)
        } else {
            None
        },
        _ => None,
    }
}

fn as_id(v: &Value) -> (r: Option<u64>)
    ensures
        r == spec_as_id(*v),
{
    match v {
        Value::UnsignedInteger(u) => Some(*u),
        Value::Integer(i) => if *i >= 0 {
            Some(*i as u64)
        } else {
            None
        },
        _ => None,
    }
}

/// The wire form a reason writes: a known reason writes its URI text, the
/// catch-all variant writes the text it carries.
pub open spec fn reason_wire_matches(r: Reason, v: Value) -> bool {
    match r {
        Reason::CustomReason(u) => v == Value::String(u.uri),
        _ => v matches Value::String(s) && s@ == r.uri_text(),
    }
}

/// The reason a wire string names.
pub open spec fn spec_reason_of(s: String) -> Reason {
    match Reason::spec_of_text(s@) {
        Some(k) => k,
        None => Reason::CustomReason(URI { uri: s }),
    }
}

fn reason_of_string(s: String) -> (r: Reason)
    ensures
        r == spec_reason_of(s),
{
    let k = Reason::from_text(s.as_str());
    match k {
        Reason::CustomReason(_) => Reason::CustomReason(URI { uri: s }),
        other => other,
    }
}

fn reason_to_value(r: Reason) -> (v: Value)
    ensures
        reason_wire_matches(r, v),
{
    match r {
        Reason::CustomReason(u) => Value::String(u.uri),
        other => Value::String(other.get_string().to_owned()),
    }
}

/// How the optional payloads stand at the end of a message array, after
/// `base` leading elements.
pub open spec fn tail_matches(
    items: Seq<Value>,
    base: int,
    args: Option<List>,
    kwargs: Option<Dict>,
) -> bool {
    match (args, kwargs) {
        (Option::None, Option::None) => items.len() == base,
        (Option::Some(a), Option::None) => items.len() == base + 1 && items[base] == Value::List(a),
        (Option::None, Option::Some(k)) => items.len() == base + 2 && (items[base] matches
        Value::List(l) && l@.len() == 0) && items[base + 1] == Value::Dict(k),
        (Option::Some(a), Option::Some(k)) => items.len() == base + 2 && items[base]
            == Value::List(a) && items[base + 1] == Value::Dict(k),
    }
}

/// The optional payloads read from the end of a message array: absent when
/// missing, else a list, else a list and a dictionary.
pub open spec fn spec_parse_tail(rest: Seq<Value>) -> Option<(Option<List>, Option<Dict>)> {
    if rest.len() == 0 {
        Some((Option::None, Option::None))
    } else if rest.len() == 1 {
        match rest[0] {
            Value::List(l) => Some((Some(l), Option::None)),
            _ => None,
        }
    } else if rest.len() == 2 {
        match rest[0] {
            Value::List(l) => match rest[1] {
                Value::Dict(k) => Some((Some(l), Some(k))),
                _ => None,
            },
            _ => None,
        }
    } else {
        None
    }
}

fn parse_tail(rest: Vec<Value>) -> (r: Result<(Option<List>, Option<Dict>), &'static str>)
    ensures
        match spec_parse_tail(rest@) {
            Some(t) => r == Ok::<(Option<List>, Option<Dict>), &'static str>(t),
            None => r is Err,
        },
{
    let ghost g = rest@;
    let mut rest = rest;
    if rest.len() == 0 {
        Ok((None, None))
    } else if rest.len() == 1 {
        let a = rest.remove(0);
        match a {
            Value::List(l) => Ok((Some(l), None)),
            _ => Err("message arguments were not a list"),
        }
    } else if rest.len() == 2 {
        let a = rest.remove(0);
        let k = rest.remove(0);
        proof {
            assert(g.remove(0) =~= g.skip(1));
        }
        match a {
            Value::List(l) => match k {
                Value::Dict(d) => Ok((Some(l), Some(d))),
                _ => Err("message keyword arguments were not a dict"),
            },
            _ => Err("message arguments were not a list"),
        }
    } else {
        Err("message held trailing elements")
    }
}

fn push_tail(items: &mut Vec<Value>, args: Option<List>, kwargs: Option<Dict>)
    ensures
        final(items)@.len() >= old(items)@.len(),
        forall|i: int|
            0 <= i < old(items)@.len() ==> final(items)@[i] == old(items)@[i],
        tail_matches(final(items)@, old(items)@.len() as int, args, kwargs),
{
    match (args, kwargs) {
        (Option::None, Option::None) => {},
        (Option::Some(a), Option::None) => {
            items.push(Value::List(a));
        },
        (Option::None, Option::Some(k)) => {
            items.push(Value::List(Vec::new()));
            items.push(Value::Dict(k));
        },
        (Option::Some(a), Option::Some(k)) => {
            items.push(Value::List(a));
            items.push(Value::Dict(k));
        },
    }
}

impl Message {
    /// The array wire form of this message.
    pub open spec fn wire_matches(self, v: Value) -> bool {
        v matches Value::List(items) && match self {
            Message::Hello(realm, details) => {
                &&& items@.len() == 3
                &&& items@[0] == Value::UnsignedInteger(1u64)
                &&& items@[1] == Value::String(realm.uri)
                &&& details.wire_matches(items@[2])
            },
            Message::Welcome(session, details) => {
                &&& items@.len() == 3
                &&& items@[0] == Value::UnsignedInteger(2u64)
                &&& items@[1] == Value::UnsignedInteger(session)
                &&& details.wire_matches(items@[2])
            },
            Message::Abort(details, reason) => {
                &&& items@.len() == 3
                &&& items@[0] == Value::UnsignedInteger(3u64)
                &&& details.wire_matches(items@[1])
                &&& reason_wire_matches(reason, items@[2])
            },
            Message::Goodbye(details, reason) => {
                &&& items@.len() == 3
                &&& items@[0] == Value::UnsignedInteger(6u64)
                &&& details.wire_matches(items@[1])
                &&& reason_wire_matches(reason, items@[2])
            },
            Message::Error(ty, id, details, reason, args, kwargs) => {
                &&& items@.len() >= 5
                &&& items@[0] == Value::UnsignedInteger(8u64)
                &&& items@[1] == Value::UnsignedInteger(ty.spec_tag())
                &&& items@[2] == Value::UnsignedInteger(id)
                &&& items@[3] == Value::Dict(details)
                &&& reason_wire_matches(reason, items@[4])
                &&& tail_matches(items@, 5, args, kwargs)
            },
            Message::Subscribe(request, options, topic) => {
                &&& items@.len() == 4
                &&& items@[0] == Value::UnsignedInteger(32u64)
                &&& items@[1] == Value::UnsignedInteger(request)
                &&& options.wire_matches(items@[2])
                &&& items@[3] == Value::String(topic.uri)
            },
            Message::Subscribed(request, subscription) => {
                &&& items@.len() == 3
                &&& items@[0] == Value::UnsignedInteger(33u64)
                &&& items@[1] == Value::UnsignedInteger(request)
                &&& items@[2] == Value::UnsignedInteger(subscription)
            },
            Message::Unsubscribe(request, subscription) => {
                &&& items@.len() == 3
                &&& items@[0] == Value::UnsignedInteger(34u64)
                &&& items@[1] == Value::UnsignedInteger(request)
                &&& items@[2] == Value::UnsignedInteger(subscription)
            },
            Message::Unsubscribed(request) => {
                &&& items@.len() == 2
                &&& items@[0] == Value::UnsignedInteger(35u64)
                &&& items@[1] == Value::UnsignedInteger(request)
            },
            Message::Publish(request, options, topic, args, kwargs) => {
                &&& items@.len() >= 4
                &&& items@[0] == Value::UnsignedInteger(16u64)
                &&& items@[1] == Value::UnsignedInteger(request)
                &&& options.wire_matches(items@[2])
                &&& items@[3] == Value::String(topic.uri)
                &&& tail_matches(items@, 4, args, kwargs)
            },
            Message::Published(request, publication) => {
                &&& items@.len() == 3
                &&& items@[0] == Value::UnsignedInteger(17u64)
                &&& items@[1] == Value::UnsignedInteger(request)
                &&& items@[2] == Value::UnsignedInteger(publication)
            },
            Message::Event(subscription, publication, details, args, kwargs) => {
                &&& items@.len() >= 4
                &&& items@[0] == Value::UnsignedInteger(36u64)
                &&& items@[1] == Value::UnsignedInteger(subscription)
                &&& items@[2] == Value::UnsignedInteger(publication)
                &&& details.wire_matches(items@[3])
                &&& tail_matches(items@, 4, args, kwargs)
            },
            Message::Register(request, options, procedure) => {
                &&& items@.len() == 4
                &&& items@[0] == Value::UnsignedInteger(64u64)
                &&& items@[1] == Value::UnsignedInteger(request)
                &&& options.wire_matches(items@[2])
                &&& items@[3] == Value::String(procedure.uri)
            },
            Message::Registered(request, registration) => {
                &&& items@.len() == 3
                &&& items@[0] == Value::UnsignedInteger(65u64)
                &&& items@[1] == Value::UnsignedInteger(request)
                &&& items@[2] == Value::UnsignedInteger(registration)
            },
            Message::Unregister(request, registration) => {
                &&& items@.len() == 3
                &&& items@[0] == Value::UnsignedInteger(66u64)
                &&& items@[1] == Value::UnsignedInteger(request)
                &&& items@[2] == Value::UnsignedInteger(registration)
            },
            Message::Unregistered(request) => {
                &&& items@.len() == 2
                &&& items@[0] == Value::UnsignedInteger(67u64)
                &&& items@[1] == Value::UnsignedInteger(request)
            },
            Message::Call(request, options, procedure, args, kwargs) => {
                &&& items@.len() >= 4
                &&& items@[0] == Value::UnsignedInteger(48u64)
                &&& items@[1] == Value::UnsignedInteger(request)
                &&& options.wire_matches(items@[2])
                &&& items@[3] == Value::String(procedure.uri)
                &&& tail_matches(items@, 4, args, kwargs)
            },
            Message::Invocation(request, registration, details, args, kwargs) => {
                &&& items@.len() >= 4
                &&& items@[0] == Value::UnsignedInteger(68u64)
                &&& items@[1] == Value::UnsignedInteger(request)
                &&& items@[2] == Value::UnsignedInteger(registration)
                &&& details.wire_matches(items@[3])
                &&& tail_matches(items@, 4, args, kwargs)
            },
            Message::Yield(request, options, args, kwargs) => {
                &&& items@.len() >= 3
                &&& items@[0] == Value::UnsignedInteger(70u64)
                &&& items@[1] == Value::UnsignedInteger(request)
                &&& options.wire_matches(items@[2])
                &&& tail_matches(items@, 3, args, kwargs)
            },
            Message::Result(request, details, args, kwargs) => {
                &&& items@.len() >= 3
                &&& items@[0] == Value::UnsignedInteger(50u64)
                &&& items@[1] == Value::UnsignedInteger(request)
                &&& details.wire_matches(items@[2])
                &&& tail_matches(items@, 3, args, kwargs)
            },
        }
    }

    /// Writes the message as its array wire form.
    pub fn to_wire(self) -> (v: Value)
        ensures
            self.wire_matches(v),
    {
        let mut items: Vec<Value> = Vec::new();
        match self {
            Message::Hello(realm, details) => {
                items.push(Value::UnsignedInteger(1));
                items.push(Value::String(realm.uri));
                items.push(details.to_wire());
            },
            Message::Welcome(session, details) => {
                items.push(Value::UnsignedInteger(2));
                items.push(Value::UnsignedInteger(session));
                items.push(details.to_wire());
            },
            Message::Abort(details, reason) => {
                items.push(Value::UnsignedInteger(3));
                items.push(details.to_wire());
                items.push(reason_to_value(reason));
            },
            Message::Goodbye(details, reason) => {
                items.push(Value::UnsignedInteger(6));
                items.push(details.to_wire());
                items.push(reason_to_value(reason));
            },
            Message::Error(ty, id, details, reason, args, kwargs) => {
                items.push(Value::UnsignedInteger(8));
                items.push(Value::UnsignedInteger(ty.to_tag()));
                items.push(Value::UnsignedInteger(id));
                items.push(Value::Dict(details));
                items.push(reason_to_value(reason));
                push_tail(&mut items, args, kwargs);
            },
            Message::Subscribe(request, options, topic) => {
                items.push(Value::UnsignedInteger(32));
                items.push(Value::UnsignedInteger(request));
                items.push(options.to_wire());
                items.push(Value::String(topic.uri));
            },
            Message::Subscribed(request, subscription) => {
                items.push(Value::UnsignedInteger(33));
                items.push(Value::UnsignedInteger(request));
                items.push(Value::UnsignedInteger(subscription));
            },
            Message::Unsubscribe(request, subscription) => {
                items.push(Value::UnsignedInteger(34));
                items.push(Value::UnsignedInteger(request));
                items.push(Value::UnsignedInteger(subscription));
            },
            Message::Unsubscribed(request) => {
                items.push(Value::UnsignedInteger(35));
                items.push(Value::UnsignedInteger(request));
            },
            Message::Publish(request, options, topic, args, kwargs) => {
                items.push(Value::UnsignedInteger(16));
                items.push(Value::UnsignedInteger(request));
                items.push(options.to_wire());
                items.push(Value::String(topic.uri));
                push_tail(&mut items, args, kwargs);
            },
            Message::Published(request, publication) => {
                items.push(Value::UnsignedInteger(17));
                items.push(Value::UnsignedInteger(request));
                items.push(Value::UnsignedInteger(publication));
            },
            Message::Event(subscription, publication, details, args, kwargs) => {
                items.push(Value::UnsignedInteger(36));
                items.push(Value::UnsignedInteger(subscription));
                items.push(Value::UnsignedInteger(publication));
                items.push(details.to_wire());
                push_tail(&mut items, args, kwargs);
            },
            Message::Register(request, options, procedure) => {
                items.push(Value::UnsignedInteger(64));
                items.push(Value::UnsignedInteger(request));
                items.push(options.to_wire());
                items.push(Value::String(procedure.uri));
            },
            Message::Registered(request, registration) => {
                items.push(Value::UnsignedInteger(65));
                items.push(Value::UnsignedInteger(request));
                items.push(Value::UnsignedInteger(registration));
            },
            Message::Unregister(request, registration) => {
                items.push(Value::UnsignedInteger(66));
                items.push(Value::UnsignedInteger(request));
                items.push(Value::UnsignedInteger(registration));
            },
            Message::Unregistered(request) => {
                items.push(Value::UnsignedInteger(67));
                items.push(Value::UnsignedInteger(request));
            },
            Message::Call(request, options, procedure, args, kwargs) => {
                items.push(Value::UnsignedInteger(48));
                items.push(Value::UnsignedInteger(request));
                items.push(options.to_wire());
                items.push(Value::String(procedure.uri));
                push_tail(&mut items, args, kwargs);
            },
            Message::Invocation(request, registration, details, args, kwargs) => {
                items.push(Value::UnsignedInteger(68));
                items.push(Value::UnsignedInteger(request));
                items.push(Value::UnsignedInteger(registration));
                items.push(details.to_wire());
                push_tail(&mut items, args, kwargs);
            },
            Message::Yield(request, options, args, kwargs) => {
                items.push(Value::UnsignedInteger(70));
                items.push(Value::UnsignedInteger(request));
                items.push(options.to_wire());
                push_tail(&mut items, args, kwargs);
            },
            Message::Result(request, details, args, kwargs) => {
                items.push(Value::UnsignedInteger(50));
                items.push(Value::UnsignedInteger(request));
                items.push(details.to_wire());
                push_tail(&mut items, args, kwargs);
            },
        }
        Value::List(items)
    }

    /// The message an array wire value holds, if it holds one.
    pub open spec fn spec_parse(v: Value) -> Option<Message> {
        match v {
            Value::List(items) => {
                if items@.len() == 0 {
                    None
                } else {
                    match spec_as_id(items@[0]) {
                        Some(tag) => {
                            if tag == 1 {
                                spec_parse_hello(items@)
                            } else if tag == 2 {
                                spec_parse_welcome(items@)
                            } else if tag == 3 || tag == 6 {
                                spec_parse_close(items@, tag)
                            } else if tag == 8 {
                                spec_parse_error(items@)
                            } else if tag == 32 {
                                spec_parse_subscribe(items@)
                            } else if tag == 16 {
                                spec_parse_publish(items@)
                            } else if tag == 64 {
                                spec_parse_register(items@)
                            } else if tag == 48 {
                                spec_parse_call(items@)
                            } else if tag == 36 {
                                spec_parse_event(items@)
                            } else if tag == 68 {
                                spec_parse_invocation(items@)
                            } else if tag == 70 {
                                spec_parse_yield(items@)
                            } else if tag == 50 {
                                spec_parse_result(items@)
                            } else if tag == 33 || tag == 34 || tag == 17 || tag == 65 || tag
                                == 66 {
                                spec_parse_two_ids(items@, tag)
                            } else if tag == 35 || tag == 67 {
                                spec_parse_one_id(items@, tag)
                            } else {
                                None
                            }
                        },
                        None => None,
                    }
                }
            },
            _ => None,
        }
    }

    /// Reads a message from its array wire value; a value of any other
    /// shape, an unknown tag, or a malformed body is refused.
    pub fn from_wire(v: Value) -> (r: Result<Message, &'static str>)
        ensures
            match Message::spec_parse(v) {
                Some(m) => r == Ok::<Message, &'static str>(m),
                None => r is Err,
            },
    {
        let items = match v {
            Value::List(items) => items,
            _ => {
                return Err("a message must be an array");
            },
        };
        if items.len() == 0 {
            return Err("No message type found");
        }
        let tag = match as_id(&items[0]) {
            Some(t) => t,
            None => {
                return Err("No message type found");
            },
        };
        if tag == 1 {
            parse_hello(items)
        } else if tag == 2 {
            parse_welcome(items)
        } else if tag == 3 || tag == 6 {
            parse_close(items, tag)
        } else if tag == 8 {
            parse_error(items)
        } else if tag == 32 {
            parse_subscribe(items)
        } else if tag == 16 {
            parse_publish(items)
        } else if tag == 64 {
            parse_register(items)
        } else if tag == 48 {
            parse_call(items)
        } else if tag == 36 {
            parse_event(items)
        } else if tag == 68 {
            parse_invocation(items)
        } else if tag == 70 {
            parse_yield(items)
        } else if tag == 50 {
            parse_result(items)
        } else if tag == 33 || tag == 34 || tag == 17 || tag == 65 || tag == 66 {
            parse_two_ids(items, tag)
        } else if tag == 35 || tag == 67 {
            parse_one_id(items, tag)
        } else {
            Err("Unknown message type")
        }
    }
}

/// The greeting read from a full array: realm text, details record.
pub open spec fn spec_parse_hello(items: Seq<Value>) -> Option<Message> {
    if items.len() != 3 {
        None
    } else {
        match items[1] {
            Value::String(s) => match HelloDetails::spec_parse(items[2]) {
                Some(d) => Some(Message::Hello(URI { uri: s }, d)),
                None => None,
            },
            _ => None,
        }
    }
}

fn parse_hello(items: Vec<Value>) -> (r: Result<Message, &'static str>)
    ensures
        match spec_parse_hello(items@) {
            Some(m) => r == Ok::<Message, &'static str>(m),
            None => r is Err,
        },
{
    let ghost g = items@;
    let mut items = items;
    if items.len() != 3 {
        return Err("Hello message ended before details dict");
    }
    let _tag = items.remove(0);
    let realm_v = items.remove(0);
    let details_v = items.remove(0);
    proof {
        assert(g.remove(0) =~= g.skip(1));
        assert(g.skip(1).remove(0) =~= g.skip(2));
    }
    match realm_v {
        Value::String(s) => match HelloDetails::parse(details_v) {
            Some(d) => Ok(Message::Hello(URI { uri: s }, d)),
            None => Err("Hello message ended before details dict"),
        },
        _ => Err("Hello message ended before realm uri"),
    }
}

/// The welcome read from a full array: session id, details record.
pub open spec fn spec_parse_welcome(items: Seq<Value>) -> Option<Message> {
    if items.len() != 3 {
        None
    } else {
        match spec_as_id(items[1]) {
            Some(id) => match WelcomeDetails::spec_parse(items[2]) {
                Some(d) => Some(Message::Welcome(id, d)),
                None => None,
            },
            None => None,
        }
    }
}

fn parse_welcome(items: Vec<Value>) -> (r: Result<Message, &'static str>)
    ensures
        match spec_parse_welcome(items@) {
            Some(m) => r == Ok::<Message, &'static str>(m),
            None => r is Err,
        },
{
    let ghost g = items@;
    let mut items = items;
    if items.len() != 3 {
        return Err("Welcome message ended before details dict");
    }
    let _tag = items.remove(0);
    let id_v = items.remove(0);
    let details_v = items.remove(0);
    proof {
        assert(g.remove(0) =~= g.skip(1));
        assert(g.skip(1).remove(0) =~= g.skip(2));
    }
    match as_id(&id_v) {
        Some(id) => match WelcomeDetails::parse(&details_v) {
            Some(d) => Ok(Message::Welcome(id, d)),
            None => Err("Welcome message ended before details dict"),
        },
        None => Err("Welcome message ended before session id"),
    }
}

/// An abort or goodbye read from a full array: details record, reason text.
pub open spec fn spec_parse_close(items: Seq<Value>, tag: u64) -> Option<Message> {
    if items.len() != 3 {
        None
    } else {
        match ErrorDetails::spec_parse(items[1]) {
            Some(d) => match items[2] {
                Value::String(s) => if tag == 3 {
                    Some(Message::Abort(d, spec_reason_of(s)))
                } else {
                    Some(Message::Goodbye(d, spec_reason_of(s)))
                },
                _ => None,
            },
            None => None,
        }
    }
}

fn parse_close(items: Vec<Value>, tag: u64) -> (r: Result<Message, &'static str>)
    requires
        tag == 3 || tag == 6,
    ensures
        match spec_parse_close(items@, tag) {
            Some(m) => r == Ok::<Message, &'static str>(m),
            None => r is Err,
        },
{
    let ghost g = items@;
    let mut items = items;
    if items.len() != 3 {
        return Err("Goodbye message ended before reason uri");
    }
    let _tag = items.remove(0);
    let details_v = items.remove(0);
    let reason_v = items.remove(0);
    proof {
        assert(g.remove(0) =~= g.skip(1));
        assert(g.skip(1).remove(0) =~= g.skip(2));
    }
    match ErrorDetails::parse(&details_v) {
        Some(d) => match reason_v {
            Value::String(s) => {
                let reason = reason_of_string(s);
                if tag == 3 {
                    Ok(Message::Abort(d, reason))
                } else {
                    Ok(Message::Goodbye(d, reason))
                }
            },
            _ => Err("Goodbye message ended before reason uri"),
        },
        None => Err("Goodbye message ended before details dict"),
    }
}

/// An error read from an array: request kind, request id, raw details,
/// reason, optional payloads.
pub open spec fn spec_parse_error(items: Seq<Value>) -> Option<Message> {
    if items.len() < 5 {
        None
    } else {
        match spec_as_id(items[1]) {
            Some(ty_tag) => {
                if ty_tag == 32 || ty_tag == 34 || ty_tag == 16 || ty_tag == 64 || ty_tag == 66
                    || ty_tag == 68 || ty_tag == 48 {
                    let ty = spec_error_type_of(ty_tag);
                    match spec_as_id(items[2]) {
                        Some(id) => match items[3] {
                            Value::Dict(d) => match items[4] {
                                Value::String(s) => match spec_parse_tail(items.skip(5)) {
                                    Some(t) => Some(
                                        Message::Error(ty, id, d, spec_reason_of(s), t.0, t.1),
                                    ),
                                    None => None,
                                },
                                _ => None,
                            },
                            _ => None,
                        },
                        None => None,
                    }
                } else {
                    None
                }
            },
            None => None,
        }
    }
}

/// The request kind a numeric tag names, among the known tags.
pub open spec fn spec_error_type_of(t: u64) -> ErrorType {
    if t == 32 {
        ErrorType::Subscribe
    } else if t == 34 {
        ErrorType::Unsubscribe
    } else if t == 16 {
        ErrorType::Publish
    } else if t == 64 {
        ErrorType::Register
    } else if t == 66 {
        ErrorType::Unregister
    } else if t == 68 {
        ErrorType::Invocation
    } else {
        ErrorType::Call
    }
}

fn parse_error(items: Vec<Value>) -> (r: Result<Message, &'static str>)
    ensures
        match spec_parse_error(items@) {
            Some(m) => r == Ok::<Message, &'static str>(m),
            None => r is Err,
        },
{
    let ghost g = items@;
    let mut items = items;
    if items.len() < 5 {
        return Err("Error message ended before reason uri");
    }
    let _tag = items.remove(0);
    let ty_v = items.remove(0);
    let id_v = items.remove(0);
    let details_v = items.remove(0);
    let reason_v = items.remove(0);
    proof {
        assert(g.remove(0) =~= g.skip(1));
        assert(g.skip(1).remove(0) =~= g.skip(2));
        assert(g.skip(2).remove(0) =~= g.skip(3));
        assert(g.skip(3).remove(0) =~= g.skip(4));
        assert(g.skip(4).remove(0) =~= g.skip(5));
    }
    let ty_tag = match as_id(&ty_v) {
        Some(t) => t,
        None => {
            return Err("Error message ended before message type");
        },
    };
    let ty = match ErrorType::from_tag(ty_tag) {
        Some(ty) => ty,
        None => {
            return Err("Invalid message error type");
        },
    };
    let id = match as_id(&id_v) {
        Some(id) => id,
        None => {
            return Err("Error message ended before session id");
        },
    };
    let details = match details_v {
        Value::Dict(d) => d,
        _ => {
            return Err("Error message ended before details dict");
        },
    };
    let reason = match reason_v {
        Value::String(s) => reason_of_string(s),
        _ => {
            return Err("Error message ended before reason uri");
        },
    };
    match parse_tail(items) {
        Ok((args, kwargs)) => Ok(Message::Error(ty, id, details, reason, args, kwargs)),
        Err(e) => Err(e),
    }
}

/// A subscribe or register request read from a full array.
pub open spec fn spec_parse_subscribe(items: Seq<Value>) -> Option<Message> {
    if items.len() != 4 {
        None
    } else {
        match spec_as_id(items[1]) {
            Some(id) => match SubscribeOptions::spec_parse(items[2]) {
                Some(o) => match items[3] {
                    Value::String(s) => Some(Message::Subscribe(id, o, URI { uri: s })),
                    _ => None,
                },
                None => None,
            },
            None => None,
        }
    }
}

fn parse_subscribe(items: Vec<Value>) -> (r: Result<Message, &'static str>)
    ensures
        match spec_parse_subscribe(items@) {
            Some(m) => r == Ok::<Message, &'static str>(m),
            None => r is Err,
        },
{
    let ghost g = items@;
    let mut items = items;
    if items.len() != 4 {
        return Err("Subscribe message ended before topic uri");
    }
    let _tag = items.remove(0);
    let id_v = items.remove(0);
    let options_v = items.remove(0);
    let topic_v = items.remove(0);
    proof {
        assert(g.remove(0) =~= g.skip(1));
        assert(g.skip(1).remove(0) =~= g.skip(2));
        assert(g.skip(2).remove(0) =~= g.skip(3));
    }
    let id = match as_id(&id_v) {
        Some(id) => id,
        None => {
            return Err("Subscribe message ended before request id");
        },
    };
    let options = match SubscribeOptions::parse(&options_v) {
        Some(o) => o,
        None => {
            return Err("Subscribe message ended before options dict");
        },
    };
    match topic_v {
        Value::String(s) => Ok(Message::Subscribe(id, options, URI { uri: s })),
        _ => Err("Subscribe message ended before topic uri"),
    }
}

/// A register request read from a full array.
pub open spec fn spec_parse_register(items: Seq<Value>) -> Option<Message> {
    if items.len() != 4 {
        None
    } else {
        match spec_as_id(items[1]) {
            Some(id) => match RegisterOptions::spec_parse(items[2]) {
                Some(o) => match items[3] {
                    Value::String(s) => Some(Message::Register(id, o, URI { uri: s })),
                    _ => None,
                },
                None => None,
            },
            None => None,
        }
    }
}

fn parse_register(items: Vec<Value>) -> (r: Result<Message, &'static str>)
    ensures
        match spec_parse_register(items@) {
            Some(m) => r == Ok::<Message, &'static str>(m),
            None => r is Err,
        },
{
    let ghost g = items@;
    let mut items = items;
    if items.len() != 4 {
        return Err("Register message ended before procedure");
    }
    let _tag = items.remove(0);
    let id_v = items.remove(0);
    let options_v = items.remove(0);
    let procedure_v = items.remove(0);
    proof {
        assert(g.remove(0) =~= g.skip(1));
        assert(g.skip(1).remove(0) =~= g.skip(2));
        assert(g.skip(2).remove(0) =~= g.skip(3));
    }
    let id = match as_id(&id_v) {
        Some(id) => id,
        None => {
            return Err("Register message ended before request id");
        },
    };
    let options = match RegisterOptions::parse(&options_v) {
        Some(o) => o,
        None => {
            return Err("Register message ended before request options");
        },
    };
    match procedure_v {
        Value::String(s) => Ok(Message::Register(id, options, URI { uri: s })),
        _ => Err("Register message ended before procedure"),
    }
}

/// A publish request read from an array, with its optional payloads.
pub open spec fn spec_parse_publish(items: Seq<Value>) -> Option<Message> {
    if items.len() < 4 {
        None
    } else {
        match spec_as_id(items[1]) {
            Some(id) => match PublishOptions::spec_parse(items[2]) {
                Some(o) => match items[3] {
                    Value::String(s) => match spec_parse_tail(items.skip(4)) {
                        Some(t) => Some(Message::Publish(id, o, URI { uri: s }, t.0, t.1)),
                        None => None,
                    },
                    _ => None,
                },
                None => None,
            },
            None => None,
        }
    }
}

fn parse_publish(items: Vec<Value>) -> (r: Result<Message, &'static str>)
    ensures
        match spec_parse_publish(items@) {
            Some(m) => r == Ok::<Message, &'static str>(m),
            None => r is Err,
        },
{
    let ghost g = items@;
    let mut items = items;
    if items.len() < 4 {
        return Err("Publish message ended before topic uri");
    }
    let _tag = items.remove(0);
    let id_v = items.remove(0);
    let options_v = items.remove(0);
    let topic_v = items.remove(0);
    proof {
        assert(g.remove(0) =~= g.skip(1));
        assert(g.skip(1).remove(0) =~= g.skip(2));
        assert(g.skip(2).remove(0) =~= g.skip(3));
        assert(g.skip(3).remove(0) =~= g.skip(4));
    }
    let id = match as_id(&id_v) {
        Some(id) => id,
        None => {
            return Err("Publish message ended before session id");
        },
    };
    let options = match PublishOptions::parse(&options_v) {
        Some(o) => o,
        None => {
            return Err("Publish message ended before details dict");
        },
    };
    let topic = match topic_v {
        Value::String(s) => URI { uri: s },
        _ => {
            return Err("Publish message ended before topic uri");
        },
    };
    match parse_tail(items) {
        Ok((args, kwargs)) => Ok(Message::Publish(id, options, topic, args, kwargs)),
        Err(e) => Err(e),
    }
}

/// A call request read from an array, with its optional payloads.
pub open spec fn spec_parse_call(items: Seq<Value>) -> Option<Message> {
    if items.len() < 4 {
        None
    } else {
        match spec_as_id(items[1]) {
            Some(id) => match CallOptions::spec_parse(items[2]) {
                Some(o) => match items[3] {
                    Value::String(s) => match spec_parse_tail(items.skip(4)) {
                        Some(t) => Some(Message::Call(id, o, URI { uri: s }, t.0, t.1)),
                        None => None,
                    },
                    _ => None,
                },
                None => None,
            },
            None => None,
        }
    }
}

fn parse_call(items: Vec<Value>) -> (r: Result<Message, &'static str>)
    ensures
        match spec_parse_call(items@) {
            Some(m) => r == Ok::<Message, &'static str>(m),
            None => r is Err,
        },
{
    let ghost g = items@;
    let mut items = items;
    if items.len() < 4 {
        return Err("Call message ended before procedure uri");
    }
    let _tag = items.remove(0);
    let id_v = items.remove(0);
    let options_v = items.remove(0);
    let procedure_v = items.remove(0);
    proof {
        assert(g.remove(0) =~= g.skip(1));
        assert(g.skip(1).remove(0) =~= g.skip(2));
        assert(g.skip(2).remove(0) =~= g.skip(3));
        assert(g.skip(3).remove(0) =~= g.skip(4));
    }
    let id = match as_id(&id_v) {
        Some(id) => id,
        None => {
            return Err("Call message ended before session id");
        },
    };
    let options = match CallOptions::parse(&options_v) {
        Some(o) => o,
        None => {
            return Err("Call message ended before options dict");
        },
    };
    let procedure = match procedure_v {
        Value::String(s) => URI { uri: s },
        _ => {
            return Err("Call message ended before procedure uri");
        },
    };
    match parse_tail(items) {
        Ok((args, kwargs)) => Ok(Message::Call(id, options, procedure, args, kwargs)),
        Err(e) => Err(e),
    }
}

/// An event read from an array, with its optional payloads.
pub open spec fn spec_parse_event(items: Seq<Value>) -> Option<Message> {
    if items.len() < 4 {
        None
    } else {
        match spec_as_id(items[1]) {
            Some(sub) => match spec_as_id(items[2]) {
                Some(publication) => match EventDetails::spec_parse(items[3]) {
                    Some(d) => match spec_parse_tail(items.skip(4)) {
                        Some(t) => Some(Message::Event(sub, publication, d, t.0, t.1)),
                        None => None,
                    },
                    None => None,
                },
                None => None,
            },
            None => None,
        }
    }
}

fn parse_event(items: Vec<Value>) -> (r: Result<Message, &'static str>)
    ensures
        match spec_parse_event(items@) {
            Some(m) => r == Ok::<Message, &'static str>(m),
            None => r is Err,
        },
{
    let ghost g = items@;
    let mut items = items;
    if items.len() < 4 {
        return Err("Event message ended before details dict");
    }
    let _tag = items.remove(0);
    let sub_v = items.remove(0);
    let pub_v = items.remove(0);
    let details_v = items.remove(0);
    proof {
        assert(g.remove(0) =~= g.skip(1));
        assert(g.skip(1).remove(0) =~= g.skip(2));
        assert(g.skip(2).remove(0) =~= g.skip(3));
        assert(g.skip(3).remove(0) =~= g.skip(4));
    }
    let sub = match as_id(&sub_v) {
        Some(id) => id,
        None => {
            return Err("Event message ended before session subscription id");
        },
    };
    let publication = match as_id(&pub_v) {
        Some(id) => id,
        None => {
            return Err("Event message ended before publication id");
        },
    };
    let details = match EventDetails::parse(&details_v) {
        Some(d) => d,
        None => {
            return Err("Event message ended before details dict");
        },
    };
    match parse_tail(items) {
        Ok((args, kwargs)) => Ok(Message::Event(sub, publication, details, args, kwargs)),
        Err(e) => Err(e),
    }
}

/// An invocation read from an array, with its optional payloads.
pub open spec fn spec_parse_invocation(items: Seq<Value>) -> Option<Message> {
    if items.len() < 4 {
        None
    } else {
        match spec_as_id(items[1]) {
            Some(id) => match spec_as_id(items[2]) {
                Some(registration) => match InvocationDetails::spec_parse(items[3]) {
                    Some(d) => match spec_parse_tail(items.skip(4)) {
                        Some(t) => Some(Message::Invocation(id, registration, d, t.0, t.1)),
                        None => None,
                    },
                    None => None,
                },
                None => None,
            },
            None => None,
        }
    }
}

fn parse_invocation(items: Vec<Value>) -> (r: Result<Message, &'static str>)
    ensures
        match spec_parse_invocation(items@) {
            Some(m) => r == Ok::<Message, &'static str>(m),
            None => r is Err,
        },
{
    let ghost g = items@;
    let mut items = items;
    if items.len() < 4 {
        return Err("Invocation message ended before details dict");
    }
    let _tag = items.remove(0);
    let id_v = items.remove(0);
    let reg_v = items.remove(0);
    let details_v = items.remove(0);
    proof {
        assert(g.remove(0) =~= g.skip(1));
        assert(g.skip(1).remove(0) =~= g.skip(2));
        assert(g.skip(2).remove(0) =~= g.skip(3));
        assert(g.skip(3).remove(0) =~= g.skip(4));
    }
    let id = match as_id(&id_v) {
        Some(id) => id,
        None => {
            return Err("Invocation message ended before session id");
        },
    };
    let registration = match as_id(&reg_v) {
        Some(id) => id,
        None => {
            return Err("Invocation message ended before registration id");
        },
    };
    let details = match InvocationDetails::parse(&details_v) {
        Some(d) => d,
        None => {
            return Err("Invocation message ended before details dict");
        },
    };
    match parse_tail(items) {
        Ok((args, kwargs)) => Ok(Message::Invocation(id, registration, details, args, kwargs)),
        Err(e) => Err(e),
    }
}

/// A yield read from an array, with its optional payloads.
pub open spec fn spec_parse_yield(items: Seq<Value>) -> Option<Message> {
    if items.len() < 3 {
        None
    } else {
        match spec_as_id(items[1]) {
            Some(id) => match YieldOptions::spec_parse(items[2]) {
                Some(o) => match spec_parse_tail(items.skip(3)) {
                    Some(t) => Some(Message::Yield(id, o, t.0, t.1)),
                    None => None,
                },
                None => None,
            },
            None => None,
        }
    }
}

fn parse_yield(items: Vec<Value>) -> (r: Result<Message, &'static str>)
    ensures
        match spec_parse_yield(items@) {
            Some(m) => r == Ok::<Message, &'static str>(m),
            None => r is Err,
        },
{
    let ghost g = items@;
    let mut items = items;
    if items.len() < 3 {
        return Err("Yield message ended before options dict");
    }
    let _tag = items.remove(0);
    let id_v = items.remove(0);
    let options_v = items.remove(0);
    proof {
        assert(g.remove(0) =~= g.skip(1));
        assert(g.skip(1).remove(0) =~= g.skip(2));
        assert(g.skip(2).remove(0) =~= g.skip(3));
    }
    let id = match as_id(&id_v) {
        Some(id) => id,
        None => {
            return Err("Yield message ended before session id");
        },
    };
    let options = match YieldOptions::parse(&options_v) {
        Some(o) => o,
        None => {
            return Err("Yield message ended before options dict");
        },
    };
    match parse_tail(items) {
        Ok((args, kwargs)) => Ok(Message::Yield(id, options, args, kwargs)),
        Err(e) => Err(e),
    }
}

/// A result read from an array, with its optional payloads.
pub open spec fn spec_parse_result(items: Seq<Value>) -> Option<Message> {
    if items.len() < 3 {
        None
    } else {
        match spec_as_id(items[1]) {
            Some(id) => match ResultDetails::spec_parse(items[2]) {
                Some(d) => match spec_parse_tail(items.skip(3)) {
                    Some(t) => Some(Message::Result(id, d, t.0, t.1)),
                    None => None,
                },
                None => None,
            },
            None => None,
        }
    }
}

fn parse_result(items: Vec<Value>) -> (r: Result<Message, &'static str>)
    ensures
        match spec_parse_result(items@) {
            Some(m) => r == Ok::<Message, &'static str>(m),
            None => r is Err,
        },
{
    let ghost g = items@;
    let mut items = items;
    if items.len() < 3 {
        return Err("Result message ended before details dict");
    }
    let _tag = items.remove(0);
    let id_v = items.remove(0);
    let details_v = items.remove(0);
    proof {
        assert(g.remove(0) =~= g.skip(1));
        assert(g.skip(1).remove(0) =~= g.skip(2));
        assert(g.skip(2).remove(0) =~= g.skip(3));
    }
    let id = match as_id(&id_v) {
        Some(id) => id,
        None => {
            return Err("Result message ended before session id");
        },
    };
    let details = match ResultDetails::parse(&details_v) {
        Some(d) => d,
        None => {
            return Err("Result message ended before details dict");
        },
    };
    match parse_tail(items) {
        Ok((args, kwargs)) => Ok(Message::Result(id, details, args, kwargs)),
        Err(e) => Err(e),
    }
}

/// An acknowledgement carrying two identifiers, read from a full array.
pub open spec fn spec_parse_two_ids(items: Seq<Value>, tag: u64) -> Option<Message> {
    if items.len() != 3 {
        None
    } else {
        match spec_as_id(items[1]) {
            Some(a) => match spec_as_id(items[2]) {
                Some(b) => if tag == 33 {
                    Some(Message::Subscribed(a, b))
                } else if tag == 34 {
                    Some(Message::Unsubscribe(a, b))
                } else if tag == 17 {
                    Some(Message::Published(a, b))
                } else if tag == 65 {
                    Some(Message::Registered(a, b))
                } else {
                    Some(Message::Unregister(a, b))
                },
                None => None,
            },
            None => None,
        }
    }
}

fn parse_two_ids(items: Vec<Value>, tag: u64) -> (r: Result<Message, &'static str>)
    requires
        tag == 33 || tag == 34 || tag == 17 || tag == 65 || tag == 66,
    ensures
        match spec_parse_two_ids(items@, tag) {
            Some(m) => r == Ok::<Message, &'static str>(m),
            None => r is Err,
        },
{
    let ghost g = items@;
    let mut items = items;
    if items.len() != 3 {
        return Err("message ended before its second id");
    }
    let _tag = items.remove(0);
    let a_v = items.remove(0);
    let b_v = items.remove(0);
    proof {
        assert(g.remove(0) =~= g.skip(1));
        assert(g.skip(1).remove(0) =~= g.skip(2));
    }
    let a = match as_id(&a_v) {
        Some(id) => id,
        None => {
            return Err("message ended before its first id");
        },
    };
    let b = match as_id(&b_v) {
        Some(id) => id,
        None => {
            return Err("message ended before its second id");
        },
    };
    if tag == 33 {
        Ok(Message::Subscribed(a, b))
    } else if tag == 34 {
        Ok(Message::Unsubscribe(a, b))
    } else if tag == 17 {
        Ok(Message::Published(a, b))
    } else if tag == 65 {
        Ok(Message::Registered(a, b))
    } else {
        Ok(Message::Unregister(a, b))
    }
}

/// An acknowledgement carrying one identifier, read from a full array.
pub open spec fn spec_parse_one_id(items: Seq<Value>, tag: u64) -> Option<Message> {
    if items.len() != 2 {
        None
    } else {
        match spec_as_id(items[1]) {
            Some(a) => if tag == 35 {
                Some(Message::Unsubscribed(a))
            } else {
                Some(Message::Unregistered(a))
            },
            None => None,
        }
    }
}

fn parse_one_id(items: Vec<Value>, tag: u64) -> (r: Result<Message, &'static str>)
    requires
        tag == 35 || tag == 67,
    ensures
        match spec_parse_one_id(items@, tag) {
            Some(m) => r == Ok::<Message, &'static str>(m),
            None => r is Err,
        },
{
    let ghost g = items@;
    let mut items = items;
    if items.len() != 2 {
        return Err("message ended before its request id");
    }
    let _tag = items.remove(0);
    let a_v = items.remove(0);
    proof {
        assert(g.remove(0) =~= g.skip(1));
    }
    let a = match as_id(&a_v) {
        Some(id) => id,
        None => {
            return Err("message ended before its request id");
        },
    };
    if tag == 35 {
        Ok(Message::Unsubscribed(a))
    } else {
        Ok(Message::Unregistered(a))
    }
}

} // verus!
// The round trip of the wire form: reading back what a message wrote gives
// the same message, for well-formed messages.
verus! {

/// Whether the optional payloads are in the shape the tail rule keeps: a
/// keyword payload without a positional one is written as an empty list and
/// read back as one, so that shape is not well-formed for round tripping.
pub open spec fn tail_wf(args: Option<List>, kwargs: Option<Dict>) -> bool {
    !(args is None && kwargs is Some)
}

/// Whether a reason's text reads back as the same reason: the catch-all
/// variant must not carry the text of a known reason.
pub open spec fn reason_wf(r: Reason) -> bool {
    r matches Reason::CustomReason(u) ==> Reason::spec_of_text(u.uri@) is None
}

impl Message {
    /// Whether the message reads back from its own wire form: payload
    /// shapes the tail rule cannot keep are ruled out, reasons read back as
    /// themselves, and advertised feature dictionaries hold only flags.
    pub open spec fn wf(self) -> bool {
        match self {
            Message::Hello(_, d) => d.roles.wf(),
            Message::Abort(_, r) => reason_wf(r),
            Message::Goodbye(_, r) => reason_wf(r),
            Message::Error(_, _, _, r, args, kwargs) => reason_wf(r) && tail_wf(args, kwargs),
            Message::Publish(_, _, _, args, kwargs) => tail_wf(args, kwargs),
            Message::Event(_, _, _, args, kwargs) => tail_wf(args, kwargs),
            Message::Call(_, _, _, args, kwargs) => tail_wf(args, kwargs),
            Message::Invocation(_, _, _, args, kwargs) => tail_wf(args, kwargs),
            Message::Yield(_, _, args, kwargs) => tail_wf(args, kwargs),
            Message::Result(_, _, args, kwargs) => tail_wf(args, kwargs),
            _ => true,
        }
    }
}

proof fn lemma_reason_text_parses(r: Reason)
    requires
        !(r is CustomReason),
    ensures
        Reason::spec_of_text(r.uri_text()) == Some(r),
{
    reveal_strlit("wamp.error.invalid_uri");
    reveal_strlit("wamp.error.no_such_procedure");
    reveal_strlit("wamp.error.procedure_already_exists");
    reveal_strlit("wamp.error.no_such_registration");
    reveal_strlit("wamp.error.no_such_subscription");
    reveal_strlit("wamp.error.invalid_argument");
    reveal_strlit("wamp.error.system_shutdown");
    reveal_strlit("wamp.error.close_realm");
    reveal_strlit("wamp.error.goodbye_and_out");
    reveal_strlit("wamp.error.not_authorized");
    reveal_strlit("wamp.error.authorization_failed");
    reveal_strlit("wamp.error.no_such_realm");
    reveal_strlit("wamp.error.no_such_role");
    reveal_strlit("wamp.error.cancelled");
    reveal_strlit("wamp.error.option_not_allowed");
    reveal_strlit("wamp.error.no_eligible_callee");
    reveal_strlit("wamp.error.option-disallowed.disclose_me");
    reveal_strlit("wamp.error.network_failure");
    reveal_strlit("wamp.close.normal");
    assert("wamp.error.invalid_uri"@[11] == 'i');
    assert("wamp.error.invalid_uri"@[12] == 'n');
    assert("wamp.error.invalid_uri"@[13] == 'v');
    assert("wamp.error.invalid_uri"@[14] == 'a');
    assert("wamp.error.invalid_uri"@[17] == 'd');
    assert("wamp.error.invalid_uri"@[19] == 'u');
    assert("wamp.error.invalid_uri"@[20] == 'r');
    assert("wamp.error.invalid_uri"@[21] == 'i');
    assert("wamp.error.invalid_uri"@.len() == 22);
    assert("wamp.error.no_such_procedure"@[11] == 'n');
    assert("wamp.error.no_such_procedure"@[12] == 'o');
    assert("wamp.error.no_such_procedure"@[13] == '_');
    assert("wamp.error.no_such_procedure"@[14] == 's');
    assert("wamp.error.no_such_procedure"@[17] == 'h');
    assert("wamp.error.no_such_procedure"@[19] == 'p');
    assert("wamp.error.no_such_procedure"@[20] == 'r');
    assert("wamp.error.no_such_procedure"@[21] == 'o');
    assert("wamp.error.no_such_procedure"@.len() == 28);
    assert("wamp.error.procedure_already_exists"@[11] == 'p');
    assert("wamp.error.procedure_already_exists"@[12] == 'r');
    assert("wamp.error.procedure_already_exists"@[13] == 'o');
    assert("wamp.error.procedure_already_exists"@[14] == 'c');
    assert("wamp.error.procedure_already_exists"@[17] == 'u');
    assert("wamp.error.procedure_already_exists"@[19] == 'e');
    assert("wamp.error.procedure_already_exists"@[20] == '_');
    assert("wamp.error.procedure_already_exists"@[21] == 'a');
    assert("wamp.error.procedure_already_exists"@.len() == 35);
    assert("wamp.error.no_such_registration"@[11] == 'n');
    assert("wamp.error.no_such_registration"@[12] == 'o');
    assert("wamp.error.no_such_registration"@[13] == '_');
    assert("wamp.error.no_such_registration"@[14] == 's');
    assert("wamp.error.no_such_registration"@[17] == 'h');
    assert("wamp.error.no_such_registration"@[19] == 'r');
    assert("wamp.error.no_such_registration"@[20] == 'e');
    assert("wamp.error.no_such_registration"@[21] == 'g');
    assert("wamp.error.no_such_registration"@.len() == 31);
    assert("wamp.error.no_such_subscription"@[11] == 'n');
    assert("wamp.error.no_such_subscription"@[12] == 'o');
    assert("wamp.error.no_such_subscription"@[13] == '_');
    assert("wamp.error.no_such_subscription"@[14] == 's');
    assert("wamp.error.no_such_subscription"@[17] == 'h');
    assert("wamp.error.no_such_subscription"@[19] == 's');
    assert("wamp.error.no_such_subscription"@[20] == 'u');
    assert("wamp.error.no_such_subscription"@[21] == 'b');
    assert("wamp.error.no_such_subscription"@.len() == 31);
    assert("wamp.error.invalid_argument"@[11] == 'i');
    assert("wamp.error.invalid_argument"@[12] == 'n');
    assert("wamp.error.invalid_argument"@[13] == 'v');
    assert("wamp.error.invalid_argument"@[14] == 'a');
    assert("wamp.error.invalid_argument"@[17] == 'd');
    assert("wamp.error.invalid_argument"@[19] == 'a');
    assert("wamp.error.invalid_argument"@[20] == 'r');
    assert("wamp.error.invalid_argument"@[21] == 'g');
    assert("wamp.error.invalid_argument"@.len() == 27);
    assert("wamp.error.system_shutdown"@[11] == 's');
    assert("wamp.error.system_shutdown"@[12] == 'y');
    assert("wamp.error.system_shutdown"@[13] == 's');
    assert("wamp.error.system_shutdown"@[14] == 't');
    assert("wamp.error.system_shutdown"@[17] == '_');
    assert("wamp.error.system_shutdown"@[19] == 'h');
    assert("wamp.error.system_shutdown"@[20] == 'u');
    assert("wamp.error.system_shutdown"@[21] == 't');
    assert("wamp.error.system_shutdown"@.len() == 26);
    assert("wamp.error.close_realm"@[11] == 'c');
    assert("wamp.error.close_realm"@[12] == 'l');
    assert("wamp.error.close_realm"@[13] == 'o');
    assert("wamp.error.close_realm"@[14] == 's');
    assert("wamp.error.close_realm"@[17] == 'r');
    assert("wamp.error.close_realm"@[19] == 'a');
    assert("wamp.error.close_realm"@[20] == 'l');
    assert("wamp.error.close_realm"@[21] == 'm');
    assert("wamp.error.close_realm"@.len() == 22);
    assert("wamp.error.goodbye_and_out"@[11] == 'g');
    assert("wamp.error.goodbye_and_out"@[12] == 'o');
    assert("wamp.error.goodbye_and_out"@[13] == 'o');
    assert("wamp.error.goodbye_and_out"@[14] == 'd');
    assert("wamp.error.goodbye_and_out"@[17] == 'e');
    assert("wamp.error.goodbye_and_out"@[19] == 'a');
    assert("wamp.error.goodbye_and_out"@[20] == 'n');
    assert("wamp.error.goodbye_and_out"@[21] == 'd');
    assert("wamp.error.goodbye_and_out"@.len() == 26);
    assert("wamp.error.not_authorized"@[11] == 'n');
    assert("wamp.error.not_authorized"@[12] == 'o');
    assert("wamp.error.not_authorized"@[13] == 't');
    assert("wamp.error.not_authorized"@[14] == '_');
    assert("wamp.error.not_authorized"@[17] == 't');
    assert("wamp.error.not_authorized"@[19] == 'o');
    assert("wamp.error.not_authorized"@[20] == 'r');
    assert("wamp.error.not_authorized"@[21] == 'i');
    assert("wamp.error.not_authorized"@.len() == 25);
    assert("wamp.error.authorization_failed"@[11] == 'a');
    assert("wamp.error.authorization_failed"@[12] == 'u');
    assert("wamp.error.authorization_failed"@[13] == 't');
    assert("wamp.error.authorization_failed"@[14] == 'h');
    assert("wamp.error.authorization_failed"@[17] == 'i');
    assert("wamp.error.authorization_failed"@[19] == 'a');
    assert("wamp.error.authorization_failed"@[20] == 't');
    assert("wamp.error.authorization_failed"@[21] == 'i');
    assert("wamp.error.authorization_failed"@.len() == 31);
    assert("wamp.error.no_such_realm"@[11] == 'n');
    assert("wamp.error.no_such_realm"@[12] == 'o');
    assert("wamp.error.no_such_realm"@[13] == '_');
    assert("wamp.error.no_such_realm"@[14] == 's');
    assert("wamp.error.no_such_realm"@[17] == 'h');
    assert("wamp.error.no_such_realm"@[19] == 'r');
    assert("wamp.error.no_such_realm"@[20] == 'e');
    assert("wamp.error.no_such_realm"@[21] == 'a');
    assert("wamp.error.no_such_realm"@.len() == 24);
    assert("wamp.error.no_such_role"@[11] == 'n');
    assert("wamp.error.no_such_role"@[12] == 'o');
    assert("wamp.error.no_such_role"@[13] == '_');
    assert("wamp.error.no_such_role"@[14] == 's');
    assert("wamp.error.no_such_role"@[17] == 'h');
    assert("wamp.error.no_such_role"@[19] == 'r');
    assert("wamp.error.no_such_role"@[20] == 'o');
    assert("wamp.error.no_such_role"@[21] == 'l');
    assert("wamp.error.no_such_role"@.len() == 23);
    assert("wamp.error.cancelled"@[11] == 'c');
    assert("wamp.error.cancelled"@[12] == 'a');
    assert("wamp.error.cancelled"@[13] == 'n');
    assert("wamp.error.cancelled"@[14] == 'c');
    assert("wamp.error.cancelled"@[17] == 'l');
    assert("wamp.error.cancelled"@[19] == 'd');
    assert("wamp.error.cancelled"@.len() == 20);
    assert("wamp.error.option_not_allowed"@[11] == 'o');
    assert("wamp.error.option_not_allowed"@[12] == 'p');
    assert("wamp.error.option_not_allowed"@[13] == 't');
    assert("wamp.error.option_not_allowed"@[14] == 'i');
    assert("wamp.error.option_not_allowed"@[17] == '_');
    assert("wamp.error.option_not_allowed"@[19] == 'o');
    assert("wamp.error.option_not_allowed"@[20] == 't');
    assert("wamp.error.option_not_allowed"@[21] == '_');
    assert("wamp.error.option_not_allowed"@.len() == 29);
    assert("wamp.error.no_eligible_callee"@[11] == 'n');
    assert("wamp.error.no_eligible_callee"@[12] == 'o');
    assert("wamp.error.no_eligible_callee"@[13] == '_');
    assert("wamp.error.no_eligible_callee"@[14] == 'e');
    assert("wamp.error.no_eligible_callee"@[17] == 'g');
    assert("wamp.error.no_eligible_callee"@[19] == 'b');
    assert("wamp.error.no_eligible_callee"@[20] == 'l');
    assert("wamp.error.no_eligible_callee"@[21] == 'e');
    assert("wamp.error.no_eligible_callee"@.len() == 29);
    assert("wamp.error.option-disallowed.disclose_me"@[11] == 'o');
    assert("wamp.error.option-disallowed.disclose_me"@[12] == 'p');
    assert("wamp.error.option-disallowed.disclose_me"@[13] == 't');
    assert("wamp.error.option-disallowed.disclose_me"@[14] == 'i');
    assert("wamp.error.option-disallowed.disclose_me"@[17] == '-');
    assert("wamp.error.option-disallowed.disclose_me"@[19] == 'i');
    assert("wamp.error.option-disallowed.disclose_me"@[20] == 's');
    assert("wamp.error.option-disallowed.disclose_me"@[21] == 'a');
    assert("wamp.error.option-disallowed.disclose_me"@.len() == 40);
    assert("wamp.error.network_failure"@[11] == 'n');
    assert("wamp.error.network_failure"@[12] == 'e');
    assert("wamp.error.network_failure"@[13] == 't');
    assert("wamp.error.network_failure"@[14] == 'w');
    assert("wamp.error.network_failure"@[17] == 'k');
    assert("wamp.error.network_failure"@[19] == 'f');
    assert("wamp.error.network_failure"@[20] == 'a');
    assert("wamp.error.network_failure"@[21] == 'i');
    assert("wamp.error.network_failure"@.len() == 26);
    assert("wamp.close.normal"@[11] == 'n');
    assert("wamp.close.normal"@[12] == 'o');
    assert("wamp.close.normal"@[13] == 'r');
    assert("wamp.close.normal"@[14] == 'm');
    assert("wamp.close.normal"@.len() == 17);
    match r {
        Reason::InvalidURI => assert(Reason::spec_of_text(r.uri_text()) == Some(r)),
        Reason::NoSuchProcedure => assert(Reason::spec_of_text(r.uri_text()) == Some(r)),
        Reason::ProcedureAlreadyExists => assert(Reason::spec_of_text(r.uri_text()) == Some(r)),
        Reason::NoSuchRegistration => assert(Reason::spec_of_text(r.uri_text()) == Some(r)),
        Reason::NoSuchSubscription => assert(Reason::spec_of_text(r.uri_text()) == Some(r)),
        Reason::InvalidArgument => assert(Reason::spec_of_text(r.uri_text()) == Some(r)),
        Reason::SystemShutdown => assert(Reason::spec_of_text(r.uri_text()) == Some(r)),
        Reason::CloseRealm => assert(Reason::spec_of_text(r.uri_text()) == Some(r)),
        Reason::GoodbyeAndOut => assert(Reason::spec_of_text(r.uri_text()) == Some(r)),
        Reason::NotAuthorized => assert(Reason::spec_of_text(r.uri_text()) == Some(r)),
        Reason::AuthorizationFailed => assert(Reason::spec_of_text(r.uri_text()) == Some(r)),
        Reason::NoSuchRealm => assert(Reason::spec_of_text(r.uri_text()) == Some(r)),
        Reason::NoSuchRole => assert(Reason::spec_of_text(r.uri_text()) == Some(r)),
        Reason::Cancelled => assert(Reason::spec_of_text(r.uri_text()) == Some(r)),
        Reason::OptionNotAllowed => assert(Reason::spec_of_text(r.uri_text()) == Some(r)),
        Reason::NoEligibleCallee => assert(Reason::spec_of_text(r.uri_text()) == Some(r)),
        Reason::OptionDisallowedDiscloseMe => assert(Reason::spec_of_text(r.uri_text()) == Some(
            r,
        )),
        Reason::NetworkFailure => assert(Reason::spec_of_text(r.uri_text()) == Some(r)),
        Reason::NormalClose => assert(Reason::spec_of_text(r.uri_text()) == Some(r)),
        Reason::CustomReason(_) => assert(false),
    }
}

proof fn lemma_reason_round_trip(r: Reason, v: Value)
    requires
        reason_wf(r),
        reason_wire_matches(r, v),
    ensures
        v matches Value::String(s) && spec_reason_of(s) == r,
{
    match r {
        Reason::CustomReason(_) => {},
        _ => {
            lemma_reason_text_parses(r);
        },
    }
}

proof fn lemma_tail_round_trip(items: Seq<Value>, base: int, args: Option<List>, kwargs: Option<
    Dict,
>)
    requires
        0 <= base,
        tail_wf(args, kwargs),
        tail_matches(items, base, args, kwargs),
    ensures
        spec_parse_tail(items.skip(base)) == Some((args, kwargs)),
{
    let rest = items.skip(base);
    match (args, kwargs) {
        (Option::None, Option::None) => {
            assert(rest.len() == 0);
        },
        (Option::Some(a), Option::None) => {
            assert(rest.len() == 1);
            assert(rest[0] == items[base]);
        },
        (Option::Some(a), Option::Some(k)) => {
            assert(rest.len() == 2);
            assert(rest[0] == items[base]);
            assert(rest[1] == items[base + 1]);
        },
        (Option::None, Option::Some(k)) => {},
    }
}

} // verus!
verus! {

proof fn lemma_subscribe_options_round_trip(o: SubscribeOptions, v: Value)
    requires
        o.wire_matches(v),
    ensures
        SubscribeOptions::spec_parse(v) == Some(o),
{
    reveal_strlit("match");
    reveal_strlit("prefix");
    reveal_strlit("wildcard");
    assert("prefix"@[0] == 'p' && "wildcard"@[0] == 'w');
    let d = v->Dict_0;
    if o.pattern_match == MatchingPolicy::Strict {
        crate::value::lemma_dict_get_none(d@, "match"@);
    } else {
        crate::value::lemma_dict_get_first_match(d@, "match"@, 0);
    }
}

proof fn lemma_publish_options_round_trip(o: PublishOptions, v: Value)
    requires
        o.wire_matches(v),
    ensures
        PublishOptions::spec_parse(v) == Some(o),
{
    let d = v->Dict_0;
    if o.acknowledge {
        crate::value::lemma_dict_get_first_match(d@, "acknowledge"@, 0);
    } else {
        crate::value::lemma_dict_get_none(d@, "acknowledge"@);
    }
}

proof fn lemma_register_options_round_trip(o: RegisterOptions, v: Value)
    requires
        o.wire_matches(v),
    ensures
        RegisterOptions::spec_parse(v) == Some(o),
{
    reveal_strlit("match");
    reveal_strlit("invoke");
    reveal_strlit("prefix");
    reveal_strlit("wildcard");
    reveal_strlit("single");
    reveal_strlit("roundrobin");
    reveal_strlit("random");
    reveal_strlit("first");
    reveal_strlit("last");
    assert("match"@[0] == 'm' && "invoke"@[0] == 'i');
    assert("prefix"@[0] == 'p' && "wildcard"@[0] == 'w');
    assert("single"@[0] == 's' && "roundrobin"@[0] == 'r' && "random"@[0] == 'r' && "first"@[0]
        == 'f' && "last"@[0] == 'l');
    assert("roundrobin"@[1] == 'o' && "random"@[1] == 'a');
    let d = v->Dict_0;
    let strict = o.pattern_match == MatchingPolicy::Strict;
    let single = o.invocation_policy == InvocationPolicy::Single;
    if strict {
        crate::value::lemma_dict_get_none(d@, "match"@);
    } else {
        crate::value::lemma_dict_get_first_match(d@, "match"@, 0);
    }
    if single {
        crate::value::lemma_dict_get_none(d@, "invoke"@);
    } else {
        if strict {
            crate::value::lemma_dict_get_first_match(d@, "invoke"@, 0);
        } else {
            crate::value::lemma_dict_get_first_match(d@, "invoke"@, 1);
        }
    }
}

proof fn lemma_error_details_round_trip(o: ErrorDetails, v: Value)
    requires
        o.wire_matches(v),
    ensures
        ErrorDetails::spec_parse(v) == Some(o),
{
    let d = v->Dict_0;
    if o.message is Some {
        crate::value::lemma_dict_get_first_match(d@, "message"@, 0);
    } else {
        crate::value::lemma_dict_get_none(d@, "message"@);
    }
}

proof fn lemma_event_details_round_trip(o: EventDetails, v: Value)
    requires
        o.wire_matches(v),
    ensures
        EventDetails::spec_parse(v) == Some(o),
{
    let d = v->Dict_0;
    if o.topic is Some {
        crate::value::lemma_dict_get_first_match(d@, "topic"@, 0);
    } else {
        crate::value::lemma_dict_get_none(d@, "topic"@);
    }
}

proof fn lemma_invocation_details_round_trip(o: InvocationDetails, v: Value)
    requires
        o.wire_matches(v),
    ensures
        InvocationDetails::spec_parse(v) == Some(o),
{
    let d = v->Dict_0;
    if o.procedure is Some {
        crate::value::lemma_dict_get_first_match(d@, "procedure"@, 0);
    } else {
        crate::value::lemma_dict_get_none(d@, "procedure"@);
    }
}

proof fn lemma_flag_role_round_trip(features: Option<Dict>, v: Value)
    requires
        features matches Some(f) ==> crate::roles::all_flags(f@),
        v matches Value::Dict(d) && match features {
            Some(f) => d@.len() == 1 && d@[0].0@ == "features"@ && d@[0].1 == Value::Dict(f),
            None => d@.len() == 0,
        },
    ensures
        match features {
            Some(f) => crate::value::spec_dict_get(v->Dict_0@, "features"@) == Some(
                Value::Dict(f),
            ),
            None => crate::value::spec_dict_get(v->Dict_0@, "features"@) is None,
        },
{
    let d = v->Dict_0;
    if features is Some {
        crate::value::lemma_dict_get_first_match(d@, "features"@, 0);
    } else {
        crate::value::lemma_dict_get_none(d@, "features"@);
    }
}

proof fn lemma_subscriber_role_round_trip(o: crate::roles::SubscriberRole, v: Value)
    requires
        o.wire_matches(v),
    ensures
        crate::roles::SubscriberRole::spec_parse(v) == Some(o),
{
    let d = v->Dict_0;
    match o.features {
        Some(f) => {
            crate::value::lemma_dict_get_first_match(d@, "features"@, 0);
            let fd = d@[0].1->Dict_0;
            if f.pattern_based_subscription {
                crate::value::lemma_dict_get_first_match(fd@, "pattern_based_subscription"@, 0);
            } else {
                crate::value::lemma_dict_get_none(fd@, "pattern_based_subscription"@);
            }
        },
        None => {
            crate::value::lemma_dict_get_none(d@, "features"@);
        },
    }
}

proof fn lemma_dealer_role_round_trip(o: crate::roles::DealerRole, v: Value)
    requires
        o.wire_matches(v),
    ensures
        crate::roles::DealerRole::spec_parse(v) == Some(o),
{
    let d = v->Dict_0;
    match o.features {
        Some(f) => {
            crate::value::lemma_dict_get_first_match(d@, "features"@, 0);
            let fd = d@[0].1->Dict_0;
            if f.pattern_based_registration {
                crate::value::lemma_dict_get_first_match(fd@, "pattern_based_registration"@, 0);
            } else {
                crate::value::lemma_dict_get_none(fd@, "pattern_based_registration"@);
            }
        },
        None => {
            crate::value::lemma_dict_get_none(d@, "features"@);
        },
    }
}

proof fn lemma_broker_role_round_trip(o: crate::roles::BrokerRole, v: Value)
    requires
        o.wire_matches(v),
    ensures
        crate::roles::BrokerRole::spec_parse(v) == Some(o),
{
    let d = v->Dict_0;
    match o.features {
        Some(f) => {
            crate::value::lemma_dict_get_first_match(d@, "features"@, 0);
            let fd = d@[0].1->Dict_0;
            if f.pattern_based_subscription {
                crate::value::lemma_dict_get_first_match(fd@, "pattern_based_subscription"@, 0);
            } else {
                crate::value::lemma_dict_get_none(fd@, "pattern_based_subscription"@);
            }
        },
        None => {
            crate::value::lemma_dict_get_none(d@, "features"@);
        },
    }
}

proof fn lemma_router_roles_round_trip(o: crate::roles::RouterRoles, v: Value)
    requires
        o.wire_matches(v),
    ensures
        crate::roles::RouterRoles::spec_parse(v) == Some(o),
{
    reveal_strlit("dealer");
    reveal_strlit("broker");
    assert("dealer"@[0] == 'd' && "broker"@[0] == 'b');
    let d = v->Dict_0;
    crate::value::lemma_dict_get_first_match(d@, "dealer"@, 0);
    crate::value::lemma_dict_get_first_match(d@, "broker"@, 1);
    lemma_dealer_role_round_trip(o.dealer, d@[0].1);
    lemma_broker_role_round_trip(o.broker, d@[1].1);
}

proof fn lemma_client_roles_round_trip(o: crate::roles::ClientRoles, v: Value)
    requires
        o.wf(),
        o.wire_matches(v),
    ensures
        crate::roles::ClientRoles::spec_parse(v) == Some(o),
{
    reveal_strlit("publisher");
    reveal_strlit("subscriber");
    reveal_strlit("caller");
    reveal_strlit("callee");
    assert("publisher"@[0] == 'p' && "subscriber"@[0] == 's' && "caller"@[0] == 'c' && "callee"@[0]
        == 'c');
    assert("caller"@[5] == 'r' && "callee"@[5] == 'e');
    assert("publisher"@.len() == 9 && "subscriber"@.len() == 10 && "caller"@.len() == 6
        && "callee"@.len() == 6);
    let d = v->Dict_0;
    crate::value::lemma_dict_get_first_match(d@, "publisher"@, 0);
    crate::value::lemma_dict_get_first_match(d@, "subscriber"@, 1);
    crate::value::lemma_dict_get_first_match(d@, "caller"@, 2);
    crate::value::lemma_dict_get_first_match(d@, "callee"@, 3);
    lemma_flag_role_round_trip(o.publisher.features, d@[0].1);
    lemma_subscriber_role_round_trip(o.subscriber, d@[1].1);
    lemma_flag_role_round_trip(o.caller.features, d@[2].1);
    lemma_flag_role_round_trip(o.callee.features, d@[3].1);
}

proof fn lemma_hello_details_round_trip(o: HelloDetails, v: Value)
    requires
        o.roles.wf(),
        o.wire_matches(v),
    ensures
        HelloDetails::spec_parse(v) == Some(o),
{
    reveal_strlit("agent");
    reveal_strlit("roles");
    assert("agent"@[0] == 'a' && "roles"@[0] == 'r');
    let d = v->Dict_0;
    match o.agent {
        Some(_) => {
            crate::value::lemma_dict_get_first_match(d@, "agent"@, 0);
            crate::value::lemma_dict_get_first_match(d@, "roles"@, 1);
            lemma_client_roles_round_trip(o.roles, d@[1].1);
        },
        None => {
            crate::value::lemma_dict_get_none(d@, "agent"@);
            crate::value::lemma_dict_get_first_match(d@, "roles"@, 0);
            lemma_client_roles_round_trip(o.roles, d@[0].1);
        },
    }
}

proof fn lemma_welcome_details_round_trip(o: WelcomeDetails, v: Value)
    requires
        o.wire_matches(v),
    ensures
        WelcomeDetails::spec_parse(v) == Some(o),
{
    reveal_strlit("agent");
    reveal_strlit("roles");
    assert("agent"@[0] == 'a' && "roles"@[0] == 'r');
    let d = v->Dict_0;
    match o.agent {
        Some(_) => {
            crate::value::lemma_dict_get_first_match(d@, "agent"@, 0);
            crate::value::lemma_dict_get_first_match(d@, "roles"@, 1);
            lemma_router_roles_round_trip(o.roles, d@[1].1);
        },
        None => {
            crate::value::lemma_dict_get_none(d@, "agent"@);
            crate::value::lemma_dict_get_first_match(d@, "roles"@, 0);
            lemma_router_roles_round_trip(o.roles, d@[0].1);
        },
    }
}

/// The law of the wire codec: reading back the wire form of a well-formed
/// message gives the same message.  A message is well-formed when its
/// payloads fit the tail rule, its reasons read back as themselves, and its
/// advertised feature dictionaries hold only flags; reading an array with an
/// unknown tag fails.
pub proof fn lemma_wire_round_trip(m: Message, v: Value)
    requires
        m.wf(),
        m.wire_matches(v),
    ensures
        Message::spec_parse(v) == Some(m),
{
    let items = v->List_0;
    match m {
        Message::Hello(realm, details) => {
            lemma_hello_details_round_trip(details, items@[2]);
        },
        Message::Welcome(session, details) => {
            lemma_welcome_details_round_trip(details, items@[2]);
        },
        Message::Abort(details, reason) => {
            lemma_error_details_round_trip(details, items@[1]);
            lemma_reason_round_trip(reason, items@[2]);
        },
        Message::Goodbye(details, reason) => {
            lemma_error_details_round_trip(details, items@[1]);
            lemma_reason_round_trip(reason, items@[2]);
        },
        Message::Error(ty, id, details, reason, args, kwargs) => {
            lemma_reason_round_trip(reason, items@[4]);
            lemma_tail_round_trip(items@, 5, args, kwargs);
        },
        Message::Subscribe(request, options, topic) => {
            lemma_subscribe_options_round_trip(options, items@[2]);
        },
        Message::Subscribed(request, subscription) => {},
        Message::Unsubscribe(request, subscription) => {},
        Message::Unsubscribed(request) => {},
        Message::Publish(request, options, topic, args, kwargs) => {
            lemma_publish_options_round_trip(options, items@[2]);
            lemma_tail_round_trip(items@, 4, args, kwargs);
        },
        Message::Published(request, publication) => {},
        Message::Event(subscription, publication, details, args, kwargs) => {
            lemma_event_details_round_trip(details, items@[3]);
            lemma_tail_round_trip(items@, 4, args, kwargs);
        },
        Message::Register(request, options, procedure) => {
            lemma_register_options_round_trip(options, items@[2]);
        },
        Message::Registered(request, registration) => {},
        Message::Unregister(request, registration) => {},
        Message::Unregistered(request) => {},
        Message::Call(request, options, procedure, args, kwargs) => {
            lemma_tail_round_trip(items@, 4, args, kwargs);
        },
        Message::Invocation(request, registration, details, args, kwargs) => {
            lemma_invocation_details_round_trip(details, items@[3]);
            lemma_tail_round_trip(items@, 4, args, kwargs);
        },
        Message::Yield(request, options, args, kwargs) => {
            lemma_tail_round_trip(items@, 3, args, kwargs);
        },
        Message::Result(request, details, args, kwargs) => {
            lemma_tail_round_trip(items@, 3, args, kwargs);
        },
    }
}

} // verus!
