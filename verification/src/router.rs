//! The router's side of a session: per-realm bookkeeping and the
//! per-connection state machine.  Every function here is a pure step: it
//! takes the realm state and the connection state, consumes one incoming
//! message, and answers with the messages to send.  The transport around
//! the library performs the sends and hands back what arrives.
use vstd::prelude::*;

use crate::errors::{ErrorType, Reason};
use crate::idmap::{spec_id_get, spec_id_insert, spec_id_remove, IdMap};
use crate::ids::random_id;
use crate::message::Message;
use crate::options::{
    CallOptions, ErrorDetails, HelloDetails, InvocationDetails, PublishOptions, RegisterOptions,
    ResultDetails, SubscribeOptions, WelcomeDetails, YieldOptions,
};
use crate::patterns::{uri_segments, valid_pattern};
use crate::policies::MatchingPolicy;
use crate::pubsub_patterns::{insert_rel, remove_rel, spec_matches, SubscriptionPatternNode};
use crate::roles::RouterRoles;
use crate::rpc_patterns::{spec_find, RegistrationPatternNode};
use crate::value::{Dict, List, URI};
use crate::ID;

verus! {

/// The lifecycle of a connection on the router's side.
#[derive(PartialEq, Eq, Structural, Debug, Clone, Copy)]
pub enum ConnectionState {
    /// Opened, the greeting not yet seen.
    Initializing,
    /// In a session.
    Connected,
    /// The router said goodbye and awaits the echo.
    ShuttingDown,
    /// Closed.
    Disconnected,
}

/// A protocol-level failure of one handling step.
#[derive(Debug)]
pub struct Error {
    /// What went wrong.
    pub kind: ErrorKind,
}

/// The kinds of protocol-level failure the router meets.
#[derive(Debug)]
pub enum ErrorKind {
    /// A request failed; an error message naming the request goes back.
    ErrorReason(ErrorType, ID, Reason),
    /// A message arrived that the connection's state cannot take.
    InvalidState(&'static str),
    /// The greeting named an unknown realm.
    HandshakeError(Reason),
    /// A message kind the router never handles.
    InvalidMessageType(Message),
}

impl Error {
    /// Wraps a kind as an error.
    pub fn new(kind: ErrorKind) -> (e: Error)
        ensures
            e.kind == kind,
    {
        Error { kind }
    }

    /// Takes the kind out of the error.
    pub fn get_kind(self) -> (k: ErrorKind)
        ensures
            k == self.kind,
    {
        self.kind
    }
}

/// A message together with the connection it goes to.
pub struct Outbound {
    /// The receiving connection.
    pub to: ID,
    /// What to send it.
    pub message: Message,
}

/// One receiver of a publication: a connection, the identifier of its own
/// subscription, and whether its pattern matched strictly, in which case
/// the event carries no concrete topic.
pub struct EventTarget {
    /// The receiving connection.
    pub connection: ID,
    /// The subscription the event answers.
    pub subscription_id: ID,
    /// Whether the subscription's pattern matched strictly.
    pub strict: bool,
}

/// The fan-out of one publication: the targets in delivery order and the
/// payloads to copy to each, with the concrete topic for targets whose
/// match was not strict.
pub struct EventBroadcast {
    /// The publication identifier.
    pub publication_id: ID,
    /// The receivers, in delivery order.
    pub targets: Vec<EventTarget>,
    /// The concrete topic.
    pub topic: URI,
    /// The positional payload.
    pub args: Option<List>,
    /// The keyword payload.
    pub kwargs: Option<Dict>,
}

impl EventBroadcast {
    /// Builds the event message for every target: each carries that
    /// target's own subscription identifier, the shared publication
    /// identifier, the concrete topic where the target's match was not
    /// strict, and payloads structurally alike to the published ones.
    pub fn messages(&self) -> (r: Vec<Outbound>)
        ensures
            r@.len() == self.targets@.len(),
            forall|i: int|
                0 <= i < self.targets@.len() ==> {
                    &&& (#[trigger] r@[i]).to == self.targets@[i].connection
                    &&& r@[i].message matches Message::Event(sid, pid, details, margs, mkwargs)
                        && {
                        &&& sid == self.targets@[i].subscription_id
                        &&& pid == self.publication_id
                        &&& (self.targets@[i].strict ==> details.topic is None)
                        &&& (!self.targets@[i].strict ==> (details.topic matches Some(u)
                            && u.uri@ == self.topic.uri@))
                        &&& (self.args is None <==> margs is None)
                        &&& (self.args matches Some(a) ==> (margs matches Some(ma)
                            && crate::value::values_like(ma@, a@)))
                        &&& (self.kwargs is None <==> mkwargs is None)
                        &&& (self.kwargs matches Some(k) ==> (mkwargs matches Some(mk)
                            && crate::value::entries_like(mk@, k@)))
                    }
                },
    {
        let mut out: Vec<Outbound> = Vec::new();
        let mut i: usize = 0;
        while i < self.targets.len()
            invariant
                0 <= i <= self.targets@.len(),
                out@.len() == i,
                forall|x: int|
                    0 <= x < i ==> {
                        &&& (#[trigger] out@[x]).to == self.targets@[x].connection
                        &&& out@[x].message matches Message::Event(sid, pid, details, margs,
                        mkwargs) && {
                            &&& sid == self.targets@[x].subscription_id
                            &&& pid == self.publication_id
                            &&& (self.targets@[x].strict ==> details.topic is None)
                            &&& (!self.targets@[x].strict ==> (details.topic matches Some(u)
                                && u.uri@ == self.topic.uri@))
                            &&& (self.args is None <==> margs is None)
                            &&& (self.args matches Some(a) ==> (margs matches Some(ma)
                                && crate::value::values_like(ma@, a@)))
                            &&& (self.kwargs is None <==> mkwargs is None)
                            &&& (self.kwargs matches Some(k) ==> (mkwargs matches Some(mk)
                                && crate::value::entries_like(mk@, k@)))
                        }
                    },
            decreases self.targets@.len() - i,
        {
            let target = &self.targets[i];
            let details = if target.strict {
                crate::options::EventDetails::new()
            } else {
                crate::options::EventDetails::new_with_topic(URI { uri: self.topic.uri.clone() })
            };
            let margs = match &self.args {
                Some(a) => Some(crate::value::duplicate_list(a)),
                None => None,
            };
            let mkwargs = match &self.kwargs {
                Some(k) => Some(crate::value::duplicate_dict(k)),
                None => None,
            };
            out.push(
                Outbound {
                    to: target.connection,
                    message: Message::Event(
                        target.subscription_id,
                        self.publication_id,
                        details,
                        margs,
                        mkwargs,
                    ),
                },
            );
            i = i + 1;
        }
        out
    }
}

/// What one handling step asks the transport to do.
pub struct StepOutput {
    /// Messages to single connections, in order.
    pub replies: Vec<Outbound>,
    /// A publication to fan out, if the step was a publish.
    pub event: Option<EventBroadcast>,
    /// Whether the connection is to be closed after sending.
    pub close: bool,
}

impl StepOutput {
    fn none() -> (r: StepOutput)
        ensures
            r.replies@.len() == 0,
            r.event is None,
            !r.close,
    {
        StepOutput { replies: Vec::new(), event: None, close: false }
    }

    fn reply(to: ID, message: Message) -> (r: StepOutput)
        ensures
            r.replies@.len() == 1,
            r.replies@[0].to == to,
            r.replies@[0].message == message,
            r.event is None,
            !r.close,
    {
        let mut replies: Vec<Outbound> = Vec::new();
        replies.push(Outbound { to, message });
        StepOutput { replies, event: None, close: false }
    }
}

/// What one subscribe step ensures of the states it was given and the result it
/// answered; the ensures of [`ConnectionHandler::handle_subscribe`] is exactly
/// this relation, and the dispatcher answers the same relation for the
/// message kind it routes here.
/// The identifier list with every occurrence of `drop_id` dropped.
pub open spec fn drop_id_filter(s: Seq<ID>, drop_id: ID) -> Seq<ID> {
    s.filter(|x: ID| x != drop_id)
}

proof fn lemma_drop_id_filter_empty(drop_id: ID)
    ensures
        drop_id_filter(Seq::<ID>::empty(), drop_id) == Seq::<ID>::empty(),
{
    reveal(Seq::filter);
}

proof fn lemma_drop_id_filter_push(s: Seq<ID>, e: ID, drop_id: ID)
    ensures
        drop_id_filter(s.push(e), drop_id) == drop_id_filter(s, drop_id) + (if e != drop_id {
            seq![e]
        } else {
            Seq::<ID>::empty()
        }),
{
    reveal(Seq::filter);
    assert(s.push(e).drop_last() =~= s);
    assert(s.push(e).last() == e);
}

pub open spec fn subscribe_post(
    pre_realm: Realm,
    post_realm: Realm,
    pre_conn: ConnectionHandler,
    post_conn: ConnectionHandler,
    request_id: ID,
    options: SubscribeOptions,
    topic: URI,
    r: Result<StepOutput, Error>,
) -> bool {
    {
        &&& post_conn.id == pre_conn.id
        &&& match r {
                    Ok(out) => {
                        &&& exists|topic_id: ID|
                            {
                                &&& insert_rel(
                                    pre_realm.subscription_manager.subscriptions,
                                    post_realm.subscription_manager.subscriptions,
                                    uri_segments(topic.uri@),
                                    pre_conn.id,
                                    options.pattern_match,
                                    topic_id,
                                )
                                &&& post_realm.subscription_manager.subscription_ids_to_uris@
                                    == spec_id_insert(
                                    pre_realm.subscription_manager.subscription_ids_to_uris@,
                                    topic_id,
                                    (topic.uri, options.pattern_match == MatchingPolicy::Prefix),
                                )
                                &&& post_conn.subscribed_topics@ == pre_conn.subscribed_topics@.push(topic_id)
                                &&& out.replies@.len() == 1
                                &&& out.replies@[0].to == pre_conn.id
                                &&& out.replies@[0].message == Message::Subscribed(
                                    request_id,
                                    topic_id,
                                )
                            }
                        &&& valid_pattern(uri_segments(topic.uri@), options.pattern_match)
                        &&& out.event is None
                        &&& !out.close
                    },
                    Err(e) => {
                        &&& e.kind == ErrorKind::ErrorReason(
                            ErrorType::Subscribe,
                            request_id,
                            Reason::InvalidURI,
                        )
                        &&& !valid_pattern(uri_segments(topic.uri@), options.pattern_match)
                        &&& post_realm == pre_realm
                        &&& post_conn == pre_conn
                    },
                }
    }
}

/// What one unsubscribe step ensures of the states it was given and the result it
/// answered; the ensures of [`ConnectionHandler::handle_unsubscribe`] is exactly
/// this relation, and the dispatcher answers the same relation for the
/// message kind it routes here.
pub open spec fn unsubscribe_post(
    pre_realm: Realm,
    post_realm: Realm,
    pre_conn: ConnectionHandler,
    post_conn: ConnectionHandler,
    request_id: ID,
    topic_id: ID,
    r: Result<StepOutput, Error>,
) -> bool {
    {
        &&& post_conn.id == pre_conn.id
        &&& match r {
                    Ok(out) => {
                        &&& out.replies@.len() == 1
                        &&& out.replies@[0].to == pre_conn.id
                        &&& out.replies@[0].message == Message::Unsubscribed(request_id)
                        &&& out.event is None
                        &&& !out.close
                        &&& exists|entry: (String, bool), removed_id: ID|
                            {
                                &&& spec_id_get(
                                    pre_realm.subscription_manager.subscription_ids_to_uris@,
                                    topic_id,
                                ) == Some(entry)
                                &&& remove_rel(
                                    pre_realm.subscription_manager.subscriptions,
                                    post_realm.subscription_manager.subscriptions,
                                    uri_segments(entry.0@),
                                    pre_conn.id,
                                    entry.1,
                                    removed_id,
                                )
                            }
                        &&& post_realm.subscription_manager.subscription_ids_to_uris@ == pre_realm.subscription_manager.subscription_ids_to_uris@
                        &&& post_conn.subscribed_topics@ == drop_id_filter(
                            pre_conn.subscribed_topics@,
                            topic_id,
                        )
                    },
                    Err(e) => {
                        &&& post_realm == pre_realm
                        &&& post_conn == pre_conn
                        &&& match e.kind {
                            ErrorKind::ErrorReason(ty, rid, reason) => {
                                &&& ty == ErrorType::Unsubscribe
                                &&& rid == request_id
                                &&& (reason == Reason::NoSuchSubscription || reason
                                    == Reason::InvalidURI)
                                &&& (reason == Reason::NoSuchSubscription <==> spec_id_get(
                                    pre_realm.subscription_manager.subscription_ids_to_uris@,
                                    topic_id,
                                ) is None)
                                &&& (reason == Reason::InvalidURI <==> (match spec_id_get(
                                    pre_realm.subscription_manager.subscription_ids_to_uris@,
                                    topic_id,
                                ) {
                                    Some(entry) => pre_realm.subscription_manager.subscriptions
                                        .node_at(uri_segments(entry.0@)) is None,
                                    None => false,
                                }))
                            },
                            _ => false,
                        }
                    },
                }
    }
}

/// What one publish step ensures of the states it was given and the result it
/// answered; the ensures of [`ConnectionHandler::handle_publish`] is exactly
/// this relation, and the dispatcher answers the same relation for the
/// message kind it routes here.
pub open spec fn publish_post(
    pre_realm: Realm,
    post_realm: Realm,
    pre_conn: ConnectionHandler,
    post_conn: ConnectionHandler,
    request_id: ID,
    options: PublishOptions,
    topic: URI,
    args: Option<List>,
    kwargs: Option<Dict>,
    r: Result<StepOutput, Error>,
) -> bool {
    {
        &&& post_conn == pre_conn
        &&& post_realm == pre_realm
        &&& match r {
                    Ok(out) => {
                        &&& out.event matches Some(ev) && {
                            let ms = spec_matches(
                                pre_realm.subscription_manager.subscriptions,
                                uri_segments(topic.uri@),
                                0,
                            );
                            let kept = ms.filter(|m: (u64, ID, MatchingPolicy)| m.0 != pre_conn.id);
                            &&& ev.targets@.len() == kept.len()
                            &&& forall|i: int|
                                0 <= i < kept.len() ==> {
                                    &&& (#[trigger] ev.targets@[i]).connection == kept[i].0
                                    &&& ev.targets@[i].subscription_id == kept[i].1
                                    &&& ev.targets@[i].strict == (kept[i].2
                                        == MatchingPolicy::Strict)
                                }
                            &&& ev.topic == topic
                            &&& ev.args == args
                            &&& ev.kwargs == kwargs
                            &&& 1 <= ev.publication_id < 0x20000000000000u64
                            &&& if options.acknowledge {
                                out.replies@.len() == 1 && out.replies@[0].to == pre_conn.id
                                    && out.replies@[0].message == Message::Published(
                                    request_id,
                                    ev.publication_id,
                                )
                            } else {
                                out.replies@.len() == 0
                            }
                        }
                        &&& !out.close
                    },
                    Err(_) => false,
                }
    }
}

/// What one register step ensures of the states it was given and the result it
/// answered; the ensures of [`ConnectionHandler::handle_register`] is exactly
/// this relation, and the dispatcher answers the same relation for the
/// message kind it routes here.
pub open spec fn register_post(
    pre_realm: Realm,
    post_realm: Realm,
    pre_conn: ConnectionHandler,
    post_conn: ConnectionHandler,
    request_id: ID,
    options: RegisterOptions,
    procedure: URI,
    r: Result<StepOutput, Error>,
) -> bool {
    {
        &&& post_conn.id == pre_conn.id
        &&& match r {
                    Ok(out) => {
                        &&& exists|procedure_id: ID|
                            {
                                &&& crate::rpc_patterns::register_rel(
                                    pre_realm.registration_manager.registrations,
                                    post_realm.registration_manager.registrations,
                                    uri_segments(procedure.uri@),
                                    pre_conn.id,
                                    options.pattern_match,
                                    options.invocation_policy,
                                    procedure_id,
                                )
                                &&& post_realm.registration_manager.registration_ids_to_uris@
                                    == spec_id_insert(
                                    pre_realm.registration_manager.registration_ids_to_uris@,
                                    procedure_id,
                                    (procedure.uri, options.pattern_match == MatchingPolicy::Prefix),
                                )
                                &&& post_conn.registered_procedures@ == pre_conn.registered_procedures@.push(procedure_id)
                                &&& out.replies@.len() == 1
                                &&& out.replies@[0].to == pre_conn.id
                                &&& out.replies@[0].message == Message::Registered(
                                    request_id,
                                    procedure_id,
                                )
                            }
                        &&& valid_pattern(uri_segments(procedure.uri@), options.pattern_match)
                        &&& pre_realm.registration_manager.registrations.spec_may_register(
                            uri_segments(procedure.uri@),
                            options.pattern_match,
                            options.invocation_policy,
                        )
                        &&& out.event is None
                        &&& !out.close
                    },
                    Err(e) => {
                        &&& post_realm == pre_realm
                        &&& post_conn == pre_conn
                        &&& match e.kind {
                            ErrorKind::ErrorReason(ty, rid, reason) => {
                                &&& ty == ErrorType::Register
                                &&& rid == request_id
                                &&& (reason == Reason::InvalidURI || reason
                                    == Reason::ProcedureAlreadyExists)
                                &&& (reason == Reason::InvalidURI <==> !valid_pattern(
                                    uri_segments(procedure.uri@),
                                    options.pattern_match,
                                ))
                                &&& (reason == Reason::ProcedureAlreadyExists <==> valid_pattern(
                                    uri_segments(procedure.uri@),
                                    options.pattern_match,
                                ) && !pre_realm.registration_manager.registrations
                                    .spec_may_register(
                                    uri_segments(procedure.uri@),
                                    options.pattern_match,
                                    options.invocation_policy,
                                ))
                            },
                            _ => false,
                        }
                    },
                }
    }
}

/// What one unregister step ensures of the states it was given and the result it
/// answered; the ensures of [`ConnectionHandler::handle_unregister`] is exactly
/// this relation, and the dispatcher answers the same relation for the
/// message kind it routes here.
pub open spec fn unregister_post(
    pre_realm: Realm,
    post_realm: Realm,
    pre_conn: ConnectionHandler,
    post_conn: ConnectionHandler,
    request_id: ID,
    procedure_id: ID,
    r: Result<StepOutput, Error>,
) -> bool {
    {
        &&& post_conn.id == pre_conn.id
        &&& match r {
                    Ok(out) => {
                        &&& out.replies@.len() == 1
                        &&& out.replies@[0].to == pre_conn.id
                        &&& out.replies@[0].message == Message::Unregistered(request_id)
                        &&& out.event is None
                        &&& !out.close
                        &&& exists|entry: (String, bool), removed_id: ID|
                            {
                                &&& spec_id_get(
                                    pre_realm.registration_manager.registration_ids_to_uris@,
                                    procedure_id,
                                ) == Some(entry)
                                &&& crate::rpc_patterns::remove_rel(
                                    pre_realm.registration_manager.registrations,
                                    post_realm.registration_manager.registrations,
                                    uri_segments(entry.0@),
                                    pre_conn.id,
                                    entry.1,
                                    removed_id,
                                )
                            }
                        &&& post_conn.registered_procedures@ == drop_id_filter(
                            pre_conn.registered_procedures@,
                            procedure_id,
                        )
                    },
                    Err(e) => {
                        &&& post_realm == pre_realm
                        &&& post_conn == pre_conn
                        &&& match e.kind {
                            ErrorKind::ErrorReason(ty, rid, reason) => {
                                &&& ty == ErrorType::Unregister
                                &&& rid == request_id
                                &&& (reason == Reason::NoSuchProcedure || reason
                                    == Reason::InvalidURI)
                                &&& (reason == Reason::NoSuchProcedure <==> spec_id_get(
                                    pre_realm.registration_manager.registration_ids_to_uris@,
                                    procedure_id,
                                ) is None)
                                &&& (reason == Reason::InvalidURI <==> (match spec_id_get(
                                    pre_realm.registration_manager.registration_ids_to_uris@,
                                    procedure_id,
                                ) {
                                    Some(entry) => pre_realm.registration_manager.registrations
                                        .node_at(uri_segments(entry.0@)) is None,
                                    None => false,
                                }))
                            },
                            _ => false,
                        }
                    },
                }
    }
}

/// What one call step ensures of the states it was given and the result it
/// answered; the ensures of [`ConnectionHandler::handle_call`] is exactly
/// this relation, and the dispatcher answers the same relation for the
/// message kind it routes here.
pub open spec fn call_post(
    pre_realm: Realm,
    post_realm: Realm,
    pre_conn: ConnectionHandler,
    post_conn: ConnectionHandler,
    request_id: ID,
    procedure: URI,
    args: Option<List>,
    kwargs: Option<Dict>,
    r: Result<StepOutput, Error>,
) -> bool {
    {
        &&& post_conn == pre_conn
        &&& crate::rpc_patterns::same_shape(
                    pre_realm.registration_manager.registrations,
                    post_realm.registration_manager.registrations,
                )
        &&& post_realm.registration_manager.registration_ids_to_uris@ == pre_realm.registration_manager.registration_ids_to_uris@
        &&& post_realm.subscription_manager == pre_realm.subscription_manager
        &&& post_realm.connections@ == pre_realm.connections@
        &&& match spec_find(
                    pre_realm.registration_manager.registrations,
                    uri_segments(procedure.uri@),
                    0,
                ) {
                    None => r matches Err(e) && e.kind == ErrorKind::ErrorReason(
                        ErrorType::Call,
                        request_id,
                        Reason::NoSuchProcedure,
                    ) && post_realm.registration_manager.active_calls@ == pre_realm.registration_manager.active_calls@,
                    Some((entries, policy, reg_id, is_prefix)) => r matches Ok(out) && {
                        &&& out.replies@.len() == 1
                        &&& out.event is None
                        &&& !out.close
                        &&& out.replies@[0].message matches Message::Invocation(
                            inv_id,
                            msg_reg_id,
                            details,
                            margs,
                            mkwargs,
                        ) && {
                            &&& msg_reg_id == reg_id
                            &&& margs == args
                            &&& mkwargs == kwargs
                            &&& post_realm.registration_manager.active_calls@ == spec_id_insert(
                                pre_realm.registration_manager.active_calls@,
                                inv_id,
                                (request_id, pre_conn.id, out.replies@[0].to),
                            )
                            &&& exists|i: int|
                                0 <= i < entries.len() && (#[trigger] entries[i]).registrant
                                    == out.replies@[0].to && if entries[i].policy
                                    == MatchingPolicy::Strict {
                                    details.procedure is None
                                } else {
                                    details.procedure == Some(URI { uri: procedure.uri })
                                }
                        }
                    },
                }
    }
}

/// What one yield step ensures of the states it was given and the result it
/// answered; the ensures of [`ConnectionHandler::handle_yield`] is exactly
/// this relation, and the dispatcher answers the same relation for the
/// message kind it routes here.
pub open spec fn yield_post(
    pre_realm: Realm,
    post_realm: Realm,
    pre_conn: ConnectionHandler,
    post_conn: ConnectionHandler,
    invocation_id: ID,
    args: Option<List>,
    kwargs: Option<Dict>,
    r: Result<StepOutput, Error>,
) -> bool {
    {
        &&& post_conn == pre_conn
        &&& match spec_id_get(pre_realm.registration_manager.active_calls@, invocation_id) {
                    Some(entry) => r matches Ok(out) && {
                        &&& out.replies@.len() == 1
                        &&& out.replies@[0].to == entry.1
                        &&& out.replies@[0].message == Message::Result(
                            entry.0,
                            ResultDetails {  },
                            args,
                            kwargs,
                        )
                        &&& out.event is None
                        &&& !out.close
                        &&& post_realm.registration_manager.active_calls@ == spec_id_remove(
                            pre_realm.registration_manager.active_calls@,
                            invocation_id,
                        )
                    },
                    None => r matches Err(e) && e.kind matches ErrorKind::InvalidState(_)
                        && post_realm == pre_realm,
                }
    }
}

/// What one error step ensures of the states it was given and the result it
/// answered; the ensures of [`ConnectionHandler::handle_error`] is exactly
/// this relation, and the dispatcher answers the same relation for the
/// message kind it routes here.
pub open spec fn error_post(
    pre_realm: Realm,
    post_realm: Realm,
    pre_conn: ConnectionHandler,
    post_conn: ConnectionHandler,
    e_type: ErrorType,
    request_id: ID,
    details: Dict,
    reason: Reason,
    args: Option<List>,
    kwargs: Option<Dict>,
    r: Result<StepOutput, Error>,
) -> bool {
    {
        &&& post_conn == pre_conn
        &&& e_type != ErrorType::Invocation ==> (r matches Err(e) && e.kind matches
                    ErrorKind::InvalidState(_) && post_realm == pre_realm)
        &&& e_type == ErrorType::Invocation ==> match spec_id_get(
                    pre_realm.registration_manager.active_calls@,
                    request_id,
                ) {
                    Some(entry) => r matches Ok(out) && {
                        &&& out.replies@.len() == 1
                        &&& out.replies@[0].to == entry.1
                        &&& (out.replies@[0].message matches Message::Error(
                            ty,
                            rid,
                            d,
                            rsn,
                            margs,
                            mkwargs,
                        ) && ty == ErrorType::Call && rid == entry.0 && d == details && rsn == reason
                            && margs == args && mkwargs == kwargs)
                        &&& post_realm.registration_manager.active_calls@ == spec_id_remove(
                            pre_realm.registration_manager.active_calls@,
                            request_id,
                        )
                    },
                    None => r matches Err(e) && e.kind matches ErrorKind::InvalidState(_)
                        && post_realm == pre_realm,
                }
    }
}

/// What one goodbye step ensures of the states it was given and the result it
/// answered; the ensures of [`ConnectionHandler::handle_goodbye`] is exactly
/// this relation, and the dispatcher answers the same relation for the
/// message kind it routes here.
pub open spec fn goodbye_post(
    pre_realm: Realm,
    post_realm: Realm,
    pre_conn: ConnectionHandler,
    post_conn: ConnectionHandler,
    r: Result<StepOutput, Error>,
) -> bool {
    {
        &&& post_conn.id == pre_conn.id
        &&& pre_conn.state == ConnectionState::Initializing ==> (r matches Err(e) && e.kind
                    matches ErrorKind::InvalidState(_) && post_realm == pre_realm && post_conn == pre_conn)
        &&& pre_conn.state == ConnectionState::Connected ==> (r matches Ok(out) && {
                    &&& post_conn.state == ConnectionState::Disconnected
                    &&& out.close
                    &&& out.replies@.len() >= 1
                    &&& out.replies@.last().to == pre_conn.id
                    &&& out.replies@.last().message == Message::Goodbye(
                        ErrorDetails { message: None },
                        Reason::GoodbyeAndOut,
                    )
                    &&& post_realm.connections@ == drop_id_filter(
                    pre_realm.connections@,
                    pre_conn.id,
                )
                    &&& forall|x: int|
                        0 <= x < pre_conn.subscribed_topics@.len() ==> (match spec_id_get(
                            pre_realm.subscription_manager.subscription_ids_to_uris@,
                            #[trigger] pre_conn.subscribed_topics@[x],
                        ) {
                            Some(entry) => crate::pubsub_patterns::clean_at(
                                post_realm.subscription_manager.subscriptions,
                                uri_segments(entry.0@),
                                pre_conn.id,
                                entry.1,
                            ),
                            None => true,
                        })
                    &&& forall|x: int|
                        0 <= x < pre_conn.registered_procedures@.len() ==> (match spec_id_get(
                            pre_realm.registration_manager.registration_ids_to_uris@,
                            #[trigger] pre_conn.registered_procedures@[x],
                        ) {
                            Some(entry) => crate::rpc_patterns::clean_at(
                                post_realm.registration_manager.registrations,
                                uri_segments(entry.0@),
                                pre_conn.id,
                                entry.1,
                            ),
                            None => true,
                        })
                    &&& post_realm.registration_manager.active_calls@ == pre_realm.registration_manager.active_calls@.filter(
                        |e: (u64, (ID, ID, ID))| e.1.1 != pre_conn.id && e.1.2 != pre_conn.id,
                    )
                    &&& ({
                        let dropped = pre_realm.registration_manager.active_calls@.filter(
                            |e: (u64, (ID, ID, ID))| e.1.2 == pre_conn.id,
                        );
                        &&& out.replies@.len() == dropped.len() + 1
                        &&& forall|x: int|
                            0 <= x < dropped.len() ==> {
                                &&& (#[trigger] out.replies@[x]).to == dropped[x].1.1
                                &&& out.replies@[x].message matches Message::Error(
                                    ty,
                                    rid,
                                    d,
                                    rsn,
                                    margs,
                                    mkwargs,
                                ) && ty == ErrorType::Call && rid == dropped[x].1.0 && d@.len() == 0
                                    && rsn == Reason::NetworkFailure && margs is None && mkwargs
                                    is None
                            }
                    })
                })
        &&& pre_conn.state == ConnectionState::ShuttingDown ==> (r matches Ok(out) && {
                    &&& post_conn.state == ConnectionState::Disconnected
                    &&& out.close
                    &&& out.replies@.len() == 0
                    &&& post_realm == pre_realm
                })
        &&& pre_conn.state == ConnectionState::Disconnected ==> (r matches Ok(out)
                    && out.replies@.len() == 0 && !out.close && post_realm == pre_realm
                    && post_conn == pre_conn)
    }
}

/// What one hello step ensures of the states it was given and the result it
/// answered; the ensures of [`ConnectionHandler::handle_hello`] is exactly
/// this relation, and the dispatcher answers the same relation for the
/// message kind it routes here.
pub open spec fn hello_post(
    pre_router: Router,
    post_router: Router,
    pre_conn: ConnectionHandler,
    post_conn: ConnectionHandler,
    realm: URI,
    r: Result<StepOutput, Error>,
) -> bool {
    {
        &&& post_conn.id == pre_conn.id
        &&& post_router.realms@.len() == pre_router.realms@.len()
        &&& forall|j: int|
                    0 <= j < pre_router.realms@.len() ==> (#[trigger] post_router.realms@[j]).0
                        == pre_router.realms@[j].0
        &&& match r {
                    Ok(out) => {
                        &&& Router::spec_realm_index(pre_router.realms@, realm.uri@) matches Some(k)
                            && post_conn.realm == Some(k as usize)
                            && post_router.realms@[k].1.connections@
                            == pre_router.realms@[k].1.connections@.push(pre_conn.id)
                            && (forall|j: int|
                            0 <= j < pre_router.realms@.len() && j != k
                                ==> #[trigger] post_router.realms@[j] == pre_router.realms@[j])
                        &&& out.replies@.len() == 1
                        &&& out.replies@[0].to == pre_conn.id
                        &&& (out.replies@[0].message matches Message::Welcome(sid, details) && sid
                            == pre_conn.id && details == (WelcomeDetails {
                            agent: None,
                            roles: RouterRoles {
                                broker: crate::roles::BrokerRole {
                                    features: Some(
                                        crate::roles::BrokerFeatures {
                                            pattern_based_subscription: true,
                                        },
                                    ),
                                },
                                dealer: crate::roles::DealerRole {
                                    features: Some(
                                        crate::roles::DealerFeatures {
                                            pattern_based_registration: true,
                                        },
                                    ),
                                },
                            },
                        }))
                        &&& Router::spec_realm_index(pre_router.realms@, realm.uri@) is Some
                        &&& post_conn.state == ConnectionState::Connected
                    },
                    Err(e) => {
                        &&& e.kind == ErrorKind::HandshakeError(Reason::NoSuchRealm)
                        &&& Router::spec_realm_index(pre_router.realms@, realm.uri@) is None
                        &&& post_router == pre_router
                        &&& post_conn == pre_conn
                    },
                }
    }
}

/// Whether the router speaks the named WebSocket sub-protocol.
pub open spec fn spec_speaks_subprotocol(p: Seq<char>) -> bool {
    p == "wamp.2.json"@ || p == "wamp.2.msgpack"@
}

/// The first offered sub-protocol the router speaks, as an index.
pub open spec fn spec_selected_subprotocol(offered: Seq<String>) -> Option<int>
    decreases offered.len(),
{
    if offered.len() == 0 {
        None
    } else if spec_speaks_subprotocol(offered[0]@) {
        Some(0)
    } else {
        match spec_selected_subprotocol(offered.skip(1)) {
            Some(i) => Some(i + 1),
            None => None,
        }
    }
}

/// Picks the sub-protocol for the handshake: the first offer the router
/// speaks — `wamp.2.json` or `wamp.2.msgpack` — or none, upon which the
/// handshake fails.
pub fn select_subprotocol(offered: &Vec<String>) -> (r: Option<usize>)
    ensures
        match r {
            Some(i) => i < offered@.len() && spec_selected_subprotocol(offered@)
                == Some(i as int),
            None => spec_selected_subprotocol(offered@) is None,
        },
{
    let mut i: usize = 0;
    while i < offered.len()
        invariant
            0 <= i <= offered@.len(),
            forall|j: int| 0 <= j < i ==> !spec_speaks_subprotocol((#[trigger] offered@[j])@),
        decreases offered@.len() - i,
    {
        if crate::strutil::str_eq(offered[i].as_str(), "wamp.2.json") || crate::strutil::str_eq(
            offered[i].as_str(),
            "wamp.2.msgpack",
        ) {
            proof {
                lemma_subprotocol_of(offered@, i as int);
            }
            return Some(i);
        }
        i = i + 1;
    }
    proof {
        lemma_subprotocol_none(offered@);
    }
    None
}

proof fn lemma_subprotocol_of(s: Seq<String>, k: int)
    requires
        0 <= k < s.len(),
        spec_speaks_subprotocol(s[k]@),
        forall|j: int| 0 <= j < k ==> !spec_speaks_subprotocol((#[trigger] s[j])@),
    ensures
        spec_selected_subprotocol(s) == Some(k),
    decreases k,
{
    if k == 0 {
    } else {
        assert(forall|j: int| 0 <= j < s.skip(1).len() ==> s.skip(1)[j] == s[j + 1]);
        lemma_subprotocol_of(s.skip(1), k - 1);
    }
}

proof fn lemma_subprotocol_none(s: Seq<String>)
    requires
        forall|j: int| 0 <= j < s.len() ==> !spec_speaks_subprotocol((#[trigger] s[j])@),
    ensures
        spec_selected_subprotocol(s) is None,
    decreases s.len(),
{
    if s.len() == 0 {
    } else {
        assert(forall|j: int| 0 <= j < s.skip(1).len() ==> s.skip(1)[j] == s[j + 1]);
        lemma_subprotocol_none(s.skip(1));
    }
}

/// The per-realm book: who subscribes to what, and under which identifiers.
pub struct SubscriptionManager {
    /// The pattern trie of subscriptions, holding connection identifiers.
    pub subscriptions: SubscriptionPatternNode<u64>,
    /// Which pattern each subscription identifier was made under, and
    /// whether as a prefix pattern.
    pub subscription_ids_to_uris: IdMap<(String, bool)>,
}

/// The per-realm book: who answers which procedures.
pub struct RegistrationManager {
    /// The pattern trie of registrations, holding connection identifiers.
    pub registrations: RegistrationPatternNode<u64>,
    /// Which pattern each registration identifier was made under, and
    /// whether as a prefix pattern.
    pub registration_ids_to_uris: IdMap<(String, bool)>,
    /// In-flight invocations: the caller's request identifier, the caller's
    /// connection and the callee's connection, keyed by invocation id.
    pub active_calls: IdMap<(ID, ID, ID)>,
}

/// A named space of subscriptions, registrations and connections.
pub struct Realm {
    /// The book of subscriptions.
    pub subscription_manager: SubscriptionManager,
    /// The book of registrations.
    pub registration_manager: RegistrationManager,
    /// The attached connections.
    pub connections: Vec<ID>,
}

impl Realm {
    /// Makes an empty realm.
    pub fn new() -> (r: Realm)
        ensures
            r.subscription_manager.subscriptions.edges@.len() == 0,
            r.subscription_manager.subscriptions.connections@.len() == 0,
            r.subscription_manager.subscriptions.prefix_connections@.len() == 0,
            r.subscription_manager.subscription_ids_to_uris@.len() == 0,
            r.registration_manager.registrations.edges@.len() == 0,
            r.registration_manager.registrations.connections.procedures@.len() == 0,
            r.registration_manager.registrations.prefix_connections.procedures@.len() == 0,
            r.registration_manager.registration_ids_to_uris@.len() == 0,
            r.registration_manager.active_calls@.len() == 0,
            r.connections@.len() == 0,
    {
        Realm {
            subscription_manager: SubscriptionManager {
                subscriptions: SubscriptionPatternNode::new(),
                subscription_ids_to_uris: IdMap::new(),
            },
            registration_manager: RegistrationManager {
                registrations: RegistrationPatternNode::new(),
                registration_ids_to_uris: IdMap::new(),
                active_calls: IdMap::new(),
            },
            connections: Vec::new(),
        }
    }
}

/// The router: its realms, by name.
pub struct Router {
    /// The realms, under their names.
    pub realms: Vec<(String, Realm)>,
}

/// The per-connection state the router keeps.
pub struct ConnectionHandler {
    /// The connection's session identifier.
    pub id: ID,
    /// Where the connection stands in its lifecycle.
    pub state: ConnectionState,
    /// The realm the connection is attached to, by index into the router's
    /// realm list.
    pub realm: Option<usize>,
    /// The subscription identifiers this connection obtained.
    pub subscribed_topics: Vec<ID>,
    /// The registration identifiers this connection obtained.
    pub registered_procedures: Vec<ID>,
}

impl ConnectionHandler {
    /// State for a freshly opened connection, with a drawn session id.
    pub fn new() -> (c: ConnectionHandler)
        ensures
            c.state == ConnectionState::Initializing,
            c.realm is None,
            c.subscribed_topics@.len() == 0,
            c.registered_procedures@.len() == 0,
            1 <= c.id < 0x20000000000000u64,
    {
        ConnectionHandler {
            id: random_id(),
            state: ConnectionState::Initializing,
            realm: None,
            subscribed_topics: Vec::new(),
            registered_procedures: Vec::new(),
        }
    }

    /// Answers a subscribe request: the pattern goes into the realm's trie
    /// under this connection, the pattern is recorded under the answered
    /// identifier, and the acknowledgement goes back to the subscriber.
    pub fn handle_subscribe(
        &mut self,
        realm: &mut Realm,
        request_id: ID,
        options: SubscribeOptions,
        topic: URI,
    ) -> (r: Result<StepOutput, Error>)
        ensures
            subscribe_post(
                *old(realm),
                *final(realm),
                *old(self),
                *final(self),
                request_id,
                options,
                topic,
                r,
            ),
    {
        let manager = &mut realm.subscription_manager;
        let topic_id = match manager.subscriptions.subscribe_with(
            &topic,
            self.id,
            options.pattern_match,
        ) {
            Ok(topic_id) => topic_id,
            Err(e) => {
                return Err(
                    Error::new(
                        ErrorKind::ErrorReason(ErrorType::Subscribe, request_id, e.reason()),
                    ),
                );
            },
        };
        self.subscribed_topics.push(topic_id);
        manager.subscription_ids_to_uris.insert(
            topic_id,
            (topic.uri, options.pattern_match == MatchingPolicy::Prefix),
        );
        Ok(StepOutput::reply(self.id, Message::Subscribed(request_id, topic_id)))
    }

    /// Answers an unsubscribe request: the subscription's pattern is looked
    /// up by its identifier, the connection's entries leave the trie, and
    /// the acknowledgement goes back.  An identifier the realm does not
    /// know fails with no-such-subscription.
    pub fn handle_unsubscribe(&mut self, realm: &mut Realm, request_id: ID, topic_id: ID) -> (r:
        Result<StepOutput, Error>)
        ensures
            unsubscribe_post(
                *old(realm),
                *final(realm),
                *old(self),
                *final(self),
                request_id,
                topic_id,
                r,
            ),
    {
        let manager = &mut realm.subscription_manager;
        let (topic_uri, is_prefix) = match manager.subscription_ids_to_uris.get(topic_id) {
            Some(pair) => (pair.0.clone(), pair.1),
            None => {
                return Err(
                    Error::new(
                        ErrorKind::ErrorReason(
                            ErrorType::Unsubscribe,
                            request_id,
                            Reason::NoSuchSubscription,
                        ),
                    ),
                );
            },
        };
        let removed_id = match manager.subscriptions.unsubscribe_with(
            topic_uri.as_str(),
            &self.id,
            is_prefix,
        ) {
            Ok(rid) => rid,
            Err(e) => {
                return Err(
                    Error::new(
                        ErrorKind::ErrorReason(ErrorType::Unsubscribe, request_id, e.reason()),
                    ),
                );
            },
        };
        proof {
            let entry = (topic_uri, is_prefix);
            assert(spec_id_get(
                old(realm).subscription_manager.subscription_ids_to_uris@,
                topic_id,
            ) == Some(entry));
            assert(remove_rel(
                old(realm).subscription_manager.subscriptions,
                realm.subscription_manager.subscriptions,
                uri_segments(entry.0@),
                old(self).id,
                entry.1,
                removed_id,
            ));
        }
        retain_except(&mut self.subscribed_topics, topic_id);
        Ok(StepOutput::reply(self.id, Message::Unsubscribed(request_id)))
    }

    /// Answers a publish request: a publication identifier is drawn, every
    /// matching subscriber but the publisher itself becomes a target, and
    /// the publisher gets an acknowledgement only when it asked for one.
    pub fn handle_publish(
        &mut self,
        realm: &mut Realm,
        request_id: ID,
        options: PublishOptions,
        topic: URI,
        args: Option<List>,
        kwargs: Option<Dict>,
    ) -> (r: Result<StepOutput, Error>)
        ensures
            publish_post(
                *old(realm),
                *final(realm),
                *old(self),
                *final(self),
                request_id,
                options,
                topic,
                args,
                kwargs,
                r,
            ),
    {
        let manager = &realm.subscription_manager;
        let publication_id = random_id();
        let my_id = self.id;
        let topic_copy = URI { uri: topic.uri.clone() };
        let mut it = manager.subscriptions.filter(topic_copy);
        proof {
            assert(topic_copy.uri@ == topic.uri@);
        }
        let ghost ms = spec_matches(
            realm.subscription_manager.subscriptions,
            uri_segments(topic.uri@),
            0,
        );
        let mut targets: Vec<EventTarget> = Vec::new();
        proof {
            crate::lemma_filter_empty(|m: (u64, ID, MatchingPolicy)| m.0 != my_id);
            assert(ms.take(0) =~= Seq::empty());
        }
        loop
            invariant
                it.items@ == ms,
                0 <= it.pos <= ms.len(),
                my_id == self.id,
                ({
                    let kept = ms.take(it.pos as int).filter(
                        |m: (u64, ID, MatchingPolicy)| m.0 != my_id,
                    );
                    &&& targets@.len() == kept.len()
                    &&& forall|j: int|
                        0 <= j < kept.len() ==> {
                            &&& (#[trigger] targets@[j]).connection == kept[j].0
                            &&& targets@[j].subscription_id == kept[j].1
                            &&& targets@[j].strict == (kept[j].2 == MatchingPolicy::Strict)
                        }
                }),
            ensures
                ({
                    let kept = ms.filter(|m: (u64, ID, MatchingPolicy)| m.0 != my_id);
                    &&& targets@.len() == kept.len()
                    &&& forall|j: int|
                        0 <= j < kept.len() ==> {
                            &&& (#[trigger] targets@[j]).connection == kept[j].0
                            &&& targets@[j].subscription_id == kept[j].1
                            &&& targets@[j].strict == (kept[j].2 == MatchingPolicy::Strict)
                        }
                }),
            decreases ms.len() - it.pos,
        {
            let ghost pos0 = it.pos as int;
            match it.next() {
                Some((subscriber, topic_id, policy)) => {
                    proof {
                        assert(ms.take(pos0 + 1) =~= ms.take(pos0).push(ms[pos0]));
                        crate::lemma_filter_push(
                            ms.take(pos0),
                            ms[pos0],
                            |m: (u64, ID, MatchingPolicy)| m.0 != my_id,
                        );
                    }
                    if subscriber != my_id {
                        targets.push(
                            EventTarget {
                                connection: subscriber,
                                subscription_id: topic_id,
                                strict: policy == MatchingPolicy::Strict,
                            },
                        );
                    }
                },
                None => {
                    proof {
                        assert(ms.take(it.pos as int) =~= ms);
                    }
                    break ;
                },
            }
        }
        proof {
            assert((|m: (u64, ID, MatchingPolicy)| m.0 != my_id) =~= (
            |m: (u64, ID, MatchingPolicy)| m.0 != old(self).id));
        }
        let replies = if options.should_acknowledge() {
            let mut v: Vec<Outbound> = Vec::new();
            v.push(
                Outbound {
                    to: self.id,
                    message: Message::Published(request_id, publication_id),
                },
            );
            v
        } else {
            Vec::new()
        };
        Ok(
            StepOutput {
                replies,
                event: Some(
                    EventBroadcast { publication_id, targets, topic, args, kwargs },
                ),
                close: false,
            },
        )
    }
}

/// Keeps every identifier but the given one, in order.
fn retain_except(list: &mut Vec<ID>, drop_id: ID)
    ensures
        final(list)@ == drop_id_filter(old(list)@, drop_id),
{
    let ghost orig = list@;
    let mut out: Vec<ID> = Vec::new();
    let mut i: usize = 0;
    proof {
        lemma_drop_id_filter_empty(drop_id);
        assert(orig.take(0) =~= Seq::empty());
    }
    while i < list.len()
        invariant
            0 <= i <= orig.len(),
            list@ == orig,
            out@ == drop_id_filter(orig.take(i as int), drop_id),
        decreases orig.len() - i,
    {
        proof {
            assert(orig.take(i + 1) =~= orig.take(i as int).push(orig[i as int]));
            lemma_drop_id_filter_push(orig.take(i as int), orig[i as int], drop_id);
        }
        if list[i] != drop_id {
            out.push(list[i]);
        }
        i = i + 1;
    }
    proof {
        assert(orig.take(orig.len() as int) =~= orig);
    }
    *list = out;
}

} // verus!
verus! {

impl ConnectionHandler {
    /// Answers a register request: the pattern goes into the realm's trie
    /// under this connection if the shared-registration rule admits it, the
    /// pattern is recorded under the answered identifier, and the
    /// acknowledgement goes back to the callee.
    pub fn handle_register(
        &mut self,
        realm: &mut Realm,
        request_id: ID,
        options: RegisterOptions,
        procedure: URI,
    ) -> (r: Result<StepOutput, Error>)
        ensures
            register_post(
                *old(realm),
                *final(realm),
                *old(self),
                *final(self),
                request_id,
                options,
                procedure,
                r,
            ),
    {
        let manager = &mut realm.registration_manager;
        let procedure_id = match manager.registrations.register_with(
            &procedure,
            self.id,
            options.pattern_match,
            options.invocation_policy,
        ) {
            Ok(procedure_id) => procedure_id,
            Err(e) => {
                return Err(
                    Error::new(
                        ErrorKind::ErrorReason(ErrorType::Register, request_id, e.reason()),
                    ),
                );
            },
        };
        self.registered_procedures.push(procedure_id);
        manager.registration_ids_to_uris.insert(
            procedure_id,
            (procedure.uri, options.pattern_match == MatchingPolicy::Prefix),
        );
        Ok(StepOutput::reply(self.id, Message::Registered(request_id, procedure_id)))
    }

    /// Answers an unregister request: the registration's pattern is looked
    /// up by its identifier, the connection's entries leave the trie, and
    /// the acknowledgement goes back.  An identifier the realm does not
    /// know fails with no-such-procedure.
    pub fn handle_unregister(&mut self, realm: &mut Realm, request_id: ID, procedure_id: ID) -> (r:
        Result<StepOutput, Error>)
        ensures
            unregister_post(
                *old(realm),
                *final(realm),
                *old(self),
                *final(self),
                request_id,
                procedure_id,
                r,
            ),
    {
        let manager = &mut realm.registration_manager;
        let (procedure_uri, is_prefix) = match manager.registration_ids_to_uris.get(procedure_id) {
            Some(pair) => (pair.0.clone(), pair.1),
            None => {
                return Err(
                    Error::new(
                        ErrorKind::ErrorReason(
                            ErrorType::Unregister,
                            request_id,
                            Reason::NoSuchProcedure,
                        ),
                    ),
                );
            },
        };
        let removed_id = match manager.registrations.unregister_with(
            procedure_uri.as_str(),
            &self.id,
            is_prefix,
        ) {
            Ok(rid) => rid,
            Err(e) => {
                return Err(
                    Error::new(
                        ErrorKind::ErrorReason(ErrorType::Unregister, request_id, e.reason()),
                    ),
                );
            },
        };
        proof {
            let entry = (procedure_uri, is_prefix);
            assert(spec_id_get(
                old(realm).registration_manager.registration_ids_to_uris@,
                procedure_id,
            ) == Some(entry));
            assert(crate::rpc_patterns::remove_rel(
                old(realm).registration_manager.registrations,
                realm.registration_manager.registrations,
                uri_segments(entry.0@),
                old(self).id,
                entry.1,
                removed_id,
            ));
        }
        retain_except(&mut self.registered_procedures, procedure_id);
        Ok(StepOutput::reply(self.id, Message::Unregistered(request_id)))
    }

    /// Answers a call: the callee is picked by the precedence exact over
    /// wildcard over prefix and by the registration's invocation policy, a
    /// fresh invocation identifier is drawn and recorded against the caller,
    /// and the invocation goes to the callee, naming the concrete procedure
    /// where the match was not strict.
    pub fn handle_call(
        &mut self,
        realm: &mut Realm,
        request_id: ID,
        _options: CallOptions,
        procedure: URI,
        args: Option<List>,
        kwargs: Option<Dict>,
    ) -> (r: Result<StepOutput, Error>)
        ensures
            call_post(
                *old(realm),
                *final(realm),
                *old(self),
                *final(self),
                request_id,
                procedure,
                args,
                kwargs,
                r,
            ),
    {
        let manager = &mut realm.registration_manager;
        let invocation_id = random_id();
        let procedure_copy = URI { uri: procedure.uri.clone() };
        let (registrant, procedure_id, policy) = match manager.registrations.get_registrant_for(
            procedure_copy,
        ) {
            Ok(x) => x,
            Err(e) => {
                return Err(
                    Error::new(ErrorKind::ErrorReason(ErrorType::Call, request_id, e.reason())),
                );
            },
        };
        manager.active_calls.insert(invocation_id, (request_id, self.id, registrant));
        let details = if policy == MatchingPolicy::Strict {
            InvocationDetails::new()
        } else {
            InvocationDetails { procedure: Some(procedure) }
        };
        Ok(
            StepOutput::reply(
                registrant,
                Message::Invocation(invocation_id, procedure_id, details, args, kwargs),
            ),
        )
    }

    /// Answers a yield from a callee: the in-flight invocation is closed
    /// and its outcome goes to the caller as a result.  A yield for no
    /// in-flight invocation is refused.
    pub fn handle_yield(
        &mut self,
        realm: &mut Realm,
        invocation_id: ID,
        _options: YieldOptions,
        args: Option<List>,
        kwargs: Option<Dict>,
    ) -> (r: Result<StepOutput, Error>)
        ensures
            yield_post(
                *old(realm),
                *final(realm),
                *old(self),
                *final(self),
                invocation_id,
                args,
                kwargs,
                r,
            ),
    {
        let manager = &mut realm.registration_manager;
        if !manager.active_calls.contains_key(invocation_id) {
            return Err(
                Error::new(
                    ErrorKind::InvalidState("Received a yield message for a call that wasn't sent"),
                ),
            );
        }
        match manager.active_calls.remove(invocation_id) {
            Some((call_id, caller, _callee)) => Ok(
                StepOutput::reply(
                    caller,
                    Message::Result(call_id, ResultDetails::new(), args, kwargs),
                ),
            ),
            None => {
                proof {
                    assert(false);
                }
                Err(Error::new(ErrorKind::InvalidState("unreachable")))
            },
        }
    }

    /// Answers an error a callee raises for an invocation: the in-flight
    /// invocation is closed and the failure goes to the caller as a call
    /// error.  Errors for any other request kind are refused.
    pub fn handle_error(
        &mut self,
        realm: &mut Realm,
        e_type: ErrorType,
        request_id: ID,
        details: Dict,
        reason: Reason,
        args: Option<List>,
        kwargs: Option<Dict>,
    ) -> (r: Result<StepOutput, Error>)
        ensures
            error_post(
                *old(realm),
                *final(realm),
                *old(self),
                *final(self),
                e_type,
                request_id,
                details,
                reason,
                args,
                kwargs,
                r,
            ),
    {
        if e_type != ErrorType::Invocation {
            return Err(
                Error::new(
                    ErrorKind::InvalidState("Got an error message that was not for a call message"),
                ),
            );
        }
        let manager = &mut realm.registration_manager;
        if !manager.active_calls.contains_key(request_id) {
            return Err(
                Error::new(
                    ErrorKind::InvalidState(
                        "Received an error message for a call that wasn't sent",
                    ),
                ),
            );
        }
        match manager.active_calls.remove(request_id) {
            Some((call_id, caller, _callee)) => Ok(
                StepOutput::reply(
                    caller,
                    Message::Error(ErrorType::Call, call_id, details, reason, args, kwargs),
                ),
            ),
            None => {
                proof {
                    assert(false);
                }
                Err(Error::new(ErrorKind::InvalidState("unreachable")))
            },
        }
    }
}

} // verus!
verus! {

impl Router {
    /// Makes a router with no realms.
    pub fn new() -> (r: Router)
        ensures
            r.realms@.len() == 0,
    {
        Router { realms: Vec::new() }
    }

    /// The index of the realm with the given name, if one exists.
    pub open spec fn spec_realm_index(names: Seq<(String, Realm)>, name: Seq<char>) -> Option<
        int,
    >
        decreases names.len(),
    {
        if names.len() == 0 {
            None
        } else if names[0].0@ == name {
            Some(0)
        } else {
            match Router::spec_realm_index(names.skip(1), name) {
                Some(i) => Some(i + 1),
                None => None,
            }
        }
    }

    fn find_realm(&self, name: &str) -> (r: Option<usize>)
        ensures
            match r {
                Some(k) => k < self.realms@.len() && Router::spec_realm_index(
                    self.realms@,
                    name@,
                ) == Some(k as int),
                None => Router::spec_realm_index(self.realms@, name@) is None,
            },
    {
        let mut i: usize = 0;
        while i < self.realms.len()
            invariant
                0 <= i <= self.realms@.len(),
                forall|j: int| 0 <= j < i ==> self.realms@[j].0@ != name@,
            decreases self.realms@.len() - i,
        {
            if crate::strutil::str_eq(self.realms[i].0.as_str(), name) {
                proof {
                    lemma_realm_index_of(self.realms@, name@, i as int);
                }
                return Some(i);
            }
            i = i + 1;
        }
        proof {
            lemma_realm_index_none(self.realms@, name@);
        }
        None
    }

    /// Adds an empty realm under the given name; a name already in use is
    /// left as it is.
    pub fn add_realm(&mut self, realm: &str)
        ensures
            Router::spec_realm_index(old(self).realms@, realm@) is Some ==> *final(self) == *old(
                self,
            ),
            Router::spec_realm_index(old(self).realms@, realm@) is None ==> {
                &&& final(self).realms@.len() == old(self).realms@.len() + 1
                &&& forall|j: int|
                    0 <= j < old(self).realms@.len() ==> final(self).realms@[j] == old(
                        self,
                    ).realms@[j]
                &&& final(self).realms@.last().0@ == realm@
            },
    {
        match self.find_realm(realm) {
            Some(_) => {},
            None => {
                self.realms.push((realm.to_owned(), Realm::new()));
            },
        }
    }

    /// The connections of every realm, in realm order.
    pub open spec fn all_connections(realms: Seq<(String, Realm)>) -> Seq<ID>
        decreases realms.len(),
    {
        if realms.len() == 0 {
            Seq::<ID>::empty()
        } else {
            realms[0].1.connections@ + Router::all_connections(realms.skip(1))
        }
    }

    /// Says goodbye to every connection of every realm, announcing a system
    /// shutdown: one goodbye per connection, in realm order, and the
    /// transport is to await the echoes before closing.
    pub fn shutdown(&self) -> (r: Vec<Outbound>)
        ensures
            r@.len() == Router::all_connections(self.realms@).len(),
            forall|i: int|
                0 <= i < r@.len() ==> (#[trigger] r@[i]).to == Router::all_connections(
                    self.realms@,
                )[i],
            forall|i: int|
                0 <= i < r@.len() ==> (#[trigger] r@[i]).message == Message::Goodbye(
                    ErrorDetails { message: None },
                    Reason::SystemShutdown,
                ),
    {
        let ghost all = Router::all_connections(self.realms@);
        let mut out: Vec<Outbound> = Vec::new();
        let mut i: usize = 0;
        proof {
            lemma_all_connections_take(self.realms@, 0);
        }
        while i < self.realms.len()
            invariant
                0 <= i <= self.realms@.len(),
                all == Router::all_connections(self.realms@),
                out@.len() == Router::all_connections(self.realms@.take(i as int)).len(),
                forall|k: int|
                    0 <= k < out@.len() ==> (#[trigger] out@[k]).to == Router::all_connections(
                        self.realms@.take(i as int),
                    )[k],
                forall|k: int|
                    0 <= k < out@.len() ==> (#[trigger] out@[k]).message == Message::Goodbye(
                        ErrorDetails { message: None },
                        Reason::SystemShutdown,
                    ),
            decreases self.realms@.len() - i,
        {
            proof {
                lemma_all_connections_take(self.realms@, i as int);
            }
            let ghost before = Router::all_connections(self.realms@.take(i as int));
            let conns = &self.realms[i].1.connections;
            let mut j: usize = 0;
            while j < conns.len()
                invariant
                    0 <= j <= conns@.len(),
                    conns@ == self.realms@[i as int].1.connections@,
                    out@.len() == before.len() + j,
                    forall|k: int|
                        0 <= k < before.len() ==> (#[trigger] out@[k]).to == before[k],
                    forall|k: int|
                        before.len() <= k < out@.len() ==> (#[trigger] out@[k]).to == conns@[k
                            - before.len()],
                    forall|k: int|
                        0 <= k < out@.len() ==> (#[trigger] out@[k]).message == Message::Goodbye(
                            ErrorDetails { message: None },
                            Reason::SystemShutdown,
                        ),
                decreases conns@.len() - j,
            {
                out.push(
                    Outbound {
                        to: conns[j],
                        message: Message::Goodbye(ErrorDetails::new(), Reason::SystemShutdown),
                    },
                );
                j = j + 1;
            }
            proof {
                assert(forall|k: int|
                    0 <= k < Router::all_connections(self.realms@.take(i + 1)).len()
                        ==> #[trigger] Router::all_connections(self.realms@.take(i + 1))[k] == (
                    before + conns@)[k]);
            }
            i = i + 1;
        }
        proof {
            assert(self.realms@.take(self.realms@.len() as int) =~= self.realms@);
        }
        out
    }
}

/// Appending one realm's connections extends the running concatenation.
proof fn lemma_all_connections_take(realms: Seq<(String, Realm)>, i: int)
    requires
        0 <= i <= realms.len(),
    ensures
        i < realms.len() ==> Router::all_connections(realms.take(i + 1))
            == Router::all_connections(realms.take(i)) + realms[i].1.connections@,
        i == 0 ==> Router::all_connections(realms.take(0)) == Seq::<ID>::empty(),
    decreases i,
{
    if i == 0 {
        assert(Router::all_connections(realms.take(0)) =~= Seq::<ID>::empty());
        if 0 < realms.len() {
            assert(realms.take(1)[0] == realms[0]);
            assert(realms.take(1).skip(1) =~= realms.take(0));
            assert(Router::all_connections(realms.take(1)) =~= Router::all_connections(
                realms.take(0),
            ) + realms[0].1.connections@);
        }
    } else {
        if i < realms.len() {
            lemma_all_connections_take(realms.skip(1), i - 1);
            assert(realms.take(i + 1)[0] == realms[0]);
            assert(realms.take(i + 1).skip(1) =~= realms.skip(1).take(i));
            assert(realms.take(i)[0] == realms[0]);
            assert(realms.take(i).skip(1) =~= realms.skip(1).take(i - 1));
            assert(realms.skip(1)[i - 1] == realms[i]);
            assert(Router::all_connections(realms.take(i + 1)) =~= Router::all_connections(
                realms.take(i),
            ) + realms[i].1.connections@);
        }
    }
}

proof fn lemma_realm_index_of(s: Seq<(String, Realm)>, name: Seq<char>, k: int)
    requires
        0 <= k < s.len(),
        s[k].0@ == name,
        forall|j: int| 0 <= j < k ==> s[j].0@ != name,
    ensures
        Router::spec_realm_index(s, name) == Some(k),
    decreases k,
{
    if k == 0 {
    } else {
        assert(forall|j: int| 0 <= j < s.skip(1).len() ==> s.skip(1)[j] == s[j + 1]);
        lemma_realm_index_of(s.skip(1), name, k - 1);
    }
}

proof fn lemma_realm_index_none(s: Seq<(String, Realm)>, name: Seq<char>)
    requires
        forall|j: int| 0 <= j < s.len() ==> s[j].0@ != name,
    ensures
        Router::spec_realm_index(s, name) is None,
    decreases s.len(),
{
    if s.len() == 0 {
    } else {
        assert(forall|j: int| 0 <= j < s.skip(1).len() ==> s.skip(1)[j] == s[j + 1]);
        lemma_realm_index_none(s.skip(1), name);
    }
}

impl ConnectionHandler {
    /// Answers the greeting: the connection joins the named realm and the
    /// welcome carries its session identifier and the router's roles.  A
    /// realm the router does not know refuses the handshake.
    pub fn handle_hello(&mut self, router: &mut Router, realm: URI, _details: HelloDetails) -> (r:
        Result<StepOutput, Error>)
        ensures
            hello_post(
                *old(router),
                *final(router),
                *old(self),
                *final(self),
                realm,
                r,
            ),
    {
        let k = match router.find_realm(realm.uri.as_str()) {
            Some(k) => k,
            None => {
                return Err(Error::new(ErrorKind::HandshakeError(Reason::NoSuchRealm)));
            },
        };
        self.state = ConnectionState::Connected;
        let ghost pre_realms = router.realms@;
        let mut entry = router.realms.remove(k);
        entry.1.connections.push(self.id);
        router.realms.insert(k, entry);
        proof {
            assert(forall|j: int|
                0 <= j < pre_realms.len() ==> (#[trigger] router.realms@[j]).0 == pre_realms[j].0);
            assert(forall|j: int|
                0 <= j < pre_realms.len() && j != k ==> #[trigger] router.realms@[j]
                    == pre_realms[j]);
            assert(router.realms@[k as int].1.connections@ == pre_realms[k as int].1.connections@
                .push(self.id));
        }
        self.realm = Some(k);
        Ok(
            StepOutput::reply(
                self.id,
                Message::Welcome(self.id, WelcomeDetails::new(RouterRoles::new())),
            ),
        )
    }

    /// Cleans a parting connection out of a realm: every pattern it
    /// subscribed or registered, as recorded under its identifiers, loses
    /// its entries in the tries; it leaves the realm's connection list; and
    /// every in-flight invocation it was party to is dropped, those whose
    /// callee it was failing back to their callers with one network-failure
    /// error each.
    pub fn remove(&mut self, realm: &mut Realm) -> (r: Vec<Outbound>)
        ensures
            final(self).id == old(self).id,
            final(self).subscribed_topics@.len() == 0,
            final(self).registered_procedures@.len() == 0,
            final(realm).connections@ == drop_id_filter(
                old(realm).connections@,
                old(self).id,
            ),
            final(realm).subscription_manager.subscription_ids_to_uris@ == old(
                realm,
            ).subscription_manager.subscription_ids_to_uris@,
            final(realm).registration_manager.registration_ids_to_uris@ == old(
                realm,
            ).registration_manager.registration_ids_to_uris@,
            forall|x: int|
                0 <= x < old(self).subscribed_topics@.len() ==> (match spec_id_get(
                    old(realm).subscription_manager.subscription_ids_to_uris@,
                    #[trigger] old(self).subscribed_topics@[x],
                ) {
                    Some(entry) => crate::pubsub_patterns::clean_at(
                        final(realm).subscription_manager.subscriptions,
                        uri_segments(entry.0@),
                        old(self).id,
                        entry.1,
                    ),
                    None => true,
                }),
            forall|x: int|
                0 <= x < old(self).registered_procedures@.len() ==> (match spec_id_get(
                    old(realm).registration_manager.registration_ids_to_uris@,
                    #[trigger] old(self).registered_procedures@[x],
                ) {
                    Some(entry) => crate::rpc_patterns::clean_at(
                        final(realm).registration_manager.registrations,
                        uri_segments(entry.0@),
                        old(self).id,
                        entry.1,
                    ),
                    None => true,
                }),
            final(realm).registration_manager.active_calls@ == old(
                realm,
            ).registration_manager.active_calls@.filter(
                |e: (u64, (ID, ID, ID))| e.1.1 != old(self).id && e.1.2 != old(self).id,
            ),
            ({
                let dropped = old(realm).registration_manager.active_calls@.filter(
                    |e: (u64, (ID, ID, ID))| e.1.2 == old(self).id,
                );
                &&& r@.len() == dropped.len()
                &&& forall|x: int|
                    0 <= x < dropped.len() ==> {
                        &&& (#[trigger] r@[x]).to == dropped[x].1.1
                        &&& r@[x].message matches Message::Error(ty, rid, d, rsn, margs, mkwargs)
                            && ty == ErrorType::Call && rid == dropped[x].1.0 && d@.len() == 0
                            && rsn == Reason::NetworkFailure && margs is None && mkwargs is None
                    }
            }),
    {
        let my_id = self.id;
        let ghost g_subs = self.subscribed_topics@;
        let ghost g_sub_map = realm.subscription_manager.subscription_ids_to_uris@;
        let mut i: usize = 0;
        while i < self.subscribed_topics.len()
            invariant
                0 <= i <= g_subs.len(),
                self.id == my_id,
                my_id == old(self).id,
                self.subscribed_topics@ == g_subs,
                g_subs == old(self).subscribed_topics@,
                self.registered_procedures@ == old(self).registered_procedures@,
                realm.connections@ == old(realm).connections@,
                realm.registration_manager == old(realm).registration_manager,
                realm.subscription_manager.subscription_ids_to_uris@ == g_sub_map,
                g_sub_map == old(realm).subscription_manager.subscription_ids_to_uris@,
                forall|x: int|
                    0 <= x < i ==> (match spec_id_get(g_sub_map, #[trigger] g_subs[x]) {
                        Some(entry) => crate::pubsub_patterns::clean_at(
                            realm.subscription_manager.subscriptions,
                            uri_segments(entry.0@),
                            my_id,
                            entry.1,
                        ),
                        None => true,
                    }),
            decreases g_subs.len() - i,
        {
            let topic_id = self.subscribed_topics[i];
            let ghost pre_trie = realm.subscription_manager.subscriptions;
            match realm.subscription_manager.subscription_ids_to_uris.get(topic_id) {
                Some(pair) => {
                    let uri = pair.0.clone();
                    let is_prefix = pair.1;
                    match realm.subscription_manager.subscriptions.unsubscribe_with(
                        uri.as_str(),
                        &my_id,
                        is_prefix,
                    ) {
                        Ok(rid) => {
                            proof {
                                crate::pubsub_patterns::lemma_unsubscribe_clears_subscriber(
                                    pre_trie,
                                    realm.subscription_manager.subscriptions,
                                    uri_segments(uri@),
                                    my_id,
                                    is_prefix,
                                    rid,
                                );
                                assert forall|x: int|
                                    0 <= x < i implies (match spec_id_get(
                                    g_sub_map,
                                    #[trigger] g_subs[x],
                                ) {
                                    Some(entry) => crate::pubsub_patterns::clean_at(
                                        realm.subscription_manager.subscriptions,
                                        uri_segments(entry.0@),
                                        my_id,
                                        entry.1,
                                    ),
                                    None => true,
                                }) by {
                                    match spec_id_get(g_sub_map, g_subs[x]) {
                                        Some(entry) => {
                                            crate::pubsub_patterns::lemma_remove_preserves_clean(
                                                pre_trie,
                                                realm.subscription_manager.subscriptions,
                                                uri_segments(uri@),
                                                my_id,
                                                is_prefix,
                                                rid,
                                                uri_segments(entry.0@),
                                                entry.1,
                                            );
                                        },
                                        None => {},
                                    }
                                }
                            }
                        },
                        Err(_) => {},
                    }
                },
                None => {},
            }
            i = i + 1;
        }
        self.subscribed_topics = Vec::new();
        let ghost g_regs = self.registered_procedures@;
        let ghost g_reg_map = realm.registration_manager.registration_ids_to_uris@;
        let ghost g_sub_mgr = realm.subscription_manager;
        let mut i2: usize = 0;
        while i2 < self.registered_procedures.len()
            invariant
                0 <= i2 <= g_regs.len(),
                self.id == my_id,
                my_id == old(self).id,
                self.registered_procedures@ == g_regs,
                g_regs == old(self).registered_procedures@,
                self.subscribed_topics@.len() == 0,
                realm.connections@ == old(realm).connections@,
                realm.subscription_manager == g_sub_mgr,
                realm.registration_manager.registration_ids_to_uris@ == g_reg_map,
                g_reg_map == old(realm).registration_manager.registration_ids_to_uris@,
                realm.registration_manager.active_calls@ == old(
                    realm,
                ).registration_manager.active_calls@,
                forall|x: int|
                    0 <= x < i2 ==> (match spec_id_get(g_reg_map, #[trigger] g_regs[x]) {
                        Some(entry) => crate::rpc_patterns::clean_at(
                            realm.registration_manager.registrations,
                            uri_segments(entry.0@),
                            my_id,
                            entry.1,
                        ),
                        None => true,
                    }),
            decreases g_regs.len() - i2,
        {
            let procedure_id = self.registered_procedures[i2];
            let ghost pre_trie = realm.registration_manager.registrations;
            match realm.registration_manager.registration_ids_to_uris.get(procedure_id) {
                Some(pair) => {
                    let uri = pair.0.clone();
                    let is_prefix = pair.1;
                    match realm.registration_manager.registrations.unregister_with(
                        uri.as_str(),
                        &my_id,
                        is_prefix,
                    ) {
                        Ok(rid) => {
                            proof {
                                crate::rpc_patterns::lemma_unregister_clears_registrant(
                                    pre_trie,
                                    realm.registration_manager.registrations,
                                    uri_segments(uri@),
                                    my_id,
                                    is_prefix,
                                    rid,
                                );
                                assert forall|x: int|
                                    0 <= x < i2 implies (match spec_id_get(
                                    g_reg_map,
                                    #[trigger] g_regs[x],
                                ) {
                                    Some(entry) => crate::rpc_patterns::clean_at(
                                        realm.registration_manager.registrations,
                                        uri_segments(entry.0@),
                                        my_id,
                                        entry.1,
                                    ),
                                    None => true,
                                }) by {
                                    match spec_id_get(g_reg_map, g_regs[x]) {
                                        Some(entry) => {
                                            crate::rpc_patterns::lemma_remove_preserves_clean(
                                                pre_trie,
                                                realm.registration_manager.registrations,
                                                uri_segments(uri@),
                                                my_id,
                                                is_prefix,
                                                rid,
                                                uri_segments(entry.0@),
                                                entry.1,
                                            );
                                        },
                                        None => {},
                                    }
                                }
                            }
                        },
                        Err(_) => {},
                    }
                },
                None => {},
            }
            i2 = i2 + 1;
        }
        self.registered_procedures = Vec::new();
        retain_except(&mut realm.connections, my_id);
        let mut kept: Vec<(u64, (ID, ID, ID))> = Vec::new();
        let mut failures: Vec<Outbound> = Vec::new();
        let mut j: usize = 0;
        let calls = &mut realm.registration_manager.active_calls.entries;
        let ghost g_calls = calls@;
        proof {
            crate::lemma_filter_empty(|e: (u64, (ID, ID, ID))| e.1.1 != my_id && e.1.2 != my_id);
            crate::lemma_filter_empty(|e: (u64, (ID, ID, ID))| e.1.2 == my_id);
            assert(g_calls.take(0) =~= Seq::empty());
        }
        while j < calls.len()
            invariant
                0 <= j <= g_calls.len(),
                calls@ == g_calls,
                my_id == old(self).id,
                kept@ == g_calls.take(j as int).filter(
                    |e: (u64, (ID, ID, ID))| e.1.1 != my_id && e.1.2 != my_id,
                ),
                ({
                    let dropped = g_calls.take(j as int).filter(
                        |e: (u64, (ID, ID, ID))| e.1.2 == my_id,
                    );
                    &&& failures@.len() == dropped.len()
                    &&& forall|x: int|
                        0 <= x < dropped.len() ==> {
                            &&& (#[trigger] failures@[x]).to == dropped[x].1.1
                            &&& failures@[x].message matches Message::Error(
                                ty,
                                rid,
                                d,
                                rsn,
                                margs,
                                mkwargs,
                            ) && ty == ErrorType::Call && rid == dropped[x].1.0 && d@.len() == 0
                                && rsn == Reason::NetworkFailure && margs is None && mkwargs
                                is None
                        }
                }),
            decreases g_calls.len() - j,
        {
            proof {
                assert(g_calls.take(j + 1) =~= g_calls.take(j as int).push(g_calls[j as int]));
                crate::lemma_filter_push(
                    g_calls.take(j as int),
                    g_calls[j as int],
                    |e: (u64, (ID, ID, ID))| e.1.1 != my_id && e.1.2 != my_id,
                );
                crate::lemma_filter_push(
                    g_calls.take(j as int),
                    g_calls[j as int],
                    |e: (u64, (ID, ID, ID))| e.1.2 == my_id,
                );
            }
            let entry = calls[j];
            let caller = entry.1.1;
            let callee = entry.1.2;
            if callee == my_id {
                failures.push(
                    Outbound {
                        to: caller,
                        message: Message::Error(
                            ErrorType::Call,
                            entry.1.0,
                            Dict::new(),
                            Reason::NetworkFailure,
                            None,
                            None,
                        ),
                    },
                );
            } else if caller != my_id {
                kept.push(entry);
            }
            j = j + 1;
        }
        proof {
            assert(g_calls.take(g_calls.len() as int) =~= g_calls);
            assert((|e: (u64, (ID, ID, ID))| e.1.1 != my_id && e.1.2 != my_id) =~= (
            |e: (u64, (ID, ID, ID))| e.1.1 != old(self).id && e.1.2 != old(self).id));
            assert((|e: (u64, (ID, ID, ID))| e.1.2 == my_id) =~= (
            |e: (u64, (ID, ID, ID))| e.1.2 == old(self).id));
        }
        realm.registration_manager.active_calls.entries = kept;
        failures
    }

    /// Answers a goodbye: a connected peer is cleaned out of the realm —
    /// as [`ConnectionHandler::remove`] does, failing its in-flight calls
    /// back to their callers — and echoed a goodbye; a peer the router
    /// already said goodbye to is simply closed, and a goodbye before the
    /// handshake is refused.
    pub fn handle_goodbye(&mut self, realm: &mut Realm, _details: ErrorDetails, _reason: Reason)
        -> (r: Result<StepOutput, Error>)
        ensures
            goodbye_post(
                *old(realm),
                *final(realm),
                *old(self),
                *final(self),
                r,
            ),
    {
        match self.state {
            ConnectionState::Initializing => Err(
                Error::new(
                    ErrorKind::InvalidState("Received a goodbye message before handshake complete"),
                ),
            ),
            ConnectionState::Connected => {
                let mut replies = self.remove(realm);
                replies.push(
                    Outbound {
                        to: self.id,
                        message: Message::Goodbye(ErrorDetails::new(), Reason::GoodbyeAndOut),
                    },
                );
                self.state = ConnectionState::Disconnected;
                Ok(StepOutput { replies, event: None, close: true })
            },
            ConnectionState::ShuttingDown => {
                self.state = ConnectionState::Disconnected;
                Ok(StepOutput { replies: Vec::new(), event: None, close: true })
            },
            ConnectionState::Disconnected => Ok(StepOutput::none()),
        }
    }
}

} // verus!
verus! {

impl ConnectionHandler {
    /// One step of the router's state machine: takes one incoming message
    /// and dispatches it to the handler of its kind, whose relation the
    /// step then answers for the attached realm.  The greeting may arrive
    /// before a realm is attached; every other message demands an attached
    /// realm.  Messages the router never handles are refused.  The step
    /// never changes the connection's identifier, nor which realms the
    /// router has, nor any realm but the attached one.
    pub fn handle_message(&mut self, router: &mut Router, message: Message) -> (r: Result<
        StepOutput,
        Error,
    >)
        ensures
            final(self).id == old(self).id,
            final(router).realms@.len() == old(router).realms@.len(),
            forall|j: int|
                0 <= j < old(router).realms@.len() ==> (#[trigger] final(router).realms@[j]).0
                    == old(router).realms@[j].0,
            !(message is Hello) && old(self).realm is None ==> r is Err
                && *final(router) == *old(router) && *final(self) == *old(self),
            !(message is Hello) ==> (match old(self).realm {
                Some(k) => forall|j: int|
                    0 <= j < old(router).realms@.len() && j != k
                        ==> #[trigger] final(router).realms@[j] == old(router).realms@[j],
                None => true,
            }),
            !(message is Hello) && (match old(self).realm {
                Some(k) => k >= old(router).realms@.len(),
                None => false,
            }) ==> (r matches Err(e) && e.kind matches ErrorKind::InvalidState(_)
                && *final(router) == *old(router) && *final(self) == *old(self)),
            message matches Message::Hello(realm, _details) ==> hello_post(
                *old(router),
                *final(router),
                *old(self),
                *final(self),
                realm,
                r,
            ),
            message matches Message::Subscribe(request_id, options, topic) ==> (match old(
                self,
            ).realm {
                Some(k) => k < old(router).realms@.len() ==> subscribe_post(
                    old(router).realms@[k as int].1,
                    final(router).realms@[k as int].1,
                    *old(self),
                    *final(self),
                    request_id,
                    options,
                    topic,
                    r,
                ),
                None => true,
            }),
            message matches Message::Unsubscribe(request_id, topic_id) ==> (match old(
                self,
            ).realm {
                Some(k) => k < old(router).realms@.len() ==> unsubscribe_post(
                    old(router).realms@[k as int].1,
                    final(router).realms@[k as int].1,
                    *old(self),
                    *final(self),
                    request_id,
                    topic_id,
                    r,
                ),
                None => true,
            }),
            message matches Message::Publish(request_id, options, topic, args, kwargs) ==> (match
            old(self).realm {
                Some(k) => k < old(router).realms@.len() ==> publish_post(
                    old(router).realms@[k as int].1,
                    final(router).realms@[k as int].1,
                    *old(self),
                    *final(self),
                    request_id,
                    options,
                    topic,
                    args,
                    kwargs,
                    r,
                ),
                None => true,
            }),
            message matches Message::Register(request_id, options, procedure) ==> (match old(
                self,
            ).realm {
                Some(k) => k < old(router).realms@.len() ==> register_post(
                    old(router).realms@[k as int].1,
                    final(router).realms@[k as int].1,
                    *old(self),
                    *final(self),
                    request_id,
                    options,
                    procedure,
                    r,
                ),
                None => true,
            }),
            message matches Message::Unregister(request_id, procedure_id) ==> (match old(
                self,
            ).realm {
                Some(k) => k < old(router).realms@.len() ==> unregister_post(
                    old(router).realms@[k as int].1,
                    final(router).realms@[k as int].1,
                    *old(self),
                    *final(self),
                    request_id,
                    procedure_id,
                    r,
                ),
                None => true,
            }),
            message matches Message::Call(request_id, _options, procedure, args, kwargs) ==> (
            match old(self).realm {
                Some(k) => k < old(router).realms@.len() ==> call_post(
                    old(router).realms@[k as int].1,
                    final(router).realms@[k as int].1,
                    *old(self),
                    *final(self),
                    request_id,
                    procedure,
                    args,
                    kwargs,
                    r,
                ),
                None => true,
            }),
            message matches Message::Yield(invocation_id, _options, args, kwargs) ==> (match old(
                self,
            ).realm {
                Some(k) => k < old(router).realms@.len() ==> yield_post(
                    old(router).realms@[k as int].1,
                    final(router).realms@[k as int].1,
                    *old(self),
                    *final(self),
                    invocation_id,
                    args,
                    kwargs,
                    r,
                ),
                None => true,
            }),
            message matches Message::Error(e_type, request_id, details, reason, args, kwargs)
                ==> (match old(self).realm {
                Some(k) => k < old(router).realms@.len() ==> error_post(
                    old(router).realms@[k as int].1,
                    final(router).realms@[k as int].1,
                    *old(self),
                    *final(self),
                    e_type,
                    request_id,
                    details,
                    reason,
                    args,
                    kwargs,
                    r,
                ),
                None => true,
            }),
            message matches Message::Goodbye(_details, _reason) ==> (match old(self).realm {
                Some(k) => k < old(router).realms@.len() ==> goodbye_post(
                    old(router).realms@[k as int].1,
                    final(router).realms@[k as int].1,
                    *old(self),
                    *final(self),
                    r,
                ),
                None => true,
            }),
            (message is Welcome || message is Subscribed || message is Unsubscribed || message
                is Published || message is Registered || message is Unregistered || message
                is Event || message is Invocation || message is Result) ==> (match old(
                self,
            ).realm {
                Some(k) => k < old(router).realms@.len() ==> (r matches Err(e) && e.kind
                    == ErrorKind::InvalidMessageType(message)),
                None => true,
            }),
    {
        let message = match message {
            Message::Hello(realm, details) => {
                return self.handle_hello(router, realm, details);
            },
            other => other,
        };
        let k = match self.realm {
            Some(k) => k,
            None => {
                if let Message::Goodbye(_, _) = message {
                    return Err(
                        Error::new(
                            ErrorKind::InvalidState(
                                "Received a goodbye message before handshake complete",
                            ),
                        ),
                    );
                }
                return Err(
                    Error::new(
                        ErrorKind::InvalidState("Received a message while not attached to a realm"),
                    ),
                );
            },
        };
        if k >= router.realms.len() {
            return Err(
                Error::new(
                    ErrorKind::InvalidState("Received a message while not attached to a realm"),
                ),
            );
        }
        let ghost pre_realms = router.realms@;
        let mut entry = router.realms.remove(k);
        let ghost g_entry_pre = entry;
        let r = match message {
            Message::Subscribe(request_id, options, topic) => self.handle_subscribe(
                &mut entry.1,
                request_id,
                options,
                topic,
            ),
            Message::Unsubscribe(request_id, topic_id) => self.handle_unsubscribe(
                &mut entry.1,
                request_id,
                topic_id,
            ),
            Message::Publish(request_id, options, topic, args, kwargs) => self.handle_publish(
                &mut entry.1,
                request_id,
                options,
                topic,
                args,
                kwargs,
            ),
            Message::Register(request_id, options, procedure) => self.handle_register(
                &mut entry.1,
                request_id,
                options,
                procedure,
            ),
            Message::Unregister(request_id, procedure_id) => self.handle_unregister(
                &mut entry.1,
                request_id,
                procedure_id,
            ),
            Message::Call(request_id, options, procedure, args, kwargs) => self.handle_call(
                &mut entry.1,
                request_id,
                options,
                procedure,
                args,
                kwargs,
            ),
            Message::Yield(invocation_id, options, args, kwargs) => self.handle_yield(
                &mut entry.1,
                invocation_id,
                options,
                args,
                kwargs,
            ),
            Message::Error(e_type, request_id, details, reason, args, kwargs) => self
                .handle_error(&mut entry.1, e_type, request_id, details, reason, args, kwargs),
            Message::Goodbye(details, reason) => self.handle_goodbye(&mut entry.1, details, reason),
            t => Err(Error::new(ErrorKind::InvalidMessageType(t))),
        };
        let ghost g_entry_post = entry;
        router.realms.insert(k, entry);
        proof {
            assert(g_entry_pre == pre_realms[k as int]);
            assert(router.realms@[k as int] == g_entry_post);
            assert(forall|j: int|
                0 <= j < pre_realms.len() ==> (#[trigger] router.realms@[j]).0 == pre_realms[j].0);
            assert(forall|j: int|
                0 <= j < pre_realms.len() && j != k ==> #[trigger] router.realms@[j]
                    == pre_realms[j]);
        }
        r
    }
}

} // verus!
verus! {

/// The payloads of a routed call travel unchanged.  When a call step
/// answers an invocation, that invocation carries the caller's payloads to
/// the chosen callee; and when the callee's yield step then answers that
/// invocation on the realm the call left behind, the result goes to the
/// caller's connection, under the caller's request identifier, carrying
/// exactly the payloads the callee yielded.  An endpoint answering the sum
/// of two integer arguments hence gives the caller that sum, and one
/// answering its inputs unchanged gives the caller its own payloads back;
/// the endpoint's own computation stands outside the library.
pub proof fn lemma_call_round_trip(
    realm0: Realm,
    realm1: Realm,
    realm2: Realm,
    caller0: ConnectionHandler,
    caller1: ConnectionHandler,
    callee0: ConnectionHandler,
    callee1: ConnectionHandler,
    request_id: ID,
    procedure: URI,
    args: Option<List>,
    kwargs: Option<Dict>,
    invocation_id: ID,
    r_call: Result<StepOutput, Error>,
    rargs: Option<List>,
    rkwargs: Option<Dict>,
    r_yield: Result<StepOutput, Error>,
)
    requires
        call_post(realm0, realm1, caller0, caller1, request_id, procedure, args, kwargs, r_call),
        spec_find(
            realm0.registration_manager.registrations,
            uri_segments(procedure.uri@),
            0,
        ) is Some,
        r_call matches Ok(out_call) && (out_call.replies@[0].message matches Message::Invocation(
            inv_id,
            _reg_id,
            _details,
            _margs,
            _mkwargs,
        ) && inv_id == invocation_id),
        yield_post(realm1, realm2, callee0, callee1, invocation_id, rargs, rkwargs, r_yield),
    ensures
        r_call matches Ok(out_call) && (out_call.replies@[0].message matches Message::Invocation(
            _inv_id,
            _reg_id,
            _details,
            margs,
            mkwargs,
        ) && margs == args && mkwargs == kwargs),
        r_yield matches Ok(out_yield) && {
            &&& out_yield.replies@.len() == 1
            &&& out_yield.replies@[0].to == caller0.id
            &&& out_yield.replies@[0].message == Message::Result(
                request_id,
                ResultDetails {  },
                rargs,
                rkwargs,
            )
        },
{
    let out_call = r_call.unwrap();
    match out_call.replies@[0].message {
        Message::Invocation(_inv_id, _reg_id, _details, _margs, _mkwargs) => {
            crate::idmap::lemma_id_get_insert(
                realm0.registration_manager.active_calls@,
                invocation_id,
                (request_id, caller0.id, out_call.replies@[0].to),
            );
        },
        _ => {},
    }
}

} // verus!
