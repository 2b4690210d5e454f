//! The client's side of a session, as a pure state machine.  An operation
//! draws the next request identifier, files the request in the table of its
//! kind, and answers the message to send; the receive step consumes one
//! message from the router and answers what the surrounding transport must
//! do: complete a filed request, run a subscription or registration
//! callback, send a reply, or close.  The callbacks themselves live with
//! the transport; this state machine tracks them by identifier.
use vstd::prelude::*;

use crate::errors::{CallError, ErrorType, Reason};
use crate::idmap::{spec_id_get, spec_id_insert, spec_id_remove, IdMap};
use crate::message::Message;
use crate::options::{
    CallOptions, ErrorDetails, HelloDetails, PublishOptions, RegisterOptions, SubscribeOptions,
    YieldOptions,
};
use crate::policies::MatchingPolicy;
use crate::roles::ClientRoles;
use crate::value::{Dict, List, URI};
use crate::ID;

verus! {

/// The lifecycle of a connection on the client's side.
#[derive(PartialEq, Eq, Structural, Debug, Clone, Copy)]
pub enum ClientState {
    /// Opened, the welcome not yet seen.
    Connecting,
    /// In a session.
    Connected,
    /// A goodbye went out and awaits its echo.
    ShuttingDown,
    /// Closed.
    Disconnected,
}

/// A WAMP endpoint to connect to: its URL and the realm to join there.
#[derive(Debug, PartialEq)]
pub struct Connection {
    /// The realm to join.
    pub realm: URI,
    /// Where the router listens.
    pub url: String,
}

impl Connection {
    /// Names an endpoint by URL and realm.
    pub fn new(url: &str, realm: &str) -> (c: Connection)
        ensures
            c.realm.uri@ == realm@,
            c.url@ == url@,
    {
        Connection { realm: URI::new(realm), url: url.to_owned() }
    }
}

/// An acknowledged subscription: the topic and the identifier the router
/// answered.
#[derive(Debug, PartialEq)]
pub struct Subscription {
    /// The topic pattern subscribed to.
    pub topic: URI,
    /// The identifier the router assigned.
    pub subscription_id: ID,
}

/// An acknowledged registration: the procedure and the identifier the
/// router answered.
#[derive(Debug, PartialEq)]
pub struct Registration {
    /// The procedure pattern registered.
    pub procedure: URI,
    /// The identifier the router assigned.
    pub registration_id: ID,
}

/// What the transport must do after the client consumes one message.
pub enum ClientAction {
    /// Complete the subscribe request with the acknowledged subscription.
    SubscribeComplete(ID, Subscription),
    /// Complete the unsubscribe request; the subscription named second is
    /// gone and its callback may be dropped.
    UnsubscribeComplete(ID, ID),
    /// Complete the register request with the acknowledged registration.
    RegisterComplete(ID, Registration),
    /// Complete the unregister request; the registration named second is
    /// gone and its callback may be dropped.
    UnregisterComplete(ID, ID),
    /// Complete the publish request with the publication identifier.
    PublishComplete(ID, ID),
    /// Complete the call request with the result payloads.
    CallComplete(ID, List, Dict),
    /// Complete the named request with a failure.
    RequestFailed(ErrorType, ID, CallError),
    /// Run the subscription's callback on the event payloads.
    EventReceived(ID, List, Dict),
    /// Run the registration's callback on the invocation payloads, and
    /// answer with a yield or an invocation error for the invocation named
    /// first.
    InvocationReceived(ID, ID, List, Dict),
    /// The session is up, under the given identifier.
    WelcomeReceived(ID),
    /// The router refused the session.
    AbortReceived(Reason),
    /// Send this message.
    SendMessage(Message),
    /// The router acknowledged the goodbye; the shutdown is complete.
    ShutdownComplete,
}

/// The client's bookkeeping: the request tables, the acknowledged
/// subscriptions and registrations, and the session state.
pub struct Client {
    /// Where the connection stands in its lifecycle.
    pub state: ClientState,
    /// The last request identifier handed out; the next is one more.
    pub max_session_id: ID,
    /// The session identifier the router assigned.
    pub session_id: ID,
    /// Pending subscribe requests, by request id, with their topics.
    pub subscription_requests: IdMap<URI>,
    /// Pending unsubscribe requests, by request id, with the subscription.
    pub unsubscription_requests: IdMap<ID>,
    /// Pending register requests, by request id, with their procedures.
    pub registration_requests: IdMap<URI>,
    /// Pending unregister requests, by request id, with the registration.
    pub unregistration_requests: IdMap<ID>,
    /// Pending acknowledged publishes, by request id.
    pub publish_requests: IdMap<bool>,
    /// Pending calls, by request id.
    pub call_requests: IdMap<bool>,
    /// Acknowledged subscriptions whose callbacks the transport holds.
    pub subscriptions: IdMap<bool>,
    /// Acknowledged registrations whose callbacks the transport holds.
    pub registrations: IdMap<bool>,
    /// Whether a shutdown awaits the router's goodbye.
    pub shutdown_pending: bool,
}

impl Client {
    /// A fresh client about to greet the router.
    pub fn new() -> (c: Client)
        ensures
            c.state == ClientState::Connecting,
            c.max_session_id == 0,
            c.subscription_requests@.len() == 0,
            c.unsubscription_requests@.len() == 0,
            c.registration_requests@.len() == 0,
            c.unregistration_requests@.len() == 0,
            c.publish_requests@.len() == 0,
            c.call_requests@.len() == 0,
            c.subscriptions@.len() == 0,
            c.registrations@.len() == 0,
            !c.shutdown_pending,
    {
        Client {
            state: ClientState::Connecting,
            max_session_id: 0,
            session_id: 0,
            subscription_requests: IdMap::new(),
            unsubscription_requests: IdMap::new(),
            registration_requests: IdMap::new(),
            unregistration_requests: IdMap::new(),
            publish_requests: IdMap::new(),
            call_requests: IdMap::new(),
            subscriptions: IdMap::new(),
            registrations: IdMap::new(),
            shutdown_pending: false,
        }
    }

    /// The greeting to open the session with.
    pub fn hello(realm: URI) -> (m: Message)
        ensures
            m matches Message::Hello(r, d) && r == realm && d.agent is None,
    {
        Message::Hello(realm, HelloDetails::new(ClientRoles::new()))
    }

    fn get_next_session_id(&mut self) -> (id: ID)
        requires
            old(self).max_session_id < u64::MAX,
        ensures
            id == old(self).max_session_id + 1,
            *final(self) == (Client { max_session_id: id, ..*old(self) }),
    {
        self.max_session_id = self.max_session_id + 1;
        self.max_session_id
    }

    /// Asks to observe a topic pattern under a matching policy: the request
    /// is filed with its topic and the subscribe message is answered.
    pub fn subscribe_with_pattern(&mut self, topic_pattern: URI, policy: MatchingPolicy) -> (m:
        Message)
        requires
            old(self).max_session_id < u64::MAX,
        ensures
            ({
                let request_id = (old(self).max_session_id + 1) as u64;
                &&& m == Message::Subscribe(
                    request_id,
                    SubscribeOptions { pattern_match: policy },
                    URI { uri: topic_pattern.uri },
                )
                &&& final(self).max_session_id == request_id
                &&& final(self).subscription_requests@ == spec_id_insert(
                    old(self).subscription_requests@,
                    request_id,
                    topic_pattern,
                )
                &&& final(self).state == old(self).state
                &&& final(self).session_id == old(self).session_id
                &&& final(self).shutdown_pending == old(self).shutdown_pending
                &&& final(self).unsubscription_requests@ == old(self).unsubscription_requests@
                &&& final(self).registration_requests@ == old(self).registration_requests@
                &&& final(self).unregistration_requests@ == old(self).unregistration_requests@
                &&& final(self).publish_requests@ == old(self).publish_requests@
                &&& final(self).call_requests@ == old(self).call_requests@
                &&& final(self).subscriptions@ == old(self).subscriptions@
                &&& final(self).registrations@ == old(self).registrations@
            }),
    {
        let request_id = self.get_next_session_id();
        let topic_copy = URI { uri: topic_pattern.uri.clone() };
        self.subscription_requests.insert(request_id, topic_pattern);
        Message::Subscribe(request_id, SubscribeOptions { pattern_match: policy }, topic_copy)
    }

    /// Asks to observe a topic with strict matching.
    pub fn subscribe(&mut self, topic: URI) -> (m: Message)
        requires
            old(self).max_session_id < u64::MAX,
        ensures
            ({
                let request_id = (old(self).max_session_id + 1) as u64;
                &&& m == Message::Subscribe(
                    request_id,
                    SubscribeOptions { pattern_match: MatchingPolicy::Strict },
                    URI { uri: topic.uri },
                )
                &&& final(self).max_session_id == request_id
                &&& final(self).subscription_requests@ == spec_id_insert(
                    old(self).subscription_requests@,
                    request_id,
                    topic,
                )
                &&& final(self).state == old(self).state
                &&& final(self).session_id == old(self).session_id
                &&& final(self).shutdown_pending == old(self).shutdown_pending
                &&& final(self).unsubscription_requests@ == old(self).unsubscription_requests@
                &&& final(self).registration_requests@ == old(self).registration_requests@
                &&& final(self).unregistration_requests@ == old(self).unregistration_requests@
                &&& final(self).publish_requests@ == old(self).publish_requests@
                &&& final(self).call_requests@ == old(self).call_requests@
                &&& final(self).subscriptions@ == old(self).subscriptions@
                &&& final(self).registrations@ == old(self).registrations@
            }),
    {
        self.subscribe_with_pattern(topic, MatchingPolicy::Strict)
    }

    /// Offers a procedure pattern under a matching policy: the request is
    /// filed with its procedure and the register message is answered.
    pub fn register_with_pattern(&mut self, procedure_pattern: URI, policy: MatchingPolicy) -> (m:
        Message)
        requires
            old(self).max_session_id < u64::MAX,
        ensures
            ({
                let request_id = (old(self).max_session_id + 1) as u64;
                &&& m == Message::Register(
                    request_id,
                    RegisterOptions {
                        pattern_match: policy,
                        invocation_policy: crate::policies::InvocationPolicy::Single,
                    },
                    URI { uri: procedure_pattern.uri },
                )
                &&& final(self).max_session_id == request_id
                &&& final(self).registration_requests@ == spec_id_insert(
                    old(self).registration_requests@,
                    request_id,
                    procedure_pattern,
                )
                &&& final(self).state == old(self).state
                &&& final(self).session_id == old(self).session_id
                &&& final(self).shutdown_pending == old(self).shutdown_pending
                &&& final(self).subscription_requests@ == old(self).subscription_requests@
                &&& final(self).unsubscription_requests@ == old(self).unsubscription_requests@
                &&& final(self).unregistration_requests@ == old(self).unregistration_requests@
                &&& final(self).publish_requests@ == old(self).publish_requests@
                &&& final(self).call_requests@ == old(self).call_requests@
                &&& final(self).subscriptions@ == old(self).subscriptions@
                &&& final(self).registrations@ == old(self).registrations@
            }),
    {
        let request_id = self.get_next_session_id();
        let procedure_copy = URI { uri: procedure_pattern.uri.clone() };
        self.registration_requests.insert(request_id, procedure_pattern);
        let mut options = RegisterOptions::new();
        options.pattern_match = policy;
        Message::Register(request_id, options, procedure_copy)
    }

    /// Offers a procedure with strict matching.
    pub fn register(&mut self, procedure: URI) -> (m: Message)
        requires
            old(self).max_session_id < u64::MAX,
        ensures
            ({
                let request_id = (old(self).max_session_id + 1) as u64;
                &&& m == Message::Register(
                    request_id,
                    RegisterOptions {
                        pattern_match: MatchingPolicy::Strict,
                        invocation_policy: crate::policies::InvocationPolicy::Single,
                    },
                    URI { uri: procedure.uri },
                )
                &&& final(self).max_session_id == request_id
                &&& final(self).registration_requests@ == spec_id_insert(
                    old(self).registration_requests@,
                    request_id,
                    procedure,
                )
                &&& final(self).state == old(self).state
                &&& final(self).session_id == old(self).session_id
                &&& final(self).shutdown_pending == old(self).shutdown_pending
                &&& final(self).subscription_requests@ == old(self).subscription_requests@
                &&& final(self).unsubscription_requests@ == old(self).unsubscription_requests@
                &&& final(self).unregistration_requests@ == old(self).unregistration_requests@
                &&& final(self).publish_requests@ == old(self).publish_requests@
                &&& final(self).call_requests@ == old(self).call_requests@
                &&& final(self).subscriptions@ == old(self).subscriptions@
                &&& final(self).registrations@ == old(self).registrations@
            }),
    {
        self.register_with_pattern(procedure, MatchingPolicy::Strict)
    }

    /// Drops a subscription: the request is filed with the subscription's
    /// identifier and the unsubscribe message is answered.
    pub fn unsubscribe(&mut self, subscription: Subscription) -> (m: Message)
        requires
            old(self).max_session_id < u64::MAX,
        ensures
            ({
                let request_id = (old(self).max_session_id + 1) as u64;
                &&& m == Message::Unsubscribe(request_id, subscription.subscription_id)
                &&& final(self).max_session_id == request_id
                &&& final(self).unsubscription_requests@ == spec_id_insert(
                    old(self).unsubscription_requests@,
                    request_id,
                    subscription.subscription_id,
                )
                &&& final(self).state == old(self).state
                &&& final(self).session_id == old(self).session_id
                &&& final(self).shutdown_pending == old(self).shutdown_pending
                &&& final(self).subscription_requests@ == old(self).subscription_requests@
                &&& final(self).registration_requests@ == old(self).registration_requests@
                &&& final(self).unregistration_requests@ == old(self).unregistration_requests@
                &&& final(self).publish_requests@ == old(self).publish_requests@
                &&& final(self).call_requests@ == old(self).call_requests@
                &&& final(self).subscriptions@ == old(self).subscriptions@
                &&& final(self).registrations@ == old(self).registrations@
            }),
    {
        let request_id = self.get_next_session_id();
        self.unsubscription_requests.insert(request_id, subscription.subscription_id);
        Message::Unsubscribe(request_id, subscription.subscription_id)
    }

    /// Withdraws a registration: the request is filed with the
    /// registration's identifier and the unregister message is answered.
    pub fn unregister(&mut self, registration: Registration) -> (m: Message)
        requires
            old(self).max_session_id < u64::MAX,
        ensures
            ({
                let request_id = (old(self).max_session_id + 1) as u64;
                &&& m == Message::Unregister(request_id, registration.registration_id)
                &&& final(self).max_session_id == request_id
                &&& final(self).unregistration_requests@ == spec_id_insert(
                    old(self).unregistration_requests@,
                    request_id,
                    registration.registration_id,
                )
                &&& final(self).state == old(self).state
                &&& final(self).session_id == old(self).session_id
                &&& final(self).shutdown_pending == old(self).shutdown_pending
                &&& final(self).subscription_requests@ == old(self).subscription_requests@
                &&& final(self).unsubscription_requests@ == old(self).unsubscription_requests@
                &&& final(self).registration_requests@ == old(self).registration_requests@
                &&& final(self).publish_requests@ == old(self).publish_requests@
                &&& final(self).call_requests@ == old(self).call_requests@
                &&& final(self).subscriptions@ == old(self).subscriptions@
                &&& final(self).registrations@ == old(self).registrations@
            }),
    {
        let request_id = self.get_next_session_id();
        self.unregistration_requests.insert(request_id, registration.registration_id);
        Message::Unregister(request_id, registration.registration_id)
    }

    /// Publishes without acknowledgement: nothing is filed.
    pub fn publish(&mut self, topic: URI, args: Option<List>, kwargs: Option<Dict>) -> (m: Message)
        requires
            old(self).max_session_id < u64::MAX,
        ensures
            ({
                let request_id = (old(self).max_session_id + 1) as u64;
                &&& m == Message::Publish(
                    request_id,
                    PublishOptions { acknowledge: false },
                    topic,
                    args,
                    kwargs,
                )
                &&& *final(self) == (Client { max_session_id: request_id, ..*old(self) })
            }),
    {
        let request_id = self.get_next_session_id();
        Message::Publish(request_id, PublishOptions::new(false), topic, args, kwargs)
    }

    /// Publishes with acknowledgement: the request is filed and completes
    /// with the publication identifier.
    pub fn publish_and_acknowledge(
        &mut self,
        topic: URI,
        args: Option<List>,
        kwargs: Option<Dict>,
    ) -> (m: Message)
        requires
            old(self).max_session_id < u64::MAX,
        ensures
            ({
                let request_id = (old(self).max_session_id + 1) as u64;
                &&& m == Message::Publish(
                    request_id,
                    PublishOptions { acknowledge: true },
                    topic,
                    args,
                    kwargs,
                )
                &&& final(self).max_session_id == request_id
                &&& final(self).publish_requests@ == spec_id_insert(
                    old(self).publish_requests@,
                    request_id,
                    true,
                )
                &&& final(self).state == old(self).state
                &&& final(self).session_id == old(self).session_id
                &&& final(self).shutdown_pending == old(self).shutdown_pending
                &&& final(self).subscription_requests@ == old(self).subscription_requests@
                &&& final(self).unsubscription_requests@ == old(self).unsubscription_requests@
                &&& final(self).registration_requests@ == old(self).registration_requests@
                &&& final(self).unregistration_requests@ == old(self).unregistration_requests@
                &&& final(self).call_requests@ == old(self).call_requests@
                &&& final(self).subscriptions@ == old(self).subscriptions@
                &&& final(self).registrations@ == old(self).registrations@
            }),
    {
        let request_id = self.get_next_session_id();
        self.publish_requests.insert(request_id, true);
        Message::Publish(request_id, PublishOptions::new(true), topic, args, kwargs)
    }

    /// Calls a procedure: the request is filed and completes with the
    /// call's result or failure.
    pub fn call(&mut self, procedure: URI, args: Option<List>, kwargs: Option<Dict>) -> (m:
        Message)
        requires
            old(self).max_session_id < u64::MAX,
        ensures
            ({
                let request_id = (old(self).max_session_id + 1) as u64;
                &&& m == Message::Call(request_id, CallOptions {  }, procedure, args, kwargs)
                &&& final(self).max_session_id == request_id
                &&& final(self).call_requests@ == spec_id_insert(
                    old(self).call_requests@,
                    request_id,
                    true,
                )
                &&& final(self).state == old(self).state
                &&& final(self).session_id == old(self).session_id
                &&& final(self).shutdown_pending == old(self).shutdown_pending
                &&& final(self).subscription_requests@ == old(self).subscription_requests@
                &&& final(self).unsubscription_requests@ == old(self).unsubscription_requests@
                &&& final(self).registration_requests@ == old(self).registration_requests@
                &&& final(self).unregistration_requests@ == old(self).unregistration_requests@
                &&& final(self).publish_requests@ == old(self).publish_requests@
                &&& final(self).subscriptions@ == old(self).subscriptions@
                &&& final(self).registrations@ == old(self).registrations@
            }),
    {
        let request_id = self.get_next_session_id();
        self.call_requests.insert(request_id, true);
        Message::Call(request_id, CallOptions::new(), procedure, args, kwargs)
    }

    /// Starts a graceful shutdown: a connected client sends a goodbye and
    /// awaits the echo; any other state answers nothing and the transport
    /// fails the shutdown at once.
    pub fn shutdown(&mut self) -> (m: Option<Message>)
        ensures
            old(self).state == ClientState::Connected ==> (m == Some(
                Message::Goodbye(ErrorDetails { message: None }, Reason::SystemShutdown),
            ) && final(self).state == ClientState::ShuttingDown && final(self).shutdown_pending),
            old(self).state != ClientState::Connected ==> (m is None && *final(self) == *old(
                self,
            )),
    {
        if self.state == ClientState::Connected {
            self.state = ClientState::ShuttingDown;
            self.shutdown_pending = true;
            Some(Message::Goodbye(ErrorDetails::new(), Reason::SystemShutdown))
        } else {
            None
        }
    }

    /// Answers an invocation with its result.
    pub fn yield_result(invocation_id: ID, args: Option<List>, kwargs: Option<Dict>) -> (m:
        Message)
        ensures
            m == Message::Yield(invocation_id, YieldOptions {  }, args, kwargs),
    {
        Message::Yield(invocation_id, YieldOptions::new(), args, kwargs)
    }

    /// Answers an invocation with a failure.
    pub fn yield_error(invocation_id: ID, error: CallError) -> (m: Message)
        ensures
            m matches Message::Error(ty, rid, _, reason, args, kwargs) && ty
                == ErrorType::Invocation && rid == invocation_id && reason == error.reason && args
                == error.args && kwargs == error.kwargs,
    {
        let (reason, args, kwargs) = error.into_tuple();
        Message::Error(ErrorType::Invocation, invocation_id, Dict::new(), reason, args, kwargs)
    }
}

} // verus!
verus! {

impl Client {
    /// Consumes one message from the router and answers what the transport
    /// must do, together with whether the connection stays open.  Before
    /// the welcome, only a welcome or an abort means anything; in a
    /// session, acknowledgements complete their filed requests, events and
    /// invocations go to their callbacks, errors fail the requests they
    /// name, and a goodbye is echoed; after the client's own goodbye, only
    /// the router's echo is awaited.
    pub fn handle_message(&mut self, message: Message) -> (r: (Vec<ClientAction>, bool))
        ensures
            final(self).max_session_id == old(self).max_session_id,
            old(self).state == ClientState::Connected ==> match message {
                Message::Subscribed(request_id, subscription_id) => match spec_id_get(
                    old(self).subscription_requests@,
                    request_id,
                ) {
                    Some(topic) => {
                        &&& final(self).subscription_requests@ == spec_id_remove(
                            old(self).subscription_requests@,
                            request_id,
                        )
                        &&& final(self).subscriptions@ == spec_id_insert(
                            old(self).subscriptions@,
                            subscription_id,
                            true,
                        )
                        &&& r.0@.len() == 1
                        &&& r.0@[0] == ClientAction::SubscribeComplete(
                            request_id,
                            Subscription { topic, subscription_id },
                        )
                        &&& r.1
                    },
                    None => r.0@.len() == 0 && r.1,
                },
                Message::Registered(request_id, registration_id) => match spec_id_get(
                    old(self).registration_requests@,
                    request_id,
                ) {
                    Some(procedure) => {
                        &&& final(self).registration_requests@ == spec_id_remove(
                            old(self).registration_requests@,
                            request_id,
                        )
                        &&& final(self).registrations@ == spec_id_insert(
                            old(self).registrations@,
                            registration_id,
                            true,
                        )
                        &&& r.0@.len() == 1
                        &&& r.0@[0] == ClientAction::RegisterComplete(
                            request_id,
                            Registration { procedure, registration_id },
                        )
                        &&& r.1
                    },
                    None => r.0@.len() == 0 && r.1,
                },
                Message::Unsubscribed(request_id) => match spec_id_get(
                    old(self).unsubscription_requests@,
                    request_id,
                ) {
                    Some(subscription_id) => {
                        &&& final(self).unsubscription_requests@ == spec_id_remove(
                            old(self).unsubscription_requests@,
                            request_id,
                        )
                        &&& final(self).subscriptions@ == spec_id_remove(
                            old(self).subscriptions@,
                            subscription_id,
                        )
                        &&& r.0@.len() == 1
                        &&& r.0@[0] == ClientAction::UnsubscribeComplete(
                            request_id,
                            subscription_id,
                        )
                        &&& r.1
                    },
                    None => r.0@.len() == 0 && r.1,
                },
                Message::Unregistered(request_id) => match spec_id_get(
                    old(self).unregistration_requests@,
                    request_id,
                ) {
                    Some(registration_id) => {
                        &&& final(self).unregistration_requests@ == spec_id_remove(
                            old(self).unregistration_requests@,
                            request_id,
                        )
                        &&& final(self).registrations@ == spec_id_remove(
                            old(self).registrations@,
                            registration_id,
                        )
                        &&& r.0@.len() == 1
                        &&& r.0@[0] == ClientAction::UnregisterComplete(
                            request_id,
                            registration_id,
                        )
                        &&& r.1
                    },
                    None => r.0@.len() == 0 && r.1,
                },
                Message::Published(request_id, publication_id) => match spec_id_get(
                    old(self).publish_requests@,
                    request_id,
                ) {
                    Some(_) => {
                        &&& final(self).publish_requests@ == spec_id_remove(
                            old(self).publish_requests@,
                            request_id,
                        )
                        &&& r.0@.len() == 1
                        &&& r.0@[0] == ClientAction::PublishComplete(request_id, publication_id)
                        &&& r.1
                    },
                    None => r.0@.len() == 0 && r.1,
                },
                Message::Result(call_id, _details, args, kwargs) => match spec_id_get(
                    old(self).call_requests@,
                    call_id,
                ) {
                    Some(_) => {
                        &&& final(self).call_requests@ == spec_id_remove(
                            old(self).call_requests@,
                            call_id,
                        )
                        &&& r.0@.len() == 1
                        &&& r.0@[0] matches ClientAction::CallComplete(cid, rargs, rkwargs) && cid
                            == call_id && (args matches Some(a) ==> rargs == a) && (args is None
                            ==> rargs@.len() == 0) && (kwargs matches Some(k) ==> rkwargs == k) && (
                        kwargs is None ==> rkwargs@.len() == 0)
                        &&& r.1
                    },
                    None => r.0@.len() == 0 && r.1,
                },
                Message::Goodbye(_, _) => {
                    &&& final(self).state == ClientState::ShuttingDown
                    &&& r.0@.len() == 1
                    &&& r.0@[0] == ClientAction::SendMessage(
                        Message::Goodbye(
                            ErrorDetails { message: None },
                            Reason::GoodbyeAndOut,
                        ),
                    )
                    &&& !r.1
                },
                Message::Event(subscription_id, _publication_id, _details, args, kwargs) => {
                    &&& *final(self) == *old(self)
                    &&& r.1
                    &&& (spec_id_get(old(self).subscriptions@, subscription_id) is Some ==> (r.0@
                        .len() == 1 && (r.0@[0] matches ClientAction::EventReceived(
                        sid,
                        rargs,
                        rkwargs,
                    ) && sid == subscription_id && (args matches Some(a) ==> rargs == a) && (args
                        is None ==> rargs@.len() == 0) && (kwargs matches Some(kw) ==> rkwargs
                        == kw) && (kwargs is None ==> rkwargs@.len() == 0))))
                    &&& (spec_id_get(old(self).subscriptions@, subscription_id) is None ==> r.0@
                        .len() == 0)
                },
                Message::Invocation(request_id, registration_id, _details, args, kwargs) => {
                    &&& *final(self) == *old(self)
                    &&& r.1
                    &&& (spec_id_get(old(self).registrations@, registration_id) is Some ==> (r.0@
                        .len() == 1 && (r.0@[0] matches ClientAction::InvocationReceived(
                        rid,
                        regid,
                        rargs,
                        rkwargs,
                    ) && rid == request_id && regid == registration_id && (args matches Some(a)
                        ==> rargs == a) && (args is None ==> rargs@.len() == 0) && (kwargs matches
                    Some(kw) ==> rkwargs == kw) && (kwargs is None ==> rkwargs@.len() == 0))))
                    &&& (spec_id_get(old(self).registrations@, registration_id) is None ==> r.0@
                        .len() == 0)
                },
                Message::Error(e_type, request_id, _details, reason, args, kwargs) => {
                    &&& r.1
                    &&& match e_type {
                        ErrorType::Subscribe => {
                            &&& final(self).subscription_requests@ == spec_id_remove(
                                old(self).subscription_requests@,
                                request_id,
                            )
                            &&& (spec_id_get(old(self).subscription_requests@, request_id)
                                is Some ==> r.0@.len() == 1 && r.0@[0]
                                == ClientAction::RequestFailed(
                                e_type,
                                request_id,
                                CallError { reason, args, kwargs },
                            ))
                            &&& (spec_id_get(old(self).subscription_requests@, request_id)
                                is None ==> r.0@.len() == 0)
                        },
                        ErrorType::Unsubscribe => {
                            &&& final(self).unsubscription_requests@ == spec_id_remove(
                                old(self).unsubscription_requests@,
                                request_id,
                            )
                            &&& (spec_id_get(old(self).unsubscription_requests@, request_id)
                                is Some ==> r.0@.len() == 1 && r.0@[0]
                                == ClientAction::RequestFailed(
                                e_type,
                                request_id,
                                CallError { reason, args, kwargs },
                            ))
                            &&& (spec_id_get(old(self).unsubscription_requests@, request_id)
                                is None ==> r.0@.len() == 0)
                        },
                        ErrorType::Register => {
                            &&& final(self).registration_requests@ == spec_id_remove(
                                old(self).registration_requests@,
                                request_id,
                            )
                            &&& (spec_id_get(old(self).registration_requests@, request_id)
                                is Some ==> r.0@.len() == 1 && r.0@[0]
                                == ClientAction::RequestFailed(
                                e_type,
                                request_id,
                                CallError { reason, args, kwargs },
                            ))
                            &&& (spec_id_get(old(self).registration_requests@, request_id)
                                is None ==> r.0@.len() == 0)
                        },
                        ErrorType::Unregister => {
                            &&& final(self).unregistration_requests@ == spec_id_remove(
                                old(self).unregistration_requests@,
                                request_id,
                            )
                            &&& (spec_id_get(old(self).unregistration_requests@, request_id)
                                is Some ==> r.0@.len() == 1 && r.0@[0]
                                == ClientAction::RequestFailed(
                                e_type,
                                request_id,
                                CallError { reason, args, kwargs },
                            ))
                            &&& (spec_id_get(old(self).unregistration_requests@, request_id)
                                is None ==> r.0@.len() == 0)
                        },
                        ErrorType::Publish => {
                            &&& final(self).publish_requests@ == spec_id_remove(
                                old(self).publish_requests@,
                                request_id,
                            )
                            &&& (spec_id_get(old(self).publish_requests@, request_id) is Some
                                ==> r.0@.len() == 1 && r.0@[0] == ClientAction::RequestFailed(
                                e_type,
                                request_id,
                                CallError { reason, args, kwargs },
                            ))
                            &&& (spec_id_get(old(self).publish_requests@, request_id) is None
                                ==> r.0@.len() == 0)
                        },
                        ErrorType::Call => {
                            &&& final(self).call_requests@ == spec_id_remove(
                                old(self).call_requests@,
                                request_id,
                            )
                            &&& (spec_id_get(old(self).call_requests@, request_id) is Some ==> r
                                .0@.len() == 1 && r.0@[0] == ClientAction::RequestFailed(
                                e_type,
                                request_id,
                                CallError { reason, args, kwargs },
                            ))
                            &&& (spec_id_get(old(self).call_requests@, request_id) is None ==> r
                                .0@.len() == 0)
                        },
                        ErrorType::Invocation => r.0@.len() == 0 && *final(self) == *old(self),
                    }
                },
                _ => *final(self) == *old(self) && r.0@.len() == 0 && r.1,
            },
            old(self).state == ClientState::Connecting ==> match message {
                Message::Welcome(session_id, _) => {
                    &&& final(self).state == ClientState::Connected
                    &&& final(self).session_id == session_id
                    &&& r.0@.len() == 1
                    &&& r.0@[0] == ClientAction::WelcomeReceived(session_id)
                    &&& r.1
                },
                Message::Abort(_, reason) => {
                    &&& final(self).state == ClientState::ShuttingDown
                    &&& r.0@.len() == 1
                    &&& r.0@[0] == ClientAction::AbortReceived(reason)
                    &&& !r.1
                },
                _ => *final(self) == *old(self) && r.0@.len() == 0 && !r.1,
            },
            old(self).state == ClientState::ShuttingDown ==> match message {
                Message::Goodbye(_, _) => {
                    &&& r.0@.len() == 1
                    &&& r.0@[0] == ClientAction::ShutdownComplete
                    &&& !r.1
                    &&& final(self).state == ClientState::Disconnected
                },
                _ => *final(self) == *old(self) && r.0@.len() == 0 && !r.1,
            },
            old(self).state == ClientState::Disconnected ==> (*final(self) == *old(self) && r.0@
                .len() == 0 && !r.1),
    {
        let mut actions: Vec<ClientAction> = Vec::new();
        match self.state {
            ClientState::Connecting => match message {
                Message::Welcome(session_id, _details) => {
                    self.session_id = session_id;
                    self.state = ClientState::Connected;
                    actions.push(ClientAction::WelcomeReceived(session_id));
                    (actions, true)
                },
                Message::Abort(_details, reason) => {
                    self.state = ClientState::ShuttingDown;
                    actions.push(ClientAction::AbortReceived(reason));
                    (actions, false)
                },
                _ => (actions, false),
            },
            ClientState::Connected => match message {
                Message::Subscribed(request_id, subscription_id) => {
                    match self.subscription_requests.remove(request_id) {
                        Some(topic) => {
                            self.subscriptions.insert(subscription_id, true);
                            actions.push(
                                ClientAction::SubscribeComplete(
                                    request_id,
                                    Subscription { topic, subscription_id },
                                ),
                            );
                        },
                        None => {},
                    }
                    (actions, true)
                },
                Message::Registered(request_id, registration_id) => {
                    match self.registration_requests.remove(request_id) {
                        Some(procedure) => {
                            self.registrations.insert(registration_id, true);
                            actions.push(
                                ClientAction::RegisterComplete(
                                    request_id,
                                    Registration { procedure, registration_id },
                                ),
                            );
                        },
                        None => {},
                    }
                    (actions, true)
                },
                Message::Unsubscribed(request_id) => {
                    match self.unsubscription_requests.remove(request_id) {
                        Some(subscription_id) => {
                            self.subscriptions.remove(subscription_id);
                            actions.push(
                                ClientAction::UnsubscribeComplete(request_id, subscription_id),
                            );
                        },
                        None => {},
                    }
                    (actions, true)
                },
                Message::Unregistered(request_id) => {
                    match self.unregistration_requests.remove(request_id) {
                        Some(registration_id) => {
                            self.registrations.remove(registration_id);
                            actions.push(
                                ClientAction::UnregisterComplete(request_id, registration_id),
                            );
                        },
                        None => {},
                    }
                    (actions, true)
                },
                Message::Published(request_id, publication_id) => {
                    match self.publish_requests.remove(request_id) {
                        Some(_) => {
                            actions.push(
                                ClientAction::PublishComplete(request_id, publication_id),
                            );
                        },
                        None => {},
                    }
                    (actions, true)
                },
                Message::Result(call_id, _details, args, kwargs) => {
                    match self.call_requests.remove(call_id) {
                        Some(_) => {
                            let rargs = match args {
                                Some(a) => a,
                                None => Vec::new(),
                            };
                            let rkwargs = match kwargs {
                                Some(k) => k,
                                None => Dict::new(),
                            };
                            actions.push(ClientAction::CallComplete(call_id, rargs, rkwargs));
                        },
                        None => {},
                    }
                    (actions, true)
                },
                Message::Event(subscription_id, _publication_id, _details, args, kwargs) => {
                    if self.subscriptions.contains_key(subscription_id) {
                        let rargs = match args {
                            Some(a) => a,
                            None => Vec::new(),
                        };
                        let rkwargs = match kwargs {
                            Some(k) => k,
                            None => Dict::new(),
                        };
                        actions.push(ClientAction::EventReceived(subscription_id, rargs, rkwargs));
                    }
                    (actions, true)
                },
                Message::Invocation(request_id, registration_id, _details, args, kwargs) => {
                    if self.registrations.contains_key(registration_id) {
                        let rargs = match args {
                            Some(a) => a,
                            None => Vec::new(),
                        };
                        let rkwargs = match kwargs {
                            Some(k) => k,
                            None => Dict::new(),
                        };
                        actions.push(
                            ClientAction::InvocationReceived(
                                request_id,
                                registration_id,
                                rargs,
                                rkwargs,
                            ),
                        );
                    }
                    (actions, true)
                },
                Message::Error(e_type, request_id, _details, reason, args, kwargs) => {
                    let error = CallError::new(reason, args, kwargs);
                    match e_type {
                        ErrorType::Subscribe => {
                            if self.subscription_requests.remove(request_id).is_some() {
                                actions.push(
                                    ClientAction::RequestFailed(e_type, request_id, error),
                                );
                            }
                        },
                        ErrorType::Unsubscribe => {
                            if self.unsubscription_requests.remove(request_id).is_some() {
                                actions.push(
                                    ClientAction::RequestFailed(e_type, request_id, error),
                                );
                            }
                        },
                        ErrorType::Register => {
                            if self.registration_requests.remove(request_id).is_some() {
                                actions.push(
                                    ClientAction::RequestFailed(e_type, request_id, error),
                                );
                            }
                        },
                        ErrorType::Unregister => {
                            if self.unregistration_requests.remove(request_id).is_some() {
                                actions.push(
                                    ClientAction::RequestFailed(e_type, request_id, error),
                                );
                            }
                        },
                        ErrorType::Publish => {
                            if self.publish_requests.remove(request_id).is_some() {
                                actions.push(
                                    ClientAction::RequestFailed(e_type, request_id, error),
                                );
                            }
                        },
                        ErrorType::Call => {
                            if self.call_requests.remove(request_id).is_some() {
                                actions.push(
                                    ClientAction::RequestFailed(e_type, request_id, error),
                                );
                            }
                        },
                        ErrorType::Invocation => {},
                    }
                    (actions, true)
                },
                Message::Goodbye(_details, _reason) => {
                    self.state = ClientState::ShuttingDown;
                    actions.push(
                        ClientAction::SendMessage(
                            Message::Goodbye(ErrorDetails::new(), Reason::GoodbyeAndOut),
                        ),
                    );
                    (actions, false)
                },
                _ => (actions, true),
            },
            ClientState::ShuttingDown => match message {
                Message::Goodbye(_details, _reason) => {
                    self.state = ClientState::Disconnected;
                    actions.push(ClientAction::ShutdownComplete);
                    (actions, false)
                },
                _ => (actions, false),
            },
            ClientState::Disconnected => (actions, false),
        }
    }
}

} // verus!
verus! {

/// The network-failure error every dropped request completes with.
pub open spec fn network_failure_error() -> CallError {
    CallError { reason: Reason::NetworkFailure, args: None, kwargs: None }
}

fn drain_failures<V>(table: &mut IdMap<V>, e_type: ErrorType, out: &mut Vec<ClientAction>)
    ensures
        final(table)@.len() == 0,
        final(out)@.len() == old(out)@.len() + old(table)@.len(),
        forall|x: int| 0 <= x < old(out)@.len() ==> #[trigger] final(out)@[x] == old(out)@[x],
        forall|x: int|
            old(out)@.len() <= x < final(out)@.len() ==> #[trigger] final(out)@[x]
                == ClientAction::RequestFailed(
                e_type,
                old(table)@[x - old(out)@.len()].0,
                network_failure_error(),
            ),
{
    let ghost base = out@;
    let ghost entries = table@;
    let mut i: usize = 0;
    while i < table.entries.len()
        invariant
            0 <= i <= entries.len(),
            table@ == entries,
            out@.len() == base.len() + i,
            forall|x: int| 0 <= x < base.len() ==> #[trigger] out@[x] == base[x],
            forall|x: int|
                base.len() <= x < out@.len() ==> #[trigger] out@[x]
                    == ClientAction::RequestFailed(
                    e_type,
                    entries[x - base.len()].0,
                    network_failure_error(),
                ),
        decreases entries.len() - i,
    {
        let request_id = table.entries[i].0;
        out.push(
            ClientAction::RequestFailed(
                e_type,
                request_id,
                CallError::new(Reason::NetworkFailure, None, None),
            ),
        );
        i = i + 1;
    }
    table.entries = Vec::new();
}

impl Client {
    /// The network-loss rule: when the connection drops, every pending
    /// request of every kind completes with a network-failure error —
    /// subscribes first, followed by unsubscribes, registers, unregisters,
    /// publishes and calls, each kind in filing order — a pending shutdown
    /// completes, and the client is disconnected with empty tables.
    pub fn connection_lost(&mut self) -> (r: Vec<ClientAction>)
        ensures
            final(self).state == ClientState::Disconnected,
            final(self).subscription_requests@.len() == 0,
            final(self).unsubscription_requests@.len() == 0,
            final(self).registration_requests@.len() == 0,
            final(self).unregistration_requests@.len() == 0,
            final(self).publish_requests@.len() == 0,
            final(self).call_requests@.len() == 0,
            !final(self).shutdown_pending,
            ({
                let n1 = old(self).subscription_requests@.len() as int;
                let n2 = n1 + old(self).unsubscription_requests@.len();
                let n3 = n2 + old(self).registration_requests@.len();
                let n4 = n3 + old(self).unregistration_requests@.len();
                let n5 = n4 + old(self).publish_requests@.len();
                let n6 = n5 + old(self).call_requests@.len();
                &&& r@.len() == n6 + (if old(self).shutdown_pending {
                    1int
                } else {
                    0int
                })
                &&& forall|x: int|
                    0 <= x < n1 ==> #[trigger] r@[x] == ClientAction::RequestFailed(
                        ErrorType::Subscribe,
                        old(self).subscription_requests@[x].0,
                        network_failure_error(),
                    )
                &&& forall|x: int|
                    n1 <= x < n2 ==> #[trigger] r@[x] == ClientAction::RequestFailed(
                        ErrorType::Unsubscribe,
                        old(self).unsubscription_requests@[x - n1].0,
                        network_failure_error(),
                    )
                &&& forall|x: int|
                    n2 <= x < n3 ==> #[trigger] r@[x] == ClientAction::RequestFailed(
                        ErrorType::Register,
                        old(self).registration_requests@[x - n2].0,
                        network_failure_error(),
                    )
                &&& forall|x: int|
                    n3 <= x < n4 ==> #[trigger] r@[x] == ClientAction::RequestFailed(
                        ErrorType::Unregister,
                        old(self).unregistration_requests@[x - n3].0,
                        network_failure_error(),
                    )
                &&& forall|x: int|
                    n4 <= x < n5 ==> #[trigger] r@[x] == ClientAction::RequestFailed(
                        ErrorType::Publish,
                        old(self).publish_requests@[x - n4].0,
                        network_failure_error(),
                    )
                &&& forall|x: int|
                    n5 <= x < n6 ==> #[trigger] r@[x] == ClientAction::RequestFailed(
                        ErrorType::Call,
                        old(self).call_requests@[x - n5].0,
                        network_failure_error(),
                    )
                &&& (old(self).shutdown_pending ==> r@[n6] == ClientAction::ShutdownComplete)
            }),
    {
        let mut actions: Vec<ClientAction> = Vec::new();
        drain_failures(&mut self.subscription_requests, ErrorType::Subscribe, &mut actions);
        drain_failures(&mut self.unsubscription_requests, ErrorType::Unsubscribe, &mut actions);
        drain_failures(&mut self.registration_requests, ErrorType::Register, &mut actions);
        drain_failures(&mut self.unregistration_requests, ErrorType::Unregister, &mut actions);
        drain_failures(&mut self.publish_requests, ErrorType::Publish, &mut actions);
        drain_failures(&mut self.call_requests, ErrorType::Call, &mut actions);
        if self.shutdown_pending {
            actions.push(ClientAction::ShutdownComplete);
            self.shutdown_pending = false;
        }
        self.state = ClientState::Disconnected;
        actions
    }
}

} // verus!
