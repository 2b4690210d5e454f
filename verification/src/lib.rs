//! A WAMP v2 (Web Application Messaging Protocol) router and peer client
//! core: the wire codec for the tagged-array message form, the URI pattern
//! tries that index subscriptions and registrations, and the per-connection
//! state machines of the router and of the client.
//!
//! Transport (WebSocket framing) and payload syntax (JSON, MsgPack) live
//! outside this crate; the types here speak the wire form as a tree of
//! [`Value`]s, and the state machines speak plain connection identifiers.
use vstd::prelude::*;

mod strutil;
mod value;
mod errors;
mod policies;
mod options;
mod roles;
mod message;
mod patterns;
mod ids;
mod idmap;
mod router;
mod client;
mod pubsub_patterns;
mod rpc_patterns;

pub use client::{Client, ClientAction, ClientState, Connection, Registration, Subscription};
pub use errors::{CallError, ErrorType, Reason};
pub use message::Message;
pub use idmap::IdMap;
pub use patterns::{PatternData, PatternError};
pub use pubsub_patterns::{MatchIterator, SubscriptionPatternNode};
pub use router::{
    select_subprotocol, ConnectionHandler, ConnectionState, Error, ErrorKind, EventBroadcast,
    EventTarget, Outbound, Realm, RegistrationManager, Router, StepOutput, SubscriptionManager,
};
pub use rpc_patterns::{ProcdureCollection, RegistrationPatternNode};
pub use options::{
    CallOptions, ErrorDetails, EventDetails, HelloDetails, InvocationDetails, PublishOptions,
    RegisterOptions, ResultDetails, SubscribeOptions, WelcomeDetails, YieldOptions,
};
pub use policies::{is_not, InvocationPolicy, MatchingPolicy};
pub use roles::{
    BrokerFeatures, BrokerRole, CalleeRole, CallerRole, ClientRoles, DealerFeatures, DealerRole,
    PublisherRole, RouterRoles, SubscriberFeatures, SubscriberRole,
};
pub use value::{ArgDict, ArgList, Dict, List, Value, URI};

verus! {

/// Identifier for sessions, requests, subscriptions, registrations and
/// publications: an unsigned 64-bit integer.
pub type ID = u64;

/// Result of a call made through the router, failing with a [`CallError`].
pub type CallResult<T> = Result<T, CallError>;

/// Result of a protocol-level step, failing with an [`Error`].
pub type WampResult<T> = Result<T, Error>;

/// Filtering a sequence extended by one element keeps the filtered prefix
/// and appends the element exactly when it passes.
pub proof fn lemma_filter_push<A>(s: Seq<A>, e: A, pred: spec_fn(A) -> bool)
    ensures
        s.push(e).filter(pred) == s.filter(pred) + (if pred(e) {
            seq![e]
        } else {
            Seq::<A>::empty()
        }),
{
    reveal(Seq::filter);
    assert(s.push(e).drop_last() =~= s);
    assert(s.push(e).last() == e);
}

/// Filtering an empty sequence yields an empty sequence.
pub proof fn lemma_filter_empty<A>(pred: spec_fn(A) -> bool)
    ensures
        Seq::<A>::empty().filter(pred) == Seq::<A>::empty(),
{
    reveal(Seq::filter);
}

} // verus!
