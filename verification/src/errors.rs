//! Error reasons, per-request error classification and call errors.
use vstd::prelude::*;

use crate::strutil::str_eq;
use crate::value::{Dict, List, Value, URI};

verus! {

/// A WAMP error reason URI, with one variant for each reason this crate
/// knows and a catch-all variant carrying any other reason text.
#[derive(Hash, Eq, PartialEq, Debug, Clone)]
pub enum Reason {
    /// `wamp.error.invalid_uri`
    InvalidURI,
    /// `wamp.error.no_such_procedure`
    NoSuchProcedure,
    /// `wamp.error.procedure_already_exists`
    ProcedureAlreadyExists,
    /// `wamp.error.no_such_registration`
    NoSuchRegistration,
    /// `wamp.error.no_such_subscription`
    NoSuchSubscription,
    /// `wamp.error.invalid_argument`
    InvalidArgument,
    /// `wamp.error.system_shutdown`
    SystemShutdown,
    /// `wamp.error.close_realm`
    CloseRealm,
    /// `wamp.error.goodbye_and_out`
    GoodbyeAndOut,
    /// `wamp.error.not_authorized`
    NotAuthorized,
    /// `wamp.error.authorization_failed`
    AuthorizationFailed,
    /// `wamp.error.no_such_realm`
    NoSuchRealm,
    /// `wamp.error.no_such_role`
    NoSuchRole,
    /// `wamp.error.cancelled`
    Cancelled,
    /// `wamp.error.option_not_allowed`
    OptionNotAllowed,
    /// `wamp.error.no_eligible_callee`
    NoEligibleCallee,
    /// `wamp.error.option-disallowed.disclose_me`
    OptionDisallowedDiscloseMe,
    /// `wamp.error.network_failure`
    NetworkFailure,
    /// `wamp.close.normal`
    NormalClose,
    /// Any other reason URI, kept as it arrived.
    CustomReason(URI),
}

impl Reason {
    /// The reason URI text of this reason.
    pub open spec fn uri_text(&self) -> Seq<char> {
        match self {
            Reason::InvalidURI => "wamp.error.invalid_uri"@,
            Reason::NoSuchProcedure => "wamp.error.no_such_procedure"@,
            Reason::ProcedureAlreadyExists => "wamp.error.procedure_already_exists"@,
            Reason::NoSuchRegistration => "wamp.error.no_such_registration"@,
            Reason::NoSuchSubscription => "wamp.error.no_such_subscription"@,
            Reason::InvalidArgument => "wamp.error.invalid_argument"@,
            Reason::SystemShutdown => "wamp.error.system_shutdown"@,
            Reason::CloseRealm => "wamp.error.close_realm"@,
            Reason::GoodbyeAndOut => "wamp.error.goodbye_and_out"@,
            Reason::NotAuthorized => "wamp.error.not_authorized"@,
            Reason::AuthorizationFailed => "wamp.error.authorization_failed"@,
            Reason::NoSuchRealm => "wamp.error.no_such_realm"@,
            Reason::NoSuchRole => "wamp.error.no_such_role"@,
            Reason::Cancelled => "wamp.error.cancelled"@,
            Reason::OptionNotAllowed => "wamp.error.option_not_allowed"@,
            Reason::NoEligibleCallee => "wamp.error.no_eligible_callee"@,
            Reason::OptionDisallowedDiscloseMe => "wamp.error.option-disallowed.disclose_me"@,
            Reason::NetworkFailure => "wamp.error.network_failure"@,
            Reason::NormalClose => "wamp.close.normal"@,
            Reason::CustomReason(u) => u.uri@,
        }
    }

    /// The known reason named by the given URI text, or `None` where the
    /// text names no known reason and the catch-all variant is used.
    pub open spec fn spec_of_text(t: Seq<char>) -> Option<Reason> {
        if t == "wamp.error.invalid_uri"@ {
            Some(Reason::InvalidURI)
        } else if t == "wamp.error.no_such_procedure"@ {
            Some(Reason::NoSuchProcedure)
        } else if t == "wamp.error.procedure_already_exists"@ {
            Some(Reason::ProcedureAlreadyExists)
        } else if t == "wamp.error.no_such_registration"@ {
            Some(Reason::NoSuchRegistration)
        } else if t == "wamp.error.no_such_subscription"@ {
            Some(Reason::NoSuchSubscription)
        } else if t == "wamp.error.invalid_argument"@ {
            Some(Reason::InvalidArgument)
        } else if t == "wamp.error.system_shutdown"@ {
            Some(Reason::SystemShutdown)
        } else if t == "wamp.error.close_realm"@ {
            Some(Reason::CloseRealm)
        } else if t == "wamp.error.goodbye_and_out"@ {
            Some(Reason::GoodbyeAndOut)
        } else if t == "wamp.error.not_authorized"@ {
            Some(Reason::NotAuthorized)
        } else if t == "wamp.error.authorization_failed"@ {
            Some(Reason::AuthorizationFailed)
        } else if t == "wamp.error.no_such_realm"@ {
            Some(Reason::NoSuchRealm)
        } else if t == "wamp.error.no_such_role"@ {
            Some(Reason::NoSuchRole)
        } else if t == "wamp.error.cancelled"@ {
            Some(Reason::Cancelled)
        } else if t == "wamp.error.option_not_allowed"@ {
            Some(Reason::OptionNotAllowed)
        } else if t == "wamp.error.no_eligible_callee"@ {
            Some(Reason::NoEligibleCallee)
        } else if t == "wamp.error.option-disallowed.disclose_me"@ {
            Some(Reason::OptionDisallowedDiscloseMe)
        } else if t == "wamp.error.network_failure"@ {
            Some(Reason::NetworkFailure)
        } else if t == "wamp.close.normal"@ {
            Some(Reason::NormalClose)
        } else {
            None
        }
    }

    /// The reason URI text of this reason, as a string slice.
    pub fn get_string(&self) -> (r: &str)
        ensures
            r@ == self.uri_text(),
    {
        match self {
            Reason::InvalidURI => "wamp.error.invalid_uri",
            Reason::NoSuchProcedure => "wamp.error.no_such_procedure",
            Reason::ProcedureAlreadyExists => "wamp.error.procedure_already_exists",
            Reason::NoSuchRegistration => "wamp.error.no_such_registration",
            Reason::NoSuchSubscription => "wamp.error.no_such_subscription",
            Reason::InvalidArgument => "wamp.error.invalid_argument",
            Reason::SystemShutdown => "wamp.error.system_shutdown",
            Reason::CloseRealm => "wamp.error.close_realm",
            Reason::GoodbyeAndOut => "wamp.error.goodbye_and_out",
            Reason::NotAuthorized => "wamp.error.not_authorized",
            Reason::AuthorizationFailed => "wamp.error.authorization_failed",
            Reason::NoSuchRealm => "wamp.error.no_such_realm",
            Reason::NoSuchRole => "wamp.error.no_such_role",
            Reason::Cancelled => "wamp.error.cancelled",
            Reason::OptionNotAllowed => "wamp.error.option_not_allowed",
            Reason::NoEligibleCallee => "wamp.error.no_eligible_callee",
            Reason::OptionDisallowedDiscloseMe => "wamp.error.option-disallowed.disclose_me",
            Reason::NetworkFailure => "wamp.error.network_failure",
            Reason::NormalClose => "wamp.close.normal",
            Reason::CustomReason(u) => u.uri.as_str(),
        }
    }

    /// Reads a reason from its URI text, any unknown text landing in the
    /// catch-all variant.
    pub fn from_text(t: &str) -> (r: Reason)
        ensures
            r.uri_text() == t@,
            Reason::spec_of_text(t@) matches Some(k) ==> r == k,
            Reason::spec_of_text(t@) is None ==> (r matches Reason::CustomReason(u) && u.uri@ == t@),
    {
        if str_eq(t, "wamp.error.invalid_uri") {
            Reason::InvalidURI
        } else if str_eq(t, "wamp.error.no_such_procedure") {
            Reason::NoSuchProcedure
        } else if str_eq(t, "wamp.error.procedure_already_exists") {
            Reason::ProcedureAlreadyExists
        } else if str_eq(t, "wamp.error.no_such_registration") {
            Reason::NoSuchRegistration
        } else if str_eq(t, "wamp.error.no_such_subscription") {
            Reason::NoSuchSubscription
        } else if str_eq(t, "wamp.error.invalid_argument") {
            Reason::InvalidArgument
        } else if str_eq(t, "wamp.error.system_shutdown") {
            Reason::SystemShutdown
        } else if str_eq(t, "wamp.error.close_realm") {
            Reason::CloseRealm
        } else if str_eq(t, "wamp.error.goodbye_and_out") {
            Reason::GoodbyeAndOut
        } else if str_eq(t, "wamp.error.not_authorized") {
            Reason::NotAuthorized
        } else if str_eq(t, "wamp.error.authorization_failed") {
            Reason::AuthorizationFailed
        } else if str_eq(t, "wamp.error.no_such_realm") {
            Reason::NoSuchRealm
        } else if str_eq(t, "wamp.error.no_such_role") {
            Reason::NoSuchRole
        } else if str_eq(t, "wamp.error.cancelled") {
            Reason::Cancelled
        } else if str_eq(t, "wamp.error.option_not_allowed") {
            Reason::OptionNotAllowed
        } else if str_eq(t, "wamp.error.no_eligible_callee") {
            Reason::NoEligibleCallee
        } else if str_eq(t, "wamp.error.option-disallowed.disclose_me") {
            Reason::OptionDisallowedDiscloseMe
        } else if str_eq(t, "wamp.error.network_failure") {
            Reason::NetworkFailure
        } else if str_eq(t, "wamp.close.normal") {
            Reason::NormalClose
        } else {
            Reason::CustomReason(URI::new(t))
        }
    }
}

/// The request kind to which an error message replies, named by the tag of
/// the request message.
#[derive(Hash, Eq, PartialEq, Structural, Debug, Clone, Copy)]
pub enum ErrorType {
    /// A subscribe request (tag 32).
    Subscribe,
    /// An unsubscribe request (tag 34).
    Unsubscribe,
    /// A publish request (tag 16).
    Publish,
    /// A register request (tag 64).
    Register,
    /// An unregister request (tag 66).
    Unregister,
    /// An invocation (tag 68).
    Invocation,
    /// A call request (tag 48).
    Call,
}

impl ErrorType {
    /// The numeric tag of the request kind.
    pub open spec fn spec_tag(&self) -> u64 {
        match self {
            ErrorType::Subscribe => 32,
            ErrorType::Unsubscribe => 34,
            ErrorType::Publish => 16,
            ErrorType::Register => 64,
            ErrorType::Unregister => 66,
            ErrorType::Invocation => 68,
            ErrorType::Call => 48,
        }
    }

    /// Writes the request kind as its numeric tag.
    pub fn to_tag(&self) -> (t: u64)
        ensures
            t == self.spec_tag(),
    {
        match self {
            ErrorType::Subscribe => 32,
            ErrorType::Unsubscribe => 34,
            ErrorType::Publish => 16,
            ErrorType::Register => 64,
            ErrorType::Unregister => 66,
            ErrorType::Invocation => 68,
            ErrorType::Call => 48,
        }
    }

    /// Reads a request kind from its numeric tag; unknown tags are refused.
    pub fn from_tag(t: u64) -> (r: Option<ErrorType>)
        ensures
            match r {
                Some(e) => e.spec_tag() == t,
                None => !(t == 32 || t == 34 || t == 16 || t == 64 || t == 66 || t == 68 || t
                    == 48),
            },
    {
        match t {
            32u64 => Some(ErrorType::Subscribe),
            34u64 => Some(ErrorType::Unsubscribe),
            16u64 => Some(ErrorType::Publish),
            64u64 => Some(ErrorType::Register),
            66u64 => Some(ErrorType::Unregister),
            68u64 => Some(ErrorType::Invocation),
            48u64 => Some(ErrorType::Call),
            _ => None,
        }
    }
}

/// The failure of a routed call or of another acknowledged request: a reason
/// with optional positional and keyword payloads.
#[derive(Debug, PartialEq)]
pub struct CallError {
    /// Why the request failed.
    pub reason: Reason,
    /// Optional positional payload describing the failure.
    pub args: Option<List>,
    /// Optional keyword payload describing the failure.
    pub kwargs: Option<Dict>,
}

impl CallError {
    /// Packs a reason and its payloads into a call error.
    pub fn new(reason: Reason, args: Option<List>, kwargs: Option<Dict>) -> (e: CallError)
        ensures
            e.reason == reason,
            e.args == args,
            e.kwargs == kwargs,
    {
        CallError { reason, args, kwargs }
    }

    /// Takes the error apart into its three parts.
    pub fn into_tuple(self) -> (t: (Reason, Option<List>, Option<Dict>))
        ensures
            t.0 == self.reason,
            t.1 == self.args,
            t.2 == self.kwargs,
    {
        let CallError { reason, args, kwargs } = self;
        (reason, args, kwargs)
    }

    /// The reason of the error.
    pub fn get_reason(&self) -> (r: &Reason)
        ensures
            r == &self.reason,
    {
        &self.reason
    }

    /// The positional payload of the error.
    pub fn get_args(&self) -> (r: &Option<List>)
        ensures
            r == &self.args,
    {
        &self.args
    }

    /// The keyword payload of the error.
    pub fn get_kwargs(&self) -> (r: &Option<Dict>)
        ensures
            r == &self.kwargs,
    {
        &self.kwargs
    }
}

} // verus!
