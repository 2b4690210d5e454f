//! The option and detail records that ride inside messages, with their
//! dictionary wire forms: a flag or policy at its default is left out of the
//! dictionary, and a reader treats an absent key as the default.
use vstd::prelude::*;

use crate::policies::{InvocationPolicy, MatchingPolicy};
use crate::roles::{ClientRoles, RouterRoles};
use crate::strutil::str_eq;
use crate::value::{
    dict_get_or, lemma_dict_insert_absent, spec_dict_get, spec_dict_insert, Dict, Value, URI,
};

verus! {

/// Whether `v` is a text value reading `t`.
pub open spec fn is_str_value(v: Value, t: Seq<char>) -> bool {
    v matches Value::String(s) && s@ == t
}

/// Whether `e` is a dictionary entry under key `k` whose value is the text
/// `t`.
pub open spec fn is_str_entry(e: (String, Value), k: Seq<char>, t: Seq<char>) -> bool {
    e.0@ == k && is_str_value(e.1, t)
}

/// The details a client sends with its greeting: an optional agent name and
/// the roles it offers.
#[derive(PartialEq, Debug)]
pub struct HelloDetails {
    /// The client software's self-chosen name, if any.
    pub agent: Option<String>,
    /// The roles the client can play.
    pub roles: ClientRoles,
}

/// The details a router sends in its welcome: an optional agent name and
/// the roles it offers.
#[derive(PartialEq, Debug)]
pub struct WelcomeDetails {
    /// The router software's self-chosen name, if any.
    pub agent: Option<String>,
    /// The roles the router can play.
    pub roles: RouterRoles,
}

/// The details of an abort or goodbye: an optional human-readable note.
#[derive(PartialEq, Debug)]
pub struct ErrorDetails {
    /// A human-readable note on the close, if any.
    pub message: Option<String>,
}

/// The options of a subscribe request.
#[derive(PartialEq, Debug)]
pub struct SubscribeOptions {
    /// How the topic pattern matches URIs; strict when absent on the wire.
    pub pattern_match: MatchingPolicy,
}

/// The options of a publish request.
#[derive(PartialEq, Debug)]
pub struct PublishOptions {
    /// Whether the router must answer with a published message.
    pub acknowledge: bool,
}

/// The options of a register request.
#[derive(PartialEq, Debug)]
pub struct RegisterOptions {
    /// How the procedure pattern matches URIs; strict when absent.
    pub pattern_match: MatchingPolicy,
    /// How calls are spread over co-registered callees; single when absent.
    pub invocation_policy: InvocationPolicy,
}

/// The options of a call request; none are recognised.
#[derive(PartialEq, Debug)]
pub struct CallOptions {}

/// The options of a yield message; none are recognised.
#[derive(PartialEq, Debug)]
pub struct YieldOptions {}

/// The details of an event delivered to a subscriber.
#[derive(PartialEq, Debug)]
pub struct EventDetails {
    /// The concrete topic, set when the subscription's matching was not
    /// strict.
    pub topic: Option<URI>,
}

/// The details of an invocation delivered to a callee.
#[derive(PartialEq, Debug)]
pub struct InvocationDetails {
    /// The concrete procedure, set when the registration's matching was not
    /// strict.
    pub procedure: Option<URI>,
}

/// The details of a call result; none are recognised.
#[derive(PartialEq, Debug)]
pub struct ResultDetails {}

impl HelloDetails {
    /// Greeting details with the given roles and no agent name.
    pub fn new(roles: ClientRoles) -> (r: HelloDetails)
        ensures
            r.roles == roles,
            r.agent is None,
    {
        HelloDetails { roles, agent: None }
    }

    /// Greeting details with the given roles and agent name.
    pub fn new_with_agent(roles: ClientRoles, agent: &str) -> (r: HelloDetails)
        ensures
            r.roles == roles,
            r.agent matches Some(a) && a@ == agent@,
    {
        HelloDetails { roles, agent: Some(agent.to_owned()) }
    }

    /// The dictionary wire form: the agent name if any, and the roles.
    pub open spec fn wire_matches(self, v: Value) -> bool {
        v matches Value::Dict(d) && {
            let roles_at = if self.agent is Some {
                1int
            } else {
                0int
            };
            &&& d@.len() == roles_at + 1
            &&& self.agent matches Some(a) ==> (d@[0].0@ == "agent"@ && d@[0].1 == Value::String(
                a,
            ))
            &&& d@[roles_at].0@ == "roles"@
            &&& self.roles.wire_matches(d@[roles_at].1)
        }
    }

    /// Writes the details as a dictionary value.
    pub fn to_wire(self) -> (v: Value)
        ensures
            self.wire_matches(v),
    {
        let ghost g = self;
        let mut d = Dict::new();
        proof {
            reveal_strlit("agent");
            reveal_strlit("roles");
            assert("agent"@[0] == 'a');
            assert("roles"@[0] == 'r');
        }
        match self.agent {
            Some(a) => {
                d.insert("agent".to_owned(), Value::String(a));
                assert(d@.len() == 1 && d@[0].0@ == "agent"@);
            },
            None => {},
        }
        let k = "roles".to_owned();
        let rv = self.roles.to_wire();
        proof {
            lemma_dict_insert_absent(d@, k, rv);
        }
        d.insert(k, rv);
        proof {
            assert(g.wire_matches(Value::Dict(d)));
        }
        Value::Dict(d)
    }

    /// The details read from a wire value: the roles key must be present and
    /// well-formed, the agent key may be absent.
    pub open spec fn spec_parse(v: Value) -> Option<HelloDetails> {
        match v {
            Value::Dict(d) => {
                let agent = spec_dict_get(d@, "agent"@);
                let agent_ok = match agent {
                    Some(av) => av is String,
                    None => true,
                };
                if !agent_ok {
                    None
                } else {
                    match spec_dict_get(d@, "roles"@) {
                        Some(rv) => match ClientRoles::spec_parse(rv) {
                            Some(r) => Some(
                                HelloDetails {
                                    agent: match agent {
                                        Some(av) => Some(av->String_0),
                                        None => None,
                                    },
                                    roles: r,
                                },
                            ),
                            None => None,
                        },
                        None => None,
                    }
                }
            },
            _ => None,
        }
    }

    /// Reads details from a wire value, consuming it.
    pub fn parse(v: Value) -> (r: Option<HelloDetails>)
        ensures
            r == Self::spec_parse(v),
    {
        match v {
            Value::Dict(d) => {
                let ghost orig = d@;
                let mut entries = d.entries;
                let mut agent_v: Option<Value> = None;
                let mut roles_v: Option<Value> = None;
                while entries.len() > 0
                    invariant
                        dict_get_or(agent_v, entries@, "agent"@) == spec_dict_get(orig, "agent"@),
                        dict_get_or(roles_v, entries@, "roles"@) == spec_dict_get(orig, "roles"@),
                    decreases entries@.len(),
                {
                    let ghost before = entries@;
                    let e = entries.remove(0);
                    proof {
                        reveal_strlit("agent");
                        reveal_strlit("roles");
                        assert("agent"@[0] == 'a' && "roles"@[0] == 'r');
                        assert("agent"@ != "roles"@);
                        assert(before.remove(0) =~= before.skip(1));
                    }
                    let is_agent = str_eq(e.0.as_str(), "agent");
                    let is_roles = str_eq(e.0.as_str(), "roles");
                    if agent_v.is_none() && is_agent {
                        agent_v = Some(e.1);
                    } else if roles_v.is_none() && is_roles {
                        roles_v = Some(e.1);
                    }
                }
                let agent: Option<String> = match agent_v {
                    Some(Value::String(s)) => Some(s),
                    Some(_) => {
                        return None;
                    },
                    None => None,
                };
                match roles_v {
                    Some(rv) => match ClientRoles::parse(rv) {
                        Some(roles) => Some(HelloDetails { agent, roles }),
                        None => None,
                    },
                    None => None,
                }
            },
            _ => None,
        }
    }
}

impl WelcomeDetails {
    /// Welcome details with the given roles and no agent name.
    pub fn new(roles: RouterRoles) -> (r: WelcomeDetails)
        ensures
            r.roles == roles,
            r.agent is None,
    {
        WelcomeDetails { roles, agent: None }
    }

    /// Welcome details with the given roles and agent name.
    pub fn new_with_agent(roles: RouterRoles, agent: &str) -> (r: WelcomeDetails)
        ensures
            r.roles == roles,
            r.agent matches Some(a) && a@ == agent@,
    {
        WelcomeDetails { roles, agent: Some(agent.to_owned()) }
    }

    /// The dictionary wire form: the agent name if any, and the roles.
    pub open spec fn wire_matches(self, v: Value) -> bool {
        v matches Value::Dict(d) && {
            let roles_at = if self.agent is Some {
                1int
            } else {
                0int
            };
            &&& d@.len() == roles_at + 1
            &&& self.agent matches Some(a) ==> (d@[0].0@ == "agent"@ && d@[0].1 == Value::String(
                a,
            ))
            &&& d@[roles_at].0@ == "roles"@
            &&& self.roles.wire_matches(d@[roles_at].1)
        }
    }

    /// Writes the details as a dictionary value.
    pub fn to_wire(self) -> (v: Value)
        ensures
            self.wire_matches(v),
    {
        let ghost g = self;
        let mut d = Dict::new();
        proof {
            reveal_strlit("agent");
            reveal_strlit("roles");
            assert("agent"@[0] == 'a');
            assert("roles"@[0] == 'r');
        }
        match self.agent {
            Some(a) => {
                d.insert("agent".to_owned(), Value::String(a));
                assert(d@.len() == 1 && d@[0].0@ == "agent"@);
            },
            None => {},
        }
        let k = "roles".to_owned();
        let rv = self.roles.to_wire();
        proof {
            lemma_dict_insert_absent(d@, k, rv);
        }
        d.insert(k, rv);
        proof {
            assert(g.wire_matches(Value::Dict(d)));
        }
        Value::Dict(d)
    }

    /// The details read from a wire value.
    pub open spec fn spec_parse(v: Value) -> Option<WelcomeDetails> {
        match v {
            Value::Dict(d) => {
                let agent = spec_dict_get(d@, "agent"@);
                let agent_ok = match agent {
                    Some(av) => av is String,
                    None => true,
                };
                if !agent_ok {
                    None
                } else {
                    match spec_dict_get(d@, "roles"@) {
                        Some(rv) => match RouterRoles::spec_parse(rv) {
                            Some(r) => Some(
                                WelcomeDetails {
                                    agent: match agent {
                                        Some(av) => Some(av->String_0),
                                        None => None,
                                    },
                                    roles: r,
                                },
                            ),
                            None => None,
                        },
                        None => None,
                    }
                }
            },
            _ => None,
        }
    }

    /// Reads details from a wire value.
    pub fn parse(v: &Value) -> (r: Option<WelcomeDetails>)
        ensures
            r == Self::spec_parse(*v),
    {
        match v {
            Value::Dict(d) => {
                let agent: Option<String> = match d.get("agent") {
                    Some(Value::String(s)) => Some(s.clone()),
                    Some(_) => {
                        return None;
                    },
                    None => None,
                };
                match d.get("roles") {
                    Some(rv) => match RouterRoles::parse(rv) {
                        Some(roles) => Some(WelcomeDetails { agent, roles }),
                        None => None,
                    },
                    None => None,
                }
            },
            _ => None,
        }
    }
}

impl ErrorDetails {
    /// Empty details.
    pub fn new() -> (r: ErrorDetails)
        ensures
            r.message is None,
    {
        ErrorDetails { message: None }
    }

    /// Details carrying a human-readable note.
    pub fn new_with_message(message: &str) -> (r: ErrorDetails)
        ensures
            r.message matches Some(m) && m@ == message@,
    {
        ErrorDetails { message: Some(message.to_owned()) }
    }

    /// The dictionary wire form: empty, or one entry with the note.
    pub open spec fn wire_matches(self, v: Value) -> bool {
        v matches Value::Dict(d) && match self.message {
            Some(m) => d@.len() == 1 && d@[0].0@ == "message"@ && d@[0].1 == Value::String(m),
            None => d@.len() == 0,
        }
    }

    /// Writes the details as a dictionary value.
    pub fn to_wire(self) -> (v: Value)
        ensures
            self.wire_matches(v),
    {
        let mut d = Dict::new();
        match self.message {
            Some(m) => {
                d.insert("message".to_owned(), Value::String(m));
            },
            None => {},
        }
        Value::Dict(d)
    }

    /// The details read from a wire value.
    pub open spec fn spec_parse(v: Value) -> Option<ErrorDetails> {
        match v {
            Value::Dict(d) => match spec_dict_get(d@, "message"@) {
                Some(mv) => match mv {
                    Value::String(s) => Some(ErrorDetails { message: Some(s) }),
                    _ => None,
                },
                None => Some(ErrorDetails { message: None }),
            },
            _ => None,
        }
    }

    /// Reads details from a wire value.
    pub fn parse(v: &Value) -> (r: Option<ErrorDetails>)
        ensures
            r == Self::spec_parse(*v),
    {
        match v {
            Value::Dict(d) => match d.get("message") {
                Some(Value::String(s)) => Some(ErrorDetails { message: Some(s.clone()) }),
                Some(_) => None,
                None => Some(ErrorDetails { message: None }),
            },
            _ => None,
        }
    }
}

impl SubscribeOptions {
    /// Options asking for strict matching.
    pub fn new() -> (r: SubscribeOptions)
        ensures
            r.pattern_match == MatchingPolicy::Strict,
    {
        SubscribeOptions { pattern_match: MatchingPolicy::Strict }
    }

    /// The dictionary wire form: empty for strict matching, else one entry
    /// naming the policy.
    pub open spec fn wire_matches(self, v: Value) -> bool {
        v matches Value::Dict(d) && if self.pattern_match == MatchingPolicy::Strict {
            d@.len() == 0
        } else {
            d@.len() == 1 && is_str_entry(d@[0], "match"@, self.pattern_match.spec_text())
        }
    }

    /// Writes the options as a dictionary value.
    pub fn to_wire(self) -> (v: Value)
        ensures
            self.wire_matches(v),
    {
        let mut d = Dict::new();
        if !self.pattern_match.is_strict() {
            d.insert("match".to_owned(), Value::String(self.pattern_match.to_text().to_owned()));
        }
        Value::Dict(d)
    }

    /// The options read from a wire value: an absent key means strict, a
    /// known policy name is honoured, anything else is refused.
    pub open spec fn spec_parse(v: Value) -> Option<SubscribeOptions> {
        match v {
            Value::Dict(d) => match spec_dict_get(d@, "match"@) {
                Some(mv) => match mv {
                    Value::String(s) => match MatchingPolicy::spec_of_text(s@) {
                        Some(p) => Some(SubscribeOptions { pattern_match: p }),
                        None => None,
                    },
                    _ => None,
                },
                None => Some(SubscribeOptions { pattern_match: MatchingPolicy::Strict }),
            },
            _ => None,
        }
    }

    /// Reads options from a wire value.
    pub fn parse(v: &Value) -> (r: Option<SubscribeOptions>)
        ensures
            r == Self::spec_parse(*v),
    {
        match v {
            Value::Dict(d) => match d.get("match") {
                Some(Value::String(s)) => match MatchingPolicy::from_text(s.as_str()) {
                    Some(p) => Some(SubscribeOptions { pattern_match: p }),
                    None => None,
                },
                Some(_) => None,
                None => Some(SubscribeOptions { pattern_match: MatchingPolicy::Strict }),
            },
            _ => None,
        }
    }
}

impl PublishOptions {
    /// Options with the given acknowledgement flag.
    pub fn new(acknowledge: bool) -> (r: PublishOptions)
        ensures
            r.acknowledge == acknowledge,
    {
        PublishOptions { acknowledge }
    }

    /// Whether the publisher asked for an acknowledgement.
    pub fn should_acknowledge(&self) -> (r: bool)
        ensures
            r == self.acknowledge,
    {
        self.acknowledge
    }

    /// The dictionary wire form: empty without acknowledgement, else one
    /// boolean entry.
    pub open spec fn wire_matches(self, v: Value) -> bool {
        v matches Value::Dict(d) && if self.acknowledge {
            d@.len() == 1 && d@[0].0@ == "acknowledge"@ && d@[0].1 == Value::Boolean(true)
        } else {
            d@.len() == 0
        }
    }

    /// Writes the options as a dictionary value.
    pub fn to_wire(self) -> (v: Value)
        ensures
            self.wire_matches(v),
    {
        let mut d = Dict::new();
        if self.acknowledge {
            d.insert("acknowledge".to_owned(), Value::Boolean(true));
        }
        Value::Dict(d)
    }

    /// The options read from a wire value: an absent key means no
    /// acknowledgement.
    pub open spec fn spec_parse(v: Value) -> Option<PublishOptions> {
        match v {
            Value::Dict(d) => match spec_dict_get(d@, "acknowledge"@) {
                Some(av) => match av {
                    Value::Boolean(b) => Some(PublishOptions { acknowledge: b }),
                    _ => None,
                },
                None => Some(PublishOptions { acknowledge: false }),
            },
            _ => None,
        }
    }

    /// Reads options from a wire value.
    pub fn parse(v: &Value) -> (r: Option<PublishOptions>)
        ensures
            r == Self::spec_parse(*v),
    {
        match v {
            Value::Dict(d) => match d.get("acknowledge") {
                Some(Value::Boolean(b)) => Some(PublishOptions { acknowledge: *b }),
                Some(_) => None,
                None => Some(PublishOptions { acknowledge: false }),
            },
            _ => None,
        }
    }
}

impl RegisterOptions {
    /// Options asking for strict matching and a single callee.
    pub fn new() -> (r: RegisterOptions)
        ensures
            r.pattern_match == MatchingPolicy::Strict,
            r.invocation_policy == InvocationPolicy::Single,
    {
        RegisterOptions {
            pattern_match: MatchingPolicy::Strict,
            invocation_policy: InvocationPolicy::Single,
        }
    }

    /// The dictionary wire form: the matching policy unless strict, followed
    /// by the invocation policy unless single.
    pub open spec fn wire_matches(self, v: Value) -> bool {
        v matches Value::Dict(d) && {
            let strict = self.pattern_match == MatchingPolicy::Strict;
            let single = self.invocation_policy == InvocationPolicy::Single;
            &&& strict && single ==> d@.len() == 0
            &&& !strict && single ==> d@.len() == 1 && is_str_entry(
                d@[0],
                "match"@,
                self.pattern_match.spec_text(),
            )
            &&& strict && !single ==> d@.len() == 1 && is_str_entry(
                d@[0],
                "invoke"@,
                self.invocation_policy.spec_text(),
            )
            &&& !strict && !single ==> d@.len() == 2 && is_str_entry(
                d@[0],
                "match"@,
                self.pattern_match.spec_text(),
            ) && is_str_entry(d@[1], "invoke"@, self.invocation_policy.spec_text())
        }
    }

    /// Writes the options as a dictionary value.
    pub fn to_wire(self) -> (v: Value)
        ensures
            self.wire_matches(v),
    {
        let ghost g = self;
        let mut d = Dict::new();
        proof {
            reveal_strlit("match");
            reveal_strlit("invoke");
        }
        if !self.pattern_match.is_strict() {
            d.insert("match".to_owned(), Value::String(self.pattern_match.to_text().to_owned()));
            assert(d@.len() == 1 && d@[0].0@ == "match"@);
        }
        if !self.invocation_policy.is_single() {
            let k = "invoke".to_owned();
            let val = Value::String(self.invocation_policy.to_text().to_owned());
            proof {
                lemma_dict_insert_absent(d@, k, val);
            }
            d.insert(k, val);
        }
        proof {
            assert(g.wire_matches(Value::Dict(d)));
        }
        Value::Dict(d)
    }

    /// The options read from a wire value, each key defaulting when absent.
    pub open spec fn spec_parse(v: Value) -> Option<RegisterOptions> {
        match v {
            Value::Dict(d) => {
                let pm = match spec_dict_get(d@, "match"@) {
                    Some(mv) => match mv {
                        Value::String(s) => MatchingPolicy::spec_of_text(s@),
                        _ => None,
                    },
                    None => Some(MatchingPolicy::Strict),
                };
                let ip = match spec_dict_get(d@, "invoke"@) {
                    Some(iv) => match iv {
                        Value::String(s) => InvocationPolicy::spec_of_text(s@),
                        _ => None,
                    },
                    None => Some(InvocationPolicy::Single),
                };
                match pm {
                    Some(p) => match ip {
                        Some(q) => Some(
                            RegisterOptions { pattern_match: p, invocation_policy: q },
                        ),
                        None => None,
                    },
                    None => None,
                }
            },
            _ => None,
        }
    }

    /// Reads options from a wire value.
    pub fn parse(v: &Value) -> (r: Option<RegisterOptions>)
        ensures
            r == Self::spec_parse(*v),
    {
        match v {
            Value::Dict(d) => {
                let pm = match d.get("match") {
                    Some(Value::String(s)) => match MatchingPolicy::from_text(s.as_str()) {
                        Some(p) => p,
                        None => {
                            return None;
                        },
                    },
                    Some(_) => {
                        return None;
                    },
                    None => MatchingPolicy::Strict,
                };
                let ip = match d.get("invoke") {
                    Some(Value::String(s)) => match InvocationPolicy::from_text(s.as_str()) {
                        Some(p) => p,
                        None => {
                            return None;
                        },
                    },
                    Some(_) => {
                        return None;
                    },
                    None => InvocationPolicy::Single,
                };
                Some(RegisterOptions { pattern_match: pm, invocation_policy: ip })
            },
            _ => None,
        }
    }
}

impl CallOptions {
    /// Empty options.
    pub fn new() -> (r: CallOptions) {
        CallOptions {}
    }

    /// The dictionary wire form: an empty dictionary.
    pub open spec fn wire_matches(self, v: Value) -> bool {
        v matches Value::Dict(d) && d@.len() == 0
    }

    /// Writes the options as an empty dictionary value.
    pub fn to_wire(self) -> (v: Value)
        ensures
            self.wire_matches(v),
    {
        Value::Dict(Dict::new())
    }

    /// The options read from a wire value: any dictionary is accepted.
    pub open spec fn spec_parse(v: Value) -> Option<CallOptions> {
        if v is Dict {
            Some(CallOptions {})
        } else {
            None
        }
    }

    /// Reads options from a wire value.
    pub fn parse(v: &Value) -> (r: Option<CallOptions>)
        ensures
            r == Self::spec_parse(*v),
    {
        match v {
            Value::Dict(_) => Some(CallOptions {}),
            _ => None,
        }
    }
}

impl YieldOptions {
    /// Empty options.
    pub fn new() -> (r: YieldOptions) {
        YieldOptions {}
    }

    /// The dictionary wire form: an empty dictionary.
    pub open spec fn wire_matches(self, v: Value) -> bool {
        v matches Value::Dict(d) && d@.len() == 0
    }

    /// Writes the options as an empty dictionary value.
    pub fn to_wire(self) -> (v: Value)
        ensures
            self.wire_matches(v),
    {
        Value::Dict(Dict::new())
    }

    /// The options read from a wire value: any dictionary is accepted.
    pub open spec fn spec_parse(v: Value) -> Option<YieldOptions> {
        if v is Dict {
            Some(YieldOptions {})
        } else {
            None
        }
    }

    /// Reads options from a wire value.
    pub fn parse(v: &Value) -> (r: Option<YieldOptions>)
        ensures
            r == Self::spec_parse(*v),
    {
        match v {
            Value::Dict(_) => Some(YieldOptions {}),
            _ => None,
        }
    }
}

impl EventDetails {
    /// Details without a concrete topic.
    pub fn new() -> (r: EventDetails)
        ensures
            r.topic is None,
    {
        EventDetails { topic: None }
    }

    /// Details naming the concrete topic of the event.
    pub fn new_with_topic(topic: URI) -> (r: EventDetails)
        ensures
            r.topic == Some(topic),
    {
        EventDetails { topic: Some(topic) }
    }

    /// The dictionary wire form: empty, or one entry with the topic.
    pub open spec fn wire_matches(self, v: Value) -> bool {
        v matches Value::Dict(d) && match self.topic {
            Some(t) => d@.len() == 1 && d@[0].0@ == "topic"@ && d@[0].1 == Value::String(t.uri),
            None => d@.len() == 0,
        }
    }

    /// Writes the details as a dictionary value.
    pub fn to_wire(self) -> (v: Value)
        ensures
            self.wire_matches(v),
    {
        let mut d = Dict::new();
        match self.topic {
            Some(t) => {
                d.insert("topic".to_owned(), Value::String(t.uri));
            },
            None => {},
        }
        Value::Dict(d)
    }

    /// The details read from a wire value.
    pub open spec fn spec_parse(v: Value) -> Option<EventDetails> {
        match v {
            Value::Dict(d) => match spec_dict_get(d@, "topic"@) {
                Some(tv) => match tv {
                    Value::String(s) => Some(EventDetails { topic: Some(URI { uri: s }) }),
                    _ => None,
                },
                None => Some(EventDetails { topic: None }),
            },
            _ => None,
        }
    }

    /// Reads details from a wire value.
    pub fn parse(v: &Value) -> (r: Option<EventDetails>)
        ensures
            r == Self::spec_parse(*v),
    {
        match v {
            Value::Dict(d) => match d.get("topic") {
                Some(Value::String(s)) => Some(
                    EventDetails { topic: Some(URI { uri: s.clone() }) },
                ),
                Some(_) => None,
                None => Some(EventDetails { topic: None }),
            },
            _ => None,
        }
    }
}

impl InvocationDetails {
    /// Details without a concrete procedure.
    pub fn new() -> (r: InvocationDetails)
        ensures
            r.procedure is None,
    {
        InvocationDetails { procedure: None }
    }

    /// The dictionary wire form: empty, or one entry with the procedure.
    pub open spec fn wire_matches(self, v: Value) -> bool {
        v matches Value::Dict(d) && match self.procedure {
            Some(p) => d@.len() == 1 && d@[0].0@ == "procedure"@ && d@[0].1 == Value::String(
                p.uri,
            ),
            None => d@.len() == 0,
        }
    }

    /// Writes the details as a dictionary value.
    pub fn to_wire(self) -> (v: Value)
        ensures
            self.wire_matches(v),
    {
        let mut d = Dict::new();
        match self.procedure {
            Some(p) => {
                d.insert("procedure".to_owned(), Value::String(p.uri));
            },
            None => {},
        }
        Value::Dict(d)
    }

    /// The details read from a wire value.
    pub open spec fn spec_parse(v: Value) -> Option<InvocationDetails> {
        match v {
            Value::Dict(d) => match spec_dict_get(d@, "procedure"@) {
                Some(pv) => match pv {
                    Value::String(s) => Some(
                        InvocationDetails { procedure: Some(URI { uri: s }) },
                    ),
                    _ => None,
                },
                None => Some(InvocationDetails { procedure: None }),
            },
            _ => None,
        }
    }

    /// Reads details from a wire value.
    pub fn parse(v: &Value) -> (r: Option<InvocationDetails>)
        ensures
            r == Self::spec_parse(*v),
    {
        match v {
            Value::Dict(d) => match d.get("procedure") {
                Some(Value::String(s)) => Some(
                    InvocationDetails { procedure: Some(URI { uri: s.clone() }) },
                ),
                Some(_) => None,
                None => Some(InvocationDetails { procedure: None }),
            },
            _ => None,
        }
    }
}

impl ResultDetails {
    /// Empty details.
    pub fn new() -> (r: ResultDetails) {
        ResultDetails {}
    }

    /// The dictionary wire form: an empty dictionary.
    pub open spec fn wire_matches(self, v: Value) -> bool {
        v matches Value::Dict(d) && d@.len() == 0
    }

    /// Writes the details as an empty dictionary value.
    pub fn to_wire(self) -> (v: Value)
        ensures
            self.wire_matches(v),
    {
        Value::Dict(Dict::new())
    }

    /// The details read from a wire value: any dictionary is accepted.
    pub open spec fn spec_parse(v: Value) -> Option<ResultDetails> {
        if v is Dict {
            Some(ResultDetails {})
        } else {
            None
        }
    }

    /// Reads details from a wire value.
    pub fn parse(v: &Value) -> (r: Option<ResultDetails>)
        ensures
            r == Self::spec_parse(*v),
    {
        match v {
            Value::Dict(_) => Some(ResultDetails {}),
            _ => None,
        }
    }
}

} // verus!
