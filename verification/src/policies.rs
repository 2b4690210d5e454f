//! The matching policies of URI patterns and the invocation policies of
//! shared registrations.
use vstd::prelude::*;

use crate::strutil::str_eq;

verus! {

/// Whether a flag is off; used when writing option records, whose flags are
/// omitted from the wire form while they are off.
pub fn is_not(b: &bool) -> (r: bool)
    ensures
        r == !*b,
{
    !*b
}

/// How a URI pattern matches concrete URIs.
#[derive(PartialEq, Eq, Structural, Debug, Clone, Copy)]
pub enum MatchingPolicy {
    /// The pattern matches any URI that has it as a prefix.
    Prefix,
    /// The pattern holds at least one empty segment, which matches any
    /// single segment in its place.
    Wildcard,
    /// The pattern matches only the identical URI.
    Strict,
}

/// How the router picks a callee among several registered under one pattern.
#[derive(PartialEq, Eq, Structural, Debug, Clone, Copy)]
pub enum InvocationPolicy {
    /// Only one registration per pattern; the default.
    Single,
    /// Callees take turns in registration order.
    RoundRobin,
    /// A callee is drawn at random.
    Random,
    /// The first registered callee is called.
    First,
    /// The last registered callee is called.
    Last,
}

impl MatchingPolicy {
    /// Whether this is the strict policy, which the wire form leaves out.
    pub fn is_strict(&self) -> (r: bool)
        ensures
            r == (self == MatchingPolicy::Strict),
    {
        *self == MatchingPolicy::Strict
    }

    /// The wire text of the policy; strict serialises as the empty string.
    pub open spec fn spec_text(&self) -> Seq<char> {
        match self {
            MatchingPolicy::Prefix => "prefix"@,
            MatchingPolicy::Wildcard => "wildcard"@,
            MatchingPolicy::Strict => ""@,
        }
    }

    /// Writes the policy as its wire text.
    pub fn to_text(&self) -> (r: &str)
        ensures
            r@ == self.spec_text(),
    {
        match self {
            MatchingPolicy::Prefix => "prefix",
            MatchingPolicy::Wildcard => "wildcard",
            MatchingPolicy::Strict => "",
        }
    }

    /// The policy named by the given wire text, if any; the strict policy is
    /// never named, it stands for the absent option.
    pub open spec fn spec_of_text(t: Seq<char>) -> Option<MatchingPolicy> {
        if t == "prefix"@ {
            Some(MatchingPolicy::Prefix)
        } else if t == "wildcard"@ {
            Some(MatchingPolicy::Wildcard)
        } else {
            None
        }
    }

    /// Reads a policy from its wire text; unknown text is refused.
    pub fn from_text(t: &str) -> (r: Option<MatchingPolicy>)
        ensures
            r == MatchingPolicy::spec_of_text(t@),
    {
        if str_eq(t, "prefix") {
            Some(MatchingPolicy::Prefix)
        } else if str_eq(t, "wildcard") {
            Some(MatchingPolicy::Wildcard)
        } else {
            None
        }
    }
}

impl InvocationPolicy {
    /// Whether this is the single policy, which the wire form leaves out.
    pub fn is_single(&self) -> (r: bool)
        ensures
            r == (self == InvocationPolicy::Single),
    {
        *self == InvocationPolicy::Single
    }

    /// The wire text of the policy.
    pub open spec fn spec_text(&self) -> Seq<char> {
        match self {
            InvocationPolicy::Single => "single"@,
            InvocationPolicy::RoundRobin => "roundrobin"@,
            InvocationPolicy::Random => "random"@,
            InvocationPolicy::First => "first"@,
            InvocationPolicy::Last => "last"@,
        }
    }

    /// Writes the policy as its wire text.
    pub fn to_text(&self) -> (r: &str)
        ensures
            r@ == self.spec_text(),
    {
        match self {
            InvocationPolicy::Single => "single",
            InvocationPolicy::RoundRobin => "roundrobin",
            InvocationPolicy::Random => "random",
            InvocationPolicy::First => "first",
            InvocationPolicy::Last => "last",
        }
    }

    /// The policy named by the given wire text, if any.
    pub open spec fn spec_of_text(t: Seq<char>) -> Option<InvocationPolicy> {
        if t == "single"@ {
            Some(InvocationPolicy::Single)
        } else if t == "roundrobin"@ {
            Some(InvocationPolicy::RoundRobin)
        } else if t == "random"@ {
            Some(InvocationPolicy::Random)
        } else if t == "first"@ {
            Some(InvocationPolicy::First)
        } else if t == "last"@ {
            Some(InvocationPolicy::Last)
        } else {
            None
        }
    }

    /// Reads a policy from its wire text; unknown text is refused.
    pub fn from_text(t: &str) -> (r: Option<InvocationPolicy>)
        ensures
            r == InvocationPolicy::spec_of_text(t@),
    {
        if str_eq(t, "single") {
            Some(InvocationPolicy::Single)
        } else if str_eq(t, "roundrobin") {
            Some(InvocationPolicy::RoundRobin)
        } else if str_eq(t, "random") {
            Some(InvocationPolicy::Random)
        } else if str_eq(t, "first") {
            Some(InvocationPolicy::First)
        } else if str_eq(t, "last") {
            Some(InvocationPolicy::Last)
        } else {
            None
        }
    }
}

impl Default for MatchingPolicy {
    /// The default matching policy: strict.
    fn default() -> (r: MatchingPolicy)
        ensures
            r == MatchingPolicy::Strict,
    {
        MatchingPolicy::Strict
    }
}

impl Default for InvocationPolicy {
    /// The default invocation policy: a single callee per pattern.
    fn default() -> (r: InvocationPolicy)
        ensures
            r == InvocationPolicy::Single,
    {
        InvocationPolicy::Single
    }
}

} // verus!
