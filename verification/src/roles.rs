//! The role descriptors exchanged during the handshake: which of the four
//! peer roles a client offers, and the broker and dealer roles of a router,
//! each with its feature flags.
use vstd::prelude::*;

use crate::strutil::str_eq;
use crate::value::{
    dict_get_or, lemma_dict_insert_absent, spec_dict_get, spec_dict_insert, Dict, Value,
};

verus! {

/// Whether every value in an entry sequence is a boolean flag.
pub open spec fn all_flags(s: Seq<(String, Value)>) -> bool {
    forall|i: int| 0 <= i < s.len() ==> s[i].1 is Boolean
}

/// Checks that a dictionary holds only boolean flags.
fn check_all_flags(d: &Dict) -> (r: bool)
    ensures
        r == all_flags(d@),
{
    let src = d.entries();
    let mut i: usize = 0;
    while i < src.len()
        invariant
            0 <= i <= src@.len(),
            src@ == d@,
            forall|j: int| 0 <= j < i ==> d@[j].1 is Boolean,
        decreases src@.len() - i,
    {
        match &src[i].1 {
            Value::Boolean(_) => {},
            _ => {
                return false;
            },
        }
        i = i + 1;
    }
    true
}

/// The publisher role of a client, with free-form boolean feature flags.
#[derive(PartialEq, Debug)]
pub struct PublisherRole {
    /// The advertised feature flags, if any.
    pub features: Option<Dict>,
}

/// The caller role of a client, with free-form boolean feature flags.
#[derive(PartialEq, Debug)]
pub struct CallerRole {
    /// The advertised feature flags, if any.
    pub features: Option<Dict>,
}

/// The callee role of a client, with free-form boolean feature flags.
#[derive(PartialEq, Debug)]
pub struct CalleeRole {
    /// The advertised feature flags, if any.
    pub features: Option<Dict>,
}

/// The features of a subscriber.
#[derive(PartialEq, Eq, Structural, Debug, Clone, Copy)]
pub struct SubscriberFeatures {
    /// Whether the subscriber understands pattern-based subscription.
    pub pattern_based_subscription: bool,
}

/// The subscriber role of a client.
#[derive(PartialEq, Debug, Clone, Copy)]
pub struct SubscriberRole {
    /// The advertised features, if any.
    pub features: Option<SubscriberFeatures>,
}

/// The features of a dealer.
#[derive(PartialEq, Eq, Structural, Debug, Clone, Copy)]
pub struct DealerFeatures {
    /// Whether the dealer understands pattern-based registration.
    pub pattern_based_registration: bool,
}

/// The dealer role of a router.
#[derive(PartialEq, Debug, Clone, Copy)]
pub struct DealerRole {
    /// The advertised features, if any.
    pub features: Option<DealerFeatures>,
}

/// The features of a broker.
#[derive(PartialEq, Eq, Structural, Debug, Clone, Copy)]
pub struct BrokerFeatures {
    /// Whether the broker understands pattern-based subscription.
    pub pattern_based_subscription: bool,
}

/// The broker role of a router.
#[derive(PartialEq, Debug, Clone, Copy)]
pub struct BrokerRole {
    /// The advertised features, if any.
    pub features: Option<BrokerFeatures>,
}

/// The four roles a client announces in its greeting.
#[derive(PartialEq, Debug)]
pub struct ClientRoles {
    /// The publisher role.
    pub publisher: PublisherRole,
    /// The subscriber role.
    pub subscriber: SubscriberRole,
    /// The caller role.
    pub caller: CallerRole,
    /// The callee role.
    pub callee: CalleeRole,
}

/// The two roles a router announces in its welcome.
#[derive(PartialEq, Debug, Clone, Copy)]
pub struct RouterRoles {
    /// The dealer role.
    pub dealer: DealerRole,
    /// The broker role.
    pub broker: BrokerRole,
}

impl PublisherRole {
    /// The dictionary wire form: empty, or one entry with the flag
    /// dictionary.
    pub open spec fn wire_matches(self, v: Value) -> bool {
        v matches Value::Dict(d) && match self.features {
            Some(f) => d@.len() == 1 && d@[0].0@ == "features"@ && d@[0].1 == Value::Dict(f),
            None => d@.len() == 0,
        }
    }

    /// Writes the role as a dictionary value.
    pub fn to_wire(self) -> (v: Value)
        ensures
            self.wire_matches(v),
    {
        let mut d = Dict::new();
        match self.features {
            Some(f) => {
                d.insert("features".to_owned(), Value::Dict(f));
            },
            None => {},
        }
        Value::Dict(d)
    }

    /// The role read from a wire value: the flag dictionary, where present,
    /// must hold only booleans.
    pub open spec fn spec_parse(v: Value) -> Option<PublisherRole> {
        match v {
            Value::Dict(d) => match spec_dict_get(d@, "features"@) {
                Some(fv) => match fv {
                    Value::Dict(f) => if all_flags(f@) {
                        Some(PublisherRole { features: Some(f) })
                    } else {
                        None
                    },
                    _ => None,
                },
                None => Some(PublisherRole { features: None }),
            },
            _ => None,
        }
    }

    /// Reads the role from a wire value, consuming it.
    pub fn parse(v: Value) -> (r: Option<PublisherRole>)
        ensures
            r == Self::spec_parse(v),
    {
        match v {
            Value::Dict(d) => {
                let ghost orig = d@;
                let mut entries = d.entries;
                let mut features: Option<Value> = None;
                while entries.len() > 0
                    invariant
                        dict_get_or(features, entries@, "features"@) == spec_dict_get(
                            orig,
                            "features"@,
                        ),
                    decreases entries@.len(),
                {
                    let ghost before = entries@;
                    let e = entries.remove(0);
                    proof {
                        assert(before.remove(0) =~= before.skip(1));
                    }
                    if features.is_none() && str_eq(e.0.as_str(), "features") {
                        features = Some(e.1);
                    }
                }
                match features {
                    Some(Value::Dict(f)) => if check_all_flags(&f) {
                        Some(PublisherRole { features: Some(f) })
                    } else {
                        None
                    },
                    Some(_) => None,
                    None => Some(PublisherRole { features: None }),
                }
            },
            _ => None,
        }
    }
}

impl CallerRole {
    /// The dictionary wire form: empty, or one entry with the flag
    /// dictionary.
    pub open spec fn wire_matches(self, v: Value) -> bool {
        v matches Value::Dict(d) && match self.features {
            Some(f) => d@.len() == 1 && d@[0].0@ == "features"@ && d@[0].1 == Value::Dict(f),
            None => d@.len() == 0,
        }
    }

    /// Writes the role as a dictionary value.
    pub fn to_wire(self) -> (v: Value)
        ensures
            self.wire_matches(v),
    {
        let mut d = Dict::new();
        match self.features {
            Some(f) => {
                d.insert("features".to_owned(), Value::Dict(f));
            },
            None => {},
        }
        Value::Dict(d)
    }

    /// The role read from a wire value.
    pub open spec fn spec_parse(v: Value) -> Option<CallerRole> {
        match v {
            Value::Dict(d) => match spec_dict_get(d@, "features"@) {
                Some(fv) => match fv {
                    Value::Dict(f) => if all_flags(f@) {
                        Some(CallerRole { features: Some(f) })
                    } else {
                        None
                    },
                    _ => None,
                },
                None => Some(CallerRole { features: None }),
            },
            _ => None,
        }
    }

    /// Reads the role from a wire value, consuming it.
    pub fn parse(v: Value) -> (r: Option<CallerRole>)
        ensures
            r == Self::spec_parse(v),
    {
        match v {
            Value::Dict(d) => {
                let ghost orig = d@;
                let mut entries = d.entries;
                let mut features: Option<Value> = None;
                while entries.len() > 0
                    invariant
                        dict_get_or(features, entries@, "features"@) == spec_dict_get(
                            orig,
                            "features"@,
                        ),
                    decreases entries@.len(),
                {
                    let ghost before = entries@;
                    let e = entries.remove(0);
                    proof {
                        assert(before.remove(0) =~= before.skip(1));
                    }
                    if features.is_none() && str_eq(e.0.as_str(), "features") {
                        features = Some(e.1);
                    }
                }
                match features {
                    Some(Value::Dict(f)) => if check_all_flags(&f) {
                        Some(CallerRole { features: Some(f) })
                    } else {
                        None
                    },
                    Some(_) => None,
                    None => Some(CallerRole { features: None }),
                }
            },
            _ => None,
        }
    }
}

impl CalleeRole {
    /// The dictionary wire form: empty, or one entry with the flag
    /// dictionary.
    pub open spec fn wire_matches(self, v: Value) -> bool {
        v matches Value::Dict(d) && match self.features {
            Some(f) => d@.len() == 1 && d@[0].0@ == "features"@ && d@[0].1 == Value::Dict(f),
            None => d@.len() == 0,
        }
    }

    /// Writes the role as a dictionary value.
    pub fn to_wire(self) -> (v: Value)
        ensures
            self.wire_matches(v),
    {
        let mut d = Dict::new();
        match self.features {
            Some(f) => {
                d.insert("features".to_owned(), Value::Dict(f));
            },
            None => {},
        }
        Value::Dict(d)
    }

    /// The role read from a wire value.
    pub open spec fn spec_parse(v: Value) -> Option<CalleeRole> {
        match v {
            Value::Dict(d) => match spec_dict_get(d@, "features"@) {
                Some(fv) => match fv {
                    Value::Dict(f) => if all_flags(f@) {
                        Some(CalleeRole { features: Some(f) })
                    } else {
                        None
                    },
                    _ => None,
                },
                None => Some(CalleeRole { features: None }),
            },
            _ => None,
        }
    }

    /// Reads the role from a wire value, consuming it.
    pub fn parse(v: Value) -> (r: Option<CalleeRole>)
        ensures
            r == Self::spec_parse(v),
    {
        match v {
            Value::Dict(d) => {
                let ghost orig = d@;
                let mut entries = d.entries;
                let mut features: Option<Value> = None;
                while entries.len() > 0
                    invariant
                        dict_get_or(features, entries@, "features"@) == spec_dict_get(
                            orig,
                            "features"@,
                        ),
                    decreases entries@.len(),
                {
                    let ghost before = entries@;
                    let e = entries.remove(0);
                    proof {
                        assert(before.remove(0) =~= before.skip(1));
                    }
                    if features.is_none() && str_eq(e.0.as_str(), "features") {
                        features = Some(e.1);
                    }
                }
                match features {
                    Some(Value::Dict(f)) => if check_all_flags(&f) {
                        Some(CalleeRole { features: Some(f) })
                    } else {
                        None
                    },
                    Some(_) => None,
                    None => Some(CalleeRole { features: None }),
                }
            },
            _ => None,
        }
    }
}

impl SubscriberRole {
    /// The wire form of the feature record: empty while the flag is off,
    /// else one boolean entry.
    pub open spec fn features_wire_matches(f: SubscriberFeatures, v: Value) -> bool {
        v matches Value::Dict(d) && if f.pattern_based_subscription {
            d@.len() == 1 && d@[0].0@ == "pattern_based_subscription"@ && d@[0].1 == Value::Boolean(
                true,
            )
        } else {
            d@.len() == 0
        }
    }

    /// The dictionary wire form: empty, or one entry with the features.
    pub open spec fn wire_matches(self, v: Value) -> bool {
        v matches Value::Dict(d) && match self.features {
            Some(f) => d@.len() == 1 && d@[0].0@ == "features"@
                && SubscriberRole::features_wire_matches(f, d@[0].1),
            None => d@.len() == 0,
        }
    }

    /// Writes the role as a dictionary value.
    pub fn to_wire(self) -> (v: Value)
        ensures
            self.wire_matches(v),
    {
        let mut d = Dict::new();
        match self.features {
            Some(f) => {
                let mut fd = Dict::new();
                if f.pattern_based_subscription {
                    fd.insert("pattern_based_subscription".to_owned(), Value::Boolean(true));
                }
                d.insert("features".to_owned(), Value::Dict(fd));
            },
            None => {},
        }
        Value::Dict(d)
    }

    /// The role read from a wire value: the flag defaults to off.
    pub open spec fn spec_parse(v: Value) -> Option<SubscriberRole> {
        match v {
            Value::Dict(d) => match spec_dict_get(d@, "features"@) {
                Some(fv) => match fv {
                    Value::Dict(f) => match spec_dict_get(f@, "pattern_based_subscription"@) {
                        Some(bv) => match bv {
                            Value::Boolean(b) => Some(
                                SubscriberRole { features: Some(SubscriberFeatures { pattern_based_subscription: b }) },
                            ),
                            _ => None,
                        },
                        None => Some(
                            SubscriberRole { features: Some(SubscriberFeatures { pattern_based_subscription: false }) },
                        ),
                    },
                    _ => None,
                },
                None => Some(SubscriberRole { features: None }),
            },
            _ => None,
        }
    }

    /// Reads the role from a wire value.
    pub fn parse(v: &Value) -> (r: Option<SubscriberRole>)
        ensures
            r == Self::spec_parse(*v),
    {
        match v {
            Value::Dict(d) => match d.get("features") {
                Some(Value::Dict(f)) => match f.get("pattern_based_subscription") {
                    Some(Value::Boolean(b)) => Some(
                        SubscriberRole {
                            features: Some(SubscriberFeatures { pattern_based_subscription: *b }),
                        },
                    ),
                    Some(_) => None,
                    None => Some(
                        SubscriberRole {
                            features: Some(
                                SubscriberFeatures { pattern_based_subscription: false },
                            ),
                        },
                    ),
                },
                Some(_) => None,
                None => Some(SubscriberRole { features: None }),
            },
            _ => None,
        }
    }
}

impl DealerRole {
    /// The wire form of the feature record: empty while the flag is off,
    /// else one boolean entry.
    pub open spec fn features_wire_matches(f: DealerFeatures, v: Value) -> bool {
        v matches Value::Dict(d) && if f.pattern_based_registration {
            d@.len() == 1 && d@[0].0@ == "pattern_based_registration"@ && d@[0].1 == Value::Boolean(
                true,
            )
        } else {
            d@.len() == 0
        }
    }

    /// The dictionary wire form: empty, or one entry with the features.
    pub open spec fn wire_matches(self, v: Value) -> bool {
        v matches Value::Dict(d) && match self.features {
            Some(f) => d@.len() == 1 && d@[0].0@ == "features"@
                && DealerRole::features_wire_matches(f, d@[0].1),
            None => d@.len() == 0,
        }
    }

    /// Writes the role as a dictionary value.
    pub fn to_wire(self) -> (v: Value)
        ensures
            self.wire_matches(v),
    {
        let mut d = Dict::new();
        match self.features {
            Some(f) => {
                let mut fd = Dict::new();
                if f.pattern_based_registration {
                    fd.insert("pattern_based_registration".to_owned(), Value::Boolean(true));
                }
                d.insert("features".to_owned(), Value::Dict(fd));
            },
            None => {},
        }
        Value::Dict(d)
    }

    /// The role read from a wire value: the flag defaults to off.
    pub open spec fn spec_parse(v: Value) -> Option<DealerRole> {
        match v {
            Value::Dict(d) => match spec_dict_get(d@, "features"@) {
                Some(fv) => match fv {
                    Value::Dict(f) => match spec_dict_get(f@, "pattern_based_registration"@) {
                        Some(bv) => match bv {
                            Value::Boolean(b) => Some(
                                DealerRole { features: Some(DealerFeatures { pattern_based_registration: b }) },
                            ),
                            _ => None,
                        },
                        None => Some(
                            DealerRole { features: Some(DealerFeatures { pattern_based_registration: false }) },
                        ),
                    },
                    _ => None,
                },
                None => Some(DealerRole { features: None }),
            },
            _ => None,
        }
    }

    /// Reads the role from a wire value.
    pub fn parse(v: &Value) -> (r: Option<DealerRole>)
        ensures
            r == Self::spec_parse(*v),
    {
        match v {
            Value::Dict(d) => match d.get("features") {
                Some(Value::Dict(f)) => match f.get("pattern_based_registration") {
                    Some(Value::Boolean(b)) => Some(
                        DealerRole {
                            features: Some(DealerFeatures { pattern_based_registration: *b }),
                        },
                    ),
                    Some(_) => None,
                    None => Some(
                        DealerRole {
                            features: Some(DealerFeatures { pattern_based_registration: false }),
                        },
                    ),
                },
                Some(_) => None,
                None => Some(DealerRole { features: None }),
            },
            _ => None,
        }
    }
}

impl BrokerRole {
    /// The wire form of the feature record: empty while the flag is off,
    /// else one boolean entry.
    pub open spec fn features_wire_matches(f: BrokerFeatures, v: Value) -> bool {
        v matches Value::Dict(d) && if f.pattern_based_subscription {
            d@.len() == 1 && d@[0].0@ == "pattern_based_subscription"@ && d@[0].1 == Value::Boolean(
                true,
            )
        } else {
            d@.len() == 0
        }
    }

    /// The dictionary wire form: empty, or one entry with the features.
    pub open spec fn wire_matches(self, v: Value) -> bool {
        v matches Value::Dict(d) && match self.features {
            Some(f) => d@.len() == 1 && d@[0].0@ == "features"@
                && BrokerRole::features_wire_matches(f, d@[0].1),
            None => d@.len() == 0,
        }
    }

    /// Writes the role as a dictionary value.
    pub fn to_wire(self) -> (v: Value)
        ensures
            self.wire_matches(v),
    {
        let mut d = Dict::new();
        match self.features {
            Some(f) => {
                let mut fd = Dict::new();
                if f.pattern_based_subscription {
                    fd.insert("pattern_based_subscription".to_owned(), Value::Boolean(true));
                }
                d.insert("features".to_owned(), Value::Dict(fd));
            },
            None => {},
        }
        Value::Dict(d)
    }

    /// The role read from a wire value: the flag defaults to off.
    pub open spec fn spec_parse(v: Value) -> Option<BrokerRole> {
        match v {
            Value::Dict(d) => match spec_dict_get(d@, "features"@) {
                Some(fv) => match fv {
                    Value::Dict(f) => match spec_dict_get(f@, "pattern_based_subscription"@) {
                        Some(bv) => match bv {
                            Value::Boolean(b) => Some(
                                BrokerRole { features: Some(BrokerFeatures { pattern_based_subscription: b }) },
                            ),
                            _ => None,
                        },
                        None => Some(
                            BrokerRole { features: Some(BrokerFeatures { pattern_based_subscription: false }) },
                        ),
                    },
                    _ => None,
                },
                None => Some(BrokerRole { features: None }),
            },
            _ => None,
        }
    }

    /// Reads the role from a wire value.
    pub fn parse(v: &Value) -> (r: Option<BrokerRole>)
        ensures
            r == Self::spec_parse(*v),
    {
        match v {
            Value::Dict(d) => match d.get("features") {
                Some(Value::Dict(f)) => match f.get("pattern_based_subscription") {
                    Some(Value::Boolean(b)) => Some(
                        BrokerRole {
                            features: Some(BrokerFeatures { pattern_based_subscription: *b }),
                        },
                    ),
                    Some(_) => None,
                    None => Some(
                        BrokerRole {
                            features: Some(BrokerFeatures { pattern_based_subscription: false }),
                        },
                    ),
                },
                Some(_) => None,
                None => Some(BrokerRole { features: None }),
            },
            _ => None,
        }
    }
}

impl RouterRoles {
    /// Roles advertising pattern-based registration and subscription.
    pub fn new() -> (r: RouterRoles)
        ensures
            r.broker.features == Some(BrokerFeatures { pattern_based_subscription: true }),
            r.dealer.features == Some(DealerFeatures { pattern_based_registration: true }),
    {
        RouterRoles {
            broker: BrokerRole {
                features: Some(BrokerFeatures { pattern_based_subscription: true }),
            },
            dealer: DealerRole {
                features: Some(DealerFeatures { pattern_based_registration: true }),
            },
        }
    }

    /// Roles advertising no features.
    pub fn new_basic() -> (r: RouterRoles)
        ensures
            r.broker.features is None,
            r.dealer.features is None,
    {
        RouterRoles { broker: BrokerRole { features: None }, dealer: DealerRole { features: None } }
    }

    /// The dictionary wire form: the dealer role, followed by the broker
    /// role.
    pub open spec fn wire_matches(self, v: Value) -> bool {
        v matches Value::Dict(d) && {
            &&& d@.len() == 2
            &&& d@[0].0@ == "dealer"@
            &&& self.dealer.wire_matches(d@[0].1)
            &&& d@[1].0@ == "broker"@
            &&& self.broker.wire_matches(d@[1].1)
        }
    }

    /// Writes the roles as a dictionary value.
    pub fn to_wire(self) -> (v: Value)
        ensures
            self.wire_matches(v),
    {
        let ghost g = self;
        let mut d = Dict::new();
        proof {
            reveal_strlit("dealer");
            reveal_strlit("broker");
            assert("dealer"@[0] == 'd');
            assert("broker"@[0] == 'b');
        }
        d.insert("dealer".to_owned(), self.dealer.to_wire());
        assert(d@.len() == 1 && d@[0].0@ == "dealer"@);
        let k = "broker".to_owned();
        let bv = self.broker.to_wire();
        proof {
            lemma_dict_insert_absent(d@, k, bv);
        }
        d.insert(k, bv);
        proof {
            assert(g.wire_matches(Value::Dict(d)));
        }
        Value::Dict(d)
    }

    /// The roles read from a wire value: both keys must be present.
    pub open spec fn spec_parse(v: Value) -> Option<RouterRoles> {
        match v {
            Value::Dict(d) => {
                let dealer = match spec_dict_get(d@, "dealer"@) {
                    Some(dv) => DealerRole::spec_parse(dv),
                    None => None,
                };
                let broker = match spec_dict_get(d@, "broker"@) {
                    Some(bv) => BrokerRole::spec_parse(bv),
                    None => None,
                };
                match dealer {
                    Some(dr) => match broker {
                        Some(br) => Some(RouterRoles { dealer: dr, broker: br }),
                        None => None,
                    },
                    None => None,
                }
            },
            _ => None,
        }
    }

    /// Reads the roles from a wire value.
    pub fn parse(v: &Value) -> (r: Option<RouterRoles>)
        ensures
            r == Self::spec_parse(*v),
    {
        match v {
            Value::Dict(d) => {
                let dealer = match d.get("dealer") {
                    Some(dv) => match DealerRole::parse(dv) {
                        Some(dr) => dr,
                        None => {
                            return None;
                        },
                    },
                    None => {
                        return None;
                    },
                };
                let broker = match d.get("broker") {
                    Some(bv) => match BrokerRole::parse(bv) {
                        Some(br) => br,
                        None => {
                            return None;
                        },
                    },
                    None => {
                        return None;
                    },
                };
                Some(RouterRoles { dealer, broker })
            },
            _ => None,
        }
    }
}

impl ClientRoles {
    /// Roles advertising pattern-based subscription.
    pub fn new() -> (r: ClientRoles)
        ensures
            r.publisher.features matches Some(f) && f@.len() == 0,
            r.subscriber.features == Some(SubscriberFeatures { pattern_based_subscription: true }),
            r.caller.features matches Some(f) && f@.len() == 0,
            r.callee.features matches Some(f) && f@.len() == 0,
    {
        ClientRoles {
            publisher: PublisherRole { features: Some(Dict::new()) },
            subscriber: SubscriberRole {
                features: Some(SubscriberFeatures { pattern_based_subscription: true }),
            },
            caller: CallerRole { features: Some(Dict::new()) },
            callee: CalleeRole { features: Some(Dict::new()) },
        }
    }

    /// Roles advertising no features.
    pub fn new_basic() -> (r: ClientRoles)
        ensures
            r.publisher.features matches Some(f) && f@.len() == 0,
            r.subscriber.features == Some(SubscriberFeatures { pattern_based_subscription: false }),
            r.caller.features matches Some(f) && f@.len() == 0,
            r.callee.features matches Some(f) && f@.len() == 0,
    {
        ClientRoles {
            publisher: PublisherRole { features: Some(Dict::new()) },
            subscriber: SubscriberRole {
                features: Some(SubscriberFeatures { pattern_based_subscription: false }),
            },
            caller: CallerRole { features: Some(Dict::new()) },
            callee: CalleeRole { features: Some(Dict::new()) },
        }
    }

    /// Whether the free-form feature dictionaries hold only boolean flags,
    /// as a reader of the wire form demands.
    pub open spec fn wf(self) -> bool {
        &&& self.publisher.features matches Some(f) ==> all_flags(f@)
        &&& self.caller.features matches Some(f) ==> all_flags(f@)
        &&& self.callee.features matches Some(f) ==> all_flags(f@)
    }

    /// The dictionary wire form: publisher, subscriber, caller and callee
    /// roles, in that order.
    pub open spec fn wire_matches(self, v: Value) -> bool {
        v matches Value::Dict(d) && {
            &&& d@.len() == 4
            &&& d@[0].0@ == "publisher"@
            &&& self.publisher.wire_matches(d@[0].1)
            &&& d@[1].0@ == "subscriber"@
            &&& self.subscriber.wire_matches(d@[1].1)
            &&& d@[2].0@ == "caller"@
            &&& self.caller.wire_matches(d@[2].1)
            &&& d@[3].0@ == "callee"@
            &&& self.callee.wire_matches(d@[3].1)
        }
    }

    /// Writes the roles as a dictionary value.
    pub fn to_wire(self) -> (v: Value)
        ensures
            self.wire_matches(v),
    {
        let ghost g = self;
        let mut d = Dict::new();
        proof {
            reveal_strlit("publisher");
            reveal_strlit("subscriber");
            reveal_strlit("caller");
            reveal_strlit("callee");
            assert("caller"@[4] == 'e');
            assert("callee"@[4] == 'e');
            assert("caller"@[5] == 'r');
            assert("callee"@[5] == 'e');
        }
        d.insert("publisher".to_owned(), self.publisher.to_wire());
        assert(d@.len() == 1 && d@[0].0@ == "publisher"@);
        let k1 = "subscriber".to_owned();
        let sv = self.subscriber.to_wire();
        proof {
            lemma_dict_insert_absent(d@, k1, sv);
        }
        d.insert(k1, sv);
        assert(d@.len() == 2 && d@[0].0@ == "publisher"@ && d@[1].0@ == "subscriber"@);
        let k2 = "caller".to_owned();
        let crv = self.caller.to_wire();
        proof {
            lemma_dict_insert_absent(d@, k2, crv);
        }
        d.insert(k2, crv);
        assert(d@.len() == 3 && d@[0].0@ == "publisher"@ && d@[1].0@ == "subscriber"@ && d@[2].0@
            == "caller"@);
        let k3 = "callee".to_owned();
        let cev = self.callee.to_wire();
        proof {
            lemma_dict_insert_absent(d@, k3, cev);
        }
        d.insert(k3, cev);
        proof {
            assert(g.wire_matches(Value::Dict(d)));
        }
        Value::Dict(d)
    }

    /// The roles read from a wire value: all four keys must be present.
    pub open spec fn spec_parse(v: Value) -> Option<ClientRoles> {
        match v {
            Value::Dict(d) => {
                let publisher = match spec_dict_get(d@, "publisher"@) {
                    Some(pv) => PublisherRole::spec_parse(pv),
                    None => None,
                };
                let subscriber = match spec_dict_get(d@, "subscriber"@) {
                    Some(sv) => SubscriberRole::spec_parse(sv),
                    None => None,
                };
                let caller = match spec_dict_get(d@, "caller"@) {
                    Some(cv) => CallerRole::spec_parse(cv),
                    None => None,
                };
                let callee = match spec_dict_get(d@, "callee"@) {
                    Some(cv) => CalleeRole::spec_parse(cv),
                    None => None,
                };
                match publisher {
                    Some(p) => match subscriber {
                        Some(s) => match caller {
                            Some(cr) => match callee {
                                Some(ce) => Some(
                                    ClientRoles {
                                        publisher: p,
                                        subscriber: s,
                                        caller: cr,
                                        callee: ce,
                                    },
                                ),
                                None => None,
                            },
                            None => None,
                        },
                        None => None,
                    },
                    None => None,
                }
            },
            _ => None,
        }
    }

    /// Reads the roles from a wire value, consuming it.
    pub fn parse(v: Value) -> (r: Option<ClientRoles>)
        ensures
            r == Self::spec_parse(v),
    {
        match v {
            Value::Dict(d) => {
                let ghost orig = d@;
                let mut entries = d.entries;
                let mut publisher_v: Option<Value> = None;
                let mut subscriber_v: Option<Value> = None;
                let mut caller_v: Option<Value> = None;
                let mut callee_v: Option<Value> = None;
                while entries.len() > 0
                    invariant
                        dict_get_or(publisher_v, entries@, "publisher"@) == spec_dict_get(
                            orig,
                            "publisher"@,
                        ),
                        dict_get_or(subscriber_v, entries@, "subscriber"@) == spec_dict_get(
                            orig,
                            "subscriber"@,
                        ),
                        dict_get_or(caller_v, entries@, "caller"@) == spec_dict_get(
                            orig,
                            "caller"@,
                        ),
                        dict_get_or(callee_v, entries@, "callee"@) == spec_dict_get(
                            orig,
                            "callee"@,
                        ),
                    decreases entries@.len(),
                {
                    let ghost before = entries@;
                    let e = entries.remove(0);
                    proof {
                        reveal_strlit("publisher");
                        reveal_strlit("subscriber");
                        reveal_strlit("caller");
                        reveal_strlit("callee");
                        assert("publisher"@[0] == 'p' && "subscriber"@[0] == 's' && "caller"@[0]
                            == 'c' && "callee"@[0] == 'c');
                        assert("caller"@[5] == 'r' && "callee"@[5] == 'e');
                        assert("publisher"@ != "subscriber"@ && "publisher"@ != "caller"@
                            && "publisher"@ != "callee"@ && "subscriber"@ != "caller"@
                            && "subscriber"@ != "callee"@ && "caller"@ != "callee"@);
                        assert(before.remove(0) =~= before.skip(1));
                    }
                    let is_publisher = str_eq(e.0.as_str(), "publisher");
                    let is_subscriber = str_eq(e.0.as_str(), "subscriber");
                    let is_caller = str_eq(e.0.as_str(), "caller");
                    let is_callee = str_eq(e.0.as_str(), "callee");
                    if publisher_v.is_none() && is_publisher {
                        publisher_v = Some(e.1);
                    } else if subscriber_v.is_none() && is_subscriber {
                        subscriber_v = Some(e.1);
                    } else if caller_v.is_none() && is_caller {
                        caller_v = Some(e.1);
                    } else if callee_v.is_none() && is_callee {
                        callee_v = Some(e.1);
                    }
                }
                let publisher = match publisher_v {
                    Some(pv) => match PublisherRole::parse(pv) {
                        Some(p) => p,
                        None => {
                            return None;
                        },
                    },
                    None => {
                        return None;
                    },
                };
                let subscriber = match subscriber_v {
                    Some(sv) => match SubscriberRole::parse(&sv) {
                        Some(s) => s,
                        None => {
                            return None;
                        },
                    },
                    None => {
                        return None;
                    },
                };
                let caller = match caller_v {
                    Some(cv) => match CallerRole::parse(cv) {
                        Some(c) => c,
                        None => {
                            return None;
                        },
                    },
                    None => {
                        return None;
                    },
                };
                let callee = match callee_v {
                    Some(cv) => match CalleeRole::parse(cv) {
                        Some(c) => c,
                        None => {
                            return None;
                        },
                    },
                    None => {
                        return None;
                    },
                };
                Some(ClientRoles { publisher, subscriber, caller, callee })
            },
            _ => None,
        }
    }
}

} // verus!
