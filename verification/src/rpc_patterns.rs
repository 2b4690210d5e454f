//! The trie that indexes procedure registrations.  It shares its shape with
//! the subscription trie, but a node's entries live in a collection that
//! enforces the shared-registration rule: a pattern's first registrant fixes
//! the invocation policy, and further registrants are admitted only when
//! they name the same policy and that policy allows sharing.
use vstd::prelude::*;

use crate::errors::Reason;
use crate::ids::{random_id, random_index};
use crate::patterns::{
    check_pattern, seg_eq, segments_view, split_uri, uri_segments, valid_pattern, PatternData,
    PatternError,
};
use crate::policies::{InvocationPolicy, MatchingPolicy};
use crate::value::URI;
use crate::ID;

verus! {

/// A registrant together with the matching policy of its pattern.
pub struct DataWrapper<P> {
    /// The callee.
    pub registrant: P,
    /// How the pattern it registered with matches URIs.
    pub policy: MatchingPolicy,
}

/// The callees registered under one pattern, with the invocation policy
/// they share and the cursor of the round-robin policy.
pub struct ProcdureCollection<P> {
    /// The policy fixed by the first registrant.
    pub invocation_policy: InvocationPolicy,
    /// Which callee the round-robin policy picks next.
    pub round_robin_counter: usize,
    /// The callees, in registration order.
    pub procedures: Vec<DataWrapper<P>>,
}

/// One labelled branch of a trie node.
pub struct Edge<P> {
    /// The URI segment this branch consumes.
    pub segment: Vec<char>,
    /// The subtree under that segment.
    pub child: RegistrationPatternNode<P>,
}

/// A node of the registration trie; the root represents the empty pattern.
pub struct RegistrationPatternNode<P> {
    /// The branches, one per distinct next segment.
    pub edges: Vec<Edge<P>>,
    /// Callees of exact (strict or wildcard) patterns ending here.
    pub connections: ProcdureCollection<P>,
    /// Callees of prefix patterns ending here.
    pub prefix_connections: ProcdureCollection<P>,
    /// The registration identifier for exact patterns ending here.
    pub id: ID,
    /// The registration identifier for prefix patterns ending here.
    pub prefix_id: ID,
}

/// The first branch consuming `seg`, as an index.
pub open spec fn edge_index<P>(s: Seq<Edge<P>>, seg: Seq<char>) -> Option<int>
    decreases s.len(),
{
    if s.len() == 0 {
        None
    } else if s[0].segment@ == seg {
        Some(0)
    } else {
        match edge_index(s.skip(1), seg) {
            Some(i) => Some(i + 1),
            None => None,
        }
    }
}

/// The first branch consuming `seg` holds it, and no earlier branch does.
pub proof fn lemma_edge_index_char<P>(s: Seq<Edge<P>>, seg: Seq<char>)
    ensures
        match edge_index(s, seg) {
            Some(k) => 0 <= k < s.len() && s[k].segment@ == seg && forall|j: int|
                0 <= j < k ==> s[j].segment@ != seg,
            None => forall|j: int| 0 <= j < s.len() ==> s[j].segment@ != seg,
        },
    decreases s.len(),
{
    if s.len() == 0 {
    } else if s[0].segment@ == seg {
    } else {
        lemma_edge_index_char(s.skip(1), seg);
        assert(forall|j: int| 0 <= j < s.skip(1).len() ==> s.skip(1)[j] == s[j + 1]);
        assert(forall|j: int| 1 <= j < s.len() ==> s[j] == s.skip(1)[j - 1]);
    }
}

/// A branch list where `seg` sits first at `k` has `k` as its index.
pub proof fn lemma_edge_index_of<P>(s: Seq<Edge<P>>, seg: Seq<char>, k: int)
    requires
        0 <= k < s.len(),
        s[k].segment@ == seg,
        forall|j: int| 0 <= j < k ==> s[j].segment@ != seg,
    ensures
        edge_index(s, seg) == Some(k),
    decreases k,
{
    if k == 0 {
    } else {
        assert(forall|j: int| 0 <= j < s.skip(1).len() ==> s.skip(1)[j] == s[j + 1]);
        lemma_edge_index_of(s.skip(1), seg, k - 1);
    }
}

impl<P> ProcdureCollection<P> {
    /// Whether a new registrant naming `invocation_policy` may join: the
    /// collection is empty, or the policy matches the stored one and allows
    /// sharing.
    pub open spec fn admits(self, invocation_policy: InvocationPolicy) -> bool {
        self.procedures@.len() == 0 || (invocation_policy == self.invocation_policy
            && invocation_policy != InvocationPolicy::Single)
    }
}

impl<P: PatternData> ProcdureCollection<P> {
    /// Adds a callee under the shared-registration rule: it joins only an
    /// empty collection or one whose policy it repeats, where that policy
    /// is not the single policy.
    pub fn add_procedure(
        &mut self,
        registrant: P,
        matching_policy: MatchingPolicy,
        invocation_policy: InvocationPolicy,
    ) -> (r: Result<(), PatternError>)
        ensures
            match r {
                Ok(()) => {
                    &&& (*old(self)).admits(invocation_policy)
                    &&& final(self).procedures@ == old(self).procedures@.push(
                        DataWrapper { registrant, policy: matching_policy },
                    )
                    &&& final(self).invocation_policy == invocation_policy
                    &&& final(self).round_robin_counter == old(self).round_robin_counter
                },
                Err(e) => {
                    &&& e.reason == Reason::ProcedureAlreadyExists
                    &&& !(*old(self)).admits(invocation_policy)
                    &&& *final(self) == *old(self)
                },
            },
    {
        if self.procedures.len() == 0 || (invocation_policy == self.invocation_policy
            && invocation_policy != InvocationPolicy::Single) {
            self.procedures.push(DataWrapper { registrant, policy: matching_policy });
            self.invocation_policy = invocation_policy;
            Ok(())
        } else {
            Err(PatternError::new(Reason::ProcedureAlreadyExists))
        }
    }

    /// Drops every entry of one callee.
    pub fn remove_procedure(&mut self, registrant_id: ID)
        ensures
            final(self).procedures@ == drop_entries(old(self).procedures@, registrant_id),
            final(self).invocation_policy == old(self).invocation_policy,
            final(self).round_robin_counter == old(self).round_robin_counter,
    {
        drop_matching_entries(&mut self.procedures, registrant_id);
    }

    /// Which entry the round-robin cursor names next: the cursor itself, or
    /// the first entry once the cursor has run past the end.
    pub open spec fn round_robin_pick(self) -> int {
        if self.round_robin_counter >= self.procedures@.len() {
            0
        } else {
            self.round_robin_counter as int
        }
    }

    /// Picks a callee by the stored invocation policy: the first for the
    /// single and first policies, the last for the last policy, the one
    /// under the cursor for round robin — which then advances by one, so
    /// successive picks take the callees in registration order and wrap to
    /// the first — and any one at random.  An empty collection yields none.
    pub fn get_entry(&mut self) -> (r: Option<(P, MatchingPolicy)>) where P: Copy
        ensures
            final(self).procedures@ == old(self).procedures@,
            final(self).invocation_policy == old(self).invocation_policy,
            old(self).invocation_policy != InvocationPolicy::RoundRobin
                ==> final(self).round_robin_counter == old(self).round_robin_counter,
            match r {
                None => old(self).procedures@.len() == 0 && *final(self) == *old(self),
                Some((p, pol)) => {
                    &&& exists|i: int|
                        0 <= i < old(self).procedures@.len() && old(self).procedures@[i]
                            == (DataWrapper { registrant: p, policy: pol })
                    &&& (old(self).invocation_policy == InvocationPolicy::Single || old(
                        self,
                    ).invocation_policy == InvocationPolicy::First ==> old(self).procedures@[0]
                        == (DataWrapper { registrant: p, policy: pol }))
                    &&& (old(self).invocation_policy == InvocationPolicy::Last ==> old(
                        self,
                    ).procedures@.last() == (DataWrapper { registrant: p, policy: pol }))
                    &&& (old(self).invocation_policy == InvocationPolicy::RoundRobin ==> old(
                        self,
                    ).procedures@[old(self).round_robin_pick()] == (DataWrapper {
                        registrant: p,
                        policy: pol,
                    }) && final(self).round_robin_counter == old(self).round_robin_pick() + 1)
                },
            },
    {
        if self.procedures.len() == 0 {
            return None;
        }
        match self.invocation_policy {
            InvocationPolicy::Single | InvocationPolicy::First => {
                let w = &self.procedures[0];
                Some((w.registrant, w.policy))
            },
            InvocationPolicy::Last => {
                let w = &self.procedures[self.procedures.len() - 1];
                Some((w.registrant, w.policy))
            },
            InvocationPolicy::Random => {
                let i = random_index(self.procedures.len());
                let w = &self.procedures[i];
                Some((w.registrant, w.policy))
            },
            InvocationPolicy::RoundRobin => {
                if self.round_robin_counter >= self.procedures.len() {
                    self.round_robin_counter = 0;
                }
                let i = self.round_robin_counter;
                let w = (self.procedures[i].registrant, self.procedures[i].policy);
                self.round_robin_counter = i + 1;
                Some(w)
            },
        }
    }
}

/// The entry list after dropping every entry of one callee.
pub open spec fn drop_entries<P: PatternData>(s: Seq<DataWrapper<P>>, registrant_id: ID) -> Seq<
    DataWrapper<P>,
>
    decreases s.len(),
{
    if s.len() == 0 {
        s
    } else if s[0].registrant.spec_id() == registrant_id {
        drop_entries(s.skip(1), registrant_id)
    } else {
        seq![s[0]] + drop_entries(s.skip(1), registrant_id)
    }
}

fn drop_matching_entries<P: PatternData>(list: &mut Vec<DataWrapper<P>>, registrant_id: ID)
    ensures
        final(list)@ == drop_entries(old(list)@, registrant_id),
{
    let ghost orig = list@;
    let mut i: usize = 0;
    proof {
        assert(list@.skip(0) =~= orig);
        assert(list@.take(0) + drop_entries(orig, registrant_id) =~= drop_entries(
            orig,
            registrant_id,
        ));
    }
    while i < list.len()
        invariant
            0 <= i <= list@.len(),
            forall|j: int| 0 <= j < i ==> list@[j].registrant.spec_id() != registrant_id,
            drop_entries(orig, registrant_id) == list@.take(i as int) + drop_entries(
                list@.skip(i as int),
                registrant_id,
            ),
        decreases list@.len() - i,
    {
        let ghost cur = list@;
        if list[i].registrant.get_id() == registrant_id {
            list.remove(i);
            proof {
                assert(list@ =~= cur.remove(i as int));
                assert(cur.skip(i as int).skip(1) =~= list@.skip(i as int));
                assert(cur.skip(i as int)[0] == cur[i as int]);
                assert(list@.take(i as int) =~= cur.take(i as int));
            }
        } else {
            proof {
                assert(cur.skip(i as int)[0] == cur[i as int]);
                assert(cur.skip(i as int).skip(1) =~= cur.skip(i + 1));
                assert(cur.take(i + 1) =~= cur.take(i as int).push(cur[i as int]));
                assert(cur.take(i as int) + (seq![cur[i as int]] + drop_entries(
                    cur.skip(i + 1),
                    registrant_id,
                )) =~= cur.take(i + 1) + drop_entries(cur.skip(i + 1), registrant_id));
            }
            i = i + 1;
        }
    }
    proof {
        assert(list@.skip(i as int) =~= Seq::<DataWrapper<P>>::empty());
        assert(list@.take(i as int) =~= list@);
    }
}

/// Two tries with the same identifiers, entries and branch structure; only
/// the round-robin cursors may differ.
pub open spec fn same_shape<P>(
    a: RegistrationPatternNode<P>,
    b: RegistrationPatternNode<P>,
) -> bool
    decreases a, 1int, 0int,
{
    &&& b.id == a.id
    &&& b.prefix_id == a.prefix_id
    &&& b.connections.procedures@ == a.connections.procedures@
    &&& b.connections.invocation_policy == a.connections.invocation_policy
    &&& b.prefix_connections.procedures@ == a.prefix_connections.procedures@
    &&& b.prefix_connections.invocation_policy == a.prefix_connections.invocation_policy
    &&& b.edges@.len() == a.edges@.len()
    &&& edges_same_shape(a, b, a.edges@.len() as int)
}

/// The first `n` branches of two tries agree: equal segments, children of
/// the same shape.
pub open spec fn edges_same_shape<P>(
    a: RegistrationPatternNode<P>,
    b: RegistrationPatternNode<P>,
    n: int,
) -> bool
    decreases a, 0int, n,
{
    if n <= 0 {
        true
    } else {
        &&& edges_same_shape(a, b, n - 1)
        &&& (n - 1 < a.edges@.len() && a.edges@.len() == b.edges@.len() ==> {
            &&& b.edges@[n - 1].segment@ == a.edges@[n - 1].segment@
            &&& same_shape(a.edges@[n - 1].child, b.edges@[n - 1].child)
        })
    }
}

/// One agreeing branch, extracted from an agreeing range.
pub proof fn lemma_edges_same_shape_extract<P>(
    a: RegistrationPatternNode<P>,
    b: RegistrationPatternNode<P>,
    n: int,
    j: int,
)
    requires
        edges_same_shape(a, b, n),
        0 <= j < n,
        j < a.edges@.len(),
        a.edges@.len() == b.edges@.len(),
    ensures
        b.edges@[j].segment@ == a.edges@[j].segment@,
        same_shape(a.edges@[j].child, b.edges@[j].child),
    decreases n,
{
    if j == n - 1 {
    } else {
        lemma_edges_same_shape_extract(a, b, n - 1, j);
    }
}

/// Every trie shares its shape with itself.
pub proof fn lemma_same_shape_refl<P>(a: RegistrationPatternNode<P>)
    ensures
        same_shape(a, a),
    decreases a, 1int, 0int,
{
    lemma_edges_same_shape_refl(a, a.edges@.len() as int);
}

proof fn lemma_edges_same_shape_refl<P>(a: RegistrationPatternNode<P>, n: int)
    requires
        n <= a.edges@.len(),
    ensures
        edges_same_shape(a, a, n),
    decreases a, 0int, n,
{
    if n <= 0 {
    } else {
        lemma_edges_same_shape_refl(a, n - 1);
        lemma_same_shape_refl(a.edges@[n - 1].child);
    }
}

/// Sharing a shape carries over two steps.
pub proof fn lemma_same_shape_trans<P>(
    a: RegistrationPatternNode<P>,
    b: RegistrationPatternNode<P>,
    c: RegistrationPatternNode<P>,
)
    requires
        same_shape(a, b),
        same_shape(b, c),
    ensures
        same_shape(a, c),
    decreases a, 1int, 0int,
{
    lemma_edges_same_shape_trans(a, b, c, a.edges@.len() as int);
}

proof fn lemma_edges_same_shape_trans<P>(
    a: RegistrationPatternNode<P>,
    b: RegistrationPatternNode<P>,
    c: RegistrationPatternNode<P>,
    n: int,
)
    requires
        same_shape(a, b),
        same_shape(b, c),
        edges_same_shape(a, b, n),
        edges_same_shape(b, c, n),
        n <= a.edges@.len(),
    ensures
        edges_same_shape(a, c, n),
    decreases a, 0int, n,
{
    if n <= 0 {
    } else {
        lemma_edges_same_shape_trans(a, b, c, n - 1);
        lemma_same_shape_trans(
            a.edges@[n - 1].child,
            b.edges@[n - 1].child,
            c.edges@[n - 1].child,
        );
    }
}

/// Two tries whose branches differ only below one branch, whose segment is
/// kept and whose children share a shape, share a shape.
pub proof fn lemma_same_shape_update<P>(
    a: RegistrationPatternNode<P>,
    b: RegistrationPatternNode<P>,
    k: int,
)
    requires
        b.id == a.id,
        b.prefix_id == a.prefix_id,
        b.connections.procedures@ == a.connections.procedures@,
        b.connections.invocation_policy == a.connections.invocation_policy,
        b.prefix_connections.procedures@ == a.prefix_connections.procedures@,
        b.prefix_connections.invocation_policy == a.prefix_connections.invocation_policy,
        b.edges@.len() == a.edges@.len(),
        0 <= k < a.edges@.len(),
        forall|j: int| 0 <= j < a.edges@.len() && j != k ==> b.edges@[j] == a.edges@[j],
        b.edges@[k].segment@ == a.edges@[k].segment@,
        same_shape(a.edges@[k].child, b.edges@[k].child),
    ensures
        same_shape(a, b),
{
    lemma_edges_same_shape_update(a, b, k, a.edges@.len() as int);
}

proof fn lemma_edges_same_shape_update<P>(
    a: RegistrationPatternNode<P>,
    b: RegistrationPatternNode<P>,
    k: int,
    n: int,
)
    requires
        b.edges@.len() == a.edges@.len(),
        0 <= k < a.edges@.len(),
        n <= a.edges@.len(),
        forall|j: int| 0 <= j < a.edges@.len() && j != k ==> b.edges@[j] == a.edges@[j],
        b.edges@[k].segment@ == a.edges@[k].segment@,
        same_shape(a.edges@[k].child, b.edges@[k].child),
    ensures
        edges_same_shape(a, b, n),
    decreases n,
{
    if n <= 0 {
    } else {
        lemma_edges_same_shape_update(a, b, k, n - 1);
        if n - 1 != k {
            lemma_same_shape_refl(a.edges@[n - 1].child);
        }
    }
}

/// Two tries with equal branches and matching entries share a shape.
pub proof fn lemma_same_shape_equal_edges<P>(
    a: RegistrationPatternNode<P>,
    b: RegistrationPatternNode<P>,
)
    requires
        b.id == a.id,
        b.prefix_id == a.prefix_id,
        b.connections.procedures@ == a.connections.procedures@,
        b.connections.invocation_policy == a.connections.invocation_policy,
        b.prefix_connections.procedures@ == a.prefix_connections.procedures@,
        b.prefix_connections.invocation_policy == a.prefix_connections.invocation_policy,
        b.edges@ == a.edges@,
    ensures
        same_shape(a, b),
{
    lemma_edges_same_shape_equal(a, b, a.edges@.len() as int);
}

proof fn lemma_edges_same_shape_equal<P>(
    a: RegistrationPatternNode<P>,
    b: RegistrationPatternNode<P>,
    n: int,
)
    requires
        b.edges@ == a.edges@,
        n <= a.edges@.len(),
    ensures
        edges_same_shape(a, b, n),
    decreases n,
{
    if n <= 0 {
    } else {
        lemma_edges_same_shape_equal(a, b, n - 1);
        lemma_same_shape_refl(a.edges@[n - 1].child);
    }
}

/// Tries of one shape have viewwise equal branch segments.
pub proof fn lemma_same_shape_segments<P>(
    a: RegistrationPatternNode<P>,
    b: RegistrationPatternNode<P>,
)
    requires
        same_shape(a, b),
    ensures
        a.edges@.len() == b.edges@.len(),
        forall|j: int| 0 <= j < a.edges@.len() ==> (#[trigger] b.edges@[j].segment)@
            == a.edges@[j].segment@,
{
    assert forall|j: int| 0 <= j < a.edges@.len() implies (#[trigger] b.edges@[j].segment)@
        == a.edges@[j].segment@ by {
        lemma_edges_same_shape_extract(a, b, a.edges@.len() as int, j);
    }
}

/// Branch lookup sees only segments, so tries of one shape agree on it.
pub proof fn lemma_same_shape_edge_index<P>(
    a: Seq<Edge<P>>,
    b: Seq<Edge<P>>,
    seg: Seq<char>,
)
    requires
        a.len() == b.len(),
        forall|j: int| 0 <= j < a.len() ==> (#[trigger] b[j].segment)@ == a[j].segment@,
    ensures
        edge_index(a, seg) == edge_index(b, seg),
    decreases a.len(),
{
    if a.len() == 0 {
    } else {
        assert(forall|j: int| 0 <= j < a.skip(1).len() ==> a.skip(1)[j] == a[j + 1]);
        assert(forall|j: int| 0 <= j < b.skip(1).len() ==> b.skip(1)[j] == b[j + 1]);
        lemma_same_shape_edge_index(a.skip(1), b.skip(1), seg);
    }
}

/// How a trie changes when a registration is added along `rest`; as for
/// subscriptions, but the final node's collection admits the registrant
/// under the shared-registration rule and records the invocation policy.
pub open spec fn register_rel<P>(
    pre: RegistrationPatternNode<P>,
    post: RegistrationPatternNode<P>,
    rest: Seq<Seq<char>>,
    registrant: P,
    matching_policy: MatchingPolicy,
    invocation_policy: InvocationPolicy,
    id: ID,
) -> bool
    decreases rest.len(),
{
    if rest.len() == 0 {
        &&& post.id == pre.id
        &&& post.prefix_id == pre.prefix_id
        &&& post.edges@ == pre.edges@
        &&& if matching_policy == MatchingPolicy::Prefix {
            &&& pre.prefix_connections.admits(invocation_policy)
            &&& post.prefix_connections.procedures@ == pre.prefix_connections.procedures@.push(
                DataWrapper { registrant, policy: matching_policy },
            )
            &&& post.prefix_connections.invocation_policy == invocation_policy
            &&& post.connections == pre.connections
            &&& id == pre.prefix_id
        } else {
            &&& pre.connections.admits(invocation_policy)
            &&& post.connections.procedures@ == pre.connections.procedures@.push(
                DataWrapper { registrant, policy: matching_policy },
            )
            &&& post.connections.invocation_policy == invocation_policy
            &&& post.prefix_connections == pre.prefix_connections
            &&& id == pre.id
        }
    } else {
        &&& post.id == pre.id
        &&& post.prefix_id == pre.prefix_id
        &&& post.connections == pre.connections
        &&& post.prefix_connections == pre.prefix_connections
        &&& match edge_index(pre.edges@, rest[0]) {
            Some(k) => {
                &&& post.edges@.len() == pre.edges@.len()
                &&& forall|j: int|
                    0 <= j < pre.edges@.len() && j != k ==> post.edges@[j] == pre.edges@[j]
                &&& post.edges@[k].segment == pre.edges@[k].segment
                &&& register_rel(
                    pre.edges@[k].child,
                    post.edges@[k].child,
                    rest.skip(1),
                    registrant,
                    matching_policy,
                    invocation_policy,
                    id,
                )
            },
            None => {
                &&& post.edges@.len() == pre.edges@.len() + 1
                &&& forall|j: int|
                    0 <= j < pre.edges@.len() ==> post.edges@[j] == pre.edges@[j]
                &&& post.edges@[pre.edges@.len() as int].segment@ == rest[0]
                &&& fresh_chain(
                    post.edges@[pre.edges@.len() as int].child,
                    rest.skip(1),
                    registrant,
                    matching_policy,
                    invocation_policy,
                    id,
                )
            },
        }
    }
}

/// A freshly grown chain of nodes holding one registrant at its end.
pub open spec fn fresh_chain<P>(
    node: RegistrationPatternNode<P>,
    rest: Seq<Seq<char>>,
    registrant: P,
    matching_policy: MatchingPolicy,
    invocation_policy: InvocationPolicy,
    id: ID,
) -> bool
    decreases rest.len(),
{
    if rest.len() == 0 {
        &&& node.edges@.len() == 0
        &&& if matching_policy == MatchingPolicy::Prefix {
            &&& node.prefix_connections.procedures@ == seq![
                DataWrapper { registrant, policy: matching_policy },
            ]
            &&& node.prefix_connections.invocation_policy == invocation_policy
            &&& node.connections.procedures@.len() == 0
            &&& id == node.prefix_id
        } else {
            &&& node.connections.procedures@ == seq![
                DataWrapper { registrant, policy: matching_policy },
            ]
            &&& node.connections.invocation_policy == invocation_policy
            &&& node.prefix_connections.procedures@.len() == 0
            &&& id == node.id
        }
    } else {
        &&& node.connections.procedures@.len() == 0
        &&& node.prefix_connections.procedures@.len() == 0
        &&& node.edges@.len() == 1
        &&& node.edges@[0].segment@ == rest[0]
        &&& fresh_chain(
            node.edges@[0].child,
            rest.skip(1),
            registrant,
            matching_policy,
            invocation_policy,
            id,
        )
    }
}

/// How a trie changes when one callee's entries are removed at the end of
/// `rest`.
pub open spec fn remove_rel<P: PatternData>(
    pre: RegistrationPatternNode<P>,
    post: RegistrationPatternNode<P>,
    rest: Seq<Seq<char>>,
    registrant_id: ID,
    is_prefix: bool,
    id: ID,
) -> bool
    decreases rest.len(),
{
    if rest.len() == 0 {
        &&& post.id == pre.id
        &&& post.prefix_id == pre.prefix_id
        &&& post.edges@ == pre.edges@
        &&& if is_prefix {
            &&& post.prefix_connections.procedures@ == drop_entries(
                pre.prefix_connections.procedures@,
                registrant_id,
            )
            &&& post.prefix_connections.invocation_policy
                == pre.prefix_connections.invocation_policy
            &&& post.connections == pre.connections
            &&& id == pre.prefix_id
        } else {
            &&& post.connections.procedures@ == drop_entries(
                pre.connections.procedures@,
                registrant_id,
            )
            &&& post.connections.invocation_policy == pre.connections.invocation_policy
            &&& post.prefix_connections == pre.prefix_connections
            &&& id == pre.id
        }
    } else {
        &&& post.id == pre.id
        &&& post.prefix_id == pre.prefix_id
        &&& post.connections == pre.connections
        &&& post.prefix_connections == pre.prefix_connections
        &&& match edge_index(pre.edges@, rest[0]) {
            Some(k) => {
                &&& post.edges@.len() == pre.edges@.len()
                &&& forall|j: int|
                    0 <= j < pre.edges@.len() && j != k ==> post.edges@[j] == pre.edges@[j]
                &&& post.edges@[k].segment == pre.edges@[k].segment
                &&& remove_rel(
                    pre.edges@[k].child,
                    post.edges@[k].child,
                    rest.skip(1),
                    registrant_id,
                    is_prefix,
                    id,
                )
            },
            None => false,
        }
    }
}

/// What answers a call to `uri`: the winning collection's entries and
/// policy, the identifier under which it was registered, and whether it was
/// a prefix registration.  At the end of the URI, the node's own exact
/// collection wins, then its prefix collection; on the way, a literal
/// branch is searched before the wildcard branch, and a node's prefix
/// collection catches calls its subtree cannot answer.
pub open spec fn spec_find<P>(
    node: RegistrationPatternNode<P>,
    uri: Seq<Seq<char>>,
    depth: int,
) -> Option<(Seq<DataWrapper<P>>, InvocationPolicy, ID, bool)>
    decreases node, uri.len() - depth,
{
    if depth >= uri.len() {
        if node.connections.procedures@.len() > 0 {
            Some(
                (
                    node.connections.procedures@,
                    node.connections.invocation_policy,
                    node.id,
                    false,
                ),
            )
        } else if node.prefix_connections.procedures@.len() > 0 {
            Some(
                (
                    node.prefix_connections.procedures@,
                    node.prefix_connections.invocation_policy,
                    node.prefix_id,
                    true,
                ),
            )
        } else {
            None
        }
    } else {
        let lit = match edge_index(node.edges@, uri[depth]) {
            Some(k) => if 0 <= k < node.edges@.len() {
                spec_find(node.edges@[k].child, uri, depth + 1)
            } else {
                None
            },
            None => None,
        };
        let wild = match edge_index(node.edges@, Seq::<char>::empty()) {
            Some(k) => if 0 <= k < node.edges@.len() {
                spec_find(node.edges@[k].child, uri, depth + 1)
            } else {
                None
            },
            None => None,
        };
        match lit {
            Some(x) => Some(x),
            None => match wild {
                Some(x) => Some(x),
                None => if node.prefix_connections.procedures@.len() > 0 {
                    Some(
                        (
                            node.prefix_connections.procedures@,
                            node.prefix_connections.invocation_policy,
                            node.prefix_id,
                            true,
                        ),
                    )
                } else {
                    None
                },
            },
        }
    }
}

/// The answer to a call depends only on a trie's shape, never on its
/// round-robin cursors.
pub proof fn lemma_spec_find_same_shape<P>(
    a: RegistrationPatternNode<P>,
    b: RegistrationPatternNode<P>,
    uri: Seq<Seq<char>>,
    depth: int,
)
    requires
        same_shape(a, b),
    ensures
        spec_find(a, uri, depth) == spec_find(b, uri, depth),
    decreases a, uri.len() - depth,
{
    if depth >= uri.len() {
    } else {
        lemma_same_shape_segments(a, b);
        lemma_same_shape_edge_index(a.edges@, b.edges@, uri[depth]);
        lemma_same_shape_edge_index(a.edges@, b.edges@, Seq::<char>::empty());
        match edge_index(a.edges@, uri[depth]) {
            Some(k) => {
                if 0 <= k < a.edges@.len() {
                    lemma_edges_same_shape_extract(a, b, a.edges@.len() as int, k);
                    lemma_spec_find_same_shape(
                        a.edges@[k].child,
                        b.edges@[k].child,
                        uri,
                        depth + 1,
                    );
                }
            },
            None => {},
        }
        match edge_index(a.edges@, Seq::<char>::empty()) {
            Some(k) => {
                if 0 <= k < a.edges@.len() {
                    lemma_edges_same_shape_extract(a, b, a.edges@.len() as int, k);
                    lemma_spec_find_same_shape(
                        a.edges@[k].child,
                        b.edges@[k].child,
                        uri,
                        depth + 1,
                    );
                }
            },
            None => {},
        }
    }
}

impl<P> RegistrationPatternNode<P> {
    /// Whether the collection at the end of `rest` admits a registrant, a
    /// missing node standing for an empty one.
    pub open spec fn spec_may_register(
        self,
        rest: Seq<Seq<char>>,
        matching_policy: MatchingPolicy,
        invocation_policy: InvocationPolicy,
    ) -> bool {
        match self.node_at(rest) {
            Some(n) => if matching_policy == MatchingPolicy::Prefix {
                n.prefix_connections.admits(invocation_policy)
            } else {
                n.connections.admits(invocation_policy)
            },
            None => true,
        }
    }

    /// The node reached by consuming `path`, if every segment has a branch.
    pub open spec fn node_at(self, path: Seq<Seq<char>>) -> Option<RegistrationPatternNode<P>>
        decreases path.len(),
    {
        if path.len() == 0 {
            Some(self)
        } else {
            match edge_index(self.edges@, path[0]) {
                Some(k) => if 0 <= k < self.edges@.len() {
                    self.edges@[k].child.node_at(path.skip(1))
                } else {
                    None
                },
                None => None,
            }
        }
    }
}

impl<P: PatternData> RegistrationPatternNode<P> {
    /// Makes an empty node with freshly drawn identifiers, to serve as the
    /// root of a trie.
    pub fn new() -> (n: RegistrationPatternNode<P>)
        ensures
            n.edges@.len() == 0,
            n.connections.procedures@.len() == 0,
            n.connections.invocation_policy == InvocationPolicy::Single,
            n.connections.round_robin_counter == 0,
            n.prefix_connections.procedures@.len() == 0,
            n.prefix_connections.invocation_policy == InvocationPolicy::Single,
            n.prefix_connections.round_robin_counter == 0,
            1 <= n.id < 0x20000000000000u64,
            1 <= n.prefix_id < 0x20000000000000u64,
    {
        RegistrationPatternNode {
            edges: Vec::new(),
            connections: ProcdureCollection {
                invocation_policy: InvocationPolicy::Single,
                round_robin_counter: 0,
                procedures: Vec::new(),
            },
            prefix_connections: ProcdureCollection {
                invocation_policy: InvocationPolicy::Single,
                round_robin_counter: 0,
                procedures: Vec::new(),
            },
            id: random_id(),
            prefix_id: random_id(),
        }
    }

    fn find_edge(&self, seg: &Vec<char>) -> (r: Option<usize>)
        ensures
            match r {
                Some(k) => k < self.edges@.len() && edge_index(self.edges@, seg@) == Some(
                    k as int,
                ),
                None => edge_index(self.edges@, seg@) is None,
            },
    {
        let mut i: usize = 0;
        while i < self.edges.len()
            invariant
                0 <= i <= self.edges@.len(),
                forall|j: int| 0 <= j < i ==> self.edges@[j].segment@ != seg@,
            decreases self.edges@.len() - i,
        {
            if seg_eq(&self.edges[i].segment, seg) {
                proof {
                    lemma_edge_index_of(self.edges@, seg@, i as int);
                }
                return Some(i);
            }
            i = i + 1;
        }
        proof {
            lemma_edge_index_char(self.edges@, seg@);
        }
        None
    }

    /// Adds a registration under the given pattern; a pattern holding an
    /// empty segment after its first is refused unless the policy is the
    /// wildcard policy, and the final node's collection admits the callee
    /// only under the shared-registration rule.
    pub fn register_with(
        &mut self,
        topic: &URI,
        registrant: P,
        matching_policy: MatchingPolicy,
        invocation_policy: InvocationPolicy,
    ) -> (r: Result<ID, PatternError>)
        ensures
            match r {
                Ok(id) => valid_pattern(uri_segments(topic.uri@), matching_policy) && (*old(
                    self,
                )).spec_may_register(
                    uri_segments(topic.uri@),
                    matching_policy,
                    invocation_policy,
                ) && register_rel(
                    *old(self),
                    *final(self),
                    uri_segments(topic.uri@),
                    registrant,
                    matching_policy,
                    invocation_policy,
                    id,
                ),
                Err(e) => {
                    &&& *final(self) == *old(self)
                    &&& (e.reason == Reason::InvalidURI || e.reason
                        == Reason::ProcedureAlreadyExists)
                    &&& (e.reason == Reason::InvalidURI <==> !valid_pattern(
                        uri_segments(topic.uri@),
                        matching_policy,
                    ))
                    &&& (e.reason == Reason::ProcedureAlreadyExists <==> valid_pattern(
                        uri_segments(topic.uri@),
                        matching_policy,
                    ) && !(*old(self)).spec_may_register(
                        uri_segments(topic.uri@),
                        matching_policy,
                        invocation_policy,
                    ))
                },
            },
    {
        let segs = split_uri(topic.uri.as_str());
        if !check_pattern(&segs, matching_policy) {
            return Err(PatternError::new(Reason::InvalidURI));
        }
        proof {
            assert(segments_view(segs@).skip(0) =~= uri_segments(topic.uri@));
        }
        if !self.may_register(&segs, 0, matching_policy, invocation_policy) {
            return Err(PatternError::new(Reason::ProcedureAlreadyExists));
        }
        Ok(self.add_registration(&segs, 0, registrant, matching_policy, invocation_policy))
    }

    fn may_register(
        &self,
        segs: &Vec<Vec<char>>,
        depth: usize,
        matching_policy: MatchingPolicy,
        invocation_policy: InvocationPolicy,
    ) -> (r: bool)
        requires
            depth <= segs@.len(),
        ensures
            r == self.spec_may_register(
                segments_view(segs@).skip(depth as int),
                matching_policy,
                invocation_policy,
            ),
        decreases segs@.len() - depth,
    {
        let ghost rest = segments_view(segs@).skip(depth as int);
        if depth == segs.len() {
            let coll = if matching_policy == MatchingPolicy::Prefix {
                &self.prefix_connections
            } else {
                &self.connections
            };
            coll.procedures.len() == 0 || (invocation_policy == coll.invocation_policy
                && invocation_policy != InvocationPolicy::Single)
        } else {
            proof {
                assert(rest[0] == segs@[depth as int]@);
                assert(rest.skip(1) =~= segments_view(segs@).skip(depth + 1));
            }
            match self.find_edge(&segs[depth]) {
                Some(k) => self.edges[k].child.may_register(
                    segs,
                    depth + 1,
                    matching_policy,
                    invocation_policy,
                ),
                None => true,
            }
        }
    }

    fn add_registration(
        &mut self,
        segs: &Vec<Vec<char>>,
        depth: usize,
        registrant: P,
        matching_policy: MatchingPolicy,
        invocation_policy: InvocationPolicy,
    ) -> (id: ID)
        requires
            depth <= segs@.len(),
            (*old(self)).spec_may_register(
                segments_view(segs@).skip(depth as int),
                matching_policy,
                invocation_policy,
            ),
        ensures
            register_rel(
                *old(self),
                *final(self),
                segments_view(segs@).skip(depth as int),
                registrant,
                matching_policy,
                invocation_policy,
                id,
            ),
        decreases segs@.len() - depth,
    {
        let ghost rest = segments_view(segs@).skip(depth as int);
        if depth == segs.len() {
            if matching_policy == MatchingPolicy::Prefix {
                let r = self.prefix_connections.add_procedure(
                    registrant,
                    matching_policy,
                    invocation_policy,
                );
                proof {
                    assert(r is Ok);
                }
                self.prefix_id
            } else {
                let r = self.connections.add_procedure(
                    registrant,
                    matching_policy,
                    invocation_policy,
                );
                proof {
                    assert(r is Ok);
                }
                self.id
            }
        } else {
            proof {
                assert(rest[0] == segs@[depth as int]@);
                assert(rest.skip(1) =~= segments_view(segs@).skip(depth + 1));
            }
            match self.find_edge(&segs[depth]) {
                Some(k) => {
                    let ghost pre_edges = self.edges@;
                    let mut edge = self.edges.remove(k);
                    let id = edge.child.add_registration(
                        segs,
                        depth + 1,
                        registrant,
                        matching_policy,
                        invocation_policy,
                    );
                    self.edges.insert(k, edge);
                    proof {
                        assert(forall|j: int|
                            0 <= j < pre_edges.len() && j != k ==> self.edges@[j] == pre_edges[j]);
                    }
                    id
                },
                None => {
                    let mut child: RegistrationPatternNode<P> = RegistrationPatternNode::new();
                    let ghost fresh = child;
                    let id = child.add_registration(
                        segs,
                        depth + 1,
                        registrant,
                        matching_policy,
                        invocation_policy,
                    );
                    proof {
                        lemma_register_into_fresh(
                            fresh,
                            child,
                            rest.skip(1),
                            registrant,
                            matching_policy,
                            invocation_policy,
                            id,
                        );
                    }
                    self.edges.push(Edge { segment: copy_seg(&segs[depth]), child });
                    id
                },
            }
        }
    }

    fn path_exists(&self, segs: &Vec<Vec<char>>, depth: usize) -> (r: bool)
        requires
            depth <= segs@.len(),
        ensures
            r == (self.node_at(segments_view(segs@).skip(depth as int)) is Some),
        decreases segs@.len() - depth,
    {
        let ghost rest = segments_view(segs@).skip(depth as int);
        if depth == segs.len() {
            true
        } else {
            proof {
                assert(rest[0] == segs@[depth as int]@);
                assert(rest.skip(1) =~= segments_view(segs@).skip(depth + 1));
            }
            match self.find_edge(&segs[depth]) {
                Some(k) => self.edges[k].child.path_exists(segs, depth + 1),
                None => false,
            }
        }
    }

    /// Removes every registration of the given callee under the given
    /// pattern; a pattern whose path is not in the trie is refused.
    pub fn unregister_with(&mut self, topic: &str, registrant: &P, is_prefix: bool) -> (r: Result<
        ID,
        PatternError,
    >)
        ensures
            match r {
                Ok(id) => remove_rel(
                    *old(self),
                    *final(self),
                    uri_segments(topic@),
                    registrant.spec_id(),
                    is_prefix,
                    id,
                ),
                Err(e) => e.reason == Reason::InvalidURI && *final(self) == *old(self)
                    && (*old(self)).node_at(uri_segments(topic@)) is None,
            },
    {
        let segs = split_uri(topic);
        let registrant_id = registrant.get_id();
        proof {
            assert(segments_view(segs@).skip(0) =~= uri_segments(topic@));
        }
        if !self.path_exists(&segs, 0) {
            return Err(PatternError::new(Reason::InvalidURI));
        }
        Ok(self.remove_registration(&segs, 0, registrant_id, is_prefix))
    }

    fn remove_registration(
        &mut self,
        segs: &Vec<Vec<char>>,
        depth: usize,
        registrant_id: ID,
        is_prefix: bool,
    ) -> (id: ID)
        requires
            depth <= segs@.len(),
            (*old(self)).node_at(segments_view(segs@).skip(depth as int)) is Some,
        ensures
            remove_rel(
                *old(self),
                *final(self),
                segments_view(segs@).skip(depth as int),
                registrant_id,
                is_prefix,
                id,
            ),
        decreases segs@.len() - depth,
    {
        let ghost rest = segments_view(segs@).skip(depth as int);
        if depth == segs.len() {
            if is_prefix {
                let id = self.prefix_id;
                self.prefix_connections.remove_procedure(registrant_id);
                id
            } else {
                let id = self.id;
                self.connections.remove_procedure(registrant_id);
                id
            }
        } else {
            proof {
                assert(rest[0] == segs@[depth as int]@);
                assert(rest.skip(1) =~= segments_view(segs@).skip(depth + 1));
            }
            match self.find_edge(&segs[depth]) {
                Some(k) => {
                    let ghost pre_edges = self.edges@;
                    let mut edge = self.edges.remove(k);
                    let id = edge.child.remove_registration(
                        segs,
                        depth + 1,
                        registrant_id,
                        is_prefix,
                    );
                    self.edges.insert(k, edge);
                    proof {
                        assert(forall|j: int|
                            0 <= j < pre_edges.len() && j != k ==> self.edges@[j] == pre_edges[j]);
                    }
                    id
                },
                None => {
                    proof {
                        assert(false);
                    }
                    0
                },
            }
        }
    }

    /// Picks the callee answering a call to the given procedure, by the
    /// precedence exact over wildcard over prefix ancestor, and by the
    /// invocation policy within the winning collection.  Only round-robin
    /// cursors change.
    pub fn get_registrant_for(&mut self, procedure: URI) -> (r: Result<
        (P, ID, MatchingPolicy),
        PatternError,
    >) where P: Copy
        ensures
            same_shape(*old(self), *final(self)),
            match spec_find(*old(self), uri_segments(procedure.uri@), 0) {
                None => r matches Err(e) && e.reason == Reason::NoSuchProcedure,
                Some((entries, policy, reg_id, is_prefix)) => r matches Ok((p, id, pol)) && {
                    &&& id == reg_id
                    &&& exists|i: int|
                        0 <= i < entries.len() && entries[i] == (DataWrapper {
                            registrant: p,
                            policy: pol,
                        })
                    &&& (policy == InvocationPolicy::Single || policy == InvocationPolicy::First
                        ==> entries[0] == (DataWrapper { registrant: p, policy: pol }))
                    &&& (policy == InvocationPolicy::Last ==> entries.last() == (DataWrapper {
                        registrant: p,
                        policy: pol,
                    }))
                },
            },
    {
        let segs = split_uri(procedure.uri.as_str());
        proof {
            assert(segments_view(segs@).skip(0) =~= uri_segments(procedure.uri@));
        }
        match self.find_registrant(&segs, 0) {
            Some(x) => Ok(x),
            None => Err(PatternError::new(Reason::NoSuchProcedure)),
        }
    }

    fn find_registrant(&mut self, segs: &Vec<Vec<char>>, depth: usize) -> (r: Option<
        (P, ID, MatchingPolicy),
    >) where P: Copy
        requires
            depth <= segs@.len(),
        ensures
            same_shape(*old(self), *final(self)),
            match spec_find(*old(self), segments_view(segs@), depth as int) {
                None => r is None,
                Some((entries, policy, reg_id, is_prefix)) => r matches Some((p, id, pol)) && {
                    &&& id == reg_id
                    &&& exists|i: int|
                        0 <= i < entries.len() && entries[i] == (DataWrapper {
                            registrant: p,
                            policy: pol,
                        })
                    &&& (policy == InvocationPolicy::Single || policy == InvocationPolicy::First
                        ==> entries[0] == (DataWrapper { registrant: p, policy: pol }))
                    &&& (policy == InvocationPolicy::Last ==> entries.last() == (DataWrapper {
                        registrant: p,
                        policy: pol,
                    }))
                },
            },
        decreases segs@.len() - depth,
    {
        let ghost pre = *self;
        let ghost uview = segments_view(segs@);
        if depth == segs.len() {
            if self.connections.procedures.len() > 0 {
                let id = self.id;
                match self.connections.get_entry() {
                    Some((p, pol)) => {
                        proof {
                            lemma_same_shape_equal_edges(pre, *self);
                        }
                        Some((p, id, pol))
                    },
                    None => {
                        proof {
                            assert(false);
                        }
                        None
                    },
                }
            } else if self.prefix_connections.procedures.len() > 0 {
                let id = self.prefix_id;
                match self.prefix_connections.get_entry() {
                    Some((p, pol)) => {
                        proof {
                            lemma_same_shape_equal_edges(pre, *self);
                        }
                        Some((p, id, pol))
                    },
                    None => {
                        proof {
                            assert(false);
                        }
                        None
                    },
                }
            } else {
                proof {
                    lemma_same_shape_refl(pre);
                }
                None
            }
        } else {
            proof {
                assert(uview.skip(depth as int)[0] == segs@[depth as int]@);
            }
            let lit = self.find_edge(&segs[depth]);
            let lit_result = match lit {
                Some(k) => {
                    let ghost pre_edges = self.edges@;
                    let mut edge = self.edges.remove(k);
                    let r = edge.child.find_registrant(segs, depth + 1);
                    self.edges.insert(k, edge);
                    proof {
                        assert(forall|j: int|
                            0 <= j < pre_edges.len() && j != k ==> self.edges@[j] == pre_edges[j]);
                        lemma_same_shape_update(pre, *self, k as int);
                    }
                    r
                },
                None => {
                    proof {
                        lemma_same_shape_refl(pre);
                    }
                    None
                },
            };
            let ghost mid = *self;
            match lit_result {
                Some((p, id, pol)) => Some((p, id, pol)),
                None => {
                    let empty_seg: Vec<char> = Vec::new();
                    let wild = self.find_edge(&empty_seg);
                    proof {
                        lemma_same_shape_segments(pre, mid);
                        lemma_same_shape_edge_index(pre.edges@, mid.edges@, Seq::<char>::empty());
                    }
                    let wild_result = match wild {
                        Some(k) => {
                            let ghost pre_edges = self.edges@;
                            let ghost mid_child = self.edges@[k as int].child;
                            let mut edge = self.edges.remove(k);
                            let r = edge.child.find_registrant(segs, depth + 1);
                            self.edges.insert(k, edge);
                            proof {
                                assert(forall|j: int|
                                    0 <= j < pre_edges.len() && j != k ==> self.edges@[j]
                                        == pre_edges[j]);
                                lemma_same_shape_update(mid, *self, k as int);
                                lemma_same_shape_trans(pre, mid, *self);
                                lemma_edges_same_shape_extract(
                                    pre,
                                    mid,
                                    pre.edges@.len() as int,
                                    k as int,
                                );
                                lemma_spec_find_same_shape(
                                    pre.edges@[k as int].child,
                                    mid_child,
                                    segments_view(segs@),
                                    depth + 1,
                                );
                            }
                            r
                        },
                        None => None,
                    };
                    let ghost mid2 = *self;
                    match wild_result {
                        Some((p, id, pol)) => Some((p, id, pol)),
                        None => {
                            if self.prefix_connections.procedures.len() > 0 {
                                let id = self.prefix_id;
                                match self.prefix_connections.get_entry() {
                                    Some((p, pol)) => {
                                        proof {
                                            lemma_same_shape_equal_edges(mid2, *self);
                                            lemma_same_shape_trans(pre, mid2, *self);
                                        }
                                        Some((p, id, pol))
                                    },
                                    None => {
                                        proof {
                                            assert(false);
                                        }
                                        None
                                    },
                                }
                            } else {
                                None
                            }
                        },
                    }
                },
            }
        }
    }
}

fn copy_seg(v: &Vec<char>) -> (r: Vec<char>)
    ensures
        r@ == v@,
{
    let mut out: Vec<char> = Vec::new();
    let mut i: usize = 0;
    while i < v.len()
        invariant
            0 <= i <= v@.len(),
            out@ == v@.take(i as int),
        decreases v@.len() - i,
    {
        out.push(v[i]);
        proof {
            assert(v@.take(i + 1) =~= v@.take(i as int).push(v@[i as int]));
        }
        i = i + 1;
    }
    proof {
        assert(v@.take(v@.len() as int) =~= v@);
    }
    out
}

proof fn lemma_register_into_fresh<P>(
    pre: RegistrationPatternNode<P>,
    post: RegistrationPatternNode<P>,
    rest: Seq<Seq<char>>,
    registrant: P,
    matching_policy: MatchingPolicy,
    invocation_policy: InvocationPolicy,
    id: ID,
)
    requires
        pre.edges@.len() == 0,
        pre.connections.procedures@.len() == 0,
        pre.prefix_connections.procedures@.len() == 0,
        register_rel(pre, post, rest, registrant, matching_policy, invocation_policy, id),
    ensures
        fresh_chain(post, rest, registrant, matching_policy, invocation_policy, id),
{
    if rest.len() == 0 {
        if matching_policy == MatchingPolicy::Prefix {
            assert(post.prefix_connections.procedures@ =~= seq![
                DataWrapper { registrant, policy: matching_policy },
            ]);
        } else {
            assert(post.connections.procedures@ =~= seq![
                DataWrapper { registrant, policy: matching_policy },
            ]);
        }
    } else {
        assert(edge_index(pre.edges@, rest[0]) is None);
    }
}

/// The shared-registration law: after a registration lands under a pattern,
/// its node's collection is not empty and holds the policy it named, so a
/// second registrant is admitted there exactly when it repeats that policy
/// and the policy is not the single policy.  In particular a second single
/// registrant is always refused, and a second round-robin registrant after
/// a round-robin one is always admitted.
pub proof fn lemma_shared_registration_rule<P>(
    t0: RegistrationPatternNode<P>,
    t1: RegistrationPatternNode<P>,
    segs: Seq<Seq<char>>,
    registrant: P,
    matching_policy: MatchingPolicy,
    invocation_policy: InvocationPolicy,
    id: ID,
    second_policy: InvocationPolicy,
)
    requires
        register_rel(t0, t1, segs, registrant, matching_policy, invocation_policy, id),
    ensures
        t1.spec_may_register(segs, matching_policy, second_policy) <==> (second_policy
            == invocation_policy && second_policy != InvocationPolicy::Single),
    decreases segs.len(),
{
    if segs.len() == 0 {
    } else {
        lemma_edge_index_char(t0.edges@, segs[0]);
        match edge_index(t0.edges@, segs[0]) {
            Some(k) => {
                lemma_edge_index_of(t1.edges@, segs[0], k);
                lemma_shared_registration_rule(
                    t0.edges@[k].child,
                    t1.edges@[k].child,
                    segs.skip(1),
                    registrant,
                    matching_policy,
                    invocation_policy,
                    id,
                    second_policy,
                );
            },
            None => {
                let k = t0.edges@.len() as int;
                lemma_edge_index_of(t1.edges@, segs[0], k);
                lemma_fresh_chain_rule(
                    t1.edges@[k].child,
                    segs.skip(1),
                    registrant,
                    matching_policy,
                    invocation_policy,
                    id,
                    second_policy,
                );
            },
        }
    }
}

proof fn lemma_fresh_chain_rule<P>(
    c: RegistrationPatternNode<P>,
    rest: Seq<Seq<char>>,
    registrant: P,
    matching_policy: MatchingPolicy,
    invocation_policy: InvocationPolicy,
    id: ID,
    second_policy: InvocationPolicy,
)
    requires
        fresh_chain(c, rest, registrant, matching_policy, invocation_policy, id),
    ensures
        c.spec_may_register(rest, matching_policy, second_policy) <==> (second_policy
            == invocation_policy && second_policy != InvocationPolicy::Single),
    decreases rest.len(),
{
    if rest.len() == 0 {
    } else {
        lemma_edge_index_of(c.edges@, rest[0], 0);
        lemma_fresh_chain_rule(
            c.edges@[0].child,
            rest.skip(1),
            registrant,
            matching_policy,
            invocation_policy,
            id,
            second_policy,
        );
    }
}

} // verus!
verus! {

proof fn lemma_drop_entries_complete<P: PatternData>(s: Seq<DataWrapper<P>>, registrant_id: ID)
    ensures
        forall|j: int|
            0 <= j < drop_entries(s, registrant_id).len() ==> (#[trigger] drop_entries(
                s,
                registrant_id,
            )[j]).registrant.spec_id() != registrant_id,
    decreases s.len(),
{
    if s.len() == 0 {
    } else {
        lemma_drop_entries_complete(s.skip(1), registrant_id);
        if s[0].registrant.spec_id() != registrant_id {
            assert(forall|j: int|
                1 <= j < drop_entries(s, registrant_id).len() ==> drop_entries(s, registrant_id)[j]
                    == drop_entries(s.skip(1), registrant_id)[j - 1]);
        }
    }
}

/// Whether an entry list holds no entry of the given callee.
pub open spec fn list_clean<P: PatternData>(entries: Seq<DataWrapper<P>>, registrant_id: ID) -> bool {
    forall|j: int|
        0 <= j < entries.len() ==> (#[trigger] entries[j]).registrant.spec_id() != registrant_id
}

/// Whether the node's exact or prefix collection holds no entry of the
/// given callee.
pub open spec fn no_entries_of<P: PatternData>(
    n: RegistrationPatternNode<P>,
    registrant_id: ID,
    is_prefix: bool,
) -> bool {
    if is_prefix {
        list_clean(n.prefix_connections.procedures@, registrant_id)
    } else {
        list_clean(n.connections.procedures@, registrant_id)
    }
}

/// Removing a callee's entries under a pattern leaves no entry of that
/// callee in the matched collection of the node where the pattern ends, so
/// a later call there cannot be handed to it through that pattern.
pub proof fn lemma_unregister_clears_registrant<P: PatternData>(
    pre: RegistrationPatternNode<P>,
    post: RegistrationPatternNode<P>,
    rest: Seq<Seq<char>>,
    registrant_id: ID,
    is_prefix: bool,
    id: ID,
)
    requires
        remove_rel(pre, post, rest, registrant_id, is_prefix, id),
    ensures
        post.node_at(rest) is Some,
        no_entries_of(post.node_at(rest).unwrap(), registrant_id, is_prefix),
    decreases rest.len(),
{
    if rest.len() == 0 {
        if is_prefix {
            lemma_drop_entries_complete(pre.prefix_connections.procedures@, registrant_id);
            assert forall|j: int|
                0 <= j < post.prefix_connections.procedures@.len() implies (#[trigger] post
                .prefix_connections.procedures@[j]).registrant.spec_id() != registrant_id by {
                assert(post.prefix_connections.procedures@[j] == drop_entries(
                    pre.prefix_connections.procedures@,
                    registrant_id,
                )[j]);
            }
        } else {
            lemma_drop_entries_complete(pre.connections.procedures@, registrant_id);
            assert forall|j: int|
                0 <= j < post.connections.procedures@.len() implies (#[trigger] post
                .connections.procedures@[j]).registrant.spec_id() != registrant_id by {
                assert(post.connections.procedures@[j] == drop_entries(
                    pre.connections.procedures@,
                    registrant_id,
                )[j]);
            }
        }
        assert(no_entries_of(post, registrant_id, is_prefix));
    } else {
        lemma_edge_index_char(pre.edges@, rest[0]);
        match edge_index(pre.edges@, rest[0]) {
            Some(k) => {
                lemma_edge_index_of(post.edges@, rest[0], k);
                lemma_unregister_clears_registrant(
                    pre.edges@[k].child,
                    post.edges@[k].child,
                    rest.skip(1),
                    registrant_id,
                    is_prefix,
                    id,
                );
            },
            None => {},
        }
    }
}

} // verus!
verus! {

/// Whether the node at `path` — if the trie has one — holds no entry of
/// the callee in the given collection.
pub open spec fn clean_at<P: PatternData>(
    t: RegistrationPatternNode<P>,
    path: Seq<Seq<char>>,
    registrant_id: ID,
    is_prefix: bool,
) -> bool {
    match t.node_at(path) {
        Some(n) => no_entries_of(n, registrant_id, is_prefix),
        None => true,
    }
}

proof fn lemma_no_entries_transfer<P: PatternData>(
    a: RegistrationPatternNode<P>,
    b: RegistrationPatternNode<P>,
    registrant_id: ID,
    is_prefix: bool,
)
    requires
        no_entries_of(a, registrant_id, is_prefix),
        is_prefix ==> b.prefix_connections.procedures@ == a.prefix_connections.procedures@,
        !is_prefix ==> b.connections.procedures@ == a.connections.procedures@,
    ensures
        no_entries_of(b, registrant_id, is_prefix),
{
}

/// A removal never brings a callee's entries back: every node already
/// clean of it stays clean, and missing nodes stay missing.
pub proof fn lemma_remove_preserves_clean<P: PatternData>(
    pre: RegistrationPatternNode<P>,
    post: RegistrationPatternNode<P>,
    path2: Seq<Seq<char>>,
    registrant_id: ID,
    is_prefix2: bool,
    id: ID,
    path1: Seq<Seq<char>>,
    is_prefix1: bool,
)
    requires
        remove_rel(pre, post, path2, registrant_id, is_prefix2, id),
        clean_at(pre, path1, registrant_id, is_prefix1),
    ensures
        clean_at(post, path1, registrant_id, is_prefix1),
    decreases path2.len(),
{
    if path2.len() == 0 {
        if path1.len() == 0 {
            assert(no_entries_of(pre, registrant_id, is_prefix1));
            if is_prefix1 == is_prefix2 {
                if is_prefix2 {
                    lemma_drop_entries_complete(
                        pre.prefix_connections.procedures@,
                        registrant_id,
                    );
                    assert forall|j: int|
                        0 <= j < post.prefix_connections.procedures@.len() implies (
                    #[trigger] post.prefix_connections.procedures@[j]).registrant.spec_id()
                        != registrant_id by {
                        assert(post.prefix_connections.procedures@[j] == drop_entries(
                            pre.prefix_connections.procedures@,
                            registrant_id,
                        )[j]);
                    }
                } else {
                    lemma_drop_entries_complete(pre.connections.procedures@, registrant_id);
                    assert forall|j: int|
                        0 <= j < post.connections.procedures@.len() implies (#[trigger] post
                        .connections.procedures@[j]).registrant.spec_id() != registrant_id by {
                        assert(post.connections.procedures@[j] == drop_entries(
                            pre.connections.procedures@,
                            registrant_id,
                        )[j]);
                    }
                }
                assert(no_entries_of(post, registrant_id, is_prefix1));
            } else {
                lemma_no_entries_transfer(pre, post, registrant_id, is_prefix1);
            }
        } else {
            assert(post.node_at(path1) == pre.node_at(path1));
        }
    } else {
        lemma_edge_index_char(pre.edges@, path2[0]);
        let k2 = edge_index(pre.edges@, path2[0]).unwrap();
        lemma_edge_index_of(post.edges@, path2[0], k2);
        if path1.len() == 0 {
            assert(no_entries_of(pre, registrant_id, is_prefix1));
            lemma_no_entries_transfer(pre, post, registrant_id, is_prefix1);
        } else {
            lemma_edge_index_char(pre.edges@, path1[0]);
            lemma_same_segments_edge_index(pre.edges@, post.edges@, path1[0]);
            match edge_index(pre.edges@, path1[0]) {
                Some(j1) => {
                    if j1 == k2 {
                        lemma_remove_preserves_clean(
                            pre.edges@[k2].child,
                            post.edges@[k2].child,
                            path2.skip(1),
                            registrant_id,
                            is_prefix2,
                            id,
                            path1.skip(1),
                            is_prefix1,
                        );
                    } else {
                        assert(post.edges@[j1] == pre.edges@[j1]);
                        assert(post.edges@[j1].child.node_at(path1.skip(1))
                            == pre.edges@[j1].child.node_at(path1.skip(1)));
                    }
                },
                None => {},
            }
        }
    }
}

/// Branch lookup sees only segments, so branch lists with viewwise equal
/// segments agree on it.
proof fn lemma_same_segments_edge_index<P>(a: Seq<Edge<P>>, b: Seq<Edge<P>>, seg: Seq<char>)
    requires
        a.len() == b.len(),
        forall|j: int| 0 <= j < a.len() ==> (#[trigger] b[j].segment)@ == a[j].segment@,
    ensures
        edge_index(a, seg) == edge_index(b, seg),
    decreases a.len(),
{
    if a.len() == 0 {
    } else {
        assert(forall|j: int| 0 <= j < a.skip(1).len() ==> a.skip(1)[j] == a[j + 1]);
        assert(forall|j: int| 0 <= j < b.skip(1).len() ==> b.skip(1)[j] == b[j + 1]);
        lemma_same_segments_edge_index(a.skip(1), b.skip(1), seg);
    }
}

} // verus!
