//! The trie that indexes topic subscriptions.  Each level of the trie holds
//! one segment of a URI between the dots; a node carries the subscribers
//! whose whole pattern ends there, apart for exact (strict or wildcard)
//! patterns and for prefix patterns, and a fixed pair of identifiers chosen
//! when the node is made.  Because the identifiers are fixed, repeated
//! subscriptions to one pattern always answer with the same identifier.
use vstd::prelude::*;

use crate::errors::Reason;
use crate::ids::random_id;
use crate::patterns::{
    check_pattern, seg_eq, segments_view, split_uri, uri_segments, valid_pattern, PatternData,
    PatternError,
};
use crate::policies::MatchingPolicy;
use crate::value::URI;
use crate::ID;

verus! {

/// A subscriber together with the matching policy of its pattern.
pub struct DataWrapper<P> {
    /// The subscriber.
    pub subscriber: P,
    /// How the pattern it subscribed with matches URIs.
    pub policy: MatchingPolicy,
}

/// One labelled branch of a trie node.
pub struct Edge<P> {
    /// The URI segment this branch consumes.
    pub segment: Vec<char>,
    /// The subtree under that segment.
    pub child: SubscriptionPatternNode<P>,
}

/// A node of the subscription trie; the root represents the empty pattern.
pub struct SubscriptionPatternNode<P> {
    /// The branches, one per distinct next segment.
    pub edges: Vec<Edge<P>>,
    /// Subscribers of exact (strict or wildcard) patterns ending here.
    pub connections: Vec<DataWrapper<P>>,
    /// Subscribers of prefix patterns ending here.
    pub prefix_connections: Vec<DataWrapper<P>>,
    /// The subscription identifier for exact patterns ending here.
    pub id: ID,
    /// The subscription identifier for prefix patterns ending here.
    pub prefix_id: ID,
}

/// The first branch consuming `seg`, as an index.
pub open spec fn edge_index<P>(s: Seq<Edge<P>>, seg: Seq<char>) -> Option<int>
    decreases s.len(),
{
    if s.len() == 0 {
        None
    } else if s[0].segment@ == seg {
        Some(0)
    } else {
        match edge_index(s.skip(1), seg) {
            Some(i) => Some(i + 1),
            None => None,
        }
    }
}

/// The first branch consuming `seg` holds it, and no earlier branch does.
pub proof fn lemma_edge_index_char<P>(s: Seq<Edge<P>>, seg: Seq<char>)
    ensures
        match edge_index(s, seg) {
            Some(k) => 0 <= k < s.len() && s[k].segment@ == seg && forall|j: int|
                0 <= j < k ==> s[j].segment@ != seg,
            None => forall|j: int| 0 <= j < s.len() ==> s[j].segment@ != seg,
        },
    decreases s.len(),
{
    if s.len() == 0 {
    } else if s[0].segment@ == seg {
    } else {
        lemma_edge_index_char(s.skip(1), seg);
        assert(forall|j: int| 0 <= j < s.skip(1).len() ==> s.skip(1)[j] == s[j + 1]);
        assert(forall|j: int| 1 <= j < s.len() ==> s[j] == s.skip(1)[j - 1]);
    }
}

/// A branch list where `seg` sits first at `k` has `k` as its index.
pub proof fn lemma_edge_index_of<P>(s: Seq<Edge<P>>, seg: Seq<char>, k: int)
    requires
        0 <= k < s.len(),
        s[k].segment@ == seg,
        forall|j: int| 0 <= j < k ==> s[j].segment@ != seg,
    ensures
        edge_index(s, seg) == Some(k),
    decreases k,
{
    if k == 0 {
    } else {
        assert(forall|j: int| 0 <= j < s.skip(1).len() ==> s.skip(1)[j] == s[j + 1]);
        lemma_edge_index_of(s.skip(1), seg, k - 1);
    }
}

impl<P> SubscriptionPatternNode<P> {
    /// The node reached by consuming `path`, if every segment has a branch.
    pub open spec fn node_at(self, path: Seq<Seq<char>>) -> Option<SubscriptionPatternNode<P>>
        decreases path.len(),
    {
        if path.len() == 0 {
            Some(self)
        } else {
            match edge_index(self.edges@, path[0]) {
                Some(k) => self.edges@[k].child.node_at(path.skip(1)),
                None => None,
            }
        }
    }
}

/// How a trie changes when a subscription is added along `rest`: every node
/// keeps its identifiers, its entries and its other branches; one branch per
/// level is followed, or appended where none consumes the next segment; and
/// the subscriber lands at the end of the final node's exact or prefix list,
/// whose exact or prefix identifier is answered.
pub open spec fn insert_rel<P>(
    pre: SubscriptionPatternNode<P>,
    post: SubscriptionPatternNode<P>,
    rest: Seq<Seq<char>>,
    sub: P,
    policy: MatchingPolicy,
    id: ID,
) -> bool
    decreases rest.len(),
{
    if rest.len() == 0 {
        &&& post.id == pre.id
        &&& post.prefix_id == pre.prefix_id
        &&& post.edges@ == pre.edges@
        &&& if policy == MatchingPolicy::Prefix {
            &&& post.prefix_connections@ == pre.prefix_connections@.push(
                DataWrapper { subscriber: sub, policy },
            )
            &&& post.connections@ == pre.connections@
            &&& id == pre.prefix_id
        } else {
            &&& post.connections@ == pre.connections@.push(
                DataWrapper { subscriber: sub, policy },
            )
            &&& post.prefix_connections@ == pre.prefix_connections@
            &&& id == pre.id
        }
    } else {
        &&& post.id == pre.id
        &&& post.prefix_id == pre.prefix_id
        &&& post.connections@ == pre.connections@
        &&& post.prefix_connections@ == pre.prefix_connections@
        &&& match edge_index(pre.edges@, rest[0]) {
            Some(k) => {
                &&& post.edges@.len() == pre.edges@.len()
                &&& forall|j: int|
                    0 <= j < pre.edges@.len() && j != k ==> post.edges@[j] == pre.edges@[j]
                &&& post.edges@[k].segment == pre.edges@[k].segment
                &&& insert_rel(
                    pre.edges@[k].child,
                    post.edges@[k].child,
                    rest.skip(1),
                    sub,
                    policy,
                    id,
                )
            },
            None => {
                &&& post.edges@.len() == pre.edges@.len() + 1
                &&& forall|j: int|
                    0 <= j < pre.edges@.len() ==> post.edges@[j] == pre.edges@[j]
                &&& post.edges@[pre.edges@.len() as int].segment@ == rest[0]
                &&& fresh_chain(post.edges@[pre.edges@.len() as int].child, rest.skip(1), sub, policy, id)
            },
        }
    }
}

/// A freshly grown chain of nodes holding one entry at its end: every node
/// on the way has one branch and no entries, and the final node holds the
/// subscriber alone, under the answered identifier.
pub open spec fn fresh_chain<P>(
    node: SubscriptionPatternNode<P>,
    rest: Seq<Seq<char>>,
    sub: P,
    policy: MatchingPolicy,
    id: ID,
) -> bool
    decreases rest.len(),
{
    if rest.len() == 0 {
        &&& node.edges@.len() == 0
        &&& if policy == MatchingPolicy::Prefix {
            &&& node.prefix_connections@ == seq![DataWrapper { subscriber: sub, policy }]
            &&& node.connections@.len() == 0
            &&& id == node.prefix_id
        } else {
            &&& node.connections@ == seq![DataWrapper { subscriber: sub, policy }]
            &&& node.prefix_connections@.len() == 0
            &&& id == node.id
        }
    } else {
        &&& node.connections@.len() == 0
        &&& node.prefix_connections@.len() == 0
        &&& node.edges@.len() == 1
        &&& node.edges@[0].segment@ == rest[0]
        &&& fresh_chain(node.edges@[0].child, rest.skip(1), sub, policy, id)
    }
}

/// The entry list after dropping every entry of one subscriber.
pub open spec fn drop_entries<P: PatternData>(s: Seq<DataWrapper<P>>, sub_id: ID) -> Seq<
    DataWrapper<P>,
>
    decreases s.len(),
{
    if s.len() == 0 {
        s
    } else if s[0].subscriber.spec_id() == sub_id {
        drop_entries(s.skip(1), sub_id)
    } else {
        seq![s[0]] + drop_entries(s.skip(1), sub_id)
    }
}

/// How a trie changes when one subscriber's entries are removed at the end
/// of `rest`: the walk follows existing branches only, every node keeps its
/// identifiers and branches, and the final node's chosen list drops the
/// subscriber's entries.
pub open spec fn remove_rel<P: PatternData>(
    pre: SubscriptionPatternNode<P>,
    post: SubscriptionPatternNode<P>,
    rest: Seq<Seq<char>>,
    sub_id: ID,
    is_prefix: bool,
    id: ID,
) -> bool
    decreases rest.len(),
{
    if rest.len() == 0 {
        &&& post.id == pre.id
        &&& post.prefix_id == pre.prefix_id
        &&& post.edges@ == pre.edges@
        &&& if is_prefix {
            &&& post.prefix_connections@ == drop_entries(pre.prefix_connections@, sub_id)
            &&& post.connections@ == pre.connections@
            &&& id == pre.prefix_id
        } else {
            &&& post.connections@ == drop_entries(pre.connections@, sub_id)
            &&& post.prefix_connections@ == pre.prefix_connections@
            &&& id == pre.id
        }
    } else {
        &&& post.id == pre.id
        &&& post.prefix_id == pre.prefix_id
        &&& post.connections@ == pre.connections@
        &&& post.prefix_connections@ == pre.prefix_connections@
        &&& match edge_index(pre.edges@, rest[0]) {
            Some(k) => {
                &&& post.edges@.len() == pre.edges@.len()
                &&& forall|j: int|
                    0 <= j < pre.edges@.len() && j != k ==> post.edges@[j] == pre.edges@[j]
                &&& post.edges@[k].segment == pre.edges@[k].segment
                &&& remove_rel(
                    pre.edges@[k].child,
                    post.edges@[k].child,
                    rest.skip(1),
                    sub_id,
                    is_prefix,
                    id,
                )
            },
            None => false,
        }
    }
}

/// Every subscriber that a publication to `uri` reaches, in delivery order.
/// At each node along the way: first the prefix subscribers stored there;
/// at the end of the URI, the exact subscribers; otherwise the wildcard
/// branch first, the literal branch second.  Each subscriber comes with the
/// identifier of its own subscription and its matching policy.
pub open spec fn spec_matches<P>(
    node: SubscriptionPatternNode<P>,
    uri: Seq<Seq<char>>,
    depth: int,
) -> Seq<(P, ID, MatchingPolicy)>
    decreases node, uri.len() - depth,
{
    let here = node.prefix_connections@.map(
        |i: int, w: DataWrapper<P>| (w.subscriber, node.prefix_id, w.policy),
    );
    if depth >= uri.len() {
        here + node.connections@.map(
            |i: int, w: DataWrapper<P>| (w.subscriber, node.id, w.policy),
        )
    } else {
        let wild = match edge_index(node.edges@, Seq::<char>::empty()) {
            Some(k) => if 0 <= k < node.edges@.len() {
                spec_matches(node.edges@[k].child, uri, depth + 1)
            } else {
                Seq::<(P, ID, MatchingPolicy)>::empty()
            },
            None => Seq::<(P, ID, MatchingPolicy)>::empty(),
        };
        let lit = match edge_index(node.edges@, uri[depth]) {
            Some(k) => if 0 <= k < node.edges@.len() {
                spec_matches(node.edges@[k].child, uri, depth + 1)
            } else {
                Seq::<(P, ID, MatchingPolicy)>::empty()
            },
            None => Seq::<(P, ID, MatchingPolicy)>::empty(),
        };
        here + wild + lit
    }
}

/// A lazy cursor over the subscribers matching one publication.
pub struct MatchIterator<P> {
    /// The matches, in delivery order.
    pub items: Vec<(P, ID, MatchingPolicy)>,
    /// How many have been handed out.
    pub pos: usize,
}

impl<P: Copy> MatchIterator<P> {
    /// Hands out the next match, left to right.
    pub fn next(&mut self) -> (r: Option<(P, ID, MatchingPolicy)>)
        ensures
            final(self).items == old(self).items,
            match r {
                Some(item) => old(self).pos < old(self).items@.len() && item == old(
                    self,
                ).items@[old(self).pos as int] && final(self).pos == old(self).pos + 1,
                None => old(self).pos >= old(self).items@.len() && final(self).pos == old(
                    self,
                ).pos,
            },
    {
        if self.pos < self.items.len() {
            let item = self.items[self.pos];
            self.pos = self.pos + 1;
            Some(item)
        } else {
            None
        }
    }
}

fn copy_seg(v: &Vec<char>) -> (r: Vec<char>)
    ensures
        r@ == v@,
{
    let mut out: Vec<char> = Vec::new();
    let mut i: usize = 0;
    while i < v.len()
        invariant
            0 <= i <= v@.len(),
            out@ == v@.take(i as int),
        decreases v@.len() - i,
    {
        out.push(v[i]);
        proof {
            assert(v@.take(i + 1) =~= v@.take(i as int).push(v@[i as int]));
        }
        i = i + 1;
    }
    proof {
        assert(v@.take(v@.len() as int) =~= v@);
    }
    out
}

impl<P: PatternData> SubscriptionPatternNode<P> {
    /// Makes an empty node with freshly drawn identifiers, to serve as the
    /// root of a trie.
    pub fn new() -> (n: SubscriptionPatternNode<P>)
        ensures
            n.edges@.len() == 0,
            n.connections@.len() == 0,
            n.prefix_connections@.len() == 0,
            1 <= n.id < 0x20000000000000u64,
            1 <= n.prefix_id < 0x20000000000000u64,
    {
        SubscriptionPatternNode {
            edges: Vec::new(),
            connections: Vec::new(),
            prefix_connections: Vec::new(),
            id: random_id(),
            prefix_id: random_id(),
        }
    }

    fn find_edge(&self, seg: &Vec<char>) -> (r: Option<usize>)
        ensures
            match r {
                Some(k) => k < self.edges@.len() && edge_index(self.edges@, seg@) == Some(
                    k as int,
                ),
                None => edge_index(self.edges@, seg@) is None,
            },
    {
        let mut i: usize = 0;
        while i < self.edges.len()
            invariant
                0 <= i <= self.edges@.len(),
                forall|j: int| 0 <= j < i ==> self.edges@[j].segment@ != seg@,
            decreases self.edges@.len() - i,
        {
            if seg_eq(&self.edges[i].segment, seg) {
                proof {
                    lemma_edge_index_of(self.edges@, seg@, i as int);
                }
                return Some(i);
            }
            i = i + 1;
        }
        proof {
            lemma_edge_index_char(self.edges@, seg@);
        }
        None
    }

    /// Adds a subscription under the given pattern; a pattern holding an
    /// empty segment after its first is refused unless the policy is the
    /// wildcard policy.  On success the answered identifier is the one fixed
    /// in the node where the pattern ends, so a repeated subscription to the
    /// same pattern answers the same identifier.
    pub fn subscribe_with(&mut self, topic: &URI, subscriber: P, matching_policy: MatchingPolicy)
        -> (r: Result<ID, PatternError>)
        ensures
            match r {
                Ok(id) => valid_pattern(uri_segments(topic.uri@), matching_policy) && insert_rel(
                    *old(self),
                    *final(self),
                    uri_segments(topic.uri@),
                    subscriber,
                    matching_policy,
                    id,
                ),
                Err(e) => e.reason == Reason::InvalidURI && !valid_pattern(
                    uri_segments(topic.uri@),
                    matching_policy,
                ) && *final(self) == *old(self),
            },
    {
        let segs = split_uri(topic.uri.as_str());
        if !check_pattern(&segs, matching_policy) {
            return Err(PatternError::new(Reason::InvalidURI));
        }
        let id = self.add_subscription(&segs, 0, subscriber, matching_policy);
        proof {
            assert(segments_view(segs@).skip(0) =~= uri_segments(topic.uri@));
        }
        Ok(id)
    }

    fn add_subscription(
        &mut self,
        segs: &Vec<Vec<char>>,
        depth: usize,
        subscriber: P,
        matching_policy: MatchingPolicy,
    ) -> (id: ID)
        requires
            depth <= segs@.len(),
        ensures
            insert_rel(
                *old(self),
                *final(self),
                segments_view(segs@).skip(depth as int),
                subscriber,
                matching_policy,
                id,
            ),
        decreases segs@.len() - depth,
    {
        let ghost rest = segments_view(segs@).skip(depth as int);
        if depth == segs.len() {
            if matching_policy == MatchingPolicy::Prefix {
                self.prefix_connections.push(
                    DataWrapper { subscriber, policy: matching_policy },
                );
                self.prefix_id
            } else {
                self.connections.push(DataWrapper { subscriber, policy: matching_policy });
                self.id
            }
        } else {
            proof {
                assert(rest[0] == segs@[depth as int]@);
                assert(rest.skip(1) =~= segments_view(segs@).skip(depth + 1));
            }
            match self.find_edge(&segs[depth]) {
                Some(k) => {
                    let ghost pre_edges = self.edges@;
                    let mut edge = self.edges.remove(k);
                    let id = edge.child.add_subscription(segs, depth + 1, subscriber,
                        matching_policy);
                    self.edges.insert(k, edge);
                    proof {
                        assert(forall|j: int|
                            0 <= j < pre_edges.len() && j != k ==> self.edges@[j] == pre_edges[j]);
                    }
                    id
                },
                None => {
                    let mut child: SubscriptionPatternNode<P> = SubscriptionPatternNode::new();
                    let ghost fresh = child;
                    let id = child.add_subscription(segs, depth + 1, subscriber, matching_policy);
                    proof {
                        lemma_insert_into_fresh(
                            fresh,
                            child,
                            rest.skip(1),
                            subscriber,
                            matching_policy,
                            id,
                        );
                    }
                    self.edges.push(Edge { segment: copy_seg(&segs[depth]), child });
                    id
                },
            }
        }
    }

    fn path_exists(&self, segs: &Vec<Vec<char>>, depth: usize) -> (r: bool)
        requires
            depth <= segs@.len(),
        ensures
            r == (self.node_at(segments_view(segs@).skip(depth as int)) is Some),
        decreases segs@.len() - depth,
    {
        let ghost rest = segments_view(segs@).skip(depth as int);
        if depth == segs.len() {
            true
        } else {
            proof {
                assert(rest[0] == segs@[depth as int]@);
                assert(rest.skip(1) =~= segments_view(segs@).skip(depth + 1));
            }
            match self.find_edge(&segs[depth]) {
                Some(k) => self.edges[k].child.path_exists(segs, depth + 1),
                None => false,
            }
        }
    }

    /// Removes every subscription of the given subscriber under the given
    /// pattern; a pattern whose path is not in the trie is refused.  The
    /// answered identifier is the one the subscription was made under.
    pub fn unsubscribe_with(&mut self, topic: &str, subscriber: &P, is_prefix: bool) -> (r: Result<
        ID,
        PatternError,
    >)
        ensures
            match r {
                Ok(id) => remove_rel(
                    *old(self),
                    *final(self),
                    uri_segments(topic@),
                    subscriber.spec_id(),
                    is_prefix,
                    id,
                ),
                Err(e) => e.reason == Reason::InvalidURI && *final(self) == *old(self)
                    && (*old(self)).node_at(uri_segments(topic@)) is None,
            },
    {
        let segs = split_uri(topic);
        let sub_id = subscriber.get_id();
        proof {
            assert(segments_view(segs@).skip(0) =~= uri_segments(topic@));
        }
        if !self.path_exists(&segs, 0) {
            return Err(PatternError::new(Reason::InvalidURI));
        }
        Ok(self.remove_subscription(&segs, 0, sub_id, is_prefix))
    }

    fn remove_subscription(
        &mut self,
        segs: &Vec<Vec<char>>,
        depth: usize,
        sub_id: ID,
        is_prefix: bool,
    ) -> (id: ID)
        requires
            depth <= segs@.len(),
            (*old(self)).node_at(segments_view(segs@).skip(depth as int)) is Some,
        ensures
            remove_rel(
                *old(self),
                *final(self),
                segments_view(segs@).skip(depth as int),
                sub_id,
                is_prefix,
                id,
            ),
        decreases segs@.len() - depth,
    {
        let ghost rest = segments_view(segs@).skip(depth as int);
        if depth == segs.len() {
            if is_prefix {
                let id = self.prefix_id;
                drop_matching_entries(&mut self.prefix_connections, sub_id);
                id
            } else {
                let id = self.id;
                drop_matching_entries(&mut self.connections, sub_id);
                id
            }
        } else {
            proof {
                assert(rest[0] == segs@[depth as int]@);
                assert(rest.skip(1) =~= segments_view(segs@).skip(depth + 1));
            }
            match self.find_edge(&segs[depth]) {
                Some(k) => {
                    let ghost pre_edges = self.edges@;
                    let mut edge = self.edges.remove(k);
                    let id = edge.child.remove_subscription(segs, depth + 1, sub_id, is_prefix);
                    self.edges.insert(k, edge);
                    proof {
                        assert(forall|j: int|
                            0 <= j < pre_edges.len() && j != k ==> self.edges@[j] == pre_edges[j]);
                    }
                    id
                },
                None => {
                    proof {
                        assert(false);
                    }
                    0
                },
            }
        }
    }

    /// Collects every subscriber matching the given topic, in delivery
    /// order, behind a cursor.  The matches are gathered eagerly and the
    /// cursor streams from the gathered list.
    pub fn filter(&self, topic: URI) -> (it: MatchIterator<P>) where P: Copy
        ensures
            it.items@ == spec_matches(*self, uri_segments(topic.uri@), 0),
            it.pos == 0,
    {
        let segs = split_uri(topic.uri.as_str());
        let mut items: Vec<(P, ID, MatchingPolicy)> = Vec::new();
        self.collect_matches(&segs, 0, &mut items);
        proof {
            assert(items@ =~= spec_matches(*self, uri_segments(topic.uri@), 0));
        }
        MatchIterator { items, pos: 0 }
    }

    fn collect_matches(
        &self,
        uri: &Vec<Vec<char>>,
        depth: usize,
        out: &mut Vec<(P, ID, MatchingPolicy)>,
    ) where P: Copy
        requires
            depth <= uri@.len(),
        ensures
            final(out)@ == old(out)@ + spec_matches(*self, segments_view(uri@), depth as int),
        decreases *self,
    {
        let ghost uview = segments_view(uri@);
        let ghost base = out@;
        let mut i: usize = 0;
        while i < self.prefix_connections.len()
            invariant
                0 <= i <= self.prefix_connections@.len(),
                out@ == base + self.prefix_connections@.map(
                    |j: int, w: DataWrapper<P>| (w.subscriber, self.prefix_id, w.policy),
                ).take(i as int),
            decreases self.prefix_connections@.len() - i,
        {
            let w = &self.prefix_connections[i];
            out.push((w.subscriber, self.prefix_id, w.policy));
            proof {
                let m = self.prefix_connections@.map(
                    |j: int, w: DataWrapper<P>| (w.subscriber, self.prefix_id, w.policy),
                );
                assert(m.take(i + 1) =~= m.take(i as int).push(m[i as int]));
            }
            i = i + 1;
        }
        proof {
            let m = self.prefix_connections@.map(
                |j: int, w: DataWrapper<P>| (w.subscriber, self.prefix_id, w.policy),
            );
            assert(m.take(m.len() as int) =~= m);
        }
        if depth == uri.len() {
            let ghost base2 = out@;
            let mut i2: usize = 0;
            while i2 < self.connections.len()
                invariant
                    0 <= i2 <= self.connections@.len(),
                    out@ == base2 + self.connections@.map(
                        |j: int, w: DataWrapper<P>| (w.subscriber, self.id, w.policy),
                    ).take(i2 as int),
                decreases self.connections@.len() - i2,
            {
                let w = &self.connections[i2];
                out.push((w.subscriber, self.id, w.policy));
                proof {
                    let m = self.connections@.map(
                        |j: int, w: DataWrapper<P>| (w.subscriber, self.id, w.policy),
                    );
                    assert(m.take(i2 + 1) =~= m.take(i2 as int).push(m[i2 as int]));
                }
                i2 = i2 + 1;
            }
            proof {
                let m = self.connections@.map(
                    |j: int, w: DataWrapper<P>| (w.subscriber, self.id, w.policy),
                );
                assert(m.take(m.len() as int) =~= m);
                assert(out@ =~= base + spec_matches(*self, uview, depth as int));
            }
        } else {
            let empty_seg: Vec<char> = Vec::new();
            match self.find_edge(&empty_seg) {
                Some(k) => {
                    self.edges[k].child.collect_matches(uri, depth + 1, out);
                },
                None => {},
            }
            match self.find_edge(&uri[depth]) {
                Some(k) => {
                    self.edges[k].child.collect_matches(uri, depth + 1, out);
                },
                None => {},
            }
            proof {
                assert(out@ =~= base + spec_matches(*self, uview, depth as int));
            }
        }
    }
}

fn drop_matching_entries<P: PatternData>(list: &mut Vec<DataWrapper<P>>, sub_id: ID)
    ensures
        final(list)@ == drop_entries(old(list)@, sub_id),
{
    let ghost orig = list@;
    let mut i: usize = 0;
    proof {
        assert(list@.skip(0) =~= orig);
        assert(list@.take(0) + drop_entries(orig, sub_id) =~= drop_entries(orig, sub_id));
    }
    while i < list.len()
        invariant
            0 <= i <= list@.len(),
            forall|j: int| 0 <= j < i ==> list@[j].subscriber.spec_id() != sub_id,
            drop_entries(orig, sub_id) == list@.take(i as int) + drop_entries(
                list@.skip(i as int),
                sub_id,
            ),
        decreases list@.len() - i,
    {
        let ghost cur = list@;
        if list[i].subscriber.get_id() == sub_id {
            list.remove(i);
            proof {
                assert(list@ =~= cur.remove(i as int));
                assert(cur.skip(i as int).skip(1) =~= list@.skip(i as int));
                assert(cur.skip(i as int)[0] == cur[i as int]);
                assert(list@.take(i as int) =~= cur.take(i as int));
            }
        } else {
            proof {
                assert(cur.skip(i as int)[0] == cur[i as int]);
                assert(cur.skip(i as int).skip(1) =~= cur.skip(i + 1));
                assert(cur.take(i + 1) =~= cur.take(i as int).push(cur[i as int]));
                assert(cur.take(i as int) + (seq![cur[i as int]] + drop_entries(
                    cur.skip(i + 1),
                    sub_id,
                )) =~= cur.take(i + 1) + drop_entries(cur.skip(i + 1), sub_id));
            }
            i = i + 1;
        }
    }
    proof {
        assert(list@.skip(i as int) =~= Seq::<DataWrapper<P>>::empty());
        assert(list@.take(i as int) =~= list@);
    }
}

proof fn lemma_insert_into_fresh<P>(
    pre: SubscriptionPatternNode<P>,
    post: SubscriptionPatternNode<P>,
    rest: Seq<Seq<char>>,
    sub: P,
    policy: MatchingPolicy,
    id: ID,
)
    requires
        pre.edges@.len() == 0,
        pre.connections@.len() == 0,
        pre.prefix_connections@.len() == 0,
        insert_rel(pre, post, rest, sub, policy, id),
    ensures
        fresh_chain(post, rest, sub, policy, id),
{
    if rest.len() == 0 {
        if policy == MatchingPolicy::Prefix {
            assert(post.prefix_connections@ =~= seq![DataWrapper { subscriber: sub, policy }]);
        } else {
            assert(post.connections@ =~= seq![DataWrapper { subscriber: sub, policy }]);
        }
    } else {
        assert(edge_index(pre.edges@, rest[0]) is None);
    }
}

/// Repeated subscriptions to one pattern answer the same identifier, even
/// from different subscribers: the identifier is fixed in the node where
/// the pattern ends, and adding a subscription never changes it.
pub proof fn lemma_repeated_subscription_same_id<P>(
    t0: SubscriptionPatternNode<P>,
    t1: SubscriptionPatternNode<P>,
    t2: SubscriptionPatternNode<P>,
    segs: Seq<Seq<char>>,
    sub_a: P,
    sub_b: P,
    policy: MatchingPolicy,
    id1: ID,
    id2: ID,
)
    requires
        insert_rel(t0, t1, segs, sub_a, policy, id1),
        insert_rel(t1, t2, segs, sub_b, policy, id2),
    ensures
        id1 == id2,
    decreases segs.len(),
{
    if segs.len() == 0 {
    } else {
        lemma_edge_index_char(t0.edges@, segs[0]);
        match edge_index(t0.edges@, segs[0]) {
            Some(k) => {
                lemma_edge_index_of(t1.edges@, segs[0], k);
                lemma_repeated_subscription_same_id(
                    t0.edges@[k].child,
                    t1.edges@[k].child,
                    t2.edges@[k].child,
                    segs.skip(1),
                    sub_a,
                    sub_b,
                    policy,
                    id1,
                    id2,
                );
            },
            None => {
                let k = t0.edges@.len() as int;
                lemma_edge_index_of(t1.edges@, segs[0], k);
                lemma_fresh_then_insert_same_id(
                    t1.edges@[k].child,
                    t2.edges@[k].child,
                    segs.skip(1),
                    sub_a,
                    sub_b,
                    policy,
                    id1,
                    id2,
                );
            },
        }
    }
}

proof fn lemma_fresh_then_insert_same_id<P>(
    c: SubscriptionPatternNode<P>,
    c2: SubscriptionPatternNode<P>,
    rest: Seq<Seq<char>>,
    sub_a: P,
    sub_b: P,
    policy: MatchingPolicy,
    id1: ID,
    id2: ID,
)
    requires
        fresh_chain(c, rest, sub_a, policy, id1),
        insert_rel(c, c2, rest, sub_b, policy, id2),
    ensures
        id1 == id2,
    decreases rest.len(),
{
    if rest.len() == 0 {
    } else {
        lemma_edge_index_of(c.edges@, rest[0], 0);
        lemma_fresh_then_insert_same_id(
            c.edges@[0].child,
            c2.edges@[0].child,
            rest.skip(1),
            sub_a,
            sub_b,
            policy,
            id1,
            id2,
        );
    }
}

} // verus!
verus! {

proof fn lemma_drop_entries_complete<P: PatternData>(s: Seq<DataWrapper<P>>, sub_id: ID)
    ensures
        forall|j: int|
            0 <= j < drop_entries(s, sub_id).len() ==> (#[trigger] drop_entries(s, sub_id)[j])
                .subscriber.spec_id() != sub_id,
    decreases s.len(),
{
    if s.len() == 0 {
    } else {
        lemma_drop_entries_complete(s.skip(1), sub_id);
        if s[0].subscriber.spec_id() != sub_id {
            assert(forall|j: int|
                1 <= j < drop_entries(s, sub_id).len() ==> drop_entries(s, sub_id)[j]
                    == drop_entries(s.skip(1), sub_id)[j - 1]);
        }
    }
}

/// Whether an entry list holds no entry of the given subscriber.
pub open spec fn list_clean<P: PatternData>(entries: Seq<DataWrapper<P>>, sub_id: ID) -> bool {
    forall|j: int|
        0 <= j < entries.len() ==> (#[trigger] entries[j]).subscriber.spec_id() != sub_id
}

/// Whether the node's exact or prefix list holds no entry of the given
/// subscriber.
pub open spec fn no_entries_of<P: PatternData>(
    n: SubscriptionPatternNode<P>,
    sub_id: ID,
    is_prefix: bool,
) -> bool {
    if is_prefix {
        list_clean(n.prefix_connections@, sub_id)
    } else {
        list_clean(n.connections@, sub_id)
    }
}

/// Removing a subscriber's entries under a pattern leaves no entry of that
/// subscriber in the matched list of the node where the pattern ends, so a
/// later publication there cannot reach it through that pattern.
pub proof fn lemma_unsubscribe_clears_subscriber<P: PatternData>(
    pre: SubscriptionPatternNode<P>,
    post: SubscriptionPatternNode<P>,
    rest: Seq<Seq<char>>,
    sub_id: ID,
    is_prefix: bool,
    id: ID,
)
    requires
        remove_rel(pre, post, rest, sub_id, is_prefix, id),
    ensures
        post.node_at(rest) is Some,
        no_entries_of(post.node_at(rest).unwrap(), sub_id, is_prefix),
    decreases rest.len(),
{
    if rest.len() == 0 {
        if is_prefix {
            lemma_drop_entries_complete(pre.prefix_connections@, sub_id);
            assert forall|j: int| 0 <= j < post.prefix_connections@.len() implies (#[trigger] post
                .prefix_connections@[j]).subscriber.spec_id() != sub_id by {
                assert(post.prefix_connections@[j] == drop_entries(
                    pre.prefix_connections@,
                    sub_id,
                )[j]);
            }
        } else {
            lemma_drop_entries_complete(pre.connections@, sub_id);
            assert forall|j: int| 0 <= j < post.connections@.len() implies (#[trigger] post
                .connections@[j]).subscriber.spec_id() != sub_id by {
                assert(post.connections@[j] == drop_entries(pre.connections@, sub_id)[j]);
            }
        }
        assert(no_entries_of(post, sub_id, is_prefix));
    } else {
        lemma_edge_index_char(pre.edges@, rest[0]);
        match edge_index(pre.edges@, rest[0]) {
            Some(k) => {
                lemma_edge_index_of(post.edges@, rest[0], k);
                lemma_unsubscribe_clears_subscriber(
                    pre.edges@[k].child,
                    post.edges@[k].child,
                    rest.skip(1),
                    sub_id,
                    is_prefix,
                    id,
                );
            },
            None => {},
        }
    }
}

} // verus!
verus! {

/// Whether the node at `path` — if the trie has one — holds no entry of
/// the subscriber in the given list.
pub open spec fn clean_at<P: PatternData>(
    t: SubscriptionPatternNode<P>,
    path: Seq<Seq<char>>,
    sub_id: ID,
    is_prefix: bool,
) -> bool {
    match t.node_at(path) {
        Some(n) => no_entries_of(n, sub_id, is_prefix),
        None => true,
    }
}

/// A node whose relevant list equals a clean node's list is clean.
proof fn lemma_no_entries_transfer<P: PatternData>(
    a: SubscriptionPatternNode<P>,
    b: SubscriptionPatternNode<P>,
    sub_id: ID,
    is_prefix: bool,
)
    requires
        no_entries_of(a, sub_id, is_prefix),
        is_prefix ==> b.prefix_connections@ == a.prefix_connections@,
        !is_prefix ==> b.connections@ == a.connections@,
    ensures
        no_entries_of(b, sub_id, is_prefix),
{
}

/// A removal never brings a subscriber's entries back: every node already
/// clean of it stays clean, and missing nodes stay missing.
pub proof fn lemma_remove_preserves_clean<P: PatternData>(
    pre: SubscriptionPatternNode<P>,
    post: SubscriptionPatternNode<P>,
    path2: Seq<Seq<char>>,
    sub_id: ID,
    is_prefix2: bool,
    id: ID,
    path1: Seq<Seq<char>>,
    is_prefix1: bool,
)
    requires
        remove_rel(pre, post, path2, sub_id, is_prefix2, id),
        clean_at(pre, path1, sub_id, is_prefix1),
    ensures
        clean_at(post, path1, sub_id, is_prefix1),
    decreases path2.len(),
{
    if path2.len() == 0 {
        if path1.len() == 0 {
            assert(no_entries_of(pre, sub_id, is_prefix1));
            if is_prefix1 == is_prefix2 {
                if is_prefix2 {
                    lemma_drop_entries_complete(pre.prefix_connections@, sub_id);
                    assert forall|j: int|
                        0 <= j < post.prefix_connections@.len() implies (#[trigger] post
                        .prefix_connections@[j]).subscriber.spec_id() != sub_id by {
                        assert(post.prefix_connections@[j] == drop_entries(
                            pre.prefix_connections@,
                            sub_id,
                        )[j]);
                    }
                } else {
                    lemma_drop_entries_complete(pre.connections@, sub_id);
                    assert forall|j: int|
                        0 <= j < post.connections@.len() implies (#[trigger] post
                        .connections@[j]).subscriber.spec_id() != sub_id by {
                        assert(post.connections@[j] == drop_entries(pre.connections@, sub_id)[j]);
                    }
                }
                assert(no_entries_of(post, sub_id, is_prefix1));
            } else {
                lemma_no_entries_transfer(pre, post, sub_id, is_prefix1);
            }
        } else {
            assert(post.node_at(path1) == pre.node_at(path1));
        }
    } else {
        lemma_edge_index_char(pre.edges@, path2[0]);
        let k2 = edge_index(pre.edges@, path2[0]).unwrap();
        lemma_edge_index_of(post.edges@, path2[0], k2);
        if path1.len() == 0 {
            assert(no_entries_of(pre, sub_id, is_prefix1));
            lemma_no_entries_transfer(pre, post, sub_id, is_prefix1);
        } else {
            lemma_edge_index_char(pre.edges@, path1[0]);
            lemma_same_segments_edge_index(pre.edges@, post.edges@, path1[0]);
            match edge_index(pre.edges@, path1[0]) {
                Some(j1) => {
                    if j1 == k2 {
                        lemma_remove_preserves_clean(
                            pre.edges@[k2].child,
                            post.edges@[k2].child,
                            path2.skip(1),
                            sub_id,
                            is_prefix2,
                            id,
                            path1.skip(1),
                            is_prefix1,
                        );
                    } else {
                        assert(post.edges@[j1] == pre.edges@[j1]);
                        assert(post.edges@[j1].child.node_at(path1.skip(1))
                            == pre.edges@[j1].child.node_at(path1.skip(1)));
                    }
                },
                None => {},
            }
        }
    }
}

/// Branch lookup sees only segments, so branch lists with viewwise equal
/// segments agree on it.
proof fn lemma_same_segments_edge_index<P>(a: Seq<Edge<P>>, b: Seq<Edge<P>>, seg: Seq<char>)
    requires
        a.len() == b.len(),
        forall|j: int| 0 <= j < a.len() ==> (#[trigger] b[j].segment)@ == a[j].segment@,
    ensures
        edge_index(a, seg) == edge_index(b, seg),
    decreases a.len(),
{
    if a.len() == 0 {
    } else {
        assert(forall|j: int| 0 <= j < a.skip(1).len() ==> a.skip(1)[j] == a[j + 1]);
        assert(forall|j: int| 0 <= j < b.skip(1).len() ==> b.skip(1)[j] == b[j + 1]);
        lemma_same_segments_edge_index(a.skip(1), b.skip(1), seg);
    }
}

} // verus!
