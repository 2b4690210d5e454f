//! The subscription trie: adding, matching and removing patterns.
use wampire::{MatchingPolicy, SubscriptionPatternNode, URI};

fn collect_ids(root: &SubscriptionPatternNode<u64>, topic: &str) -> Vec<u64> {
    let mut it = root.filter(URI::new(topic));
    let mut ids = Vec::new();
    while let Some((_connection, id, _policy)) = it.next() {
        ids.push(id);
    }
    ids
}

#[test]
fn adding_patterns() {
    let connection1: u64 = 1;
    let connection2: u64 = 2;
    let connection3: u64 = 3;
    let connection4: u64 = 4;
    let mut root = SubscriptionPatternNode::new();

    let ids = [
        root.subscribe_with(
            &URI::new("com.example.test..topic"),
            connection1,
            MatchingPolicy::Wildcard,
        )
        .unwrap(),
        root.subscribe_with(
            &URI::new("com.example.test.specific.topic"),
            connection2,
            MatchingPolicy::Strict,
        )
        .unwrap(),
        root.subscribe_with(&URI::new("com.example"), connection3, MatchingPolicy::Prefix)
            .unwrap(),
        root.subscribe_with(&URI::new("com.example.test"), connection4, MatchingPolicy::Prefix)
            .unwrap(),
    ];

    assert_eq!(
        collect_ids(&root, "com.example.test.specific.topic"),
        vec![ids[2], ids[3], ids[0], ids[1]]
    );
}

#[test]
fn removing_patterns() {
    let connection1: u64 = 1;
    let connection2: u64 = 2;
    let connection3: u64 = 3;
    let connection4: u64 = 4;
    let mut root = SubscriptionPatternNode::new();

    let ids = [
        root.subscribe_with(
            &URI::new("com.example.test..topic"),
            connection1,
            MatchingPolicy::Wildcard,
        )
        .unwrap(),
        root.subscribe_with(
            &URI::new("com.example.test.specific.topic"),
            connection2,
            MatchingPolicy::Strict,
        )
        .unwrap(),
        root.subscribe_with(&URI::new("com.example"), connection3, MatchingPolicy::Prefix)
            .unwrap(),
        root.subscribe_with(&URI::new("com.example.test"), connection4, MatchingPolicy::Prefix)
            .unwrap(),
    ];

    root.unsubscribe_with("com.example.test..topic", &connection1, false)
        .unwrap();
    root.unsubscribe_with("com.example.test", &connection4, true)
        .unwrap();

    assert_eq!(
        collect_ids(&root, "com.example.test.specific.topic"),
        vec![ids[2], ids[1]]
    );
}

#[test]
fn repeated_subscription_same_id() {
    let mut root = SubscriptionPatternNode::new();
    let first = root
        .subscribe_with(&URI::new("com.example.topic"), 1u64, MatchingPolicy::Strict)
        .unwrap();
    let second = root
        .subscribe_with(&URI::new("com.example.topic"), 2u64, MatchingPolicy::Strict)
        .unwrap();
    assert_eq!(first, second);
}

#[test]
fn invalid_pattern_is_refused() {
    let mut root = SubscriptionPatternNode::new();
    let r = root.subscribe_with(&URI::new("com..topic"), 1u64, MatchingPolicy::Strict);
    assert!(r.is_err());
    assert_eq!(r.err().unwrap().reason(), wampire::Reason::InvalidURI);
}
