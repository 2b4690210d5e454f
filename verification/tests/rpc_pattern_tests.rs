//! The registration trie: adding, resolving and removing patterns, and the
//! shared-registration rule.
use wampire::{InvocationPolicy, MatchingPolicy, Reason, RegistrationPatternNode, URI};

#[test]
fn patterns_adding_patterns() {
    let connection1: u64 = 1;
    let connection2: u64 = 2;
    let connection3: u64 = 3;
    let connection4: u64 = 4;
    let mut root = RegistrationPatternNode::new();

    let ids = [
        root.register_with(
            &URI::new("com.example.test..topic"),
            connection1,
            MatchingPolicy::Wildcard,
            InvocationPolicy::Single,
        )
        .unwrap(),
        root.register_with(
            &URI::new("com.example.test.specific.topic"),
            connection2,
            MatchingPolicy::Strict,
            InvocationPolicy::Single,
        )
        .unwrap(),
        root.register_with(
            &URI::new("com.example"),
            connection3,
            MatchingPolicy::Prefix,
            InvocationPolicy::Single,
        )
        .unwrap(),
        root.register_with(
            &URI::new("com.example.test"),
            connection4,
            MatchingPolicy::Prefix,
            InvocationPolicy::Single,
        )
        .unwrap(),
    ];
    println!("ids: {:?}", ids);

    assert_eq!(
        root.get_registrant_for(URI::new("com.example.test.specific.topic"))
            .unwrap()
            .1,
        ids[1]
    );
    assert_eq!(
        root.get_registrant_for(URI::new("com.example.test.another.topic"))
            .unwrap()
            .1,
        ids[0]
    );
    assert_eq!(
        root.get_registrant_for(URI::new("com.example.test.another"))
            .unwrap()
            .1,
        ids[3]
    );
    assert_eq!(
        root.get_registrant_for(URI::new("com.example")).unwrap().1,
        ids[2]
    );
}

#[test]
fn patterns_removing_patterns() {
    let connection1: u64 = 1;
    let connection2: u64 = 2;
    let connection3: u64 = 3;
    let connection4: u64 = 4;
    let mut root = RegistrationPatternNode::new();

    let ids = [
        root.register_with(
            &URI::new("com.example.test..topic"),
            connection1,
            MatchingPolicy::Wildcard,
            InvocationPolicy::Single,
        )
        .unwrap(),
        root.register_with(
            &URI::new("com.example.test.specific.topic"),
            connection2,
            MatchingPolicy::Strict,
            InvocationPolicy::Single,
        )
        .unwrap(),
        root.register_with(
            &URI::new("com.example"),
            connection3,
            MatchingPolicy::Prefix,
            InvocationPolicy::Single,
        )
        .unwrap(),
        root.register_with(
            &URI::new("com.example.test"),
            connection4,
            MatchingPolicy::Prefix,
            InvocationPolicy::Single,
        )
        .unwrap(),
    ];

    root.unregister_with("com.example.test..topic", &connection1, false)
        .unwrap();
    root.unregister_with("com.example.test", &connection4, true)
        .unwrap();

    println!("ids: {:?}", ids);
    assert_eq!(
        root.get_registrant_for(URI::new("com.example.test.specific.topic"))
            .unwrap()
            .1,
        ids[1]
    );
}

#[test]
fn single_policy_refuses_second_registrant() {
    let mut root = RegistrationPatternNode::new();
    root.register_with(
        &URI::new("ca.test.single"),
        1u64,
        MatchingPolicy::Strict,
        InvocationPolicy::Single,
    )
    .unwrap();
    let second = root.register_with(
        &URI::new("ca.test.single"),
        2u64,
        MatchingPolicy::Strict,
        InvocationPolicy::Single,
    );
    assert!(second.is_err());
    assert_eq!(second.err().unwrap().reason(), Reason::ProcedureAlreadyExists);
}

#[test]
fn round_robin_policy_admits_sharing() {
    let mut root = RegistrationPatternNode::new();
    root.register_with(
        &URI::new("ca.test.shared"),
        1u64,
        MatchingPolicy::Strict,
        InvocationPolicy::RoundRobin,
    )
    .unwrap();
    root.register_with(
        &URI::new("ca.test.shared"),
        2u64,
        MatchingPolicy::Strict,
        InvocationPolicy::RoundRobin,
    )
    .unwrap();
    root.register_with(
        &URI::new("ca.test.shared"),
        3u64,
        MatchingPolicy::Strict,
        InvocationPolicy::RoundRobin,
    )
    .unwrap();
}

#[test]
fn round_robin_takes_turns_in_registration_order() {
    let mut root = RegistrationPatternNode::new();
    for connection in 1u64..4u64 {
        root.register_with(
            &URI::new("ca.test.robin"),
            connection,
            MatchingPolicy::Strict,
            InvocationPolicy::RoundRobin,
        )
        .unwrap();
    }
    let picks: Vec<u64> = (0..4)
        .map(|_| root.get_registrant_for(URI::new("ca.test.robin")).unwrap().0)
        .collect();
    assert_eq!(picks, vec![1, 2, 3, 1]);
}

#[test]
fn unknown_procedure_is_refused() {
    let mut root = RegistrationPatternNode::<u64>::new();
    let r = root.get_registrant_for(URI::new("ca.test.missing"));
    assert!(r.is_err());
    assert_eq!(r.err().unwrap().reason(), Reason::NoSuchProcedure);
}

#[test]
fn random_policy_picks_one_of_the_registrants() {
    let mut root = RegistrationPatternNode::new();
    for connection in 1u64..3u64 {
        root.register_with(
            &URI::new("ca.test.anyone"),
            connection,
            MatchingPolicy::Strict,
            InvocationPolicy::Random,
        )
        .unwrap();
    }
    for _ in 0..8 {
        let picked = root.get_registrant_for(URI::new("ca.test.anyone")).unwrap().0;
        assert!(picked == 1 || picked == 2);
    }
}
