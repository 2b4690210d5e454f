//! Payload values, reason texts and argument access.
use wampire::{ArgDict, ArgList, Dict, ErrorType, Reason, Value, URI};

#[test]
fn reason_texts_round_trip() {
    let reasons = vec![
        Reason::InvalidURI,
        Reason::NoSuchProcedure,
        Reason::ProcedureAlreadyExists,
        Reason::NoSuchRegistration,
        Reason::NoSuchSubscription,
        Reason::InvalidArgument,
        Reason::SystemShutdown,
        Reason::CloseRealm,
        Reason::GoodbyeAndOut,
        Reason::NotAuthorized,
        Reason::AuthorizationFailed,
        Reason::NoSuchRealm,
        Reason::NoSuchRole,
        Reason::Cancelled,
        Reason::OptionNotAllowed,
        Reason::NoEligibleCallee,
        Reason::OptionDisallowedDiscloseMe,
        Reason::NetworkFailure,
        Reason::NormalClose,
    ];
    for reason in reasons {
        let text = reason.get_string().to_string();
        assert_eq!(Reason::from_text(&text), reason);
    }
    assert_eq!(Reason::InvalidURI.get_string(), "wamp.error.invalid_uri");
    assert_eq!(
        Reason::from_text("com.example.custom"),
        Reason::CustomReason(URI::new("com.example.custom"))
    );
}

#[test]
fn error_type_tags_round_trip() {
    let kinds = vec![
        ErrorType::Subscribe,
        ErrorType::Unsubscribe,
        ErrorType::Publish,
        ErrorType::Register,
        ErrorType::Unregister,
        ErrorType::Invocation,
        ErrorType::Call,
    ];
    for kind in kinds {
        assert_eq!(ErrorType::from_tag(kind.to_tag()), Some(kind));
    }
    assert_eq!(ErrorType::from_tag(99), None);
    assert_eq!(ErrorType::Subscribe.to_tag(), 32);
    assert_eq!(ErrorType::Call.to_tag(), 48);
}

#[test]
fn argument_lists_read_typed_values() {
    let args = vec![Value::Integer(7), Value::String("x".to_string())];
    assert_eq!(args.get_int(0).unwrap(), Some(7));
    assert_eq!(args.get_string(1).unwrap(), Some("x"));
    assert_eq!(args.get_int(5).unwrap(), None);
    assert!(args.verify_len(2).is_ok());
    let too_short = args.verify_len(3);
    assert_eq!(
        *too_short.err().unwrap().get_reason(),
        Reason::InvalidArgument
    );
    let wrong_type = args.get_int(1);
    assert_eq!(
        *wrong_type.err().unwrap().get_reason(),
        Reason::InvalidArgument
    );
}

#[test]
fn argument_dicts_read_typed_values() {
    let mut kwargs = Dict::new();
    kwargs.insert("n".to_string(), Value::Integer(3));
    kwargs.insert("s".to_string(), Value::String("y".to_string()));
    assert_eq!(ArgDict::get_int(&kwargs, "n").unwrap(), Some(3));
    assert_eq!(ArgDict::get_string(&kwargs, "s").unwrap(), Some("y"));
    assert_eq!(ArgDict::get_int(&kwargs, "missing").unwrap(), None);
    let wrong_type = ArgDict::get_int(&kwargs, "s");
    assert_eq!(
        *wrong_type.err().unwrap().get_reason(),
        Reason::InvalidArgument
    );
}

#[test]
fn dictionaries_replace_on_repeated_keys() {
    let mut d = Dict::new();
    d.insert("k".to_string(), Value::Integer(1));
    d.insert("k".to_string(), Value::Integer(2));
    assert_eq!(d.len(), 1);
    assert_eq!(d.get("k"), Some(&Value::Integer(2)));
    assert_eq!(d.get("other"), None);
}
