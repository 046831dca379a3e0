use gowe_bridge::session::{
    parse_unknown_reference_policy, session_options_or_default,
    transport_session_options_to_options, SessionOptions, TransportSessionOptions,
    UnknownReferencePolicy,
};

fn defaults() -> SessionOptions {
    SessionOptions {
        max_base_snapshots: 8,
        enable_state_patch: true,
        enable_template_batch: true,
        enable_trained_dictionary: false,
        unknown_reference_policy: UnknownReferencePolicy::FailFast,
    }
}

#[test]
fn policy_names() {
    for name in ["failFast", "fail_fast", "FailFast"] {
        assert_eq!(parse_unknown_reference_policy(name).unwrap(), UnknownReferencePolicy::FailFast);
    }
    for name in ["statelessRetry", "stateless_retry", "StatelessRetry"] {
        assert_eq!(
            parse_unknown_reference_policy(name).unwrap(),
            UnknownReferencePolicy::StatelessRetry
        );
    }
    for name in ["", "fail-fast", "FAILFAST", "failfast ", "retry"] {
        assert_eq!(
            parse_unknown_reference_policy(name).unwrap_err().to_string(),
            "unknownReferencePolicy must be failFast or statelessRetry"
        );
    }
}

#[test]
fn no_options_means_defaults() {
    assert_eq!(session_options_or_default(None, defaults()).unwrap(), defaults());
    let empty = TransportSessionOptions::default();
    assert!(empty.max_base_snapshots.is_none());
    assert!(empty.unknown_reference_policy.is_none());
    assert_eq!(session_options_or_default(Some(&empty), defaults()).unwrap(), defaults());
}

#[test]
fn given_options_replace_defaults() {
    let given = TransportSessionOptions {
        max_base_snapshots: Some(3),
        enable_state_patch: None,
        enable_template_batch: Some(false),
        enable_trained_dictionary: Some(true),
        unknown_reference_policy: Some("stateless_retry".to_string()),
    };
    let out = transport_session_options_to_options(&given, defaults()).unwrap();
    assert_eq!(
        out,
        SessionOptions {
            max_base_snapshots: 3,
            enable_state_patch: true,
            enable_template_batch: false,
            enable_trained_dictionary: true,
            unknown_reference_policy: UnknownReferencePolicy::StatelessRetry,
        }
    );
}

#[test]
fn unknown_policy_is_an_error() {
    let given = TransportSessionOptions {
        max_base_snapshots: Some(3),
        enable_state_patch: None,
        enable_template_batch: None,
        enable_trained_dictionary: None,
        unknown_reference_policy: Some("sometimes".to_string()),
    };
    assert_eq!(
        session_options_or_default(Some(&given), defaults()).unwrap_err().to_string(),
        "unknownReferencePolicy must be failFast or statelessRetry"
    );
}
