//! Options of a session encoder: their JSON transport form, where every
//! option may be left out, and the options that the encoder takes, which
//! start from the encoder's defaults.

use vstd::prelude::*;
use vstd::string::StringExecFns;

use crate::error::BridgeError;

verus! {

/// What a session encoder does on a reference to state it does not know.
#[derive(Clone, Copy, Debug, PartialEq, Eq, Structural)]
pub enum UnknownReferencePolicy {
    FailFast,
    StatelessRetry,
}

/// The options that a session encoder takes.
#[derive(Clone, Copy, Debug, PartialEq, Eq, Structural)]
pub struct SessionOptions {
    pub max_base_snapshots: usize,
    pub enable_state_patch: bool,
    pub enable_template_batch: bool,
    pub enable_trained_dictionary: bool,
    pub unknown_reference_policy: UnknownReferencePolicy,
}

/// Session options as they travel in JSON; each may be left out.
#[derive(Debug)]
pub struct TransportSessionOptions {
    pub max_base_snapshots: Option<usize>,
    pub enable_state_patch: Option<bool>,
    pub enable_template_batch: Option<bool>,
    pub enable_trained_dictionary: Option<bool>,
    pub unknown_reference_policy: Option<String>,
}

/// The mathematical form of [`TransportSessionOptions`].
pub struct SpecTransportSessionOptions {
    pub max_base_snapshots: Option<usize>,
    pub enable_state_patch: Option<bool>,
    pub enable_template_batch: Option<bool>,
    pub enable_trained_dictionary: Option<bool>,
    pub unknown_reference_policy: Option<Seq<char>>,
}

impl View for TransportSessionOptions {
    type V = SpecTransportSessionOptions;

    open spec fn view(&self) -> SpecTransportSessionOptions {
        SpecTransportSessionOptions {
            max_base_snapshots: self.max_base_snapshots,
            enable_state_patch: self.enable_state_patch,
            enable_template_batch: self.enable_template_batch,
            enable_trained_dictionary: self.enable_trained_dictionary,
            unknown_reference_policy: match self.unknown_reference_policy {
                Some(s) => Some(s@),
                None => None,
            },
        }
    }
}

impl Default for TransportSessionOptions {
    /// No option given.
    fn default() -> (res: Self)
        ensures
            res.max_base_snapshots is None,
            res.enable_state_patch is None,
            res.enable_template_batch is None,
            res.enable_trained_dictionary is None,
            res.unknown_reference_policy is None,
    {
        TransportSessionOptions {
            max_base_snapshots: None,
            enable_state_patch: None,
            enable_template_batch: None,
            enable_trained_dictionary: None,
            unknown_reference_policy: None,
        }
    }
}

/// The message for a policy name that is not known.
pub open spec fn invalid_policy_message() -> Seq<char> {
    "unknownReferencePolicy must be failFast or statelessRetry"@
}

/// The policy a name stands for: each policy in camel case, snake case or
/// Pascal case.
pub open spec fn spec_parse_policy(name: Seq<char>) -> Result<UnknownReferencePolicy, Seq<char>> {
    if name == "failFast"@ || name == "fail_fast"@ || name == "FailFast"@ {
        Ok(UnknownReferencePolicy::FailFast)
    } else if name == "statelessRetry"@ || name == "stateless_retry"@ || name
        == "StatelessRetry"@ {
        Ok(UnknownReferencePolicy::StatelessRetry)
    } else {
        Err(invalid_policy_message())
    }
}

/// The value of an option that may be left out, or its default.
pub open spec fn or_default<T>(given: Option<T>, default: T) -> T {
    match given {
        Some(v) => v,
        None => default,
    }
}

/// The options the encoder takes: each given option replaces the default,
/// each option left out keeps it; an unknown policy name is an error.
pub open spec fn spec_session_options(
    options: SpecTransportSessionOptions,
    defaults: SessionOptions,
) -> Result<SessionOptions, Seq<char>> {
    let policy = match options.unknown_reference_policy {
        None => Ok(defaults.unknown_reference_policy),
        Some(name) => spec_parse_policy(name),
    };
    match policy {
        Err(e) => Err(e),
        Ok(policy) => Ok(
            SessionOptions {
                max_base_snapshots: or_default(
                    options.max_base_snapshots,
                    defaults.max_base_snapshots,
                ),
                enable_state_patch: or_default(
                    options.enable_state_patch,
                    defaults.enable_state_patch,
                ),
                enable_template_batch: or_default(
                    options.enable_template_batch,
                    defaults.enable_template_batch,
                ),
                enable_trained_dictionary: or_default(
                    options.enable_trained_dictionary,
                    defaults.enable_trained_dictionary,
                ),
                unknown_reference_policy: policy,
            },
        ),
    }
}

fn same_text(a: &str, b: &str) -> (res: bool)
    ensures
        res == (a@ == b@),
{
    String::from_str(a) == String::from_str(b)
}

/// Reads a policy name: `failFast`, `fail_fast` or `FailFast`, and
/// `statelessRetry`, `stateless_retry` or `StatelessRetry`; any other name
/// is an error.
pub fn parse_unknown_reference_policy(value: &str) -> (res: Result<
    UnknownReferencePolicy,
    BridgeError,
>)
    ensures
        match res {
            Ok(p) => spec_parse_policy(value@) == Ok::<UnknownReferencePolicy, Seq<char>>(p),
            Err(e) => spec_parse_policy(value@) == Err::<UnknownReferencePolicy, Seq<char>>(e@),
        },
{
    if same_text(value, "failFast") || same_text(value, "fail_fast") || same_text(
        value,
        "FailFast",
    ) {
        Ok(UnknownReferencePolicy::FailFast)
    } else if same_text(value, "statelessRetry") || same_text(value, "stateless_retry")
        || same_text(value, "StatelessRetry") {
        Ok(UnknownReferencePolicy::StatelessRetry)
    } else {
        Err(BridgeError::new("unknownReferencePolicy must be failFast or statelessRetry"))
    }
}

/// Lays the given options over the encoder's defaults: each given option
/// replaces its default; an unknown policy name is an error.
pub fn transport_session_options_to_options(
    options: &TransportSessionOptions,
    defaults: SessionOptions,
) -> (res: Result<SessionOptions, BridgeError>)
    ensures
        match res {
            Ok(o) => spec_session_options(options@, defaults) == Ok::<SessionOptions, Seq<char>>(o),
            Err(e) => spec_session_options(options@, defaults) == Err::<SessionOptions, Seq<char>>(
                e@,
            ),
        },
{
    let mut parsed = defaults;
    if let Some(value) = options.max_base_snapshots {
        parsed.max_base_snapshots = value;
    }
    if let Some(value) = options.enable_state_patch {
        parsed.enable_state_patch = value;
    }
    if let Some(value) = options.enable_template_batch {
        parsed.enable_template_batch = value;
    }
    if let Some(value) = options.enable_trained_dictionary {
        parsed.enable_trained_dictionary = value;
    }
    if let Some(policy) = &options.unknown_reference_policy {
        match parse_unknown_reference_policy(policy.as_str()) {
            Ok(p) => {
                parsed.unknown_reference_policy = p;
            },
            Err(e) => {
                return Err(e);
            },
        }
    }
    Ok(parsed)
}

/// The options of a new session encoder: the defaults when no options are
/// given, else the given options laid over the defaults.
pub fn session_options_or_default(
    options: Option<&TransportSessionOptions>,
    defaults: SessionOptions,
) -> (res: Result<SessionOptions, BridgeError>)
    ensures
        match options {
            None => res == Ok::<SessionOptions, BridgeError>(defaults),
            Some(o) => match res {
                Ok(r) => spec_session_options(o@, defaults) == Ok::<SessionOptions, Seq<char>>(r),
                Err(e) => spec_session_options(o@, defaults) == Err::<SessionOptions, Seq<char>>(
                    e@,
                ),
            },
        },
{
    match options {
        None => Ok(defaults),
        Some(o) => transport_session_options_to_options(o, defaults),
    }
}

/// With no option given, the options are the defaults.
pub proof fn lemma_no_options_keep_defaults(defaults: SessionOptions)
    ensures
        spec_session_options(
            SpecTransportSessionOptions {
                max_base_snapshots: None,
                enable_state_patch: None,
                enable_template_batch: None,
                enable_trained_dictionary: None,
                unknown_reference_policy: None,
            },
            defaults,
        ) == Ok::<SessionOptions, Seq<char>>(defaults),
{
}

/// Laying the same options over the result again changes nothing.
pub proof fn lemma_options_overlay_idempotent(
    options: SpecTransportSessionOptions,
    defaults: SessionOptions,
)
    ensures
        spec_session_options(options, defaults) matches Ok(laid) ==> spec_session_options(
            options,
            laid,
        ) == Ok::<SessionOptions, Seq<char>>(laid),
{
}

/// Whether laying options over defaults succeeds does not depend on the
/// defaults: only an unknown policy name fails.
pub proof fn lemma_options_fail_only_on_policy(
    options: SpecTransportSessionOptions,
    defaults: SessionOptions,
)
    ensures
        spec_session_options(options, defaults) is Err <==> (options.unknown_reference_policy matches Some(
            name,
        ) && spec_parse_policy(name) is Err),
{
}

/// Every option that is given replaces its default, whatever its value,
/// and every option left out keeps its default; the given policy name
/// decides the policy. Laying options over defaults fails only on a policy
/// name that is not known.
pub proof fn lemma_given_options_replace_defaults(
    options: SpecTransportSessionOptions,
    defaults: SessionOptions,
)
    ensures
        (options.unknown_reference_policy matches Some(name) ==> spec_parse_policy(name) is Ok)
            ==> spec_session_options(options, defaults) is Ok,
        spec_session_options(options, defaults) matches Ok(o) ==> {
            &&& (options.max_base_snapshots matches Some(n) ==> o.max_base_snapshots == n)
            &&& (options.max_base_snapshots is None ==> o.max_base_snapshots
                == defaults.max_base_snapshots)
            &&& (options.enable_state_patch matches Some(b) ==> o.enable_state_patch == b)
            &&& (options.enable_state_patch is None ==> o.enable_state_patch
                == defaults.enable_state_patch)
            &&& (options.enable_template_batch matches Some(b) ==> o.enable_template_batch == b)
            &&& (options.enable_template_batch is None ==> o.enable_template_batch
                == defaults.enable_template_batch)
            &&& (options.enable_trained_dictionary matches Some(b) ==> o.enable_trained_dictionary
                == b)
            &&& (options.enable_trained_dictionary is None ==> o.enable_trained_dictionary
                == defaults.enable_trained_dictionary)
            &&& (options.unknown_reference_policy matches Some(name) ==> spec_parse_policy(name)
                == Ok::<UnknownReferencePolicy, Seq<char>>(o.unknown_reference_policy))
            &&& (options.unknown_reference_policy is None ==> o.unknown_reference_policy
                == defaults.unknown_reference_policy)
        },
{
}

/// A policy name is known exactly when it is one of the three spellings of
/// a policy, and then it names that policy.
pub proof fn lemma_policy_names(name: Seq<char>)
    ensures
        spec_parse_policy(name) == Ok::<UnknownReferencePolicy, Seq<char>>(
            UnknownReferencePolicy::FailFast,
        ) <==> (name == "failFast"@ || name == "fail_fast"@ || name == "FailFast"@),
        spec_parse_policy(name) == Ok::<UnknownReferencePolicy, Seq<char>>(
            UnknownReferencePolicy::StatelessRetry,
        ) <==> (!(name == "failFast"@ || name == "fail_fast"@ || name == "FailFast"@) && (name
            == "statelessRetry"@ || name == "stateless_retry"@ || name == "StatelessRetry"@)),
        spec_parse_policy(name) is Err ==> spec_parse_policy(name) == Err::<
            UnknownReferencePolicy,
            Seq<char>,
        >(invalid_policy_message()),
{
}

} // verus!
