//! What the process environment asks for.
//!
//! Exporting is controlled by the standard OpenTelemetry environment variables.
//! An [`Environment`] holds the variables as text, and the functions here read
//! from it which signals to export, over which protocol, under which service
//! name, with which filter and with which histogram aggregation.

use crate::error::InitError;
use crate::filter::can_use;
#[allow(unused_imports)]
use crate::filter::{parseable, usable_directives, valid_filter};
use crate::histogram::HistogramAggregation;
use crate::text::{joined, same_text, same_text_ignoring_ascii_case, to_debug_text, trim};
#[allow(unused_imports)]
use crate::text::{
    ascii_lowered, law_ascii_case, law_padding_is_trimmed, quoted, trimmed, white_space,
};
use crate::text_map::TextMap;
use vstd::prelude::*;

verus! {

/// The filter directives used when `RUST_LOG` holds none that can be used:
/// spans and events at "info", with the HTTP stack's internal chatter
/// suppressed.
pub const DEFAULT_FILTER: &'static str =
    "info,h2=warn,hyper=warn,reqwest=warn,rustls=warn,tower=warn";

/// The variable that selects the default histogram aggregation.
pub const AGGREGATION_VARIABLE: &'static str =
    "OTEL_EXPORTER_OTLP_METRICS_DEFAULT_HISTOGRAM_AGGREGATION";

/// The environment variables whose names and values are Unicode text.
#[derive(Debug)]
pub struct Environment {
    variables: TextMap<String>,
}

impl View for Environment {
    type V = Map<Seq<char>, Seq<char>>;

    closed spec fn view(&self) -> Map<Seq<char>, Seq<char>> {
        self.variables@.map_values(|value: String| value@)
    }
}

impl Environment {
    /// Returns an environment in which no variable is set.
    pub fn new() -> (r: Self)
        ensures
            r@ == Map::<Seq<char>, Seq<char>>::empty(),
    {
        let r = Environment { variables: TextMap::new() };
        assert(r@ =~= Map::empty());
        r
    }

    /// Sets a variable, in place of the value that it had, if any.
    pub fn set(&mut self, name: &str, value: &str)
        ensures
            final(self)@ == old(self)@.insert(name@, value@),
    {
        self.variables.insert(name.to_owned(), value.to_owned());
        assert(self@ =~= old(self)@.insert(name@, value@));
    }

    /// Returns the value of a variable, if it is set.
    pub fn var(&self, name: &str) -> (r: Option<&str>)
        ensures
            match r {
                Some(value) => self@.contains_key(name@) && value@ == self@[name@],
                None => !self@.contains_key(name@),
            },
    {
        match self.variables.get(name) {
            Some(value) => Some(value.as_str()),
            None => None,
        }
    }
}

/// Whether a variable is unset or empty (OpenTelemetry treats empty as unset).
pub open spec fn unset(env: Map<Seq<char>, Seq<char>>, name: Seq<char>) -> bool {
    !env.contains_key(name) || env[name].len() == 0
}

/// Whether a variable holds a word, in any ASCII case and with any white space
/// around it.
pub open spec fn holds_word(
    env: Map<Seq<char>, Seq<char>>,
    name: Seq<char>,
    word: Seq<char>,
) -> bool {
    env.contains_key(name) && ascii_lowered(trimmed(env[name])) == ascii_lowered(word)
}

/// The variable with the OTLP endpoint of one signal.
pub open spec fn endpoint_variable(signal: Seq<char>) -> Seq<char> {
    "OTEL_EXPORTER_OTLP_"@ + signal + "_ENDPOINT"@
}

/// The variable that selects the exporter of one signal.
pub open spec fn exporter_variable(signal: Seq<char>) -> Seq<char> {
    "OTEL_"@ + signal + "_EXPORTER"@
}

/// The variable with the OTLP protocol of one signal.
pub open spec fn protocol_variable(signal: Seq<char>) -> Seq<char> {
    "OTEL_EXPORTER_OTLP_"@ + signal + "_PROTOCOL"@
}

/// Whether an OTLP endpoint is configured for a signal, its own or the general
/// one.
pub open spec fn endpoint_configured(
    env: Map<Seq<char>, Seq<char>>,
    signal: Seq<char>,
) -> bool {
    !unset(env, "OTEL_EXPORTER_OTLP_ENDPOINT"@) || !unset(env, endpoint_variable(signal))
}

/// Whether the export of a signal is switched off, with the whole SDK or by
/// itself.
pub open spec fn export_disabled(env: Map<Seq<char>, Seq<char>>, signal: Seq<char>) -> bool {
    holds_word(env, "OTEL_SDK_DISABLED"@, "true"@) || holds_word(
        env,
        exporter_variable(signal),
        "none"@,
    )
}

/// The OTLP protocol asked for a signal: its own if there is one, else the
/// general one, if any.
pub open spec fn requested_protocol(
    env: Map<Seq<char>, Seq<char>>,
    signal: Seq<char>,
) -> Option<Seq<char>> {
    if !unset(env, protocol_variable(signal)) {
        Some(env[protocol_variable(signal)])
    } else if !unset(env, "OTEL_EXPORTER_OTLP_PROTOCOL"@) {
        Some(env["OTEL_EXPORTER_OTLP_PROTOCOL"@])
    } else {
        None
    }
}

/// Whether a signal is to be exported, or the OTLP protocol that stands in the
/// way.
pub open spec fn export_decision(
    env: Map<Seq<char>, Seq<char>>,
    signal: Seq<char>,
) -> Result<bool, Seq<char>> {
    if !endpoint_configured(env, signal) || export_disabled(env, signal) {
        Ok(false)
    } else {
        match requested_protocol(env, signal) {
            Some(protocol) if protocol != "http/protobuf"@ => Err(protocol),
            _ => Ok(true),
        }
    }
}

/// Returns whether a variable is unset or empty.
pub fn env_unset(name: &str, env: &Environment) -> (r: bool)
    ensures
        r == unset(env@, name@),
        r <==> !env@.contains_key(name@) || env@[name@].len() == 0,
{
    match env.var(name) {
        Some(value) => value.is_empty(),
        None => true,
    }
}

/// Returns whether a variable holds a word, in any ASCII case and with any
/// white space around it.
fn env_holds_word(name: &str, word: &str, env: &Environment) -> (r: bool)
    ensures
        r == holds_word(env@, name@, word@),
{
    match env.var(name) {
        Some(value) => same_text_ignoring_ascii_case(trim(value), word),
        None => false,
    }
}

/// Returns the value of a variable that is set and not empty.
fn env_value(name: &str, env: &Environment) -> (r: Option<String>)
    ensures
        match r {
            Some(value) => !unset(env@, name@) && value@ == env@[name@],
            None => unset(env@, name@),
        },
{
    if env_unset(name, env) {
        return None;
    }
    match env.var(name) {
        Some(value) => Some(value.to_owned()),
        None => None,
    }
}

/// Returns whether the environment asks for the given signal (`TRACES` or
/// `METRICS`, as named in environment variables) to be exported: an OTLP
/// endpoint is configured, and neither the SDK nor the signal's export is
/// disabled.  Fails if it asks for an OTLP protocol other than `http/protobuf`,
/// which the exporter would otherwise silently replace.
pub fn export_enabled(signal: &str, env: &Environment) -> (r: Result<bool, InitError>)
    ensures
        match (r, export_decision(env@, signal@)) {
            (Ok(enabled), Ok(decided)) => enabled == decided,
            (Err(InitError::UnsupportedProtocol(protocol)), Err(requested)) => protocol@
                == requested,
            _ => false,
        },
{
    let endpoint = !env_unset("OTEL_EXPORTER_OTLP_ENDPOINT", env) || !env_unset(
        joined("OTEL_EXPORTER_OTLP_", signal, "_ENDPOINT").as_str(),
        env,
    );
    let sdk_disabled = env_holds_word("OTEL_SDK_DISABLED", "true", env);
    let exporter_none = env_holds_word(
        joined("OTEL_", signal, "_EXPORTER").as_str(),
        "none",
        env,
    );
    if !endpoint || sdk_disabled || exporter_none {
        return Ok(false);
    }
    let own = env_value(joined("OTEL_EXPORTER_OTLP_", signal, "_PROTOCOL").as_str(), env);
    let protocol = match own {
        Some(protocol) => Some(protocol),
        None => env_value("OTEL_EXPORTER_OTLP_PROTOCOL", env),
    };
    match protocol {
        Some(protocol) => if same_text(protocol.as_str(), "http/protobuf") {
            Ok(true)
        } else {
            Err(InitError::UnsupportedProtocol(protocol))
        },
        None => Ok(true),
    }
}

/// The service name to give the resource: the builder's own, unless the
/// environment provides one.
pub open spec fn own_service_name_used(env: Map<Seq<char>, Seq<char>>, detected: bool) -> bool {
    unset(env, "OTEL_SERVICE_NAME"@) && !detected
}

/// Returns the service name to give the resource, or `None` to leave it to the
/// environment, which provides one either in `OTEL_SERVICE_NAME` or as a
/// `service.name` that the SDK detected in `OTEL_RESOURCE_ATTRIBUTES`.
pub fn resource_service_name(service_name: String, env: &Environment, detected: bool) -> (r: Option<
    String,
>)
    ensures
        r == (if own_service_name_used(env@, detected) {
            Some(service_name)
        } else {
            None
        }),
        r == (if detected || (env@.contains_key("OTEL_SERVICE_NAME"@)
            && env@["OTEL_SERVICE_NAME"@].len() > 0) {
            None
        } else {
            Some(service_name)
        }),
{
    if !env_unset("OTEL_SERVICE_NAME", env) || detected {
        None
    } else {
        Some(service_name)
    }
}

/// What the environment says about the default histogram aggregation.
#[derive(Debug)]
pub struct DefaultAggregation {
    /// The default aggregation.
    pub aggregation: HistogramAggregation,
    /// A setting that was ignored because it names no supported aggregation.
    pub ignored: Option<String>,
}

/// The default histogram aggregation.
pub open spec fn default_aggregation(env: Map<Seq<char>, Seq<char>>) -> HistogramAggregation {
    if !unset(env, AGGREGATION_VARIABLE@) && trimmed(env[AGGREGATION_VARIABLE@])
        == "base2_exponential_bucket_histogram"@ {
        HistogramAggregation::Exponential
    } else {
        HistogramAggregation::Explicit
    }
}

/// The setting of the default histogram aggregation that is ignored, if any.
pub open spec fn ignored_aggregation(env: Map<Seq<char>, Seq<char>>) -> Option<Seq<char>> {
    if unset(env, AGGREGATION_VARIABLE@) || trimmed(env[AGGREGATION_VARIABLE@])
        == "explicit_bucket_histogram"@ || trimmed(env[AGGREGATION_VARIABLE@])
        == "base2_exponential_bucket_histogram"@ {
        None
    } else {
        Some(env[AGGREGATION_VARIABLE@])
    }
}

/// Returns the default histogram aggregation, per the standard
/// `OTEL_EXPORTER_OTLP_METRICS_DEFAULT_HISTOGRAM_AGGREGATION` variable (which
/// the OpenTelemetry SDK doesn't itself read).  The default is explicit
/// buckets, and an unrecognized value is ignored and reported.
pub fn default_histogram_aggregation(env: &Environment) -> (r: DefaultAggregation)
    ensures
        r.aggregation == default_aggregation(env@),
        match r.ignored {
            Some(value) => ignored_aggregation(env@) == Some(value@),
            None => ignored_aggregation(env@) is None,
        },
{
    proof {
        reveal_strlit("explicit_bucket_histogram");
        reveal_strlit("base2_exponential_bucket_histogram");
    }
    match env_value(AGGREGATION_VARIABLE, env) {
        None => DefaultAggregation { aggregation: HistogramAggregation::Explicit, ignored: None },
        Some(value) => {
            let setting = trim(value.as_str());
            if same_text(setting, "explicit_bucket_histogram") {
                assert(setting@.len() == 25);
                assert("base2_exponential_bucket_histogram"@.len() == 34);
                DefaultAggregation { aggregation: HistogramAggregation::Explicit, ignored: None }
            } else if same_text(setting, "base2_exponential_bucket_histogram") {
                DefaultAggregation {
                    aggregation: HistogramAggregation::Exponential,
                    ignored: None,
                }
            } else {
                DefaultAggregation {
                    aggregation: HistogramAggregation::Explicit,
                    ignored: Some(value),
                }
            }
        },
    }
}

/// Returns the warning about a default histogram aggregation that was ignored.
pub fn ignored_aggregation_warning(value: &str) -> (r: String)
    ensures
        r@ == "dropshot-otel: ignoring unsupported "@ + AGGREGATION_VARIABLE@ + " value "@
            + quoted(value@),
{
    let shown = to_debug_text(value);
    joined("dropshot-otel: ignoring unsupported ", AGGREGATION_VARIABLE, " value ").concat(
        shown.as_str(),
    )
}

/// The filter directives that `RUST_LOG` holds, if it is set and they can be
/// used.
pub open spec fn usable_filter(
    env: Map<Seq<char>, Seq<char>>,
    valid: bool,
) -> Option<Seq<char>> {
    if env.contains_key("RUST_LOG"@) && valid {
        Some(env["RUST_LOG"@])
    } else {
        None
    }
}

/// Returns the filter directives that `RUST_LOG` holds, given whether they can
/// be used, or `None` if [`DEFAULT_FILTER`] is to be used instead.
pub fn filter_from(env: &Environment, valid: bool) -> (r: Option<String>)
    ensures
        match r {
            Some(directives) => usable_filter(env@, valid) == Some(directives@),
            None => usable_filter(env@, valid) is None,
        },
        match r {
            Some(directives) => {
                &&& valid
                &&& env@.contains_key("RUST_LOG"@)
                &&& directives@ == env@["RUST_LOG"@]
            },
            None => !valid || !env@.contains_key("RUST_LOG"@),
        },
{
    match env.var("RUST_LOG") {
        Some(directives) => if valid {
            Some(directives.to_owned())
        } else {
            None
        },
        None => None,
    }
}

/// Returns the filter directives that `RUST_LOG` holds, or `None` if it is not
/// set or holds one that cannot be used, so that [`DEFAULT_FILTER`] is to be
/// used.
pub fn filter_directives(env: &Environment) -> (r: Option<String>)
    ensures
        match r {
            Some(directives) => usable_filter(env@, usable_directives(env@["RUST_LOG"@])) == Some(
                directives@,
            ),
            None => usable_filter(env@, usable_directives(env@["RUST_LOG"@])) is None,
        },
        match r {
            Some(directives) => {
                &&& env@.contains_key("RUST_LOG"@)
                &&& directives@ == env@["RUST_LOG"@]
                &&& parseable(directives@)
                &&& valid_filter(directives@)
            },
            None => {
                ||| !env@.contains_key("RUST_LOG"@)
                ||| !parseable(env@["RUST_LOG"@])
                ||| !valid_filter(env@["RUST_LOG"@])
            },
        },
{
    let valid = match env.var("RUST_LOG") {
        Some(directives) => can_use(directives),
        None => false,
    };
    filter_from(env, valid)
}

/// The variables that the decision to export a signal consults.
pub open spec fn consulted_variables(signal: Seq<char>) -> Set<Seq<char>> {
    set![
        "OTEL_EXPORTER_OTLP_ENDPOINT"@,
        endpoint_variable(signal),
        "OTEL_SDK_DISABLED"@,
        exporter_variable(signal),
        protocol_variable(signal),
        "OTEL_EXPORTER_OTLP_PROTOCOL"@,
    ]
}

/// The variables that concern one signal alone.
pub open spec fn own_variables(signal: Seq<char>) -> Set<Seq<char>> {
    set![endpoint_variable(signal), exporter_variable(signal), protocol_variable(signal)]
}

/// Whether two environments give a variable the same value, or none.
pub open spec fn agree_on(
    a: Map<Seq<char>, Seq<char>>,
    b: Map<Seq<char>, Seq<char>>,
    name: Seq<char>,
) -> bool {
    a.contains_key(name) == b.contains_key(name) && (a.contains_key(name) ==> a[name] == b[name])
}

/// The lengths of the variables' names, and characters that tell them apart.
proof fn lemma_variable_names(signal: Seq<char>)
    ensures
        "TRACES"@.len() == 6,
        "METRICS"@.len() == 7,
        endpoint_variable(signal).len() == signal.len() + 28,
        protocol_variable(signal).len() == signal.len() + 28,
        exporter_variable(signal).len() == signal.len() + 14,
        exporter_variable(signal).last() == 'R',
        endpoint_variable(signal).last() == 'T',
        protocol_variable(signal).last() == 'L',
        "OTEL_SDK_DISABLED"@.last() == 'D',
        "OTEL_EXPORTER_OTLP_ENDPOINT"@.len() == 27,
        "OTEL_EXPORTER_OTLP_ENDPOINT"@.last() == 'T',
        "OTEL_EXPORTER_OTLP_PROTOCOL"@.len() == 27,
        "OTEL_EXPORTER_OTLP_PROTOCOL"@.last() == 'L',
        "OTEL_SDK_DISABLED"@.len() == 17,
        "OTEL_SERVICE_NAME"@.len() == 17,
        "RUST_LOG"@.len() == 8,
        AGGREGATION_VARIABLE@.len() == 56,
{
    reveal_strlit("TRACES");
    reveal_strlit("METRICS");
    reveal_strlit("OTEL_EXPORTER_OTLP_");
    reveal_strlit("_ENDPOINT");
    reveal_strlit("OTEL_");
    reveal_strlit("_EXPORTER");
    reveal_strlit("_PROTOCOL");
    reveal_strlit("OTEL_EXPORTER_OTLP_ENDPOINT");
    reveal_strlit("OTEL_SDK_DISABLED");
    reveal_strlit("OTEL_EXPORTER_OTLP_PROTOCOL");
    reveal_strlit("OTEL_SERVICE_NAME");
    reveal_strlit("RUST_LOG");
    reveal_strlit("OTEL_EXPORTER_OTLP_METRICS_DEFAULT_HISTOGRAM_AGGREGATION");
}

/// The decision to export a signal depends on the consulted variables alone.
pub proof fn law_export_depends_on_consulted_variables(
    a: Map<Seq<char>, Seq<char>>,
    b: Map<Seq<char>, Seq<char>>,
    signal: Seq<char>,
)
    requires
        forall|name: Seq<char>|
            consulted_variables(signal).contains(name) ==> #[trigger] agree_on(a, b, name),
    ensures
        export_decision(a, signal) == export_decision(b, signal),
{
    assert(agree_on(a, b, "OTEL_EXPORTER_OTLP_ENDPOINT"@));
    assert(agree_on(a, b, endpoint_variable(signal)));
    assert(agree_on(a, b, "OTEL_SDK_DISABLED"@));
    assert(agree_on(a, b, exporter_variable(signal)));
    assert(agree_on(a, b, protocol_variable(signal)));
    assert(agree_on(a, b, "OTEL_EXPORTER_OTLP_PROTOCOL"@));
}

/// Traces and metrics are exported independently: no setting of a variable of
/// the one signal changes what is decided for the other.
pub proof fn law_signals_are_independent(
    env: Map<Seq<char>, Seq<char>>,
    signal: Seq<char>,
    other: Seq<char>,
    name: Seq<char>,
    value: Seq<char>,
)
    requires
        (signal == "TRACES"@ && other == "METRICS"@) || (signal == "METRICS"@ && other
            == "TRACES"@),
        own_variables(other).contains(name),
    ensures
        export_decision(env.insert(name, value), signal) == export_decision(env, signal),
{
    lemma_variable_names(signal);
    lemma_variable_names(other);
    let changed = env.insert(name, value);
    assert forall|consulted: Seq<char>| consulted_variables(signal).contains(
        consulted,
    ) implies #[trigger] agree_on(changed, env, consulted) by {
        assert(consulted.len() != name.len());
    }
    law_export_depends_on_consulted_variables(changed, env, signal);
}

/// Empty is unset: clearing a variable that is empty changes neither what is
/// exported, nor the service name, nor the default aggregation.
pub proof fn law_empty_is_unset(
    env: Map<Seq<char>, Seq<char>>,
    name: Seq<char>,
    signal: Seq<char>,
    detected: bool,
)
    requires
        env.contains_key(name),
        env[name].len() == 0,
    ensures
        export_decision(env.remove(name), signal) == export_decision(env, signal),
        own_service_name_used(env.remove(name), detected) == own_service_name_used(env, detected),
        default_aggregation(env.remove(name)) == default_aggregation(env),
        ignored_aggregation(env.remove(name)) == ignored_aggregation(env),
{
    reveal_strlit("true");
    reveal_strlit("none");
    let cleared = env.remove(name);
    assert(trimmed(env[name]).len() == 0);
    assert(ascii_lowered(trimmed(env[name])).len() == 0);
    assert(ascii_lowered("true"@).len() == 4);
    assert(ascii_lowered("none"@).len() == 4);
    assert(forall|variable: Seq<char>| #[trigger] unset(cleared, variable) == unset(env, variable));
    assert(holds_word(cleared, "OTEL_SDK_DISABLED"@, "true"@) == holds_word(
        env,
        "OTEL_SDK_DISABLED"@,
        "true"@,
    ));
    assert(holds_word(cleared, exporter_variable(signal), "none"@) == holds_word(
        env,
        exporter_variable(signal),
        "none"@,
    ));
}

/// A signal's own protocol setting wins over the general one: once it is set,
/// the general one makes no difference.
pub proof fn law_own_protocol_wins(
    env: Map<Seq<char>, Seq<char>>,
    signal: Seq<char>,
    general: Seq<char>,
)
    requires
        !unset(env, protocol_variable(signal)),
    ensures
        requested_protocol(env, signal) == Some(env[protocol_variable(signal)]),
        requested_protocol(env.insert("OTEL_EXPORTER_OTLP_PROTOCOL"@, general), signal)
            == requested_protocol(env, signal),
        export_decision(env.insert("OTEL_EXPORTER_OTLP_PROTOCOL"@, general), signal)
            == export_decision(env, signal),
{
    lemma_variable_names(signal);
    let general_variable = "OTEL_EXPORTER_OTLP_PROTOCOL"@;
    assert("OTEL_EXPORTER_OTLP_ENDPOINT"@ != general_variable);
    assert(exporter_variable(signal) != general_variable);
}

/// An unsupported protocol is an error only for a signal that would otherwise
/// be exported.
pub proof fn law_unexported_signal_never_fails(env: Map<Seq<char>, Seq<char>>, signal: Seq<char>)
    ensures
        export_decision(env, signal) is Err <==> {
            &&& endpoint_configured(env, signal)
            &&& !export_disabled(env, signal)
            &&& requested_protocol(env, signal) is Some
            &&& requested_protocol(env, signal)->0 != "http/protobuf"@
        },
{
}

/// A signal is exported exactly if an OTLP endpoint is configured for it,
/// neither the SDK nor the signal's exporter is switched off, and no protocol
/// but `http/protobuf` is asked for.  Switching the SDK off switches off every
/// signal.
pub proof fn law_export_conditions(env: Map<Seq<char>, Seq<char>>, signal: Seq<char>)
    ensures
        export_decision(env, signal) == Ok::<bool, Seq<char>>(true) <==> {
            &&& endpoint_configured(env, signal)
            &&& !holds_word(env, "OTEL_SDK_DISABLED"@, "true"@)
            &&& !holds_word(env, exporter_variable(signal), "none"@)
            &&& (requested_protocol(env, signal) is None || requested_protocol(env, signal)->0
                == "http/protobuf"@)
        },
        holds_word(env, "OTEL_SDK_DISABLED"@, "true"@) ==> export_decision(env, signal) == Ok::<
            bool,
            Seq<char>,
        >(false),
{
}

/// `RUST_LOG` changes nothing but the filter: neither what is exported, nor
/// the service name, nor the default aggregation depends on it.
pub proof fn law_filter_variable_changes_only_the_filter(
    env: Map<Seq<char>, Seq<char>>,
    value: Seq<char>,
    signal: Seq<char>,
    detected: bool,
)
    ensures
        export_decision(env.insert("RUST_LOG"@, value), signal) == export_decision(env, signal),
        own_service_name_used(env.insert("RUST_LOG"@, value), detected) == own_service_name_used(
            env,
            detected,
        ),
        default_aggregation(env.insert("RUST_LOG"@, value)) == default_aggregation(env),
        ignored_aggregation(env.insert("RUST_LOG"@, value)) == ignored_aggregation(env),
{
    lemma_variable_names(signal);
    let changed = env.insert("RUST_LOG"@, value);
    assert forall|consulted: Seq<char>| consulted_variables(signal).contains(
        consulted,
    ) implies #[trigger] agree_on(changed, env, consulted) by {
        assert(consulted.len() > "RUST_LOG"@.len());
    }
    law_export_depends_on_consulted_variables(changed, env, signal);
}

/// An endpoint is enough: with nothing switched off and no protocol asked for, a
/// signal is exported once the general endpoint is set to anything but the empty
/// text, or its own is, or both are.
pub proof fn law_either_endpoint_suffices(
    env: Map<Seq<char>, Seq<char>>,
    signal: Seq<char>,
    value: Seq<char>,
    other: Seq<char>,
)
    requires
        value.len() > 0,
        !env.contains_key("OTEL_SDK_DISABLED"@),
        !env.contains_key("OTEL_"@ + signal + "_EXPORTER"@),
        !env.contains_key("OTEL_EXPORTER_OTLP_PROTOCOL"@),
        !env.contains_key("OTEL_EXPORTER_OTLP_"@ + signal + "_PROTOCOL"@),
    ensures
        ({
            let general = "OTEL_EXPORTER_OTLP_ENDPOINT"@;
            let own = "OTEL_EXPORTER_OTLP_"@ + signal + "_ENDPOINT"@;
            let exported = Ok::<bool, Seq<char>>(true);
            &&& export_decision(env.insert(general, value), signal) == exported
            &&& export_decision(env.insert(own, value), signal) == exported
            &&& export_decision(env.insert(own, other).insert(general, value), signal) == exported
            &&& export_decision(env.insert(general, other).insert(own, value), signal) == exported
        }),
{
    lemma_variable_names(signal);
    let general = "OTEL_EXPORTER_OTLP_ENDPOINT"@;
    let own = "OTEL_EXPORTER_OTLP_"@ + signal + "_ENDPOINT"@;
    assert(general != "OTEL_EXPORTER_OTLP_PROTOCOL"@);
    assert(general != exporter_variable(signal));
    assert(own != exporter_variable(signal));
    assert(own != protocol_variable(signal));
    assert(general != own);
}

/// Setting an endpoint never switches export off: a signal that is exported is
/// still exported once either endpoint is set to anything but the empty text.
pub proof fn law_endpoints_never_switch_export_off(
    env: Map<Seq<char>, Seq<char>>,
    signal: Seq<char>,
    value: Seq<char>,
)
    requires
        export_decision(env, signal) == Ok::<bool, Seq<char>>(true),
        value.len() > 0,
    ensures
        export_decision(env.insert("OTEL_EXPORTER_OTLP_ENDPOINT"@, value), signal) == Ok::<
            bool,
            Seq<char>,
        >(true),
        export_decision(
            env.insert("OTEL_EXPORTER_OTLP_"@ + signal + "_ENDPOINT"@, value),
            signal,
        ) == Ok::<bool, Seq<char>>(true),
{
    lemma_variable_names(signal);
    let general = "OTEL_EXPORTER_OTLP_ENDPOINT"@;
    let own = "OTEL_EXPORTER_OTLP_"@ + signal + "_ENDPOINT"@;
    assert(general != "OTEL_EXPORTER_OTLP_PROTOCOL"@);
    assert(general != exporter_variable(signal));
    assert(own != exporter_variable(signal));
    assert(own != protocol_variable(signal));
}

/// Without an endpoint, neither the general one nor the signal's own, a signal is
/// not exported, whatever else is set.
pub proof fn law_no_endpoint_no_export(env: Map<Seq<char>, Seq<char>>, signal: Seq<char>)
    requires
        ({
            let general = "OTEL_EXPORTER_OTLP_ENDPOINT"@;
            !env.contains_key(general) || env[general].len() == 0
        }),
        ({
            let own = "OTEL_EXPORTER_OTLP_"@ + signal + "_ENDPOINT"@;
            !env.contains_key(own) || env[own].len() == 0
        }),
    ensures
        export_decision(env, signal) == Ok::<bool, Seq<char>>(false),
{
}

/// Whether the letters of a word of four are the given ones, as capitals or not.
pub open spec fn spelled(word: Seq<char>, small: Seq<char>, capital: Seq<char>) -> bool {
    &&& word.len() == 4
    &&& word[0] == small[0] || word[0] == capital[0]
    &&& word[1] == small[1] || word[1] == capital[1]
    &&& word[2] == small[2] || word[2] == capital[2]
    &&& word[3] == small[3] || word[3] == capital[3]
}

/// Whether a text holds a word but for the case of letters, letter by letter.
proof fn lemma_words(word: Seq<char>)
    ensures
        (ascii_lowered(word) == ascii_lowered("true"@)) == spelled(
            word,
            seq!['t', 'r', 'u', 'e'],
            seq!['T', 'R', 'U', 'E'],
        ),
        (ascii_lowered(word) == ascii_lowered("none"@)) == spelled(
            word,
            seq!['n', 'o', 'n', 'e'],
            seq!['N', 'O', 'N', 'E'],
        ),
{
    reveal_strlit("true");
    reveal_strlit("none");
    assert(ascii_lowered("true"@) =~= seq!['t', 'r', 'u', 'e']);
    assert(ascii_lowered("none"@) =~= seq!['n', 'o', 'n', 'e']);
    assert(ascii_lowered(word).len() == word.len());
    if word.len() == 4 {
        law_ascii_case(word, 0);
        law_ascii_case(word, 1);
        law_ascii_case(word, 2);
        law_ascii_case(word, 3);
        let lowered = ascii_lowered(word);
        if spelled(word, seq!['t', 'r', 'u', 'e'], seq!['T', 'R', 'U', 'E']) {
            assert(lowered =~= seq!['t', 'r', 'u', 'e']);
        }
        if spelled(word, seq!['n', 'o', 'n', 'e'], seq!['N', 'O', 'N', 'E']) {
            assert(lowered =~= seq!['n', 'o', 'n', 'e']);
        }
        if lowered == seq!['t', 'r', 'u', 'e'] {
            assert(lowered[0] == 't' && lowered[1] == 'r' && lowered[2] == 'u' && lowered[3]
                == 'e');
        }
        if lowered == seq!['n', 'o', 'n', 'e'] {
            assert(lowered[0] == 'n' && lowered[1] == 'o' && lowered[2] == 'n' && lowered[3]
                == 'e');
        }
    }
}

/// `OTEL_SDK_DISABLED` switches every signal off if it holds the word `true`, in
/// any case and with any white space around it.  Any other value has the effect
/// of none.
pub proof fn law_sdk_is_disabled_by_the_word_true(
    env: Map<Seq<char>, Seq<char>>,
    signal: Seq<char>,
    before: Seq<char>,
    word: Seq<char>,
    after: Seq<char>,
)
    requires
        forall|i: int| 0 <= i < before.len() ==> white_space(#[trigger] before[i]),
        forall|i: int| 0 <= i < after.len() ==> white_space(#[trigger] after[i]),
        word.len() > 0 ==> !white_space(word[0]) && !white_space(word[word.len() - 1]),
    ensures
        export_decision(env.insert("OTEL_SDK_DISABLED"@, before + word + after), signal) == (
        if spelled(word, seq!['t', 'r', 'u', 'e'], seq!['T', 'R', 'U', 'E']) {
            Ok::<bool, Seq<char>>(false)
        } else {
            export_decision(env.remove("OTEL_SDK_DISABLED"@), signal)
        }),
{
    lemma_variable_names(signal);
    lemma_words(word);
    law_padding_is_trimmed(before, word, after);
    let name = "OTEL_SDK_DISABLED"@;
    assert(name != exporter_variable(signal));
    let set = env.insert(name, before + word + after);
    let cleared = env.remove(name);
    assert(forall|variable: Seq<char>|
        variable != name ==> #[trigger] unset(set, variable) == unset(cleared, variable));
}

/// The variable `OTEL_..._EXPORTER` of a signal switches the signal off if it
/// holds the word `none`, in any case and with any white space around it.  Any
/// other value has the effect of none.
pub proof fn law_signal_is_disabled_by_the_word_none(
    env: Map<Seq<char>, Seq<char>>,
    signal: Seq<char>,
    before: Seq<char>,
    word: Seq<char>,
    after: Seq<char>,
)
    requires
        forall|i: int| 0 <= i < before.len() ==> white_space(#[trigger] before[i]),
        forall|i: int| 0 <= i < after.len() ==> white_space(#[trigger] after[i]),
        word.len() > 0 ==> !white_space(word[0]) && !white_space(word[word.len() - 1]),
    ensures
        export_decision(
            env.insert("OTEL_"@ + signal + "_EXPORTER"@, before + word + after),
            signal,
        ) == (if spelled(word, seq!['n', 'o', 'n', 'e'], seq!['N', 'O', 'N', 'E']) {
            Ok::<bool, Seq<char>>(false)
        } else {
            export_decision(env.remove("OTEL_"@ + signal + "_EXPORTER"@), signal)
        }),
{
    lemma_variable_names(signal);
    lemma_words(word);
    law_padding_is_trimmed(before, word, after);
    let name = "OTEL_"@ + signal + "_EXPORTER"@;
    assert(name == exporter_variable(signal));
    assert(name.last() == 'R');
    assert(name != "OTEL_SDK_DISABLED"@);
    assert(name != "OTEL_EXPORTER_OTLP_ENDPOINT"@);
    assert(name != "OTEL_EXPORTER_OTLP_PROTOCOL"@);
    assert(name != endpoint_variable(signal));
    assert(name != protocol_variable(signal));
    let set = env.insert(name, before + word + after);
    let cleared = env.remove(name);
    assert(forall|variable: Seq<char>|
        variable != name ==> #[trigger] unset(set, variable) == unset(cleared, variable));
}

/// The protocol that counts is the signal's own setting, or else the general
/// one, where a setting is one that is not empty.  It never makes an unexported
/// signal exported.  A signal that would be exported without any is exported
/// with `http/protobuf` or none, and any other fails with just that setting.
pub proof fn law_only_one_protocol_is_supported(
    env: Map<Seq<char>, Seq<char>>,
    signal: Seq<char>,
)
    ensures
        ({
            let own = "OTEL_EXPORTER_OTLP_"@ + signal + "_PROTOCOL"@;
            let general = "OTEL_EXPORTER_OTLP_PROTOCOL"@;
            let without = export_decision(env.remove(own).remove(general), signal);
            let supported = "http/protobuf"@;
            &&& without is Ok
            &&& without == Ok::<bool, Seq<char>>(false) ==> export_decision(env, signal) == without
            &&& without == Ok::<bool, Seq<char>>(true) ==> export_decision(env, signal) == (
            if env.contains_key(own) && env[own].len() > 0 {
                if env[own] == supported {
                    Ok(true)
                } else {
                    Err(env[own])
                }
            } else if env.contains_key(general) && env[general].len() > 0 {
                if env[general] == supported {
                    Ok(true)
                } else {
                    Err(env[general])
                }
            } else {
                Ok(true)
            })
        }),
{
    lemma_variable_names(signal);
    let own = "OTEL_EXPORTER_OTLP_"@ + signal + "_PROTOCOL"@;
    let general = "OTEL_EXPORTER_OTLP_PROTOCOL"@;
    let without = env.remove(own).remove(general);
    assert(own == protocol_variable(signal));
    assert(own != exporter_variable(signal) && general != exporter_variable(signal));
    assert(own != endpoint_variable(signal) && general != "OTEL_EXPORTER_OTLP_ENDPOINT"@);
    assert(own != "OTEL_EXPORTER_OTLP_ENDPOINT"@ && general != endpoint_variable(signal));
    assert(own != "OTEL_SDK_DISABLED"@ && general != "OTEL_SDK_DISABLED"@);
    assert(own != general);
}

/// No variable but the endpoints, the protocols, the signal's exporter and the
/// one that disables the SDK has any effect on whether a signal is exported.
pub proof fn law_other_variables_do_not_matter(
    env: Map<Seq<char>, Seq<char>>,
    signal: Seq<char>,
    name: Seq<char>,
    value: Seq<char>,
)
    requires
        name != "OTEL_EXPORTER_OTLP_ENDPOINT"@,
        name != "OTEL_EXPORTER_OTLP_"@ + signal + "_ENDPOINT"@,
        name != "OTEL_EXPORTER_OTLP_PROTOCOL"@,
        name != "OTEL_EXPORTER_OTLP_"@ + signal + "_PROTOCOL"@,
        name != "OTEL_"@ + signal + "_EXPORTER"@,
        name != "OTEL_SDK_DISABLED"@,
    ensures
        export_decision(env.insert(name, value), signal) == export_decision(env, signal),
        export_decision(env.remove(name), signal) == export_decision(env, signal),
{
}

/// The default aggregation is exponential exactly if the variable says so, with
/// any white space around it.  A setting that is neither of the two known ones
/// is ignored, and handed on as it stands.
pub proof fn law_default_aggregation_is_selected_by_name(
    env: Map<Seq<char>, Seq<char>>,
    before: Seq<char>,
    word: Seq<char>,
    after: Seq<char>,
)
    requires
        forall|i: int| 0 <= i < before.len() ==> white_space(#[trigger] before[i]),
        forall|i: int| 0 <= i < after.len() ==> white_space(#[trigger] after[i]),
        word.len() > 0 ==> !white_space(word[0]) && !white_space(word[word.len() - 1]),
    ensures
        ({
            let name = "OTEL_EXPORTER_OTLP_METRICS_DEFAULT_HISTOGRAM_AGGREGATION"@;
            let value = before + word + after;
            let set = env.insert(name, value);
            &&& default_aggregation(set) == (if word == "base2_exponential_bucket_histogram"@ {
                HistogramAggregation::Exponential
            } else {
                HistogramAggregation::Explicit
            })
            &&& ignored_aggregation(set) == (if value.len() == 0 || word
                == "base2_exponential_bucket_histogram"@ || word == "explicit_bucket_histogram"@ {
                None
            } else {
                Some(value)
            })
            &&& default_aggregation(env.remove(name)) == HistogramAggregation::Explicit
            &&& ignored_aggregation(env.remove(name)) is None
        }),
{
    reveal_strlit("base2_exponential_bucket_histogram");
    reveal_strlit("explicit_bucket_histogram");
    law_padding_is_trimmed(before, word, after);
    assert("base2_exponential_bucket_histogram"@.len() > 0);
    assert("explicit_bucket_histogram"@.len() > 0);
}

/// No variable but its own has any effect on the default aggregation.
pub proof fn law_default_aggregation_depends_on_one_variable(
    env: Map<Seq<char>, Seq<char>>,
    name: Seq<char>,
    value: Seq<char>,
)
    requires
        name != "OTEL_EXPORTER_OTLP_METRICS_DEFAULT_HISTOGRAM_AGGREGATION"@,
    ensures
        default_aggregation(env.insert(name, value)) == default_aggregation(env),
        ignored_aggregation(env.insert(name, value)) == ignored_aggregation(env),
{
}

} // verus!
