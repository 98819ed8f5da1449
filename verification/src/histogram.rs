//! How exported histograms aggregate their measurements.

use crate::text::to_lowercase;
#[allow(unused_imports)]
use crate::text::{all_ascii, ascii_lower, ascii_lowered, lowercase};
use crate::text_map::TextMap;
use opentelemetry_sdk::metrics::{Aggregation, Stream};
use vstd::prelude::*;

verus! {

/// The OpenTelemetry SDK's description of the stream that an instrument's
/// measurements become.
#[verifier::external_type_specification]
#[verifier::external_body]
pub struct ExStream(Stream);

/// How an exported histogram aggregates its measurements.
#[derive(Clone, Copy, Debug, PartialEq, Eq, Structural)]
pub enum HistogramAggregation {
    /// Fixed buckets: those the instrument advises (as the request duration
    /// histogram does, with the semantic conventions' boundaries), else the
    /// OpenTelemetry SDK's defaults.  Suits values whose range is known in
    /// advance.
    Explicit,
    /// Base-2 exponential buckets, whose resolution adapts to the range of
    /// values measured.  Suits values spanning orders of magnitude; needs a
    /// backend that supports exponential histograms.
    Exponential,
}

/// What kind of measurements an instrument takes.
#[derive(Clone, Copy, Debug, PartialEq, Eq, Structural)]
pub enum InstrumentKind {
    Counter,
    UpDownCounter,
    Histogram,
    ObservableCounter,
    ObservableUpDownCounter,
    Gauge,
    ObservableGauge,
}

/// An instrument, as far as the choice of its aggregation goes.
#[derive(Debug)]
pub struct Instrument {
    /// The instrument's name.
    pub name: String,
    /// What kind of measurements it takes.
    pub kind: InstrumentKind,
}

/// The most buckets that an exponential histogram uses.
pub const EXPONENTIAL_MAX_SIZE: u32 = 160;

/// The finest scale of an exponential histogram.
pub const EXPONENTIAL_MAX_SCALE: i8 = 20;

/// The stream that `StreamBuilder` builds for base-2 exponential aggregation
/// with these limits and nothing else set.
pub uninterp spec fn exponential_stream(
    max_size: u32,
    max_scale: i8,
    record_min_max: bool,
) -> Stream;

/// `StreamBuilder::build` on a builder that was given a base-2 exponential
/// aggregation and nothing else: it succeeds for a size above zero and a scale
/// from -10 to 20, and what it builds depends on the three arguments alone.
#[verifier::external_body]
fn build_exponential_stream(max_size: u32, max_scale: i8, record_min_max: bool) -> (r: Stream)
    requires
        0 < max_size,
        -10 <= max_scale <= 20,
    ensures
        r == exponential_stream(max_size, max_scale, record_min_max),
{
    Stream::builder()
        .with_aggregation(Aggregation::Base2ExponentialHistogram {
            max_size,
            max_scale,
            record_min_max,
        })
        .build()
        .expect("valid exponential histogram stream")
}

/// The metrics view that chooses each histogram's aggregation: the one set for
/// it by name, else the default.  It is one view, not one per setting, because
/// the SDK aggregates an instrument once for every view that matches it.
#[derive(Debug)]
pub struct HistogramView {
    /// The aggregation of histograms that none was set for.
    pub default: HistogramAggregation,
    /// Aggregations by lowercased instrument name.
    pub overrides: TextMap<HistogramAggregation>,
}

/// The aggregation of a histogram with the given name.
pub open spec fn chosen_aggregation(
    default: HistogramAggregation,
    overrides: Map<Seq<char>, HistogramAggregation>,
    name: Seq<char>,
) -> HistogramAggregation {
    if overrides.contains_key(lowercase(name)) {
        overrides[lowercase(name)]
    } else {
        default
    }
}

/// The settings after an aggregation is set for an instrument.
pub open spec fn with_override(
    overrides: Map<Seq<char>, HistogramAggregation>,
    instrument: Seq<char>,
    aggregation: HistogramAggregation,
) -> Map<Seq<char>, HistogramAggregation> {
    overrides.insert(lowercase(instrument), aggregation)
}

impl HistogramView {
    /// Returns the aggregation that the view gives an instrument, or `None` if
    /// the instrument is no histogram.
    pub fn aggregation(&self, instrument: &Instrument) -> (r: Option<HistogramAggregation>)
        ensures
            r == (if instrument.kind == InstrumentKind::Histogram {
                Some(chosen_aggregation(self.default, self.overrides@, instrument.name@))
            } else {
                None
            }),
            instrument.kind != InstrumentKind::Histogram ==> r is None,
            instrument.kind == InstrumentKind::Histogram && self.overrides@.contains_key(
                lowercase(instrument.name@),
            ) ==> r == Some(self.overrides@[lowercase(instrument.name@)]),
            instrument.kind == InstrumentKind::Histogram && !self.overrides@.contains_key(
                lowercase(instrument.name@),
            ) ==> r == Some(self.default),
    {
        if instrument.kind != InstrumentKind::Histogram {
            return None;
        }
        let name = to_lowercase(instrument.name.as_str());
        match self.overrides.get(name.as_str()) {
            Some(aggregation) => Some(*aggregation),
            None => Some(self.default),
        }
    }

    /// Returns the stream that the view asks for an instrument's measurements.
    ///
    /// There is none for an instrument that is no histogram, nor for one with
    /// explicit buckets: matching no view gives the SDK's default aggregation,
    /// which is explicit buckets with the instrument's advised boundaries, if
    /// any.
    pub fn stream(&self, instrument: &Instrument) -> (r: Option<Stream>)
        ensures
            r == (if instrument.kind == InstrumentKind::Histogram && chosen_aggregation(
                self.default,
                self.overrides@,
                instrument.name@,
            ) == HistogramAggregation::Exponential {
                Some(
                    exponential_stream(EXPONENTIAL_MAX_SIZE, EXPONENTIAL_MAX_SCALE, true),
                )
            } else {
                None
            }),
            r is Some ==> r == Some(exponential_stream(160, 20, true)),
            r is Some <==> {
                &&& instrument.kind == InstrumentKind::Histogram
                &&& if self.overrides@.contains_key(lowercase(instrument.name@)) {
                    self.overrides@[lowercase(instrument.name@)]
                        == HistogramAggregation::Exponential
                } else {
                    self.default == HistogramAggregation::Exponential
                }
            },
    {
        match self.aggregation(instrument) {
            Some(HistogramAggregation::Exponential) => Some(
                build_exponential_stream(EXPONENTIAL_MAX_SIZE, EXPONENTIAL_MAX_SCALE, true),
            ),
            _ => None,
        }
    }
}

/// Sets the aggregation of the histogram with the given name, in place of an
/// earlier setting for a name that differs from it in case alone.
pub fn set_override(
    overrides: &mut TextMap<HistogramAggregation>,
    instrument: &str,
    aggregation: HistogramAggregation,
)
    ensures
        final(overrides)@ == with_override(old(overrides)@, instrument@, aggregation),
        final(overrides)@ == old(overrides)@.insert(lowercase(instrument@), aggregation),
{
    overrides.insert(to_lowercase(instrument), aggregation);
}

/// A setting applies to exactly the histograms whose names have the same
/// lowercase form as the name it was made for, and takes precedence over the
/// default and over every earlier setting for such a name; it changes nothing
/// for other histograms.
pub proof fn law_override_matches_by_lowercase_name(
    default: HistogramAggregation,
    overrides: Map<Seq<char>, HistogramAggregation>,
    instrument: Seq<char>,
    aggregation: HistogramAggregation,
    name: Seq<char>,
)
    ensures
        chosen_aggregation(default, with_override(overrides, instrument, aggregation), name) == (
        if lowercase(name) == lowercase(instrument) {
            aggregation
        } else {
            chosen_aggregation(default, overrides, name)
        }),
{
}

/// Instrument names match case-insensitively: a setting made for a name in
/// ASCII applies to every histogram whose name differs from it, if at all, in
/// the case of its letters.
pub proof fn law_override_ignores_case(
    default: HistogramAggregation,
    overrides: Map<Seq<char>, HistogramAggregation>,
    instrument: Seq<char>,
    aggregation: HistogramAggregation,
    name: Seq<char>,
)
    requires
        all_ascii(instrument),
        ascii_lowered(name) == ascii_lowered(instrument),
    ensures
        chosen_aggregation(default, with_override(overrides, instrument, aggregation), name)
            == aggregation,
{
    assert(ascii_lowered(name).len() == name.len());
    assert(ascii_lowered(instrument).len() == instrument.len());
    assert forall|i: int| 0 <= i < name.len() implies #[trigger] name[i] <= '\u{7f}' by {
        assert(ascii_lowered(name)[i] == ascii_lower(name[i]));
        assert(ascii_lowered(instrument)[i] == ascii_lower(instrument[i]));
        assert(instrument[i] <= '\u{7f}');
    }
}

/// A later setting for the same instrument wins: the earlier one leaves no
/// trace.
pub proof fn law_later_override_wins(
    overrides: Map<Seq<char>, HistogramAggregation>,
    earlier: Seq<char>,
    first: HistogramAggregation,
    later: Seq<char>,
    second: HistogramAggregation,
)
    requires
        lowercase(earlier) == lowercase(later),
    ensures
        with_override(with_override(overrides, earlier, first), later, second) == with_override(
            overrides,
            later,
            second,
        ),
{
    assert(overrides.insert(lowercase(earlier), first).insert(lowercase(later), second)
        =~= overrides.insert(lowercase(later), second));
}

/// A histogram that no aggregation was set for has the default one, whatever its
/// name, and one that an aggregation was set for has that one, whatever the
/// default.
pub proof fn law_default_applies_unless_overridden(
    default: HistogramAggregation,
    overrides: Map<Seq<char>, HistogramAggregation>,
    name: Seq<char>,
)
    ensures
        !overrides.contains_key(lowercase(name)) ==> chosen_aggregation(default, overrides, name)
            == default,
        overrides.contains_key(lowercase(name)) ==> chosen_aggregation(default, overrides, name)
            == overrides[lowercase(name)],
        chosen_aggregation(default, Map::empty(), name) == default,
{
}

/// Setting an aggregation adds an entry for the lowercase form of the name and
/// leaves every other entry as it was.
pub proof fn law_setting_changes_one_entry(
    overrides: Map<Seq<char>, HistogramAggregation>,
    instrument: Seq<char>,
    aggregation: HistogramAggregation,
    key: Seq<char>,
)
    ensures
        ({
            let after = with_override(overrides, instrument, aggregation);
            &&& after.contains_key(lowercase(instrument))
            &&& after[lowercase(instrument)] == aggregation
            &&& key != lowercase(instrument) ==> after.contains_key(key) == overrides.contains_key(
                key,
            )
            &&& key != lowercase(instrument) && overrides.contains_key(key) ==> after[key]
                == overrides[key]
        }),
{
}

} // verus!
