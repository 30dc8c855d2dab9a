//! What a change of the token rate coincides with.

use crate::binary64::{
    differences_mirror, lemma_nearest_is_a_number, lemma_units_grow, lemma_units_positive,
    products_keep_the_order, quotients_keep_the_order, quotients_mirror, rounding_keeps_the_order,
    signed, small_whole_numbers_are_exact, Binary64, SIGNIFICAND_BOUND, UNIT_SCALE,
};
use crate::classify::{is_hot, is_thermally_limited, thermally_limited};
use crate::labels::{
    fraction, fraction_spec, highest, highest_spec, llm_context_tokens, llm_context_tokens_spec,
    percentage, percentage_spec,
};
use crate::model::{
    CorrelationCause, CorrelationInsight, CorrelationKey, Sample, ThroughputDirection,
};
use crate::order::{newest, sort, sorted, Rank};
use crate::text::{decimal, decimal_text, join, joined, same, views};
use crate::thresholds::{Thresholds, GPU_BUSY_ENTER_LOAD};
use crate::units::{
    bytes, bytes_spec, compact_tokens, compact_tokens_spec, count, count_spec, delta, delta_spec,
    rate, rate_spec, total, total_spec, MIB,
};
use std::collections::VecDeque;
use vstd::arithmetic::power2::{lemma_pow2_pos, pow2};
use vstd::prelude::*;

verus! {

/// How many observations the baseline is taken from.
pub const CORRELATION_HISTORY_LIMIT: usize = 16;

/// Growth of the context that counts as a cause.
pub const CONTEXT_GROWTH_TOKENS: u64 = 1024;

/// Growth of the model's memory that counts as a cause.
pub const MODEL_MEMORY_GROWTH: u64 = 256 * MIB;

/// What the diagnosis looks at in one sample.
#[derive(Debug)]
pub struct CorrelationObservation {
    pub provider: String,
    pub model: String,
    pub generation_tps: Option<Binary64>,
    pub gpu_util: Option<u8>,
    pub renderer_util: Option<u8>,
    pub tiler_util: Option<u8>,
    pub paging_rate: u64,
    pub compression_rate: u64,
    pub pressure: u8,
    pub thermal_limited: bool,
    pub model_memory: Option<u64>,
    pub model_memory_max: Option<u64>,
    pub metal_in_use: Option<u64>,
    pub metal_alloc: Option<u64>,
    pub context_tokens: Option<u64>,
    pub active_requests: Option<u64>,
    pub waiting_requests: Option<u64>,
}

impl Default for CorrelationObservation {
    fn default() -> (result: Self)
        ensures
            result.provider@.len() == 0,
            result.model@.len() == 0,
            result.generation_tps is None,
            result.gpu_util is None,
            result.renderer_util is None,
            result.tiler_util is None,
            result.paging_rate == 0,
            result.compression_rate == 0,
            result.pressure == 0,
            !result.thermal_limited,
            result.model_memory is None,
            result.model_memory_max is None,
            result.metal_in_use is None,
            result.metal_alloc is None,
            result.context_tokens is None,
            result.active_requests is None,
            result.waiting_requests is None,
    {
        CorrelationObservation {
            provider: String::new(),
            model: String::new(),
            generation_tps: None,
            gpu_util: None,
            renderer_util: None,
            tiler_util: None,
            paging_rate: 0,
            compression_rate: 0,
            pressure: 0,
            thermal_limited: false,
            model_memory: None,
            model_memory_max: None,
            metal_in_use: None,
            metal_alloc: None,
            context_tokens: None,
            active_requests: None,
            waiting_requests: None,
        }
    }
}

/// The pressure as a number that grows with it.
pub open spec fn pressure_rank_spec(pressure: Seq<char>) -> u8 {
    if pressure == "GREEN"@ {
        1
    } else if pressure == "YELLOW"@ {
        2
    } else if pressure == "RED"@ {
        4
    } else {
        0
    }
}

/// The pressure as a number that grows with it.
pub fn pressure_rank(pressure: &str) -> (result: u8)
    ensures
        result == pressure_rank_spec(pressure@),
{
    if same(pressure, "GREEN") {
        1
    } else if same(pressure, "YELLOW") {
        2
    } else if same(pressure, "RED") {
        4
    } else {
        0
    }
}

impl CorrelationObservation {
    /// Whether this is what the diagnosis looks at in `sample`. A rate that is
    /// not live is no observation.
    pub open spec fn observes(self, sample: Sample) -> bool {
        &&& self.provider@ == sample.llm_provider@
        &&& self.model@ == sample.llm_model@
        &&& self.generation_tps == if sample.llm_generation_tps_live {
            sample.llm_generation_tps
        } else {
            None
        }
        &&& self.gpu_util == sample.gpu_util
        &&& self.renderer_util == sample.metal.renderer_util
        &&& self.tiler_util == sample.metal.tiler_util
        &&& self.paging_rate == total_spec(sample.swap_in, sample.swap_out)
        &&& self.compression_rate == total_spec(sample.compress, sample.decompress)
        &&& self.pressure == pressure_rank_spec(sample.pressure@)
        &&& self.thermal_limited == thermally_limited(sample)
        &&& self.model_memory == sample.llm_model_memory
        &&& self.model_memory_max == sample.llm_model_memory_max
        &&& self.metal_in_use == sample.gpu_in_use
        &&& self.metal_alloc == sample.gpu_alloc
        &&& self.context_tokens == llm_context_tokens_spec(sample)
        &&& self.active_requests == sample.llm_active_requests
        &&& self.waiting_requests == sample.llm_waiting_requests
    }

    /// What the diagnosis looks at in a sample.
    pub fn from_sample(sample: &Sample) -> (result: CorrelationObservation)
        ensures
            result.observes(*sample),
    {
        CorrelationObservation {
            provider: sample.llm_provider.clone(),
            model: sample.llm_model.clone(),
            generation_tps: if sample.llm_generation_tps_live {
                sample.llm_generation_tps
            } else {
                None
            },
            gpu_util: sample.gpu_util,
            renderer_util: sample.metal.renderer_util,
            tiler_util: sample.metal.tiler_util,
            paging_rate: total(sample.swap_in, sample.swap_out),
            compression_rate: total(sample.compress, sample.decompress),
            pressure: pressure_rank(sample.pressure.as_str()),
            thermal_limited: is_thermally_limited(sample),
            model_memory: sample.llm_model_memory,
            model_memory_max: sample.llm_model_memory_max,
            metal_in_use: sample.gpu_in_use,
            metal_alloc: sample.gpu_alloc,
            context_tokens: llm_context_tokens(sample),
            active_requests: sample.llm_active_requests,
            waiting_requests: sample.llm_waiting_requests,
        }
    }

    /// The load of the busiest part of the GPU.
    pub open spec fn gpu_load_spec(self) -> Option<u8> {
        highest_spec(highest_spec(self.gpu_util, self.renderer_util), self.tiler_util)
    }

    fn gpu_load(&self) -> (result: Option<u8>)
        ensures
            result == self.gpu_load_spec(),
    {
        highest(highest(self.gpu_util, self.renderer_util), self.tiler_util)
    }

    /// Whether another observation is of the same model.
    pub open spec fn comparable(self, provider: Seq<char>, model: Seq<char>) -> bool {
        self.provider@ == provider && self.model@ == model
    }
}

/// A possible cause, how much it weighs and what bears it out.
#[derive(Debug)]
pub struct CorrelationFactor {
    pub cause: CorrelationCause,
    pub score: u8,
    pub evidence: String,
}

/// A factor's contents.
pub struct Factor {
    pub cause: CorrelationCause,
    pub score: u8,
    pub evidence: Seq<char>,
}

impl View for CorrelationFactor {
    type V = Factor;

    open spec fn view(&self) -> Factor {
        Factor { cause: self.cause, score: self.score, evidence: self.evidence@ }
    }
}

pub open spec fn factors_of(list: Seq<CorrelationFactor>) -> Seq<Factor> {
    list.map_values(|f: CorrelationFactor| f@)
}

/// A list of one factor.
pub open spec fn factor(cause: CorrelationCause, score: u8, evidence: Seq<char>) -> Seq<Factor> {
    seq![Factor { cause, score, evidence }]
}

/// Adds a factor to a list.
pub fn push_correlation_factor(
    factors: &mut Vec<CorrelationFactor>,
    cause: CorrelationCause,
    score: u8,
    evidence: String,
)
    ensures
        factors_of(final(factors)@) == factors_of(old(factors)@) + factor(cause, score, evidence@),
{
    factors.push(CorrelationFactor { cause, score, evidence });
    assert(factors_of(factors@) =~= factors_of(old(factors)@) + factor(cause, score, evidence@));
}

/// Nine tenths: a memory that is this full weighs.
pub open spec fn nearly_full() -> Binary64 {
    Binary64::of_nat(9).quotient(Binary64::of_nat(10))
}

fn nearly_full_ratio() -> (result: Binary64)
    ensures
        result == nearly_full(),
{
    Binary64::from_u64(9).over(Binary64::from_u64(10))
}

/// A token rate that can be compared: a finite one that is above zero or of an
/// active request.
pub open spec fn usable_rate(current: CorrelationObservation) -> Option<Binary64> {
    match current.generation_tps {
        Some(value) => if value.finite_spec() && (value.above_zero() || (
        current.active_requests is Some && current.active_requests.unwrap() > 0)) {
            Some(value)
        } else {
            None
        },
        None => None,
    }
}

/// A baseline that a rate can be compared with.
pub open spec fn usable_baseline(baseline: Option<Binary64>) -> Option<Binary64> {
    match baseline {
        Some(value) => if value.finite_spec() && value.above_zero() {
            Some(value)
        } else {
            None
        },
        None => None,
    }
}

/// The change from a baseline, in tokens per second.
pub open spec fn change_spec(current: Binary64, baseline: Binary64) -> Binary64 {
    current.sum(baseline.opposite())
}

/// The change from a baseline, as a percentage of it.
pub open spec fn change_percent(current: Binary64, baseline: Binary64) -> Binary64 {
    change_spec(current, baseline).quotient(baseline).product(Binary64::of_nat(100))
}

/// A tenth, as a percentage: a smaller change does not matter.
pub open spec fn least_percent() -> Binary64 {
    Binary64::of_nat(1).quotient(Binary64::of_nat(10)).product(Binary64::of_nat(100))
}

/// A change matters where it is two tokens per second and a tenth of the
/// baseline at least.
pub open spec fn direction_spec(rate: Option<Binary64>, baseline: Option<Binary64>) ->
    ThroughputDirection {
    match (rate, baseline) {
        (Some(rate), Some(baseline)) => {
            let change = change_spec(rate, baseline);
            let percent = change_percent(rate, baseline);
            if change.at_most(Binary64::of_nat(2).opposite()) && percent.at_most(
                least_percent().opposite(),
            ) {
                ThroughputDirection::Down
            } else if Binary64::of_nat(2).at_most(change) && least_percent().at_most(percent) {
                ThroughputDirection::Up
            } else {
                ThroughputDirection::Flat
            }
        },
        _ => ThroughputDirection::Unknown,
    }
}

fn percent_of(rate: Binary64, baseline: Binary64) -> (result: Binary64)
    ensures
        result == change_percent(rate, baseline),
{
    rate.minus(baseline).over(baseline).times(Binary64::from_u64(100))
}

fn direction_of(rate: Option<Binary64>, baseline: Option<Binary64>) -> (result: ThroughputDirection)
    ensures
        result == direction_spec(rate, baseline),
{
    match (rate, baseline) {
        (Some(rate), Some(baseline)) => {
            let change = rate.minus(baseline);
            let percent = percent_of(rate, baseline);
            let least = Binary64::from_u64(1).over(Binary64::from_u64(10)).times(
                Binary64::from_u64(100),
            );
            let two = Binary64::from_u64(2);
            if change.le(two.negated()) && percent.le(least.negated()) {
                ThroughputDirection::Down
            } else if two.le(change) && least.le(percent) {
                ThroughputDirection::Up
            } else {
                ThroughputDirection::Flat
            }
        },
        _ => ThroughputDirection::Unknown,
    }
}

pub open spec fn thermal_factor(current: CorrelationObservation) -> Seq<Factor> {
    if current.thermal_limited {
        factor(CorrelationCause::Thermal, 95, "thermal limit"@)
    } else {
        Seq::empty()
    }
}

pub open spec fn pressure_factor(current: CorrelationObservation) -> Seq<Factor> {
    if current.pressure == 4 {
        factor(CorrelationCause::MemoryPressure, 100, "memory pressure critical"@)
    } else if current.pressure == 2 {
        factor(CorrelationCause::MemoryPressure, 72, "memory pressure watch"@)
    } else {
        Seq::empty()
    }
}

pub open spec fn paging_factor(current: CorrelationObservation, thresholds: Thresholds) -> Seq<
    Factor,
> {
    if current.paging_rate >= thresholds.swap_warn_rate {
        factor(
            CorrelationCause::Paging,
            if current.paging_rate >= thresholds.swap_critical_rate {
                100
            } else {
                88
            },
            "paging "@ + rate_spec(current.paging_rate),
        )
    } else {
        Seq::empty()
    }
}

pub open spec fn compression_factor(
    current: CorrelationObservation,
    thresholds: Thresholds,
) -> Seq<Factor> {
    if current.compression_rate >= thresholds.compression_warn_rate {
        factor(
            CorrelationCause::Compression,
            68,
            "compression "@ + rate_spec(current.compression_rate),
        )
    } else {
        Seq::empty()
    }
}

pub open spec fn queue_factor(current: CorrelationObservation) -> Seq<Factor> {
    match current.waiting_requests {
        Some(waiting) => if waiting > 0 {
            factor(
                CorrelationCause::Queueing,
                if waiting > 1 {
                    82
                } else {
                    70
                },
                "queue "@ + decimal(waiting as nat) + " waiting · active "@ + count_spec(
                    current.active_requests,
                ),
            )
        } else {
            Seq::empty()
        },
        None => Seq::empty(),
    }
}

/// Whether the GPU was already saturated.
pub open spec fn was_saturated(
    previous: Option<CorrelationObservation>,
    thresholds: Thresholds,
) -> bool {
    match previous {
        Some(previous) => match previous.gpu_load_spec() {
            Some(load) => load >= thresholds.gpu_critical_load,
            None => false,
        },
        None => false,
    }
}

pub open spec fn gpu_factor(
    current: CorrelationObservation,
    previous: Option<CorrelationObservation>,
    thresholds: Thresholds,
) -> Seq<Factor> {
    match current.gpu_load_spec() {
        Some(load) => {
            let evidence = "GPU "@ + decimal(load as nat) + "% busy"@;
            if load >= thresholds.gpu_critical_load {
                factor(
                    CorrelationCause::GpuSaturation,
                    if was_saturated(previous, thresholds) {
                        72
                    } else {
                        95
                    },
                    evidence,
                )
            } else if load >= GPU_BUSY_ENTER_LOAD {
                factor(CorrelationCause::GpuSaturation, 58, evidence)
            } else {
                Seq::empty()
            }
        },
        None => Seq::empty(),
    }
}

/// Whether the Metal memory was measured and had room.
pub open spec fn metal_had_room(previous: Option<CorrelationObservation>) -> bool {
    match previous {
        Some(previous) => match fraction_spec(previous.metal_in_use, previous.metal_alloc) {
            Some(ratio) => ratio.less_than(nearly_full()),
            None => true,
        },
        None => true,
    }
}

pub open spec fn metal_factor(
    current: CorrelationObservation,
    previous: Option<CorrelationObservation>,
) -> Seq<Factor> {
    match (
        fraction_spec(current.metal_in_use, current.metal_alloc),
        current.metal_in_use,
        current.metal_alloc,
    ) {
        (Some(ratio), Some(used), Some(allocated)) => if nearly_full().at_most(ratio) {
            factor(
                CorrelationCause::MetalMemory,
                if metal_had_room(previous) {
                    90
                } else {
                    68
                },
                "Metal MEM "@ + percentage_spec(ratio) + "% ("@ + bytes_spec(used) + "/"@
                    + bytes_spec(allocated) + ")"@,
            )
        } else {
            Seq::empty()
        },
        _ => Seq::empty(),
    }
}

/// How far a count has grown since the observation before.
pub open spec fn growth_spec(current: Option<u64>, previous: Option<u64>) -> Option<u64> {
    match (current, previous) {
        (Some(current), Some(previous)) => Some(delta_spec(current, previous)),
        _ => None,
    }
}

/// What shows that the model's memory is close to its ceiling.
pub open spec fn ceiling_evidence(current: CorrelationObservation) -> Seq<Seq<char>> {
    match fraction_spec(current.model_memory, current.model_memory_max) {
        Some(ratio) => if nearly_full().at_most(ratio) {
            seq!["model MEM "@ + percentage_spec(ratio) + "% of ceiling"@]
        } else {
            Seq::empty()
        },
        None => Seq::empty(),
    }
}

/// What shows that the model's memory has grown.
pub open spec fn growth_evidence(
    current: CorrelationObservation,
    previous: Option<CorrelationObservation>,
) -> Seq<Seq<char>> {
    match previous {
        Some(previous) => match growth_spec(current.model_memory, previous.model_memory) {
            Some(grown) => if grown >= MODEL_MEMORY_GROWTH {
                seq!["model MEM +"@ + bytes_spec(grown)]
            } else {
                Seq::empty()
            },
            None => Seq::empty(),
        },
        None => Seq::empty(),
    }
}

pub open spec fn model_factor(
    current: CorrelationObservation,
    previous: Option<CorrelationObservation>,
) -> Seq<Factor> {
    let ceiling = ceiling_evidence(current);
    let grown = growth_evidence(current, previous);
    if ceiling.len() + grown.len() == 0 {
        Seq::empty()
    } else {
        factor(
            CorrelationCause::ModelMemory,
            if ceiling.len() > 0 {
                84
            } else {
                72
            },
            joined(ceiling + grown, " · "@),
        )
    }
}

pub open spec fn context_factor(
    current: CorrelationObservation,
    previous: Option<CorrelationObservation>,
    direction: ThroughputDirection,
) -> Seq<Factor> {
    let grown = match previous {
        Some(previous) => growth_spec(current.context_tokens, previous.context_tokens),
        None => None,
    };
    match current.context_tokens {
        Some(tokens) => if grown is Some && grown.unwrap() >= CONTEXT_GROWTH_TOKENS {
            factor(
                CorrelationCause::ContextGrowth,
                82,
                "context +"@ + compact_tokens_spec(grown.unwrap()) + " → "@ + compact_tokens_spec(
                    tokens,
                ),
            )
        } else if direction == ThroughputDirection::Down && tokens >= 16_384 {
            factor(
                CorrelationCause::ContextGrowth,
                48,
                "context "@ + compact_tokens_spec(tokens),
            )
        } else {
            Seq::empty()
        },
        None => Seq::empty(),
    }
}

/// The causes that an observation shows, in a fixed order.
pub open spec fn system_factors(
    current: CorrelationObservation,
    previous: Option<CorrelationObservation>,
    direction: ThroughputDirection,
    thresholds: Thresholds,
) -> Seq<Factor> {
    thermal_factor(current) + pressure_factor(current) + paging_factor(current, thresholds)
        + compression_factor(current, thresholds) + queue_factor(current) + gpu_factor(
        current,
        previous,
        thresholds,
    ) + metal_factor(current, previous) + model_factor(current, previous) + context_factor(
        current,
        previous,
        direction,
    )
}

/// The causes of a change. A drop that nothing explains is put down to the
/// work itself.
pub open spec fn factors_spec(
    current: CorrelationObservation,
    previous: Option<CorrelationObservation>,
    direction: ThroughputDirection,
    thresholds: Thresholds,
) -> Seq<Factor> {
    let found = system_factors(current, previous, direction, thresholds);
    if direction == ThroughputDirection::Down && found.len() == 0 {
        factor(
            CorrelationCause::Runtime,
            20,
            "no matching system signal; workload/runtime changed"@,
        )
    } else {
        found
    }
}

/// The factors with a score.
pub open spec fn scored(list: Seq<Factor>, score: nat) -> Seq<Factor> {
    list.filter(|f: Factor| f.score == score)
}

/// The factors with at most a score, the weightiest first; those that weigh
/// the same stay in order.
pub open spec fn ranked_from(list: Seq<Factor>, score: nat) -> Seq<Factor>
    decreases score,
{
    if score == 0 {
        scored(list, 0)
    } else {
        scored(list, score) + ranked_from(list, (score - 1) as nat)
    }
}

/// The factors, the weightiest first.
pub open spec fn ranked_spec(list: Seq<Factor>) -> Seq<Factor> {
    ranked_from(list, 255)
}

/// The rate, and how it has changed where that matters.
pub open spec fn rate_label_spec(
    rate: Option<Binary64>,
    baseline: Option<Binary64>,
    direction: ThroughputDirection,
) -> Seq<char> {
    match (rate, baseline, direction) {
        (Some(rate), Some(baseline), ThroughputDirection::Down) => "GEN ↓"@ + signed(
            false,
            change_percent(rate, baseline).magnitude_spec() as nat,
        ).fixed_spec(1) + "% ("@ + baseline.fixed_spec(1) + "→"@ + rate.fixed_spec(1) + " tok/s)"@,
        (Some(rate), Some(baseline), ThroughputDirection::Up) => "GEN ↑"@ + change_percent(
            rate,
            baseline,
        ).fixed_spec(1) + "% ("@ + baseline.fixed_spec(1) + "→"@ + rate.fixed_spec(1) + " tok/s)"@,
        (Some(rate), _, _) => "GEN "@ + rate.fixed_spec(1) + " tok/s"@,
        (None, _, _) => Seq::empty(),
    }
}

pub open spec fn evidence_of(list: Seq<Factor>) -> Seq<Seq<char>> {
    list.map_values(|f: Factor| f.evidence)
}

/// The first two factors at most.
pub open spec fn leading(list: Seq<Factor>) -> Seq<Factor> {
    if list.len() <= 2 {
        list
    } else {
        list.take(2)
    }
}

/// What a diagnosis says: the factors are ranked, and the weightiest is the
/// cause.
pub open spec fn diagnosis(
    insight: CorrelationInsight,
    direction: ThroughputDirection,
    label: Seq<char>,
    factors: Seq<Factor>,
) -> bool {
    let cause = if factors.len() == 0 {
        CorrelationCause::Uncorrelated
    } else {
        factors[0].cause
    };
    let evidence = joined(evidence_of(leading(factors)), " + "@);
    &&& insight.direction == direction
    &&& insight.cause == cause
    &&& insight.confidence == if factors.len() == 0 {
        0
    } else {
        factors[0].score
    }
    &&& insight.summary@ == if label.len() == 0 {
        Seq::empty()
    } else if evidence.len() > 0 {
        label + " · correlated: "@ + evidence
    } else if direction == ThroughputDirection::Down {
        label + " · no matching system signal"@
    } else {
        Seq::empty()
    }
    &&& insight.details@ == if label.len() == 0 || factors.len() == 0 {
        Seq::empty()
    } else {
        cause.label_spec() + " · "@ + joined(evidence_of(factors), " · "@)
    }
    &&& insight.event_key == if direction == ThroughputDirection::Down {
        Some(CorrelationKey { direction, cause })
    } else {
        None
    }
}

/// What an observation means, given the one before and the usual rate.
pub open spec fn correlates(
    insight: CorrelationInsight,
    current: CorrelationObservation,
    previous: Option<CorrelationObservation>,
    baseline: Option<Binary64>,
    thresholds: Thresholds,
) -> bool {
    let rate = usable_rate(current);
    let usual = usable_baseline(baseline);
    let direction = direction_spec(rate, usual);
    diagnosis(
        insight,
        direction,
        rate_label_spec(rate, usual, direction),
        ranked_spec(factors_spec(current, previous, direction, thresholds)),
    )
}


fn push_thermal(factors: &mut Vec<CorrelationFactor>, current: &CorrelationObservation)
    ensures
        factors_of(final(factors)@) == factors_of(old(factors)@) + thermal_factor(*current),
{
    if current.thermal_limited {
        push_correlation_factor(
            factors,
            CorrelationCause::Thermal,
            95,
            "thermal limit".to_string(),
        );
    } else {
        assert(factors_of(factors@) =~= factors_of(old(factors)@) + thermal_factor(*current));
    }
}

fn push_pressure(factors: &mut Vec<CorrelationFactor>, current: &CorrelationObservation)
    ensures
        factors_of(final(factors)@) == factors_of(old(factors)@) + pressure_factor(*current),
{
    if current.pressure == 4 {
        push_correlation_factor(
            factors,
            CorrelationCause::MemoryPressure,
            100,
            "memory pressure critical".to_string(),
        );
    } else if current.pressure == 2 {
        push_correlation_factor(
            factors,
            CorrelationCause::MemoryPressure,
            72,
            "memory pressure watch".to_string(),
        );
    } else {
        assert(factors_of(factors@) =~= factors_of(old(factors)@) + pressure_factor(*current));
    }
}

fn push_paging(
    factors: &mut Vec<CorrelationFactor>,
    current: &CorrelationObservation,
    thresholds: Thresholds,
)
    ensures
        factors_of(final(factors)@) == factors_of(old(factors)@) + paging_factor(
            *current,
            thresholds,
        ),
{
    if current.paging_rate >= thresholds.swap_warn_rate {
        let score: u8 = if current.paging_rate >= thresholds.swap_critical_rate {
            100
        } else {
            88
        };
        let evidence = "paging ".to_string().concat(rate(current.paging_rate).as_str());
        push_correlation_factor(factors, CorrelationCause::Paging, score, evidence);
    } else {
        assert(factors_of(factors@) =~= factors_of(old(factors)@) + paging_factor(
            *current,
            thresholds,
        ));
    }
}

fn push_compression(
    factors: &mut Vec<CorrelationFactor>,
    current: &CorrelationObservation,
    thresholds: Thresholds,
)
    ensures
        factors_of(final(factors)@) == factors_of(old(factors)@) + compression_factor(
            *current,
            thresholds,
        ),
{
    if current.compression_rate >= thresholds.compression_warn_rate {
        let evidence = "compression ".to_string().concat(rate(current.compression_rate).as_str());
        push_correlation_factor(factors, CorrelationCause::Compression, 68, evidence);
    } else {
        assert(factors_of(factors@) =~= factors_of(old(factors)@) + compression_factor(
            *current,
            thresholds,
        ));
    }
}

fn push_queue(factors: &mut Vec<CorrelationFactor>, current: &CorrelationObservation)
    ensures
        factors_of(final(factors)@) == factors_of(old(factors)@) + queue_factor(*current),
{
    if let Some(waiting) = current.waiting_requests {
        if waiting > 0 {
            let score: u8 = if waiting > 1 {
                82
            } else {
                70
            };
            let evidence = "queue ".to_string().concat(decimal_text(waiting).as_str()).concat(
                " waiting · active ",
            ).concat(count(current.active_requests).as_str());
            push_correlation_factor(factors, CorrelationCause::Queueing, score, evidence);
            return;
        }
    }
    assert(factors_of(factors@) =~= factors_of(old(factors)@) + queue_factor(*current));
}

/// The observation that a reference leads to, where there is one.
pub open spec fn observed(previous: Option<&CorrelationObservation>) -> Option<
    CorrelationObservation,
> {
    match previous {
        Some(previous) => Some(*previous),
        None => None,
    }
}

fn push_gpu(
    factors: &mut Vec<CorrelationFactor>,
    current: &CorrelationObservation,
    previous: Option<&CorrelationObservation>,
    thresholds: Thresholds,
)
    ensures
        factors_of(final(factors)@) == factors_of(old(factors)@) + gpu_factor(
            *current,
            observed(previous),
            thresholds,
        ),
{
    if let Some(load) = current.gpu_load() {
        if load as u64 >= thresholds.gpu_critical_load {
            let saturated = match previous {
                Some(previous) => match previous.gpu_load() {
                    Some(before) => before as u64 >= thresholds.gpu_critical_load,
                    None => false,
                },
                None => false,
            };
            let score: u8 = if saturated {
                72
            } else {
                95
            };
            let evidence = "GPU ".to_string().concat(decimal_text(load as u64).as_str()).concat(
                "% busy",
            );
            push_correlation_factor(factors, CorrelationCause::GpuSaturation, score, evidence);
            return;
        }
        if load as u64 >= GPU_BUSY_ENTER_LOAD {
            let evidence = "GPU ".to_string().concat(decimal_text(load as u64).as_str()).concat(
                "% busy",
            );
            push_correlation_factor(factors, CorrelationCause::GpuSaturation, 58, evidence);
            return;
        }
    }
    assert(factors_of(factors@) =~= factors_of(old(factors)@) + gpu_factor(
        *current,
        observed(previous),
        thresholds,
    ));
}

fn push_metal(
    factors: &mut Vec<CorrelationFactor>,
    current: &CorrelationObservation,
    previous: Option<&CorrelationObservation>,
)
    ensures
        factors_of(final(factors)@) == factors_of(old(factors)@) + metal_factor(
            *current,
            observed(previous),
        ),
{
    if let (Some(used), Some(allocated)) = (current.metal_in_use, current.metal_alloc) {
        if let Some(ratio) = fraction(current.metal_in_use, current.metal_alloc) {
            let full = nearly_full_ratio();
            if full.le(ratio) {
                let had_room = match previous {
                    Some(previous) => match fraction(previous.metal_in_use, previous.metal_alloc) {
                        Some(before) => before.lt(full),
                        None => true,
                    },
                    None => true,
                };
                let score: u8 = if had_room {
                    90
                } else {
                    68
                };
                let evidence = "Metal MEM ".to_string().concat(percentage(ratio).as_str()).concat(
                    "% (",
                ).concat(bytes(used).as_str()).concat("/").concat(
                    bytes(allocated).as_str(),
                ).concat(")");
                push_correlation_factor(factors, CorrelationCause::MetalMemory, score, evidence);
                return;
            }
        }
    }
    assert(factors_of(factors@) =~= factors_of(old(factors)@) + metal_factor(
        *current,
        observed(previous),
    ));
}

fn growth(current: Option<u64>, previous: Option<u64>) -> (result: Option<u64>)
    ensures
        result == growth_spec(current, previous),
{
    match (current, previous) {
        (Some(current), Some(previous)) => Some(delta(current, previous)),
        _ => None,
    }
}

fn push_model(
    factors: &mut Vec<CorrelationFactor>,
    current: &CorrelationObservation,
    previous: Option<&CorrelationObservation>,
)
    ensures
        factors_of(final(factors)@) == factors_of(old(factors)@) + model_factor(
            *current,
            observed(previous),
        ),
{
    let mut evidence: Vec<String> = Vec::new();
    if let Some(ratio) = fraction(current.model_memory, current.model_memory_max) {
        if nearly_full_ratio().le(ratio) {
            evidence.push(
                "model MEM ".to_string().concat(percentage(ratio).as_str()).concat("% of ceiling"),
            );
        }
    }
    assert(views(evidence@) =~= ceiling_evidence(*current));
    let near = evidence.len() > 0;
    if let Some(previous) = previous {
        if let Some(grown) = growth(current.model_memory, previous.model_memory) {
            if grown >= MODEL_MEMORY_GROWTH {
                evidence.push("model MEM +".to_string().concat(bytes(grown).as_str()));
            }
        }
    }
    assert(views(evidence@) =~= ceiling_evidence(*current) + growth_evidence(
        *current,
        observed(previous),
    ));
    assert(views(evidence@).len() == evidence@.len());
    if evidence.len() > 0 {
        let score: u8 = if near {
            84
        } else {
            72
        };
        push_correlation_factor(
            factors,
            CorrelationCause::ModelMemory,
            score,
            join(&evidence, " · "),
        );
    } else {
        assert(factors_of(factors@) =~= factors_of(old(factors)@) + model_factor(
            *current,
            observed(previous),
        ));
    }
}

fn push_context(
    factors: &mut Vec<CorrelationFactor>,
    current: &CorrelationObservation,
    previous: Option<&CorrelationObservation>,
    direction: ThroughputDirection,
)
    ensures
        factors_of(final(factors)@) == factors_of(old(factors)@) + context_factor(
            *current,
            observed(previous),
            direction,
        ),
{
    if let Some(tokens) = current.context_tokens {
        let grown: Option<u64> = match previous {
            Some(previous) => growth(current.context_tokens, previous.context_tokens),
            None => None,
        };
        if let Some(grown) = grown {
            if grown >= CONTEXT_GROWTH_TOKENS {
                let evidence = "context +".to_string().concat(
                    compact_tokens(grown).as_str(),
                ).concat(" → ").concat(compact_tokens(tokens).as_str());
                push_correlation_factor(factors, CorrelationCause::ContextGrowth, 82, evidence);
                return;
            }
        }
        if direction == ThroughputDirection::Down && tokens >= 16_384 {
            let evidence = "context ".to_string().concat(compact_tokens(tokens).as_str());
            push_correlation_factor(factors, CorrelationCause::ContextGrowth, 48, evidence);
            return;
        }
    }
    assert(factors_of(factors@) =~= factors_of(old(factors)@) + context_factor(
        *current,
        observed(previous),
        direction,
    ));
}

/// The causes that an observation shows.
fn collect_factors(
    current: &CorrelationObservation,
    previous: Option<&CorrelationObservation>,
    direction: ThroughputDirection,
    thresholds: Thresholds,
) -> (factors: Vec<CorrelationFactor>)
    ensures
        factors_of(factors@) == factors_spec(*current, observed(previous), direction, thresholds),
{
    let mut factors: Vec<CorrelationFactor> = Vec::new();
    assert(factors_of(factors@) + thermal_factor(*current) =~= thermal_factor(*current));
    push_thermal(&mut factors, current);
    push_pressure(&mut factors, current);
    push_paging(&mut factors, current, thresholds);
    push_compression(&mut factors, current, thresholds);
    push_queue(&mut factors, current);
    push_gpu(&mut factors, current, previous, thresholds);
    push_metal(&mut factors, current, previous);
    push_model(&mut factors, current, previous);
    push_context(&mut factors, current, previous, direction);
    assert(factors_of(factors@).len() == factors@.len());
    if direction == ThroughputDirection::Down && factors.len() == 0 {
        push_correlation_factor(
            &mut factors,
            CorrelationCause::Runtime,
            20,
            "no matching system signal; workload/runtime changed".to_string(),
        );
        assert(factors_of(factors@) =~= factors_spec(
            *current,
            observed(previous),
            direction,
            thresholds,
        ));
    }
    factors
}

/// The factors, the weightiest first; those that weigh the same stay in
/// order.
fn rank_factors(list: &Vec<CorrelationFactor>) -> (result: Vec<CorrelationFactor>)
    ensures
        factors_of(result@) == ranked_spec(factors_of(list@)),
{
    let ghost all = factors_of(list@);
    let mut result: Vec<CorrelationFactor> = Vec::new();
    let mut score: u8 = 255;
    let mut done = false;
    assert(factors_of(result@) + ranked_from(all, 255) =~= ranked_from(all, 255));
    while !done
        invariant
            all == factors_of(list@),
            !done ==> factors_of(result@) + ranked_from(all, score as nat) == ranked_spec(all),
            done ==> factors_of(result@) == ranked_spec(all),
        decreases
                if done {
                    0
                } else {
                    score + 1
                },
    {
        let ghost before = factors_of(result@);
        for i in 0..list.len()
            invariant
                all == factors_of(list@),
                factors_of(result@) == before + scored(all.take(i as int), score as nat),
        {
            proof {
                reveal(Seq::filter);
                assert(all.take(i + 1).drop_last() =~= all.take(i as int));
                assert(all[i as int] == list@[i as int]@);
            }
            if list[i].score == score {
                let ghost shorter = result@;
                result.push(
                    CorrelationFactor {
                        cause: list[i].cause,
                        score: list[i].score,
                        evidence: list[i].evidence.clone(),
                    },
                );
                assert(factors_of(result@) =~= factors_of(shorter).push(all[i as int]));
                assert(factors_of(result@) =~= before + scored(all.take(i + 1), score as nat));
            }
        }
        assert(all.take(list@.len() as int) =~= all);
        if score == 0 {
            done = true;
        } else {
            proof {
                let rest = ranked_from(all, (score - 1) as nat);
                assert(before + (scored(all, score as nat) + rest) =~= before + scored(
                    all,
                    score as nat,
                ) + rest);
            }
            score = score - 1;
        }
    }
    result
}

fn evidence_texts(list: &Vec<CorrelationFactor>, most: usize) -> (out: Vec<String>)
    ensures
        views(out@) == evidence_of(factors_of(list@)).take(
            if most <= list@.len() {
                most as int
            } else {
                list@.len() as int
            },
        ),
{
    let mut out: Vec<String> = Vec::new();
    let mut i: usize = 0;
    assert(views(out@) =~= evidence_of(factors_of(list@)).take(0));
    while i < most && i < list.len()
        invariant
            i <= most,
            i <= list@.len(),
            views(out@) == evidence_of(factors_of(list@)).take(i as int),
        decreases most - i,
    {
        let ghost shorter = out@;
        out.push(list[i].evidence.clone());
        assert(views(out@) =~= views(shorter).push(list@[i as int].evidence@));
        assert(factors_of(list@)[i as int] == list@[i as int]@);
        assert(views(out@) =~= evidence_of(factors_of(list@)).take(i + 1));
        i = i + 1;
    }
    out
}

fn rate_label(
    rate: Option<Binary64>,
    baseline: Option<Binary64>,
    direction: ThroughputDirection,
) -> (out: String)
    ensures
        out@ == rate_label_spec(rate, baseline, direction),
{
    match (rate, baseline) {
        (Some(rate), Some(baseline)) => {
            if direction == ThroughputDirection::Down {
                "GEN ↓".to_string().concat(
                    percent_of(rate, baseline).magnitude().fixed(1).as_str(),
                ).concat("% (").concat(baseline.fixed(1).as_str()).concat("→").concat(
                    rate.fixed(1).as_str(),
                ).concat(" tok/s)")
            } else if direction == ThroughputDirection::Up {
                "GEN ↑".to_string().concat(percent_of(rate, baseline).fixed(1).as_str()).concat(
                    "% (",
                ).concat(baseline.fixed(1).as_str()).concat("→").concat(
                    rate.fixed(1).as_str(),
                ).concat(" tok/s)")
            } else {
                "GEN ".to_string().concat(rate.fixed(1).as_str()).concat(" tok/s")
            }
        },
        (Some(rate), None) => "GEN ".to_string().concat(rate.fixed(1).as_str()).concat(" tok/s"),
        (None, _) => String::new(),
    }
}

/// What an observation means, given the one before and the usual rate.
pub fn correlate_observations(
    current: &CorrelationObservation,
    previous: Option<&CorrelationObservation>,
    baseline: Option<Binary64>,
    thresholds: Thresholds,
) -> (insight: CorrelationInsight)
    ensures
        correlates(insight, *current, observed(previous), baseline, thresholds),
{
    let active = match current.active_requests {
        Some(active) => active > 0,
        None => false,
    };
    let tps: Option<Binary64> = match current.generation_tps {
        Some(value) => if value.is_finite() && (value.is_above_zero() || active) {
            Some(value)
        } else {
            None
        },
        None => None,
    };
    let usual: Option<Binary64> = match baseline {
        Some(value) => if value.is_finite() && value.is_above_zero() {
            Some(value)
        } else {
            None
        },
        None => None,
    };
    let direction = direction_of(tps, usual);
    let found = collect_factors(current, previous, direction, thresholds);
    let factors = rank_factors(&found);
    let ghost list = factors_of(factors@);
    let label = rate_label(tps, usual, direction);
    let (cause, confidence): (CorrelationCause, u8) = if factors.len() > 0 {
        assert(list[0] == factors@[0]@);
        (factors[0].cause, factors[0].score)
    } else {
        (CorrelationCause::Uncorrelated, 0)
    };
    let evidence = join(&evidence_texts(&factors, 2), " + ");
    proof {
        assert(list.len() == factors@.len());
        if list.len() <= 2 {
            assert(evidence_of(list).take(list.len() as int) =~= evidence_of(leading(list)));
        } else {
            assert(evidence_of(list).take(2) =~= evidence_of(leading(list)));
        }
    }
    let summary = if label.as_str().is_empty() {
        String::new()
    } else if !evidence.as_str().is_empty() {
        label.clone().concat(" · correlated: ").concat(evidence.as_str())
    } else if direction == ThroughputDirection::Down {
        label.clone().concat(" · no matching system signal")
    } else {
        String::new()
    };
    let details = if label.as_str().is_empty() || factors.len() == 0 {
        String::new()
    } else {
        assert(evidence_of(list).take(list.len() as int) =~= evidence_of(list));
        cause.label().to_string().concat(" · ").concat(
            join(&evidence_texts(&factors, factors.len()), " · ").as_str(),
        )
    };
    let event_key: Option<CorrelationKey> = if direction == ThroughputDirection::Down {
        Some(CorrelationKey { direction, cause })
    } else {
        None
    };
    assert(summary@ =~= if label@.len() == 0 {
        Seq::empty()
    } else if evidence@.len() > 0 {
        label@ + " · correlated: "@ + evidence@
    } else if direction == ThroughputDirection::Down {
        label@ + " · no matching system signal"@
    } else {
        Seq::empty()
    });
    CorrelationInsight { direction, cause, confidence, summary, details, event_key }
}

/// Positive numbers in the order of their size.
impl Rank for Binary64 {
    open spec fn before(self, other: Self) -> bool {
        self.bits < other.bits
    }

    fn comes_before(&self, other: &Self) -> (result: bool) {
        self.bits < other.bits
    }
}

/// The rates above zero that were observed of one model.
pub open spec fn rates_of(
    observations: Seq<CorrelationObservation>,
    provider: Seq<char>,
    model: Seq<char>,
) -> Seq<Binary64>
    decreases observations.len(),
{
    if observations.len() == 0 {
        Seq::empty()
    } else {
        let rest = rates_of(observations.drop_last(), provider, model);
        let last = observations.last();
        match usable_baseline(last.generation_tps) {
            Some(rate) => if last.comparable(provider, model) {
                rest.push(rate)
            } else {
                rest
            },
            None => rest,
        }
    }
}

/// The middle of the rates, or the mean of the two in the middle.
pub open spec fn median(rates: Seq<Binary64>) -> Option<Binary64> {
    let ordered = sorted(rates);
    let middle = (rates.len() / 2) as int;
    if rates.len() == 0 {
        None
    } else if rates.len() % 2 == 0 {
        Some(ordered[middle - 1].sum(ordered[middle]).quotient(Binary64::of_nat(2)))
    } else {
        Some(ordered[middle])
    }
}

/// The observation before, where it is of the same model.
pub open spec fn comparable_previous(
    observations: Seq<CorrelationObservation>,
    current: CorrelationObservation,
) -> Option<CorrelationObservation> {
    if observations.len() > 0 && observations.last().comparable(
        current.provider@,
        current.model@,
    ) {
        Some(observations.last())
    } else {
        None
    }
}

/// Watches the token rate of one model after another.
#[derive(Debug)]
pub struct CorrelationEngine {
    pub observations: VecDeque<CorrelationObservation>,
}

impl CorrelationEngine {
    /// An engine that has seen nothing.
    pub fn new() -> (result: CorrelationEngine)
        ensures
            result.observations@.len() == 0,
    {
        CorrelationEngine { observations: VecDeque::new() }
    }

    /// The usual rate of a model: the median of what was observed of it.
    pub fn baseline(&self, provider: &str, model: &str) -> (result: Option<Binary64>)
        ensures
            result == median(rates_of(self.observations@, provider@, model@)),
    {
        let mut rates: Vec<Binary64> = Vec::new();
        for i in 0..self.observations.len()
            invariant
                rates@ == rates_of(self.observations@.take(i as int), provider@, model@),
        {
            let observation = &self.observations[i];
            proof {
                assert(self.observations@.take(i + 1).drop_last() =~= self.observations@.take(
                    i as int,
                ));
            }
            if let Some(value) = observation.generation_tps {
                if value.is_finite() && value.is_above_zero() && same(
                    observation.provider.as_str(),
                    provider,
                ) && same(observation.model.as_str(), model) {
                    rates.push(value);
                }
            }
        }
        proof {
            assert(self.observations@.take(self.observations@.len() as int)
                =~= self.observations@);
            crate::order::sorting_permutes(rates@);
        }
        let total: usize = rates.len();
        if total == 0 {
            return None;
        }
        let ordered = sort(rates);
        let middle: usize = total / 2;
        if total % 2 == 0 {
            Some(ordered[middle - 1].plus(ordered[middle]).over(Binary64::from_u64(2)))
        } else {
            Some(ordered[middle])
        }
    }

    /// Diagnoses a sample against what was seen before, and remembers it. The
    /// newest observations are kept.
    pub fn observe(&mut self, sample: &Sample, thresholds: Thresholds) -> (insight:
        CorrelationInsight)
        ensures
            final(self).observations@.len() > 0,
            ({
                let seen = old(self).observations@;
                let current = final(self).observations@.last();
                &&& current.observes(*sample)
                &&& final(self).observations@ == newest(
                    seen.push(current),
                    CORRELATION_HISTORY_LIMIT as nat,
                )
                &&& correlates(
                    insight,
                    current,
                    comparable_previous(seen, current),
                    median(rates_of(seen, current.provider@, current.model@)),
                    thresholds,
                )
            }),
    {
        let current = CorrelationObservation::from_sample(sample);
        let baseline = self.baseline(current.provider.as_str(), current.model.as_str());
        let count: usize = self.observations.len();
        let insight = if count > 0 && same(
            self.observations[count - 1].provider.as_str(),
            current.provider.as_str(),
        ) && same(self.observations[count - 1].model.as_str(), current.model.as_str()) {
            correlate_observations(
                &current,
                Some(&self.observations[count - 1]),
                baseline,
                thresholds,
            )
        } else {
            correlate_observations(&current, None, baseline, thresholds)
        };
        self.observations.push_back(current);
        let ghost all = self.observations@;
        let ghost mut dropped: int = 0;
        assert(all.skip(0) =~= all);
        while self.observations.len() > CORRELATION_HISTORY_LIMIT
            invariant
                0 <= dropped <= all.len(),
                dropped > 0 ==> all.len() - dropped >= CORRELATION_HISTORY_LIMIT,
                self.observations@ == all.skip(dropped),
            decreases self.observations@.len(),
        {
            let _ = self.observations.pop_front();
            proof {
                assert(self.observations@ =~= all.skip(dropped + 1));
                dropped = dropped + 1;
            }
        }
        assert(self.observations@ =~= newest(all, CORRELATION_HISTORY_LIMIT as nat));
        insight
    }

    /// Forgets what was seen.
    pub fn reset(&mut self)
        ensures
            final(self).observations@.len() == 0,
    {
        self.observations.clear();
    }
}

/// However much was seen before, the engine remembers a bounded number of
/// observations, of which the last is the newest.
pub proof fn remembered_observations_are_bounded(
    seen: Seq<CorrelationObservation>,
    current: CorrelationObservation,
)
    ensures
        newest(seen.push(current), CORRELATION_HISTORY_LIMIT as nat).len()
            <= CORRELATION_HISTORY_LIMIT,
        newest(seen.push(current), CORRELATION_HISTORY_LIMIT as nat).last() == current,
{
}

/// What is observed of another model, or without a usable rate, leaves a model's
/// baseline where it is, as long as nothing has to be forgotten for it.
pub proof fn other_models_do_not_move_the_baseline(
    seen: Seq<CorrelationObservation>,
    other: CorrelationObservation,
    provider: Seq<char>,
    model: Seq<char>,
)
    requires
        seen.len() < CORRELATION_HISTORY_LIMIT,
        !other.comparable(provider, model) || usable_baseline(other.generation_tps) is None,
    ensures
        median(
            rates_of(newest(seen.push(other), CORRELATION_HISTORY_LIMIT as nat), provider, model),
        ) == median(rates_of(seen, provider, model)),
{
    assert(seen.push(other).drop_last() =~= seen);
}

proof fn lemma_scored_member(list: Seq<Factor>, score: nat, at: int)
    requires
        0 <= at < scored(list, score).len(),
    ensures
        list.contains(scored(list, score)[at]),
    decreases list.len(),
{
    reveal(Seq::filter);
    if list.len() > 0 {
        let shorter = scored(list.drop_last(), score);
        if at < shorter.len() {
            lemma_scored_member(list.drop_last(), score, at);
            let i = choose|i: int|
                0 <= i < list.drop_last().len() && list.drop_last()[i] == shorter[at];
            assert(list[i] == scored(list, score)[at]);
        } else {
            assert(list[list.len() - 1] == scored(list, score)[at]);
        }
    }
}

proof fn lemma_ranked_leads(list: Seq<Factor>, score: nat, x: Factor)
    requires
        list.contains(x),
        x.score <= score,
    ensures
        ranked_from(list, score).len() > 0,
        ranked_from(list, score)[0].score >= x.score,
        list.contains(ranked_from(list, score)[0]),
    decreases score,
{
    let here = scored(list, score);
    let pred = |f: Factor| f.score == score;
    broadcast use vstd::seq_lib::group_filter_ensures;

    if here.len() > 0 {
        assert(pred(here[0]));
        lemma_scored_member(list, score, 0);
        assert(ranked_from(list, score)[0] == here[0]);
    } else {
        if x.score == score {
            assert(pred(x));
            assert(here.contains(x));
        }
        lemma_ranked_leads(list, (score - 1) as nat, x);
        assert(ranked_from(list, score) =~= ranked_from(list, (score - 1) as nat));
    }
}

/// The cause that a diagnosis names is one of the factors that were found, and
/// none of them weighs more.
pub proof fn the_weightiest_factor_leads(list: Seq<Factor>, x: Factor)
    requires
        list.contains(x),
    ensures
        ranked_spec(list).len() > 0,
        ranked_spec(list)[0].score >= x.score,
        list.contains(ranked_spec(list)[0]),
{
    lemma_ranked_leads(list, 255, x);
}

#[verifier::opaque]
spec fn all_caused(list: Seq<Factor>) -> bool {
    forall|i: int|
        0 <= i < list.len() ==> (#[trigger] list[i]).cause != CorrelationCause::Uncorrelated
}

proof fn lemma_caused_adds(a: Seq<Factor>, b: Seq<Factor>)
    requires
        all_caused(a),
        all_caused(b),
    ensures
        all_caused(a + b),
{
    reveal(all_caused);
    assert forall|i: int| 0 <= i < (a + b).len() implies (#[trigger] (a + b)[i]).cause
        != CorrelationCause::Uncorrelated by {
        if i < a.len() {
            assert((a + b)[i] == a[i]);
        } else {
            assert((a + b)[i] == b[i - a.len()]);
        }
    }
}

proof fn lemma_caused_alone(list: Seq<Factor>)
    requires
        list.len() <= 1,
        list.len() == 1 ==> list[0].cause != CorrelationCause::Uncorrelated,
    ensures
        all_caused(list),
{
    reveal(all_caused);
}

proof fn lemma_all_caused(
    current: CorrelationObservation,
    previous: Option<CorrelationObservation>,
    direction: ThroughputDirection,
    thresholds: Thresholds,
)
    ensures
        all_caused(factors_spec(current, previous, direction, thresholds)),
{
    let a = thermal_factor(current);
    let b = a + pressure_factor(current);
    let c = b + paging_factor(current, thresholds);
    let d = c + compression_factor(current, thresholds);
    let e = d + queue_factor(current);
    let f = e + gpu_factor(current, previous, thresholds);
    let g = f + metal_factor(current, previous);
    let h = g + model_factor(current, previous);
    lemma_caused_alone(thermal_factor(current));
    lemma_caused_alone(pressure_factor(current));
    lemma_caused_alone(paging_factor(current, thresholds));
    lemma_caused_alone(compression_factor(current, thresholds));
    lemma_caused_alone(queue_factor(current));
    lemma_caused_alone(gpu_factor(current, previous, thresholds));
    lemma_caused_alone(metal_factor(current, previous));
    lemma_caused_alone(model_factor(current, previous));
    lemma_caused_alone(context_factor(current, previous, direction));
    lemma_caused_adds(a, pressure_factor(current));
    lemma_caused_adds(b, paging_factor(current, thresholds));
    lemma_caused_adds(c, compression_factor(current, thresholds));
    lemma_caused_adds(d, queue_factor(current));
    lemma_caused_adds(e, gpu_factor(current, previous, thresholds));
    lemma_caused_adds(f, metal_factor(current, previous));
    lemma_caused_adds(g, model_factor(current, previous));
    lemma_caused_adds(h, context_factor(current, previous, direction));
    let found = system_factors(current, previous, direction, thresholds);
    if direction == ThroughputDirection::Down && found.len() == 0 {
        lemma_caused_alone(factors_spec(current, previous, direction, thresholds));
    }
}

/// A drop is never left without a cause.
pub proof fn every_drop_has_a_cause(
    insight: CorrelationInsight,
    current: CorrelationObservation,
    previous: Option<CorrelationObservation>,
    baseline: Option<Binary64>,
    thresholds: Thresholds,
)
    requires
        correlates(insight, current, previous, baseline, thresholds),
        insight.direction == ThroughputDirection::Down,
    ensures
        insight.cause != CorrelationCause::Uncorrelated,
        insight.event_key == Some(
            CorrelationKey { direction: ThroughputDirection::Down, cause: insight.cause },
        ),
{
    let list = factors_spec(current, previous, ThroughputDirection::Down, thresholds);
    lemma_all_caused(current, previous, ThroughputDirection::Down, thresholds);
    reveal(all_caused);
    assert(list.len() > 0);
    the_weightiest_factor_leads(list, list[0]);
    let named = ranked_spec(list)[0];
    let at = choose|i: int| 0 <= i < list.len() && list[i] == named;
    assert(list[at].cause != CorrelationCause::Uncorrelated);
}

/// Whether a factor was there to be seen in a sample, with the weight that it
/// has.
pub open spec fn was_seen(
    cause: CorrelationCause,
    weight: u8,
    sample: Sample,
    direction: ThroughputDirection,
    thresholds: Thresholds,
) -> bool {
    let paging = sample.swap_in + sample.swap_out;
    match cause {
        CorrelationCause::Thermal => is_hot(sample) && weight == 95,
        CorrelationCause::MemoryPressure => (sample.pressure@ == "RED"@ && weight == 100) || (
        sample.pressure@ == "YELLOW"@ && weight == 72),
        CorrelationCause::Paging => paging >= thresholds.swap_warn_rate && (weight == 100) == (
        paging >= thresholds.swap_critical_rate) && (weight == 100 || weight == 88),
        CorrelationCause::Compression => sample.compress + sample.decompress
            >= thresholds.compression_warn_rate && weight == 68,
        CorrelationCause::Queueing => sample.llm_waiting_requests is Some
            && sample.llm_waiting_requests.unwrap() > 0 && (weight == 82) == (
        sample.llm_waiting_requests.unwrap() > 1) && (weight == 82 || weight == 70),
        CorrelationCause::GpuSaturation => {
            let critical = thresholds.gpu_critical_load;
            &&& gpu_reaches(sample, 80) || gpu_reaches(sample, critical)
            &&& (weight == 58) == !gpu_reaches(sample, critical)
            &&& weight == 58 || weight == 72 || weight == 95
        },
        CorrelationCause::MetalMemory => sample.gpu_in_use is Some && sample.gpu_alloc is Some && (
        weight == 90 || weight == 68),
        CorrelationCause::ModelMemory => sample.llm_model_memory is Some && (weight == 84 || weight
            == 72),
        CorrelationCause::ContextGrowth => sample.llm_prompt_tokens is Some && (weight == 82
            || weight == 48),
        CorrelationCause::Runtime => direction == ThroughputDirection::Down && weight == 20,
        CorrelationCause::Uncorrelated => false,
    }
}

/// Whether a part of the GPU has at least a load.
pub open spec fn gpu_reaches(sample: Sample, load: u64) -> bool {
    (sample.gpu_util is Some && sample.gpu_util.unwrap() >= load) || (
    sample.metal.renderer_util is Some && sample.metal.renderer_util.unwrap() >= load) || (
    sample.metal.tiler_util is Some && sample.metal.tiler_util.unwrap() >= load)
}

#[verifier::opaque]
spec fn all_seen(
    list: Seq<Factor>,
    sample: Sample,
    direction: ThroughputDirection,
    thresholds: Thresholds,
) -> bool {
    forall|i: int|
        0 <= i < list.len() ==> was_seen(
            (#[trigger] list[i]).cause,
            list[i].score,
            sample,
            direction,
            thresholds,
        )
}

proof fn lemma_seen_adds(
    a: Seq<Factor>,
    b: Seq<Factor>,
    sample: Sample,
    direction: ThroughputDirection,
    thresholds: Thresholds,
)
    requires
        all_seen(a, sample, direction, thresholds),
        all_seen(b, sample, direction, thresholds),
    ensures
        all_seen(a + b, sample, direction, thresholds),
{
    reveal(all_seen);
    assert forall|i: int| 0 <= i < (a + b).len() implies was_seen(
        (#[trigger] (a + b)[i]).cause,
        (a + b)[i].score,
        sample,
        direction,
        thresholds,
    ) by {
        if i < a.len() {
            assert((a + b)[i] == a[i]);
        } else {
            assert((a + b)[i] == b[i - a.len()]);
        }
    }
}

proof fn lemma_seen_alone(
    list: Seq<Factor>,
    sample: Sample,
    direction: ThroughputDirection,
    thresholds: Thresholds,
)
    requires
        list.len() <= 1,
        list.len() == 1 ==> was_seen(list[0].cause, list[0].score, sample, direction, thresholds),
    ensures
        all_seen(list, sample, direction, thresholds),
{
    reveal(all_seen);
}

proof fn lemma_seen_member(
    list: Seq<Factor>,
    x: Factor,
    sample: Sample,
    direction: ThroughputDirection,
    thresholds: Thresholds,
)
    requires
        all_seen(list, sample, direction, thresholds),
        list.contains(x),
    ensures
        was_seen(x.cause, x.score, sample, direction, thresholds),
{
    reveal(all_seen);
    let at = choose|i: int| 0 <= i < list.len() && list[i] == x;
    assert(list[at] == x);
}

proof fn lemma_is_hot(sample: Sample)
    ensures
        thermally_limited(sample) == is_hot(sample),
{
    reveal_strlit("limited");
    if "limited"@.is_prefix_of(sample.thermal@) {
        assert(sample.thermal@.take(7) =~= "limited"@);
    }
    if sample.thermal@.len() >= 7 && sample.thermal@.take(7) == "limited"@ {
        assert("limited"@.is_prefix_of(sample.thermal@));
    }
}

proof fn lemma_ranks_differ()
    ensures
        "RED"@ != "YELLOW"@,
        "RED"@ != "GREEN"@,
        "YELLOW"@ != "GREEN"@,
{
    reveal_strlit("RED");
    reveal_strlit("YELLOW");
    reveal_strlit("GREEN");
    assert("RED"@.len() == 3 && "YELLOW"@.len() == 6 && "GREEN"@.len() == 5);
}

proof fn lemma_all_seen(
    sample: Sample,
    current: CorrelationObservation,
    previous: Option<CorrelationObservation>,
    direction: ThroughputDirection,
    thresholds: Thresholds,
)
    requires
        current.observes(sample),
    ensures
        all_seen(
            factors_spec(current, previous, direction, thresholds),
            sample,
            direction,
            thresholds,
        ),
{
    lemma_is_hot(sample);
    lemma_ranks_differ();
    let a = thermal_factor(current);
    let b = a + pressure_factor(current);
    let c = b + paging_factor(current, thresholds);
    let d = c + compression_factor(current, thresholds);
    let e = d + queue_factor(current);
    let f = e + gpu_factor(current, previous, thresholds);
    let g = f + metal_factor(current, previous);
    let h = g + model_factor(current, previous);
    lemma_seen_alone(thermal_factor(current), sample, direction, thresholds);
    lemma_seen_alone(pressure_factor(current), sample, direction, thresholds);
    lemma_seen_alone(paging_factor(current, thresholds), sample, direction, thresholds);
    lemma_seen_alone(compression_factor(current, thresholds), sample, direction, thresholds);
    lemma_seen_alone(queue_factor(current), sample, direction, thresholds);
    lemma_seen_alone(gpu_factor(current, previous, thresholds), sample, direction, thresholds);
    lemma_seen_alone(metal_factor(current, previous), sample, direction, thresholds);
    lemma_seen_alone(model_factor(current, previous), sample, direction, thresholds);
    lemma_seen_alone(context_factor(current, previous, direction), sample, direction, thresholds);
    lemma_seen_adds(a, pressure_factor(current), sample, direction, thresholds);
    lemma_seen_adds(b, paging_factor(current, thresholds), sample, direction, thresholds);
    lemma_seen_adds(c, compression_factor(current, thresholds), sample, direction, thresholds);
    lemma_seen_adds(d, queue_factor(current), sample, direction, thresholds);
    lemma_seen_adds(e, gpu_factor(current, previous, thresholds), sample, direction, thresholds);
    lemma_seen_adds(f, metal_factor(current, previous), sample, direction, thresholds);
    lemma_seen_adds(g, model_factor(current, previous), sample, direction, thresholds);
    lemma_seen_adds(h, context_factor(current, previous, direction), sample, direction, thresholds);
    let found = system_factors(current, previous, direction, thresholds);
    if direction == ThroughputDirection::Down && found.len() == 0 {
        lemma_seen_alone(
            factors_spec(current, previous, direction, thresholds),
            sample,
            direction,
            thresholds,
        );
    }
}

proof fn lemma_named(
    insight: CorrelationInsight,
    current: CorrelationObservation,
    previous: Option<CorrelationObservation>,
    baseline: Option<Binary64>,
    thresholds: Thresholds,
) -> (named: Factor)
    requires
        correlates(insight, current, previous, baseline, thresholds),
    ensures
        factors_spec(current, previous, insight.direction, thresholds).len() == 0
            ==> insight.cause == CorrelationCause::Uncorrelated && insight.confidence == 0,
        factors_spec(current, previous, insight.direction, thresholds).len() > 0
            ==> insight.cause == named.cause && insight.confidence == named.score && factors_spec(
            current,
            previous,
            insight.direction,
            thresholds,
        ).contains(named),
{
    let direction = direction_spec(usable_rate(current), usable_baseline(baseline));
    assert(insight.direction == direction);
    let list = factors_spec(current, previous, direction, thresholds);
    if list.len() > 0 {
        the_weightiest_factor_leads(list, list[0]);
        ranked_spec(list)[0]
    } else {
        lemma_nothing_ranked(list, 255);
        Factor { cause: CorrelationCause::Uncorrelated, score: 0, evidence: Seq::empty() }
    }
}

proof fn lemma_member_seen(
    named: Factor,
    sample: Sample,
    current: CorrelationObservation,
    previous: Option<CorrelationObservation>,
    direction: ThroughputDirection,
    thresholds: Thresholds,
)
    requires
        current.observes(sample),
        factors_spec(current, previous, direction, thresholds).contains(named),
    ensures
        was_seen(named.cause, named.score, sample, direction, thresholds),
{
    lemma_all_seen(sample, current, previous, direction, thresholds);
    lemma_seen_member(
        factors_spec(current, previous, direction, thresholds),
        named,
        sample,
        direction,
        thresholds,
    );
}

/// A cause that is named was seen in the sample, and the confidence is the weight
/// of what was seen. Without a cause there is no confidence.
pub proof fn causes_were_seen(
    insight: CorrelationInsight,
    sample: Sample,
    current: CorrelationObservation,
    previous: Option<CorrelationObservation>,
    baseline: Option<Binary64>,
    thresholds: Thresholds,
)
    requires
        correlates(insight, current, previous, baseline, thresholds),
        current.observes(sample),
    ensures
        was_seen(insight.cause, insight.confidence, sample, insight.direction, thresholds) || (
        insight.cause == CorrelationCause::Uncorrelated && insight.confidence == 0),
{
    let named = lemma_named(insight, current, previous, baseline, thresholds);
    if factors_spec(current, previous, insight.direction, thresholds).len() > 0 {
        lemma_member_seen(named, sample, current, previous, insight.direction, thresholds);
        assert(was_seen(named.cause, named.score, sample, insight.direction, thresholds));
    }
}

proof fn lemma_nothing_ranked(list: Seq<Factor>, score: nat)
    requires
        list.len() == 0,
    ensures
        ranked_from(list, score).len() == 0,
    decreases score,
{
    reveal(Seq::filter);
    if score > 0 {
        lemma_nothing_ranked(list, (score - 1) as nat);
    }
}

/// The place of a part in what was found.
proof fn lemma_parts_are_found(
    current: CorrelationObservation,
    previous: Option<CorrelationObservation>,
    direction: ThroughputDirection,
    thresholds: Thresholds,
    part: Seq<Factor>,
)
    requires
        part.len() == 1,
        part == thermal_factor(current) || part == pressure_factor(current) || part
            == paging_factor(current, thresholds) || part == compression_factor(current, thresholds)
            || part == queue_factor(current) || part == gpu_factor(current, previous, thresholds)
            || part == metal_factor(current, previous) || part == model_factor(current, previous)
            || part == context_factor(current, previous, direction),
    ensures
        factors_spec(current, previous, direction, thresholds).contains(part[0]),
{
    let a = thermal_factor(current);
    let b = pressure_factor(current);
    let c = paging_factor(current, thresholds);
    let d = compression_factor(current, thresholds);
    let e = queue_factor(current);
    let f = gpu_factor(current, previous, thresholds);
    let g = metal_factor(current, previous);
    let h = model_factor(current, previous);
    let i = context_factor(current, previous, direction);
    let found = system_factors(current, previous, direction, thresholds);
    let at: int = if part == a {
        0
    } else if part == b {
        a.len() as int
    } else if part == c {
        (a + b).len() as int
    } else if part == d {
        (a + b + c).len() as int
    } else if part == e {
        (a + b + c + d).len() as int
    } else if part == f {
        (a + b + c + d + e).len() as int
    } else if part == g {
        (a + b + c + d + e + f).len() as int
    } else if part == h {
        (a + b + c + d + e + f + g).len() as int
    } else {
        (a + b + c + d + e + f + g + h).len() as int
    };
    assert(found == a + b + c + d + e + f + g + h + i);
    assert(0 <= at < found.len() && found[at] == part[0]);
    assert(found.len() > 0);
}

/// What a sample shows is weighed: a diagnosis is at least as confident as each
/// sign by itself, and a drop that is accompanied by one is never put down to
/// the work alone.
pub proof fn signs_are_weighed(
    insight: CorrelationInsight,
    sample: Sample,
    current: CorrelationObservation,
    previous: Option<CorrelationObservation>,
    baseline: Option<Binary64>,
    thresholds: Thresholds,
)
    requires
        correlates(insight, current, previous, baseline, thresholds),
        current.observes(sample),
    ensures
        is_hot(sample) ==> insight.confidence >= 95,
        sample.pressure@ == "RED"@ ==> insight.confidence == 100,
        sample.pressure@ == "YELLOW"@ ==> insight.confidence >= 72,
        sample.swap_in + sample.swap_out >= thresholds.swap_warn_rate ==> insight.confidence >= 88,
        sample.swap_in + sample.swap_out >= thresholds.swap_warn_rate && sample.swap_in
            + sample.swap_out >= thresholds.swap_critical_rate ==> insight.confidence == 100,
        sample.compress + sample.decompress >= thresholds.compression_warn_rate
            ==> insight.confidence >= 68,
        sample.llm_waiting_requests is Some && sample.llm_waiting_requests.unwrap() >= 1
            ==> insight.confidence >= 70,
        sample.llm_waiting_requests is Some && sample.llm_waiting_requests.unwrap() >= 2
            ==> insight.confidence >= 82,
        gpu_reaches(sample, 80) ==> insight.confidence >= 58,
        gpu_reaches(sample, thresholds.gpu_critical_load) ==> insight.confidence >= 72,
        gpu_reaches(sample, thresholds.gpu_critical_load) && previous is None
            ==> insight.confidence >= 95,
        insight.confidence > 20 ==> insight.cause != CorrelationCause::Runtime,
        insight.confidence <= 100,
{
    lemma_is_hot(sample);
    lemma_ranks_differ();
    let direction = insight.direction;
    let list = factors_spec(current, previous, direction, thresholds);
    causes_were_seen(insight, sample, current, previous, baseline, thresholds);
    if thermal_factor(current).len() == 1 {
        lemma_parts_are_found(current, previous, direction, thresholds, thermal_factor(current));
        the_weightiest_factor_leads(list, thermal_factor(current)[0]);
    }
    if pressure_factor(current).len() == 1 {
        lemma_parts_are_found(current, previous, direction, thresholds, pressure_factor(current));
        the_weightiest_factor_leads(list, pressure_factor(current)[0]);
    }
    if paging_factor(current, thresholds).len() == 1 {
        let part = paging_factor(current, thresholds);
        lemma_parts_are_found(current, previous, direction, thresholds, part);
        the_weightiest_factor_leads(list, part[0]);
    }
    if compression_factor(current, thresholds).len() == 1 {
        let part = compression_factor(current, thresholds);
        lemma_parts_are_found(current, previous, direction, thresholds, part);
        the_weightiest_factor_leads(list, part[0]);
    }
    if queue_factor(current).len() == 1 {
        lemma_parts_are_found(current, previous, direction, thresholds, queue_factor(current));
        the_weightiest_factor_leads(list, queue_factor(current)[0]);
    }
    if gpu_factor(current, previous, thresholds).len() == 1 {
        let part = gpu_factor(current, previous, thresholds);
        lemma_parts_are_found(current, previous, direction, thresholds, part);
        the_weightiest_factor_leads(list, part[0]);
    }
}

proof fn lemma_first_scored(list: Seq<Factor>, score: nat, at: int)
    requires
        0 <= at < list.len(),
        list[at].score == score,
        forall|j: int| 0 <= j < at ==> (#[trigger] list[j]).score != score,
    ensures
        scored(list, score).len() > 0,
        scored(list, score)[0] == list[at],
    decreases list.len(),
{
    reveal(Seq::filter);
    let shorter = list.drop_last();
    if at < shorter.len() {
        assert(shorter[at] == list[at]);
        lemma_first_scored(shorter, score, at);
    } else {
        lemma_none_scored(shorter, score);
    }
}

proof fn lemma_none_scored(list: Seq<Factor>, score: nat)
    requires
        forall|j: int| 0 <= j < list.len() ==> (#[trigger] list[j]).score != score,
    ensures
        scored(list, score).len() == 0,
    decreases list.len(),
{
    reveal(Seq::filter);
    if list.len() > 0 {
        lemma_none_scored(list.drop_last(), score);
        assert(list[list.len() - 1].score != score);
    }
}

proof fn lemma_first_ranked(list: Seq<Factor>, score: nat, at: int)
    requires
        0 <= at < list.len(),
        list[at].score <= score,
        forall|j: int| 0 <= j < list.len() ==> (#[trigger] list[j]).score <= list[at].score,
        forall|j: int| 0 <= j < at ==> (#[trigger] list[j]).score < list[at].score,
    ensures
        ranked_from(list, score).len() > 0,
        ranked_from(list, score)[0] == list[at],
    decreases score,
{
    if list[at].score == score {
        lemma_first_scored(list, score, at);
    } else {
        lemma_none_scored(list, score);
        lemma_first_ranked(list, (score - 1) as nat, at);
        assert(scored(list, score) + ranked_from(list, (score - 1) as nat) =~= ranked_from(
            list,
            (score - 1) as nat,
        ));
    }
}

/// Of factors that weigh the same the one that was found first leads.
pub proof fn the_first_of_equals_leads(list: Seq<Factor>, at: int)
    requires
        0 <= at < list.len(),
        forall|j: int| 0 <= j < list.len() ==> (#[trigger] list[j]).score <= list[at].score,
        forall|j: int| 0 <= j < at ==> (#[trigger] list[j]).score < list[at].score,
    ensures
        ranked_spec(list).len() > 0,
        ranked_spec(list)[0] == list[at],
{
    lemma_first_ranked(list, 255, at);
}

proof fn lemma_scores_bounded(
    list: Seq<Factor>,
    sample: Sample,
    direction: ThroughputDirection,
    thresholds: Thresholds,
)
    requires
        all_seen(list, sample, direction, thresholds),
    ensures
        forall|j: int| 0 <= j < list.len() ==> (#[trigger] list[j]).score <= 100,
{
    assert forall|j: int| 0 <= j < list.len() implies (#[trigger] list[j]).score <= 100 by {
        lemma_seen_member(list, list[j], sample, direction, thresholds);
    }
}

proof fn lemma_second_leads(list: Seq<Factor>, a: Seq<Factor>, b: Seq<Factor>, rest: Seq<Factor>)
    requires
        list == a + b + rest,
        forall|j: int| 0 <= j < a.len() ==> (#[trigger] a[j]).score < 100,
        b.len() == 1,
        b[0].score == 100,
        forall|j: int| 0 <= j < list.len() ==> (#[trigger] list[j]).score <= 100,
    ensures
        ranked_spec(list).len() > 0,
        ranked_spec(list)[0] == b[0],
{
    let at = a.len() as int;
    assert(list[at] == b[0]);
    assert forall|j: int| 0 <= j < at implies (#[trigger] list[j]).score < list[at].score by {
        assert(list[j] == a[j]);
    }
    the_first_of_equals_leads(list, at);
}

proof fn lemma_regroup(
    a: Seq<Factor>,
    b: Seq<Factor>,
    c: Seq<Factor>,
    d: Seq<Factor>,
    e: Seq<Factor>,
    f: Seq<Factor>,
    g: Seq<Factor>,
    h: Seq<Factor>,
    i: Seq<Factor>,
)
    ensures
        a + b + c + d + e + f + g + h + i == a + b + (c + d + e + f + g + h + i),
{
    let head = a + b;
    assert(head + c + d =~= head + (c + d));
    assert(head + (c + d) + e =~= head + (c + d + e));
    assert(head + (c + d + e) + f =~= head + (c + d + e + f));
    assert(head + (c + d + e + f) + g =~= head + (c + d + e + f + g));
    assert(head + (c + d + e + f + g) + h =~= head + (c + d + e + f + g + h));
    assert(head + (c + d + e + f + g + h) + i =~= head + (c + d + e + f + g + h + i));
}

proof fn lemma_pressure_leads(
    sample: Sample,
    current: CorrelationObservation,
    previous: Option<CorrelationObservation>,
    direction: ThroughputDirection,
    thresholds: Thresholds,
)
    requires
        current.observes(sample),
        sample.pressure@ == "RED"@,
    ensures
        ({
            let ranked = ranked_spec(factors_spec(current, previous, direction, thresholds));
            &&& ranked.len() > 0
            &&& ranked[0].cause == CorrelationCause::MemoryPressure
            &&& ranked[0].score == 100
            &&& ranked[0].evidence == "memory pressure critical"@
        }),
{
    lemma_ranks_differ();
    let list = factors_spec(current, previous, direction, thresholds);
    let (a, b) = (thermal_factor(current), pressure_factor(current));
    let (c, d) = (paging_factor(current, thresholds), compression_factor(current, thresholds));
    let (e, f) = (queue_factor(current), gpu_factor(current, previous, thresholds));
    let (g, h) = (metal_factor(current, previous), model_factor(current, previous));
    let i = context_factor(current, previous, direction);
    lemma_regroup(a, b, c, d, e, f, g, h, i);
    lemma_all_seen(sample, current, previous, direction, thresholds);
    lemma_scores_bounded(list, sample, direction, thresholds);
    let rest = c + d + e + f + g + h + i;
    assert((a + b + rest).len() >= b.len());
    assert(list == a + b + rest);
    lemma_second_leads(list, a, b, rest);
}

/// Critical pressure is always the cause that is named, before everything else,
/// and what is said of it comes first.
pub proof fn critical_pressure_is_the_cause(
    insight: CorrelationInsight,
    sample: Sample,
    current: CorrelationObservation,
    previous: Option<CorrelationObservation>,
    baseline: Option<Binary64>,
    thresholds: Thresholds,
)
    requires
        correlates(insight, current, previous, baseline, thresholds),
        current.observes(sample),
        sample.pressure@ == "RED"@,
    ensures
        insight.cause == CorrelationCause::MemoryPressure,
        insight.confidence == 100,
        insight.direction == ThroughputDirection::Down ==> insight.event_key == Some(
            CorrelationKey {
                direction: ThroughputDirection::Down,
                cause: CorrelationCause::MemoryPressure,
            },
        ),
{
    let direction = direction_spec(usable_rate(current), usable_baseline(baseline));
    lemma_pressure_leads(sample, current, previous, direction, thresholds);
}

/// A sample under critical pressure never weighs less than the same one under
/// tight memory, and that one never less than under none.
pub proof fn more_pressure_weighs_more(
    worse: CorrelationInsight,
    better: CorrelationInsight,
    sample: Sample,
    milder: Sample,
    current: CorrelationObservation,
    other: CorrelationObservation,
    previous: Option<CorrelationObservation>,
    baseline: Option<Binary64>,
    thresholds: Thresholds,
)
    requires
        correlates(worse, current, previous, baseline, thresholds),
        correlates(better, other, previous, baseline, thresholds),
        current.observes(sample),
        other.observes(milder),
        sample.pressure@ == "RED"@,
    ensures
        worse.confidence >= better.confidence,
{
    critical_pressure_is_the_cause(worse, sample, current, previous, baseline, thresholds);
    signs_are_weighed(better, milder, other, previous, baseline, thresholds);
}

/// The usual rate is in the middle of what was observed: some order of the rates
/// has none before one that is larger, and its middle, or the mean of its two
/// middle ones, is what is taken.
pub proof fn the_usual_rate_is_in_the_middle(rates: Seq<Binary64>)
    requires
        rates.len() > 0,
    ensures
        median(rates) is Some,
        exists|ordered: Seq<Binary64>|
            {
                &&& #[trigger] ordered.to_multiset() == rates.to_multiset()
                &&& ordered.len() == rates.len()
                &&& forall|i: int, j: int|
                    0 <= i < j < ordered.len() ==> (#[trigger] ordered[i]).bits <= (
                    #[trigger] ordered[j]).bits
                &&& rates.len() % 2 == 1 ==> median(rates) == Some(
                    ordered[rates.len() as int / 2],
                )
                &&& rates.len() % 2 == 0 ==> median(rates) == Some(
                    ordered[rates.len() as int / 2 - 1].sum(ordered[rates.len() as int / 2]).quotient(
                        Binary64::of_nat(2),
                    ),
                )
            },
{
    let ordered = sorted(rates);
    crate::order::sorting_permutes(rates);
    assert(crate::order::ranks_consistently(rates));
    crate::order::sorting_orders(rates);
    assert forall|i: int, j: int| 0 <= i < j < ordered.len() implies (#[trigger] ordered[i]).bits
        <= (#[trigger] ordered[j]).bits by {
        assert(!ordered[j].before(ordered[i]));
    }
    assert(ordered.to_multiset() == rates.to_multiset());
}

/// A live rate above zero enters the baseline of its model, and of no other.
pub proof fn live_rates_enter_the_baseline(
    seen: Seq<CorrelationObservation>,
    current: CorrelationObservation,
    sample: Sample,
    provider: Seq<char>,
    model: Seq<char>,
)
    requires
        current.observes(sample),
    ensures
        ({
            let (before, after) = (
                rates_of(seen, provider, model),
                rates_of(seen.push(current), provider, model),
            );
            &&& sample.llm_generation_tps is Some && sample.llm_generation_tps_live
                && sample.llm_generation_tps.unwrap().finite_spec()
                && sample.llm_generation_tps.unwrap().above_zero() && sample.llm_provider@
                == provider && sample.llm_model@ == model ==> after == before.push(
                sample.llm_generation_tps.unwrap(),
            )
            &&& !sample.llm_generation_tps_live || sample.llm_generation_tps is None
                || sample.llm_provider@ != provider || sample.llm_model@ != model ==> after
                == before
        }),
{
    assert(seen.push(current).drop_last() =~= seen);
}

proof fn lemma_change(rate: nat, baseline: nat)
    requires
        rate < SIGNIFICAND_BOUND,
        0 < baseline < SIGNIFICAND_BOUND,
        rate != baseline,
    ensures
        ({
            let change = change_spec(Binary64::of_nat(rate), Binary64::of_nat(baseline));
            let size = if rate > baseline {
                (rate - baseline) as nat
            } else {
                (baseline - rate) as nat
            };
            &&& change.finite_spec()
            &&& change.negative_spec() == (rate < baseline)
            &&& change.magnitude_spec() == Binary64::of_nat(size).magnitude_spec()
        }),
{
    let (x, y) = (Binary64::of_nat(rate), Binary64::of_nat(baseline));
    let one = pow2(UNIT_SCALE as nat);
    let size = if rate > baseline {
        (rate - baseline) as nat
    } else {
        (baseline - rate) as nat
    };
    lemma_pow2_pos(UNIT_SCALE as nat);
    small_whole_numbers_are_exact(rate);
    small_whole_numbers_are_exact(baseline);
    small_whole_numbers_are_exact(size);
    differences_mirror(x, y);
    let gap = x.value() - y.value();
    assert(gap == (rate - baseline) * one) by (nonlinear_arith)
        requires
            gap == rate * one - baseline * one,
    ;
    assert(vstd::math::abs(gap) == size * one) by (nonlinear_arith)
        requires
            gap == (rate - baseline) * one,
            size == rate - baseline || size == baseline - rate,
            size > 0,
            one > 0,
            (size == rate - baseline) == (rate > baseline),
    ;
    assert(gap != 0 && (gap < 0) == (rate < baseline)) by (nonlinear_arith)
        requires
            gap == (rate - baseline) * one,
            rate != baseline,
            one > 0,
    ;
    lemma_nearest_is_a_number(false, size * one, 1);
}

/// A rate that falls by two tokens per second and by a tenth of the usual rate has
/// dropped; one that rises as much has risen. Less than two is neither, nor is no
/// change at all.
pub proof fn changes_that_matter_are_told(rate: nat, baseline: nat)
    requires
        rate < SIGNIFICAND_BOUND,
        0 < baseline < SIGNIFICAND_BOUND,
    ensures
        ({
            let direction = direction_spec(
                Some(Binary64::of_nat(rate)),
                Some(Binary64::of_nat(baseline)),
            );
            &&& rate + 2 <= baseline && 10 * (baseline - rate) >= baseline ==> direction
                == ThroughputDirection::Down
            &&& baseline + 2 <= rate && 10 * (rate - baseline) >= baseline ==> direction
                == ThroughputDirection::Up
            &&& rate <= baseline + 1 && baseline <= rate + 1 ==> direction
                == ThroughputDirection::Flat
            &&& direction == ThroughputDirection::Down ==> rate < baseline
            &&& direction == ThroughputDirection::Up ==> rate > baseline
        }),
        direction_spec(None, Some(Binary64::of_nat(baseline))) == ThroughputDirection::Unknown,
        direction_spec(Some(Binary64::of_nat(rate)), None) == ThroughputDirection::Unknown,
{
    lemma_two_tokens(rate, baseline);
    lemma_one_tenth(rate, baseline);
}

proof fn lemma_two_tokens(rate: nat, baseline: nat)
    requires
        rate < SIGNIFICAND_BOUND,
        0 < baseline < SIGNIFICAND_BOUND,
    ensures
        ({
            let change = change_spec(Binary64::of_nat(rate), Binary64::of_nat(baseline));
            let two = Binary64::of_nat(2);
            &&& rate + 2 <= baseline ==> change.at_most(two.opposite())
            &&& baseline + 2 <= rate ==> two.at_most(change)
            &&& rate <= baseline + 1 ==> !two.at_most(change)
            &&& baseline <= rate + 1 ==> !change.at_most(two.opposite())
        }),
{
    let (x, y) = (Binary64::of_nat(rate), Binary64::of_nat(baseline));
    let change = change_spec(x, y);
    let two = Binary64::of_nat(2);
    lemma_pow2_pos(UNIT_SCALE as nat);
    small_whole_numbers_are_exact(rate);
    small_whole_numbers_are_exact(baseline);
    small_whole_numbers_are_exact(2);
    lemma_units_positive(two);
    assert(two.magnitude_spec() > 0);
    assert(two.opposite().rank() == -two.rank());
    if rate == baseline {
        differences_mirror(x, x);
        assert(change.zero_spec());
        assert(change.rank() == 0);
    } else {
        lemma_change(rate, baseline);
        let size = if rate > baseline {
            (rate - baseline) as nat
        } else {
            (baseline - rate) as nat
        };
        lemma_size_order(size);
    }
}

proof fn lemma_one_tenth(rate: nat, baseline: nat)
    requires
        rate < SIGNIFICAND_BOUND,
        0 < baseline < SIGNIFICAND_BOUND,
    ensures
        ({
            let percent = change_percent(Binary64::of_nat(rate), Binary64::of_nat(baseline));
            &&& rate < baseline && 10 * (baseline - rate) >= baseline ==> percent.at_most(
                least_percent().opposite(),
            )
            &&& rate > baseline && 10 * (rate - baseline) >= baseline ==> least_percent().at_most(
                percent,
            )
        }),
{
    let (x, y) = (Binary64::of_nat(rate), Binary64::of_nat(baseline));
    let size = if rate > baseline {
        (rate - baseline) as nat
    } else {
        (baseline - rate) as nat
    };
    if rate != baseline && 10 * size >= baseline {
        let change = change_spec(x, y);
        let tenth = Binary64::of_nat(1).quotient(Binary64::of_nat(10));
        lemma_change(rate, baseline);
        small_whole_numbers_are_exact(baseline);
        small_whole_numbers_are_exact(size);
        quotients_keep_the_order(1, 10, size, baseline);
        lemma_share_of_change(change, Binary64::of_nat(size), y);
        let share = change.quotient(y);
        products_keep_the_order(tenth, share, 100);
        let (percent, least) = (share.product(Binary64::of_nat(100)), least_percent());
        assert(least.opposite().rank() == -least.rank());
        assert(percent == change_percent(x, y));
    }
}

proof fn lemma_share_of_change(change: Binary64, whole: Binary64, y: Binary64)
    requires
        change.magnitude_spec() == whole.magnitude_spec(),
        whole.quotient(y).finite_spec(),
        !y.negative_spec(),
    ensures
        change.quotient(y).magnitude_spec() == whole.quotient(y).magnitude_spec(),
        change.quotient(y).negative_spec() == change.negative_spec(),
        change.quotient(y).finite_spec(),
{
    quotients_mirror(change, whole, y);
}

proof fn lemma_size_order(size: nat)
    requires
        0 < size < SIGNIFICAND_BOUND,
    ensures
        size >= 2 ==> Binary64::of_nat(size).magnitude_spec() >= Binary64::of_nat(
            2,
        ).magnitude_spec(),
        size == 1 ==> Binary64::of_nat(1).magnitude_spec() < Binary64::of_nat(2).magnitude_spec(),
{
    let one = pow2(UNIT_SCALE as nat);
    lemma_pow2_pos(UNIT_SCALE as nat);
    small_whole_numbers_are_exact(1);
    small_whole_numbers_are_exact(2);
    small_whole_numbers_are_exact(size);
    if size >= 2 {
        assert(2 * one * 1 <= size * one * 1) by (nonlinear_arith)
            requires
                size >= 2,
                one > 0,
        ;
        rounding_keeps_the_order(2 * one, 1, size * one, 1);
        lemma_nearest_is_a_number(false, 2 * one, 1);
        lemma_nearest_is_a_number(false, size * one, 1);
    } else {
        let (a, b) = (Binary64::of_nat(1), Binary64::of_nat(2));
        if a.magnitude_spec() >= b.magnitude_spec() {
            lemma_units_grow(b, a);
            assert(false);
        }
    }
}

proof fn lemma_nearly_full(used: nat, all: nat)
    requires
        used < SIGNIFICAND_BOUND,
        0 < all < SIGNIFICAND_BOUND,
        10 * used >= 9 * all,
    ensures
        nearly_full().at_most(Binary64::of_nat(used).quotient(Binary64::of_nat(all))),
{
    quotients_keep_the_order(9, 10, used, all);
}

/// The tokens that a sample speaks of, in all.
pub open spec fn tokens_in_all(sample: Sample) -> int {
    sample.llm_prompt_tokens.unwrap() + match sample.llm_output_tokens {
        Some(output) => output as int,
        None => 0,
    }
}

/// What has grown since the sample before is weighed, and so is what is nearly
/// full: a context that grew by a thousand tokens and more, a model that grew by a
/// quarter of a GiB, and memory that is nine tenths full.
pub proof fn growth_and_fullness_are_weighed(
    insight: CorrelationInsight,
    sample: Sample,
    before: Sample,
    current: CorrelationObservation,
    previous: CorrelationObservation,
    baseline: Option<Binary64>,
    thresholds: Thresholds,
)
    requires
        correlates(insight, current, Some(previous), baseline, thresholds),
        current.observes(sample),
        previous.observes(before),
    ensures
        sample.llm_prompt_tokens is Some && before.llm_prompt_tokens is Some && tokens_in_all(
            sample,
        ) <= u64::MAX && tokens_in_all(before) <= u64::MAX && tokens_in_all(sample)
            >= tokens_in_all(before) + 1024 ==> insight.confidence >= 82,
        sample.llm_prompt_tokens is Some && 16384 <= tokens_in_all(sample) <= u64::MAX
            && insight.direction == ThroughputDirection::Down ==> insight.confidence >= 48,
        sample.llm_model_memory is Some && before.llm_model_memory is Some
            && sample.llm_model_memory.unwrap() >= before.llm_model_memory.unwrap() + 256 * 1024
            * 1024 ==> insight.confidence >= 72,
        sample.llm_model_memory is Some && sample.llm_model_memory_max is Some
            && sample.llm_model_memory.unwrap() < SIGNIFICAND_BOUND && 0
            < sample.llm_model_memory_max.unwrap() < SIGNIFICAND_BOUND && 10
            * sample.llm_model_memory.unwrap() >= 9 * sample.llm_model_memory_max.unwrap()
            ==> insight.confidence >= 84,
        sample.gpu_in_use is Some && sample.gpu_alloc is Some && sample.gpu_in_use.unwrap()
            < SIGNIFICAND_BOUND && 0 < sample.gpu_alloc.unwrap() < SIGNIFICAND_BOUND && 10
            * sample.gpu_in_use.unwrap() >= 9 * sample.gpu_alloc.unwrap() ==> insight.confidence
            >= 68,
{
    let direction = insight.direction;
    let list = factors_spec(current, Some(previous), direction, thresholds);
    if sample.gpu_in_use is Some && sample.gpu_alloc is Some && sample.gpu_in_use.unwrap()
        < SIGNIFICAND_BOUND && 0 < sample.gpu_alloc.unwrap() < SIGNIFICAND_BOUND && 10
        * sample.gpu_in_use.unwrap() >= 9 * sample.gpu_alloc.unwrap() {
        lemma_nearly_full(sample.gpu_in_use.unwrap() as nat, sample.gpu_alloc.unwrap() as nat);
        let part = metal_factor(current, Some(previous));
        lemma_parts_are_found(current, Some(previous), direction, thresholds, part);
        the_weightiest_factor_leads(list, part[0]);
    }
    if sample.llm_model_memory is Some && sample.llm_model_memory_max is Some
        && sample.llm_model_memory.unwrap() < SIGNIFICAND_BOUND && 0
        < sample.llm_model_memory_max.unwrap() < SIGNIFICAND_BOUND && 10
        * sample.llm_model_memory.unwrap() >= 9 * sample.llm_model_memory_max.unwrap() {
        lemma_nearly_full(
            sample.llm_model_memory.unwrap() as nat,
            sample.llm_model_memory_max.unwrap() as nat,
        );
    }
    if model_factor(current, Some(previous)).len() == 1 {
        let part = model_factor(current, Some(previous));
        lemma_parts_are_found(current, Some(previous), direction, thresholds, part);
        the_weightiest_factor_leads(list, part[0]);
    }
    if context_factor(current, Some(previous), direction).len() == 1 {
        let part = context_factor(current, Some(previous), direction);
        lemma_parts_are_found(current, Some(previous), direction, thresholds, part);
        the_weightiest_factor_leads(list, part[0]);
    }
}

} // verus!
