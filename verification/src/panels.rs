//! What is shown: words with their colours, arranged in lines and cards.

use crate::binary64::{whole_numbers_are_finite, Binary64};
use crate::chart::ChartMetric;
use crate::diagnostics::{load_of, memory_load};
use crate::interface::ActiveAlert;
use crate::journal::{JournalFilter, SignalEvent};
use crate::labels::{
    compact_model_memory, compact_model_memory_spec, compressed_memory_label,
    compressed_memory_label_spec, correlation_display, correlation_display_spec,
    diagnostic_signal_line, diagnostic_signal_line_spec, gpu_load_label, gpu_load_label_spec,
    hero_impact, hero_impact_spec, llm_context_label, llm_context_label_spec,
    llm_generation_rate_label, llm_generation_rate_label_spec, llm_model_label,
    llm_model_label_spec, llm_prefill_rate_label, llm_prefill_rate_label_spec, llm_status_tone,
    llm_status_tone_spec, metal_signal_line, metal_signal_line_spec, paging_measured,
    paging_measured_spec, pressure_state_label, pressure_state_label_spec, process_count_label,
    process_count_label_spec, rates_measured, rates_measured_spec, telemetry_age,
    telemetry_age_spec, telemetry_source, telemetry_source_spec,
};
use crate::mlx::strs;
use crate::model::{LlmProcess, Sample};
use crate::omlx::{clamp_percentage, percentage_of};
use crate::processes::TopSort;
use crate::text::{
    carries, decimal, decimal_text, same, texts_carry_their_parts, texts_carry_their_start,
    to_upper, upper,
};
use crate::thresholds::{Thresholds, Tone};
use crate::units::{
    bytes, bytes_spec, compact_label, compact_label_spec, count, count_spec, optional_tokens,
    optional_tokens_spec, percent, percent_spec, percent_u8, percent_u8_spec, product,
    product_spec, rate, rate_spec, signed_rate, signed_rate_spec, total, total_spec,
};
use std::collections::VecDeque;
use vstd::prelude::*;

verus! {

/// How a word is coloured. A badge is black on its tone.
#[derive(Clone, Copy, Debug, PartialEq, Eq, Structural)]
pub enum Paint {
    Plain,
    White,
    Dim,
    Tone(Tone),
    Badge(Tone),
}

/// A word in its colour.
#[derive(Debug)]
pub struct Piece {
    pub text: String,
    pub paint: Paint,
    pub bold: bool,
}

/// The contents of a piece.
pub struct Word {
    pub text: Seq<char>,
    pub paint: Paint,
    pub bold: bool,
}

impl View for Piece {
    type V = Word;

    open spec fn view(&self) -> Word {
        Word { text: self.text@, paint: self.paint, bold: self.bold }
    }
}

/// Words in a row.
#[derive(Debug)]
pub struct TextLine {
    pub pieces: Vec<Piece>,
}

impl View for TextLine {
    type V = Seq<Word>;

    open spec fn view(&self) -> Seq<Word> {
        self.pieces@.map_values(|p: Piece| p@)
    }
}

pub open spec fn lines_of(lines: Seq<TextLine>) -> Seq<Seq<Word>> {
    lines.map_values(|l: TextLine| l@)
}

/// A card with a title and some lines.
#[derive(Debug)]
pub struct Card {
    pub title: TextLine,
    pub lines: Vec<TextLine>,
    pub tone: Tone,
}

/// The contents of a card.
pub struct CardView {
    pub title: Seq<Word>,
    pub lines: Seq<Seq<Word>>,
    pub tone: Tone,
}

impl View for Card {
    type V = CardView;

    open spec fn view(&self) -> CardView {
        CardView { title: self.title@, lines: lines_of(self.lines@), tone: self.tone }
    }
}

/// A bar that is filled to a percentage.
#[derive(Debug)]
pub struct Gauge {
    pub percent: u16,
    pub label: String,
    pub tone: Tone,
}

/// A card with a figure, a bar and a line below it.
#[derive(Debug)]
pub struct MetricCard {
    pub title: TextLine,
    pub headline: TextLine,
    pub gauge: Option<Gauge>,
    pub details: TextLine,
    pub tone: Tone,
}

/// The contents of such a card.
pub struct MetricView {
    pub title: Seq<Word>,
    pub headline: Seq<Word>,
    pub gauge: Option<(u16, Seq<char>, Tone)>,
    pub details: Seq<Word>,
    pub tone: Tone,
}

impl View for MetricCard {
    type V = MetricView;

    open spec fn view(&self) -> MetricView {
        MetricView {
            title: self.title@,
            headline: self.headline@,
            gauge: match self.gauge {
                Some(gauge) => Some((gauge.percent, gauge.label@, gauge.tone)),
                None => None,
            },
            details: self.details@,
            tone: self.tone,
        }
    }
}

pub open spec fn word(text: Seq<char>, paint: Paint, bold: bool) -> Word {
    Word { text, paint, bold }
}

fn piece(text: String, paint: Paint, bold: bool) -> (result: Piece)
    ensures
        result@ == word(text@, paint, bold),
{
    Piece { text, paint, bold }
}

pub open spec fn row1(a: Word) -> Seq<Word> {
    Seq::empty().push(a)
}

fn line1(a: Piece) -> (line: TextLine)
    ensures
        line@ == row1(a@),
{
    let pieces: Vec<Piece> = vec![a];
    let line = TextLine { pieces };
    assert(line@ =~= row1(a@));
    line
}

pub open spec fn row2(a: Word, b: Word) -> Seq<Word> {
    Seq::empty().push(a).push(b)
}

fn line2(a: Piece, b: Piece) -> (line: TextLine)
    ensures
        line@ == row2(a@, b@),
{
    let pieces: Vec<Piece> = vec![a, b];
    let line = TextLine { pieces };
    assert(line@ =~= row2(a@, b@));
    line
}

pub open spec fn row3(a: Word, b: Word, c: Word) -> Seq<Word> {
    Seq::empty().push(a).push(b).push(c)
}

fn line3(a: Piece, b: Piece, c: Piece) -> (line: TextLine)
    ensures
        line@ == row3(a@, b@, c@),
{
    let pieces: Vec<Piece> = vec![a, b, c];
    let line = TextLine { pieces };
    assert(line@ =~= row3(a@, b@, c@));
    line
}

pub open spec fn row4(a: Word, b: Word, c: Word, d: Word) -> Seq<Word> {
    Seq::empty().push(a).push(b).push(c).push(d)
}

fn line4(a: Piece, b: Piece, c: Piece, d: Piece) -> (line: TextLine)
    ensures
        line@ == row4(a@, b@, c@, d@),
{
    let pieces: Vec<Piece> = vec![a, b, c, d];
    let line = TextLine { pieces };
    assert(line@ =~= row4(a@, b@, c@, d@));
    line
}

pub open spec fn row8(
    a: Word,
    b: Word,
    c: Word,
    d: Word,
    e: Word,
    f: Word,
    g: Word,
    h: Word,
) -> Seq<Word> {
    Seq::empty().push(a).push(b).push(c).push(d).push(e).push(f).push(g).push(h)
}

fn line8(
    a: Piece,
    b: Piece,
    c: Piece,
    d: Piece,
    e: Piece,
    f: Piece,
    g: Piece,
    h: Piece,
) -> (line: TextLine)
    ensures
        line@ == row8(a@, b@, c@, d@, e@, f@, g@, h@),
{
    let pieces: Vec<Piece> = vec![a, b, c, d, e, f, g, h];
    let line = TextLine { pieces };
    assert(line@ =~= row8(a@, b@, c@, d@, e@, f@, g@, h@));
    line
}

pub open spec fn no_lines() -> Seq<Seq<Word>> {
    Seq::empty()
}

fn push_line(lines: &mut Vec<TextLine>, line: TextLine)
    ensures
        lines_of(final(lines)@) == lines_of(old(lines)@).push(line@),
{
    lines.push(line);
    assert(lines_of(lines@) =~= lines_of(old(lines)@).push(line@));
}

pub open spec fn less_spec(width: usize, taken: usize) -> usize {
    if width >= taken {
        (width - taken) as usize
    } else {
        0
    }
}

/// What is left of a width.
pub fn less(width: usize, taken: usize) -> (result: usize)
    ensures
        result == less_spec(width, taken),
{
    if width >= taken {
        width - taken
    } else {
        0
    }
}

/// The diagnosis of the token rate, or else what the state means.
pub open spec fn shown_diagnosis_spec(sample: Sample, width: usize) -> Seq<char> {
    match correlation_display_spec(sample, width as nat) {
        Some(shown) => shown,
        None => compact_label_spec(hero_impact_spec(sample), width as nat),
    }
}

fn shown_diagnosis(sample: &Sample, width: usize) -> (out: String)
    ensures
        out@ == shown_diagnosis_spec(*sample, width),
{
    match correlation_display(sample, width) {
        Some(shown) => shown,
        None => compact_label(hero_impact(sample).as_str(), width),
    }
}

/// The tone of the memory: that of the pressure where it warns, and else that of
/// the load.
pub open spec fn memory_tone_spec(sample: Sample, thresholds: Thresholds) -> Tone {
    if sample.pressure_tone == Tone::Yellow || sample.pressure_tone == Tone::Red {
        sample.pressure_tone
    } else {
        match memory_load(sample.availability) {
            Some(load) => ChartMetric::Memory.tone_spec(load as u64, thresholds),
            None => Tone::Muted,
        }
    }
}

fn memory_tone(sample: &Sample, thresholds: Thresholds) -> (result: Tone)
    ensures
        result == memory_tone_spec(*sample, thresholds),
{
    if sample.pressure_tone == Tone::Yellow || sample.pressure_tone == Tone::Red {
        sample.pressure_tone
    } else {
        match load_of(sample.availability) {
            Some(load) => ChartMetric::Memory.tone(load as u64, thresholds),
            None => Tone::Muted,
        }
    }
}

pub open spec fn paging_tone_spec(sample: Sample, thresholds: Thresholds) -> Tone {
    if paging_measured_spec(sample) {
        ChartMetric::Swap.tone_spec(total_spec(sample.swap_in, sample.swap_out), thresholds)
    } else {
        Tone::Muted
    }
}

fn paging_tone(sample: &Sample, thresholds: Thresholds) -> (result: Tone)
    ensures
        result == paging_tone_spec(*sample, thresholds),
{
    if paging_measured(sample) {
        ChartMetric::Swap.tone(total(sample.swap_in, sample.swap_out), thresholds)
    } else {
        Tone::Muted
    }
}

pub open spec fn paging_label_spec(sample: Sample) -> Seq<char> {
    if paging_measured_spec(sample) && total_spec(sample.swap_in, sample.swap_out) > 0 {
        "ACTIVE"@
    } else if paging_measured_spec(sample) {
        "IDLE"@
    } else if sample.swap_available && sample.vm_available {
        "SAMPLING"@
    } else {
        "UNAVAILABLE"@
    }
}

fn paging_label(sample: &Sample) -> (result: &'static str)
    ensures
        result@ == paging_label_spec(*sample),
{
    if paging_measured(sample) && total(sample.swap_in, sample.swap_out) > 0 {
        "ACTIVE"
    } else if paging_measured(sample) {
        "IDLE"
    } else if sample.swap_available && sample.vm_available {
        "SAMPLING"
    } else {
        "UNAVAILABLE"
    }
}

/// How full the swap space is, in percent.
pub open spec fn swap_percent_spec(sample: Sample) -> u16 {
    let share = product_spec(sample.swap_used, 100) as int / sample.swap_total as int;
    if !sample.swap_available || sample.swap_total == 0 {
        0
    } else if share <= 100 {
        share as u16
    } else {
        100
    }
}

fn swap_percent(sample: &Sample) -> (result: u16)
    ensures
        result == swap_percent_spec(*sample),
{
    if !sample.swap_available || sample.swap_total == 0 {
        return 0;
    }
    let share: u64 = product(sample.swap_used, 100) / sample.swap_total;
    if share <= 100 {
        share as u16
    } else {
        100
    }
}

pub open spec fn gpu_tone_spec(sample: Sample, thresholds: Thresholds) -> Tone {
    match sample.gpu_util {
        Some(value) => ChartMetric::Gpu.tone_spec(value as u64, thresholds),
        None => Tone::Muted,
    }
}

fn gpu_tone(sample: &Sample, thresholds: Thresholds) -> (result: Tone)
    ensures
        result == gpu_tone_spec(*sample, thresholds),
{
    match sample.gpu_util {
        Some(value) => ChartMetric::Gpu.tone(value as u64, thresholds),
        None => Tone::Muted,
    }
}

pub open spec fn gpu_memory_spec(sample: Sample) -> Seq<char> {
    match (sample.gpu_in_use, sample.gpu_alloc) {
        (Some(used), Some(allocated)) => bytes_spec(used) + " / "@ + bytes_spec(allocated),
        (Some(used), None) => bytes_spec(used) + " used"@,
        _ => "not exposed"@,
    }
}

fn gpu_memory(sample: &Sample) -> (out: String)
    ensures
        out@ == gpu_memory_spec(*sample),
{
    match (sample.gpu_in_use, sample.gpu_alloc) {
        (Some(used), Some(allocated)) => bytes(used).concat(" / ").concat(
            bytes(allocated).as_str(),
        ),
        (Some(used), None) => bytes(used).concat(" used"),
        _ => "not exposed".to_string(),
    }
}

/// A percentage as a whole number, moved into its range.
pub open spec fn whole_percent_spec(value: Binary64) -> u16 {
    if value.nan_spec() {
        0
    } else {
        (percentage_of(value).rounded_part() % 65536) as u16
    }
}

fn whole_percent(value: Binary64) -> (result: u16)
    ensures
        result == whole_percent_spec(value),
{
    if value.is_nan() {
        return 0;
    }
    proof {
        whole_numbers_are_finite(100);
    }
    let whole: u64 = clamp_percentage(value).rounded();
    (whole % 65536) as u16
}

/// A text in the middle of a width, with spaces around it.
pub open spec fn centred(label: Seq<char>, width: nat) -> Seq<char> {
    if label.len() >= width {
        label
    } else {
        let spare = (width - label.len()) as nat;
        spaces_spec(spare / 2) + label + spaces_spec((spare - spare / 2) as nat)
    }
}

pub open spec fn spaces_spec(n: nat) -> Seq<char> {
    Seq::new(n, |i: int| ' ')
}

fn spaces(n: usize) -> (out: String)
    ensures
        out@ == spaces_spec(n as nat),
{
    let mut out = String::new();
    assert(out@ =~= spaces_spec(0));
    for i in 0..n
        invariant
            out@ == spaces_spec(i as nat),
    {
        out.push(' ');
        assert(out@ =~= spaces_spec((i + 1) as nat));
    }
    out
}

/// A text in the middle of a width, with spaces around it.
pub fn centre(label: &str, width: usize) -> (out: String)
    ensures
        out@ == centred(label@, width as nat),
{
    let count: usize = label.unicode_len();
    if count >= width {
        return label.to_string();
    }
    let spare: usize = width - count;
    spaces(spare / 2).concat(label).concat(spaces(spare - spare / 2).as_str())
}

pub open spec fn latest_summary_spec(shown: Seq<SignalEvent>) -> Seq<char> {
    if shown.len() == 0 {
        "waiting for the first recorded event"@
    } else {
        shown.last().summary@
    }
}

fn latest_summary(shown: &Vec<SignalEvent>) -> (out: String)
    ensures
        out@ == latest_summary_spec(shown@),
{
    if shown.len() == 0 {
        "waiting for the first recorded event".to_string()
    } else {
        shown[shown.len() - 1].summary.clone()
    }
}

pub open spec fn latest_age_spec(shown: Seq<SignalEvent>, now: u64) -> Seq<char> {
    if shown.len() == 0 {
        "age —"@
    } else {
        telemetry_age_spec(Some(shown.last().recorded_at), now)
    }
}

fn latest_age(shown: &Vec<SignalEvent>, now: u64) -> (out: String)
    ensures
        out@ == latest_age_spec(shown@, now),
{
    if shown.len() == 0 {
        "age —".to_string()
    } else {
        telemetry_age(Some(shown[shown.len() - 1].recorded_at), now)
    }
}

pub open spec fn latest_tone_spec(shown: Seq<SignalEvent>) -> Tone {
    if shown.len() == 0 {
        Tone::Muted
    } else {
        shown.last().tone
    }
}

fn latest_tone(shown: &Vec<SignalEvent>) -> (result: Tone)
    ensures
        result == latest_tone_spec(shown@),
{
    if shown.len() == 0 {
        Tone::Muted
    } else {
        shown[shown.len() - 1].tone
    }
}

pub open spec fn model_card_spec(sample: Sample, width: usize, now: u64) -> CardView {
    let tone = llm_status_tone_spec(sample.llm_status@);
    let processes = (
        if sample.llm_count > 0 {
            decimal(sample.llm_count as nat) + " process(es) · RSS "@ + bytes_spec(sample.llm_rss)
                + " · CPU "@ + sample.llm_cpu.fixed_spec(1) + "%"@
        } else { "provider live · process match unavailable"@ }
    );
    let health = (
        match sample.health {
            Some(score) => sample.grade@ + " · "@ + decimal(score as nat) + "/100"@,
            None => sample.grade@,
        }
    );
    CardView {
        title: row2(
            word(" "@ + tone.icon_spec() + " "@, Paint::Tone(tone), true),
            word("MODEL / STATE"@, Paint::Tone(tone), true),
        ),
        lines: no_lines()
            .push(
                row2(
                    word(
                        " "@ + (tone.icon_spec() + " "@ + upper(sample.llm_status@)) + " "@,
                        Paint::Badge(tone),
                        true,
                    ),
                    word("  "@ + health, Paint::Tone(tone), true),
                ),
            )
            .push(
                row1(
                    word(
                        compact_label_spec(
                            compact_label_spec(sample.llm_provider@, 10 as nat) + " · "@
                                + llm_model_label_spec(sample, 38usize),
                            width as nat,
                        ),
                        Paint::White,
                        true,
                    ),
                ),
            )
            .push(
                row1(
                    word(
                        compact_label_spec(processes, width as nat),
                        Paint::Tone(Tone::Muted),
                        false,
                    ),
                ),
            )
            .push(
                row1(
                    word(
                        telemetry_source_spec(sample, now) + " · "@
                            + telemetry_age_spec(sample.llm_observed_at, now),
                        Paint::Tone(Tone::Cyan),
                        false,
                    ),
                ),
            ),
        tone: tone,
    }
}

/// The model and what it is doing.
pub fn model_card(sample: &Sample, width: usize, now: u64) -> (card: Card)
    ensures
        card@ == model_card_spec(*sample, width, now),
{
    let tone = llm_status_tone(sample.llm_status.as_str());
    let processes = (
        if sample.llm_count > 0 {
            decimal_text(sample.llm_count as u64)
                .concat(" process(es) · RSS ")
                .concat(bytes(sample.llm_rss).as_str())
                .concat(" · CPU ")
                .concat(sample.llm_cpu.fixed(1).as_str())
                .concat("%")
        } else { "provider live · process match unavailable".to_string() }
    );
    let health = (
        match sample.health {
            Some(score) => sample.grade.clone()
                .concat(" · ")
                .concat(decimal_text(score as u64).as_str())
                .concat("/100"),
            None => sample.grade.clone(),
        }
    );
    let mut lines: Vec<TextLine> = Vec::new();
    assert(lines_of(lines@) =~= no_lines());
    push_line(
        &mut lines,
        line2(
            piece(
                " ".to_string()
                    .concat(
                        tone.icon().to_string()
                            .concat(" ")
                            .concat(to_upper(sample.llm_status.as_str()).as_str()).as_str(),
                    )
                    .concat(" "),
                Paint::Badge(tone),
                true,
            ),
            piece("  ".to_string().concat(health.as_str()), Paint::Tone(tone), true),
        ),
    );
    push_line(
        &mut lines,
        line1(
            piece(
                compact_label(
                    compact_label(sample.llm_provider.as_str(), 10)
                        .concat(" · ")
                        .concat(llm_model_label(sample, 38).as_str()).as_str(),
                    width,
                ),
                Paint::White,
                true,
            ),
        ),
    );
    push_line(
        &mut lines,
        line1(piece(compact_label(processes.as_str(), width), Paint::Tone(Tone::Muted), false)),
    );
    push_line(
        &mut lines,
        line1(
            piece(
                telemetry_source(sample, now)
                    .concat(" · ")
                    .concat(telemetry_age(sample.llm_observed_at, now).as_str()),
                Paint::Tone(Tone::Cyan),
                false,
            ),
        ),
    );
    Card {
        title: line2(
            piece(" ".to_string().concat(tone.icon()).concat(" "), Paint::Tone(tone), true),
            piece("MODEL / STATE".to_string(), Paint::Tone(tone), true),
        ),
        lines,
        tone: tone,
    }
}

/// What the system says of the serving process, where it says something.
pub open spec fn process_memory_lines_spec(sample: Sample) -> Seq<Seq<Word>> {
    match sample.process_memory {
        Some(memory) => no_lines()
            .push(
                row1(
                    word(
                        "PROCESS "@ + decimal(memory.pid as nat) + " · footprint "@
                            + bytes_spec(memory.footprint),
                        Paint::Tone(Tone::Muted),
                        false,
                    ),
                ),
            )
            .push(
                row1(
                    word(
                        "peak "@ + bytes_spec(memory.peak) + " · growth "@
                            + (
                                match sample.process_memory_growth {
                                    Some(growth) => signed_rate_spec(growth),
                                    None => "—"@,
                                }
                            )
                            + " · OS"@,
                        Paint::Tone(Tone::Muted),
                        false,
                    ),
                ),
            ),
        None => no_lines(),
    }
}

/// What the system says of the serving process.
pub fn process_memory_lines(sample: &Sample) -> (lines: Vec<TextLine>)
    ensures
        lines_of(lines@) == process_memory_lines_spec(*sample),
{
    let mut lines: Vec<TextLine> = Vec::new();
    assert(lines_of(lines@) =~= no_lines());
    if let Some(memory) = sample.process_memory {
        push_line(
            &mut lines,
            line1(
                piece(
                    "PROCESS ".to_string()
                        .concat(decimal_text(memory.pid as u64).as_str())
                        .concat(" · footprint ")
                        .concat(bytes(memory.footprint).as_str()),
                    Paint::Tone(Tone::Muted),
                    false,
                ),
            ),
        );
        push_line(
            &mut lines,
            line1(
                piece(
                    "peak ".to_string()
                        .concat(bytes(memory.peak).as_str())
                        .concat(" · growth ")
                        .concat(
                            (
                                match sample.process_memory_growth {
                                    Some(growth) => signed_rate(growth),
                                    None => "—".to_string(),
                                }
                            ).as_str(),
                        )
                        .concat(" · OS"),
                    Paint::Tone(Tone::Muted),
                    false,
                ),
            ),
        );
    }
    lines
}

/// How many requests are served and how many wait.
pub open spec fn queue_line_spec(sample: Sample) -> Seq<Word> {
    row2(
        word("active "@ + count_spec(sample.llm_active_requests), Paint::Tone(Tone::Cyan), false),
        word(
            " · waiting "@ + count_spec(sample.llm_waiting_requests),
            Paint::Tone(Tone::Yellow),
            false,
        ),
    )
}

/// How many requests are served and how many wait.
pub fn queue_line(sample: &Sample) -> (line: TextLine)
    ensures
        line@ == queue_line_spec(*sample),
{
    line2(
        piece(
            "active ".to_string().concat(count(sample.llm_active_requests).as_str()),
            Paint::Tone(Tone::Cyan),
            false,
        ),
        piece(
            " · waiting ".to_string().concat(count(sample.llm_waiting_requests).as_str()),
            Paint::Tone(Tone::Yellow),
            false,
        ),
    )
}

pub open spec fn throughput_card_spec(sample: Sample) -> CardView {
    CardView {
        title: row2(
            word(" ↯ "@, Paint::Tone(Tone::Cyan), true),
            word("THROUGHPUT"@, Paint::Tone(Tone::Cyan), true),
        ),
        lines: no_lines()
            .push(
                row3(
                    word(llm_generation_rate_label_spec(sample), Paint::White, true),
                    word(" · "@, Paint::Tone(Tone::Muted), false),
                    word(llm_prefill_rate_label_spec(sample), Paint::White, true),
                ),
            )
            .push(
                row1(
                    word(
                        "PROMPT "@ + optional_tokens_spec(sample.llm_prompt_tokens) + " · OUT "@
                            + optional_tokens_spec(sample.llm_output_tokens) + " · CONTEXT "@
                            + llm_context_label_spec(sample),
                        Paint::Tone(Tone::Muted),
                        false,
                    ),
                ),
            )
            .push(
                row1(
                    word(
                        "CACHE "@ + percent_spec(sample.llm_cache_efficiency) + " · HIT "@
                            + percent_spec(sample.llm_prefix_hit_rate) + " · REQ "@
                            + count_spec(sample.llm_active_requests) + "/"@
                            + count_spec(sample.llm_waiting_requests),
                        Paint::Tone(Tone::Cyan),
                        false,
                    ),
                ),
            ) + process_memory_lines_spec(sample),
        tone: Tone::Cyan,
    }
}

/// How fast tokens flow, and what the serving process holds.
pub fn throughput_card(sample: &Sample) -> (card: Card)
    ensures
        card@ == throughput_card_spec(*sample),
{
    let mut lines: Vec<TextLine> = Vec::new();
    assert(lines_of(lines@) =~= no_lines());
    push_line(
        &mut lines,
        line3(
            piece(llm_generation_rate_label(sample), Paint::White, true),
            piece(" · ".to_string(), Paint::Tone(Tone::Muted), false),
            piece(llm_prefill_rate_label(sample), Paint::White, true),
        ),
    );
    push_line(
        &mut lines,
        line1(
            piece(
                "PROMPT ".to_string()
                    .concat(optional_tokens(sample.llm_prompt_tokens).as_str())
                    .concat(" · OUT ")
                    .concat(optional_tokens(sample.llm_output_tokens).as_str())
                    .concat(" · CONTEXT ")
                    .concat(llm_context_label(sample).as_str()),
                Paint::Tone(Tone::Muted),
                false,
            ),
        ),
    );
    push_line(
        &mut lines,
        line1(
            piece(
                "CACHE ".to_string()
                    .concat(percent(sample.llm_cache_efficiency).as_str())
                    .concat(" · HIT ")
                    .concat(percent(sample.llm_prefix_hit_rate).as_str())
                    .concat(" · REQ ")
                    .concat(count(sample.llm_active_requests).as_str())
                    .concat("/")
                    .concat(count(sample.llm_waiting_requests).as_str()),
                Paint::Tone(Tone::Cyan),
                false,
            ),
        ),
    );
    let ghost flow = lines@;
    let mut process = process_memory_lines(sample);
    let ghost held = process@;
    lines.append(&mut process);
    assert(lines_of(lines@) =~= lines_of(flow) + lines_of(held));
    Card {
        title: line2(
            piece(" ↯ ".to_string(), Paint::Tone(Tone::Cyan), true),
            piece("THROUGHPUT".to_string(), Paint::Tone(Tone::Cyan), true),
        ),
        lines,
        tone: Tone::Cyan,
    }
}

pub open spec fn diagnosis_card_spec(sample: Sample, width: usize) -> CardView {
    CardView {
        title: row2(
            word(
                " "@ + sample.impact_tone.icon_spec() + " "@,
                Paint::Tone(sample.impact_tone),
                true,
            ),
            word("DIAGNOSIS"@, Paint::Tone(sample.impact_tone), true),
        ),
        lines: no_lines()
            .push(
                row2(
                    word(
                        " "@ + sample.guidance_badge@ + " "@,
                        Paint::Badge(sample.impact_tone),
                        true,
                    ),
                    word(
                        "  "@ + compact_label_spec(sample.impact@, less_spec(width, 8) as nat),
                        Paint::White,
                        true,
                    ),
                ),
            )
            .push(
                row1(
                    word(
                        "CAUSE  "@ + shown_diagnosis_spec(sample, less_spec(width, 7)),
                        Paint::Tone(Tone::Cyan),
                        false,
                    ),
                ),
            )
            .push(
                row1(
                    word(
                        compact_label_spec(diagnostic_signal_line_spec(sample), width as nat),
                        Paint::Tone(Tone::Muted),
                        false,
                    ),
                ),
            )
            .push(
                row1(
                    word(
                        "ACTION  "@
                            + compact_label_spec(
                                sample.guidance_action@,
                                less_spec(width, 8) as nat,
                            ),
                        Paint::Tone(sample.impact_tone),
                        false,
                    ),
                ),
            ),
        tone: sample.impact_tone,
    }
}

/// What limits the machine, why, and what to do.
pub fn diagnosis_card(sample: &Sample, width: usize) -> (card: Card)
    ensures
        card@ == diagnosis_card_spec(*sample, width),
{
    let mut lines: Vec<TextLine> = Vec::new();
    assert(lines_of(lines@) =~= no_lines());
    push_line(
        &mut lines,
        line2(
            piece(
                " ".to_string().concat(sample.guidance_badge.as_str()).concat(" "),
                Paint::Badge(sample.impact_tone),
                true,
            ),
            piece(
                "  ".to_string().concat(
                    compact_label(sample.impact.as_str(), less(width, 8)).as_str(),
                ),
                Paint::White,
                true,
            ),
        ),
    );
    push_line(
        &mut lines,
        line1(
            piece(
                "CAUSE  ".to_string().concat(shown_diagnosis(sample, less(width, 7)).as_str()),
                Paint::Tone(Tone::Cyan),
                false,
            ),
        ),
    );
    push_line(
        &mut lines,
        line1(
            piece(
                compact_label(diagnostic_signal_line(sample).as_str(), width),
                Paint::Tone(Tone::Muted),
                false,
            ),
        ),
    );
    push_line(
        &mut lines,
        line1(
            piece(
                "ACTION  ".to_string().concat(
                    compact_label(sample.guidance_action.as_str(), less(width, 8)).as_str(),
                ),
                Paint::Tone(sample.impact_tone),
                false,
            ),
        ),
    );
    Card {
        title: line2(
            piece(
                " ".to_string().concat(sample.impact_tone.icon()).concat(" "),
                Paint::Tone(sample.impact_tone),
                true,
            ),
            piece("DIAGNOSIS".to_string(), Paint::Tone(sample.impact_tone), true),
        ),
        lines,
        tone: sample.impact_tone,
    }
}

pub open spec fn memory_card_spec(
    sample: Sample,
    thresholds: Thresholds,
    width: usize,
) -> MetricView {
    let tone = memory_tone_spec(sample, thresholds);
    let load = memory_load(sample.availability);
    MetricView {
        title: row2(
            word(" ◉ "@, Paint::Tone(Tone::Cyan), true),
            word("MEMORY"@, Paint::Tone(Tone::Cyan), true),
        ),
        headline: row2(
            word(
                (
                    match load {
                        Some(value) => decimal(value as nat) + "% load"@,
                        None => "— load"@,
                    }
                ),
                Paint::White,
                true,
            ),
            word(
                (
                    match sample.availability {
                        Some(value) => "  ·  "@ + decimal(value as nat) + "% free"@,
                        None => "  ·  — free"@,
                    }
                ),
                Paint::Tone(tone),
                false,
            ),
        ),
        gauge: match load {
            Some(value) => Some((value as u16, decimal(value as nat) + "%"@, tone)),
            None => None,
        },
        details: row1(
            word(
                compact_label_spec(
                    "MODEL "@ + compact_model_memory_spec(sample) + " · COMP "@
                        + compressed_memory_label_spec(sample) + " · PRESSURE "@
                        + pressure_state_label_spec(sample),
                    width as nat,
                ),
                Paint::Tone(tone),
                false,
            ),
        ),
        tone: tone,
    }
}

/// The memory.
pub fn memory_card(sample: &Sample, thresholds: Thresholds, width: usize) -> (card: MetricCard)
    ensures
        card@ == memory_card_spec(*sample, thresholds, width),
{
    let tone = memory_tone(sample, thresholds);
    let load: Option<u8> = load_of(sample.availability);
    let gauge: Option<Gauge> = match load {
        Some(value) => Some(
            Gauge { percent: value as u16, label: decimal_text(value as u64).concat("%"), tone },
        ),
        None => None,
    };
    MetricCard {
        title: line2(
            piece(" ◉ ".to_string(), Paint::Tone(Tone::Cyan), true),
            piece("MEMORY".to_string(), Paint::Tone(Tone::Cyan), true),
        ),
        headline: line2(
            piece(
                (
                    match load {
                        Some(value) => decimal_text(value as u64).concat("% load"),
                        None => "— load".to_string(),
                    }
                ),
                Paint::White,
                true,
            ),
            piece(
                (
                    match sample.availability {
                        Some(value) => "  ·  ".to_string()
                            .concat(decimal_text(value as u64).as_str())
                            .concat("% free"),
                        None => "  ·  — free".to_string(),
                    }
                ),
                Paint::Tone(tone),
                false,
            ),
        ),
        gauge,
        details: line1(
            piece(
                compact_label(
                    "MODEL ".to_string()
                        .concat(compact_model_memory(sample).as_str())
                        .concat(" · COMP ")
                        .concat(compressed_memory_label(sample).as_str())
                        .concat(" · PRESSURE ")
                        .concat(pressure_state_label(sample)).as_str(),
                    width,
                ),
                Paint::Tone(tone),
                false,
            ),
        ),
        tone: tone,
    }
}

pub open spec fn paging_card_spec(
    sample: Sample,
    thresholds: Thresholds,
    width: usize,
) -> MetricView {
    let tone = paging_tone_spec(sample, thresholds);
    let measured = paging_measured_spec(sample);
    let churn = total_spec(sample.swap_in, sample.swap_out);
    let usage = (
        if sample.swap_available {
            "USED "@ + bytes_spec(sample.swap_used) + " / "@ + bytes_spec(sample.swap_total)
        } else { "USED —"@ }
    );
    MetricView {
        title: row2(
            word(" ⇄ "@, Paint::Tone(Tone::Yellow), true),
            word("PAGING / I/O"@, Paint::Tone(Tone::Yellow), true),
        ),
        headline: row2(
            word((if measured { rate_spec(churn) } else { "—"@ }), Paint::White, true),
            word("  ·  "@ + usage + " · "@ + paging_label_spec(sample), Paint::Tone(tone), false),
        ),
        gauge: if sample.swap_available {
            Some(
                (swap_percent_spec(sample), decimal(swap_percent_spec(sample) as nat) + "%"@, tone),
            )
        } else {
            None
        },
        details: row1(
            word(
                (
                    if measured {
                        compact_label_spec(
                            "IN "@ + rate_spec(sample.swap_in) + " · OUT "@
                                + rate_spec(sample.swap_out) + " · COMP "@
                                + rate_spec(total_spec(sample.compress, sample.decompress)),
                            width as nat,
                        )
                    } else { "rate baseline sampling"@ }
                ),
                Paint::White,
                false,
            ),
        ),
        tone: Tone::Yellow,
    }
}

/// The paging.
pub fn paging_card(sample: &Sample, thresholds: Thresholds, width: usize) -> (card: MetricCard)
    ensures
        card@ == paging_card_spec(*sample, thresholds, width),
{
    let tone = paging_tone(sample, thresholds);
    let measured = paging_measured(sample);
    let churn: u64 = total(sample.swap_in, sample.swap_out);
    let usage = (
        if sample.swap_available {
            "USED ".to_string()
                .concat(bytes(sample.swap_used).as_str())
                .concat(" / ")
                .concat(bytes(sample.swap_total).as_str())
        } else { "USED —".to_string() }
    );
    let gauge: Option<Gauge> = if sample.swap_available {
        let percent: u16 = swap_percent(sample);
        Some(Gauge { percent, label: decimal_text(percent as u64).concat("%"), tone })
    } else {
        None
    };
    MetricCard {
        title: line2(
            piece(" ⇄ ".to_string(), Paint::Tone(Tone::Yellow), true),
            piece("PAGING / I/O".to_string(), Paint::Tone(Tone::Yellow), true),
        ),
        headline: line2(
            piece((if measured { rate(churn) } else { "—".to_string() }), Paint::White, true),
            piece(
                "  ·  ".to_string()
                    .concat(usage.as_str())
                    .concat(" · ")
                    .concat(paging_label(sample)),
                Paint::Tone(tone),
                false,
            ),
        ),
        gauge,
        details: line1(
            piece(
                (
                    if measured {
                        compact_label(
                            "IN ".to_string()
                                .concat(rate(sample.swap_in).as_str())
                                .concat(" · OUT ")
                                .concat(rate(sample.swap_out).as_str())
                                .concat(" · COMP ")
                                .concat(
                                    rate(total(sample.compress, sample.decompress)).as_str(),
                                ).as_str(),
                            width,
                        )
                    } else { "rate baseline sampling".to_string() }
                ),
                Paint::White,
                false,
            ),
        ),
        tone: Tone::Yellow,
    }
}

pub open spec fn gpu_card_spec(sample: Sample, thresholds: Thresholds, width: usize) -> MetricView {
    let tone = gpu_tone_spec(sample, thresholds);
    MetricView {
        title: row2(
            word(" ◇ "@, Paint::Tone(Tone::Blue), true),
            word("GPU / COMPUTE"@, Paint::Tone(Tone::Blue), true),
        ),
        headline: row2(
            word(
                (
                    match sample.gpu_util {
                        Some(value) => decimal(value as nat) + "% busy"@,
                        None => "— busy"@,
                    }
                ),
                Paint::White,
                true,
            ),
            word(
                "  ·  "@ + gpu_load_label_spec(sample.gpu_util, thresholds),
                Paint::Tone(tone),
                false,
            ),
        ),
        gauge: match sample.gpu_util {
            Some(value) => Some((value as u16, decimal(value as nat) + "%"@, tone)),
            None => None,
        },
        details: row1(
            word(
                compact_label_spec(
                    metal_signal_line_spec(sample, gpu_memory_spec(sample)),
                    width as nat,
                ),
                Paint::Tone(Tone::Muted),
                false,
            ),
        ),
        tone: Tone::Blue,
    }
}

/// The GPU.
pub fn gpu_card(sample: &Sample, thresholds: Thresholds, width: usize) -> (card: MetricCard)
    ensures
        card@ == gpu_card_spec(*sample, thresholds, width),
{
    let tone = gpu_tone(sample, thresholds);
    let gauge: Option<Gauge> = match sample.gpu_util {
        Some(value) => Some(
            Gauge { percent: value as u16, label: decimal_text(value as u64).concat("%"), tone },
        ),
        None => None,
    };
    MetricCard {
        title: line2(
            piece(" ◇ ".to_string(), Paint::Tone(Tone::Blue), true),
            piece("GPU / COMPUTE".to_string(), Paint::Tone(Tone::Blue), true),
        ),
        headline: line2(
            piece(
                (
                    match sample.gpu_util {
                        Some(value) => decimal_text(value as u64).concat("% busy"),
                        None => "— busy".to_string(),
                    }
                ),
                Paint::White,
                true,
            ),
            piece(
                "  ·  ".to_string().concat(gpu_load_label(sample.gpu_util, thresholds)),
                Paint::Tone(tone),
                false,
            ),
        ),
        gauge,
        details: line1(
            piece(
                compact_label(
                    metal_signal_line(sample, gpu_memory(sample).as_str()).as_str(),
                    width,
                ),
                Paint::Tone(Tone::Muted),
                false,
            ),
        ),
        tone: Tone::Blue,
    }
}

pub open spec fn cache_card_spec(sample: Sample, width: usize) -> MetricView {
    let tone = if sample.llm_cache_efficiency is Some {
        Tone::Cyan
    } else {
        Tone::Muted
    };
    MetricView {
        title: row2(
            word(" ◈ "@, Paint::Tone(Tone::Cyan), true),
            word("CACHE / QUEUE"@, Paint::Tone(Tone::Cyan), true),
        ),
        headline: row2(
            word("CACHE "@ + percent_spec(sample.llm_cache_efficiency), Paint::White, true),
            word(
                "  ·  HIT "@ + percent_spec(sample.llm_prefix_hit_rate),
                Paint::Tone(Tone::Cyan),
                false,
            ),
        ),
        gauge: match sample.llm_cache_efficiency {
            Some(value) => Some(
                (whole_percent_spec(value), decimal(whole_percent_spec(value) as nat) + "%"@, tone),
            ),
            None => None,
        },
        details: row1(
            word(
                compact_label_spec(
                    "REQ "@ + count_spec(sample.llm_active_requests) + "/"@
                        + count_spec(sample.llm_waiting_requests) + " · CONTEXT "@
                        + llm_context_label_spec(sample),
                    width as nat,
                ),
                Paint::Tone(Tone::Muted),
                false,
            ),
        ),
        tone: tone,
    }
}

/// The cache and the queue.
pub fn cache_card(sample: &Sample, width: usize) -> (card: MetricCard)
    ensures
        card@ == cache_card_spec(*sample, width),
{
    let tone = if sample.llm_cache_efficiency.is_some() {
        Tone::Cyan
    } else {
        Tone::Muted
    };
    let gauge: Option<Gauge> = match sample.llm_cache_efficiency {
        Some(value) => {
            let percent: u16 = whole_percent(value);
            Some(Gauge { percent, label: decimal_text(percent as u64).concat("%"), tone })
        },
        None => None,
    };
    MetricCard {
        title: line2(
            piece(" ◈ ".to_string(), Paint::Tone(Tone::Cyan), true),
            piece("CACHE / QUEUE".to_string(), Paint::Tone(Tone::Cyan), true),
        ),
        headline: line2(
            piece(
                "CACHE ".to_string().concat(percent(sample.llm_cache_efficiency).as_str()),
                Paint::White,
                true,
            ),
            piece(
                "  ·  HIT ".to_string().concat(percent(sample.llm_prefix_hit_rate).as_str()),
                Paint::Tone(Tone::Cyan),
                false,
            ),
        ),
        gauge,
        details: line1(
            piece(
                compact_label(
                    "REQ ".to_string()
                        .concat(count(sample.llm_active_requests).as_str())
                        .concat("/")
                        .concat(count(sample.llm_waiting_requests).as_str())
                        .concat(" · CONTEXT ")
                        .concat(llm_context_label(sample).as_str()).as_str(),
                    width,
                ),
                Paint::Tone(Tone::Muted),
                false,
            ),
        ),
        tone: tone,
    }
}

pub open spec fn compact_operations_spec(sample: Sample, width: usize, now: u64) -> Seq<Seq<Word>> {
    let tone = llm_status_tone_spec(sample.llm_status@);
    let signals = "MEM "@ + percent_u8_spec(memory_load(sample.availability)) + " load · GPU "@
        + percent_u8_spec(sample.gpu_util) + " · PAGE "@
        + (
            if rates_measured_spec(sample) {
                rate_spec(total_spec(sample.swap_in, sample.swap_out))
            } else { "sampling"@ }
        )
        + " · PRESSURE "@ + pressure_state_label_spec(sample);
    let runtime = "COMP "@ + compressed_memory_label_spec(sample) + " · THERMAL "@ + sample.thermal@
        + " · "@ + telemetry_source_spec(sample, now) + " · "@
        + telemetry_age_spec(sample.llm_observed_at, now);
    no_lines()
            .push(
                row3(
                    word(" STATUS  "@, Paint::Tone(Tone::Muted), false),
                    word(" "@ + upper(sample.llm_status@) + " "@, Paint::Badge(tone), true),
                    word(
                        "  "@ + sample.grade@ + " · "@ + sample.llm_provider@,
                        Paint::Tone(tone),
                        true,
                    ),
                ),
            )
            .push(
                row2(
                    word(" MODEL   "@, Paint::Tone(Tone::Muted), false),
                    word(
                        compact_label_spec(sample.llm_model@, less_spec(width, 9) as nat),
                        Paint::White,
                        true,
                    ),
                ),
            )
            .push(
                row2(
                    word(" RATE    "@, Paint::Tone(Tone::Muted), false),
                    word(
                        llm_generation_rate_label_spec(sample) + " · "@
                            + llm_prefill_rate_label_spec(sample),
                        Paint::Tone(Tone::Cyan),
                        true,
                    ),
                ),
            )
            .push(
                row2(
                    word(" WORK    "@, Paint::Tone(Tone::Muted), false),
                    word(
                        compact_label_spec(
                            "PROMPT "@ + optional_tokens_spec(sample.llm_prompt_tokens)
                                + " · CACHE "@ + percent_spec(sample.llm_cache_efficiency)
                                + " · REQ "@ + count_spec(sample.llm_active_requests) + "/"@
                                + count_spec(sample.llm_waiting_requests),
                            less_spec(width, 9) as nat,
                        ),
                        Paint::White,
                        false,
                    ),
                ),
            )
            .push(
                row2(
                    word(" DIAG    "@, Paint::Tone(Tone::Muted), false),
                    word(
                        compact_label_spec(
                            shown_diagnosis_spec(sample, less_spec(width, 11)),
                            less_spec(width, 9) as nat,
                        ),
                        Paint::Tone(sample.correlation.tone_spec()),
                        true,
                    ),
                ),
            )
            .push(
                row2(
                    word(" ACTION  "@, Paint::Tone(Tone::Muted), false),
                    word(
                        compact_label_spec(sample.guidance_action@, less_spec(width, 9) as nat),
                        Paint::Tone(sample.impact_tone),
                        false,
                    ),
                ),
            )
            .push(
                row2(
                    word(" SIGNAL  "@, Paint::Tone(Tone::Muted), false),
                    word(
                        compact_label_spec(signals, less_spec(width, 9) as nat),
                        Paint::White,
                        false,
                    ),
                ),
            )
            .push(
                row2(
                    word(" RUNTIME "@, Paint::Tone(Tone::Muted), false),
                    word(
                        compact_label_spec(runtime, less_spec(width, 9) as nat),
                        Paint::Tone(Tone::Muted),
                        false,
                    ),
                ),
            )
}

/// The whole state of the machine in eight lines.
pub fn compact_operations(sample: &Sample, width: usize, now: u64) -> (lines: Vec<TextLine>)
    ensures
        lines_of(lines@) == compact_operations_spec(*sample, width, now),
{
    let tone = llm_status_tone(sample.llm_status.as_str());
    let signals = "MEM ".to_string()
        .concat(percent_u8(load_of(sample.availability)).as_str())
        .concat(" load · GPU ")
        .concat(percent_u8(sample.gpu_util).as_str())
        .concat(" · PAGE ")
        .concat(
            (
                if rates_measured(sample) {
                    rate(total(sample.swap_in, sample.swap_out))
                } else { "sampling".to_string() }
            ).as_str(),
        )
        .concat(" · PRESSURE ")
        .concat(pressure_state_label(sample));
    let runtime = "COMP ".to_string()
        .concat(compressed_memory_label(sample).as_str())
        .concat(" · THERMAL ")
        .concat(sample.thermal.as_str())
        .concat(" · ")
        .concat(telemetry_source(sample, now).as_str())
        .concat(" · ")
        .concat(telemetry_age(sample.llm_observed_at, now).as_str());
    let mut lines: Vec<TextLine> = Vec::new();
    assert(lines_of(lines@) =~= no_lines());
    push_line(
        &mut lines,
        line3(
            piece(" STATUS  ".to_string(), Paint::Tone(Tone::Muted), false),
            piece(
                " ".to_string().concat(to_upper(sample.llm_status.as_str()).as_str()).concat(" "),
                Paint::Badge(tone),
                true,
            ),
            piece(
                "  ".to_string()
                    .concat(sample.grade.as_str())
                    .concat(" · ")
                    .concat(sample.llm_provider.as_str()),
                Paint::Tone(tone),
                true,
            ),
        ),
    );
    push_line(
        &mut lines,
        line2(
            piece(" MODEL   ".to_string(), Paint::Tone(Tone::Muted), false),
            piece(compact_label(sample.llm_model.as_str(), less(width, 9)), Paint::White, true),
        ),
    );
    push_line(
        &mut lines,
        line2(
            piece(" RATE    ".to_string(), Paint::Tone(Tone::Muted), false),
            piece(
                llm_generation_rate_label(sample)
                    .concat(" · ")
                    .concat(llm_prefill_rate_label(sample).as_str()),
                Paint::Tone(Tone::Cyan),
                true,
            ),
        ),
    );
    push_line(
        &mut lines,
        line2(
            piece(" WORK    ".to_string(), Paint::Tone(Tone::Muted), false),
            piece(
                compact_label(
                    "PROMPT ".to_string()
                        .concat(optional_tokens(sample.llm_prompt_tokens).as_str())
                        .concat(" · CACHE ")
                        .concat(percent(sample.llm_cache_efficiency).as_str())
                        .concat(" · REQ ")
                        .concat(count(sample.llm_active_requests).as_str())
                        .concat("/")
                        .concat(count(sample.llm_waiting_requests).as_str()).as_str(),
                    less(width, 9),
                ),
                Paint::White,
                false,
            ),
        ),
    );
    push_line(
        &mut lines,
        line2(
            piece(" DIAG    ".to_string(), Paint::Tone(Tone::Muted), false),
            piece(
                compact_label(shown_diagnosis(sample, less(width, 11)).as_str(), less(width, 9)),
                Paint::Tone(sample.correlation.tone()),
                true,
            ),
        ),
    );
    push_line(
        &mut lines,
        line2(
            piece(" ACTION  ".to_string(), Paint::Tone(Tone::Muted), false),
            piece(
                compact_label(sample.guidance_action.as_str(), less(width, 9)),
                Paint::Tone(sample.impact_tone),
                false,
            ),
        ),
    );
    push_line(
        &mut lines,
        line2(
            piece(" SIGNAL  ".to_string(), Paint::Tone(Tone::Muted), false),
            piece(compact_label(signals.as_str(), less(width, 9)), Paint::White, false),
        ),
    );
    push_line(
        &mut lines,
        line2(
            piece(" RUNTIME ".to_string(), Paint::Tone(Tone::Muted), false),
            piece(compact_label(runtime.as_str(), less(width, 9)), Paint::Tone(Tone::Muted), false),
        ),
    );
    lines
}

pub open spec fn top_model_card_spec(sample: Sample, width: usize, now: u64) -> CardView {
    let tone = llm_status_tone_spec(sample.llm_status@);
    CardView {
        title: row2(
            word(" ◉ "@, Paint::Tone(tone), true),
            word("MODEL / STATE"@, Paint::Tone(tone), true),
        ),
        lines: no_lines()
            .push(
                row2(
                    word(" "@ + upper(sample.llm_status@) + " "@, Paint::Badge(tone), true),
                    word(
                        "  "@ + compact_label_spec(sample.llm_provider@, 12 as nat),
                        Paint::White,
                        true,
                    ),
                ),
            )
            .push(
                row1(word(compact_label_spec(sample.llm_model@, width as nat), Paint::White, true)),
            )
            .push(
                row1(
                    word(
                        process_count_label_spec(sample) + " · "@
                            + telemetry_source_spec(sample, now) + " · "@
                            + telemetry_age_spec(sample.llm_observed_at, now),
                        Paint::Tone(Tone::Muted),
                        false,
                    ),
                ),
            )
            .push(
                row1(
                    word(
                        "RSS "@ + bytes_spec(sample.llm_rss) + " · CPU "@
                            + sample.llm_cpu.fixed_spec(1) + "%"@,
                        Paint::Tone(Tone::Muted),
                        false,
                    ),
                ),
            ),
        tone: tone,
    }
}

/// The model above the list of processes.
pub fn top_model_card(sample: &Sample, width: usize, now: u64) -> (card: Card)
    ensures
        card@ == top_model_card_spec(*sample, width, now),
{
    let tone = llm_status_tone(sample.llm_status.as_str());
    let mut lines: Vec<TextLine> = Vec::new();
    assert(lines_of(lines@) =~= no_lines());
    push_line(
        &mut lines,
        line2(
            piece(
                " ".to_string().concat(to_upper(sample.llm_status.as_str()).as_str()).concat(" "),
                Paint::Badge(tone),
                true,
            ),
            piece(
                "  ".to_string().concat(compact_label(sample.llm_provider.as_str(), 12).as_str()),
                Paint::White,
                true,
            ),
        ),
    );
    push_line(
        &mut lines,
        line1(piece(compact_label(sample.llm_model.as_str(), width), Paint::White, true)),
    );
    push_line(
        &mut lines,
        line1(
            piece(
                process_count_label(sample)
                    .concat(" · ")
                    .concat(telemetry_source(sample, now).as_str())
                    .concat(" · ")
                    .concat(telemetry_age(sample.llm_observed_at, now).as_str()),
                Paint::Tone(Tone::Muted),
                false,
            ),
        ),
    );
    push_line(
        &mut lines,
        line1(
            piece(
                "RSS ".to_string()
                    .concat(bytes(sample.llm_rss).as_str())
                    .concat(" · CPU ")
                    .concat(sample.llm_cpu.fixed(1).as_str())
                    .concat("%"),
                Paint::Tone(Tone::Muted),
                false,
            ),
        ),
    );
    Card {
        title: line2(
            piece(" ◉ ".to_string(), Paint::Tone(tone), true),
            piece("MODEL / STATE".to_string(), Paint::Tone(tone), true),
        ),
        lines,
        tone: tone,
    }
}

pub open spec fn top_diagnosis_card_spec(sample: Sample, width: usize) -> CardView {
    CardView {
        title: row2(
            word(" ◇ "@, Paint::Tone(sample.impact_tone), true),
            word("DIAGNOSIS"@, Paint::Tone(sample.impact_tone), true),
        ),
        lines: no_lines()
            .push(
                row2(
                    word(
                        " "@ + sample.guidance_badge@ + " "@,
                        Paint::Badge(sample.impact_tone),
                        true,
                    ),
                    word("  "@ + compact_label_spec(sample.impact@, 18 as nat), Paint::White, true),
                ),
            )
            .push(
                row1(
                    word(
                        "CAUSE  "@ + shown_diagnosis_spec(sample, less_spec(width, 7)),
                        Paint::Tone(sample.correlation.tone_spec()),
                        false,
                    ),
                ),
            )
            .push(
                row1(
                    word(
                        compact_label_spec(diagnostic_signal_line_spec(sample), width as nat),
                        Paint::Tone(Tone::Muted),
                        false,
                    ),
                ),
            )
            .push(
                row1(
                    word(
                        "ACTION  "@
                            + compact_label_spec(
                                sample.guidance_action@,
                                less_spec(width, 8) as nat,
                            ),
                        Paint::Tone(sample.impact_tone),
                        false,
                    ),
                ),
            ),
        tone: sample.impact_tone,
    }
}

/// The diagnosis above the list of processes.
pub fn top_diagnosis_card(sample: &Sample, width: usize) -> (card: Card)
    ensures
        card@ == top_diagnosis_card_spec(*sample, width),
{
    let mut lines: Vec<TextLine> = Vec::new();
    assert(lines_of(lines@) =~= no_lines());
    push_line(
        &mut lines,
        line2(
            piece(
                " ".to_string().concat(sample.guidance_badge.as_str()).concat(" "),
                Paint::Badge(sample.impact_tone),
                true,
            ),
            piece(
                "  ".to_string().concat(compact_label(sample.impact.as_str(), 18).as_str()),
                Paint::White,
                true,
            ),
        ),
    );
    push_line(
        &mut lines,
        line1(
            piece(
                "CAUSE  ".to_string().concat(shown_diagnosis(sample, less(width, 7)).as_str()),
                Paint::Tone(sample.correlation.tone()),
                false,
            ),
        ),
    );
    push_line(
        &mut lines,
        line1(
            piece(
                compact_label(diagnostic_signal_line(sample).as_str(), width),
                Paint::Tone(Tone::Muted),
                false,
            ),
        ),
    );
    push_line(
        &mut lines,
        line1(
            piece(
                "ACTION  ".to_string().concat(
                    compact_label(sample.guidance_action.as_str(), less(width, 8)).as_str(),
                ),
                Paint::Tone(sample.impact_tone),
                false,
            ),
        ),
    );
    Card {
        title: line2(
            piece(" ◇ ".to_string(), Paint::Tone(sample.impact_tone), true),
            piece("DIAGNOSIS".to_string(), Paint::Tone(sample.impact_tone), true),
        ),
        lines,
        tone: sample.impact_tone,
    }
}

pub open spec fn compact_top_card_spec(sample: Sample, width: usize) -> CardView {
    let tone = llm_status_tone_spec(sample.llm_status@);
    CardView {
        title: row2(
            word(" ◉ "@, Paint::Tone(tone), false),
            word("WORKLOAD SUMMARY · THROUGHPUT / IMPACT"@, Paint::Tone(Tone::Cyan), true),
        ),
        lines: no_lines()
            .push(
                row2(
                    word(" "@ + upper(sample.llm_status@) + " "@, Paint::Badge(tone), true),
                    word(
                        "  "@ + compact_label_spec(sample.llm_provider@, 10 as nat) + " · "@
                            + compact_label_spec(sample.llm_model@, less_spec(width, 20) as nat),
                        Paint::White,
                        true,
                    ),
                ),
            )
            .push(
                row2(
                    word("RATE  "@, Paint::Tone(Tone::Muted), false),
                    word(
                        compact_label_spec(
                            llm_generation_rate_label_spec(sample) + " · "@
                                + llm_prefill_rate_label_spec(sample) + " · CACHE "@
                                + percent_spec(sample.llm_cache_efficiency) + " · REQ "@
                                + count_spec(sample.llm_active_requests) + "/"@
                                + count_spec(sample.llm_waiting_requests),
                            less_spec(width, 6) as nat,
                        ),
                        Paint::Tone(Tone::Cyan),
                        true,
                    ),
                ),
            )
            .push(
                row2(
                    word("HOST  "@, Paint::Tone(Tone::Muted), false),
                    word(
                        compact_label_spec(
                            "RSS "@ + bytes_spec(sample.llm_rss) + " · CPU "@
                                + sample.llm_cpu.fixed_spec(1) + "% · GPU "@
                                + percent_u8_spec(sample.gpu_util) + " · PAGE "@
                                + (
                                    if rates_measured_spec(sample) {
                                        rate_spec(total_spec(sample.swap_in, sample.swap_out))
                                    } else { "sampling"@ }
                                ),
                            less_spec(width, 6) as nat,
                        ),
                        Paint::Tone(Tone::Muted),
                        false,
                    ),
                ),
            )
            .push(
                row2(
                    word("DIAG  "@, Paint::Tone(Tone::Muted), false),
                    word(
                        shown_diagnosis_spec(sample, less_spec(width, 8)),
                        Paint::Tone(sample.correlation.tone_spec()),
                        true,
                    ),
                ),
            ),
        tone: sample.impact_tone,
    }
}

/// The work and its impact in four lines.
pub fn compact_top_card(sample: &Sample, width: usize) -> (card: Card)
    ensures
        card@ == compact_top_card_spec(*sample, width),
{
    let tone = llm_status_tone(sample.llm_status.as_str());
    let mut lines: Vec<TextLine> = Vec::new();
    assert(lines_of(lines@) =~= no_lines());
    push_line(
        &mut lines,
        line2(
            piece(
                " ".to_string().concat(to_upper(sample.llm_status.as_str()).as_str()).concat(" "),
                Paint::Badge(tone),
                true,
            ),
            piece(
                "  ".to_string()
                    .concat(compact_label(sample.llm_provider.as_str(), 10).as_str())
                    .concat(" · ")
                    .concat(compact_label(sample.llm_model.as_str(), less(width, 20)).as_str()),
                Paint::White,
                true,
            ),
        ),
    );
    push_line(
        &mut lines,
        line2(
            piece("RATE  ".to_string(), Paint::Tone(Tone::Muted), false),
            piece(
                compact_label(
                    llm_generation_rate_label(sample)
                        .concat(" · ")
                        .concat(llm_prefill_rate_label(sample).as_str())
                        .concat(" · CACHE ")
                        .concat(percent(sample.llm_cache_efficiency).as_str())
                        .concat(" · REQ ")
                        .concat(count(sample.llm_active_requests).as_str())
                        .concat("/")
                        .concat(count(sample.llm_waiting_requests).as_str()).as_str(),
                    less(width, 6),
                ),
                Paint::Tone(Tone::Cyan),
                true,
            ),
        ),
    );
    push_line(
        &mut lines,
        line2(
            piece("HOST  ".to_string(), Paint::Tone(Tone::Muted), false),
            piece(
                compact_label(
                    "RSS ".to_string()
                        .concat(bytes(sample.llm_rss).as_str())
                        .concat(" · CPU ")
                        .concat(sample.llm_cpu.fixed(1).as_str())
                        .concat("% · GPU ")
                        .concat(percent_u8(sample.gpu_util).as_str())
                        .concat(" · PAGE ")
                        .concat(
                            (
                                if rates_measured(sample) {
                                    rate(total(sample.swap_in, sample.swap_out))
                                } else { "sampling".to_string() }
                            ).as_str(),
                        ).as_str(),
                    less(width, 6),
                ),
                Paint::Tone(Tone::Muted),
                false,
            ),
        ),
    );
    push_line(
        &mut lines,
        line2(
            piece("DIAG  ".to_string(), Paint::Tone(Tone::Muted), false),
            piece(
                shown_diagnosis(sample, less(width, 8)),
                Paint::Tone(sample.correlation.tone()),
                true,
            ),
        ),
    );
    Card {
        title: line2(
            piece(" ◉ ".to_string(), Paint::Tone(tone), false),
            piece(
                "WORKLOAD SUMMARY · THROUGHPUT / IMPACT".to_string(),
                Paint::Tone(Tone::Cyan),
                true,
            ),
        ),
        lines,
        tone: sample.impact_tone,
    }
}

pub open spec fn top_header_spec(
    listed: usize,
    column: TopSort,
    filter: Seq<char>,
    typing: bool,
) -> Seq<Seq<Word>> {
    let shown = (if filter.len() == 0 { "all detected processes"@ } else { "filter /"@ + filter });
    no_lines()
            .push(
                row2(
                    word(" MLX TOP  "@, Paint::Tone(Tone::Cyan), true),
                    word(
                        decimal(listed as nat) + " processes · sort "@ + column.label_spec()
                            + " · "@ + shown,
                        Paint::White,
                        false,
                    ),
                ),
            )
            .push(
                row8(
                    word("  ↑↓ select  "@, Paint::Tone(Tone::Muted), false),
                    word("s"@, Paint::White, true),
                    word(" sort  "@, Paint::Tone(Tone::Muted), false),
                    word("f / /"@, Paint::White, true),
                    word(" filter  "@, Paint::Tone(Tone::Muted), false),
                    word("c"@, Paint::White, true),
                    word(" clear"@, Paint::Tone(Tone::Muted), false),
                    word(
                        (if typing { " · typing filter · Enter/Esc close"@ } else { ""@ }),
                        Paint::Tone(Tone::Yellow),
                        false,
                    ),
                ),
            )
}

/// What the list of processes shows, and its keys.
pub fn top_header(
    listed: usize,
    column: TopSort,
    filter: &str,
    typing: bool,
) -> (lines: Vec<TextLine>)
    ensures
        lines_of(lines@) == top_header_spec(listed, column, filter@, typing),
{
    let shown = (
        if filter.is_empty() { "all detected processes".to_string() } else {
            "filter /".to_string().concat(filter)
        }
    );
    let mut lines: Vec<TextLine> = Vec::new();
    assert(lines_of(lines@) =~= no_lines());
    push_line(
        &mut lines,
        line2(
            piece(" MLX TOP  ".to_string(), Paint::Tone(Tone::Cyan), true),
            piece(
                decimal_text(listed as u64)
                    .concat(" processes · sort ")
                    .concat(column.label())
                    .concat(" · ")
                    .concat(shown.as_str()),
                Paint::White,
                false,
            ),
        ),
    );
    push_line(
        &mut lines,
        line8(
            piece("  ↑↓ select  ".to_string(), Paint::Tone(Tone::Muted), false),
            piece("s".to_string(), Paint::White, true),
            piece(" sort  ".to_string(), Paint::Tone(Tone::Muted), false),
            piece("f / /".to_string(), Paint::White, true),
            piece(" filter  ".to_string(), Paint::Tone(Tone::Muted), false),
            piece("c".to_string(), Paint::White, true),
            piece(" clear".to_string(), Paint::Tone(Tone::Muted), false),
            piece(
                (
                    if typing {
                        " · typing filter · Enter/Esc close".to_string()
                    } else { "".to_string() }
                ),
                Paint::Tone(Tone::Yellow),
                false,
            ),
        ),
    );
    lines
}

pub open spec fn help_lines_spec() -> Seq<Seq<Word>> {
    no_lines()
            .push(row1(word("KEYBOARD"@, Paint::White, true)))
            .push(row1(word(""@, Paint::Plain, false)))
            .push(row1(word("q / Esc / Ctrl-C   quit"@, Paint::Plain, false)))
            .push(row1(word("p / Space          pause or resume sampling"@, Paint::Plain, false)))
            .push(
                row1(
                    word(
                        "r                  reset rates, charts, and journal"@,
                        Paint::Plain,
                        false,
                    ),
                ),
            )
            .push(
                row1(
                    word(
                        "a                  acknowledge the active paging alert"@,
                        Paint::Plain,
                        false,
                    ),
                ),
            )
            .push(
                row1(
                    word(
                        "Alerts             aggressive paging rings the terminal bell and shows a banner"@,
                        Paint::Plain,
                        false,
                    ),
                ),
            )
            .push(
                row1(
                    word(
                        "Tab / ← →          cycle Overview, MLX Top, and Journal"@,
                        Paint::Plain,
                        false,
                    ),
                ),
            )
            .push(
                row1(word("1 / 2 / 3          Overview / MLX Top / Journal"@, Paint::Plain, false)),
            )
            .push(
                row1(
                    word(
                        "MLX Top            live process/resource monitor: PID, CPU, MEM%, RSS, PAGEIN/s, state, model"@,
                        Paint::Plain,
                        false,
                    ),
                ),
            )
            .push(
                row1(
                    word(
                        "↑ / ↓ / PgUp/PgDn  select a process; Home/End jump to first/last"@,
                        Paint::Plain,
                        false,
                    ),
                ),
            )
            .push(
                row1(
                    word(
                        "s                  cycle sort: RSS, CPU, PID, NAME"@,
                        Paint::Plain,
                        false,
                    ),
                ),
            )
            .push(
                row1(
                    word(
                        "f or /             filter processes; c clears the filter"@,
                        Paint::Plain,
                        false,
                    ),
                ),
            )
            .push(
                row1(
                    word(
                        "Journal            historical transitions only: what changed and why"@,
                        Paint::Plain,
                        false,
                    ),
                ),
            )
            .push(
                row1(
                    word(
                        "↑ / PgUp / Home newer; ↓ / PgDn / End older in the Journal"@,
                        Paint::Plain,
                        false,
                    ),
                ),
            )
            .push(
                row1(word("f / [ / ]          cycle Journal event filters"@, Paint::Plain, false)),
            )
            .push(
                row1(
                    word(
                        "Overview: ↑↓ request history; Home newest; End oldest"@,
                        Paint::Plain,
                        false,
                    ),
                ),
            )
            .push(
                row1(
                    word(
                        "+ / -              change refresh interval (1–60s)"@,
                        Paint::Plain,
                        false,
                    ),
                ),
            )
            .push(row1(word("? / h              close this help"@, Paint::Plain, false)))
            .push(row1(word(""@, Paint::Plain, false)))
            .push(
                row1(
                    word(
                        "Every panel is framed around what the current machine state does to local LLM latency, headroom, or throughput."@,
                        Paint::Tone(Tone::Muted),
                        false,
                    ),
                ),
            )
}

/// The keys.
pub fn help_lines() -> (lines: Vec<TextLine>)
    ensures
        lines_of(lines@) == help_lines_spec(),
{
    let mut lines: Vec<TextLine> = Vec::new();
    assert(lines_of(lines@) =~= no_lines());
    push_line(&mut lines, line1(piece("KEYBOARD".to_string(), Paint::White, true)));
    push_line(&mut lines, line1(piece("".to_string(), Paint::Plain, false)));
    push_line(&mut lines, line1(piece("q / Esc / Ctrl-C   quit".to_string(), Paint::Plain, false)));
    push_line(
        &mut lines,
        line1(
            piece("p / Space          pause or resume sampling".to_string(), Paint::Plain, false),
        ),
    );
    push_line(
        &mut lines,
        line1(
            piece(
                "r                  reset rates, charts, and journal".to_string(),
                Paint::Plain,
                false,
            ),
        ),
    );
    push_line(
        &mut lines,
        line1(
            piece(
                "a                  acknowledge the active paging alert".to_string(),
                Paint::Plain,
                false,
            ),
        ),
    );
    push_line(
        &mut lines,
        line1(
            piece(
                "Alerts             aggressive paging rings the terminal bell and shows a banner".to_string(),
                Paint::Plain,
                false,
            ),
        ),
    );
    push_line(
        &mut lines,
        line1(
            piece(
                "Tab / ← →          cycle Overview, MLX Top, and Journal".to_string(),
                Paint::Plain,
                false,
            ),
        ),
    );
    push_line(
        &mut lines,
        line1(
            piece(
                "1 / 2 / 3          Overview / MLX Top / Journal".to_string(),
                Paint::Plain,
                false,
            ),
        ),
    );
    push_line(
        &mut lines,
        line1(
            piece(
                "MLX Top            live process/resource monitor: PID, CPU, MEM%, RSS, PAGEIN/s, state, model".to_string(),
                Paint::Plain,
                false,
            ),
        ),
    );
    push_line(
        &mut lines,
        line1(
            piece(
                "↑ / ↓ / PgUp/PgDn  select a process; Home/End jump to first/last".to_string(),
                Paint::Plain,
                false,
            ),
        ),
    );
    push_line(
        &mut lines,
        line1(
            piece(
                "s                  cycle sort: RSS, CPU, PID, NAME".to_string(),
                Paint::Plain,
                false,
            ),
        ),
    );
    push_line(
        &mut lines,
        line1(
            piece(
                "f or /             filter processes; c clears the filter".to_string(),
                Paint::Plain,
                false,
            ),
        ),
    );
    push_line(
        &mut lines,
        line1(
            piece(
                "Journal            historical transitions only: what changed and why".to_string(),
                Paint::Plain,
                false,
            ),
        ),
    );
    push_line(
        &mut lines,
        line1(
            piece(
                "↑ / PgUp / Home newer; ↓ / PgDn / End older in the Journal".to_string(),
                Paint::Plain,
                false,
            ),
        ),
    );
    push_line(
        &mut lines,
        line1(
            piece(
                "f / [ / ]          cycle Journal event filters".to_string(),
                Paint::Plain,
                false,
            ),
        ),
    );
    push_line(
        &mut lines,
        line1(
            piece(
                "Overview: ↑↓ request history; Home newest; End oldest".to_string(),
                Paint::Plain,
                false,
            ),
        ),
    );
    push_line(
        &mut lines,
        line1(
            piece(
                "+ / -              change refresh interval (1–60s)".to_string(),
                Paint::Plain,
                false,
            ),
        ),
    );
    push_line(
        &mut lines,
        line1(piece("? / h              close this help".to_string(), Paint::Plain, false)),
    );
    push_line(&mut lines, line1(piece("".to_string(), Paint::Plain, false)));
    push_line(
        &mut lines,
        line1(
            piece(
                "Every panel is framed around what the current machine state does to local LLM latency, headroom, or throughput.".to_string(),
                Paint::Tone(Tone::Muted),
                false,
            ),
        ),
    );
    lines
}

pub open spec fn small_screen_lines_spec(columns: u16, rows: u16) -> Seq<Seq<Word>> {
    no_lines()
            .push(row1(word("mlxtop"@, Paint::Tone(Tone::Cyan), true)))
            .push(row1(word(""@, Paint::Plain, false)))
            .push(
                row1(
                    word(
                        "This dashboard needs at least 72×24 terminal cells."@,
                        Paint::Plain,
                        false,
                    ),
                ),
            )
            .push(
                row1(
                    word(
                        "Current size: "@ + decimal(columns as nat) + "×"@ + decimal(rows as nat),
                        Paint::Plain,
                        false,
                    ),
                ),
            )
            .push(
                row1(
                    word(
                        "Resize the terminal, or use --once for a static report."@,
                        Paint::Plain,
                        false,
                    ),
                ),
            )
            .push(row1(word("q quit"@, Paint::Plain, false)))
}

/// What is shown where the dashboard does not fit.
pub fn small_screen_lines(columns: u16, rows: u16) -> (lines: Vec<TextLine>)
    ensures
        lines_of(lines@) == small_screen_lines_spec(columns, rows),
{
    let mut lines: Vec<TextLine> = Vec::new();
    assert(lines_of(lines@) =~= no_lines());
    push_line(&mut lines, line1(piece("mlxtop".to_string(), Paint::Tone(Tone::Cyan), true)));
    push_line(&mut lines, line1(piece("".to_string(), Paint::Plain, false)));
    push_line(
        &mut lines,
        line1(
            piece(
                "This dashboard needs at least 72×24 terminal cells.".to_string(),
                Paint::Plain,
                false,
            ),
        ),
    );
    push_line(
        &mut lines,
        line1(
            piece(
                "Current size: ".to_string()
                    .concat(decimal_text(columns as u64).as_str())
                    .concat("×")
                    .concat(decimal_text(rows as u64).as_str()),
                Paint::Plain,
                false,
            ),
        ),
    );
    push_line(
        &mut lines,
        line1(
            piece(
                "Resize the terminal, or use --once for a static report.".to_string(),
                Paint::Plain,
                false,
            ),
        ),
    );
    push_line(&mut lines, line1(piece("q quit".to_string(), Paint::Plain, false)));
    lines
}

pub open spec fn alert_banner_spec(alert: ActiveAlert) -> Seq<Seq<Word>> {
    no_lines()
            .push(
                row3(
                    word(" ⚠ "@ + alert.state@ + " "@, Paint::Tone(Tone::Red), true),
                    word(alert.summary@, Paint::White, true),
                    word(
                        "  ·  raised "@ + alert.time@ + "  ·  a acknowledge"@,
                        Paint::Tone(Tone::Muted),
                        false,
                    ),
                ),
            )
}

/// The banner of a paging alert.
pub fn alert_banner(alert: &ActiveAlert) -> (lines: Vec<TextLine>)
    ensures
        lines_of(lines@) == alert_banner_spec(*alert),
{
    let mut lines: Vec<TextLine> = Vec::new();
    assert(lines_of(lines@) =~= no_lines());
    push_line(
        &mut lines,
        line3(
            piece(
                " ⚠ ".to_string().concat(alert.state.as_str()).concat(" "),
                Paint::Tone(Tone::Red),
                true,
            ),
            piece(alert.summary.clone(), Paint::White, true),
            piece(
                "  ·  raised ".to_string().concat(alert.time.as_str()).concat("  ·  a acknowledge"),
                Paint::Tone(Tone::Muted),
                false,
            ),
        ),
    );
    lines
}

pub open spec fn journal_header_spec(
    shown: Seq<SignalEvent>,
    total_count: usize,
    filter: JournalFilter,
    now: u64,
) -> Seq<Seq<Word>> {
    no_lines()
            .push(
                row4(
                    word(" JOURNAL  "@, Paint::Tone(Tone::Cyan), true),
                    word(
                        decimal(shown.len() as nat) + " "@ + filter.label_spec() + " events · "@
                            + decimal(total_count as nat) + " total · f/[/] filter"@,
                        Paint::White,
                        false,
                    ),
                    word("  ·  "@, Paint::Dim, false),
                    word("meaningful changes only"@, Paint::Tone(Tone::Muted), false),
                ),
            )
            .push(
                row2(
                    word("  LATEST  "@, Paint::Tone(Tone::Muted), false),
                    word(
                        latest_summary_spec(shown) + " · "@ + latest_age_spec(shown, now),
                        Paint::Tone(latest_tone_spec(shown)),
                        false,
                    ),
                ),
            )
            .push(
                row3(
                    word("  SCOPE   "@, Paint::Tone(Tone::Muted), false),
                    word(
                        "what changed · why it matters · what recovered"@,
                        Paint::Tone(Tone::Cyan),
                        false,
                    ),
                    word("  ·  ↑ newer · ↓ older"@, Paint::Dim, false),
                ),
            )
}

/// What the journal shows.
pub fn journal_header(
    shown: &Vec<SignalEvent>,
    total_count: usize,
    filter: JournalFilter,
    now: u64,
) -> (lines: Vec<TextLine>)
    ensures
        lines_of(lines@) == journal_header_spec(shown@, total_count, filter, now),
{
    let mut lines: Vec<TextLine> = Vec::new();
    assert(lines_of(lines@) =~= no_lines());
    push_line(
        &mut lines,
        line4(
            piece(" JOURNAL  ".to_string(), Paint::Tone(Tone::Cyan), true),
            piece(
                decimal_text(shown.len() as u64)
                    .concat(" ")
                    .concat(filter.label())
                    .concat(" events · ")
                    .concat(decimal_text(total_count as u64).as_str())
                    .concat(" total · f/[/] filter"),
                Paint::White,
                false,
            ),
            piece("  ·  ".to_string(), Paint::Dim, false),
            piece("meaningful changes only".to_string(), Paint::Tone(Tone::Muted), false),
        ),
    );
    push_line(
        &mut lines,
        line2(
            piece("  LATEST  ".to_string(), Paint::Tone(Tone::Muted), false),
            piece(
                latest_summary(shown).concat(" · ").concat(latest_age(shown, now).as_str()),
                Paint::Tone(latest_tone(shown)),
                false,
            ),
        ),
    );
    push_line(
        &mut lines,
        line3(
            piece("  SCOPE   ".to_string(), Paint::Tone(Tone::Muted), false),
            piece(
                "what changed · why it matters · what recovered".to_string(),
                Paint::Tone(Tone::Cyan),
                false,
            ),
            piece("  ·  ↑ newer · ↓ older".to_string(), Paint::Dim, false),
        ),
    );
    lines
}

pub open spec fn log_event_line_spec(event: SignalEvent) -> Seq<Word> {
    row3(
        word(" "@ + event.time@ + " "@, Paint::Dim, false),
        word(centred(event.state@, 19), Paint::Tone(event.tone), true),
        word("  "@ + event.summary@, Paint::Tone(Tone::Muted), false),
    )
}

/// An event in the short log.
pub fn log_event_line(event: &SignalEvent) -> (line: TextLine)
    ensures
        line@ == log_event_line_spec(*event),
{
    line3(
        piece(" ".to_string().concat(event.time.as_str()).concat(" "), Paint::Dim, false),
        piece(centre(event.state.as_str(), 19), Paint::Tone(event.tone), true),
        piece("  ".to_string().concat(event.summary.as_str()), Paint::Tone(Tone::Muted), false),
    )
}

pub open spec fn journal_event_line_spec(event: SignalEvent) -> Seq<Word> {
    row4(
        word(" "@ + event.time@ + " "@, Paint::Dim, false),
        word(centred(compact_label_spec(event.state@, 16), 16), Paint::Tone(event.tone), true),
        word("  │  "@, Paint::Dim, false),
        word(event.summary@, Paint::White, false),
    )
}

/// An event in the journal.
pub fn journal_event_line(event: &SignalEvent) -> (line: TextLine)
    ensures
        line@ == journal_event_line_spec(*event),
{
    line4(
        piece(" ".to_string().concat(event.time.as_str()).concat(" "), Paint::Dim, false),
        piece(
            centre(compact_label(event.state.as_str(), 16).as_str(), 16),
            Paint::Tone(event.tone),
            true,
        ),
        piece("  │  ".to_string(), Paint::Dim, false),
        piece(event.summary.clone(), Paint::White, false),
    )
}

/// The newest events first, from a place on, as many as fit.
pub open spec fn newest_first<T>(events: Seq<T>, skipped: nat, room: nat) -> Seq<T> {
    let left = if events.len() >= skipped {
        (events.len() - skipped) as nat
    } else {
        0
    };
    Seq::new(
        if left <= room {
            left
        } else {
            room
        },
        |i: int| events[events.len() - 1 - skipped - i],
    )
}

/// The lines of the short log: the newest events first, as many as fit.
pub fn signal_log(signals: &VecDeque<SignalEvent>, room: usize) -> (lines: Vec<TextLine>)
    ensures
        lines_of(lines@) == if signals@.len() == 0 || room == 0 {
            no_lines().push(
                row1(
                    word(
                        " waiting for the first classified sample"@,
                        Paint::Tone(Tone::Muted),
                        false,
                    ),
                ),
            )
        } else {
            newest_first(signals@, 0, room as nat).map_values(
                |e: SignalEvent| log_event_line_spec(e),
            )
        },
{
    let mut lines: Vec<TextLine> = Vec::new();
    let count: usize = if signals.len() <= room {
        signals.len()
    } else {
        room
    };
    if count == 0 {
        assert(lines_of(lines@) =~= no_lines());
        push_line(
            &mut lines,
            line1(
                piece(
                    " waiting for the first classified sample".to_string(),
                    Paint::Tone(Tone::Muted),
                    false,
                ),
            ),
        );
        return lines;
    }
    let ghost goal = newest_first(signals@, 0, room as nat).map_values(
        |e: SignalEvent| log_event_line_spec(e),
    );
    assert(lines_of(lines@) =~= goal.take(0));
    for i in 0..count
        invariant
            count <= signals@.len(),
            goal.len() == count,
            goal == newest_first(signals@, 0, room as nat).map_values(
                |e: SignalEvent| log_event_line_spec(e),
            ),
            lines_of(lines@) == goal.take(i as int),
    {
        let line = log_event_line(&signals[signals.len() - 1 - i]);
        assert(goal.take(i + 1) =~= goal.take(i as int).push(line@));
        push_line(&mut lines, line);
    }
    assert(goal.take(count as int) =~= goal);
    lines
}

/// How far a journal is scrolled: never beyond its oldest event.
pub open spec fn journal_position(events: nat, scroll: usize, room: usize) -> nat {
    let most: nat = if events >= room {
        (events - room) as nat
    } else {
        0
    };
    if scroll <= most {
        scroll as nat
    } else {
        most
    }
}

/// A page of the journal.
#[derive(Debug)]
pub struct JournalPage {
    pub title: String,
    pub lines: Vec<TextLine>,
    pub position: usize,
    pub scrollable: bool,
}

/// The title of a page: the filter, and which of the events it shows.
pub open spec fn journal_title(
    filter: JournalFilter,
    position: nat,
    room: usize,
    events: nat,
) -> Seq<char> {
    let end: nat = if position + room <= events {
        (position + room) as nat
    } else {
        events
    };
    "EVENTS · "@ + filter.label_spec() + " · "@ + decimal(
        if events == 0 {
            0
        } else {
            position + 1
        },
    ) + "–"@ + decimal(end) + " of "@ + decimal(events)
}

/// A page of the journal: the newest events first, from where it is scrolled
/// to.
pub fn journal_page(
    shown: &Vec<SignalEvent>,
    filter: JournalFilter,
    scroll: usize,
    room: usize,
) -> (page: JournalPage)
    ensures
        page.position == journal_position(shown@.len(), scroll, room),
        page.title@ == journal_title(filter, page.position as nat, room, shown@.len()),
        page.scrollable == (shown@.len() > room),
        lines_of(page.lines@) == if shown@.len() == 0 || room == 0 {
            no_lines().push(
                row1(
                    word(" waiting for the first recorded event"@, Paint::Tone(Tone::Muted), false),
                ),
            )
        } else {
            newest_first(shown@, page.position as nat, room as nat).map_values(
                |e: SignalEvent| journal_event_line_spec(e),
            )
        },
{
    let events: usize = shown.len();
    let most: usize = if events >= room {
        events - room
    } else {
        0
    };
    let position: usize = if scroll <= most {
        scroll
    } else {
        most
    };
    let end: usize = if room <= events - position {
        position + room
    } else {
        events
    };
    let start: u128 = if events == 0 {
        0
    } else {
        position as u128 + 1
    };
    let title = "EVENTS · ".to_string().concat(filter.label()).concat(" · ").concat(
        place_text(start).as_str(),
    ).concat("–").concat(decimal_text(end as u64).as_str()).concat(" of ").concat(
        decimal_text(events as u64).as_str(),
    );
    let mut lines: Vec<TextLine> = Vec::new();
    let count: usize = end - position;
    if events == 0 || room == 0 {
        assert(lines_of(lines@) =~= no_lines());
        push_line(
            &mut lines,
            line1(
                piece(
                    " waiting for the first recorded event".to_string(),
                    Paint::Tone(Tone::Muted),
                    false,
                ),
            ),
        );
    } else {
        let ghost goal = newest_first(shown@, position as nat, room as nat).map_values(
            |e: SignalEvent| journal_event_line_spec(e),
        );
        assert(lines_of(lines@) =~= goal.take(0));
        for i in 0..count
            invariant
                events == shown@.len(),
                position + count <= events,
                goal.len() == count,
                goal == newest_first(shown@, position as nat, room as nat).map_values(
                    |e: SignalEvent| journal_event_line_spec(e),
                ),
                lines_of(lines@) == goal.take(i as int),
        {
            let line = journal_event_line(&shown[events - 1 - position - i]);
            assert(goal.take(i + 1) =~= goal.take(i as int).push(line@));
            push_line(&mut lines, line);
        }
        assert(goal.take(count as int) =~= goal);
    }
    JournalPage { title, lines, position, scrollable: events > room }
}

fn place_text(n: u128) -> (out: String)
    requires
        n <= 0x1_0000_0000_0000_0000,
    ensures
        out@ == decimal(n as nat),
{
    if n < 10 {
        decimal_text(n as u64)
    } else {
        let mut out = decimal_text((n / 10) as u64);
        let last: u8 = 48 + (n % 10) as u8;
        out.push(last as char);
        out
    }
}

/// A key and what it does.
pub open spec fn hint(key: Seq<char>, label: Seq<char>) -> Seq<Word> {
    seq![
        word(" "@ + key, Paint::White, true),
        word(" "@ + label + "  "@, Paint::Tone(Tone::Muted), false),
    ]
}

pub open spec fn hints_spec(list: Seq<(Seq<char>, Seq<char>)>) -> Seq<Word>
    decreases list.len(),
{
    if list.len() == 0 {
        Seq::empty()
    } else {
        hints_spec(list.drop_last()) + hint(list.last().0, list.last().1)
    }
}

/// The keys that are offered: those of the tab, fewer where the room is narrow.
pub open spec fn offered_keys(tab: usize, compact: bool, paused: bool) -> Seq<
    (Seq<char>, Seq<char>),
> {
    if tab == 0 {
        seq![("p"@, "pause"@), ("↑↓"@, "history"@), ("q"@, "quit"@)]
    } else if tab == 1 && compact {
        seq![("↑↓"@, "select"@), ("/"@, "filter"@), ("q"@, "quit"@)]
    } else if tab == 2 && compact {
        seq![("↑↓"@, "scroll"@), ("f"@, "filter"@), ("q"@, "quit"@)]
    } else if compact {
        seq![("p"@, "pause"@), ("?"@, "help"@), ("q"@, "quit"@)]
    } else if tab == 1 {
        seq![
            ("↑↓"@, "select"@),
            ("s"@, "sort"@),
            ("/"@, "filter"@),
            ("tab"@, "view"@),
            ("?"@, "help"@),
            ("q"@, "quit"@),
        ]
    } else if tab == 2 {
        seq![
            ("↑↓"@, "scroll"@),
            ("f"@, "event filter"@),
            ("tab"@, "view"@),
            ("r"@, "reset"@),
            ("?"@, "help"@),
            ("q"@, "quit"@),
        ]
    } else {
        seq![
            (
                "p"@,
                if paused {
                    "resume"@
                } else {
                    "pause"@
                },
            ),
            ("r"@, "reset"@),
            ("tab"@, "view"@),
            ("+/−"@, "interval"@),
            ("?"@, "help"@),
            ("q"@, "quit"@),
        ]
    }
}

pub open spec fn key_views(list: Seq<(&'static str, &'static str)>) -> Seq<(Seq<char>, Seq<char>)> {
    list.map_values(|k: (&'static str, &'static str)| (k.0@, k.1@))
}

fn keys_for(tab: usize, compact: bool, paused: bool) -> (keys: Vec<(&'static str, &'static str)>)
    ensures
        key_views(keys@) == offered_keys(tab, compact, paused),
{
    let keys: Vec<(&'static str, &'static str)> = if tab == 0 {
        vec![("p", "pause"), ("↑↓", "history"), ("q", "quit")]
    } else if tab == 1 && compact {
        vec![("↑↓", "select"), ("/", "filter"), ("q", "quit")]
    } else if tab == 2 && compact {
        vec![("↑↓", "scroll"), ("f", "filter"), ("q", "quit")]
    } else if compact {
        vec![("p", "pause"), ("?", "help"), ("q", "quit")]
    } else if tab == 1 {
        vec![
            ("↑↓", "select"),
            ("s", "sort"),
            ("/", "filter"),
            ("tab", "view"),
            ("?", "help"),
            ("q", "quit"),
        ]
    } else if tab == 2 {
        vec![
            ("↑↓", "scroll"),
            ("f", "event filter"),
            ("tab", "view"),
            ("r", "reset"),
            ("?", "help"),
            ("q", "quit"),
        ]
    } else {
        vec![
            (
                "p",
                if paused {
                    "resume"
                } else {
                    "pause"
                },
            ),
            ("r", "reset"),
            ("tab", "view"),
            ("+/−", "interval"),
            ("?", "help"),
            ("q", "quit"),
        ]
    };
    assert(key_views(keys@) =~= offered_keys(tab, compact, paused));
    keys
}

/// The keys that are offered in a tab and a width.
pub fn control_hints(tab: usize, width: u16, paused: bool) -> (line: TextLine)
    ensures
        line@ == hints_spec(offered_keys(tab, width < 60, paused)),
{
    let keys = keys_for(tab, width < 60, paused);
    let ghost all = key_views(keys@);
    let mut pieces: Vec<Piece> = Vec::new();
    let ghost words = pieces@.map_values(|p: Piece| p@);
    assert(words =~= hints_spec(all.take(0)));
    for i in 0..keys.len()
        invariant
            all == key_views(keys@),
            pieces@.map_values(|p: Piece| p@) == hints_spec(all.take(i as int)),
    {
        let (key, label) = keys[i];
        let ghost before = pieces@;
        proof {
            assert(all.take(i + 1).drop_last() =~= all.take(i as int));
            assert(all.take(i + 1).last() == (key@, label@));
        }
        pieces.push(piece(" ".to_string().concat(key), Paint::White, true));
        pieces.push(
            piece(
                " ".to_string().concat(label).concat("  "),
                Paint::Tone(Tone::Muted),
                false,
            ),
        );
        assert(pieces@.map_values(|p: Piece| p@) =~= before.map_values(|p: Piece| p@) + hint(
            key@,
            label@,
        ));
    }
    assert(all.take(all.len() as int) =~= all);
    TextLine { pieces }
}

/// How much of a process is listed, from the least to the most.
#[derive(Clone, Copy, Debug, PartialEq, Eq, Structural)]
pub enum TableMode {
    Narrow,
    Medium,
    Wide,
}

pub open spec fn table_mode_spec(width: u16) -> TableMode {
    if width >= 150 {
        TableMode::Wide
    } else if width >= 95 {
        TableMode::Medium
    } else {
        TableMode::Narrow
    }
}

/// How much of a process is listed in a width.
pub fn table_mode(width: u16) -> (result: TableMode)
    ensures
        result == table_mode_spec(width),
{
    if width >= 150 {
        TableMode::Wide
    } else if width >= 95 {
        TableMode::Medium
    } else {
        TableMode::Narrow
    }
}

/// The rows that are in view: the selected one, the first one and how many fit.
pub open spec fn selected_row(listed: nat, wanted: usize) -> nat {
    if listed == 0 {
        0
    } else if wanted < listed {
        wanted as nat
    } else {
        (listed - 1) as nat
    }
}

pub open spec fn visible_rows(height: u16) -> nat {
    if height > 3 {
        (height - 3) as nat
    } else {
        1
    }
}

pub open spec fn first_row(listed: nat, selected: nat, visible: nat) -> nat {
    let wanted: nat = if selected + 1 >= visible {
        (selected + 1 - visible) as nat
    } else {
        0
    };
    let last: nat = if listed >= visible {
        (listed - visible) as nat
    } else {
        0
    };
    if wanted <= last {
        wanted
    } else {
        last
    }
}

/// The rows of a table that are in view.
#[derive(Clone, Copy, Debug, PartialEq, Eq, Structural)]
pub struct Window {
    pub selected: usize,
    pub start: usize,
    pub visible: usize,
}

/// The rows of a table in a height, with the selected one among them.
pub fn table_window(listed: usize, wanted: usize, height: u16) -> (window: Window)
    ensures
        window.selected == selected_row(listed as nat, wanted),
        window.visible == visible_rows(height),
        window.start == first_row(listed as nat, window.selected as nat, window.visible as nat),
{
    let selected: usize = if listed == 0 {
        0
    } else if wanted < listed {
        wanted
    } else {
        listed - 1
    };
    let visible: usize = if height > 3 {
        (height - 3) as usize
    } else {
        1
    };
    let place: usize = if selected >= visible - 1 {
        selected - (visible - 1)
    } else {
        0
    };
    let last: usize = if listed >= visible {
        listed - visible
    } else {
        0
    };
    let start: usize = if place <= last {
        place
    } else {
        last
    };
    Window { selected, start, visible }
}

/// The selected process is always in view.
pub proof fn the_selected_row_is_in_view(listed: nat, wanted: usize, height: u16)
    requires
        listed > 0,
    ensures
        ({
            let selected = selected_row(listed, wanted);
            let visible = visible_rows(height);
            let start = first_row(listed, selected, visible);
            start <= selected < start + visible && selected < listed
        }),
{
}

/// The name of a process, and its command where that says more.
pub open spec fn process_label(process: LlmProcess) -> Seq<char> {
    if process.command@ == process.name@ {
        process.name@
    } else {
        process.name@ + " "@ + process.command@
    }
}

fn label_of(process: &LlmProcess) -> (out: String)
    ensures
        out@ == process_label(*process),
{
    if same(process.command.as_str(), process.name.as_str()) {
        process.name.clone()
    } else {
        process.name.clone().concat(" ").concat(process.command.as_str())
    }
}

/// The share of the memory as a whole percentage.
pub open spec fn memory_share(value: Binary64) -> u64 {
    if value.nan_spec() || value.negative_spec() {
        0
    } else {
        value.rounded_part() as u64
    }
}

pub open spec fn share_tone(process: LlmProcess, thresholds: Thresholds) -> Tone {
    match process.memory_percent {
        Some(value) => ChartMetric::Memory.tone_spec(memory_share(value), thresholds),
        None => Tone::Muted,
    }
}

fn tone_of_share(process: &LlmProcess, thresholds: Thresholds) -> (result: Tone)
    ensures
        result == share_tone(*process, thresholds),
{
    match process.memory_percent {
        Some(value) => {
            let share: u64 = if value.is_nan() || value.is_negative() {
                0
            } else {
                value.rounded()
            };
            ChartMetric::Memory.tone(share, thresholds)
        },
        None => Tone::Muted,
    }
}

pub open spec fn pagein_text(process: LlmProcess) -> Seq<char> {
    match process.pagein_rate {
        Some(value) => value.fixed_spec(1),
        None => "—"@,
    }
}

fn text_of_pageins(process: &LlmProcess) -> (out: String)
    ensures
        out@ == pagein_text(*process),
{
    match process.pagein_rate {
        Some(value) => value.fixed(1),
        None => "—".to_string(),
    }
}

pub open spec fn state_text(process: LlmProcess) -> Seq<char> {
    if process.state@ == "?"@ {
        "—"@
    } else {
        compact_label_spec(process.state@, 7)
    }
}

fn text_of_state(process: &LlmProcess) -> (out: String)
    ensures
        out@ == state_text(*process),
{
    if same(process.state.as_str(), "?") {
        "—".to_string()
    } else {
        compact_label(process.state.as_str(), 7)
    }
}

/// The cell with the state of the server.
pub open spec fn status_cell(sample: Sample) -> Word {
    word(
        " "@ + compact_label_spec(upper(sample.llm_status@), 10) + " "@,
        Paint::Badge(llm_status_tone_spec(sample.llm_status@)),
        true,
    )
}

fn cell_of_status(sample: &Sample) -> (result: Piece)
    ensures
        result@ == status_cell(*sample),
{
    let status = to_upper(sample.llm_status.as_str());
    let label = compact_label(status.as_str(), 10);
    piece(
        " ".to_string().concat(label.as_str()).concat(" "),
        Paint::Badge(llm_status_tone(sample.llm_status.as_str())),
        true,
    )
}

pub open spec fn plain(text: Seq<char>) -> Word {
    word(text, Paint::Plain, false)
}

fn plain_piece(text: String) -> (result: Piece)
    ensures
        result@ == plain(text@),
{
    piece(text, Paint::Plain, false)
}

/// The cells of a process: the wider the table, the more of them.
pub open spec fn process_cells_spec(
    process: LlmProcess,
    sample: Sample,
    thresholds: Thresholds,
    mode: TableMode,
) -> Seq<Word> {
    match mode {
        TableMode::Wide => seq![
            plain(decimal(process.pid as nat)),
            plain(compact_label_spec(process_label(process), 34)),
            plain(process.cpu.fixed_spec(1) + "%"@),
            word(
                percent_spec(process.memory_percent),
                Paint::Tone(share_tone(process, thresholds)),
                false,
            ),
            plain(bytes_spec(process.rss)),
            plain(pagein_text(process)),
            plain(state_text(process)),
            status_cell(sample),
            plain(compact_label_spec(sample.llm_model@, 24)),
        ],
        TableMode::Medium => seq![
            plain(decimal(process.pid as nat)),
            plain(compact_label_spec(process_label(process), 28)),
            plain(process.cpu.fixed_spec(1) + "%"@),
            plain(bytes_spec(process.rss)),
            plain(pagein_text(process)),
            status_cell(sample),
            plain(compact_label_spec(sample.llm_model@, 20)),
        ],
        TableMode::Narrow => seq![
            plain(decimal(process.pid as nat)),
            plain(compact_label_spec(process_label(process), 28)),
            plain(process.cpu.fixed_spec(1) + "%"@),
            plain(bytes_spec(process.rss)),
            status_cell(sample),
        ],
    }
}

/// The cells of a process.
pub fn process_cells(
    process: &LlmProcess,
    sample: &Sample,
    thresholds: Thresholds,
    mode: TableMode,
) -> (row: TextLine)
    ensures
        row@ == process_cells_spec(*process, *sample, thresholds, mode),
{
    let pid = plain_piece(decimal_text(process.pid as u64));
    let wide = mode == TableMode::Wide;
    let label = compact_label(
        label_of(process).as_str(),
        if wide {
            34
        } else {
            28
        },
    );
    let name = plain_piece(label);
    let cpu = plain_piece(process.cpu.fixed(1).concat("%"));
    let rss = plain_piece(bytes(process.rss));
    let pageins = plain_piece(text_of_pageins(process));
    let status = cell_of_status(sample);
    let pieces: Vec<Piece> = match mode {
        TableMode::Wide => {
            let share = piece(
                percent(process.memory_percent),
                Paint::Tone(tone_of_share(process, thresholds)),
                false,
            );
            let state = plain_piece(text_of_state(process));
            let model = plain_piece(compact_label(sample.llm_model.as_str(), 24));
            vec![pid, name, cpu, share, rss, pageins, state, status, model]
        },
        TableMode::Medium => {
            let model = plain_piece(compact_label(sample.llm_model.as_str(), 20));
            vec![pid, name, cpu, rss, pageins, status, model]
        },
        TableMode::Narrow => {
            vec![pid, name, cpu, rss, status]
        },
    };
    let row = TextLine { pieces };
    assert(row@ =~= process_cells_spec(*process, *sample, thresholds, mode));
    row
}

pub open spec fn table_headers_spec(mode: TableMode) -> Seq<Seq<char>> {
    match mode {
        TableMode::Wide => seq![
            "PID"@,
            "PROCESS / COMMAND"@,
            "CPU"@,
            "MEM%"@,
            "RSS"@,
            "PAGEIN/s"@,
            "OS"@,
            "LLM STATE"@,
            "MODEL"@,
        ],
        TableMode::Medium => seq![
            "PID"@,
            "PROCESS"@,
            "CPU"@,
            "RSS"@,
            "PAGEIN/s"@,
            "STATE"@,
            "MODEL"@,
        ],
        TableMode::Narrow => seq!["PID"@, "PROCESS"@, "CPU"@, "RSS"@, "STATE"@],
    }
}

/// The headers of the table.
pub fn table_headers(mode: TableMode) -> (headers: Vec<&'static str>)
    ensures
        strs(headers@) == table_headers_spec(mode),
{
    let headers: Vec<&'static str> = match mode {
        TableMode::Wide => vec![
            "PID",
            "PROCESS / COMMAND",
            "CPU",
            "MEM%",
            "RSS",
            "PAGEIN/s",
            "OS",
            "LLM STATE",
            "MODEL",
        ],
        TableMode::Medium => vec!["PID", "PROCESS", "CPU", "RSS", "PAGEIN/s", "STATE", "MODEL"],
        TableMode::Narrow => vec!["PID", "PROCESS", "CPU", "RSS", "STATE"],
    };
    assert(strs(headers@) =~= table_headers_spec(mode));
    headers
}

/// What stands in an empty table.
pub fn empty_table_text(filter: &str) -> (result: &'static str)
    ensures
        result@ == if filter@.len() > 0 {
            "No process matches this filter"@
        } else {
            "No local LLM process; provider telemetry may still be live"@
        },
{
    if !filter.is_empty() {
        "No process matches this filter"
    } else {
        "No local LLM process; provider telemetry may still be live"
    }
}

/// The title of the table: the column, and which of the processes it shows.
pub open spec fn table_title_spec(column: TopSort, window: Window, listed: usize) -> Seq<char> {
    let end: int = if window.start + window.visible <= listed {
        window.start + window.visible
    } else {
        listed as int
    };
    "LLM PROCESSES · SORT "@ + column.label_spec() + " · "@ + decimal(
        if listed == 0 {
            0
        } else {
            (window.start + 1) as nat
        },
    ) + "–"@ + decimal(end as nat) + " of "@ + decimal(listed as nat)
}

/// The title of the table.
pub fn table_title(column: TopSort, window: Window, listed: usize) -> (out: String)
    ensures
        out@ == table_title_spec(column, window, listed),
{
    let last: u128 = window.start as u128 + window.visible as u128;
    let end: u64 = if last <= listed as u128 {
        last as u64
    } else {
        listed as u64
    };
    let start: u128 = if listed == 0 {
        0
    } else {
        window.start as u128 + 1
    };
    "LLM PROCESSES · SORT ".to_string().concat(column.label()).concat(" · ").concat(
        place_text(start).as_str(),
    ).concat("–").concat(decimal_text(end).as_str()).concat(" of ").concat(
        decimal_text(listed as u64).as_str(),
    )
}

/// Whether a sample was taken and yet the machine's memory is not known.
pub fn counters_are_missing(sample: &Sample) -> (result: bool)
    ensures
        result == (sample.total_memory == 0 && sample.updated@ != "waiting"@),
{
    sample.total_memory == 0 && !same(sample.updated.as_str(), "waiting")
}


/// The cell under a header holds what the header names, however broad the table.
pub proof fn cells_stand_under_their_headers(
    process: LlmProcess,
    sample: Sample,
    thresholds: Thresholds,
    mode: TableMode,
    at: int,
)
    requires
        0 <= at < table_headers_spec(mode).len(),
    ensures
        ({
            let header = table_headers_spec(mode)[at];
            let cells = process_cells_spec(process, sample, thresholds, mode);
            &&& cells.len() == table_headers_spec(mode).len()
            &&& header == "PID"@ ==> cells[at].text == decimal(process.pid as nat)
            &&& header == "CPU"@ ==> cells[at].text == process.cpu.fixed_spec(1) + "%"@
            &&& header == "MEM%"@ ==> cells[at].text == percent_spec(process.memory_percent)
            &&& header == "RSS"@ ==> cells[at].text == bytes_spec(process.rss)
            &&& header == "PAGEIN/s"@ ==> (process.pagein_rate matches Some(rate)
                ==> cells[at].text == rate.fixed_spec(1))
            &&& header == "PAGEIN/s"@ && process.pagein_rate is None ==> cells[at].text == "—"@
            &&& header == "STATE"@ || header == "LLM STATE"@ ==> cells[at].paint == Paint::Badge(
                llm_status_tone_spec(sample.llm_status@),
            )
            &&& header == "MODEL"@ ==> exists|width: nat| #[trigger]
                compact_label_spec(sample.llm_model@, width) == cells[at].text
        }),
{
    reveal_strlit("PID");
    reveal_strlit("PROCESS / COMMAND");
    reveal_strlit("PROCESS");
    reveal_strlit("CPU");
    reveal_strlit("MEM%");
    reveal_strlit("RSS");
    reveal_strlit("PAGEIN/s");
    reveal_strlit("OS");
    reveal_strlit("LLM STATE");
    reveal_strlit("STATE");
    reveal_strlit("MODEL");
    assert("PID"@[0] == 'P' && "CPU"@[0] == 'C' && "RSS"@[0] == 'R');
    assert("STATE"@[0] == 'S' && "MODEL"@[0] == 'M');
    assert("PID"@.len() == 3 && "CPU"@.len() == 3 && "RSS"@.len() == 3 && "OS"@.len() == 2);
    assert("MEM%"@.len() == 4 && "STATE"@.len() == 5 && "MODEL"@.len() == 5);
    assert("PROCESS / COMMAND"@.len() == 17 && "PROCESS"@.len() == 7);
    assert("PAGEIN/s"@.len() == 8 && "LLM STATE"@.len() == 9);
    let cells = process_cells_spec(process, sample, thresholds, mode);
    let headers = table_headers_spec(mode);
    match mode {
        TableMode::Wide => {
            assert(cells[8].text == compact_label_spec(sample.llm_model@, 24));
            assert(at == 0 || at == 1 || at == 2 || at == 3 || at == 4 || at == 5 || at == 6 || at
                == 7 || at == 8);
            assert(headers[0] == "PID"@ && headers[1] == "PROCESS / COMMAND"@ && headers[2]
                == "CPU"@ && headers[3] == "MEM%"@ && headers[4] == "RSS"@ && headers[5]
                == "PAGEIN/s"@ && headers[6] == "OS"@ && headers[7] == "LLM STATE"@ && headers[8]
                == "MODEL"@);
        },
        TableMode::Medium => {
            assert(cells[6].text == compact_label_spec(sample.llm_model@, 20));
        },
        TableMode::Narrow => {},
    }
}

/// A card's gauge says what its headline says: how much of the memory is taken,
/// how busy the GPU is, and how full the swap area is. Where that is not known
/// there is no gauge.
pub proof fn gauges_go_with_their_cards(sample: Sample, thresholds: Thresholds, width: usize)
    ensures
        sample.availability matches Some(free) ==> free <= 100 ==> {
            let card = memory_card_spec(sample, thresholds, width);
            &&& card.gauge matches Some(gauge) && gauge.0 == 100 - free && gauge.1 == decimal(
                (100 - free) as nat,
            ) + "%"@
            &&& carries(card.headline[0].text, decimal((100 - free) as nat) + "% load"@)
            &&& carries(card.headline[1].text, decimal(free as nat) + "% free"@)
        },
        sample.availability is None ==> memory_card_spec(sample, thresholds, width).gauge is None,
        sample.gpu_util matches Some(load) ==> {
            let card = gpu_card_spec(sample, thresholds, width);
            &&& card.gauge matches Some(gauge) && gauge.0 == load && gauge.1 == decimal(load as nat)
                + "%"@
            &&& carries(card.headline[0].text, decimal(load as nat) + "% busy"@)
        },
        sample.gpu_util is None ==> gpu_card_spec(sample, thresholds, width).gauge is None,
        sample.swap_available && sample.swap_total > 0 && sample.swap_used <= sample.swap_total
            && sample.swap_total * 100 <= u64::MAX ==> {
            let card = paging_card_spec(sample, thresholds, width);
            &&& card.gauge matches Some(gauge) && gauge.0 <= 100 && gauge.0 * sample.swap_total
                <= sample.swap_used * 100 && sample.swap_used * 100 < (gauge.0 + 1)
                * sample.swap_total
        },
        !sample.swap_available ==> paging_card_spec(sample, thresholds, width).gauge is None,
{
    if let Some(free) = sample.availability {
        if free <= 100 {
            let load = decimal((100 - free) as nat) + "% load"@;
            texts_carry_their_start(load, load);
            let share = decimal(free as nat);
            texts_carry_their_parts("  ·  "@, share, "% free"@);
        }
    }
    if let Some(load) = sample.gpu_util {
        let busy = decimal(load as nat) + "% busy"@;
        texts_carry_their_start(busy, busy);
    }
    if sample.swap_total > 0 && sample.swap_used <= sample.swap_total && sample.swap_total * 100
        <= u64::MAX {
        let total = sample.swap_total as int;
        let n = sample.swap_used * 100;
        assert(product_spec(sample.swap_used, 100) == n);
        vstd::arithmetic::div_mod::lemma_fundamental_div_mod(n, total);
        let share = n / total;
        let left = n % total;
        assert(share <= 100 && share * total <= n && n < (share + 1) * total) by (nonlinear_arith)
            requires
                n == total * share + left,
                0 <= left < total,
                n <= 100 * total,
        ;
        assert(share >= 0) by (nonlinear_arith)
            requires
                n == total * share + left,
                0 <= left < total,
                0 <= n,
        ;
    }
}

/// The card on paging says what is paged in and what is paged out under their own
/// names, and both together in its headline. What was not measured is not said.
pub proof fn paging_cards_say_each_way(sample: Sample, thresholds: Thresholds, width: usize)
    ensures
        paging_measured_spec(sample) ==> {
            let card = paging_card_spec(sample, thresholds, width);
            &&& card.headline[0].text == rate_spec(total_spec(sample.swap_in, sample.swap_out))
            &&& exists|line: Seq<char>| #[trigger]
                compact_label_spec(line, width as nat) == card.details[0].text && carries(
                    line,
                    "IN "@ + rate_spec(sample.swap_in),
                ) && carries(line, " · OUT "@ + rate_spec(sample.swap_out)) && carries(
                    line,
                    " · COMP "@ + rate_spec(total_spec(sample.compress, sample.decompress)),
                )
        },
        !paging_measured_spec(sample) ==> paging_card_spec(
            sample,
            thresholds,
            width,
        ).headline[0].text == "—"@,
        paging_label_spec(sample) == "ACTIVE"@ <==> paging_measured_spec(sample) && (sample.swap_in
            > 0 || sample.swap_out > 0),
        paging_label_spec(sample) == "IDLE"@ <==> paging_measured_spec(sample) && sample.swap_in
            == 0 && sample.swap_out == 0,
{
    reveal_strlit("ACTIVE");
    reveal_strlit("IDLE");
    reveal_strlit("SAMPLING");
    reveal_strlit("UNAVAILABLE");
    assert("ACTIVE"@.len() == 6 && "IDLE"@.len() == 4);
    assert("SAMPLING"@.len() == 8 && "UNAVAILABLE"@.len() == 11);
    let a = rate_spec(sample.swap_in);
    let b = rate_spec(sample.swap_out);
    let c = rate_spec(total_spec(sample.compress, sample.decompress));
    let s = "IN "@ + a;
    texts_carry_their_start(s, s);
    texts_carry_their_parts(s, " · OUT "@, b);
    let line = s + " · OUT "@ + b + " · COMP "@ + c;
    texts_carry_their_parts(s + " · OUT "@ + b, " · COMP "@, c);
    let card = paging_card_spec(sample, thresholds, width);
    if paging_measured_spec(sample) {
        assert(compact_label_spec(line, width as nat) == card.details[0].text);
    }
}

/// A card takes its tone from its own levels: memory that is short shows the
/// pressure, and else its load; the GPU its load; paging both ways together.
pub proof fn cards_have_the_tone_of_their_own_levels(sample: Sample, thresholds: Thresholds)
    ensures
        sample.pressure_tone == Tone::Red ==> memory_tone_spec(sample, thresholds) == Tone::Red,
        sample.pressure_tone == Tone::Yellow ==> memory_tone_spec(sample, thresholds)
            == Tone::Yellow,
        sample.pressure_tone == Tone::Green ==> (sample.availability matches Some(free) ==> free
            <= 100 ==> 100 - free >= thresholds.memory_critical_load ==> memory_tone_spec(
            sample,
            thresholds,
        ) == Tone::Red),
        sample.pressure_tone == Tone::Green ==> (sample.availability matches Some(free) ==> free
            <= 100 ==> 100 - free < thresholds.memory_warn_load && 100 - free
            < thresholds.memory_critical_load ==> memory_tone_spec(sample, thresholds)
            == Tone::Green),
        sample.gpu_util matches Some(load) ==> load >= thresholds.gpu_critical_load
            ==> gpu_tone_spec(sample, thresholds) == Tone::Red,
        sample.gpu_util matches Some(load) ==> load < thresholds.gpu_warn_load && load
            < thresholds.gpu_critical_load ==> gpu_tone_spec(sample, thresholds) == Tone::Green,
        sample.gpu_util is None ==> gpu_tone_spec(sample, thresholds) == Tone::Muted,
        paging_measured_spec(sample) && (sample.swap_in >= thresholds.swap_critical_rate
            || sample.swap_out >= thresholds.swap_critical_rate) ==> paging_tone_spec(
            sample,
            thresholds,
        ) == Tone::Red,
        paging_measured_spec(sample) && sample.swap_in == 0 && sample.swap_out == 0
            && thresholds.swap_warn_rate > 0 && thresholds.swap_critical_rate > 0
            ==> paging_tone_spec(sample, thresholds) == Tone::Green,
        !paging_measured_spec(sample) ==> paging_tone_spec(sample, thresholds) == Tone::Muted,
{
}

/// Events are shown from the newest on: all of them in reverse where there is
/// room, and one scrolled past leaves the rest as it was.
pub proof fn events_are_shown_from_the_newest<T>(events: Seq<T>, skipped: nat, room: nat)
    ensures
        room >= events.len() ==> newest_first(events, 0, room) == events.reverse(),
        skipped < events.len() && room > 0 ==> newest_first(events, skipped, room).len() > 0
            && newest_first(events, skipped, room).drop_first() == newest_first(
            events,
            skipped + 1,
            (room - 1) as nat,
        ),
        skipped < events.len() && room > 0 ==> newest_first(events, skipped, room)[0]
            == events[events.len() - 1 - skipped],
        newest_first(events, skipped, room).len() <= room,
{
    if room >= events.len() {
        assert(newest_first(events, 0, room) =~= events.reverse());
    }
    if skipped < events.len() && room > 0 {
        assert(newest_first(events, skipped, room).drop_first() =~= newest_first(
            events,
            skipped + 1,
            (room - 1) as nat,
        ));
    }
}

/// A queue is shown with what is active and what is waiting under their names, and
/// the memory of a GPU with what is used before what is allocated.
pub proof fn queues_and_devices_say_their_figures(sample: Sample)
    ensures
        queue_line_spec(sample).len() == 2,
        carries(
            queue_line_spec(sample)[0].text,
            "active "@ + count_spec(sample.llm_active_requests),
        ),
        carries(
            queue_line_spec(sample)[1].text,
            "waiting "@ + count_spec(sample.llm_waiting_requests),
        ),
        sample.gpu_in_use matches Some(used) ==> (sample.gpu_alloc matches Some(allocated)
            ==> gpu_memory_spec(sample) == bytes_spec(used) + " / "@ + bytes_spec(allocated)),
        sample.gpu_in_use is None ==> gpu_memory_spec(sample) == "not exposed"@,
{
    let active = "active "@ + count_spec(sample.llm_active_requests);
    texts_carry_their_start(active, active);
    let waiting = " · waiting "@ + count_spec(sample.llm_waiting_requests);
    reveal_strlit(" · waiting ");
    reveal_strlit("waiting ");
    let mark = " · "@;
    reveal_strlit(" · ");
    assert(" · waiting "@ =~= mark + "waiting "@);
    texts_carry_their_parts(mark, "waiting "@, count_spec(sample.llm_waiting_requests));
    assert(mark + "waiting "@ + count_spec(sample.llm_waiting_requests) == waiting);
}

/// The card on the cache says what was found in it and the hits under their own
/// names, and what is active before what is waiting.
pub proof fn cache_cards_say_their_own_figures(sample: Sample, width: usize)
    ensures
        ({
            let card = cache_card_spec(sample, width);
            &&& card.headline[0].text == "CACHE "@ + percent_spec(sample.llm_cache_efficiency)
            &&& card.headline[1].text == "  ·  HIT "@ + percent_spec(sample.llm_prefix_hit_rate)
            &&& card.gauge is Some <==> sample.llm_cache_efficiency is Some
            &&& exists|line: Seq<char>| #[trigger]
                compact_label_spec(line, width as nat) == card.details[0].text && carries(
                    line,
                    "REQ "@ + count_spec(sample.llm_active_requests) + "/"@ + count_spec(
                        sample.llm_waiting_requests,
                    ),
                ) && carries(line, " · CONTEXT "@ + llm_context_label_spec(sample))
        }),
{
    let card = cache_card_spec(sample, width);
    let s = "REQ "@ + count_spec(sample.llm_active_requests) + "/"@ + count_spec(
        sample.llm_waiting_requests,
    );
    texts_carry_their_start(s, s);
    texts_carry_their_parts(s, " · CONTEXT "@, llm_context_label_spec(sample));
    let line = s + " · CONTEXT "@ + llm_context_label_spec(sample);
    assert(compact_label_spec(line, width as nat) == card.details[0].text);
}

/// The card on throughput says the rate of generation before that of reading, the
/// tokens that went in and those that came out under their names, and what is
/// known of the cache.
pub proof fn throughput_cards_say_their_own_figures(sample: Sample)
    ensures
        ({
            let lines = throughput_card_spec(sample).lines;
            &&& lines.len() >= 3
            &&& lines[0][0].text == llm_generation_rate_label_spec(sample)
            &&& lines[0][2].text == llm_prefill_rate_label_spec(sample)
            &&& carries(
                lines[1][0].text,
                "PROMPT "@ + optional_tokens_spec(sample.llm_prompt_tokens),
            )
            &&& carries(
                lines[1][0].text,
                " · OUT "@ + optional_tokens_spec(sample.llm_output_tokens),
            )
            &&& carries(lines[1][0].text, " · CONTEXT "@ + llm_context_label_spec(sample))
            &&& carries(lines[2][0].text, "CACHE "@ + percent_spec(sample.llm_cache_efficiency))
            &&& carries(lines[2][0].text, " · HIT "@ + percent_spec(sample.llm_prefix_hit_rate))
            &&& carries(lines[2][0].text, " · REQ "@ + count_spec(sample.llm_active_requests))
            &&& carries(lines[2][0].text, "/"@ + count_spec(sample.llm_waiting_requests))
            &&& lines.len() == if sample.process_memory is Some {
                5
            } else {
                3int
            }
        }),
{
    let lines = throughput_card_spec(sample).lines;
    let s0 = "PROMPT "@ + optional_tokens_spec(sample.llm_prompt_tokens);
    texts_carry_their_start(s0, s0);
    let s1 = s0 + " · OUT "@ + optional_tokens_spec(sample.llm_output_tokens);
    texts_carry_their_parts(s0, " · OUT "@, optional_tokens_spec(sample.llm_output_tokens));
    let s2 = s1 + " · CONTEXT "@ + llm_context_label_spec(sample);
    texts_carry_their_parts(s1, " · CONTEXT "@, llm_context_label_spec(sample));
    assert(lines[1][0].text == s2);
    let t0 = "CACHE "@ + percent_spec(sample.llm_cache_efficiency);
    texts_carry_their_start(t0, t0);
    let t1 = t0 + " · HIT "@ + percent_spec(sample.llm_prefix_hit_rate);
    texts_carry_their_parts(t0, " · HIT "@, percent_spec(sample.llm_prefix_hit_rate));
    let t2 = t1 + " · REQ "@ + count_spec(sample.llm_active_requests);
    texts_carry_their_parts(t1, " · REQ "@, count_spec(sample.llm_active_requests));
    let t3 = t2 + "/"@ + count_spec(sample.llm_waiting_requests);
    texts_carry_their_parts(t2, "/"@, count_spec(sample.llm_waiting_requests));
    assert(lines[2][0].text == t3);
}

/// The memory of a process is shown with its own figures: whose it is, what it
/// takes now, and the most that it took.
pub proof fn processes_are_shown_with_their_own_memory(sample: Sample)
    ensures
        sample.process_memory matches Some(memory) ==> {
            let lines = process_memory_lines_spec(sample);
            &&& lines.len() == 2
            &&& carries(lines[0][0].text, "PROCESS "@ + decimal(memory.pid as nat))
            &&& carries(lines[0][0].text, " · footprint "@ + bytes_spec(memory.footprint))
            &&& carries(lines[1][0].text, "peak "@ + bytes_spec(memory.peak))
            &&& sample.process_memory_growth matches Some(growth) ==> carries(
                lines[1][0].text,
                " · growth "@ + signed_rate_spec(growth),
            )
        },
        sample.process_memory is None ==> process_memory_lines_spec(sample).len() == 0,
{
    if let Some(memory) = sample.process_memory {
        let lines = process_memory_lines_spec(sample);
        let s0 = "PROCESS "@ + decimal(memory.pid as nat);
        texts_carry_their_start(s0, s0);
        texts_carry_their_parts(s0, " · footprint "@, bytes_spec(memory.footprint));
        assert(lines[0][0].text == s0 + " · footprint "@ + bytes_spec(memory.footprint));
        let growth = match sample.process_memory_growth {
            Some(growth) => signed_rate_spec(growth),
            None => "—"@,
        };
        let t0 = "peak "@ + bytes_spec(memory.peak);
        texts_carry_their_start(t0, t0);
        let t1 = t0 + " · growth "@ + growth;
        texts_carry_their_parts(t0, " · growth "@, growth);
        texts_carry_their_parts(t1, " · OS"@, Seq::empty());
        assert(lines[1][0].text =~= t1 + " · OS"@ + Seq::<char>::empty());
    }
}

/// An event of the journal is shown with its own time, state, tone and summary.
pub proof fn events_are_shown_as_they_are(event: SignalEvent)
    ensures
        ({
            let line = journal_event_line_spec(event);
            &&& carries(line[0].text, event.time@)
            &&& event.state@.len() <= 16 ==> carries(line[1].text, event.state@)
            &&& line[1].paint == Paint::Tone(event.tone)
            &&& line[3].text == event.summary@
        }),
        ({
            let line = log_event_line_spec(event);
            &&& carries(line[0].text, event.time@)
            &&& carries(line[1].text, event.state@)
            &&& line[1].paint == Paint::Tone(event.tone)
            &&& carries(line[2].text, event.summary@)
        }),
{
    lemma_carried_within(" "@, event.time@, " "@);
    lemma_centred(event.state@, 16);
    lemma_centred(event.state@, 19);
    lemma_carried_within("  "@, event.summary@, Seq::empty());
    assert("  "@ + event.summary@ + Seq::<char>::empty() =~= "  "@ + event.summary@);
}

proof fn lemma_carried_within(before: Seq<char>, s: Seq<char>, after: Seq<char>)
    ensures
        carries(before + s + after, s),
{
    let i = before.len() as int;
    assert((before + s + after).subrange(i, i + s.len()) =~= s);
}

proof fn lemma_centred(label: Seq<char>, width: nat)
    ensures
        carries(centred(label, width), label),
{
    if label.len() >= width {
        texts_carry_their_start(label, label);
    } else {
        let spare = (width - label.len()) as nat;
        lemma_carried_within(
            spaces_spec(spare / 2),
            label,
            spaces_spec((spare - spare / 2) as nat),
        );
    }
}

proof fn lemma_badge(icon: Seq<char>, name: Seq<char>)
    ensures
        carries(" "@ + (icon + " "@ + name) + " "@, name),
{
    let before = " "@ + (icon + " "@);
    lemma_carried_within(before, name, " "@);
    assert(" "@ + (icon + " "@ + name) + " "@ =~= before + name + " "@);
}

proof fn lemma_indented(
    indent: Seq<char>,
    first: Seq<char>,
    mark: Seq<char>,
    second: Seq<char>,
    end: Seq<char>,
)
    ensures
        carries(indent + (first + mark + second + end), mark + second + end),
        carries(indent + (first + mark + second + end), first),
        carries(indent + first, first),
{
    let line = indent + (first + mark + second + end);
    let part = mark + second + end;
    let i = (indent.len() + first.len()) as int;
    assert(line.subrange(i, i + part.len()) =~= part);
    let k = indent.len() as int;
    assert(line.subrange(k, k + first.len()) =~= first);
    assert((indent + first).subrange(k, k + first.len()) =~= first);
}

proof fn lemma_shares(start: Seq<char>, cpu: Seq<char>)
    ensures
        carries(start + " · CPU "@ + cpu + "%"@, start),
        carries(start + " · CPU "@ + cpu + "%"@, " · CPU "@ + cpu),
{
    texts_carry_their_start(start, start);
    let s = start + " · CPU "@ + cpu;
    texts_carry_their_parts(start, " · CPU "@, cpu);
    texts_carry_their_parts(s, "%"@, Seq::empty());
    assert(s + "%"@ + Seq::<char>::empty() =~= s + "%"@);
}

/// The card on the model says its state in the tone of the state, the score of the
/// machine, and what its processes take.
pub proof fn model_cards_say_their_own_figures(sample: Sample, width: usize, now: u64)
    ensures
        ({
            let card = model_card_spec(sample, width, now);
            &&& card.tone == llm_status_tone_spec(sample.llm_status@)
            &&& carries(card.lines[0][0].text, upper(sample.llm_status@))
            &&& sample.health matches Some(score) ==> carries(
                card.lines[0][1].text,
                " · "@ + decimal(score as nat) + "/100"@,
            )
            &&& carries(card.lines[0][1].text, sample.grade@)
            &&& sample.llm_count > 0 ==> exists|line: Seq<char>| #[trigger]
                compact_label_spec(line, width as nat) == card.lines[2][0].text && carries(
                    line,
                    decimal(sample.llm_count as nat) + " process(es) · RSS "@ + bytes_spec(
                        sample.llm_rss,
                    ),
                ) && carries(line, " · CPU "@ + sample.llm_cpu.fixed_spec(1))
        }),
{
    let tone = llm_status_tone_spec(sample.llm_status@);
    let card = model_card_spec(sample, width, now);
    lemma_badge(tone.icon_spec(), upper(sample.llm_status@));
    let number = match sample.health {
        Some(score) => decimal(score as nat),
        None => Seq::empty(),
    };
    lemma_indented("  "@, sample.grade@, " · "@, number, "/100"@);
    let start = decimal(sample.llm_count as nat) + " process(es) · RSS "@ + bytes_spec(
        sample.llm_rss,
    );
    let cpu = sample.llm_cpu.fixed_spec(1);
    lemma_shares(start, cpu);
    if sample.llm_count > 0 {
        assert(compact_label_spec(start + " · CPU "@ + cpu + "%"@, width as nat)
            == card.lines[2][0].text);
    }
}

/// The card over the processes says the state of the model in the tone of the
/// state, which model it is, and what its processes take.
pub proof fn top_cards_say_their_own_figures(sample: Sample, width: usize, now: u64)
    ensures
        ({
            let card = top_model_card_spec(sample, width, now);
            &&& card.tone == llm_status_tone_spec(sample.llm_status@)
            &&& carries(card.lines[0][0].text, upper(sample.llm_status@))
            &&& card.lines[1][0].text == compact_label_spec(sample.llm_model@, width as nat)
            &&& carries(card.lines[3][0].text, "RSS "@ + bytes_spec(sample.llm_rss))
            &&& carries(card.lines[3][0].text, " · CPU "@ + sample.llm_cpu.fixed_spec(1))
        }),
{
    lemma_carried_within(" "@, upper(sample.llm_status@), " "@);
    lemma_shares("RSS "@ + bytes_spec(sample.llm_rss), sample.llm_cpu.fixed_spec(1));
}

/// The cards on the diagnosis have the tone of the impact and say the impact, what
/// lies behind it and what to do, each in its place.
pub proof fn diagnosis_cards_say_what_to_do(sample: Sample, width: usize)
    requires
        width >= 8,
    ensures
        diagnosis_card_spec(sample, width).tone == sample.impact_tone,
        top_diagnosis_card_spec(sample, width).tone == sample.impact_tone,
        carries(diagnosis_card_spec(sample, width).lines[0][0].text, sample.guidance_badge@),
        carries(top_diagnosis_card_spec(sample, width).lines[0][0].text, sample.guidance_badge@),
        sample.impact@.len() <= width - 8 ==> carries(
            diagnosis_card_spec(sample, width).lines[0][1].text,
            sample.impact@,
        ),
        sample.guidance_action@.len() <= width - 8 ==> diagnosis_card_spec(
            sample,
            width,
        ).lines[3][0].text == "ACTION  "@ + sample.guidance_action@ && top_diagnosis_card_spec(
            sample,
            width,
        ).lines[3][0].text == "ACTION  "@ + sample.guidance_action@,
        diagnosis_card_spec(sample, width).lines[1][0].text == "CAUSE  "@ + shown_diagnosis_spec(
            sample,
            (width - 7) as usize,
        ),
{
    lemma_carried_within(" "@, sample.guidance_badge@, " "@);
    if sample.impact@.len() <= width - 8 {
        lemma_carried_within("  "@, sample.impact@, Seq::empty());
        assert("  "@ + sample.impact@ + Seq::<char>::empty() =~= "  "@ + sample.impact@);
    }
}

/// The journal is headed by how many events are shown and how many there are, and
/// by the newest of those that are shown, in its own tone. An alert is shown with
/// its own state, summary and time.
pub proof fn headings_tell_of_the_newest(
    shown: Seq<SignalEvent>,
    total_count: usize,
    filter: JournalFilter,
    now: u64,
    alert: ActiveAlert,
)
    ensures
        ({
            let lines = journal_header_spec(shown, total_count, filter, now);
            &&& carries(
                lines[0][1].text,
                decimal(shown.len()) + " "@ + filter.label_spec(),
            )
            &&& carries(lines[0][1].text, " events · "@ + decimal(total_count as nat))
            &&& shown.len() > 0 ==> carries(lines[1][1].text, shown.last().summary@)
                && lines[1][1].paint == Paint::Tone(shown.last().tone) && carries(
                lines[1][1].text,
                " · "@ + telemetry_age_spec(Some(shown.last().recorded_at), now),
            )
            &&& shown.len() == 0 ==> lines[1][1].paint == Paint::Tone(Tone::Muted)
        }),
        carries(alert_banner_spec(alert)[0][0].text, alert.state@),
        alert_banner_spec(alert)[0][1].text == alert.summary@,
        carries(alert_banner_spec(alert)[0][2].text, alert.time@),
{
    let lines = journal_header_spec(shown, total_count, filter, now);
    let s0 = decimal(shown.len()) + " "@ + filter.label_spec();
    texts_carry_their_start(s0, s0);
    let s1 = s0 + " events · "@ + decimal(total_count as nat);
    texts_carry_their_parts(s0, " events · "@, decimal(total_count as nat));
    texts_carry_their_parts(s1, " total · f/[/] filter"@, Seq::empty());
    assert(s1 + " total · f/[/] filter"@ + Seq::<char>::empty() =~= lines[0][1].text);
    let summary = latest_summary_spec(shown);
    let age = latest_age_spec(shown, now);
    texts_carry_their_start(summary, summary);
    texts_carry_their_parts(summary, " · "@, age);
    lemma_carried_within(" ⚠ "@, alert.state@, " "@);
    lemma_carried_within("  ·  raised "@, alert.time@, "  ·  a acknowledge"@);
}
} // verus!
