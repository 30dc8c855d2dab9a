//! The completion log of a server.

use crate::binary64::Binary64;
use crate::numeral::{parse_real, real_number, written_whole_numbers_read_back};
use crate::sampling::LlmLogStats;
use crate::text::{
    after, after_first, chars, decimal, find_in, find_spec, index_of, lines, lines_of,
    marks_are_found, occurs, parse_u64, patterns_are_found, position, text, trim, trimmed, views,
    whole_number, written_numbers_are_bare, written_numbers_read_back,
};
use vstd::prelude::*;

verus! {

/// What stands before and after the first `pattern`.
pub open spec fn split_at_text(s: Seq<char>, pattern: Seq<char>) -> Option<(Seq<char>, Seq<char>)> {
    match find_spec(s, pattern) {
        Some(i) => Some((s.take(i as int), s.skip((i + pattern.len()) as int))),
        None => None,
    }
}

fn split_text(s: &str, pattern: &str) -> (result: Option<(String, String)>)
    ensures
        match result {
            Some((before, after)) => split_at_text(s@, pattern@) == Some((before@, after@)),
            None => split_at_text(s@, pattern@) is None,
        },
{
    let list = chars(s);
    let mark = chars(pattern);
    let total: usize = list.len();
    match find_in(&list, &mark) {
        Some(i) => {
            let front = text(&list, 0, i);
            let back = text(&list, i + mark.len(), total);
            assert(front@ =~= s@.take(i as int));
            assert(back@ =~= s@.skip(i + mark@.len()));
            Some((front, back))
        },
        None => None,
    }
}

/// What follows the words that announce a completion.
pub open spec fn announced(line: Seq<char>) -> Option<Seq<char>> {
    match after_first(line, "Responses API: model="@) {
        Some(rest) => Some(rest),
        None => after_first(line, "Chat completion: model="@),
    }
}

/// The number of prompt tokens, where a text gives it.
pub open spec fn prompt_count(s: Seq<char>) -> Option<u64> {
    match after_first(s, "prompt: "@) {
        Some(rest) => match whole_number(
            trimmed(rest.take(position(rest, ',') as int)),
            u64::MAX as nat,
        ) {
            Some(count) => Some(count as u64),
            None => None,
        },
        None => None,
    }
}

/// What a line says of a completion.
pub struct Completion {
    pub model: Seq<char>,
    pub rate: Binary64,
    pub output: u64,
    pub prompt: Option<u64>,
}

/// Parses `M, N tokens in Ss (R tok/s)`, with or without the prompt tokens
/// behind it, after the words that announce a completion.
pub open spec fn completion_spec(line: Seq<char>) -> Option<Completion> {
    match announced(line) {
        Some(all) => match split_at_text(all, ", "@) {
            Some((model, a)) => match split_at_text(a, " tokens in "@) {
                Some((output, b)) => match split_at_text(b, "s ("@) {
                    Some((seconds, c)) => match split_at_text(c, " tok/s)"@) {
                        Some((rate, d)) => match (
                            whole_number(trimmed(output), u64::MAX as nat),
                            real_number(trimmed(seconds)),
                            real_number(trimmed(rate)),
                        ) {
                            (Some(output), Some(_), Some(rate)) => Some(
                                Completion {
                                    model: trimmed(model),
                                    rate,
                                    output: output as u64,
                                    prompt: prompt_count(d),
                                },
                            ),
                            _ => None,
                        },
                        None => None,
                    },
                    None => None,
                },
                None => None,
            },
            None => None,
        },
        None => None,
    }
}

/// Whether statistics are those of a completion, with the moment still open.
pub open spec fn tells(stats: LlmLogStats, completion: Completion) -> bool {
    &&& stats.model is Some && stats.model.unwrap()@ == completion.model
    &&& stats.tokens_per_second == Some(completion.rate)
    &&& stats.output_tokens == Some(completion.output)
    &&& stats.prompt_tokens == completion.prompt
    &&& stats.observed_at is None
}

pub open spec fn tells_line(result: Option<LlmLogStats>, completion: Option<Completion>) -> bool {
    match (result, completion) {
        (Some(stats), Some(completion)) => tells(stats, completion),
        (None, None) => true,
        _ => false,
    }
}

fn read_prompt_count(s: &str) -> (result: Option<u64>)
    ensures
        result == prompt_count(s@),
{
    match after(s, "prompt: ") {
        Some(rest) => {
            let list = chars(rest.as_str());
            let end: usize = index_of(&list, ',');
            let front = text(&list, 0, end);
            assert(front@ =~= rest@.take(end as int));
            parse_u64(trim(front.as_str()).as_str())
        },
        None => None,
    }
}

/// Reads a line of the completion log.
pub fn parse_llm_completion_line(line: &str) -> (result: Option<LlmLogStats>)
    ensures
        tells_line(result, completion_spec(line@)),
{
    let found = match after(line, "Responses API: model=") {
        Some(rest) => Some(rest),
        None => after(line, "Chat completion: model="),
    };
    let all = match found {
        Some(rest) => rest,
        None => {
            return None;
        },
    };
    let (model, a) = match split_text(all.as_str(), ", ") {
        Some(pair) => pair,
        None => {
            return None;
        },
    };
    let (output, b) = match split_text(a.as_str(), " tokens in ") {
        Some(pair) => pair,
        None => {
            return None;
        },
    };
    let (seconds, c) = match split_text(b.as_str(), "s (") {
        Some(pair) => pair,
        None => {
            return None;
        },
    };
    let (rate, d) = match split_text(c.as_str(), " tok/s)") {
        Some(pair) => pair,
        None => {
            return None;
        },
    };
    let count: u64 = match parse_u64(trim(output.as_str()).as_str()) {
        Some(count) => count,
        None => {
            return None;
        },
    };
    if parse_real(trim(seconds.as_str()).as_str()).is_none() {
        return None;
    }
    match parse_real(trim(rate.as_str()).as_str()) {
        Some(value) => Some(
            LlmLogStats {
                model: Some(trim(model.as_str())),
                tokens_per_second: Some(value),
                output_tokens: Some(count),
                prompt_tokens: read_prompt_count(d.as_str()),
                observed_at: None,
            },
        ),
        None => None,
    }
}

/// The last completion in some lines.
pub open spec fn last_completion(list: Seq<Seq<char>>) -> Option<Completion>
    decreases list.len(),
{
    if list.len() == 0 {
        None
    } else {
        match completion_spec(list.last()) {
            Some(completion) => Some(completion),
            None => last_completion(list.drop_last()),
        }
    }
}

/// The last completion that a log tells of.
pub fn latest_completion(log: &str) -> (result: Option<LlmLogStats>)
    ensures
        tells_line(result, last_completion(lines_of(log@))),
{
    let list = lines(log);
    let ghost all = lines_of(log@);
    let mut i: usize = list.len();
    assert(all.take(all.len() as int) =~= all);
    while i > 0
        invariant
            i <= list@.len(),
            views(list@) == all,
            last_completion(all) == last_completion(all.take(i as int)),
            all == lines_of(log@),
        decreases i,
    {
        assert(all.take(i as int).last() == list@[i - 1]@);
        assert(all.take(i as int).drop_last() =~= all.take(i - 1));
        let found = parse_llm_completion_line(list[i - 1].as_str());
        if found.is_some() {
            return found;
        }
        i = i - 1;
    }
    None
}

/// Whether one moment is no earlier than another; an unknown one is the
/// earliest.
pub open spec fn no_earlier(a: Option<u64>, b: Option<u64>) -> bool {
    match (a, b) {
        (Some(a), Some(b)) => a >= b,
        (None, Some(_)) => false,
        (_, None) => true,
    }
}

/// The newest of some statistics; of two that are equally new the later one.
pub open spec fn newest_log_spec(list: Seq<LlmLogStats>) -> Option<LlmLogStats>
    decreases list.len(),
{
    if list.len() == 0 {
        None
    } else {
        match newest_log_spec(list.drop_last()) {
            Some(best) => if no_earlier(list.last().observed_at, best.observed_at) {
                Some(list.last())
            } else {
                Some(best)
            },
            None => Some(list.last()),
        }
    }
}

/// The newest of some statistics, or none at all.
pub fn newest_log(list: Vec<LlmLogStats>) -> (result: LlmLogStats)
    ensures
        match newest_log_spec(list@) {
            Some(best) => result == best,
            None => result == (LlmLogStats {
                model: None,
                tokens_per_second: None,
                output_tokens: None,
                prompt_tokens: None,
                observed_at: None,
            }),
        },
{
    let mut best = LlmLogStats::default();
    let mut known = false;
    let mut rest = list;
    let ghost mut done: int = 0;
    assert(list@.skip(0) =~= list@);
    while rest.len() > 0
        invariant
            0 <= done <= list@.len(),
            rest@ == list@.skip(done),
            known == (done > 0),
            match newest_log_spec(list@.take(done)) {
                Some(found) => known && best == found,
                None => !known && best == (LlmLogStats {
                    model: None,
                    tokens_per_second: None,
                    output_tokens: None,
                    prompt_tokens: None,
                    observed_at: None,
                }),
            },
        decreases rest@.len(),
    {
        let next = rest.remove(0);
        proof {
            assert(list@.take(done + 1).drop_last() =~= list@.take(done));
            assert(list@.take(done + 1).last() == next);
            assert(rest@ =~= list@.skip(done + 1));
            done = done + 1;
        }
        let replaces = if known {
            match (next.observed_at, best.observed_at) {
                (Some(a), Some(b)) => a >= b,
                (None, Some(_)) => false,
                (_, None) => true,
            }
        } else {
            true
        };
        if replaces {
            best = next;
        }
        known = true;
    }
    assert(list@.take(done) =~= list@);
    best
}

/// The bytes at the end of a server's log that are searched.
pub const LOG_TAIL_BYTES: u64 = 256 * 1024;

/// Where the end of a log of some bytes begins.
pub fn tail_start(length: u64) -> (start: u64)
    ensures
        start == if length >= LOG_TAIL_BYTES {
            length - LOG_TAIL_BYTES
        } else {
            0
        },
{
    if length >= LOG_TAIL_BYTES {
        length - LOG_TAIL_BYTES
    } else {
        0
    }
}

/// A line on a completion as a server writes it: the model, the tokens that came
/// out, the seconds that it took, the rate, and what follows.
pub open spec fn written_completion(
    model: Seq<char>,
    output: nat,
    seconds: nat,
    rate: nat,
    rest: Seq<char>,
) -> Seq<char> {
    model + ", "@ + (decimal(output) + " tokens in "@ + (decimal(seconds) + "s ("@ + (decimal(rate)
        + " tok/s)"@ + rest)))
}

/// What a server writes of a completion reads back: which model, how many tokens
/// came out, how fast, and how many went in. None of the figures is another.
pub proof fn written_completions_read_back(
    before: Seq<char>,
    model: Seq<char>,
    output: u64,
    seconds: nat,
    rate: nat,
    prompt: u64,
    rest: Seq<char>,
)
    requires
        forall|i: int| 0 <= i < before.len() ==> before[i] != 'C',
        forall|i: int| 0 <= i < model.len() ==> model[i] != ',',
    ensures
        ({
            let told = ", prompt: "@ + decimal(prompt as nat) + ","@ + rest;
            let line = before + "Chat completion: model="@ + written_completion(
                model,
                output as nat,
                seconds,
                rate,
                told,
            );
            !occurs(line, "Responses API: model="@) ==> completion_spec(line) == Some(
                Completion {
                    model: trimmed(model),
                    rate: Binary64::of_nat(rate),
                    output,
                    prompt: Some(prompt),
                },
            )
        }),
        ({
            let line = before + "Chat completion: model="@ + written_completion(
                model,
                output as nat,
                seconds,
                rate,
                Seq::empty(),
            );
            !occurs(line, "Responses API: model="@) ==> completion_spec(line) == Some(
                Completion {
                    model: trimmed(model),
                    rate: Binary64::of_nat(rate),
                    output,
                    prompt: None,
                },
            )
        }),
{
    let told = ", prompt: "@ + decimal(prompt as nat) + ","@ + rest;
    lemma_reads_back(before, model, output, seconds, rate, told);
    lemma_reads_back(before, model, output, seconds, rate, Seq::empty());
    reveal_strlit(", prompt: ");
    reveal_strlit("prompt: ");
    reveal_strlit(", ");
    reveal_strlit(",");
    let tail = decimal(prompt as nat).push(',') + rest;
    assert(told =~= ", "@ + "prompt: "@ + tail);
    patterns_are_found(", "@, "prompt: "@, tail);
    written_numbers_are_bare(prompt as nat);
    marks_are_found(decimal(prompt as nat), ',', rest);
    assert(tail.take(decimal(prompt as nat).len() as int) =~= decimal(prompt as nat));
    written_numbers_read_back(prompt as nat, u64::MAX as nat);
    assert(prompt_count(told) == Some(prompt));
    assert(find_spec(Seq::empty(), "prompt: "@) is None) by {
        assert(!"prompt: "@.is_prefix_of(Seq::empty()));
    }
}

proof fn lemma_reads_back(
    before: Seq<char>,
    model: Seq<char>,
    output: u64,
    seconds: nat,
    rate: nat,
    rest: Seq<char>,
)
    requires
        forall|i: int| 0 <= i < before.len() ==> before[i] != 'C',
        forall|i: int| 0 <= i < model.len() ==> model[i] != ',',
    ensures
        ({
            let line = before + "Chat completion: model="@ + written_completion(
                model,
                output as nat,
                seconds,
                rate,
                rest,
            );
            !occurs(line, "Responses API: model="@) ==> completion_spec(line) == Some(
                Completion {
                    model: trimmed(model),
                    rate: Binary64::of_nat(rate),
                    output,
                    prompt: prompt_count(rest),
                },
            )
        }),
{
    reveal_strlit("Chat completion: model=");
    reveal_strlit(", ");
    reveal_strlit(" tokens in ");
    reveal_strlit("s (");
    reveal_strlit(" tok/s)");
    let d = decimal(rate) + " tok/s)"@ + rest;
    let c = decimal(seconds) + "s ("@ + d;
    let b = decimal(output as nat) + " tokens in "@ + c;
    let a = model + ", "@ + b;
    patterns_are_found(before, "Chat completion: model="@, a);
    patterns_are_found(model, ", "@, b);
    written_numbers_are_bare(output as nat);
    written_numbers_are_bare(seconds);
    written_numbers_are_bare(rate);
    patterns_are_found(decimal(output as nat), " tokens in "@, c);
    patterns_are_found(decimal(seconds), "s ("@, d);
    patterns_are_found(decimal(rate), " tok/s)"@, rest);
    written_numbers_read_back(output as nat, u64::MAX as nat);
    written_whole_numbers_read_back(seconds);
    written_whole_numbers_read_back(rate);
}

/// The last line that tells of a completion counts, whatever comes before it and
/// whatever else comes after.
pub proof fn the_last_completion_counts(list: Seq<Seq<char>>, at: int)
    requires
        0 <= at < list.len(),
        completion_spec(list[at]) is Some,
        forall|j: int| at < j < list.len() ==> completion_spec(#[trigger] list[j]) is None,
    ensures
        last_completion(list) == completion_spec(list[at]),
    decreases list.len(),
{
    if at < list.len() - 1 {
        assert(completion_spec(list[list.len() - 1]) is None);
        let shorter = list.drop_last();
        assert(shorter[at] == list[at]);
        the_last_completion_counts(shorter, at);
    }
}

/// Of some logs the one that was written last counts; one whose time is not known
/// counts only where no other does.
pub proof fn the_newest_log_counts(list: Seq<LlmLogStats>, at: int)
    requires
        0 <= at < list.len(),
        list[at].observed_at is Some,
    ensures
        newest_log_spec(list) is Some,
        newest_log_spec(list).unwrap().observed_at is Some,
        newest_log_spec(list).unwrap().observed_at.unwrap() >= list[at].observed_at.unwrap(),
        list.contains(newest_log_spec(list).unwrap()),
    decreases list.len(),
{
    let shorter = list.drop_last();
    if at < shorter.len() {
        assert(shorter[at] == list[at]);
        the_newest_log_counts(shorter, at);
        let best = newest_log_spec(shorter).unwrap();
        let k = choose|k: int| 0 <= k < shorter.len() && shorter[k] == best;
        assert(list[k] == best);
    } else {
        lemma_newest_is_listed(shorter);
        if let Some(best) = newest_log_spec(shorter) {
            let k = choose|k: int| 0 <= k < shorter.len() && shorter[k] == best;
            assert(list[k] == best);
        }
    }
    assert(list[list.len() - 1] == list.last());
}

proof fn lemma_newest_is_listed(list: Seq<LlmLogStats>)
    ensures
        list.len() > 0 ==> newest_log_spec(list) is Some && list.contains(
            newest_log_spec(list).unwrap(),
        ),
        list.len() == 0 ==> newest_log_spec(list) is None,
    decreases list.len(),
{
    if list.len() > 0 {
        let shorter = list.drop_last();
        lemma_newest_is_listed(shorter);
        assert(list[list.len() - 1] == list.last());
        if let Some(best) = newest_log_spec(shorter) {
            let k = choose|k: int| 0 <= k < shorter.len() && shorter[k] == best;
            assert(list[k] == best);
        }
    }
}

} // verus!
