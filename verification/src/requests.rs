//! Which of the reported requests are new.

use crate::order::newest;
use crate::text::{same, views};
use std::collections::VecDeque;
use vstd::prelude::*;

verus! {

/// How many requests are remembered.
pub const REQUEST_MEMORY: usize = 512;

/// A request that a provider reports: which it is, how many tokens its prompt
/// has, and how it is put into words.
#[derive(Debug)]
pub struct RequestUsage {
    pub id: String,
    pub prompt: u64,
    pub summary: String,
}

/// A request's contents.
pub struct Usage {
    pub id: Seq<char>,
    pub prompt: u64,
    pub summary: Seq<char>,
}

impl View for RequestUsage {
    type V = Usage;

    open spec fn view(&self) -> Usage {
        Usage { id: self.id@, prompt: self.prompt, summary: self.summary@ }
    }
}

/// The contents of some requests.
pub open spec fn usages(requests: Seq<RequestUsage>) -> Seq<Usage> {
    requests.map_values(|r: RequestUsage| r@)
}

/// The requests that are remembered, each with its count of tokens.
pub open spec fn remembered_requests(seen: Seq<(String, u64)>) -> Seq<(Seq<char>, u64)> {
    seen.map_values(|pair: (String, u64)| (pair.0@, pair.1))
}

/// The words of some requests.
pub open spec fn summaries(requests: Seq<Usage>) -> Seq<Seq<char>> {
    requests.map_values(|r: Usage| r.summary)
}

/// Whether a request is news: its tokens are counted, and it is not remembered
/// with that count.
pub open spec fn is_news(seen: Seq<(Seq<char>, u64)>, request: Usage) -> bool {
    request.prompt > 0 && !seen.contains((request.id, request.prompt))
}

/// What is remembered after some requests, one after the other.
pub open spec fn seen_after(seen: Seq<(Seq<char>, u64)>, requests: Seq<Usage>) -> Seq<
    (Seq<char>, u64),
>
    decreases requests.len(),
{
    if requests.len() == 0 {
        seen
    } else {
        let before = seen_after(seen, requests.drop_last());
        let last = requests.last();
        if is_news(before, last) {
            newest(before.push((last.id, last.prompt)), REQUEST_MEMORY as nat)
        } else {
            before
        }
    }
}

/// The words of those requests that are news when their turn comes.
pub open spec fn news(seen: Seq<(Seq<char>, u64)>, requests: Seq<Usage>) -> Seq<Seq<char>>
    decreases requests.len(),
{
    if requests.len() == 0 {
        Seq::empty()
    } else {
        let before = news(seen, requests.drop_last());
        let last = requests.last();
        if is_news(seen_after(seen, requests.drop_last()), last) {
            before.push(last.summary)
        } else {
            before
        }
    }
}

fn is_remembered(seen: &VecDeque<(String, u64)>, request: &RequestUsage) -> (result: bool)
    ensures
        result == remembered_requests(seen@).contains((request.id@, request.prompt)),
{
    let ghost pairs = remembered_requests(seen@);
    for i in 0..seen.len()
        invariant
            pairs == remembered_requests(seen@),
            forall|j: int| 0 <= j < i ==> #[trigger] pairs[j] != (request.id@, request.prompt),
    {
        assert(pairs[i as int] == (seen@[i as int].0@, seen@[i as int].1));
        if seen[i].1 == request.prompt && same(seen[i].0.as_str(), request.id.as_str()) {
            return true;
        }
    }
    false
}

fn remember(seen: &mut VecDeque<(String, u64)>, id: String, prompt: u64)
    ensures
        remembered_requests(final(seen)@) == newest(
            remembered_requests(old(seen)@).push((id@, prompt)),
            REQUEST_MEMORY as nat,
        ),
{
    let ghost all = remembered_requests(old(seen)@).push((id@, prompt));
    seen.push_back((id, prompt));
    assert(remembered_requests(seen@) =~= all);
    let ghost mut dropped: int = 0;
    assert(all.skip(0) =~= all);
    while seen.len() > REQUEST_MEMORY
        invariant
            0 <= dropped <= all.len(),
            remembered_requests(seen@) == all.skip(dropped),
            dropped > 0 ==> all.len() - dropped >= REQUEST_MEMORY,
        decreases seen@.len(),
    {
        assert(remembered_requests(seen@).len() == seen@.len());
        let ghost before = seen@;
        seen.pop_front();
        assert(remembered_requests(seen@) =~= all.skip(dropped + 1)) by {
            assert(remembered_requests(before) == all.skip(dropped));
            assert(seen@ =~= before.drop_first());
            assert forall|i: int| 0 <= i < seen@.len() implies remembered_requests(seen@)[i]
                == all.skip(dropped + 1)[i] by {
                assert(remembered_requests(before)[i + 1] == all.skip(dropped)[i + 1]);
            }
        }
        proof {
            dropped = dropped + 1;
        }
    }
    assert(remembered_requests(seen@).len() == seen@.len());
    assert(remembered_requests(seen@) =~= newest(all, REQUEST_MEMORY as nat));
}

/// Takes in the requests that are reported, and gives the words of those that
/// are new. One that is reported again with the same count of tokens is not,
/// as long as it is remembered; one whose tokens are not counted yet is left
/// for later.
pub fn new_requests(
    seen: &mut VecDeque<(String, u64)>,
    requests: &Vec<RequestUsage>,
) -> (result: Vec<String>)
    ensures
        remembered_requests(final(seen)@) == seen_after(
            remembered_requests(old(seen)@),
            usages(requests@),
        ),
        views(result@) == news(remembered_requests(old(seen)@), usages(requests@)),
{
    let ghost start = remembered_requests(seen@);
    let ghost all = usages(requests@);
    let mut result: Vec<String> = Vec::new();
    assert(all.take(0) =~= Seq::empty());
    assert(views(result@) =~= Seq::empty());
    for i in 0..requests.len()
        invariant
            all == usages(requests@),
            remembered_requests(seen@) == seen_after(start, all.take(i as int)),
            views(result@) == news(start, all.take(i as int)),
    {
        assert(all.take(i + 1).drop_last() =~= all.take(i as int));
        assert(all.take(i + 1).last() == requests@[i as int]@);
        if requests[i].prompt > 0 && !is_remembered(seen, &requests[i]) {
            let ghost before = result@;
            remember(seen, requests[i].id.clone(), requests[i].prompt);
            result.push(requests[i].summary.clone());
            assert(views(result@) =~= views(before).push(requests@[i as int].summary@));
        }
    }
    assert(all.take(all.len() as int) =~= all);
    result
}

/// The words of the requests that are reported.
pub fn summaries_of(requests: &Vec<RequestUsage>) -> (result: Vec<String>)
    ensures
        views(result@) == summaries(usages(requests@)),
{
    let ghost all = summaries(usages(requests@));
    let mut result: Vec<String> = Vec::new();
    assert(views(result@) =~= all.take(0));
    for i in 0..requests.len()
        invariant
            all == summaries(usages(requests@)),
            views(result@) == all.take(i as int),
    {
        let ghost before = result@;
        result.push(requests[i].summary.clone());
        assert(all[i as int] == requests@[i as int].summary@);
        assert(views(result@) =~= views(before).push(all[i as int]));
        assert(all.take(i + 1) =~= all.take(i as int).push(all[i as int]));
    }
    assert(all.take(all.len() as int) =~= all);
    result
}

/// What is remembered of requests is bounded.
pub proof fn remembered_requests_are_bounded(
    seen: Seq<(Seq<char>, u64)>,
    requests: Seq<Usage>,
)
    requires
        seen.len() <= REQUEST_MEMORY,
    ensures
        seen_after(seen, requests).len() <= REQUEST_MEMORY,
    decreases requests.len(),
{
    if requests.len() > 0 {
        remembered_requests_are_bounded(seen, requests.drop_last());
    }
}

proof fn lemma_seen_grows(seen: Seq<(Seq<char>, u64)>, requests: Seq<Usage>)
    requires
        seen.len() + requests.len() <= REQUEST_MEMORY,
    ensures
        seen_after(seen, requests).len() <= seen.len() + requests.len(),
        forall|i: int|
            #![trigger requests[i]]
            0 <= i < requests.len() && requests[i].prompt > 0 ==> seen_after(
                seen,
                requests,
            ).contains((requests[i].id, requests[i].prompt)),
    decreases requests.len(),
{
    if requests.len() > 0 {
        let shorter = requests.drop_last();
        let before = seen_after(seen, shorter);
        let last = requests.last();
        let after = seen_after(seen, requests);
        lemma_seen_grows(seen, shorter);
        assert forall|i: int|
            #![trigger requests[i]]
            0 <= i < requests.len() && requests[i].prompt > 0 implies after.contains(
            (requests[i].id, requests[i].prompt),
        ) by {
            let pair = (requests[i].id, requests[i].prompt);
            if i < shorter.len() {
                assert(shorter[i] == requests[i]);
                assert(before.contains(pair));
                let at = choose|at: int| 0 <= at < before.len() && before[at] == pair;
                assert(after[at] == pair);
            } else if is_news(before, last) {
                assert(after[before.len() as int] == pair);
            }
        }
    }
}

proof fn lemma_known_is_no_news(seen: Seq<(Seq<char>, u64)>, requests: Seq<Usage>)
    requires
        forall|i: int|
            #![trigger requests[i]]
            0 <= i < requests.len() && requests[i].prompt > 0 ==> seen.contains(
                (requests[i].id, requests[i].prompt),
            ),
    ensures
        seen_after(seen, requests) == seen,
        news(seen, requests).len() == 0,
    decreases requests.len(),
{
    if requests.len() > 0 {
        let shorter = requests.drop_last();
        assert forall|i: int|
            #![trigger shorter[i]]
            0 <= i < shorter.len() && shorter[i].prompt > 0 implies seen.contains(
            (shorter[i].id, shorter[i].prompt),
        ) by {
            assert(shorter[i] == requests[i]);
        }
        lemma_known_is_no_news(seen, shorter);
        assert(requests[requests.len() - 1] == requests.last());
    }
}

/// Requests that are reported again, with the counts that they had, are no news,
/// as long as nothing had to be forgotten for them; and they change nothing in
/// what is remembered.
pub proof fn repeated_requests_are_no_news(
    seen: Seq<(Seq<char>, u64)>,
    requests: Seq<Usage>,
)
    requires
        seen.len() + requests.len() <= REQUEST_MEMORY,
    ensures
        news(seen_after(seen, requests), requests).len() == 0,
        seen_after(seen_after(seen, requests), requests) == seen_after(seen, requests),
{
    lemma_seen_grows(seen, requests);
    lemma_known_is_no_news(seen_after(seen, requests), requests);
}

} // verus!
