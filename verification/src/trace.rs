//! What a consumer sees of a stream, and what holds of every such run.
//!
//! A run is modelled by [`pull`]: a consumer polls a stream, fetches each
//! page that the stream asks for from a list of responses, delivers it, and
//! stops when the stream ends, when the responses run out, or when it has
//! taken as many elements as it wants. The theorems below are stated of that
//! model; `PageStream::poll` and `PageStream::deliver` are proved to take
//! exactly the steps that it is made of.

use crate::error::Error;
use crate::record::{first_failure, lemma_first_failure, up_to_failure};
use crate::stream::{response_view, Page, PageStream, PageView, Phase, Step, StepView, StreamState};
use vstd::prelude::*;

verus! {

/// What a consumer saw of a stream.
pub struct Trace<T> {
    /// The elements that it was handed, in order.
    pub elements: Seq<Result<T, Error>>,
    /// The targets of the pages that the stream asked for, in order.
    pub requests: Seq<Seq<char>>,
    /// Whether the stream said that the sequence has ended.
    pub ended: bool,
}

/// How many elements a consumer still wants after it has taken one.
pub open spec fn one_taken(budget: Option<nat>) -> Option<nat> {
    match budget {
        Some(n) => Some((n - 1) as nat),
        None => None,
    }
}

/// The run of a consumer that takes `budget` elements from a stream in
/// state `state` and then stops polling; with `None` it polls to the end.
/// The page requests are answered by `responses`, one after another.
pub open spec fn pull<T>(
    state: StreamState<T>,
    responses: Seq<Result<PageView<T>, Error>>,
    budget: Option<nat>,
) -> Trace<T>
    decreases responses.len(), state.pending.len(),
{
    if budget == Some(0nat) {
        Trace { elements: Seq::empty(), requests: Seq::empty(), ended: false }
    } else {
        let (step, after) = state.step();
        match step {
            StepView::Item(element) => {
                let rest = pull(after, responses, one_taken(budget));
                Trace { elements: seq![element] + rest.elements, ..rest }
            },
            StepView::Fetch(target) => {
                if responses.len() == 0 {
                    Trace { elements: Seq::empty(), requests: seq![target], ended: false }
                } else {
                    let rest = pull(after.deliver(responses[0]), responses.drop_first(), budget);
                    Trace { requests: seq![target] + rest.requests, ..rest }
                }
            },
            StepView::Done => Trace {
                elements: Seq::empty(),
                requests: Seq::empty(),
                ended: true,
            },
        }
    }
}

/// Whether a response is a page that decodes without a failure and refers
/// to a page behind it.
pub open spec fn continues<T>(response: Result<PageView<T>, Error>) -> bool {
    response matches Ok(page) && first_failure(page.items) == page.items.len() && page.next
        is Some
}

/// What one response adds to the sequence: of a page the items up to the
/// first failed one, that one included; of an error the error alone.
pub open spec fn contribution<T>(response: Result<PageView<T>, Error>) -> Seq<Result<T, Error>> {
    match response {
        Ok(page) => up_to_failure(page.items),
        Err(e) => seq![Err(e)],
    }
}

/// What responses add to the sequence one after another.
pub open spec fn contributions<T>(responses: Seq<Result<PageView<T>, Error>>) -> Seq<
    Result<T, Error>,
>
    decreases responses.len(),
{
    if responses.len() == 0 {
        Seq::empty()
    } else {
        contribution(responses[0]) + contributions(responses.drop_first())
    }
}

/// Whether a stream in this state will ask for no page any more.
pub open spec fn asks_no_more<T>(state: StreamState<T>) -> bool {
    match state.phase {
        Phase::Exhausted | Phase::Failed => true,
        Phase::Fresh | Phase::Yielding => state.target is None || state.cap_reached(),
        Phase::Fetching => state.target is None,
    }
}

/// A stream that asks for no page any more hands out what is pending and
/// ends, whatever responses there are.
pub proof fn lemma_drains<T>(state: StreamState<T>, responses: Seq<Result<PageView<T>, Error>>)
    requires
        asks_no_more(state),
    ensures
        pull(state, responses, None).elements == state.pending,
        pull(state, responses, None).requests.len() == 0,
        pull(state, responses, None).ended,
    decreases state.pending.len(),
{
    if state.pending.len() > 0 {
        lemma_drains(state.step().1, responses);
    }
}

/// Whether the `k`-th page is the last that a stream in this state asks for,
/// given that it gets that far: the response ends the chain, or the cap does.
pub open spec fn chain_ends<T>(
    state: StreamState<T>,
    responses: Seq<Result<PageView<T>, Error>>,
    k: int,
) -> bool {
    !continues(responses[k - 1]) || (state.cap matches Some(c) && c == state.pages + k)
}

/// The run over a chain of pages: the first `k - 1` responses are pages that
/// continue, the `k`-th ends the chain, and the cap allows `k` pages. The
/// consumer gets what was pending and then what the `k` responses add; the
/// stream asks for `k` pages, each at the target that the page before it
/// gave; and it ends. Responses behind the `k`-th are never asked for.
pub proof fn lemma_chain<T>(
    state: StreamState<T>,
    responses: Seq<Result<PageView<T>, Error>>,
    k: int,
)
    requires
        state.phase is Fresh || state.phase is Yielding,
        state.target is Some,
        1 <= k <= responses.len(),
        forall|i: int| 0 <= i < k - 1 ==> continues(#[trigger] responses[i]),
        chain_ends(state, responses, k),
        state.cap matches Some(c) ==> state.pages + k <= c,
    ensures
        pull(state, responses, None).elements == state.pending + contributions(
            responses.take(k),
        ),
        pull(state, responses, None).requests.len() == k,
        pull(state, responses, None).requests[0] == state.target->0,
        forall|i: int|
            0 <= i < k - 1 ==> pull(state, responses, None).requests[i + 1] == (
            #[trigger] responses[i])->Ok_0.next->0,
        pull(state, responses, None).ended,
    decreases responses.len(), state.pending.len(),
{
    let trace = pull(state, responses, None);
    let after = state.step().1;
    if state.pending.len() > 0 {
        lemma_chain(after, responses, k);
        assert(seq![state.pending[0]] + (after.pending + contributions(responses.take(k)))
            =~= state.pending + contributions(responses.take(k)));
    } else {
        let first = responses[0];
        let later = responses.drop_first();
        let delivered = after.deliver(first);
        let rest = pull(delivered, later, None);
        assert(responses.take(k).drop_first() =~= later.take(k - 1));
        assert(contributions(responses.take(k)) == contribution(first) + contributions(
            later.take(k - 1),
        ));
        if k == 1 {
            assert(asks_no_more(delivered)) by {
                if let Ok(page) = first {
                    lemma_first_failure(page.items);
                }
            }
            lemma_drains(delivered, later);
        } else {
            assert forall|i: int| 0 <= i < k - 2 implies continues(#[trigger] later[i]) by {
                assert(later[i] == responses[i + 1]);
            }
            lemma_chain(delivered, later, k - 1);
            assert forall|i: int| 0 <= i < k - 1 implies trace.requests[i + 1] == (
            #[trigger] responses[i])->Ok_0.next->0 by {
                if i > 0 {
                    assert(rest.requests[i] == later[i - 1]->Ok_0.next->0);
                }
            }
        }
    }
}

/// What two lists of responses add one after the other is what the joined
/// list adds.
pub proof fn lemma_contributions_append<T>(
    first: Seq<Result<PageView<T>, Error>>,
    second: Seq<Result<PageView<T>, Error>>,
)
    ensures
        contributions(first + second) == contributions(first) + contributions(second),
    decreases first.len(),
{
    if first.len() > 0 {
        lemma_contributions_append(first.drop_first(), second);
        assert((first + second).drop_first() =~= first.drop_first() + second);
    }
}

/// Whether no item of a page failed to decode.
pub open spec fn clean<T>(page: PageView<T>) -> bool {
    first_failure(page.items) == page.items.len()
}

/// Pages as the responses of a server that returns them without an error.
pub open spec fn served<T>(pages: Seq<PageView<T>>) -> Seq<Result<PageView<T>, Error>> {
    Seq::new(pages.len(), |i: int| Ok(pages[i]))
}

/// The items of pages, page after page, each page in its own order.
pub open spec fn joined<T>(pages: Seq<PageView<T>>) -> Seq<Result<T, Error>>
    decreases pages.len(),
{
    if pages.len() == 0 {
        Seq::empty()
    } else {
        pages[0].items + joined(pages.drop_first())
    }
}

/// Pages without a failed item add all their items, and no item of them is
/// an error.
pub proof fn lemma_clean_pages<T>(pages: Seq<PageView<T>>)
    requires
        forall|i: int| 0 <= i < pages.len() ==> clean(#[trigger] pages[i]),
    ensures
        contributions(served(pages)) == joined(pages),
        forall|i: int| 0 <= i < joined(pages).len() ==> (#[trigger] joined(pages)[i]) is Ok,
    decreases pages.len(),
{
    if pages.len() > 0 {
        let rest = pages.drop_first();
        assert forall|i: int| 0 <= i < rest.len() implies clean(#[trigger] rest[i]) by {
            assert(rest[i] == pages[i + 1]);
        }
        lemma_clean_pages(rest);
        assert(served(pages).drop_first() =~= served(rest));
        lemma_first_failure(pages[0].items);
    }
}

/// Whether each of the pages refers to a page behind it.
pub open spec fn linked<T>(pages: Seq<PageView<T>>) -> bool {
    forall|i: int| 0 <= i < pages.len() ==> (#[trigger] pages[i]).next is Some
}

/// With a page cap of `c`, a stream asks for `c` pages at most, whatever
/// the responses are and however long its consumer polls.
pub proof fn lemma_cap_bounds_requests<T>(
    start: Seq<char>,
    c: u64,
    responses: Seq<Result<PageView<T>, Error>>,
    budget: Option<nat>,
)
    ensures
        pull(StreamState::<T>::fresh(start, Some(c)), responses, budget).requests.len() <= c,
{
    lemma_requests_left(StreamState::<T>::fresh(start, Some(c)), responses, budget, c);
}

/// A stream with a page cap asks for no more pages than the cap leaves,
/// beside the page that it may be waiting for.
proof fn lemma_requests_left<T>(
    state: StreamState<T>,
    responses: Seq<Result<PageView<T>, Error>>,
    budget: Option<nat>,
    c: u64,
)
    requires
        state.cap == Some(c),
        state.pages <= c,
    ensures
        pull(state, responses, budget).requests.len() <= c - state.pages + (if state.phase
            is Fetching {
            1int
        } else {
            0int
        }),
    decreases responses.len(), state.pending.len(),
{
    if budget != Some(0nat) {
        let (step, after) = state.step();
        match step {
            StepView::Item(_) => {
                lemma_requests_left(after, responses, one_taken(budget), c);
            },
            StepView::Fetch(_) => {
                if responses.len() > 0 {
                    lemma_requests_left(after.deliver(responses[0]), responses.drop_first(), budget, c);
                }
            },
            StepView::Done => {},
        }
    }
}

/// A server that returns `k` pages and no error: the consumer gets every
/// item of every page, page after page and each page in its own order, and
/// no error among them; the stream asks for exactly `k` pages, the first at
/// the starting path and each other at the target that the page before it
/// gave; then the sequence ends.
pub proof fn lemma_complete_run<T>(start: Seq<char>, cap: Option<u64>, pages: Seq<PageView<T>>)
    requires
        pages.len() >= 1,
        forall|i: int| 0 <= i < pages.len() ==> clean(#[trigger] pages[i]),
        linked(pages.drop_last()),
        pages.last().next is None,
        cap matches Some(c) ==> pages.len() <= c,
    ensures
        pull(StreamState::fresh(start, cap), served(pages), None).elements == joined(pages),
        forall|i: int|
            0 <= i < joined(pages).len() ==> (#[trigger] joined(pages)[i]) is Ok,
        pull(StreamState::fresh(start, cap), served(pages), None).requests.len() == pages.len(),
        pull(StreamState::fresh(start, cap), served(pages), None).requests[0] == start,
        forall|i: int|
            0 <= i < pages.len() - 1 ==> pull(
                StreamState::fresh(start, cap),
                served(pages),
                None,
            ).requests[i + 1] == (#[trigger] pages[i]).next->0,
        pull(StreamState::fresh(start, cap), served(pages), None).ended,
{
    let state = StreamState::<T>::fresh(start, cap);
    let responses = served(pages);
    let k = pages.len() as int;
    assert forall|i: int| 0 <= i < k - 1 implies continues(#[trigger] responses[i]) by {
        assert(pages.drop_last()[i] == pages[i]);
    }
    lemma_chain(state, responses, k);
    lemma_clean_pages(pages);
    assert(responses.take(k) =~= responses);
    assert forall|i: int| 0 <= i < pages.len() - 1 implies pull(state, responses, None).requests[i
        + 1] == (#[trigger] pages[i]).next->0 by {
        assert(responses[i]->Ok_0 == pages[i]);
    }
}

/// The requests of a run whose `j`-th request fails, after `j - 1` pages
/// that decoded and continued: the consumer gets the items of those pages
/// and then the error as the one last element; the stream has asked for
/// exactly `j` pages; and the sequence ends. Nothing that the server would
/// have returned later is asked for.
pub proof fn lemma_failed_request_ends_run<T>(
    start: Seq<char>,
    cap: Option<u64>,
    pages: Seq<PageView<T>>,
    failure: Error,
    later: Seq<Result<PageView<T>, Error>>,
)
    requires
        forall|i: int| 0 <= i < pages.len() ==> clean(#[trigger] pages[i]),
        linked(pages),
        cap matches Some(c) ==> pages.len() + 1 <= c,
    ensures
        pull(
            StreamState::fresh(start, cap),
            served(pages).push(Err(failure)) + later,
            None,
        ).elements == joined(pages).push(Err(failure)),
        forall|i: int|
            0 <= i < joined(pages).len() ==> (#[trigger] joined(pages)[i]) is Ok,
        pull(
            StreamState::fresh(start, cap),
            served(pages).push(Err(failure)) + later,
            None,
        ).requests.len() == pages.len() + 1,
        pull(StreamState::fresh(start, cap), served(pages).push(Err(failure)) + later, None).ended,
{
    let last: Result<PageView<T>, Error> = Err(failure);
    lemma_run_with_last(start, cap, pages, last, later);
}

/// The run over pages that decode and continue, and one response behind
/// them that ends the chain.
proof fn lemma_run_with_last<T>(
    start: Seq<char>,
    cap: Option<u64>,
    pages: Seq<PageView<T>>,
    last: Result<PageView<T>, Error>,
    later: Seq<Result<PageView<T>, Error>>,
)
    requires
        forall|i: int| 0 <= i < pages.len() ==> clean(#[trigger] pages[i]),
        linked(pages),
        !continues(last) || cap == Some((pages.len() + 1) as u64),
        cap matches Some(c) ==> pages.len() + 1 <= c,
    ensures
        pull(StreamState::fresh(start, cap), served(pages).push(last) + later, None).elements
            == joined(pages) + contribution(last),
        forall|i: int|
            0 <= i < joined(pages).len() ==> (#[trigger] joined(pages)[i]) is Ok,
        pull(
            StreamState::fresh(start, cap),
            served(pages).push(last) + later,
            None,
        ).requests.len() == pages.len() + 1,
        pull(StreamState::fresh(start, cap), served(pages).push(last) + later, None).ended,
{
    let state = StreamState::<T>::fresh(start, cap);
    let responses = served(pages).push(last) + later;
    let k = pages.len() as int + 1;
    assert forall|i: int| 0 <= i < k - 1 implies continues(#[trigger] responses[i]) by {
        assert(responses[i] == Ok::<PageView<T>, Error>(pages[i]));
    }
    lemma_chain(state, responses, k);
    lemma_clean_pages(pages);
    assert(responses.take(k) =~= served(pages) + seq![last]);
    lemma_contributions_append(served(pages), seq![last]);
    assert(contributions(seq![last]) =~= contribution(last)) by {
        assert(contributions(seq![last].drop_first()) =~= Seq::<Result<T, Error>>::empty());
    }
    assert(state.pending + (joined(pages) + contribution(last)) =~= joined(pages) + contribution(
        last,
    ));
}

/// The run in which an item of the `j`-th page fails to decode, after
/// `j - 1` pages that decoded and continued: the consumer gets the items of
/// those pages, then the items of the `j`-th page that stand before the
/// failed one, then the failure as the one last element. The failed item's
/// successors, and every later page, are left out; the stream has asked for
/// exactly `j` pages; and the sequence ends.
pub proof fn lemma_failed_item_ends_run<T>(
    start: Seq<char>,
    cap: Option<u64>,
    pages: Seq<PageView<T>>,
    page: PageView<T>,
    later: Seq<Result<PageView<T>, Error>>,
)
    requires
        forall|i: int| 0 <= i < pages.len() ==> clean(#[trigger] pages[i]),
        linked(pages),
        !clean(page),
        cap matches Some(c) ==> pages.len() + 1 <= c,
    ensures
        0 <= first_failure(page.items) < page.items.len(),
        pull(StreamState::fresh(start, cap), served(pages).push(Ok(page)) + later, None).elements
            == joined(pages) + page.items.take(first_failure(page.items) + 1),
        forall|i: int| 0 <= i < joined(pages).len() ==> (#[trigger] joined(pages)[i]) is Ok,
        forall|i: int| 0 <= i < first_failure(page.items) ==> (#[trigger] page.items[i]) is Ok,
        page.items[first_failure(page.items)] is Err,
        pull(
            StreamState::fresh(start, cap),
            served(pages).push(Ok(page)) + later,
            None,
        ).requests.len() == pages.len() + 1,
        pull(StreamState::fresh(start, cap), served(pages).push(Ok(page)) + later, None).ended,
{
    lemma_first_failure(page.items);
    lemma_run_with_last(start, cap, pages, Ok(page), later);
}

/// A page cap of `c` against a server that has `c` pages and more, all
/// decoding and continuing: the consumer gets the items of the first `c`
/// pages and nothing else, the stream asks for exactly `c` pages, and the
/// sequence ends without an error, the continuation of the `c`-th page
/// unused. With a cap of 0 the sequence is empty and no page is asked for.
pub proof fn lemma_cap_truncates<T>(
    start: Seq<char>,
    c: u64,
    pages: Seq<PageView<T>>,
    later: Seq<Result<PageView<T>, Error>>,
)
    requires
        pages.len() == c,
        forall|i: int| 0 <= i < pages.len() ==> clean(#[trigger] pages[i]),
        linked(pages),
    ensures
        pull(StreamState::fresh(start, Some(c)), served(pages) + later, None).elements == joined(
            pages,
        ),
        forall|i: int| 0 <= i < joined(pages).len() ==> (#[trigger] joined(pages)[i]) is Ok,
        pull(StreamState::fresh(start, Some(c)), served(pages) + later, None).requests.len() == c,
        pull(StreamState::fresh(start, Some(c)), served(pages) + later, None).ended,
{
    let state = StreamState::<T>::fresh(start, Some(c));
    lemma_clean_pages(pages);
    if c == 0 {
        lemma_drains(state, served(pages) + later);
    } else {
        let before = pages.drop_last();
        let last: Result<PageView<T>, Error> = Ok(pages.last());
        assert forall|i: int| 0 <= i < before.len() implies clean(#[trigger] before[i])
            && before[i].next is Some by {
            assert(before[i] == pages[i]);
        }
        lemma_run_with_last(start, Some(c), before, last, later);
        assert(served(before).push(last) =~= served(pages));
        lemma_clean_pages(before);
        lemma_contributions_append(served(before), seq![last]);
        assert(contributions(seq![last]) =~= contribution(last)) by {
            assert(contributions(seq![last].drop_first()) =~= Seq::<Result<T, Error>>::empty());
        }
        assert(served(before) + seq![last] =~= served(pages));
    }
}

/// Two streams that start from the same path with the same cap, and get
/// the same responses, give the same run.
pub proof fn lemma_same_inputs_same_run<T>(
    start: Seq<char>,
    cap: Option<u64>,
    responses: Seq<Result<PageView<T>, Error>>,
    again_start: Seq<char>,
    again_cap: Option<u64>,
    again_responses: Seq<Result<PageView<T>, Error>>,
    budget: Option<nat>,
)
    requires
        start == again_start,
        cap == again_cap,
        responses == again_responses,
    ensures
        pull(StreamState::fresh(start, cap), responses, budget) == pull(
            StreamState::fresh(again_start, again_cap),
            again_responses,
            budget,
        ),
{
}

/// What a consumer got when it stopped after `m` elements is the beginning
/// of what it would have got to the end, and so are the requests.
proof fn lemma_partial_is_prefix<T>(
    state: StreamState<T>,
    responses: Seq<Result<PageView<T>, Error>>,
    m: nat,
)
    ensures
        pull(state, responses, Some(m)).elements.len() == (if m <= pull(
            state,
            responses,
            None,
        ).elements.len() {
            m
        } else {
            pull(state, responses, None).elements.len()
        }),
        pull(state, responses, Some(m)).elements == pull(state, responses, None).elements.take(
            pull(state, responses, Some(m)).elements.len() as int,
        ),
        pull(state, responses, Some(m)).requests.len() <= pull(
            state,
            responses,
            None,
        ).requests.len(),
        pull(state, responses, Some(m)).requests == pull(state, responses, None).requests.take(
            pull(state, responses, Some(m)).requests.len() as int,
        ),
    decreases responses.len(), state.pending.len(),
{
    if m > 0 {
        let (step, after) = state.step();
        match step {
            StepView::Item(_) => {
                lemma_partial_is_prefix(after, responses, (m - 1) as nat);
            },
            StepView::Fetch(_) => {
                if responses.len() > 0 {
                    lemma_partial_is_prefix(after.deliver(responses[0]), responses.drop_first(), m);
                }
            },
            StepView::Done => {},
        }
    }
}

/// Every page that a consumer of `m` elements made the stream ask for was
/// needed: the pages before it did not hold `m` elements.
proof fn lemma_requests_needed<T>(
    state: StreamState<T>,
    responses: Seq<Result<PageView<T>, Error>>,
    m: nat,
)
    ensures
        pull(state, responses, Some(m)).requests.len() <= responses.len() + 1,
        pull(state, responses, Some(m)).requests.len() >= 1 ==> pull(
            state,
            responses.take(pull(state, responses, Some(m)).requests.len() - 1),
            None,
        ).elements.len() < m,
    decreases responses.len(), state.pending.len(),
{
    let asked = pull(state, responses, Some(m)).requests.len() as int;
    if m > 0 {
        let (step, after) = state.step();
        match step {
            StepView::Item(_) => {
                lemma_requests_needed(after, responses, (m - 1) as nat);
            },
            StepView::Fetch(_) => {
                if responses.len() > 0 {
                    let later = responses.drop_first();
                    lemma_requests_needed(after.deliver(responses[0]), later, m);
                    if asked >= 2 {
                        assert(responses.take(asked - 1).drop_first() =~= later.take(asked - 2));
                    }
                }
            },
            StepView::Done => {},
        }
    }
}

/// A consumer that stops polling after `m` elements. What it got is the
/// beginning of what it would have got by polling to the end, and the
/// stream asked for pages as in the beginning of that run. No page was
/// asked for that was not needed for those `m` elements: the pages before
/// the last one asked for held fewer than `m`. So a stream that is
/// abandoned has asked for nothing beyond the page that was wanted when its
/// consumer last polled.
pub proof fn lemma_abandoned_run<T>(
    start: Seq<char>,
    cap: Option<u64>,
    responses: Seq<Result<PageView<T>, Error>>,
    m: nat,
)
    ensures
        pull(StreamState::fresh(start, cap), responses, Some(m)).elements.len() <= m,
        pull(StreamState::fresh(start, cap), responses, Some(m)).elements == pull(
            StreamState::fresh(start, cap),
            responses,
            None,
        ).elements.take(pull(StreamState::fresh(start, cap), responses, Some(m)).elements.len() as int),
        pull(StreamState::fresh(start, cap), responses, Some(m)).requests == pull(
            StreamState::fresh(start, cap),
            responses,
            None,
        ).requests.take(pull(StreamState::fresh(start, cap), responses, Some(m)).requests.len() as int),
        pull(StreamState::fresh(start, cap), responses, Some(m)).requests.len() >= 1 ==> pull(
            StreamState::fresh(start, cap),
            responses.take(
                pull(StreamState::fresh(start, cap), responses, Some(m)).requests.len() - 1,
            ),
            None,
        ).elements.len() < m,
{
    lemma_partial_is_prefix(StreamState::<T>::fresh(start, cap), responses, m);
    lemma_requests_needed(StreamState::<T>::fresh(start, cap), responses, m);
}

/// While elements are pending, a poll hands one out and asks for no page.
pub proof fn lemma_pending_goes_first<T>(state: StreamState<T>)
    requires
        state.pending.len() > 0,
    ensures
        state.step().0 == StepView::Item(state.pending[0]),
        state.step().1.pending == state.pending.drop_first(),
        state.step().1.pages == state.pages,
{
}

/// No transition leaves a stream that is exhausted or has failed: it asks
/// for no page any more, and a response that still comes in is discarded.
pub proof fn lemma_terminal_is_final<T>(
    state: StreamState<T>,
    response: Result<PageView<T>, Error>,
)
    requires
        state.phase.is_terminal(),
    ensures
        !(state.step().0 is Fetch),
        state.step().1.phase == state.phase,
        state.step().1.pages == state.pages,
        state.deliver(response) == state,
{
}

/// The count of pages never falls, and neither a poll nor a response
/// changes the cap.
pub proof fn lemma_counter_never_falls<T>(
    state: StreamState<T>,
    response: Result<PageView<T>, Error>,
)
    ensures
        state.step().1.pages >= state.pages,
        state.step().1.cap == state.cap,
        state.deliver(response).pages == state.pages,
        state.deliver(response).cap == state.cap,
{
}

/// What a consumer saw of a stream, as the values it holds.
#[derive(Debug)]
pub struct Run<T> {
    /// The elements that it was handed, in order.
    pub elements: Vec<Result<T, Error>>,
    /// The targets of the pages that the stream asked for, in order.
    pub requests: Vec<String>,
    /// Whether the stream said that the sequence has ended.
    pub ended: bool,
}

impl<T> View for Run<T> {
    type V = Trace<T>;

    open spec fn view(&self) -> Trace<T> {
        Trace {
            elements: self.elements@,
            requests: Seq::new(self.requests@.len(), |i: int| self.requests@[i]@),
            ended: self.ended,
        }
    }
}

/// Responses as mathematical values.
pub open spec fn responses_view<T>(responses: Seq<Result<Page<T>, Error>>) -> Seq<
    Result<PageView<T>, Error>,
> {
    Seq::new(responses.len(), |i: int| response_view(responses[i]))
}

/// How many elements a consumer wants that stops at `limit`.
pub open spec fn budget_of(limit: Option<usize>) -> Option<nat> {
    match limit {
        Some(m) => Some(m as nat),
        None => None,
    }
}

/// How many elements a consumer still wants that stops at `limit` and has
/// taken `taken`.
pub open spec fn budget_left(limit: Option<usize>, taken: nat) -> Option<nat> {
    match limit {
        Some(m) => Some((m - taken) as nat),
        None => None,
    }
}

/// A run that went on as `rest` after `seen`.
pub open spec fn followed_by<T>(seen: Trace<T>, rest: Trace<T>) -> Trace<T> {
    Trace {
        elements: seen.elements + rest.elements,
        requests: seen.requests + rest.requests,
        ended: rest.ended,
    }
}

/// Runs a stream against responses that were recorded beforehand: polls it,
/// answers each page that it asks for with the next response, and stops
/// when the stream ends, when it asks for a page and no response is left,
/// or when `limit` elements have been taken; `None` sets no limit.
pub fn replay<T>(stream: PageStream<T>, responses: Vec<Result<Page<T>, Error>>, limit: Option<
    usize,
>) -> (run: Run<T>)
    ensures
        run@ == pull(stream@, responses_view(responses@), budget_of(limit)),
{
    let mut stream = stream;
    let mut responses = responses;
    let ghost whole = pull(stream@, responses_view(responses@), budget_of(limit));
    let mut run = Run { elements: Vec::new(), requests: Vec::new(), ended: false };
    proof {
        let rest = pull(stream@, responses_view(responses@), budget_left(limit, 0));
        assert(followed_by(run@, rest).elements =~= rest.elements);
        assert(followed_by(run@, rest).requests =~= rest.requests);
    }
    loop
        invariant_except_break
            !run.ended,
            limit matches Some(m) ==> run.elements@.len() <= m,
            whole == followed_by(
                run@,
                pull(
                    stream@,
                    responses_view(responses@),
                    budget_left(limit, run.elements@.len()),
                ),
            ),
        ensures
            run@ == whole,
        decreases responses@.len(), stream@.pending.len(),
    {
        let ghost seen = run@;
        let ghost state = stream@;
        let ghost answers = responses_view(responses@);
        let ghost budget = budget_left(limit, run.elements@.len());
        let ghost rest = pull(state, answers, budget);
        let stop = match limit {
            Some(m) => run.elements.len() >= m,
            None => false,
        };
        if stop {
            proof {
                assert(followed_by(seen, rest).elements =~= seen.elements);
                assert(followed_by(seen, rest).requests =~= seen.requests);
            }
            break ;
        }
        match stream.poll() {
            Step::Item(element) => {
                run.elements.push(element);
                proof {
                    let next = pull(stream@, answers, budget_left(limit, run.elements@.len()));
                    assert(one_taken(budget) == budget_left(limit, run.elements@.len()));
                    assert(followed_by(run@, next).elements =~= followed_by(seen, rest).elements);
                    assert(run@.requests =~= seen.requests);
                }
            },
            Step::Fetch(target) => {
                run.requests.push(target);
                proof {
                    assert(run@.requests =~= seen.requests.push(target@));
                }
                if responses.len() == 0 {
                    proof {
                        assert(followed_by(seen, rest).requests =~= run@.requests);
                        assert(followed_by(seen, rest).elements =~= run@.elements);
                    }
                    break ;
                }
                let response = responses.remove(0);
                stream.deliver(response);
                proof {
                    assert(responses_view(responses@) =~= answers.drop_first());
                    let next = pull(stream@, responses_view(responses@), budget);
                    assert(followed_by(run@, next).requests =~= followed_by(seen, rest).requests);
                }
            },
            Step::Done => {
                run.ended = true;
                proof {
                    assert(followed_by(seen, rest).elements =~= run@.elements);
                    assert(run@.requests =~= seen.requests);
                    assert(followed_by(seen, rest).requests =~= run@.requests);
                }
                break ;
            },
        }
    }
    run
}

} // verus!
