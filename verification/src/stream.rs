//! The pagination engine: one stream of records over a chain of pages.
//!
//! A [`PageStream`] never performs a request. Its consumer polls it; the
//! stream answers with the next element, with the target of the page that it
//! needs, or with the end. The consumer fetches that page and delivers what
//! came back. All decisions (which page is asked for, when the stream ends,
//! what an error does) are taken here.

use crate::error::Error;
use crate::record::{first_failure, lemma_first_failure_is, up_to_failure};
use std::collections::VecDeque;
use vstd::prelude::*;

verus! {

/// Where a stream stands in its life.
#[derive(Debug, Clone, Copy, PartialEq, Eq, Structural)]
pub enum Phase {
    /// No page has been asked for yet.
    Fresh,
    /// A page has been asked for and has not been delivered.
    Fetching,
    /// A page has been delivered; the stream may go on to another.
    Yielding,
    /// No page will be asked for any more: the last page had no
    /// continuation, or the page cap is reached.
    Exhausted,
    /// A request or a payload failed. No page will be asked for any more.
    Failed,
}

impl Phase {
    /// Whether no transition leaves the phase.
    pub open spec fn is_terminal(self) -> bool {
        self is Exhausted || self is Failed
    }
}

/// One decoded page: the results of decoding its raw items, in the order of
/// the response, and the reference to the page that follows it, if any.
#[derive(Debug)]
pub struct Page<T> {
    pub items: Vec<Result<T, Error>>,
    pub next: Option<String>,
}

/// A [`Page`] as a mathematical value.
pub struct PageView<T> {
    pub items: Seq<Result<T, Error>>,
    pub next: Option<Seq<char>>,
}

impl<T> View for Page<T> {
    type V = PageView<T>;

    open spec fn view(&self) -> PageView<T> {
        PageView {
            items: self.items@,
            next: match self.next {
                Some(target) => Some(target@),
                None => None,
            },
        }
    }
}

/// What one request came to, as a mathematical value: a page, or the error
/// that stands for a failed request or an unreadable body.
pub open spec fn response_view<T>(response: Result<Page<T>, Error>) -> Result<PageView<T>, Error> {
    match response {
        Ok(page) => Ok(page@),
        Err(e) => Err(e),
    }
}

/// What a stream answers to a poll.
#[derive(Debug)]
pub enum Step<T> {
    /// The next element of the sequence.
    Item(Result<T, Error>),
    /// The stream needs the page at this target before it can go on.
    Fetch(String),
    /// The sequence has ended.
    Done,
}

/// A [`Step`] as a mathematical value.
pub enum StepView<T> {
    Item(Result<T, Error>),
    Fetch(Seq<char>),
    Done,
}

impl<T> View for Step<T> {
    type V = StepView<T>;

    open spec fn view(&self) -> StepView<T> {
        match self {
            Step::Item(element) => StepView::Item(*element),
            Step::Fetch(target) => StepView::Fetch(target@),
            Step::Done => StepView::Done,
        }
    }
}

/// The state of a stream as a mathematical value.
pub struct StreamState<T> {
    /// The target of the next request, if there is to be one.
    pub target: Option<Seq<char>>,
    /// How many pages have been asked for; the count stays at `u64::MAX`
    /// once it has got there.
    pub pages: u64,
    /// The greatest number of pages that may be asked for; `None` for no
    /// bound.
    pub cap: Option<u64>,
    pub phase: Phase,
    /// The elements that were delivered and not handed out yet.
    pub pending: Seq<Result<T, Error>>,
}

impl<T> StreamState<T> {
    /// The state of a stream that has done nothing yet.
    pub open spec fn fresh(start: Seq<char>, cap: Option<u64>) -> Self {
        StreamState {
            target: Some(start),
            pages: 0,
            cap,
            phase: Phase::Fresh,
            pending: Seq::empty(),
        }
    }

    /// Whether as many pages have been asked for as the cap allows.
    pub open spec fn cap_reached(self) -> bool {
        self.cap matches Some(c) && self.pages >= c
    }

    /// The state that no request leaves any more.
    pub open spec fn exhausted(self) -> Self {
        StreamState { target: None, phase: Phase::Exhausted, ..self }
    }

    /// Whether the stream has handed out the last element of the last page
    /// that it may ask for: nothing is pending, a page has been delivered,
    /// and it gave no continuation or the cap is reached.
    pub open spec fn is_spent(self) -> bool {
        self.pending.len() == 0 && self.phase is Yielding && (self.target is None
            || self.cap_reached())
    }

    /// The same state, marked as exhausted at once where the stream is
    /// spent. A continuation that the cap forbids to follow is dropped.
    pub open spec fn settled(self) -> Self {
        if self.is_spent() {
            self.exhausted()
        } else {
            self
        }
    }

    /// One poll: what the stream answers, and the state it is in afterwards.
    ///
    /// Pending elements go out first, and the stream is exhausted as soon
    /// as the last of them is out and no page may follow. With none
    /// pending, a stream that has a target and has not reached its cap asks
    /// for that page; a stream that waits for a page asks for it again;
    /// every other stream is done.
    pub open spec fn step(self) -> (StepView<T>, Self) {
        if self.pending.len() > 0 {
            (
                StepView::Item(self.pending[0]),
                StreamState { pending: self.pending.drop_first(), ..self }.settled(),
            )
        } else {
            match self.phase {
                Phase::Fresh | Phase::Yielding => match self.target {
                    Some(target) if !self.cap_reached() => (
                        StepView::Fetch(target),
                        StreamState {
                            phase: Phase::Fetching,
                            pages: if self.pages < u64::MAX {
                                (self.pages + 1) as u64
                            } else {
                                self.pages
                            },
                            ..self
                        },
                    ),
                    _ => (StepView::Done, self.exhausted()),
                },
                Phase::Fetching => match self.target {
                    Some(target) => (StepView::Fetch(target), self),
                    None => (StepView::Done, self.exhausted()),
                },
                Phase::Exhausted | Phase::Failed => (StepView::Done, self),
            }
        }
    }

    /// The state after the page that was asked for has come back.
    ///
    /// A stream that waits for no page is left as it is. An error becomes
    /// the last element. Of a page, the items up to the first failed one go
    /// out, that one last; a page without a failed item hands its
    /// continuation on, and where it has no item either and no page may
    /// follow, the stream is exhausted at once.
    pub open spec fn deliver(self, response: Result<PageView<T>, Error>) -> Self {
        if !(self.phase is Fetching) {
            self
        } else {
            match response {
                Err(e) => StreamState {
                    target: None,
                    phase: Phase::Failed,
                    pending: self.pending.push(Err(e)),
                    ..self
                },
                Ok(page) => if first_failure(page.items) < page.items.len() {
                    StreamState {
                        target: None,
                        phase: Phase::Failed,
                        pending: self.pending + up_to_failure(page.items),
                        ..self
                    }
                } else {
                    StreamState {
                        target: page.next,
                        phase: Phase::Yielding,
                        pending: self.pending + page.items,
                        ..self
                    }.settled()
                },
            }
        }
    }
}

impl<T> StreamState<T> {
    /// What holds of every state that a stream gets into from a fresh one:
    /// the count of pages stays within the cap; a fresh stream has asked
    /// for nothing; a stream asks for a page only with nothing pending;
    /// a stream that may go on has an element to hand out or a page to ask
    /// for; and a stream that is exhausted or has failed has no target.
    pub open spec fn coherent(self) -> bool {
        &&& self.cap matches Some(c) ==> self.pages <= c
        &&& self.phase is Fresh ==> self.pages == 0 && self.pending.len() == 0 && self.target
            is Some
        &&& self.phase is Fetching ==> self.pages >= 1 && self.pending.len() == 0 && self.target
            is Some
        &&& self.phase is Yielding ==> self.pages >= 1 && !self.is_spent()
        &&& self.phase.is_terminal() ==> self.target is None
    }
}

/// A fresh stream is coherent.
pub proof fn lemma_fresh_is_coherent<T>(start: Seq<char>, cap: Option<u64>)
    ensures
        StreamState::<T>::fresh(start, cap).coherent(),
{
}

/// Neither a poll nor a response makes a coherent stream incoherent.
pub proof fn lemma_coherence_is_kept<T>(
    state: StreamState<T>,
    response: Result<PageView<T>, Error>,
)
    requires
        state.coherent(),
    ensures
        state.step().1.coherent(),
        state.deliver(response).coherent(),
{
}

/// One stream of records over a chain of pages.
#[derive(Debug)]
pub struct PageStream<T> {
    target: Option<String>,
    pages: u64,
    cap: Option<u64>,
    phase: Phase,
    pending: VecDeque<Result<T, Error>>,
}

impl<T> View for PageStream<T> {
    type V = StreamState<T>;

    closed spec fn view(&self) -> StreamState<T> {
        StreamState {
            target: match self.target {
                Some(target) => Some(target@),
                None => None,
            },
            pages: self.pages,
            cap: self.cap,
            phase: self.phase,
            pending: self.pending@,
        }
    }
}

impl<T> PageStream<T> {
    /// A stream that will begin at `start_path` and ask for at most
    /// `page_cap` pages; `None` sets no bound.
    pub fn new(start_path: &str, page_cap: Option<u64>) -> (stream: Self)
        ensures
            stream@ == StreamState::<T>::fresh(start_path@, page_cap),
    {
        PageStream {
            target: Some(start_path.to_owned()),
            pages: 0,
            cap: page_cap,
            phase: Phase::Fresh,
            pending: VecDeque::new(),
        }
    }

    /// Where the stream stands in its life.
    pub fn phase(&self) -> (phase: Phase)
        ensures
            phase == self@.phase,
    {
        self.phase
    }

    /// How many pages the stream has asked for.
    pub fn pages(&self) -> (pages: u64)
        ensures
            pages == self@.pages,
    {
        self.pages
    }

    /// The greatest number of pages that the stream may ask for.
    pub fn page_cap(&self) -> (cap: Option<u64>)
        ensures
            cap == self@.cap,
    {
        self.cap
    }

    /// The target of the next request, if there is to be one.
    pub fn target(&self) -> (target: Option<&str>)
        ensures
            match target {
                Some(text) => self@.target == Some(text@),
                None => self@.target is None,
            },
    {
        match &self.target {
            Some(text) => Some(text.as_str()),
            None => None,
        }
    }

    /// How many delivered elements have not been handed out yet.
    pub fn buffered(&self) -> (n: usize)
        ensures
            n == self@.pending.len(),
    {
        self.pending.len()
    }

    /// Marks the stream as exhausted where it is spent.
    fn settle(&mut self, reached: bool)
        requires
            reached == old(self)@.cap_reached(),
        ensures
            final(self)@ == old(self)@.settled(),
    {
        if self.pending.len() == 0 && self.phase == Phase::Yielding && (self.target.is_none()
            || reached) {
            self.phase = Phase::Exhausted;
            self.target = None;
        }
    }

    /// Asks the stream for what comes next.
    pub fn poll(&mut self) -> (step: Step<T>)
        ensures
            step@ == old(self)@.step().0,
            final(self)@ == old(self)@.step().1,
    {
        let reached = match self.cap {
            Some(c) => self.pages >= c,
            None => false,
        };
        match self.pending.pop_front() {
            Some(element) => {
                self.settle(reached);
                return Step::Item(element);
            },
            None => {},
        }
        let wanted = match &self.target {
            Some(target) => Some(target.clone()),
            None => None,
        };
        match self.phase {
            Phase::Fresh | Phase::Yielding => match wanted {
                Some(target) if !reached => {
                    self.phase = Phase::Fetching;
                    if self.pages < u64::MAX {
                        self.pages = self.pages + 1;
                    }
                    Step::Fetch(target)
                },
                _ => {
                    self.phase = Phase::Exhausted;
                    self.target = None;
                    Step::Done
                },
            },
            Phase::Fetching => match wanted {
                Some(target) => Step::Fetch(target),
                None => {
                    self.phase = Phase::Exhausted;
                    Step::Done
                },
            },
            Phase::Exhausted | Phase::Failed => Step::Done,
        }
    }

    /// Hands the stream what the request for its page came to.
    pub fn deliver(&mut self, response: Result<Page<T>, Error>)
        ensures
            final(self)@ == old(self)@.deliver(response_view(response)),
    {
        if self.phase != Phase::Fetching {
            return ;
        }
        match response {
            Err(e) => {
                self.pending.push_back(Err(e));
                self.phase = Phase::Failed;
                self.target = None;
            },
            Ok(page) => {
                let ghost before = self.pending@;
                let ghost all = page.items@;
                let mut failed = false;
                for item in it: page.items
                    invariant
                        it.seq() == all,
                        failed ==> first_failure(all) < all.len() && self.pending@ == before
                            + up_to_failure(all),
                        !failed ==> self.pending@ == before + all.take(it.index() as int)
                            && forall|j: int| 0 <= j < it.index() ==> (#[trigger] all[j]) is Ok,
                        self.phase == old(self).phase,
                        self.pages == old(self).pages,
                        self.cap == old(self).cap,
                {
                    if !failed {
                        proof {
                            assert(all.take(it.index() + 1) =~= all.take(it.index() as int).push(
                                all[it.index() as int],
                            ));
                            if item is Err {
                                lemma_first_failure_is(all, it.index() as int);
                            }
                        }
                        failed = item.is_err();
                        self.pending.push_back(item);
                    }
                }
                if failed {
                    self.phase = Phase::Failed;
                    self.target = None;
                } else {
                    proof {
                        lemma_first_failure_is(all, all.len() as int);
                        assert(all.take(all.len() as int) =~= all);
                    }
                    self.phase = Phase::Yielding;
                    self.target = page.next;
                    let reached = match self.cap {
                        Some(c) => self.pages >= c,
                        None => false,
                    };
                    self.settle(reached);
                }
            },
        }
    }
}

} // verus!
