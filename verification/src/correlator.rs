//! Which responses belong to the chat, and how long to poll for their body.
//!
//! The browser reports that a response arrived, not when its body can be
//! read, so the body is polled for. The caller owns the clock and the
//! browser: it performs each [`PollAction`] and reports each fetch back.

use crate::rate::Nanos;
use crate::text::{blank, is_blank, starts_with};
use vstd::prelude::*;

verus! {

/// The notice that the browser saw one response.
#[derive(Debug, PartialEq, Eq)]
pub struct NetworkResponseEvent {
    /// The browser's name for the request; it stays the same for as long
    /// as the response is spoken of.
    pub request_id: String,
    /// The address that the response came from.
    pub url: String,
}

/// What one attempt to fetch a body gave.
#[derive(Debug, PartialEq, Eq)]
pub enum BodyFetchResult {
    /// The body as it stands now; it may still be empty.
    Body(String),
    /// The fetch itself failed.
    TransportError,
}

/// The mathematical value of a [`BodyFetchResult`].
pub enum FetchView {
    Body(Seq<char>),
    TransportError,
}

impl View for BodyFetchResult {
    type V = FetchView;

    open spec fn view(&self) -> FetchView {
        match self {
            BodyFetchResult::Body(body) => FetchView::Body(body@),
            BodyFetchResult::TransportError => FetchView::TransportError,
        }
    }
}

/// Why a response was given up.
#[derive(Clone, Copy, Debug, PartialEq, Eq)]
pub enum Abandoned {
    /// A fetch failed.
    TransportError,
    /// Every attempt found the body empty.
    BudgetExhausted,
}

/// What the caller is to do next for a response.
#[derive(Debug, PartialEq, Eq)]
pub enum PollAction {
    /// Nothing: the response is none of the chat's, or it is done with.
    Ignore,
    /// Sleep for `interval`, fetch the body, and report what came.
    WaitThenFetch { interval: Nanos },
    /// Pass `body` on for processing, without waiting for that to end.
    HandOff { body: String },
    /// Report the reason and drop the response.
    Abandon { reason: Abandoned },
}

/// The mathematical value of a [`PollAction`].
pub enum ActionView {
    Ignore,
    WaitThenFetch { interval: Nanos },
    HandOff { body: Seq<char> },
    Abandon { reason: Abandoned },
}

impl View for PollAction {
    type V = ActionView;

    open spec fn view(&self) -> ActionView {
        match self {
            PollAction::Ignore => ActionView::Ignore,
            PollAction::WaitThenFetch { interval } => ActionView::WaitThenFetch {
                interval: *interval,
            },
            PollAction::HandOff { body } => ActionView::HandOff { body: body@ },
            PollAction::Abandon { reason } => ActionView::Abandon { reason: *reason },
        }
    }
}

/// The first action for a response: poll where it is the chat's and the
/// budget allows a fetch.
pub open spec fn first_action(relevant: bool, budget: nat, interval: Nanos) -> ActionView {
    if !relevant {
        ActionView::Ignore
    } else if budget == 0 {
        ActionView::Abandon { reason: Abandoned::BudgetExhausted }
    } else {
        ActionView::WaitThenFetch { interval }
    }
}

/// The fetches still allowed once the first action is taken.
pub open spec fn first_remaining(relevant: bool, budget: nat) -> nat {
    if relevant {
        budget
    } else {
        0
    }
}

/// The action that follows a fetch, where `remaining` fetches were allowed
/// before it, the one reported among them.
pub open spec fn next_action(remaining: nat, interval: Nanos, fetched: FetchView) -> ActionView {
    if remaining == 0 {
        ActionView::Ignore
    } else {
        match fetched {
            FetchView::TransportError => ActionView::Abandon { reason: Abandoned::TransportError },
            FetchView::Body(body) => if !blank(body) {
                ActionView::HandOff { body }
            } else if remaining == 1 {
                ActionView::Abandon { reason: Abandoned::BudgetExhausted }
            } else {
                ActionView::WaitThenFetch { interval }
            },
        }
    }
}

/// The fetches still allowed after a fetch: one fewer while the body stays
/// empty, none once the response is handed off or given up.
pub open spec fn next_remaining(remaining: nat, fetched: FetchView) -> nat {
    match fetched {
        FetchView::Body(body) => if remaining > 0 && blank(body) {
            (remaining - 1) as nat
        } else {
            0
        },
        FetchView::TransportError => 0,
    }
}

/// The fetches still allowed after the results `fetched` came in, one by
/// one, where `remaining` were allowed before the first of them.
pub open spec fn remaining_after(remaining: nat, fetched: Seq<FetchView>) -> nat
    decreases fetched.len(),
{
    if fetched.len() == 0 {
        remaining
    } else {
        next_remaining(remaining_after(remaining, fetched.drop_last()), fetched.last())
    }
}

/// The budget bounds the polling: while it goes on, every body so far was
/// blank and each has used up one fetch of the budget, so no response is
/// fetched for more often than the budget says.
pub proof fn lemma_budget_bounds_polling(budget: nat, fetched: Seq<FetchView>)
    ensures
        remaining_after(budget, fetched) <= budget,
        remaining_after(budget, fetched) > 0 ==> {
            &&& remaining_after(budget, fetched) + fetched.len() == budget
            &&& forall|i: int|
                0 <= i < fetched.len() ==> (#[trigger] fetched[i] matches FetchView::Body(body)
                    && blank(body))
        },
    decreases fetched.len(),
{
    if fetched.len() > 0 {
        let front = fetched.drop_last();
        lemma_budget_bounds_polling(budget, front);
        if remaining_after(budget, fetched) > 0 {
            assert forall|i: int| 0 <= i < fetched.len() implies (
            #[trigger] fetched[i] matches FetchView::Body(body) && blank(body)) by {
                if i < front.len() {
                    assert(front[i] == fetched[i]);
                }
            }
        }
    }
}

/// Bodies that stay blank use up the budget: each but the last asks for
/// another fetch, and the last one that the budget allows ends the polling.
pub proof fn lemma_blank_bodies_exhaust_budget(
    budget: nat,
    interval: Nanos,
    fetched: Seq<FetchView>,
    body: Seq<char>,
)
    requires
        fetched.len() < budget,
        forall|i: int|
            0 <= i < fetched.len() ==> (#[trigger] fetched[i] matches FetchView::Body(b) && blank(
                b,
            )),
        blank(body),
    ensures
        remaining_after(budget, fetched) == budget - fetched.len(),
        next_action(remaining_after(budget, fetched), interval, FetchView::Body(body)) == if
            fetched.len() + 1 == budget {
            ActionView::Abandon { reason: Abandoned::BudgetExhausted }
        } else {
            ActionView::WaitThenFetch { interval }
        },
    decreases fetched.len(),
{
    if fetched.len() > 0 {
        let front = fetched.drop_last();
        assert forall|i: int| 0 <= i < front.len() implies (
        #[trigger] front[i] matches FetchView::Body(b) && blank(b)) by {
            assert(front[i] == fetched[i]);
        }
        assert(fetched[fetched.len() - 1] == fetched.last());
        lemma_blank_bodies_exhaust_budget(budget, interval, front, fetched.last()->Body_0);
    }
}

/// The polling of one response for its body.
#[derive(Debug)]
pub struct PendingBody {
    request_id: String,
    remaining: usize,
    interval: Nanos,
}

impl PendingBody {
    /// The browser's name for the request that is polled for.
    pub closed spec fn id(&self) -> Seq<char> {
        self.request_id@
    }

    /// The browser's name for the request that is polled for.
    pub fn request_id(&self) -> (id: &str)
        ensures
            id@ == self.id(),
    {
        self.request_id.as_str()
    }

    /// Fetches still allowed, the one under way among them; zero once the
    /// response is done with.
    pub closed spec fn remaining(&self) -> nat {
        self.remaining as nat
    }

    /// The pause before each fetch.
    pub closed spec fn interval(&self) -> Nanos {
        self.interval
    }

    /// Fetches still allowed, the one under way among them.
    pub fn attempts_left(&self) -> (left: usize)
        ensures
            left == self.remaining(),
    {
        self.remaining
    }

    /// Whether the response is done with.
    pub fn is_finished(&self) -> (finished: bool)
        ensures
            finished == (self.remaining() == 0),
    {
        self.remaining == 0
    }

    /// Takes the result of the fetch that the last action asked for.
    ///
    /// An error ends the polling, and so does a body that is not blank, which
    /// is handed off as it is. A blank body asks for another fetch while the
    /// budget lasts. Once the polling has ended, further results are ignored.
    pub fn on_fetch(&mut self, fetched: BodyFetchResult) -> (action: PollAction)
        ensures
            action@ == next_action(old(self).remaining(), old(self).interval(), fetched@),
            final(self).remaining() == next_remaining(old(self).remaining(), fetched@),
            final(self).interval() == old(self).interval(),
            final(self).id() == old(self).id(),
    {
        if self.remaining == 0 {
            return PollAction::Ignore;
        }
        match fetched {
            BodyFetchResult::TransportError => {
                self.remaining = 0;
                PollAction::Abandon { reason: Abandoned::TransportError }
            },
            BodyFetchResult::Body(body) => {
                if !is_blank(body.as_str()) {
                    self.remaining = 0;
                    PollAction::HandOff { body }
                } else {
                    self.remaining = self.remaining - 1;
                    if self.remaining == 0 {
                        PollAction::Abandon { reason: Abandoned::BudgetExhausted }
                    } else {
                        PollAction::WaitThenFetch { interval: self.interval }
                    }
                }
            },
        }
    }
}

/// Picks the chat's poll responses out of all that the browser sees and
/// sets the budget for reading their bodies.
#[derive(Debug)]
pub struct ResponseCorrelator {
    prefix: String,
    poll_count: usize,
    poll_interval: Nanos,
}

impl ResponseCorrelator {
    /// The address prefix of the chat's poll requests.
    pub closed spec fn prefix(&self) -> Seq<char> {
        self.prefix@
    }

    /// The most fetches tried for one response.
    pub closed spec fn poll_count(&self) -> nat {
        self.poll_count as nat
    }

    /// The pause before each fetch.
    pub closed spec fn poll_interval(&self) -> Nanos {
        self.poll_interval
    }

    /// Whether a response from `url` is one of the chat's.
    pub open spec fn relevant(&self, url: Seq<char>) -> bool {
        self.prefix().is_prefix_of(url)
    }

    /// A correlator for responses whose address begins with `prefix`, which
    /// tries up to `poll_count` fetches, `poll_interval` apart.
    pub fn new(prefix: String, poll_count: usize, poll_interval: Nanos) -> (correlator: Self)
        ensures
            correlator.prefix() == prefix@,
            correlator.poll_count() == poll_count,
            correlator.poll_interval() == poll_interval,
    {
        ResponseCorrelator { prefix, poll_count, poll_interval }
    }

    /// Whether a response from `url` is one of the chat's.
    pub fn is_relevant(&self, url: &str) -> (answer: bool)
        ensures
            answer == self.relevant(url@),
    {
        starts_with(url, self.prefix.as_str())
    }

    /// Takes the notice that a response arrived.
    ///
    /// A response of the chat's starts a polling with the whole budget; any
    /// other is ignored, and its polling is finished from the start.
    pub fn on_response(&self, event: NetworkResponseEvent) -> (started: (PendingBody, PollAction))
        ensures
            started.1@ == first_action(
                self.relevant(event.url@),
                self.poll_count(),
                self.poll_interval(),
            ),
            started.0.remaining() == first_remaining(
                self.relevant(event.url@),
                self.poll_count(),
            ),
            started.0.interval() == self.poll_interval(),
            started.0.id() == event.request_id@,
    {
        let relevant = self.is_relevant(event.url.as_str());
        let request_id = event.request_id;
        if !relevant {
            return (
                PendingBody { request_id, remaining: 0, interval: self.poll_interval },
                PollAction::Ignore,
            );
        }
        let pending = PendingBody {
            request_id,
            remaining: self.poll_count,
            interval: self.poll_interval,
        };
        if self.poll_count == 0 {
            (pending, PollAction::Abandon { reason: Abandoned::BudgetExhausted })
        } else {
            (pending, PollAction::WaitThenFetch { interval: self.poll_interval })
        }
    }
}

} // verus!
