//! The listener of one chat feed: it estimates how often the chat is
//! polled and paces each batch of comments over that period.

use crate::comment::{ElementView, SerializedComment};
use crate::json::Json;
use crate::pacer::{Pacer, PacerView};
use crate::parser::{batch, parse, parse_json, text_batch};
use crate::rate::{
    after_puts, latest, lemma_mean_of_single_sample, lemma_ring_averages_latest, mean,
    next_cursor, put_slots, CyclicArray, Nanos,
};
use vstd::prelude::*;

verus! {

/// What became of one response body.
#[derive(Debug)]
pub enum BodyOutcome {
    /// The body is no chat continuation. Nothing was recorded.
    Ignored,
    /// The fetch was recorded, but the window holds no sample to average,
    /// so there is no period to pace by. The comments come back unpaced.
    NoPeriod { comments: Vec<SerializedComment> },
    /// The fetch was recorded and the batch is ready to be paced over
    /// `period`, the average polling period.
    Paced { period: Nanos, count: usize, pacer: Pacer },
}

/// The mathematical value of a [`BodyOutcome`].
pub enum OutcomeView {
    Ignored,
    NoPeriod { comments: Seq<Seq<ElementView>> },
    Paced { period: Nanos, count: nat, pacer: PacerView },
}

impl View for BodyOutcome {
    type V = OutcomeView;

    open spec fn view(&self) -> OutcomeView {
        match self {
            BodyOutcome::Ignored => OutcomeView::Ignored,
            BodyOutcome::NoPeriod { comments } => OutcomeView::NoPeriod {
                comments: comments.deep_view(),
            },
            BodyOutcome::Paced { period, count, pacer } => OutcomeView::Paced {
                period: *period,
                count: *count as nat,
                pacer: pacer@,
            },
        }
    }
}

/// The time from the last accepted fetch to `now`: the assumed period
/// before any fetch, and nothing where the clock did not move on.
pub open spec fn elapsed(last: Option<Nanos>, now: Nanos, default_period: Nanos) -> Nanos {
    match last {
        None => default_period,
        Some(last) => if now >= last {
            (now - last) as Nanos
        } else {
            0
        },
    }
}

/// The samples that accepted fetches at `times` put into the window: the
/// assumed period for the first, and for each later one the time since the
/// fetch before it.
pub open spec fn gaps(default_period: Nanos, times: Seq<Nanos>) -> Seq<Nanos>
    decreases times.len(),
{
    if times.len() == 0 {
        Seq::empty()
    } else {
        let earlier = times.drop_last();
        let last = if earlier.len() == 0 {
            None
        } else {
            Some(earlier.last())
        };
        gaps(default_period, earlier).push(elapsed(last, times.last(), default_period))
    }
}

/// The outcome for a batch that is to be paced over the average of
/// `slots`: paced where there is an average, and handed back where there
/// is none.
pub open spec fn paced(slots: Seq<Nanos>, comments: Seq<Seq<ElementView>>) -> OutcomeView {
    match mean(slots) {
        Some(period) => OutcomeView::Paced {
            period: period as Nanos,
            count: comments.len(),
            pacer: PacerView::start(comments, period as Nanos),
        },
        None => OutcomeView::NoPeriod { comments },
    }
}

/// The state of one feed: the window of recent polling periods and the time
/// of the last accepted fetch. `N` is the number of periods averaged.
#[derive(Debug)]
pub struct FeedListener<const N: usize> {
    window: CyclicArray<N>,
    last_fetch: Option<Nanos>,
    default_period: Nanos,
}

impl<const N: usize> FeedListener<N> {
    /// The slots of the window.
    pub closed spec fn slots(&self) -> Seq<Nanos> {
        self.window@
    }

    /// The slot that the next sample goes to.
    pub closed spec fn cursor(&self) -> nat {
        self.window.cursor()
    }

    /// The time of the last accepted fetch, if there was one.
    pub closed spec fn last_fetch(&self) -> Option<Nanos> {
        self.last_fetch
    }

    /// The period assumed for the first fetch.
    pub closed spec fn default_period(&self) -> Nanos {
        self.default_period
    }

    /// Whether the listener is as new: no fetch accepted, no sample held.
    pub open spec fn is_fresh(&self) -> bool {
        &&& self.slots() == Seq::new(N as nat, |i: int| 0u64)
        &&& self.cursor() == 0
        &&& self.last_fetch() is None
    }

    /// How a body with the batch `parsed`, arriving at `now`, takes the
    /// listener from `before` to `after` with `outcome`.
    ///
    /// Without a batch nothing changes and the body is ignored. With one,
    /// the time since the last accepted fetch goes into the window, `now`
    /// becomes the last accepted fetch, and the batch is paced over the
    /// average of the window as it stands afterwards.
    pub open spec fn handled(
        before: Self,
        after: Self,
        parsed: Option<Seq<Seq<ElementView>>>,
        now: Nanos,
        outcome: OutcomeView,
    ) -> bool {
        &&& after.default_period() == before.default_period()
        &&& match parsed {
            None => {
                &&& outcome == OutcomeView::Ignored
                &&& after.slots() == before.slots()
                &&& after.cursor() == before.cursor()
                &&& after.last_fetch() == before.last_fetch()
            },
            Some(comments) => {
                &&& after.last_fetch() == Some(now)
                &&& after.slots() == put_slots(
                    before.slots(),
                    before.cursor(),
                    elapsed(before.last_fetch(), now, before.default_period()),
                )
                &&& after.cursor() == next_cursor(N as nat, before.cursor())
                &&& outcome == paced(after.slots(), comments)
            },
        }
    }

    /// A listener that has seen no fetch yet and assumes `default_period`
    /// for the first.
    pub fn new(default_period: Nanos) -> (listener: Self)
        ensures
            listener.is_fresh(),
            listener.default_period() == default_period,
    {
        FeedListener { window: CyclicArray::new(), last_fetch: None, default_period }
    }

    /// The time of the last accepted fetch, if there was one.
    pub fn last_accepted(&self) -> (last: Option<Nanos>)
        ensures
            last == self.last_fetch(),
    {
        self.last_fetch
    }

    /// The period assumed for the first fetch.
    pub fn assumed_period(&self) -> (period: Nanos)
        ensures
            period == self.default_period(),
    {
        self.default_period
    }

    /// The average polling period as the window stands, if it holds a
    /// sample.
    pub fn period(&self) -> (period: Option<Nanos>)
        ensures
            match period {
                Some(p) => mean(self.slots()) == Some(p as nat),
                None => mean(self.slots()) is None,
            },
    {
        match self.window.average() {
            Ok(period) => Some(period),
            Err(_) => None,
        }
    }

    /// Records a fetch accepted at `now` and returns the average polling
    /// period, if the window holds a sample.
    ///
    /// The sample recorded is the time since the last accepted fetch, or
    /// the assumed period where this is the first. Reading the last time,
    /// setting it and recording the sample are one step: no other fetch can
    /// come between them.
    pub fn record_fetch(&mut self, now: Nanos) -> (period: Option<Nanos>)
        ensures
            final(self).default_period() == old(self).default_period(),
            final(self).last_fetch() == Some(now),
            final(self).slots() == put_slots(
                old(self).slots(),
                old(self).cursor(),
                elapsed(old(self).last_fetch(), now, old(self).default_period()),
            ),
            final(self).cursor() == next_cursor(N as nat, old(self).cursor()),
            match period {
                Some(p) => mean(final(self).slots()) == Some(p as nat),
                None => mean(final(self).slots()) is None,
            },
    {
        let sample = match self.last_fetch {
            None => self.default_period,
            Some(last) => if now >= last {
                now - last
            } else {
                0
            },
        };
        self.last_fetch = Some(now);
        self.window.put(sample);
        self.period()
    }

    /// Takes the batch of an accepted body that arrived at `now`: records
    /// the fetch and paces the comments, none included, over the average
    /// period.
    pub fn on_batch(&mut self, comments: Vec<SerializedComment>, now: Nanos) -> (outcome:
        BodyOutcome)
        ensures
            Self::handled(*old(self), *final(self), Some(comments.deep_view()), now, outcome@),
    {
        match self.record_fetch(now) {
            Some(period) => {
                let count = comments.len();
                BodyOutcome::Paced { period, count, pacer: Pacer::new(comments, period) }
            },
            None => BodyOutcome::NoPeriod { comments },
        }
    }

    /// Takes a decoded response body that arrived at `now`.
    ///
    /// A document that is no chat continuation is ignored and leaves the
    /// listener as it was. Any other is an accepted fetch: it is recorded,
    /// and its comments, none included, are to be paced over the average
    /// period.
    pub fn on_document(&mut self, document: &Json, now: Nanos) -> (outcome: BodyOutcome)
        ensures
            Self::handled(*old(self), *final(self), batch(document@), now, outcome@),
    {
        match parse_json(document) {
            Some(comments) => self.on_batch(comments, now),
            None => BodyOutcome::Ignored,
        }
    }

    /// Takes a response body that arrived at `now`.
    ///
    /// A body that is not JSON is ignored like one that is no chat
    /// continuation; any other is handled as `on_document` handles the
    /// document that it is the text of.
    pub fn on_body(&mut self, raw: &str, now: Nanos) -> (outcome: BodyOutcome)
        ensures
            Self::handled(*old(self), *final(self), text_batch(raw@), now, outcome@),
    {
        match parse(raw) {
            Some(comments) => self.on_batch(comments, now),
            None => BodyOutcome::Ignored,
        }
    }
}

/// The first body ever is paced over the assumed period, whenever it
/// arrives: for a listener that is as new, with at least one slot and an
/// assumed period that is not zero, an accepted batch is paced over just
/// that period.
pub proof fn lemma_first_body_paced_by_default<const N: usize>(
    before: FeedListener<N>,
    after: FeedListener<N>,
    comments: Seq<Seq<ElementView>>,
    now: Nanos,
    outcome: OutcomeView,
)
    requires
        N > 0,
        before.is_fresh(),
        before.default_period() > 0,
        FeedListener::handled(before, after, Some(comments), now, outcome),
    ensures
        outcome == (OutcomeView::Paced {
            period: before.default_period(),
            count: comments.len(),
            pacer: PacerView::start(comments, before.default_period()),
        }),
{
    lemma_mean_of_single_sample(after.slots(), 0);
}

/// The window of a listener holds what the gaps between the accepted
/// bodies put into it: where a new listener accepts bodies at `times`, one
/// after the other, then after the first `count` of them its window is the
/// ring into which the gaps of their times were put, and its last accepted
/// fetch is the last of their times.
pub proof fn lemma_window_holds_gaps<const N: usize>(
    states: Seq<FeedListener<N>>,
    batches: Seq<Seq<Seq<ElementView>>>,
    times: Seq<Nanos>,
    outcomes: Seq<OutcomeView>,
    count: nat,
)
    requires
        states.len() == times.len() + 1,
        batches.len() == times.len(),
        outcomes.len() == times.len(),
        states[0].is_fresh(),
        forall|i: int|
            0 <= i < times.len() ==> #[trigger] FeedListener::handled(
                states[i],
                states[i + 1],
                Some(batches[i]),
                times[i],
                outcomes[i],
            ),
        count <= times.len(),
    ensures
        (states[count as int].slots(), states[count as int].cursor()) == after_puts(
            N as nat,
            gaps(states[0].default_period(), times.take(count as int)),
        ),
        states[count as int].default_period() == states[0].default_period(),
        states[count as int].last_fetch() == if count == 0 {
            None
        } else {
            Some(times[count - 1])
        },
    decreases count,
{
    let default_period = states[0].default_period();
    if count > 0 {
        let last = count - 1;
        lemma_window_holds_gaps(states, batches, times, outcomes, last as nat);
        assert(FeedListener::handled(
            states[last],
            states[last + 1],
            Some(batches[last]),
            times[last],
            outcomes[last],
        ));
        let so_far = times.take(count as int);
        let before = gaps(default_period, times.take(last));
        let gap = elapsed(states[last].last_fetch(), times[last], default_period);
        assert(so_far.drop_last() == times.take(last));
        assert(so_far.last() == times[last]);
        if last > 0 {
            assert(times.take(last).last() == times[last - 1]);
        }
        assert(gaps(default_period, so_far) == before.push(gap));
        assert(before.push(gap).drop_last() == before);
        assert(before.push(gap).last() == gap);
    } else {
        assert(times.take(0).len() == 0);
    }
}

/// Every body is paced over the average of the latest gaps: where a new
/// listener with at least one slot accepts bodies at `times`, one after
/// the other, each of them is paced over the average of the last `N` gaps
/// up to it, or of all where they are fewer, the assumed period counting as
/// the first gap.
pub proof fn lemma_bodies_paced_by_latest_gaps<const N: usize>(
    states: Seq<FeedListener<N>>,
    batches: Seq<Seq<Seq<ElementView>>>,
    times: Seq<Nanos>,
    outcomes: Seq<OutcomeView>,
    at: int,
)
    requires
        N > 0,
        states.len() == times.len() + 1,
        batches.len() == times.len(),
        outcomes.len() == times.len(),
        states[0].is_fresh(),
        forall|i: int|
            0 <= i < times.len() ==> #[trigger] FeedListener::handled(
                states[i],
                states[i + 1],
                Some(batches[i]),
                times[i],
                outcomes[i],
            ),
        0 <= at < times.len(),
    ensures
        outcomes[at] == paced(
            latest(N as nat, gaps(states[0].default_period(), times.take(at + 1))),
            batches[at],
        ),
{
    lemma_window_holds_gaps(states, batches, times, outcomes, (at + 1) as nat);
    assert(FeedListener::handled(
        states[at],
        states[at + 1],
        Some(batches[at]),
        times[at],
        outcomes[at],
    ));
    lemma_ring_averages_latest(
        N as nat,
        gaps(states[0].default_period(), times.take(at + 1)),
    );
}

} // verus!
