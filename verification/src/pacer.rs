//! Spreads a batch of comments evenly over a span of time.
//!
//! The pacer decides what happens next; the caller delivers and sleeps.
//! Each comment is followed by one pause of the same length, the last one
//! too, so that a batch of `n` comments takes `n` pauses in all.

use crate::comment::{ElementView, SerializedComment};
use crate::rate::Nanos;
use vstd::prelude::*;

verus! {

/// What the caller is to do next for a batch.
#[derive(Debug, PartialEq, Eq)]
pub enum PacerAction {
    /// Hand the comment to the display.
    Deliver(SerializedComment),
    /// Sleep for this long.
    Wait(Nanos),
    /// Nothing is left to do.
    Done,
}

/// The mathematical value of a [`PacerAction`].
pub enum PacerActionView {
    Deliver(Seq<ElementView>),
    Wait(Nanos),
    Done,
}

impl View for PacerAction {
    type V = PacerActionView;

    open spec fn view(&self) -> PacerActionView {
        match self {
            PacerAction::Deliver(comment) => PacerActionView::Deliver(comment@),
            PacerAction::Wait(delay) => PacerActionView::Wait(*delay),
            PacerAction::Done => PacerActionView::Done,
        }
    }
}

/// The pause after each of `count` comments spread over `total`: the
/// `count`-th part of it, rounded down, and nothing for an empty batch.
pub open spec fn per_item_delay(total: Nanos, count: nat) -> Nanos {
    if count == 0 {
        0
    } else {
        (total as nat / count) as Nanos
    }
}

/// The state of a pacer: the comments not yet delivered, the pause after
/// each, and whether the pause for the last delivery is still owed.
pub struct PacerView {
    pub pending: Seq<Seq<ElementView>>,
    pub delay: Nanos,
    pub pause_owed: bool,
}

impl PacerView {
    /// The state in which a batch starts.
    pub open spec fn start(batch: Seq<Seq<ElementView>>, total: Nanos) -> PacerView {
        PacerView { pending: batch, delay: per_item_delay(total, batch.len()), pause_owed: false }
    }

    /// The next action: the owed pause, else the first pending comment,
    /// else nothing.
    pub open spec fn action(self) -> PacerActionView {
        if self.pause_owed {
            PacerActionView::Wait(self.delay)
        } else if self.pending.len() > 0 {
            PacerActionView::Deliver(self.pending.first())
        } else {
            PacerActionView::Done
        }
    }

    /// The state once the next action is taken.
    pub open spec fn advance(self) -> PacerView {
        if self.pause_owed {
            PacerView { pause_owed: false, ..self }
        } else if self.pending.len() > 0 {
            PacerView { pending: self.pending.drop_first(), pause_owed: true, ..self }
        } else {
            self
        }
    }

    /// The state after `steps` actions.
    pub open spec fn after(self, steps: nat) -> PacerView
        decreases steps,
    {
        if steps == 0 {
            self
        } else {
            self.advance().after((steps - 1) as nat)
        }
    }
}

/// One more action is one more advance.
pub proof fn lemma_after_next(state: PacerView, steps: nat)
    ensures
        state.after(steps + 1) == state.after(steps).advance(),
    decreases steps,
{
    if steps == 0 {
        assert(state.after(1) == state.advance().after(0));
    } else {
        let rest = (steps - 1) as nat;
        lemma_after_next(state.advance(), rest);
        assert(state.after(steps + 1) == state.advance().after(rest + 1));
        assert(state.after(steps) == state.advance().after(rest));
    }
}

/// After `2 * count` actions, `count` comments are delivered, each followed
/// by its pause.
proof fn lemma_after_pairs(state: PacerView, count: nat)
    requires
        !state.pause_owed,
        count <= state.pending.len(),
    ensures
        state.after(2 * count) == (PacerView {
            pending: state.pending.skip(count as int),
            ..state
        }),
    decreases count,
{
    if count == 0 {
        assert(state.pending.skip(0) == state.pending);
    } else {
        let next = state.advance().advance();
        assert(state.after(2 * count) == next.after((2 * count - 2) as nat)) by {
            reveal_with_fuel(PacerView::after, 3);
        }
        lemma_after_pairs(next, (count - 1) as nat);
        assert(state.pending.drop_first().skip(count - 1) == state.pending.skip(count as int));
    }
}

/// Once nothing is left to do, nothing ever is.
proof fn lemma_done_stays(state: PacerView, steps: nat)
    requires
        state.action() is Done,
    ensures
        state.after(steps) == state,
    decreases steps,
{
    if steps > 0 {
        lemma_done_stays(state, (steps - 1) as nat);
    }
}

/// The whole run of a batch: comment, pause, comment, pause, and so on in
/// the order of the batch, every pause the same part of `total`, and after
/// the pause that follows the last comment nothing more.
pub proof fn lemma_schedule(batch: Seq<Seq<ElementView>>, total: Nanos, step: nat)
    ensures
        PacerView::start(batch, total).after(step).action() == if step >= 2 * batch.len() {
            PacerActionView::Done
        } else if step % 2 == 0 {
            PacerActionView::Deliver(batch[step as int / 2])
        } else {
            PacerActionView::Wait(per_item_delay(total, batch.len()))
        },
{
    let start = PacerView::start(batch, total);
    let count = batch.len();
    if step >= 2 * count {
        lemma_after_pairs(start, count);
        let end = start.after(2 * count);
        assert(end.pending.len() == 0);
        lemma_after_sum(start, 2 * count, (step - 2 * count) as nat);
        lemma_done_stays(end, (step - 2 * count) as nat);
    } else {
        let half = step / 2;
        lemma_after_pairs(start, half);
        if step % 2 == 1 {
            lemma_after_next(start, 2 * half);
        }
    }
}

/// Actions taken in two stretches are the actions taken in one.
pub proof fn lemma_after_sum(state: PacerView, first: nat, second: nat)
    ensures
        state.after(first + second) == state.after(first).after(second),
    decreases first,
{
    if first > 0 {
        lemma_after_sum(state.advance(), (first - 1) as nat, second);
    }
}

/// An empty batch leaves nothing to do, whatever the time to spread it
/// over.
pub proof fn lemma_empty_batch_is_done(total: Nanos)
    ensures
        PacerView::start(Seq::empty(), total).action() is Done,
        PacerView::start(Seq::empty(), total).advance() == PacerView::start(Seq::empty(), total),
{
}

/// The pauses of a batch never add up to more than the time to spread it
/// over, and fall short of it by less than one nanosecond for each comment.
pub proof fn lemma_pauses_fill_total(total: Nanos, count: nat)
    requires
        count > 0,
    ensures
        count * per_item_delay(total, count) <= total,
        total < count * per_item_delay(total, count) + count,
{
    let delay = total as nat / count;
    assert(count * delay <= total && total < count * delay + count) by (nonlinear_arith)
        requires
            count > 0,
            delay == total as nat / count,
    ;
}

/// Paces one batch of comments.
#[derive(Debug)]
pub struct Pacer {
    /// The comments not yet delivered, the next one last.
    stack: Vec<SerializedComment>,
    delay: Nanos,
    pause_owed: bool,
}

impl View for Pacer {
    type V = PacerView;

    closed spec fn view(&self) -> PacerView {
        PacerView {
            pending: self.stack.deep_view().reverse(),
            delay: self.delay,
            pause_owed: self.pause_owed,
        }
    }
}

impl Pacer {
    /// A pacer that spreads `items` over `total`, in their order. For an
    /// empty batch there is nothing to do and no delay to compute.
    pub fn new(items: Vec<SerializedComment>, total: Nanos) -> (pacer: Self)
        ensures
            pacer@ == PacerView::start(items.deep_view(), total),
    {
        let count = items.len();
        let delay = if count == 0 {
            0
        } else {
            total / (count as u64)
        };
        let ghost batch = items.deep_view();
        let mut items = items;
        let mut stack: Vec<SerializedComment> = Vec::new();
        while items.len() > 0
            invariant
                items@.len() + stack@.len() == batch.len(),
                items.deep_view() == batch.take(items@.len() as int),
                stack.deep_view().reverse() == batch.skip(items@.len() as int),
            decreases items@.len(),
        {
            let ghost before = stack.deep_view();
            let ghost n = items@.len() as int;
            proof {
                assert(items.deep_view()[n - 1] == items@[n - 1]@);
                assert(batch.take(n)[n - 1] == batch[n - 1]);
            }
            let ghost whole = items.deep_view();
            let item = items.pop().unwrap();
            stack.push(item);
            proof {
                assert(item@ == batch[n - 1]);
                assert(stack.deep_view() == before.push(item@));
                assert(items.deep_view() == whole.take(n - 1));
                assert(whole.take(n - 1) == batch.take(n - 1));
                assert(before.push(item@).reverse() == seq![item@] + before.reverse());
                assert(seq![item@] + batch.skip(n) == batch.skip(n - 1));
            }
        }
        proof {
            assert(batch.skip(0) == batch);
        }
        Pacer { stack, delay, pause_owed: false }
    }

    /// Whether nothing is left to do.
    pub fn is_done(&self) -> (done: bool)
        ensures
            done == (self@.action() is Done),
    {
        !self.pause_owed && self.stack.len() == 0
    }

    /// The next action, which the caller is to perform before it asks for
    /// another: first comment, pause, second comment, pause, and so on to
    /// the pause after the last comment, and `Done` from then on.
    pub fn next_action(&mut self) -> (action: PacerAction)
        ensures
            action@ == old(self)@.action(),
            final(self)@ == old(self)@.advance(),
    {
        if self.pause_owed {
            self.pause_owed = false;
            return PacerAction::Wait(self.delay);
        }
        let ghost before = self.stack.deep_view();
        match self.stack.pop() {
            Some(comment) => {
                self.pause_owed = true;
                proof {
                    assert(before == self.stack.deep_view().push(comment@));
                    assert(before.reverse() == seq![comment@] + self.stack.deep_view().reverse());
                    assert(before.reverse().drop_first() == self.stack.deep_view().reverse());
                }
                PacerAction::Deliver(comment)
            },
            None => PacerAction::Done,
        }
    }
}

} // verus!
