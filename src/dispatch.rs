use vstd::prelude::*;
use vstd::string::StringExecFns;

use crate::text::{decimal_of, push_decimal};

verus! {

/// Milliseconds between two polls for a block that the HTTP provider does not
/// have yet.
pub const POLL_INTERVAL_MS: u64 = 100;

/// Whether a head with this number is selected for execution.
pub open spec fn selected(number: u64, interval: u64) -> bool {
    number % interval == 0
}

/// Whether a block with this number is dispatched under interval `interval`.
pub fn should_dispatch(number: u64, interval: u64) -> (r: bool)
    requires
        interval > 0,
    ensures
        r == selected(number, interval),
{
    number % interval == 0
}

/// The head numbers that are dispatched, in delivery order.
pub fn select_blocks(heads: &Vec<u64>, interval: u64) -> (r: Vec<u64>)
    requires
        interval > 0,
    ensures
        r@ == heads@.filter(|h: u64| selected(h, interval)),
{
    let ghost pred = |h: u64| selected(h, interval);
    let mut r: Vec<u64> = Vec::new();
    let mut i: usize = 0;
    while i < heads.len()
        invariant
            i <= heads@.len(),
            pred == (|h: u64| selected(h, interval)),
            interval > 0,
            r@ == heads@.subrange(0, i as int).filter(pred),
        decreases heads@.len() - i,
    {
        let h = heads[i];
        assert(heads@.subrange(0, i + 1).drop_last() =~= heads@.subrange(0, i as int));
        assert(heads@.subrange(0, i + 1).last() == h);
        proof { reveal(Seq::filter); }
        if should_dispatch(h, interval) {
            r.push(h);
        }
        i = i + 1;
    }
    assert(heads@.subrange(0, heads@.len() as int) =~= heads@);
    r
}

/// Where the dispatcher stands.
#[derive(Debug, Clone, Copy, PartialEq, Eq)]
pub enum DispatchState {
    /// Waiting for the next head.
    Listening,
    /// A selected head arrived; polling until the HTTP provider has the block.
    Waiting(u64),
    /// The block is being executed; no other head is taken meanwhile.
    Running(u64),
}

/// What the outside world reports back to the dispatcher.
#[derive(Debug, PartialEq, Eq)]
pub enum DispatchEvent {
    Head(u64),
    /// Whether the HTTP provider returned the awaited block.
    BlockAvailable(bool),
    /// The outcome of executing the running block, with the failure rendered.
    Executed(Result<(), String>),
}

/// The next thing the dispatcher asks for.
#[derive(Debug, PartialEq, Eq)]
pub enum DispatchAction {
    /// The head is not selected; take the next one.
    Skip,
    PollBlock(u64),
    PollAfter { block: u64, millis: u64 },
    Execute(u64),
    /// Log the message and send it to the alerting service, then take the
    /// next head.
    Alert(String),
    /// The block is done; take the next head.
    Continue,
    /// The event does not belong to the current state; nothing to do.
    Wait,
}

/// Watches the head stream and drives one block execution at a time.
#[derive(Debug)]
pub struct Dispatcher {
    pub interval: u64,
    pub state: DispatchState,
}

/// The message logged and alerted when block `n` fails with message `m`.
pub open spec fn failure_text(n: u64, m: Seq<char>) -> Seq<char> {
    "Error handling block "@ + decimal_of(n as nat) + ": "@ + m
}

/// The state after event `ev`.
pub open spec fn next_state(interval: u64, st: DispatchState, ev: DispatchEvent) -> DispatchState {
    match (st, ev) {
        (DispatchState::Listening, DispatchEvent::Head(h)) => if selected(h, interval) {
            DispatchState::Waiting(h)
        } else {
            DispatchState::Listening
        },
        (DispatchState::Waiting(n), DispatchEvent::BlockAvailable(found)) => if found {
            DispatchState::Running(n)
        } else {
            DispatchState::Waiting(n)
        },
        (DispatchState::Running(_), DispatchEvent::Executed(_)) => DispatchState::Listening,
        _ => st,
    }
}

/// The block whose execution event `ev` starts, if any.
pub open spec fn executes(st: DispatchState, ev: DispatchEvent) -> Option<u64> {
    match (st, ev) {
        (DispatchState::Waiting(n), DispatchEvent::BlockAvailable(true)) => Some(n),
        _ => None,
    }
}

/// The action that answers event `ev` in state `st`.
pub open spec fn reaction(
    interval: u64,
    st: DispatchState,
    ev: DispatchEvent,
    a: DispatchAction,
) -> bool {
    match (st, ev) {
        (DispatchState::Listening, DispatchEvent::Head(h)) => if selected(h, interval) {
            a == DispatchAction::PollBlock(h)
        } else {
            a == DispatchAction::Skip
        },
        (DispatchState::Waiting(n), DispatchEvent::BlockAvailable(found)) => if found {
            a == DispatchAction::Execute(n)
        } else {
            a == DispatchAction::PollAfter { block: n, millis: POLL_INTERVAL_MS }
        },
        (DispatchState::Running(n), DispatchEvent::Executed(r)) => match r {
            Ok(_) => a == DispatchAction::Continue,
            Err(m) => match a {
                DispatchAction::Alert(s) => s@ == failure_text(n, m@),
                _ => false,
            },
        },
        _ => a == DispatchAction::Wait,
    }
}

fn failure_message(n: u64, m: &String) -> (r: String)
    ensures
        r@ == failure_text(n, m@),
{
    let mut s = String::from_str("Error handling block ");
    push_decimal(&mut s, n);
    s.append(": ");
    s.append(m.as_str());
    s
}

impl Dispatcher {
    /// A dispatcher is well formed when its interval is positive.
    pub open spec fn wf(&self) -> bool {
        self.interval > 0
    }

    /// A dispatcher that executes every block whose number is a multiple of
    /// `interval`.
    pub fn new(interval: u64) -> (r: Dispatcher)
        requires
            interval > 0,
        ensures
            r.wf(),
            r.interval == interval,
            r.state == DispatchState::Listening,
    {
        Dispatcher { interval, state: DispatchState::Listening }
    }

    /// Advances the dispatcher on event `ev` and returns what to do next.
    pub fn step(&mut self, ev: DispatchEvent) -> (a: DispatchAction)
        requires
            old(self).wf(),
        ensures
            final(self).wf(),
            final(self).interval == old(self).interval,
            final(self).state == next_state(old(self).interval, old(self).state, ev),
            reaction(old(self).interval, old(self).state, ev, a),
            executes(old(self).state, ev) == (match a {
                DispatchAction::Execute(n) => Some(n),
                _ => None::<u64>,
            }),
    {
        match (self.state, ev) {
            (DispatchState::Listening, DispatchEvent::Head(h)) => {
                if should_dispatch(h, self.interval) {
                    self.state = DispatchState::Waiting(h);
                    DispatchAction::PollBlock(h)
                } else {
                    DispatchAction::Skip
                }
            },
            (DispatchState::Waiting(n), DispatchEvent::BlockAvailable(found)) => {
                if found {
                    self.state = DispatchState::Running(n);
                    DispatchAction::Execute(n)
                } else {
                    DispatchAction::PollAfter { block: n, millis: POLL_INTERVAL_MS }
                }
            },
            (DispatchState::Running(n), DispatchEvent::Executed(r)) => {
                self.state = DispatchState::Listening;
                match r {
                    Ok(_) => DispatchAction::Continue,
                    Err(m) => DispatchAction::Alert(failure_message(n, &m)),
                }
            },
            _ => DispatchAction::Wait,
        }
    }
}

/// The blocks whose execution a run of events starts, in order.
pub open spec fn executed_in(interval: u64, st: DispatchState, evs: Seq<DispatchEvent>) -> Seq<u64>
    decreases evs.len(),
{
    if evs.len() == 0 {
        Seq::empty()
    } else {
        let first = match executes(st, evs[0]) {
            Some(n) => seq![n],
            None => Seq::empty(),
        };
        first + executed_in(interval, next_state(interval, st, evs[0]), evs.drop_first())
    }
}

/// The state after a run of events.
pub open spec fn end_state(interval: u64, st: DispatchState, evs: Seq<DispatchEvent>) -> DispatchState
    decreases evs.len(),
{
    if evs.len() == 0 {
        st
    } else {
        end_state(interval, next_state(interval, st, evs[0]), evs.drop_first())
    }
}

/// `k` polls that do not find the awaited block.
pub open spec fn misses(k: nat) -> Seq<DispatchEvent> {
    Seq::new(k, |i: int| DispatchEvent::BlockAvailable(false))
}

/// What the outside world reports for one head: the head itself and, for a
/// selected one, `k` polls that miss, a poll that finds the block and the
/// outcome of its execution.
pub open spec fn head_events(interval: u64, h: u64, k: nat, out: Result<(), String>) -> Seq<
    DispatchEvent,
> {
    if selected(h, interval) {
        seq![DispatchEvent::Head(h)] + misses(k) + seq![
            DispatchEvent::BlockAvailable(true),
            DispatchEvent::Executed(out),
        ]
    } else {
        seq![DispatchEvent::Head(h)]
    }
}

/// The events for a stream of heads, the `i`-th one found after `ks[i]`
/// missed polls and ending with outcome `outs[i]`.
pub open spec fn delivery(
    interval: u64,
    hs: Seq<u64>,
    ks: Seq<nat>,
    outs: Seq<Result<(), String>>,
) -> Seq<DispatchEvent>
    decreases hs.len(),
{
    if hs.len() == 0 || ks.len() == 0 || outs.len() == 0 {
        Seq::empty()
    } else {
        delivery(interval, hs.drop_last(), ks.drop_last(), outs.drop_last()) + head_events(
            interval,
            hs.last(),
            ks.last(),
            outs.last(),
        )
    }
}

/// Running two stretches of events one after the other.
pub proof fn lemma_run_concat(
    interval: u64,
    st: DispatchState,
    a: Seq<DispatchEvent>,
    b: Seq<DispatchEvent>,
)
    ensures
        executed_in(interval, st, a + b) == executed_in(interval, st, a) + executed_in(
            interval,
            end_state(interval, st, a),
            b,
        ),
        end_state(interval, st, a + b) == end_state(interval, end_state(interval, st, a), b),
    decreases a.len(),
{
    if a.len() == 0 {
        assert(a + b =~= b);
    } else {
        let st2 = next_state(interval, st, a[0]);
        lemma_run_concat(interval, st2, a.drop_first(), b);
        assert((a + b).drop_first() =~= a.drop_first() + b);
        assert((a + b)[0] == a[0]);
        let first = match executes(st, a[0]) {
            Some(n) => seq![n],
            None => Seq::<u64>::empty(),
        };
        assert(first + (executed_in(interval, st2, a.drop_first()) + executed_in(
            interval,
            end_state(interval, st2, a.drop_first()),
            b,
        )) =~= (first + executed_in(interval, st2, a.drop_first())) + executed_in(
            interval,
            end_state(interval, st2, a.drop_first()),
            b,
        ));
    }
}

proof fn lemma_misses(interval: u64, h: u64, k: nat)
    ensures
        executed_in(interval, DispatchState::Waiting(h), misses(k)) == Seq::<u64>::empty(),
        end_state(interval, DispatchState::Waiting(h), misses(k)) == DispatchState::Waiting(h),
    decreases k,
{
    if k > 0 {
        assert(misses(k).drop_first() =~= misses((k - 1) as nat));
        lemma_misses(interval, h, (k - 1) as nat);
        assert(executed_in(interval, DispatchState::Waiting(h), misses(k)) =~= Seq::<u64>::empty());
    } else {
        assert(misses(k) =~= Seq::<DispatchEvent>::empty());
    }
}

proof fn lemma_one_head(interval: u64, h: u64, k: nat, out: Result<(), String>)
    requires
        interval > 0,
    ensures
        executed_in(interval, DispatchState::Listening, head_events(interval, h, k, out)) == (if selected(
            h,
            interval,
        ) {
            seq![h]
        } else {
            Seq::<u64>::empty()
        }),
        end_state(interval, DispatchState::Listening, head_events(interval, h, k, out))
            == DispatchState::Listening,
{
    let l = DispatchState::Listening;
    let head = seq![DispatchEvent::Head(h)];
    reveal_with_fuel(executed_in, 3);
    reveal_with_fuel(end_state, 3);
    assert(head.drop_first() =~= Seq::<DispatchEvent>::empty());
    if selected(h, interval) {
        let w = DispatchState::Waiting(h);
        let tail = seq![DispatchEvent::BlockAvailable(true), DispatchEvent::Executed(out)];
        assert(tail.drop_first() =~= seq![DispatchEvent::Executed(out)]);
        assert(tail.drop_first().drop_first() =~= Seq::<DispatchEvent>::empty());
        assert(executed_in(interval, w, tail) =~= seq![h]);
        lemma_misses(interval, h, k);
        lemma_run_concat(interval, l, head, misses(k));
        lemma_run_concat(interval, l, head + misses(k), tail);
        assert(head + misses(k) + tail == head_events(interval, h, k, out));
        assert(executed_in(interval, l, head + misses(k)) =~= Seq::<u64>::empty());
        assert(executed_in(interval, l, head_events(interval, h, k, out)) =~= seq![h]);
    } else {
        assert(executed_in(interval, l, head) =~= Seq::<u64>::empty());
    }
}

/// Given a stream of heads, each selected one found after any number of
/// missed polls, the dispatcher executes exactly the heads whose number is a
/// multiple of the interval, in the order in which they arrived, one at a
/// time and whatever each execution's outcome, and ends listening for the
/// next head.
pub proof fn lemma_dispatch_order(
    interval: u64,
    hs: Seq<u64>,
    ks: Seq<nat>,
    outs: Seq<Result<(), String>>,
)
    requires
        interval > 0,
        hs.len() == ks.len(),
        hs.len() == outs.len(),
    ensures
        executed_in(interval, DispatchState::Listening, delivery(interval, hs, ks, outs))
            == hs.filter(|h: u64| selected(h, interval)),
        end_state(interval, DispatchState::Listening, delivery(interval, hs, ks, outs))
            == DispatchState::Listening,
    decreases hs.len(),
{
    reveal(Seq::filter);
    if hs.len() > 0 {
        let pre = delivery(interval, hs.drop_last(), ks.drop_last(), outs.drop_last());
        let last = head_events(interval, hs.last(), ks.last(), outs.last());
        lemma_dispatch_order(interval, hs.drop_last(), ks.drop_last(), outs.drop_last());
        lemma_run_concat(interval, DispatchState::Listening, pre, last);
        lemma_one_head(interval, hs.last(), ks.last(), outs.last());
        if !selected(hs.last(), interval) {
            assert(hs.filter(|h: u64| selected(h, interval)) + Seq::<u64>::empty() =~= hs.filter(
                |h: u64| selected(h, interval),
            ));
        }
    } else {
        assert(delivery(interval, hs, ks, outs) =~= Seq::<DispatchEvent>::empty());
    }
}

} // verus!
