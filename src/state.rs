use vstd::prelude::*;

verus! {

/// Whether tiles are being (re)drawn.
#[derive(Clone, Copy, Debug, PartialEq, Eq, Structural)]
pub enum AppState {
    Idle,
    DrawTerrain,
}

/// What happens to the application.
#[derive(Clone, Copy, Debug, PartialEq, Eq, Structural)]
pub enum Event {
    /// A run's output was decoded and stored.
    RunSucceeded,
    /// A run failed at any step.
    RunFailed,
    /// A render pass ended.
    RenderDone,
}

/// The state that follows `state` on `event`: a stored result leads from
/// `Idle` to `DrawTerrain`, the end of a render pass leads back to `Idle`,
/// and nothing else moves.
pub open spec fn next_state(state: AppState, event: Event) -> AppState {
    match (state, event) {
        (AppState::Idle, Event::RunSucceeded) => AppState::DrawTerrain,
        (_, Event::RenderDone) => AppState::Idle,
        _ => state,
    }
}

/// The state reached from `start` after `events`, first to last.
pub open spec fn state_after(start: AppState, events: Seq<Event>) -> AppState
    decreases events.len(),
{
    if events.len() == 0 {
        start
    } else {
        next_state(state_after(start, events.drop_last()), events.last())
    }
}

/// How many of the steps from `start` through `events` move into `target`
/// from another state.
pub open spec fn arrivals(start: AppState, events: Seq<Event>, target: AppState) -> nat
    decreases events.len(),
{
    if events.len() == 0 {
        0
    } else {
        let before = state_after(start, events.drop_last());
        let after = next_state(before, events.last());
        arrivals(start, events.drop_last(), target) + if after == target && before != target {
            1nat
        } else {
            0nat
        }
    }
}

/// The events of one run: a stored result and the render pass it starts, or
/// a failure.
pub open spec fn run_events(succeeded: bool) -> Seq<Event> {
    if succeeded {
        seq![Event::RunSucceeded, Event::RenderDone]
    } else {
        seq![Event::RunFailed]
    }
}

/// The events of runs with the given outcomes, one run after another.
pub open spec fn session_events(runs: Seq<bool>) -> Seq<Event>
    decreases runs.len(),
{
    if runs.len() == 0 {
        Seq::empty()
    } else {
        session_events(runs.drop_last()) + run_events(runs.last())
    }
}

/// How many of the runs succeeded.
pub open spec fn successes(runs: Seq<bool>) -> nat
    decreases runs.len(),
{
    if runs.len() == 0 {
        0
    } else {
        successes(runs.drop_last()) + if runs.last() {
            1nat
        } else {
            0nat
        }
    }
}

/// Stepping through two event sequences in turn is stepping through the
/// second from where the first ends.
pub proof fn lemma_steps_concat(start: AppState, a: Seq<Event>, b: Seq<Event>, target: AppState)
    ensures
        state_after(start, a + b) == state_after(state_after(start, a), b),
        arrivals(start, a + b, target) == arrivals(start, a, target) + arrivals(
            state_after(start, a),
            b,
            target,
        ),
    decreases b.len(),
{
    if b.len() == 0 {
        assert(a + b =~= a);
    } else {
        assert((a + b).drop_last() =~= a + b.drop_last());
        lemma_steps_concat(start, a, b.drop_last(), target);
    }
}

/// From `Idle`, every successful run moves into `DrawTerrain` exactly once
/// and back into `Idle` exactly once, every failed run moves nowhere, and
/// the application rests in `Idle` after each run.
pub proof fn lemma_runs_transitions(runs: Seq<bool>)
    ensures
        state_after(AppState::Idle, session_events(runs)) == AppState::Idle,
        arrivals(AppState::Idle, session_events(runs), AppState::DrawTerrain) == successes(runs),
        arrivals(AppState::Idle, session_events(runs), AppState::Idle) == successes(runs),
    decreases runs.len(),
{
    if runs.len() > 0 {
        let prefix = session_events(runs.drop_last());
        let last = run_events(runs.last());
        lemma_runs_transitions(runs.drop_last());
        lemma_steps_concat(AppState::Idle, prefix, last, AppState::DrawTerrain);
        lemma_steps_concat(AppState::Idle, prefix, last, AppState::Idle);
        if runs.last() {
            let first = last.drop_last();
            assert(first =~= seq![Event::RunSucceeded]);
            assert(first.drop_last() =~= Seq::<Event>::empty());
            assert(state_after(AppState::Idle, first.drop_last()) == AppState::Idle);
            assert(arrivals(AppState::Idle, first.drop_last(), AppState::DrawTerrain) == 0);
            assert(arrivals(AppState::Idle, first.drop_last(), AppState::Idle) == 0);
            assert(state_after(AppState::Idle, first) == AppState::DrawTerrain);
            assert(arrivals(AppState::Idle, first, AppState::DrawTerrain) == 1);
            assert(arrivals(AppState::Idle, first, AppState::Idle) == 0);
            assert(arrivals(AppState::Idle, last, AppState::DrawTerrain) == 1);
            assert(arrivals(AppState::Idle, last, AppState::Idle) == 1);
        } else {
            assert(last.drop_last() =~= Seq::<Event>::empty());
            assert(state_after(AppState::Idle, last.drop_last()) == AppState::Idle);
            assert(arrivals(AppState::Idle, last.drop_last(), AppState::DrawTerrain) == 0);
            assert(arrivals(AppState::Idle, last.drop_last(), AppState::Idle) == 0);
            assert(arrivals(AppState::Idle, last, AppState::DrawTerrain) == 0);
            assert(arrivals(AppState::Idle, last, AppState::Idle) == 0);
        }
    }
}

impl AppState {
    /// The state that follows on `event`.
    pub fn next(self, event: Event) -> (r: AppState)
        ensures
            r == next_state(self, event),
    {
        match (self, event) {
            (AppState::Idle, Event::RunSucceeded) => AppState::DrawTerrain,
            (_, Event::RenderDone) => AppState::Idle,
            _ => self,
        }
    }
}

} // verus!
