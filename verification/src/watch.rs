use crate::engine::OutputFile;
use crate::errors::BuildError;
use vstd::prelude::*;

verus! {

/// The debouncer of the watch loop: raw filesystem events within a
/// quiescence window coalesce into a single rebuild trigger. Every event
/// pushes the deadline out by the window; a poll fires only once the
/// deadline has passed, and firing clears it.
pub struct Debouncer {
    pub window_ms: u64,
    pub deadline: Option<u64>,
}

/// Whether a poll at `now` fires the pending trigger.
pub open spec fn fires(d: Debouncer, now: u64) -> bool {
    match d.deadline {
        Some(deadline) => now >= deadline,
        None => false,
    }
}

/// The debouncer state after a poll at `now`.
pub open spec fn after_poll(d: Debouncer, now: u64) -> Debouncer {
    if fires(d, now) {
        Debouncer { deadline: None, ..d }
    } else {
        d
    }
}

/// The debouncer state after an event at `now`.
pub open spec fn after_event(d: Debouncer, now: u64) -> Debouncer {
    Debouncer { deadline: Some((now + d.window_ms) as u64), ..d }
}

/// The debouncer state after a burst of events at the given times.
pub open spec fn after_events(d: Debouncer, times: Seq<u64>) -> Debouncer
    decreases times.len(),
{
    if times.len() == 0 {
        d
    } else {
        after_event(after_events(d, times.drop_last()), times.last())
    }
}

/// How many of the given polls, in order, fire.
pub open spec fn count_fires(d: Debouncer, polls: Seq<u64>) -> nat
    decreases polls.len(),
{
    if polls.len() == 0 {
        0
    } else {
        (if fires(d, polls[0]) {
            1nat
        } else {
            0nat
        }) + count_fires(after_poll(d, polls[0]), polls.drop_first())
    }
}

impl Debouncer {
    /// A fresh debouncer with the given quiescence window and no pending
    /// trigger.
    pub fn new(window_ms: u64) -> (d: Debouncer)
        ensures
            d.window_ms == window_ms,
            d.deadline is None,
    {
        Debouncer { window_ms, deadline: None }
    }

    /// Notes one raw filesystem event at time `now`: the deadline moves
    /// to `now` plus the window, coalescing this event with every
    /// earlier one still pending.
    pub fn note_event(&mut self, now: u64)
        requires
            now + old(self).window_ms <= u64::MAX,
        ensures
            *final(self) == after_event(*old(self), now),
    {
        self.deadline = Some(now + self.window_ms);
    }

    /// Polls at time `now`: fires exactly when a deadline is pending and
    /// has passed, and firing clears the pending trigger.
    pub fn poll(&mut self, now: u64) -> (fired: bool)
        ensures
            fired == fires(*old(self), now),
            *final(self) == after_poll(*old(self), now),
    {
        match self.deadline {
            Some(deadline) => {
                if now >= deadline {
                    self.deadline = None;
                    true
                } else {
                    false
                }
            },
            None => false,
        }
    }
}

/// With no pending deadline, no poll ever fires.
proof fn lemma_no_deadline_no_fire(d: Debouncer, polls: Seq<u64>)
    requires
        d.deadline is None,
    ensures
        count_fires(d, polls) == 0,
    decreases polls.len(),
{
    if polls.len() > 0 {
        lemma_no_deadline_no_fire(after_poll(d, polls[0]), polls.drop_first());
    }
}

/// A burst of events leaves a single deadline: the last event's time
/// plus the window.
pub proof fn lemma_burst_single_deadline(d: Debouncer, times: Seq<u64>)
    requires
        times.len() > 0,
    ensures
        after_events(d, times).window_ms == d.window_ms,
        after_events(d, times).deadline == Some(
            (times.last() + after_events(d, times).window_ms) as u64,
        ),
    decreases times.len(),
{
    if times.len() > 1 {
        lemma_burst_single_deadline(d, times.drop_last());
    } else {
        assert(after_events(d, times.drop_last()) == d);
    }
}

/// Debounce law, first half: whatever events arrived, a run of polls
/// fires at most once — a burst of events never triggers more than one
/// rebuild.
pub proof fn lemma_debounce_at_most_one(d: Debouncer, polls: Seq<u64>)
    ensures
        count_fires(d, polls) <= 1,
    decreases polls.len(),
{
    if polls.len() > 0 {
        if fires(d, polls[0]) {
            lemma_no_deadline_no_fire(after_poll(d, polls[0]), polls.drop_first());
        } else {
            lemma_debounce_at_most_one(after_poll(d, polls[0]), polls.drop_first());
        }
    }
}

/// Debounce law, second half: after a burst of events, a run of polls
/// among which some poll reaches the quiescence deadline fires exactly
/// once — the burst triggers exactly one rebuild, not one per event.
pub proof fn lemma_debounce_exactly_one(d: Debouncer, times: Seq<u64>, polls: Seq<u64>)
    requires
        times.len() > 0,
        exists|i: int|
            0 <= i < polls.len() && #[trigger] polls[i] >= (times.last()
                + after_events(d, times).window_ms) as u64,
    ensures
        count_fires(after_events(d, times), polls) == 1,
{
    lemma_burst_single_deadline(d, times);
    lemma_some_fire(after_events(d, times), polls);
}

/// With a pending deadline that some poll reaches, the polls fire
/// exactly once.
proof fn lemma_some_fire(d: Debouncer, polls: Seq<u64>)
    requires
        d.deadline matches Some(deadline) && exists|i: int|
            0 <= i < polls.len() && #[trigger] polls[i] >= deadline,
    ensures
        count_fires(d, polls) == 1,
    decreases polls.len(),
{
    let deadline = d.deadline.unwrap();
    if fires(d, polls[0]) {
        lemma_no_deadline_no_fire(after_poll(d, polls[0]), polls.drop_first());
    } else {
        let i = choose|i: int| 0 <= i < polls.len() && #[trigger] polls[i] >= deadline;
        assert(polls.drop_first()[i - 1] == polls[i]);
        lemma_some_fire(after_poll(d, polls[0]), polls.drop_first());
    }
}

/// The rebuild coordinator: at most one build runs at a time. A change
/// signal arriving mid-build is remembered, and any number of them
/// coalesce into at most one follow-up build when the running build
/// finishes.
pub struct BuildCoordinator {
    pub building: bool,
    pub pending: bool,
}

impl BuildCoordinator {
    /// A fresh coordinator: nothing building, nothing pending.
    pub fn new() -> (c: BuildCoordinator)
        ensures
            !c.building && !c.pending,
    {
        BuildCoordinator { building: false, pending: false }
    }

    /// Takes one coalesced change signal. A build starts exactly when
    /// none is running; a signal arriving mid-build is only remembered,
    /// so no two builds ever run at once.
    pub fn on_change(&mut self) -> (start_build: bool)
        ensures
            start_build == !old(self).building,
            final(self).building,
            final(self).pending == (old(self).building || old(self).pending),
    {
        if self.building {
            self.pending = true;
            false
        } else {
            self.building = true;
            true
        }
    }

    /// Takes the end of the running build. At most one follow-up build
    /// starts, exactly when change signals arrived mid-build, however
    /// many there were.
    pub fn on_build_done(&mut self) -> (start_again: bool)
        requires
            old(self).building,
        ensures
            start_again == old(self).pending,
            final(self).building == old(self).pending,
            !final(self).pending,
    {
        if self.pending {
            self.pending = false;
            true
        } else {
            self.building = false;
            false
        }
    }
}

/// The coordinator state after `n` change signals arrive mid-build.
pub open spec fn after_changes(c: BuildCoordinator, n: nat) -> BuildCoordinator
    decreases n,
{
    if n == 0 {
        c
    } else {
        BuildCoordinator { building: true, pending: true }
    }
}

/// Coalescing law: however many change signals arrive while a build is
/// running, none starts a build at once, and when the running build
/// finishes exactly one follow-up build starts.
pub proof fn lemma_mid_build_signals_coalesce(c: BuildCoordinator, n: nat)
    requires
        c.building,
        n > 0,
    ensures
        after_changes(c, n) == (BuildCoordinator { building: true, pending: true }),
        after_changes(c, n).building,
        after_changes(c, n).pending,
{
}

/// The served site: what a reader of the output directory sees. Only a
/// successful build replaces the files; a failed build leaves them
/// exactly as they were, still servable.
pub struct ServedSite {
    pub files: Vec<OutputFile>,
}

impl ServedSite {
    /// A site serving the given files.
    pub fn new(files: Vec<OutputFile>) -> (s: ServedSite)
        ensures
            s.files@.map_values(|f: OutputFile| f@) == files@.map_values(|f: OutputFile| f@),
    {
        ServedSite { files }
    }

    /// Applies one rebuild outcome. Rebuild isolation: a failed rebuild
    /// leaves the previously served files unchanged; a successful one
    /// replaces them entirely.
    pub fn apply_build(&mut self, outcome: Result<Vec<OutputFile>, BuildError>) -> (replaced: bool)
        ensures
            match outcome {
                Ok(files) => replaced && final(self).files@.map_values(|f: OutputFile| f@)
                    == files@.map_values(|f: OutputFile| f@),
                Err(_) => !replaced && final(self).files@.map_values(|f: OutputFile| f@) == old(
                    self,
                ).files@.map_values(|f: OutputFile| f@),
            },
    {
        match outcome {
            Ok(files) => {
                self.files = files;
                true
            },
            Err(_) => false,
        }
    }
}

} // verus!
