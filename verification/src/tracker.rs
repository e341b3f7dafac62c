use vstd::prelude::*;

verus! {

/// The catalogs one provider tracker keeps synchronized, refreshed in this
/// fixed order on every cycle.
#[derive(Clone, Copy, PartialEq, Eq, Structural, Debug)]
pub enum EntityKind {
    Anime,
    Character,
    Manga,
}

/// What happened in the world since the tracker last decided.
#[derive(Clone, Copy, PartialEq, Eq, Structural, Debug)]
pub enum TrackerEvent {
    /// The refresh interval elapsed.
    IntervalElapsed,
    /// The current catalog's full fetch and upsert finished, with success
    /// or failure.
    RefreshFinished(bool),
}

/// Where a provider tracker stands.
#[derive(Clone, Copy, PartialEq, Eq, Structural, Debug)]
pub enum TrackerPhase {
    /// Waiting out the refresh interval.
    Sleeping,
    /// Refreshing this catalog; no other catalog of the same provider is
    /// being refreshed meanwhile.
    Refreshing(EntityKind),
    /// A refresh failed; the loop is over for the rest of the process
    /// lifetime.
    Aborted,
}

/// The next catalog after one is refreshed successfully.
pub open spec fn after_kind(kind: EntityKind) -> TrackerPhase {
    match kind {
        EntityKind::Anime => TrackerPhase::Refreshing(EntityKind::Character),
        EntityKind::Character => TrackerPhase::Refreshing(EntityKind::Manga),
        EntityKind::Manga => TrackerPhase::Sleeping,
    }
}

/// The tracker's whole behaviour: sleep out the interval, then refresh the
/// three catalogs one after the other, then sleep again; the first failed
/// refresh ends the loop for good, and an event that does not belong to the
/// current phase changes nothing.
pub open spec fn tracker_step(phase: TrackerPhase, event: TrackerEvent) -> TrackerPhase {
    match (phase, event) {
        (TrackerPhase::Sleeping, TrackerEvent::IntervalElapsed) => TrackerPhase::Refreshing(
            EntityKind::Anime,
        ),
        (TrackerPhase::Sleeping, TrackerEvent::RefreshFinished(_)) => TrackerPhase::Sleeping,
        (TrackerPhase::Refreshing(kind), TrackerEvent::RefreshFinished(true)) => after_kind(
            kind,
        ),
        (TrackerPhase::Refreshing(_), TrackerEvent::RefreshFinished(false)) => TrackerPhase::Aborted,
        (TrackerPhase::Refreshing(kind), TrackerEvent::IntervalElapsed) => TrackerPhase::Refreshing(
            kind,
        ),
        (TrackerPhase::Aborted, _) => TrackerPhase::Aborted,
    }
}

/// One provider's background synchronizer: on a fixed interval it runs a
/// full-catalog fetch for each of the three entity kinds in turn and
/// upserts each batch into that kind's index collection. It starts asleep,
/// so a fresh process first waits out one whole interval.
///
/// The tracker only decides; the caller sleeps, fetches and upserts, and
/// reports each event back through `on_event`.
pub struct Tracker {
    /// The refresh interval, in hours; fixed at construction for the
    /// process lifetime.
    pub interval_hours: u64,
    /// Where the tracker stands.
    pub phase: TrackerPhase,
}

impl Tracker {
    pub fn new(interval_hours: u64) -> (tracker: Self)
        ensures
            tracker.phase == TrackerPhase::Sleeping,
            tracker.interval_hours == interval_hours,
    {
        Tracker { interval_hours, phase: TrackerPhase::Sleeping }
    }

    /// The refresh interval, in hours.
    pub fn interval_hours(&self) -> (hours: u64)
        ensures
            hours == self.interval_hours,
    {
        self.interval_hours
    }

    /// Where the tracker stands.
    pub fn phase(&self) -> (phase: TrackerPhase)
        ensures
            phase == self.phase,
    {
        self.phase
    }

    /// Accepts one event and moves to the phase `tracker_step` prescribes.
    pub fn on_event(&mut self, event: TrackerEvent)
        ensures
            final(self).phase == tracker_step(old(self).phase, event),
            final(self).interval_hours == old(self).interval_hours,
    {
        self.phase = match (self.phase, event) {
            (TrackerPhase::Sleeping, TrackerEvent::IntervalElapsed) => TrackerPhase::Refreshing(
                EntityKind::Anime,
            ),
            (TrackerPhase::Sleeping, TrackerEvent::RefreshFinished(_)) => TrackerPhase::Sleeping,
            (TrackerPhase::Refreshing(kind), TrackerEvent::RefreshFinished(true)) => match kind {
                EntityKind::Anime => TrackerPhase::Refreshing(EntityKind::Character),
                EntityKind::Character => TrackerPhase::Refreshing(EntityKind::Manga),
                EntityKind::Manga => TrackerPhase::Sleeping,
            },
            (
                TrackerPhase::Refreshing(_),
                TrackerEvent::RefreshFinished(false),
            ) => TrackerPhase::Aborted,
            (TrackerPhase::Refreshing(kind), TrackerEvent::IntervalElapsed) => TrackerPhase::Refreshing(
                kind,
            ),
            (TrackerPhase::Aborted, _) => TrackerPhase::Aborted,
        };
    }
}

/// One successful cycle visits the three catalogs in the fixed order —
/// anime, then character, then manga — strictly one at a time, and returns
/// to sleep.
pub proof fn lemma_refresh_cycle_order()
    ensures
        tracker_step(TrackerPhase::Sleeping, TrackerEvent::IntervalElapsed)
            == TrackerPhase::Refreshing(EntityKind::Anime),
        tracker_step(
            TrackerPhase::Refreshing(EntityKind::Anime),
            TrackerEvent::RefreshFinished(true),
        ) == TrackerPhase::Refreshing(EntityKind::Character),
        tracker_step(
            TrackerPhase::Refreshing(EntityKind::Character),
            TrackerEvent::RefreshFinished(true),
        ) == TrackerPhase::Refreshing(EntityKind::Manga),
        tracker_step(
            TrackerPhase::Refreshing(EntityKind::Manga),
            TrackerEvent::RefreshFinished(true),
        ) == TrackerPhase::Sleeping,
{
}

/// The first failed refresh ends the loop for good: no event leaves the
/// aborted phase.
pub proof fn lemma_abort_is_terminal(event: TrackerEvent)
    ensures
        tracker_step(TrackerPhase::Aborted, event) == TrackerPhase::Aborted,
        forall|kind: EntityKind|
            tracker_step(
                TrackerPhase::Refreshing(kind),
                TrackerEvent::RefreshFinished(false),
            ) == TrackerPhase::Aborted,
{
}

} // verus!
