use otakuhub::tracker::{EntityKind, Tracker, TrackerEvent, TrackerPhase};

#[test]
fn cycle_visits_the_three_catalogs_in_order() {
    let mut tracker = Tracker::new(12);
    assert_eq!(tracker.interval_hours(), 12);
    assert_eq!(tracker.phase(), TrackerPhase::Sleeping);

    tracker.on_event(TrackerEvent::IntervalElapsed);
    assert_eq!(tracker.phase(), TrackerPhase::Refreshing(EntityKind::Anime));
    tracker.on_event(TrackerEvent::RefreshFinished(true));
    assert_eq!(
        tracker.phase(),
        TrackerPhase::Refreshing(EntityKind::Character)
    );
    tracker.on_event(TrackerEvent::RefreshFinished(true));
    assert_eq!(tracker.phase(), TrackerPhase::Refreshing(EntityKind::Manga));
    tracker.on_event(TrackerEvent::RefreshFinished(true));
    assert_eq!(tracker.phase(), TrackerPhase::Sleeping);

    // the next interval starts the same cycle again
    tracker.on_event(TrackerEvent::IntervalElapsed);
    assert_eq!(tracker.phase(), TrackerPhase::Refreshing(EntityKind::Anime));
}

#[test]
fn first_failed_refresh_aborts_for_good() {
    let mut tracker = Tracker::new(1);
    tracker.on_event(TrackerEvent::IntervalElapsed);
    tracker.on_event(TrackerEvent::RefreshFinished(true));
    tracker.on_event(TrackerEvent::RefreshFinished(false));
    assert_eq!(tracker.phase(), TrackerPhase::Aborted);
    // no event revives the loop
    tracker.on_event(TrackerEvent::IntervalElapsed);
    assert_eq!(tracker.phase(), TrackerPhase::Aborted);
    tracker.on_event(TrackerEvent::RefreshFinished(true));
    assert_eq!(tracker.phase(), TrackerPhase::Aborted);
}

#[test]
fn stray_events_change_nothing() {
    let mut tracker = Tracker::new(1);
    tracker.on_event(TrackerEvent::RefreshFinished(true));
    assert_eq!(tracker.phase(), TrackerPhase::Sleeping);
    tracker.on_event(TrackerEvent::IntervalElapsed);
    tracker.on_event(TrackerEvent::IntervalElapsed);
    assert_eq!(tracker.phase(), TrackerPhase::Refreshing(EntityKind::Anime));
}
