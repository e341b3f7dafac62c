use otakuhub::search::{IndexQueryOutcome, SearchSession};

/// Drives one search against canned index and live answers, counting how
/// often the live path is taken.
fn run_search(
    index: IndexQueryOutcome<u32>,
    live: Option<Vec<u32>>,
) -> (Vec<u32>, usize) {
    let mut session: SearchSession<u32> = SearchSession::new();
    let mut live_calls: usize = 0;
    session.on_index_outcome(index);
    if session.needs_live_query() {
        live_calls += 1;
        session.on_live_outcome(live);
    }
    assert!(session.is_finished());
    (session.into_results(), live_calls)
}

#[test]
fn index_hits_are_returned_verbatim_without_live_call() {
    let (results, live_calls) =
        run_search(IndexQueryOutcome::Hits(vec![7, 8, 9]), Some(vec![999]));
    assert_eq!(results, vec![7, 8, 9]);
    assert_eq!(live_calls, 0);
}

#[test]
fn empty_index_hits_still_settle_the_search() {
    let (results, live_calls) = run_search(IndexQueryOutcome::Hits(Vec::new()), Some(vec![999]));
    assert_eq!(results, Vec::<u32>::new());
    assert_eq!(live_calls, 0);
}

#[test]
fn unconfigured_index_falls_back_exactly_once() {
    let (results, live_calls) = run_search(IndexQueryOutcome::Unconfigured, Some(vec![4, 5]));
    assert_eq!(results, vec![4, 5]);
    assert_eq!(live_calls, 1);
}

#[test]
fn unreachable_collection_falls_back_exactly_once() {
    let (results, live_calls) =
        run_search(IndexQueryOutcome::CollectionUnavailable, Some(vec![6]));
    assert_eq!(results, vec![6]);
    assert_eq!(live_calls, 1);
}

#[test]
fn failed_query_falls_back_exactly_once() {
    let (results, live_calls) = run_search(IndexQueryOutcome::QueryFailed, Some(vec![1]));
    assert_eq!(results, vec![1]);
    assert_eq!(live_calls, 1);
}

#[test]
fn dead_index_and_dead_upstream_degrade_to_empty() {
    let (results, live_calls) = run_search(IndexQueryOutcome::QueryFailed, None);
    assert_eq!(results, Vec::<u32>::new());
    assert_eq!(live_calls, 1);
}
