use otakuhub::fetch::{
    planned_pages, should_fetch_catalog, single_query_records, FetchController, PageOutcome,
};

fn page_records(page: u32, per_page: u32) -> Vec<u32> {
    (0..per_page).map(|i| page * 1000 + i).collect()
}

#[test]
fn pagination_completeness_all_pages_succeed() {
    // K pages of R records each: exactly K*R records come back, as a set
    let pages: u32 = 4;
    let per_page: u32 = 25;
    let mut controller: FetchController<u32> = FetchController::new(pages, 3);
    loop {
        let mut advanced = false;
        while let Some(page) = controller.start_page() {
            advanced = true;
            assert!(controller.complete_page(
                page,
                PageOutcome::Success(page_records(page, per_page))
            ));
        }
        if controller.is_done() {
            break;
        }
        assert!(advanced);
    }
    let mut records = controller.into_records();
    assert_eq!(records.len(), (pages * per_page) as usize);
    records.sort_unstable();
    records.dedup();
    assert_eq!(records.len(), (pages * per_page) as usize);
    for page in 1..=pages {
        for r in page_records(page, per_page) {
            assert!(records.binary_search(&r).is_ok());
        }
    }
}

#[test]
fn partial_failure_keeps_the_other_pages() {
    // page 2 of 5 fails; the result is the union of pages 1, 3, 4 and 5
    let mut controller: FetchController<u32> = FetchController::new(5, 3);
    let mut started: Vec<u32> = Vec::new();
    loop {
        while let Some(page) = controller.start_page() {
            started.push(page);
        }
        let Some(page) = started.pop() else { break };
        let outcome = if page == 2 {
            PageOutcome::Failure
        } else {
            PageOutcome::Success(page_records(page, 2))
        };
        assert!(controller.complete_page(page, outcome));
        if controller.is_done() {
            break;
        }
    }
    assert!(controller.is_done());
    let mut records = controller.into_records();
    records.sort_unstable();
    let mut expected: Vec<u32> = [1u32, 3, 4, 5]
        .iter()
        .flat_map(|&p| page_records(p, 2))
        .collect();
    expected.sort_unstable();
    assert_eq!(records, expected);
}

#[test]
fn concurrency_never_exceeds_the_cap() {
    let cap: usize = 3;
    let total: u32 = 12;
    let mut controller: FetchController<u32> = FetchController::new(total, cap);
    let mut in_flight: Vec<u32> = Vec::new();
    let mut peak: usize = 0;
    while !controller.is_done() {
        // start as many as the controller allows, then finish one
        while let Some(page) = controller.start_page() {
            in_flight.push(page);
            peak = peak.max(controller.in_flight_count());
            assert!(controller.in_flight_count() <= cap);
        }
        let page = in_flight.remove(0);
        assert!(controller.complete_page(page, PageOutcome::Success(vec![page])));
    }
    assert_eq!(peak, cap);
    assert_eq!(controller.into_records().len(), total as usize);
}

#[test]
fn unknown_page_changes_nothing() {
    let mut controller: FetchController<u32> = FetchController::new(2, 2);
    let first = controller.start_page().unwrap();
    assert_eq!(first, 1);
    // page 7 was never handed out
    assert!(!controller.complete_page(7, PageOutcome::Success(vec![1, 2, 3])));
    assert_eq!(controller.in_flight_count(), 1);
    assert!(controller.complete_page(1, PageOutcome::Failure));
    assert_eq!(controller.in_flight_count(), 0);
}

#[test]
fn cap_limits_hand_outs() {
    let mut controller: FetchController<u32> = FetchController::new(10, 2);
    assert_eq!(controller.start_page(), Some(1));
    assert_eq!(controller.start_page(), Some(2));
    assert_eq!(controller.start_page(), None);
    assert!(controller.complete_page(1, PageOutcome::Success(vec![])));
    assert_eq!(controller.start_page(), Some(3));
}

#[test]
fn sequential_fetch_keeps_pages_after_a_failure() {
    // one page in flight at a time, issued in order; a mid-sequence failure
    // still leaves every later page fetched
    let mut controller: FetchController<u32> = FetchController::new(5, 1);
    let mut issued: Vec<u32> = Vec::new();
    while let Some(page) = controller.start_page() {
        issued.push(page);
        assert_eq!(controller.in_flight_count(), 1);
        let outcome = if page == 2 {
            PageOutcome::Failure
        } else {
            PageOutcome::Success(page_records(page, 2))
        };
        assert!(controller.complete_page(page, outcome));
    }
    assert!(controller.is_done());
    assert_eq!(issued, vec![1, 2, 3, 4, 5]);
    let mut records = controller.into_records();
    records.sort_unstable();
    let mut expected: Vec<u32> = [1u32, 3, 4, 5]
        .iter()
        .flat_map(|&p| page_records(p, 2))
        .collect();
    expected.sort_unstable();
    assert_eq!(records, expected);
}

#[test]
fn probe_decides_whether_to_fetch() {
    assert!(should_fetch_catalog(&Some(vec![1u32])));
    assert!(!should_fetch_catalog(&Some(Vec::<u32>::new())));
    assert!(!should_fetch_catalog::<u32>(&None));
}

#[test]
fn single_query_collapses_failure_to_empty() {
    assert_eq!(single_query_records(Some(vec![10u32, 20])), vec![10, 20]);
    assert_eq!(single_query_records::<u32>(None), Vec::<u32>::new());
}

#[test]
fn planned_pages_clamps_negatives() {
    assert_eq!(planned_pages(7), 7);
    assert_eq!(planned_pages(0), 0);
    assert_eq!(planned_pages(-3), 0);
    assert_eq!(planned_pages(i32::MAX), i32::MAX as u32);
}
