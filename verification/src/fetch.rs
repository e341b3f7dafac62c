use vstd::prelude::*;

verus! {

use vstd::multiset::Multiset;

/// What one page request produced once the transport and decode steps are
/// done: the page's decoded records, or a failure of either step.
pub enum PageOutcome<T> {
    Success(Vec<T>),
    Failure,
}

/// The ghost record of one completed page: its page number and, for a
/// successful page, the records it carried.
pub type PageEntry<T> = (int, Option<Seq<T>>);

/// The records contributed by one completed page: a failed page contributes
/// nothing.
pub open spec fn contributed<T>(outcome: Option<Seq<T>>) -> Seq<T> {
    match outcome {
        Option::Some(records) => records,
        Option::None => Seq::empty(),
    }
}

/// The abstract value of a `PageOutcome`.
pub open spec fn outcome_view<T>(outcome: PageOutcome<T>) -> Option<Seq<T>> {
    match outcome {
        PageOutcome::Success(records) => Option::Some(records@),
        PageOutcome::Failure => Option::None,
    }
}

/// The records gathered over a completion log, in completion order: the
/// concatenation of every successful page's records.
pub open spec fn gathered<T>(log: Seq<PageEntry<T>>) -> Seq<T>
    decreases log.len(),
{
    if log.len() == 0 {
        Seq::empty()
    } else {
        gathered(log.drop_last()) + contributed(log.last().1)
    }
}

/// The page numbers of a completion log.
pub open spec fn logged_pages<T>(log: Seq<PageEntry<T>>) -> Seq<int> {
    log.map_values(|entry: PageEntry<T>| entry.0)
}

/// Drives one full-catalog fetch: every page from 1 to `total_pages` is
/// handed out exactly once, at most `cap` pages are outstanding at any
/// moment, and the records of the pages that completed successfully are
/// accumulated. Failed pages contribute nothing and abort nothing.
///
/// The controller only decides; the caller performs the page requests and
/// reports each page's outcome back through `complete_page`.
pub struct FetchController<T> {
    /// Page count announced by the pagination envelope of the probe request.
    pub total_pages: u32,
    /// Most pages allowed to be outstanding at once.
    pub cap: usize,
    /// Next page number not yet handed out; pages are 1-based.
    pub next_page: u32,
    /// Pages handed out whose outcome has not been reported yet.
    pub in_flight: Vec<u32>,
    /// Records of the pages that completed successfully, in completion order.
    pub records: Vec<T>,
    /// Completion history: one entry per reported page.
    pub log: Ghost<Seq<PageEntry<T>>>,
}

impl<T> FetchController<T> {
    /// Everything the controller maintains between calls.
    pub open spec fn wf(self) -> bool {
        &&& self.cap >= 1
        &&& self.total_pages < u32::MAX
        &&& 1 <= self.next_page <= self.total_pages + 1
        &&& forall|i: int|
            0 <= i < self.in_flight@.len() ==> 1 <= #[trigger] self.in_flight@[i]
                < self.next_page
        &&& self.in_flight@.no_duplicates()
        &&& forall|i: int|
            0 <= i < self.log@.len() ==> 1 <= #[trigger] self.log@[i].0 < self.next_page
        &&& logged_pages(self.log@).no_duplicates()
        &&& forall|i: int, j: int|
            0 <= i < self.in_flight@.len() && 0 <= j < self.log@.len()
                ==> #[trigger] self.in_flight@[i] as int != #[trigger] self.log@[j].0
        &&& self.in_flight@.len() + self.log@.len() == self.next_page - 1
        &&& self.in_flight@.len() <= self.cap
        &&& self.records@ == gathered(self.log@)
    }

    /// A fetch is complete when every page was handed out and every outcome
    /// reported.
    pub open spec fn done(self) -> bool {
        self.next_page > self.total_pages && self.in_flight@.len() == 0
    }

    pub fn new(total_pages: u32, cap: usize) -> (controller: Self)
        requires
            cap >= 1,
            total_pages < u32::MAX,
        ensures
            controller.wf(),
            controller.total_pages == total_pages,
            controller.cap == cap,
            controller.next_page == 1,
            controller.in_flight@.len() == 0,
            controller.log@.len() == 0,
            controller.records@.len() == 0,
    {
        FetchController {
            total_pages,
            cap,
            next_page: 1,
            in_flight: Vec::new(),
            records: Vec::new(),
            log: Ghost(Seq::empty()),
        }
    }

    /// Hands out the next page to request, or `None` when either every page
    /// was already handed out or the concurrency cap is reached.
    pub fn start_page(&mut self) -> (started: Option<u32>)
        requires
            old(self).wf(),
        ensures
            final(self).wf(),
            final(self).total_pages == old(self).total_pages,
            final(self).cap == old(self).cap,
            final(self).log == old(self).log,
            final(self).records == old(self).records,
            if old(self).next_page <= old(self).total_pages && old(self).in_flight@.len()
                < old(self).cap {
                &&& started == Some(old(self).next_page)
                &&& final(self).next_page == old(self).next_page + 1
                &&& final(self).in_flight@ == old(self).in_flight@.push(old(self).next_page)
            } else {
                &&& started is None
                &&& final(self).next_page == old(self).next_page
                &&& final(self).in_flight == old(self).in_flight
            },
    {
        if self.next_page <= self.total_pages && self.in_flight.len() < self.cap {
            let page: u32 = self.next_page;
            self.in_flight.push(page);
            self.next_page = page + 1;
            Some(page)
        } else {
            None
        }
    }

    /// Accepts the outcome of one outstanding page. Returns whether the page
    /// was in fact outstanding; an unknown page changes nothing. A failed
    /// page is recorded and contributes no records; the sibling pages are
    /// unaffected either way.
    pub fn complete_page(&mut self, page: u32, outcome: PageOutcome<T>) -> (known: bool)
        requires
            old(self).wf(),
        ensures
            final(self).wf(),
            final(self).total_pages == old(self).total_pages,
            final(self).cap == old(self).cap,
            final(self).next_page == old(self).next_page,
            known == old(self).in_flight@.contains(page),
            known ==> {
                &&& final(self).log@ == old(self).log@.push(
                    (page as int, outcome_view(outcome)),
                )
                &&& final(self).records@ == old(self).records@ + contributed(
                    outcome_view(outcome),
                )
                &&& final(self).in_flight@.len() == old(self).in_flight@.len() - 1
                &&& !final(self).in_flight@.contains(page)
                &&& forall|q: u32|
                    q != page ==> (final(self).in_flight@.contains(q)
                        <==> old(self).in_flight@.contains(q))
            },
            !known ==> {
                &&& final(self).log == old(self).log
                &&& final(self).records == old(self).records
                &&& final(self).in_flight == old(self).in_flight
            },
    {
        let ghost prev = *self;
        let mut idx: usize = 0;
        let mut found: bool = false;
        while idx < self.in_flight.len() && !found
            invariant
                *self == prev,
                prev.wf(),
                idx <= self.in_flight@.len(),
                found ==> idx < self.in_flight@.len() && self.in_flight@[idx as int] == page,
                !found ==> forall|i: int| 0 <= i < idx ==> self.in_flight@[i] != page,
            decreases self.in_flight@.len() - idx + (if found { 0int } else { 1int }),
        {
            if self.in_flight[idx] == page {
                found = true;
            } else {
                idx += 1;
            }
        }
        if !found {
            assert(!self.in_flight@.contains(page));
            return false;
        }
        assert(self.in_flight@.contains(page));
        self.in_flight.remove(idx);
        self.log = Ghost(self.log@.push((page as int, outcome_view(outcome))));
        match outcome {
            PageOutcome::Success(mut page_records) => {
                self.records.append(&mut page_records);
            },
            PageOutcome::Failure => {},
        }
        proof {
            let old_if = prev.in_flight@;
            let new_if = self.in_flight@;
            let i0: int = idx as int;
            assert(new_if == old_if.remove(i0));
            old_if.remove_ensures(i0);
            // the removed slot held `page`; every other slot survives once
            assert forall|i: int, j: int|
                0 <= i < j < new_if.len() implies new_if[i] != new_if[j] by {
                let si: int = if i < i0 { i } else { i + 1 };
                let sj: int = if j < i0 { j } else { j + 1 };
                assert(new_if[i] == old_if[si]);
                assert(new_if[j] == old_if[sj]);
            }
            assert(new_if.no_duplicates());
            assert forall|q: u32| q != page implies (new_if.contains(q) <==> old_if.contains(
                q,
            )) by {
                if new_if.contains(q) {
                    let i: int = choose|i: int| 0 <= i < new_if.len() && new_if[i] == q;
                    let si: int = if i < i0 { i } else { i + 1 };
                    assert(old_if[si] == q);
                }
                if old_if.contains(q) {
                    let i: int = choose|i: int| 0 <= i < old_if.len() && old_if[i] == q;
                    assert(i != i0);
                    let ni: int = if i < i0 { i } else { i - 1 };
                    assert(new_if[ni] == q);
                }
            }
            assert forall|i: int| 0 <= i < new_if.len() implies 1 <= #[trigger] new_if[i]
                < self.next_page by {
                let si: int = if i < i0 { i } else { i + 1 };
                assert(new_if[i] == old_if[si]);
            }
            assert(!new_if.contains(page)) by {
                if new_if.contains(page) {
                    let i: int = choose|i: int| 0 <= i < new_if.len() && new_if[i] == page;
                    let si: int = if i < i0 { i } else { i + 1 };
                    assert(old_if[si] == page && old_if[i0] == page && si != i0);
                }
            }
            // the log keeps distinct pages: `page` came out of the in-flight set
            let old_log = prev.log@;
            let new_log = self.log@;
            assert(new_log.drop_last() =~= old_log);
            assert(new_log.last() == (page as int, outcome_view(outcome)));
            assert(logged_pages(new_log).no_duplicates()) by {
                assert forall|i: int, j: int|
                    0 <= i < j < logged_pages(new_log).len() implies logged_pages(new_log)[i]
                    != logged_pages(new_log)[j] by {
                    if j < old_log.len() {
                        assert(logged_pages(old_log)[i] == logged_pages(new_log)[i]);
                        assert(logged_pages(old_log)[j] == logged_pages(new_log)[j]);
                    } else {
                        assert(logged_pages(new_log)[j] == page as int);
                        assert(logged_pages(new_log)[i] == old_log[i].0);
                        assert(old_if[i0] == page);
                    }
                }
            }
            assert(self.records@ == gathered(new_log)) by {
                assert(gathered(new_log) == gathered(old_log) + contributed(
                    outcome_view(outcome),
                ));
                if outcome_view(outcome) is None {
                    assert(self.records@ =~= prev.records@ + contributed(
                        outcome_view(outcome),
                    ));
                }
            }
        }
        true
    }

    /// How many pages are outstanding right now.
    pub fn in_flight_count(&self) -> (count: usize)
        ensures
            count == self.in_flight@.len(),
    {
        self.in_flight.len()
    }

    /// Whether every page was handed out and every outcome reported.
    pub fn is_done(&self) -> (done: bool)
        ensures
            done == self.done(),
    {
        self.next_page > self.total_pages && self.in_flight.len() == 0
    }

    /// Gives up the accumulated records: the concatenation, in completion
    /// order, of every successfully completed page's records.
    pub fn into_records(self) -> (records: Vec<T>)
        requires
            self.wf(),
        ensures
            records@ == gathered(self.log@),
    {
        self.records
    }
}

/// Collapses the outcome of a single-query request: a decoded page of
/// records on success, an empty list on any transport or decode failure —
/// the caller treats "no results" and "search failed" identically.
pub fn single_query_records<T>(outcome: Option<Vec<T>>) -> (records: Vec<T>)
    ensures
        match outcome {
            Some(page) => records@ == page@,
            None => records@.len() == 0,
        },
{
    match outcome {
        Some(page) => page,
        None => Vec::new(),
    }
}

/// Whether a full-catalog fetch should run at all: the probe request must
/// have decoded and carried at least one record; an empty or failed probe
/// yields the empty catalog instead.
pub fn should_fetch_catalog<T>(probe: &Option<Vec<T>>) -> (fetch: bool)
    ensures
        fetch == (probe is Some && probe->0@.len() > 0),
{
    match probe {
        Option::Some(records) => records.len() > 0,
        Option::None => false,
    }
}

/// How many pages a full-catalog fetch owes, from the probe envelope's
/// `last_visible_page`: a nonsensical negative count plans no pages.
pub fn planned_pages(last_visible_page: i32) -> (pages: u32)
    ensures
        last_visible_page >= 0 ==> pages == last_visible_page,
        last_visible_page < 0 ==> pages == 0,
        pages < u32::MAX,
{
    if last_visible_page < 0 {
        0
    } else {
        last_visible_page as u32
    }
}

/// Pagination completeness: when every one of the `log.len()` completed
/// pages succeeded with exactly `per_page` records, the gathered result
/// holds exactly `log.len() * per_page` records.
pub proof fn lemma_pagination_completeness<T>(log: Seq<PageEntry<T>>, per_page: int)
    requires
        per_page >= 0,
        forall|i: int|
            0 <= i < log.len() ==> (#[trigger] log[i].1) is Some && log[i].1->0.len()
                == per_page,
    ensures
        gathered(log).len() == log.len() * per_page,
    decreases log.len(),
{
    if log.len() > 0 {
        lemma_pagination_completeness(log.drop_last(), per_page);
        assert(log.last() == log[log.len() - 1]);
        assert((log.len() - 1) * per_page + per_page == log.len() * per_page) by (nonlinear_arith);
    }
}

/// Partial-failure tolerance: failed pages contribute nothing, so the
/// gathered result equals the one gathered over the successful completions
/// alone; no failure aborts the fetch.
pub proof fn lemma_partial_failure_tolerance<T>(log: Seq<PageEntry<T>>)
    ensures
        gathered(log) == gathered(log.filter(|entry: PageEntry<T>| entry.1 is Some)),
    decreases log.len(),
{
    reveal(Seq::filter);
    if log.len() > 0 {
        lemma_partial_failure_tolerance(log.drop_last());
        let pred = |entry: PageEntry<T>| entry.1 is Some;
        if pred(log.last()) {
            assert(log.filter(pred) == log.drop_last().filter(pred).push(log.last()));
            assert(log.filter(pred).drop_last() =~= log.drop_last().filter(pred));
        } else {
            assert(gathered(log) =~= gathered(log.drop_last()) + contributed(log.last().1));
            assert(contributed(log.last().1) =~= Seq::<T>::empty());
            assert(gathered(log) =~= gathered(log.drop_last()));
        }
    }
}

/// The records gathered over a completion log, counted without regard to
/// order: each completed page adds its records' multiset.
pub open spec fn gathered_multiset<T>(log: Seq<PageEntry<T>>) -> Multiset<T>
    decreases log.len(),
{
    if log.len() == 0 {
        Multiset::empty()
    } else {
        gathered_multiset(log.drop_last()).add(contributed(log.last().1).to_multiset())
    }
}

/// As a multiset, the gathered result is exactly the sum of the completed
/// pages' contributions.
pub proof fn lemma_gathered_as_multiset<T>(log: Seq<PageEntry<T>>)
    ensures
        gathered(log).to_multiset() == gathered_multiset(log),
    decreases log.len(),
{
    if log.len() > 0 {
        lemma_gathered_as_multiset(log.drop_last());
        vstd::seq_lib::lemma_multiset_commutative(
            gathered(log.drop_last()),
            contributed(log.last().1),
        );
        assert(gathered(log).to_multiset() =~= gathered_multiset(log));
    } else {
        gathered(log).to_multiset_ensures();
        assert(gathered(log).to_multiset() =~= gathered_multiset(log));
    }
}

/// Removing one completion from the log takes away exactly its
/// contribution.
proof fn lemma_gathered_multiset_remove<T>(log: Seq<PageEntry<T>>, i: int)
    requires
        0 <= i < log.len(),
    ensures
        gathered_multiset(log) == gathered_multiset(log.remove(i)).add(
            contributed(log[i].1).to_multiset(),
        ),
    decreases log.len(),
{
    if i == log.len() - 1 {
        assert(log.remove(i) =~= log.drop_last());
    } else {
        lemma_gathered_multiset_remove(log.drop_last(), i);
        assert(log.remove(i).drop_last() =~= log.drop_last().remove(i));
        assert(log.remove(i).last() == log.last());
        assert(log.drop_last()[i] == log[i]);
        assert(gathered_multiset(log) =~= gathered_multiset(log.remove(i)).add(
            contributed(log[i].1).to_multiset(),
        ));
    }
}

/// Order independence: two fetches whose pages completed with the same
/// outcomes, in whatever different orders, gather the same records as a
/// multiset.
pub proof fn lemma_gathered_completion_order_free<T>(
    first: Seq<PageEntry<T>>,
    second: Seq<PageEntry<T>>,
)
    requires
        first.to_multiset() == second.to_multiset(),
    ensures
        gathered_multiset(first) == gathered_multiset(second),
    decreases first.len(),
{
    first.to_multiset_ensures();
    second.to_multiset_ensures();
    if first.len() == 0 {
        assert(second.len() == 0);
    } else {
        let entry = first.last();
        assert(first.contains(entry));
        assert(second.to_multiset().count(entry) > 0);
        assert(second.contains(entry));
        let i: int = choose|i: int| 0 <= i < second.len() && second[i] == entry;
        let shorter = second.remove(i);
        assert(first.drop_last().push(entry) =~= first);
        first.drop_last().to_multiset_ensures();
        assert(first.drop_last().to_multiset().insert(entry) =~= first.to_multiset());
        assert(shorter.to_multiset() =~= second.to_multiset().remove(entry));
        assert(first.drop_last().to_multiset() =~= shorter.to_multiset());
        lemma_gathered_completion_order_free(first.drop_last(), shorter);
        lemma_gathered_multiset_remove(second, i);
    }
}

/// Concurrency bound: a well-formed controller never has more than `cap`
/// pages outstanding, whatever the interleaving of starts and completions.
pub proof fn lemma_concurrency_bound<T>(controller: FetchController<T>)
    requires
        controller.wf(),
    ensures
        controller.in_flight@.len() <= controller.cap,
{
}

/// Full coverage: once a fetch is done, its completion log holds exactly one
/// entry for every page from 1 to `total_pages`.
pub proof fn lemma_done_covers_every_page<T>(controller: FetchController<T>)
    requires
        controller.wf(),
        controller.done(),
    ensures
        controller.log@.len() == controller.total_pages,
        logged_pages(controller.log@).to_set() =~= vstd::set_lib::set_int_range(
            1,
            controller.total_pages + 1,
        ),
{
    let pages = logged_pages(controller.log@);
    let total: int = controller.total_pages as int;
    let range = vstd::set_lib::set_int_range(1, total + 1);
    assert(pages.len() == total);
    assert(forall|i: int| 0 <= i < pages.len() ==> range.contains(#[trigger] pages[i]));
    pages.unique_seq_to_set();
    assert(pages.to_set().subset_of(range));
    vstd::set_lib::lemma_int_range(1, total + 1);
    if !range.subset_of(pages.to_set()) {
        let missing: int = choose|p: int| range.contains(p) && !pages.to_set().contains(p);
        let smaller = range.remove(missing);
        assert(pages.to_set().subset_of(smaller));
        vstd::set_lib::lemma_len_subset(pages.to_set(), smaller);
        assert(smaller.len() == range.len() - 1);
        assert(false);
    }
}

} // verus!
