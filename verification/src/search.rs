use vstd::prelude::*;

verus! {

/// What the search-index probe produced for one free-text query.
pub enum IndexQueryOutcome<T> {
    /// The index client was never configured.
    Unconfigured,
    /// The named collection could not be reached.
    CollectionUnavailable,
    /// The query itself failed.
    QueryFailed,
    /// The query succeeded; these are its hits, possibly none.
    Hits(Vec<T>),
}

/// Where an index-first search stands.
pub enum SearchPhase<T> {
    /// The index has not answered yet.
    AwaitingIndex,
    /// The index did not answer; the live single-query fetch is owed.
    AwaitingLive,
    /// The search is answered with these records.
    Finished(Vec<T>),
}

/// The phase an index answer leads to: a successful query finishes the
/// search with its hits taken verbatim — even empty hits — and anything
/// else falls through to the live path.
pub open spec fn index_step<T>(outcome: IndexQueryOutcome<T>) -> SearchPhase<T> {
    match outcome {
        IndexQueryOutcome::Hits(hits) => SearchPhase::Finished(hits),
        IndexQueryOutcome::Unconfigured => SearchPhase::AwaitingLive,
        IndexQueryOutcome::CollectionUnavailable => SearchPhase::AwaitingLive,
        IndexQueryOutcome::QueryFailed => SearchPhase::AwaitingLive,
    }
}

/// The records a finished search carries.
pub open spec fn phase_results<T>(phase: SearchPhase<T>) -> Option<Seq<T>> {
    match phase {
        SearchPhase::Finished(records) => Option::Some(records@),
        SearchPhase::AwaitingIndex => Option::None,
        SearchPhase::AwaitingLive => Option::None,
    }
}

/// The records a live single-query outcome collapses to: failures are
/// swallowed into the empty answer.
pub open spec fn live_results<T>(outcome: Option<Seq<T>>) -> Seq<T> {
    match outcome {
        Option::Some(records) => records,
        Option::None => Seq::empty(),
    }
}

/// One index-first search: the index is consulted first, and only a search
/// it failed to answer goes on to the live single-query fetch. The caller's
/// answer is best-effort — never an error, at worst empty.
///
/// The session only decides; the caller performs the index query and, only
/// when the session asks for it, the live request.
pub struct SearchSession<T> {
    /// Where the search stands.
    pub phase: SearchPhase<T>,
}

impl<T> SearchSession<T> {
    pub fn new() -> (session: Self)
        ensures
            session.phase is AwaitingIndex,
    {
        SearchSession { phase: SearchPhase::AwaitingIndex }
    }

    /// Whether the live single-query fetch is owed.
    pub fn needs_live_query(&self) -> (needed: bool)
        ensures
            needed == (self.phase is AwaitingLive),
    {
        match self.phase {
            SearchPhase::AwaitingLive => true,
            _ => false,
        }
    }

    /// Whether the search is answered.
    pub fn is_finished(&self) -> (finished: bool)
        ensures
            finished == (self.phase is Finished),
    {
        match self.phase {
            SearchPhase::Finished(_) => true,
            _ => false,
        }
    }

    /// Accepts the index's answer. Hits — even none — settle the search
    /// verbatim; anything else defers to the live path.
    pub fn on_index_outcome(&mut self, outcome: IndexQueryOutcome<T>)
        requires
            old(self).phase is AwaitingIndex,
        ensures
            final(self).phase == index_step(outcome),
    {
        self.phase = match outcome {
            IndexQueryOutcome::Hits(hits) => SearchPhase::Finished(hits),
            _ => SearchPhase::AwaitingLive,
        };
    }

    /// Accepts the live fetch's answer; a failed fetch collapses to the
    /// empty answer rather than an error.
    pub fn on_live_outcome(&mut self, outcome: Option<Vec<T>>)
        requires
            old(self).phase is AwaitingLive,
        ensures
            final(self).phase is Finished,
            phase_results(final(self).phase) == Option::Some(
                live_results(
                    match outcome {
                        Option::Some(records) => Option::Some(records@),
                        Option::None => Option::None,
                    },
                ),
            ),
    {
        self.phase = match outcome {
            Option::Some(records) => SearchPhase::Finished(records),
            Option::None => SearchPhase::Finished(Vec::new()),
        };
    }

    /// Gives up the answer.
    pub fn into_results(self) -> (results: Vec<T>)
        requires
            self.phase is Finished,
        ensures
            Option::Some(results@) == phase_results(self.phase),
    {
        match self.phase {
            SearchPhase::Finished(records) => records,
            _ => Vec::new(),
        }
    }
}

/// Index-first, with fallback: a successful index query settles the search
/// at once with its hits taken verbatim — the live path is never reached —
/// and exactly the searches the index did not answer go on to the live
/// single-query fetch.
pub proof fn lemma_index_first<T>(outcome: IndexQueryOutcome<T>)
    ensures
        match outcome {
            IndexQueryOutcome::Hits(hits) => index_step(outcome) == SearchPhase::Finished(hits)
                && !(index_step(outcome) is AwaitingLive),
            _ => index_step(outcome) is AwaitingLive,
        },
{
}

} // verus!
