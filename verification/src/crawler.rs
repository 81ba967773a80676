use vstd::prelude::*;
use crate::extract::ExtractedRecord;
use crate::extract::SelectorSpec;
use crate::extract::extract_page;
use crate::extract::extract_view;
use crate::extract::links_view;
use crate::extract::specs_view;

verus! {

/// The least delay, in milliseconds, between two page visits when timing
/// randomization is enabled.
pub const DELAY_MIN_MS: u64 = 500;

/// The exclusive upper bound, in milliseconds, of the randomized delay.
pub const DELAY_MAX_MS: u64 = 2000;

/// Relies on rand's `Rng::gen_range` over `thread_rng`: the sample lies in
/// the half-open range it is given (the call panics only on an empty range,
/// which the precondition rules out). Nothing more is promised of a random
/// draw.
#[verifier::external_body]
fn random_in_range(lo: u64, hi: u64) -> (r: u64)
    requires
        lo < hi,
    ensures
        lo <= r < hi,
{
    rand::Rng::gen_range(&mut rand::thread_rng(), lo..hi)
}

/// The largest frontier a session may hold: the budget caps its growth, and
/// a fresh session holds the seed even under a zero budget.
pub open spec fn frontier_cap(budget: u8) -> int {
    if budget == 0 {
        1int
    } else {
        budget as int
    }
}

/// How one page's discovered links grow the frontier: in order, each link
/// is pushed while link-following is on and the frontier is below the
/// budget; the links past the cap are silently elided.
pub open spec fn enqueue_view(
    frontier: Seq<Seq<char>>,
    links: Seq<Seq<char>>,
    follow: bool,
    budget: int,
) -> Seq<Seq<char>>
    decreases links.len(),
{
    if links.len() == 0 {
        frontier
    } else {
        let f1 = if follow && frontier.len() < budget {
            frontier.push(links[0])
        } else {
            frontier
        };
        enqueue_view(f1, links.drop_first(), follow, budget)
    }
}

/// With link-following disabled the frontier never grows: a page's links
/// change nothing, whatever the budget.
pub proof fn lemma_no_follow_keeps_frontier(
    frontier: Seq<Seq<char>>,
    links: Seq<Seq<char>>,
    budget: int,
)
    ensures
        enqueue_view(frontier, links, false, budget) == frontier,
    decreases links.len(),
{
    if links.len() > 0 {
        lemma_no_follow_keeps_frontier(frontier, links.drop_first(), budget);
    }
}

/// The frontier stays bounded: pushing a page's links never grows it past
/// the visit budget, or past its own starting size where that was already
/// larger.
pub proof fn lemma_enqueue_bounded(
    frontier: Seq<Seq<char>>,
    links: Seq<Seq<char>>,
    follow: bool,
    budget: int,
)
    ensures
        enqueue_view(frontier, links, follow, budget).len() <= (if frontier.len() > budget {
            frontier.len() as int
        } else {
            budget
        }),
    decreases links.len(),
{
    if links.len() > 0 {
        let f1 = if follow && frontier.len() < budget {
            frontier.push(links[0])
        } else {
            frontier
        };
        lemma_enqueue_bounded(f1, links.drop_first(), follow, budget);
    }
}

/// With link-following disabled, a session seeded with a single URL visits
/// at most that one page: popping the seed leaves the frontier empty, and
/// processing the page — whatever links it carries — keeps it empty, so no
/// second pop can occur.
pub proof fn lemma_no_follow_single_visit(seed: Seq<char>, links: Seq<Seq<char>>, budget: int)
    ensures
        enqueue_view(seq![seed].drop_last(), links, false, budget).len() == 0,
{
    lemma_no_follow_keeps_frontier(seq![seed].drop_last(), links, budget);
}

/// The traversal state of a session, as the contracts see it: the pending
/// frontier, the visit counter, and the traversal configuration.
#[verifier::ext_equal]
pub ghost struct SessionView {
    pub frontier: Seq<Seq<char>>,
    pub visited: int,
    pub budget: int,
    pub follow: bool,
}

/// What one fetch came to: `Some(links)` when a page came back and was
/// processed, carrying these discovered links; `None` when the fetch
/// failed and the frontier entry was abandoned.
pub type FetchOutcome = Option<Seq<Seq<char>>>;

/// Whether the loop may visit another page: the budget is not yet
/// exhausted and a pending URL exists.
pub open spec fn can_visit_view(s: SessionView) -> bool {
    s.visited < s.budget && s.frontier.len() > 0
}

/// Popping the next URL: the last frontier entry leaves, one unit of
/// budget is consumed.
pub open spec fn pop_view(s: SessionView) -> SessionView {
    SessionView {
        frontier: s.frontier.drop_last(),
        visited: s.visited + 1,
        budget: s.budget,
        follow: s.follow,
    }
}

/// How a fetch outcome reshapes the session: a processed page grows the
/// frontier by its links, under the enqueue policy; a failed fetch changes
/// nothing further.
pub open spec fn absorb_view(s: SessionView, outcome: FetchOutcome) -> SessionView {
    match outcome {
        Some(links) => SessionView {
            frontier: enqueue_view(s.frontier, links, s.follow, s.budget),
            visited: s.visited,
            budget: s.budget,
            follow: s.follow,
        },
        None => s,
    }
}

/// A whole run, folded over its fetch outcomes: while a visit is allowed,
/// pop the next URL and absorb what its fetch came to; stop — in the
/// success state — as soon as the budget is exhausted or the frontier is
/// empty.
pub open spec fn run_view(s: SessionView, outcomes: Seq<FetchOutcome>) -> SessionView
    decreases outcomes.len(),
{
    if outcomes.len() == 0 || !can_visit_view(s) {
        s
    } else {
        run_view(absorb_view(pop_view(s), outcomes[0]), outcomes.drop_first())
    }
}

/// A session that cannot visit — a zero or exhausted budget, or an empty
/// frontier — fetches nothing: the whole run leaves it exactly as it is.
pub proof fn lemma_exhausted_run_is_immediate(s: SessionView, outcomes: Seq<FetchOutcome>)
    requires
        !can_visit_view(s),
    ensures
        run_view(s, outcomes) == s,
{
}

/// No run visits more pages than its budget: however many fetches come
/// back, and however they end, the visit counter stays within the budget.
pub proof fn lemma_run_respects_budget(s: SessionView, outcomes: Seq<FetchOutcome>)
    requires
        s.visited <= s.budget,
    ensures
        run_view(s, outcomes).visited <= s.budget,
    decreases outcomes.len(),
{
    if outcomes.len() > 0 && can_visit_view(s) {
        lemma_run_respects_budget(absorb_view(pop_view(s), outcomes[0]), outcomes.drop_first());
    }
}

/// With link-following disabled a run can only drain the frontier: it
/// visits at most as many pages as the frontier already held.
pub proof fn lemma_no_follow_run_drains_frontier(s: SessionView, outcomes: Seq<FetchOutcome>)
    requires
        !s.follow,
    ensures
        run_view(s, outcomes).visited <= s.visited + s.frontier.len(),
    decreases outcomes.len(),
{
    if outcomes.len() > 0 && can_visit_view(s) {
        let after = absorb_view(pop_view(s), outcomes[0]);
        if outcomes[0] is Some {
            lemma_no_follow_keeps_frontier(
                s.frontier.drop_last(),
                outcomes[0].unwrap(),
                s.budget,
            );
        }
        assert(after.frontier == s.frontier.drop_last());
        lemma_no_follow_run_drains_frontier(after, outcomes.drop_first());
    }
}

/// With link-following disabled, a run seeded with a single URL fetches at
/// most that one page, whatever links the pages carry.
pub proof fn lemma_no_follow_run_visits_at_most_one(s: SessionView, outcomes: Seq<FetchOutcome>)
    requires
        !s.follow,
        s.frontier.len() <= 1,
    ensures
        run_view(s, outcomes).visited <= s.visited + 1,
{
    lemma_no_follow_run_drains_frontier(s, outcomes);
}

/// One crawl session: the pending frontier, the visit counter, and the
/// configuration, owned by the loop for the duration of one run.
pub struct Crawler {
    frontier: Vec<String>,
    visited: u8,
    budget: u8,
    follow_links: bool,
    randomize_delay: bool,
    specs: Vec<SelectorSpec>,
}

impl Crawler {
    /// The pending URLs, in discovery order; the crawl pops from the end.
    pub closed spec fn frontier_view(self) -> Seq<Seq<char>> {
        self.frontier@.map_values(|u: String| u@)
    }

    /// How many pages have been popped for fetching so far.
    pub closed spec fn visited_count(self) -> u8 {
        self.visited
    }

    /// The ceiling on pages fetched in this run.
    pub closed spec fn budget_view(self) -> u8 {
        self.budget
    }

    /// Whether discovered links are followed.
    pub closed spec fn follows_links(self) -> bool {
        self.follow_links
    }

    /// Whether a random delay separates page visits.
    pub closed spec fn randomizes_delay(self) -> bool {
        self.randomize_delay
    }

    /// The configured selectors, as (name, pattern) pairs in order.
    pub closed spec fn specs_pairs(self) -> Seq<(Seq<char>, Seq<char>)> {
        specs_view(self.specs@)
    }

    #[verifier::type_invariant]
    spec fn wf(self) -> bool {
        &&& self.visited <= self.budget
        &&& self.frontier@.len() <= frontier_cap(self.budget)
    }

    /// The traversal state this session is in.
    pub open spec fn session_view(self) -> SessionView {
        SessionView {
            frontier: self.frontier_view(),
            visited: self.visited_count() as int,
            budget: self.budget_view() as int,
            follow: self.follows_links(),
        }
    }

    /// Whether the loop may visit another page: the budget is not yet
    /// exhausted and a pending URL exists.
    pub open spec fn can_visit(self) -> bool {
        can_visit_view(self.session_view())
    }

    /// Starts a session at the seed URL: the frontier holds the seed alone
    /// and no page has been visited.
    pub fn new(
        seed_url: String,
        specs: Vec<SelectorSpec>,
        follow_links: bool,
        visit_budget: u8,
        randomize_delay: bool,
    ) -> (c: Crawler)
        ensures
            c.frontier_view() == seq![seed_url@],
            c.visited_count() == 0,
            c.budget_view() == visit_budget,
            c.follows_links() == follow_links,
            c.randomizes_delay() == randomize_delay,
            c.specs_pairs() == specs_view(specs@),
    {
        let ghost seedv = seed_url@;
        let mut frontier: Vec<String> = Vec::new();
        frontier.push(seed_url);
        proof {
            assert(frontier@.map_values(|u: String| u@) =~= seq![seedv]);
        }
        Crawler {
            frontier,
            visited: 0,
            budget: visit_budget,
            follow_links,
            randomize_delay,
            specs,
        }
    }

    /// Pops the URL to visit next — last in, first out: the most recently
    /// discovered link is visited first — and consumes one unit of the
    /// visit budget. Returns `None`, leaving the session unchanged, exactly
    /// when the run is over: the budget is exhausted or the frontier is
    /// empty. The visit counter never passes the budget, so at most
    /// `budget_view()` pops ever succeed in one run.
    pub fn next_url(&mut self) -> (r: Option<String>)
        ensures
            r is Some <==> old(self).can_visit(),
            match r {
                Some(u) => {
                    &&& u@ == old(self).frontier_view().last()
                    &&& final(self).frontier_view() == old(self).frontier_view().drop_last()
                    &&& final(self).visited_count() == old(self).visited_count() + 1
                },
                None => *final(self) == *old(self),
            },
            r is Some ==> final(self).session_view() == pop_view(old(self).session_view()),
            final(self).visited_count() <= final(self).budget_view(),
            final(self).budget_view() == old(self).budget_view(),
            final(self).follows_links() == old(self).follows_links(),
            final(self).randomizes_delay() == old(self).randomizes_delay(),
            final(self).specs_pairs() == old(self).specs_pairs(),
    {
        proof {
            use_type_invariant(&*self);
        }
        if self.visited >= self.budget || self.frontier.len() == 0 {
            return None;
        }
        let ghost f0 = self.frontier@;
        let mut frontier: Vec<String> = Vec::new();
        std::mem::swap(&mut frontier, &mut self.frontier);
        let url = frontier.pop().unwrap();
        self.frontier = frontier;
        self.visited = self.visited + 1;
        proof {
            assert(self.frontier@.map_values(|u: String| u@) =~= f0.map_values(
                |u: String| u@,
            ).drop_last());
        }
        Some(url)
    }

    /// Handles one fetched page: yields one record per selector match, and —
    /// when link-following is enabled — pushes each discovered href onto the
    /// frontier, in extraction order, while the frontier is below the visit
    /// budget. With link-following disabled the frontier is left as it was.
    pub fn process_page(&mut self, html: &str) -> (r: Vec<ExtractedRecord>)
        ensures
            r@.map_values(|rec: ExtractedRecord| rec@) == extract_view(
                html@,
                old(self).specs_pairs(),
            ),
            final(self).frontier_view() == enqueue_view(
                old(self).frontier_view(),
                links_view(html@, old(self).specs_pairs()),
                old(self).follows_links(),
                old(self).budget_view() as int,
            ),
            final(self).session_view() == absorb_view(
                old(self).session_view(),
                Some(links_view(html@, old(self).specs_pairs())),
            ),
            !old(self).follows_links() ==> final(self).frontier_view() == old(
                self,
            ).frontier_view(),
            final(self).visited_count() == old(self).visited_count(),
            final(self).budget_view() == old(self).budget_view(),
            final(self).follows_links() == old(self).follows_links(),
            final(self).randomizes_delay() == old(self).randomizes_delay(),
            final(self).specs_pairs() == old(self).specs_pairs(),
    {
        proof {
            use_type_invariant(&*self);
        }
        let ghost f0 = self.frontier_view();
        let ghost lv = links_view(html@, specs_view(self.specs@));
        let follow = self.follow_links;
        let budget: u8 = self.budget;
        let (records, links) = extract_page(html, &self.specs);
        let mut frontier: Vec<String> = Vec::new();
        std::mem::swap(&mut frontier, &mut self.frontier);
        let mut k: usize = 0;
        proof {
            assert(lv.skip(0) =~= lv);
        }
        while k < links.len()
            invariant
                k <= links.len(),
                links@.map_values(|u: String| u@) == lv,
                frontier@.len() <= frontier_cap(budget),
                enqueue_view(f0, lv, follow, budget as int) == enqueue_view(
                    frontier@.map_values(|u: String| u@),
                    lv.skip(k as int),
                    follow,
                    budget as int,
                ),
            decreases links.len() - k,
        {
            let ghost fv = frontier@.map_values(|u: String| u@);
            proof {
                assert(lv.skip(k as int)[0] == lv[k as int]);
                assert(lv.skip(k as int).drop_first() =~= lv.skip(k + 1));
            }
            if follow && frontier.len() < (budget as usize) {
                frontier.push(links[k].clone());
                proof {
                    assert(frontier@.map_values(|u: String| u@) =~= fv.push(lv[k as int]));
                }
            }
            k = k + 1;
        }
        proof {
            assert(lv.skip(links@.len() as int) =~= Seq::<Seq<char>>::empty());
            if !follow {
                lemma_no_follow_keeps_frontier(f0, lv, budget as int);
            }
        }
        self.frontier = frontier;
        records
    }

    /// The delay to apply after the current page and before the next pop,
    /// when timing randomization is on: a uniformly random duration of at
    /// least `DELAY_MIN_MS` and under `DELAY_MAX_MS` milliseconds. `None`
    /// when randomization is off.
    pub fn next_delay(&self) -> (r: Option<u64>)
        ensures
            r is Some <==> self.randomizes_delay(),
            match r {
                Some(d) => DELAY_MIN_MS <= d < DELAY_MAX_MS,
                None => true,
            },
    {
        if self.randomize_delay {
            Some(random_in_range(DELAY_MIN_MS, DELAY_MAX_MS))
        } else {
            None
        }
    }

    /// The pending URLs, in discovery order. Never longer than the visit
    /// budget allows (the lone seed aside, under a zero budget).
    pub fn frontier(&self) -> (r: &Vec<String>)
        ensures
            r@.map_values(|u: String| u@) == self.frontier_view(),
            r@.len() <= frontier_cap(self.budget_view()),
    {
        proof {
            use_type_invariant(&*self);
        }
        &self.frontier
    }

    /// How many pages have been popped for fetching so far. Never exceeds
    /// the visit budget.
    pub fn visited(&self) -> (r: u8)
        ensures
            r == self.visited_count(),
            r <= self.budget_view(),
    {
        proof {
            use_type_invariant(&*self);
        }
        self.visited
    }

    /// The ceiling on pages fetched in this run.
    pub fn budget(&self) -> (r: u8)
        ensures
            r == self.budget_view(),
    {
        self.budget
    }
}

/// A run with a zero visit budget, or whose frontier is already empty,
/// visits nothing: no URL can be popped, and the run completes at once.
pub proof fn lemma_exhausted_run_visits_nothing(c: Crawler)
    requires
        c.budget_view() == 0 || c.frontier_view().len() == 0,
    ensures
        !c.can_visit(),
{
}

} // verus!
