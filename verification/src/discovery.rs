//! The paginated directory lookup behind "all regions": what to ask next, and
//! what has been gathered, after each page.

use vstd::prelude::*;
use crate::region::{ResolveError, ResolveErrorView};
use crate::text::{lemma_texts_push, opt_text, texts};

verus! {

/// Where the directory keeps the regions of the compute service.
pub open spec fn spec_directory_path() -> Seq<char> {
    "/aws/service/global-infrastructure/services/ec2/regions"@
}

/// The path under which every request of a lookup asks.
pub fn directory_path() -> (path: String)
    ensures
        path@ == spec_directory_path(),
{
    String::from_str("/aws/service/global-infrastructure/services/ec2/regions")
}

/// One answer of the directory: some region tokens, and the token that
/// continues the listing where there is more.
#[derive(Debug, Clone, PartialEq, Eq)]
pub struct Page {
    pub regions: Vec<String>,
    pub next_token: Option<String>,
}

/// A `Page` over texts.
pub struct PageView {
    pub regions: Seq<Seq<char>>,
    pub next_token: Option<Seq<char>>,
}

impl View for Page {
    type V = PageView;

    open spec fn view(&self) -> PageView {
        PageView { regions: texts(self.regions@), next_token: opt_text(self.next_token) }
    }
}

/// Where a lookup stands.
#[derive(Debug, Clone, PartialEq, Eq)]
pub enum Lookup {
    /// A request with this continuation token is to be made, or under way.
    Request(Option<String>),
    /// The directory had no further token: the listing is whole.
    Complete,
    /// A request failed; the text is the provider's.
    Failed(String),
}

/// A `Lookup` over texts.
pub enum LookupView {
    Request(Option<Seq<char>>),
    Complete,
    Failed(Seq<char>),
}

impl View for Lookup {
    type V = LookupView;

    open spec fn view(&self) -> LookupView {
        match self {
            Lookup::Request(t) => LookupView::Request(opt_text(*t)),
            Lookup::Complete => LookupView::Complete,
            Lookup::Failed(m) => LookupView::Failed(m@),
        }
    }
}

/// A lookup in progress: the tokens gathered so far, the number of requests
/// issued so far (the pending one included), and where it stands.
#[derive(Debug, Clone, PartialEq, Eq)]
pub struct Pager {
    pub collected: Vec<String>,
    pub requests: u64,
    pub state: Lookup,
}

/// A `Pager` over texts.
pub struct PagerView {
    pub collected: Seq<Seq<char>>,
    pub requests: u64,
    pub state: LookupView,
}

impl View for Pager {
    type V = PagerView;

    open spec fn view(&self) -> PagerView {
        PagerView {
            collected: texts(self.collected@),
            requests: self.requests,
            state: self.state@,
        }
    }
}

/// A lookup before its first answer: one request, without a token.
pub open spec fn spec_start() -> PagerView {
    PagerView { collected: Seq::empty(), requests: 1, state: LookupView::Request(None) }
}

/// One more request, counted up to the largest count that can be held.
pub open spec fn spec_count_up(requests: u64) -> u64 {
    if requests < u64::MAX {
        (requests + 1) as u64
    } else {
        requests
    }
}

/// The lookup after an answer arrived. A lookup that waits for none ignores it.
pub open spec fn spec_accept(p: PagerView, page: PageView) -> PagerView {
    match p.state {
        LookupView::Request(_) => match page.next_token {
            Some(t) => PagerView {
                collected: p.collected + page.regions,
                requests: spec_count_up(p.requests),
                state: LookupView::Request(Some(t)),
            },
            None => PagerView {
                collected: p.collected + page.regions,
                requests: p.requests,
                state: LookupView::Complete,
            },
        },
        _ => p,
    }
}

/// The lookup after a request failed: what was gathered is given up.
pub open spec fn spec_reject(p: PagerView, reason: Seq<char>) -> PagerView {
    match p.state {
        LookupView::Request(_) => PagerView {
            collected: Seq::empty(),
            requests: p.requests,
            state: LookupView::Failed(reason),
        },
        _ => p,
    }
}

/// The lookup after `pages` arrived one after the other.
pub open spec fn spec_feed(p: PagerView, pages: Seq<PageView>) -> PagerView
    decreases pages.len(),
{
    if pages.len() == 0 {
        p
    } else {
        spec_accept(spec_feed(p, pages.drop_last()), pages.last())
    }
}

/// The tokens of `pages`, one page after the other.
pub open spec fn spec_all_regions(pages: Seq<PageView>) -> Seq<Seq<char>>
    decreases pages.len(),
{
    if pages.len() == 0 {
        Seq::empty()
    } else {
        spec_all_regions(pages.drop_last()) + pages.last().regions
    }
}

/// The number of tokens in `pages`.
pub open spec fn spec_region_count(pages: Seq<PageView>) -> nat
    decreases pages.len(),
{
    if pages.len() == 0 {
        0
    } else {
        spec_region_count(pages.drop_last()) + pages.last().regions.len()
    }
}

/// What a lookup has to show: nothing while a request is due, the whole
/// listing once complete, the failure otherwise.
pub open spec fn spec_outcome(p: PagerView) -> Option<Result<Seq<Seq<char>>, ResolveErrorView>> {
    match p.state {
        LookupView::Request(_) => None,
        LookupView::Complete => Some(Ok(p.collected)),
        LookupView::Failed(m) => Some(Err(ResolveErrorView::RegionDiscoveryFailed(m))),
    }
}

/// While every page carries a token, the lookup keeps asking: after `n` such
/// pages it has issued `n + 1` requests and holds all their tokens.
pub proof fn lemma_feed_continued(pages: Seq<PageView>)
    requires
        pages.len() < u64::MAX,
        forall|i: int| 0 <= i < pages.len() ==> (#[trigger] pages[i]).next_token is Some,
    ensures
        spec_feed(spec_start(), pages).collected == spec_all_regions(pages),
        spec_feed(spec_start(), pages).requests == pages.len() + 1,
        spec_feed(spec_start(), pages).state is Request,
        spec_all_regions(pages).len() == spec_region_count(pages),
    decreases pages.len(),
{
    if pages.len() > 0 {
        let front = pages.drop_last();
        assert forall|i: int| 0 <= i < front.len() implies (#[trigger] front[i]).next_token is Some by {
            assert(front[i] == pages[i]);
        }
        lemma_feed_continued(front);
        assert(pages.last() == pages[pages.len() - 1]);
    }
}

/// A listing of `n` pages, each but the last with a continuation token, takes
/// exactly `n` requests, and what it gathers is every page's tokens in order:
/// as many as the pages hold together, whatever the size of each.
pub proof fn law_pagination_accumulates(pages: Seq<PageView>)
    requires
        0 < pages.len() <= u64::MAX,
        forall|i: int| 0 <= i < pages.len() - 1 ==> (#[trigger] pages[i]).next_token is Some,
        pages.last().next_token is None,
    ensures
        spec_feed(spec_start(), pages).state is Complete,
        spec_feed(spec_start(), pages).requests == pages.len(),
        spec_feed(spec_start(), pages).collected == spec_all_regions(pages),
        spec_feed(spec_start(), pages).collected.len() == spec_region_count(pages),
        spec_outcome(spec_feed(spec_start(), pages)) == Some(
            Ok::<Seq<Seq<char>>, ResolveErrorView>(spec_all_regions(pages)),
        ),
{
    let front = pages.drop_last();
    assert forall|i: int| 0 <= i < front.len() implies (#[trigger] front[i]).next_token is Some by {
        assert(front[i] == pages[i]);
    }
    lemma_feed_continued(front);
}

/// A failed request leaves nothing of the pages that came before it.
pub proof fn law_failure_discards_pages(p: PagerView, reason: Seq<char>)
    requires
        p.state is Request,
    ensures
        spec_reject(p, reason).collected.len() == 0,
        spec_outcome(spec_reject(p, reason)) == Some(
            Err::<Seq<Seq<char>>, ResolveErrorView>(ResolveErrorView::RegionDiscoveryFailed(reason)),
        ),
{
}

impl Pager {
    /// A lookup that is about to make its first request.
    pub fn start() -> (p: Pager)
        ensures
            p@ == spec_start(),
    {
        let p = Pager { collected: Vec::new(), requests: 1, state: Lookup::Request(None) };
        proof {
            assert(texts(p.collected@) =~= Seq::<Seq<char>>::empty());
        }
        p
    }

    /// The continuation token of the request that is due: `Some(None)` for
    /// the first request, `None` where no request is due.
    pub fn due(&self) -> (token: Option<Option<String>>)
        ensures
            match self@.state {
                LookupView::Request(t) => token is Some && opt_text(token.unwrap()) == t,
                _ => token is None,
            },
    {
        match &self.state {
            Lookup::Request(t) => Some(t.clone()),
            _ => None,
        }
    }

    /// Takes in the page that answered the request that was due.
    pub fn accept(self, page: Page) -> (p: Pager)
        ensures
            p@ == spec_accept(self@, page@),
    {
        match self.state {
            Lookup::Request(_) => {
                let mut collected = self.collected;
                let mut i: usize = 0;
                proof {
                    assert(texts(collected@) + texts(page.regions@).take(0) =~= texts(collected@));
                }
                while i < page.regions.len()
                    invariant
                        i <= page.regions.len(),
                        texts(collected@) == texts(self.collected@) + texts(page.regions@).take(
                            i as int,
                        ),
                    decreases page.regions.len() - i,
                {
                    let token = page.regions[i].clone();
                    proof {
                        lemma_texts_push(collected@, token);
                        assert((texts(self.collected@) + texts(page.regions@).take(i as int)).push(
                            token@,
                        ) =~= texts(self.collected@) + texts(page.regions@).take(i as int + 1));
                    }
                    collected.push(token);
                    i = i + 1;
                }
                proof {
                    assert(texts(page.regions@).take(i as int) =~= texts(page.regions@));
                }
                match page.next_token {
                    Some(t) => {
                        let requests: u64 = if self.requests < u64::MAX {
                            self.requests + 1
                        } else {
                            self.requests
                        };
                        Pager { collected, requests, state: Lookup::Request(Some(t)) }
                    },
                    None => Pager { collected, requests: self.requests, state: Lookup::Complete },
                }
            },
            _ => self,
        }
    }

    /// Records that the request that was due failed.
    pub fn reject(self, reason: String) -> (p: Pager)
        ensures
            p@ == spec_reject(self@, reason@),
    {
        match self.state {
            Lookup::Request(_) => {
                let p = Pager {
                    collected: Vec::new(),
                    requests: self.requests,
                    state: Lookup::Failed(reason),
                };
                proof {
                    assert(texts(p.collected@) =~= Seq::<Seq<char>>::empty());
                }
                p
            },
            _ => self,
        }
    }

    /// What the lookup has to show: `None` while a request is due.
    pub fn outcome(self) -> (r: Option<Result<Vec<String>, ResolveError>>)
        ensures
            match r {
                None => spec_outcome(self@) is None,
                Some(Ok(regions)) => spec_outcome(self@) == Some(
                    Ok::<Seq<Seq<char>>, ResolveErrorView>(texts(regions@)),
                ),
                Some(Err(e)) => spec_outcome(self@) == Some(
                    Err::<Seq<Seq<char>>, ResolveErrorView>(e@),
                ),
            },
    {
        match self.state {
            Lookup::Request(_) => None,
            Lookup::Complete => Some(Ok(self.collected)),
            Lookup::Failed(m) => Some(Err(ResolveError::RegionDiscoveryFailed(m))),
        }
    }
}

} // verus!
