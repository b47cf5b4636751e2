//! The scrape as a state machine.
//!
//! A scrape fetches pages one after another, from `start_page` on. After each
//! page it decides whether to go on: it stops once `max_pages` pages were
//! fetched, once `max_skills` skills were collected (the list is then cut to
//! exactly that many), or after a page that says no more pages follow.
//!
//! [`Scrape`] holds that decision; whoever owns the network drives it:
//!
//! ```text
//! let mut scrape = Scrape::new(&opts);
//! while let Some(page) = scrape.next_page() {
//!     let data = fetch(page)?;          // I/O, outside this crate
//!     scrape.on_page(data);
//! }
//! let report = scrape.finish();
//! ```
//!
//! The contracts speak of the pages received so far, in order
//! ([`Scrape::received`]); what the scrape does with them is stated directly by
//! the spec functions below.

use vstd::prelude::*;

use crate::model::{Page, ScrapeOptions, ScrapeReport, Skill};

verus! {

/// The skills of `pages`, page after page, each page's in its own order.
pub open spec fn collected(pages: Seq<Page>) -> Seq<Skill>
    decreases pages.len(),
{
    if pages.len() == 0 {
        Seq::empty()
    } else {
        collected(pages.drop_last()) + pages.last().skills@
    }
}

/// `n` pages fetched reach the page cap of `opts`.
pub open spec fn page_limit_reached(opts: ScrapeOptions, n: nat) -> bool {
    match opts.max_pages {
        Some(m) => n >= m,
        None => false,
    }
}

/// `n` skills collected reach the skill cap of `opts`.
pub open spec fn skill_limit_reached(opts: ScrapeOptions, n: nat) -> bool {
    match opts.max_skills {
        Some(k) => n >= k,
        None => false,
    }
}

/// The pages received end the scrape: the last one brought the skills to the
/// cap, or said that no more pages follow.
pub open spec fn ended(opts: ScrapeOptions, pages: Seq<Page>) -> bool {
    &&& pages.len() > 0
    &&& (skill_limit_reached(opts, collected(pages).len()) || !pages.last().has_more)
}

/// After `pages`, the scrape asks for another page: it has not ended and the
/// page cap is not reached.
pub open spec fn wants_page(opts: ScrapeOptions, pages: Seq<Page>) -> bool {
    !ended(opts, pages) && !page_limit_reached(opts, pages.len())
}

/// The number of the page asked for after `pages`: pages go up by one from
/// `start_page`.
pub open spec fn next_page_number(opts: ScrapeOptions, pages: Seq<Page>) -> int {
    opts.start_page + pages.len()
}

/// The skills that the scrape keeps of `pages`: all of them, cut to exactly
/// `max_skills` once that many were collected.
pub open spec fn kept_skills(opts: ScrapeOptions, pages: Seq<Page>) -> Seq<Skill> {
    let all = collected(pages);
    match opts.max_skills {
        Some(k) => if all.len() >= k {
            all.take(k as int)
        } else {
            all
        },
        None => all,
    }
}

/// `pages` is a history that a scrape with `opts` can receive: each page came
/// when the scrape asked for one.
pub open spec fn follows(opts: ScrapeOptions, pages: Seq<Page>) -> bool {
    forall|i: int| 0 <= i < pages.len() ==> #[trigger] wants_page(opts, pages.take(i))
}

/// Taking `page` after `pages` keeps the counters within `u64`: the page count,
/// and, where the scrape then asks for another page, that page's number.
pub open spec fn fits(opts: ScrapeOptions, pages: Seq<Page>, page: Page) -> bool {
    &&& pages.len() < u64::MAX
    &&& (wants_page(opts, pages.push(page)) ==> next_page_number(opts, pages.push(page))
        <= u64::MAX)
}

/// A scrape in progress: the options, the skills kept so far, the number of
/// pages fetched and whether the scrape is over.
pub struct Scrape {
    opts: ScrapeOptions,
    skills: Vec<Skill>,
    pages_fetched: u64,
    finished: bool,
    received: Ghost<Seq<Page>>,
}

impl Scrape {
    /// The options the scrape was started with.
    pub closed spec fn options(&self) -> ScrapeOptions {
        self.opts
    }

    /// The pages received so far, in the order they came.
    pub closed spec fn received(&self) -> Seq<Page> {
        self.received@
    }

    /// The scrape's fields agree with the pages it received.
    pub closed spec fn wf(&self) -> bool {
        let opts = self.opts;
        let pages = self.received@;
        &&& follows(opts, pages)
        &&& self.pages_fetched == pages.len()
        &&& self.finished == ended(opts, pages)
        &&& self.skills@ == kept_skills(opts, pages)
        &&& (wants_page(opts, pages) ==> next_page_number(opts, pages) <= u64::MAX)
    }

    /// A scrape with options `opts` that has received no page yet.
    pub fn new(opts: &ScrapeOptions) -> (s: Self)
        ensures
            s.wf(),
            s.options() == *opts,
            s.received() == Seq::<Page>::empty(),
            follows(s.options(), s.received()),
    {
        proof {
            let none = Seq::<Page>::empty();
            assert(collected(none) == Seq::<Skill>::empty());
            assert(kept_skills(*opts, none) =~= Seq::<Skill>::empty());
        }
        Scrape {
            opts: *opts,
            skills: Vec::new(),
            pages_fetched: 0,
            finished: false,
            received: Ghost(Seq::empty()),
        }
    }

    /// The page to fetch next, or `None` when the scrape is over.
    pub fn next_page(&self) -> (r: Option<u64>)
        requires
            self.wf(),
        ensures
            r is Some <==> wants_page(self.options(), self.received()),
            follows(self.options(), self.received()),
            r matches Some(p) ==> p == next_page_number(self.options(), self.received()),
            r is Some <==> {
                &&& (self.options().max_pages is None || self.received().len()
                    < self.options().max_pages->0)
                &&& (self.received().len() == 0 || (self.received().last().has_more && (
                self.options().max_skills is None || collected(self.received()).len()
                    < self.options().max_skills->0)))
            },
            r matches Some(p) ==> p == self.options().start_page + self.received().len(),
    {
        if self.finished {
            return None;
        }
        match self.opts.max_pages {
            Some(max_pages) => {
                if self.pages_fetched >= max_pages {
                    return None;
                }
            },
            None => {},
        }
        Some(self.opts.start_page + self.pages_fetched)
    }

    /// Whether the scrape can take `page` as the answer it waits for without
    /// its counters leaving `u64`.
    pub fn accepts(&self, page: &Page) -> (r: bool)
        requires
            self.wf(),
            wants_page(self.options(), self.received()),
        ensures
            r == fits(self.options(), self.received(), *page),
    {
        let ghost pages = self.received@;
        proof { lemma_collected_push(pages, *page); }
        if self.pages_fetched == u64::MAX {
            return false;
        }
        let ends = match self.opts.max_skills {
            Some(max_skills) => {
                let have = self.skills.len();
                have >= max_skills || page.skills.len() >= max_skills - have
            },
            None => false,
        } || !page.has_more;
        let capped = match self.opts.max_pages {
            Some(max_pages) => self.pages_fetched + 1 >= max_pages,
            None => false,
        };
        ends || capped || self.pages_fetched < u64::MAX - self.opts.start_page
    }

    /// Take `page`, the answer to the request for [`Scrape::next_page`]: count
    /// it, add its skills, and decide whether to go on.
    pub fn on_page(&mut self, page: Page)
        requires
            old(self).wf(),
            wants_page(old(self).options(), old(self).received()),
            fits(old(self).options(), old(self).received(), page),
        ensures
            final(self).wf(),
            final(self).options() == old(self).options(),
            final(self).received() == old(self).received().push(page),
            follows(final(self).options(), final(self).received()),
    {
        let ghost pages = self.received@;
        let ghost taken = page;
        proof {
            lemma_collected_push(pages, page);
            lemma_follows_push(self.opts, pages, page);
        }
        let Page { skills: mut new_skills, has_more, total: _ } = page;
        self.pages_fetched = self.pages_fetched + 1;
        self.skills.append(&mut new_skills);
        self.received = Ghost(pages.push(taken));
        match self.opts.max_skills {
            Some(max_skills) => {
                if self.skills.len() >= max_skills {
                    self.skills.truncate(max_skills);
                    self.finished = true;
                    return;
                }
            },
            None => {},
        }
        if !has_more {
            self.finished = true;
        }
    }

    /// The outcome of the scrape: the skills kept and the number of pages
    /// fetched.
    pub fn finish(self) -> (r: ScrapeReport)
        requires
            self.wf(),
        ensures
            r.skills@ == kept_skills(self.options(), self.received()),
            r.skills@ == collected(self.received()).take(
                if self.options().max_skills is Some && self.options().max_skills->0 < collected(
                    self.received(),
                ).len() {
                    self.options().max_skills->0 as int
                } else {
                    collected(self.received()).len() as int
                },
            ),
            r.pages_fetched == self.received().len(),
    {
        proof {
            let all = collected(self.received@);
            assert(all.take(all.len() as int) =~= all);
        }
        ScrapeReport { skills: self.skills, pages_fetched: self.pages_fetched }
    }
}

/// Adding a page adds its skills at the end.
pub proof fn lemma_collected_push(pages: Seq<Page>, page: Page)
    ensures
        collected(pages.push(page)) == collected(pages) + page.skills@,
{
    assert(pages.push(page).drop_last() =~= pages);
}

/// A page taken while the scrape asks for one extends a history it can receive.
pub proof fn lemma_follows_push(opts: ScrapeOptions, pages: Seq<Page>, page: Page)
    requires
        follows(opts, pages),
        wants_page(opts, pages),
    ensures
        follows(opts, pages.push(page)),
{
    let next = pages.push(page);
    assert forall|i: int| 0 <= i < next.len() implies #[trigger] wants_page(opts, next.take(i)) by {
        if i < pages.len() {
            assert(next.take(i) =~= pages.take(i));
            assert(wants_page(opts, pages.take(i)));
        } else {
            assert(next.take(i) =~= pages);
        }
    }
}

} // verus!
