//! What every scrape obeys, whatever the API answers.

use vstd::prelude::*;

use crate::model::{Page, ScrapeOptions, Skill};
use crate::url::{law_page_urls_distinct, page_url_of};
use crate::pagination::{
    collected, ended, follows, kept_skills, lemma_collected_push, next_page_number,
    page_limit_reached, skill_limit_reached, wants_page,
};

verus! {

/// Pages are fetched in sequence: the first request is for `start_page`, and
/// each page taken moves the next request on by exactly one page.
pub proof fn law_pages_in_sequence(opts: ScrapeOptions, pages: Seq<Page>, page: Page)
    ensures
        next_page_number(opts, Seq::<Page>::empty()) == opts.start_page,
        next_page_number(opts, pages.push(page)) == next_page_number(opts, pages) + 1,
{
}

/// No page is fetched twice: the requests made after different numbers of
/// pages name different pages, and so different URLs.
pub proof fn law_no_page_fetched_twice(
    opts: ScrapeOptions,
    pages: Seq<Page>,
    base: Seq<char>,
    i: int,
    j: int,
)
    requires
        0 <= i < j <= pages.len(),
    ensures
        next_page_number(opts, pages.take(i)) != next_page_number(opts, pages.take(j)),
        page_url_of(base, next_page_number(opts, pages.take(i)) as nat) != page_url_of(
            base,
            next_page_number(opts, pages.take(j)) as nat,
        ),
{
    let a = next_page_number(opts, pages.take(i)) as nat;
    let b = next_page_number(opts, pages.take(j)) as nat;
    if page_url_of(base, a) == page_url_of(base, b) {
        law_page_urls_distinct(base, a, b);
    }
}

/// A scrape never fetches more than `max_pages` pages.
pub proof fn law_page_cap(opts: ScrapeOptions, pages: Seq<Page>)
    requires
        follows(opts, pages),
        opts.max_pages is Some,
    ensures
        pages.len() <= opts.max_pages->0,
{
    let m = opts.max_pages->0;
    if pages.len() > m {
        assert(wants_page(opts, pages.take(m as int)));
    }
}

/// A scrape keeps at most `max_skills` skills, and exactly that many once the
/// pages fetched held at least that many, the last page included.
pub proof fn law_skill_cap(opts: ScrapeOptions, pages: Seq<Page>)
    requires
        opts.max_skills is Some,
    ensures
        kept_skills(opts, pages).len() <= opts.max_skills->0,
        collected(pages).len() >= opts.max_skills->0 ==> kept_skills(opts, pages).len()
            == opts.max_skills->0,
{
}

/// The skills kept are the first skills of the pages fetched, in the order the
/// pages and the API gave them; without a skill cap they are all of them.
pub proof fn law_kept_skills_in_order(opts: ScrapeOptions, pages: Seq<Page>)
    ensures
        kept_skills(opts, pages).len() <= collected(pages).len(),
        forall|i: int|
            0 <= i < kept_skills(opts, pages).len() ==> #[trigger] kept_skills(opts, pages)[i]
                == collected(pages)[i],
        opts.max_skills is None ==> kept_skills(opts, pages) == collected(pages),
{
}

/// A scrape asks for another page exactly when fewer than `max_pages` pages
/// were fetched (always, without a page cap) and either no page came yet or the
/// last page said that more pages follow while the skills collected are fewer
/// than `max_skills` (always, without a skill cap).
pub proof fn law_when_scrape_goes_on(opts: ScrapeOptions, pages: Seq<Page>)
    ensures
        wants_page(opts, pages) <==> {
            &&& (opts.max_pages is None || pages.len() < opts.max_pages->0)
            &&& (pages.len() == 0 || (pages.last().has_more && (opts.max_skills is None
                || collected(pages).len() < opts.max_skills->0)))
        },
{
}

/// Without a page cap, the number of pages fetched never stops a scrape: it
/// goes on until a page says that no more follow, or the skill cap is reached.
pub proof fn law_no_page_cap_follows_has_more(opts: ScrapeOptions, pages: Seq<Page>)
    requires
        opts.max_pages is None,
        pages.len() == 0 || (pages.last().has_more && (opts.max_skills is None
            || collected(pages).len() < opts.max_skills->0)),
    ensures
        wants_page(opts, pages),
{
}

/// Below the page cap, a scrape goes on while the last page says more follow and
/// the skill cap is not reached; so a finished scrape whose last page said more
/// follow, below the skill cap, fetched exactly `max_pages` pages.
pub proof fn law_page_cap_is_reached(opts: ScrapeOptions, pages: Seq<Page>)
    requires
        opts.max_pages is Some,
        follows(opts, pages),
        !wants_page(opts, pages),
        pages.len() > 0,
        pages.last().has_more,
        opts.max_skills is None || collected(pages).len() < opts.max_skills->0,
    ensures
        pages.len() == opts.max_pages->0,
{
    law_page_cap(opts, pages);
}

/// A skill cap `k` stops the scrape as soon as the skills collected number at
/// least `k`: no page is asked for after that.
pub proof fn law_skill_cap_stops(opts: ScrapeOptions, pages: Seq<Page>)
    requires
        opts.max_skills is Some,
        pages.len() > 0,
        collected(pages).len() >= opts.max_skills->0,
    ensures
        !wants_page(opts, pages),
        ended(opts, pages),
{
}

/// A scrape has ended exactly when a page came and either the skills collected
/// reach `max_skills` or the last page said no more pages follow.
pub proof fn law_when_scrape_ends(opts: ScrapeOptions, pages: Seq<Page>)
    ensures
        ended(opts, pages) <==> {
            &&& pages.len() > 0
            &&& ((opts.max_skills is Some && collected(pages).len() >= opts.max_skills->0)
                || !pages.last().has_more)
        },
{
}

/// The skills kept are the first `max_skills` skills collected, or all of them
/// where there are fewer or there is no cap.
pub proof fn law_kept_skills_exact(opts: ScrapeOptions, pages: Seq<Page>)
    ensures
        kept_skills(opts, pages) == collected(pages).take(
            if opts.max_skills is Some && opts.max_skills->0 < collected(pages).len() {
                opts.max_skills->0 as int
            } else {
                collected(pages).len() as int
            },
        ),
{
    let all = collected(pages);
    assert(all.take(all.len() as int) =~= all);
}

/// The skills collected are those of the pages in order: none before any page,
/// and each page adds its own at the end.
pub proof fn law_collected(pages: Seq<Page>, page: Page)
    ensures
        collected(Seq::<Page>::empty()) == Seq::<Skill>::empty(),
        collected(pages.push(page)) == collected(pages) + page.skills@,
{
    lemma_collected_push(pages, page);
}

/// A history a scrape can receive is built page by page, each page taken when
/// the scrape asked for one.
pub proof fn law_follows(opts: ScrapeOptions, pages: Seq<Page>, page: Page)
    ensures
        follows(opts, Seq::<Page>::empty()),
        follows(opts, pages.push(page)) <==> (follows(opts, pages) && wants_page(opts, pages)),
{
    let next = pages.push(page);
    if follows(opts, next) {
        assert(next.take(pages.len() as int) =~= pages);
        assert(wants_page(opts, next.take(pages.len() as int)));
        assert forall|i: int| 0 <= i < pages.len() implies #[trigger] wants_page(opts, pages.take(i)) by {
            assert(next.take(i) =~= pages.take(i));
            assert(wants_page(opts, next.take(i)));
        }
    }
    if follows(opts, pages) && wants_page(opts, pages) {
        crate::pagination::lemma_follows_push(opts, pages, page);
    }
}

/// Taking `page` fits in the counters exactly when fewer than `u64::MAX` pages
/// came, and, where the scrape asks for another page afterwards, that page's
/// number `start_page + pages + 1` is at most `u64::MAX`.
pub proof fn law_fits(opts: ScrapeOptions, pages: Seq<Page>, page: Page)
    ensures
        crate::pagination::fits(opts, pages, page) <==> {
            &&& pages.len() < u64::MAX
            &&& (wants_page(opts, pages.push(page)) ==> opts.start_page + pages.len() + 1
                <= u64::MAX)
        },
{
}

/// Once a scrape has ended, it takes no further page.
pub proof fn law_no_page_after_end(opts: ScrapeOptions, pages: Seq<Page>, page: Page)
    requires
        ended(opts, pages),
    ensures
        !follows(opts, pages.push(page)),
{
    let next = pages.push(page);
    assert(next.take(pages.len() as int) =~= pages);
    assert(!wants_page(opts, next.take(pages.len() as int)));
}

/// Taking a page never drops or reorders a skill already kept: the skills kept
/// before are the start of the skills kept after.
pub proof fn law_kept_skills_grow(opts: ScrapeOptions, pages: Seq<Page>, page: Page)
    requires
        follows(opts, pages.push(page)),
    ensures
        kept_skills(opts, pages).len() <= kept_skills(opts, pages.push(page)).len(),
        kept_skills(opts, pages) =~= kept_skills(opts, pages.push(page)).take(
            kept_skills(opts, pages).len() as int,
        ),
{
    let next = pages.push(page);
    assert(next.take(pages.len() as int) =~= pages);
    assert(wants_page(opts, next.take(pages.len() as int)));
    lemma_collected_push(pages, page);
    let before = collected(pages);
    let after = collected(next);
    assert(kept_skills(opts, pages) == before) by {
        if pages.len() > 0 {
            assert(!skill_limit_reached(opts, before.len()));
        } else {
            assert(before =~= Seq::<Skill>::empty());
            assert(before.take(0) =~= before);
        }
    }
    assert(after.take(before.len() as int) =~= before);
}

/// `pages` are the answers of a server that answers page `n` with
/// `answers(n)`, to requests made from `opts.start_page` on.
pub open spec fn answered_by(
    opts: ScrapeOptions,
    pages: Seq<Page>,
    answers: spec_fn(int) -> Page,
) -> bool {
    forall|i: int| 0 <= i < pages.len() ==> #[trigger] pages[i] == answers(opts.start_page + i)
}

/// A scrape that is over: it received pages only when it asked for one, and it
/// asks for no more.
pub open spec fn completed(opts: ScrapeOptions, pages: Seq<Page>) -> bool {
    follows(opts, pages) && !wants_page(opts, pages)
}

/// `a` is the start of `b`.
pub open spec fn is_prefix<T>(a: Seq<T>, b: Seq<T>) -> bool {
    a.len() <= b.len() && a =~= b.take(a.len() as int)
}

/// The start of a history a scrape can receive is one too.
pub proof fn lemma_follows_take(opts: ScrapeOptions, pages: Seq<Page>, j: int)
    requires
        follows(opts, pages),
        0 <= j <= pages.len(),
    ensures
        follows(opts, pages.take(j)),
{
    let head = pages.take(j);
    assert forall|i: int| 0 <= i < head.len() implies #[trigger] wants_page(opts, head.take(i)) by {
        assert(head.take(i) =~= pages.take(i));
        assert(wants_page(opts, pages.take(i)));
    }
}

/// Two scrapes from the same start page, served by the same server, received
/// the same pages as far as the shorter one goes.
pub proof fn lemma_same_answers(
    o1: ScrapeOptions,
    h1: Seq<Page>,
    o2: ScrapeOptions,
    h2: Seq<Page>,
    answers: spec_fn(int) -> Page,
)
    requires
        o1.start_page == o2.start_page,
        answered_by(o1, h1, answers),
        answered_by(o2, h2, answers),
        h2.len() <= h1.len(),
    ensures
        h2 =~= h1.take(h2.len() as int),
{
    assert forall|i: int| 0 <= i < h2.len() implies h2[i] == h1.take(h2.len() as int)[i] by {
        assert(h2[i] == answers(o2.start_page + i));
        assert(h1[i] == answers(o1.start_page + i));
    }
}

/// The skills of the first pages are the start of the skills of all pages.
pub proof fn lemma_collected_prefix(pages: Seq<Page>, j: int)
    requires
        0 <= j <= pages.len(),
    ensures
        is_prefix(collected(pages.take(j)), collected(pages)),
    decreases pages.len(),
{
    if j == pages.len() {
        assert(pages.take(j) =~= pages);
    } else {
        let init = pages.drop_last();
        lemma_collected_prefix(init, j);
        assert(init.take(j) =~= pages.take(j));
        assert(init.push(pages.last()) =~= pages);
        lemma_collected_push(init, pages.last());
        let a = collected(pages.take(j));
        let b = collected(init);
        assert(collected(pages).take(a.len() as int) =~= b.take(a.len() as int));
    }
}

/// The skills kept after the first pages are the start of the skills kept
/// after all of them.
pub proof fn lemma_kept_prefix(opts: ScrapeOptions, pages: Seq<Page>, j: int)
    requires
        follows(opts, pages),
        0 <= j <= pages.len(),
    ensures
        is_prefix(kept_skills(opts, pages.take(j)), kept_skills(opts, pages)),
    decreases pages.len(),
{
    if j == pages.len() {
        assert(pages.take(j) =~= pages);
    } else {
        let init = pages.drop_last();
        assert(init.push(pages.last()) =~= pages);
        assert(pages.take(init.len() as int) =~= init);
        lemma_follows_take(opts, pages, init.len() as int);
        lemma_kept_prefix(opts, init, j);
        assert(init.take(j) =~= pages.take(j));
        law_kept_skills_grow(opts, init, pages.last());
        let a = kept_skills(opts, pages.take(j));
        let b = kept_skills(opts, init);
        let c = kept_skills(opts, pages);
        assert(c.take(a.len() as int) =~= b.take(a.len() as int));
    }
}

/// A skill cap only cuts: against the same server, a scrape with the cap `n`
/// fetches no more pages than the same scrape without a cap, and keeps the
/// first `n` of its skills (all of them where there are fewer), in the same
/// order.
pub proof fn law_skill_cap_only_cuts(
    o1: ScrapeOptions,
    h1: Seq<Page>,
    o2: ScrapeOptions,
    h2: Seq<Page>,
    answers: spec_fn(int) -> Page,
    n: usize,
)
    requires
        o1.max_skills is None,
        o2 == (ScrapeOptions { start_page: o1.start_page, max_pages: o1.max_pages, max_skills: Some(n) }),
        completed(o1, h1),
        completed(o2, h2),
        answered_by(o1, h1, answers),
        answered_by(o2, h2, answers),
    ensures
        h2.len() <= h1.len(),
        kept_skills(o2, h2) == kept_skills(o1, h1).take(
            if n < kept_skills(o1, h1).len() { n as int } else { kept_skills(o1, h1).len() as int },
        ),
{
    if h2.len() > h1.len() {
        lemma_same_answers(o2, h2, o1, h1, answers);
        assert(wants_page(o2, h2.take(h1.len() as int)));
        assert(!wants_page(o1, h1));
        assert(false);
    }
    lemma_same_answers(o1, h1, o2, h2, answers);
    let c1 = collected(h1);
    let c2 = collected(h2);
    assert(kept_skills(o1, h1) == c1);
    if h2.len() == h1.len() {
        assert(h2 =~= h1);
        assert(c1.take(c1.len() as int) =~= c1);
    } else {
        assert(wants_page(o1, h1.take(h2.len() as int)));
        assert(wants_page(o1, h2));
        assert(ended(o2, h2));
        assert(c2.len() >= n);
        lemma_collected_prefix(h1, h2.len() as int);
        assert(c1.take(n as int) =~= c2.take(n as int));
    }
}

/// One more page allowed is at most one more page fetched: against the same
/// server, raising the page cap from `m` to `m + 1` fetches the same pages or
/// one more, and the skills kept before are the start of the skills kept
/// after.
pub proof fn law_one_more_page(
    o1: ScrapeOptions,
    h1: Seq<Page>,
    o2: ScrapeOptions,
    h2: Seq<Page>,
    answers: spec_fn(int) -> Page,
    m: u64,
)
    requires
        o1.max_pages == Some(m),
        m < u64::MAX,
        o2 == (ScrapeOptions {
            start_page: o1.start_page,
            max_pages: Some((m + 1) as u64),
            max_skills: o1.max_skills,
        }),
        completed(o1, h1),
        completed(o2, h2),
        answered_by(o1, h1, answers),
        answered_by(o2, h2, answers),
    ensures
        h1.len() <= h2.len() <= h1.len() + 1,
        is_prefix(kept_skills(o1, h1), kept_skills(o2, h2)),
{
    if h2.len() < h1.len() {
        lemma_same_answers(o1, h1, o2, h2, answers);
        assert(wants_page(o1, h1.take(h2.len() as int)));
        assert(wants_page(o2, h2));
        assert(false);
    }
    lemma_same_answers(o2, h2, o1, h1, answers);
    if h2.len() > h1.len() + 1 {
        assert(h2.take(h1.len() as int) =~= h1);
        assert(wants_page(o2, h2.take(h1.len() as int)));
        assert(wants_page(o2, h2.take(h1.len() + 1int)));
        assert(wants_page(o1, h1));
        assert(false);
    }
    lemma_kept_prefix(o2, h2, h1.len() as int);
    assert(kept_skills(o1, h1) == kept_skills(o2, h1));
}

} // verus!
