//! The data of the skills.sh API, the options of a scrape and its outcome.

use vstd::prelude::*;
use vstd::string::StringExecFns;

verus! {

/// A single skill entry as returned by the skills.sh API.
#[derive(Debug, Clone, PartialEq, Eq)]
pub struct Skill {
    /// Source repository path or provider domain,
    /// e.g. `"vercel-labs/skills"` or `"open.feishu.cn"`.
    pub source: String,
    /// Stable machine identifier of the skill, e.g. `"find-skills"`.
    pub skill_id: String,
    /// Human-friendly name of the skill.
    pub name: String,
    /// Lifetime install count.
    pub installs: u64,
    /// Weekly install counts.
    pub weekly_installs: Vec<u64>,
}

/// How a skill is shown to a reader: `source/name`.
pub open spec fn skill_label(source: Seq<char>, name: Seq<char>) -> Seq<char> {
    source + seq!['/'] + name
}

impl Skill {
    /// The skill as a reader sees it, `source/name`
    /// (e.g. `"vercel-labs/skills/find-skills"`).
    pub fn to_string(&self) -> (s: String)
        ensures
            s@ == skill_label(self.source@, self.name@),
            s@.len() == self.source@.len() + 1 + self.name@.len(),
            s@.subrange(0, self.source@.len() as int) == self.source@,
            s@[self.source@.len() as int] == '/',
            s@.subrange(self.source@.len() + 1int, s@.len() as int) == self.name@,
    {
        let mut s = self.source.as_str().to_owned();
        proof { reveal_strlit("/"); }
        s.append("/");
        s.append(self.name.as_str());
        proof { law_skill_label(self.source@, self.name@); }
        s
    }
}

/// One page of the paginated API response.
#[derive(Debug, Clone, PartialEq, Eq)]
pub struct Page {
    /// Skills contained in this page.
    pub skills: Vec<Skill>,
    /// Whether more pages are available after this one
    /// (`false` where the API leaves it out).
    pub has_more: bool,
    /// Total number of skills across all pages, when the API provides it.
    pub total: Option<u64>,
}

/// Errors of a scrape.
#[derive(Debug, Clone, PartialEq, Eq)]
pub enum Error {
    /// Transport-level failure (DNS, connect, timeout, TLS, ...), with the
    /// transport's own description of it.
    Network(String),
    /// The API answered page `page` with the non-success HTTP status `status`.
    BadStatus { page: u64, status: u16 },
    /// The body of page `page` could not be decoded as a skills page; `source`
    /// says why.
    InvalidResponse { page: u64, source: String },
}

/// Options controlling a scrape.
#[derive(Debug, Clone, Copy, PartialEq, Eq, Structural)]
pub struct ScrapeOptions {
    /// First page to fetch. Defaults to `0`.
    pub start_page: u64,
    /// Hard cap on the number of pages fetched, counting from `start_page`.
    /// `None` means "keep going until the API reports `has_more == false`".
    pub max_pages: Option<u64>,
    /// Stop once this many skills have been collected. The returned list is
    /// truncated to exactly this length. `None` means "no limit".
    pub max_skills: Option<usize>,
}

impl Default for ScrapeOptions {
    /// Start at page 0, with no limit on pages or skills.
    fn default() -> (opts: Self)
        ensures
            opts == (ScrapeOptions { start_page: 0, max_pages: None, max_skills: None }),
    {
        ScrapeOptions { start_page: 0, max_pages: None, max_skills: None }
    }
}

/// The outcome of a scrape.
#[derive(Debug, Clone, PartialEq, Eq)]
pub struct ScrapeReport {
    /// All skills collected across the fetched pages.
    pub skills: Vec<Skill>,
    /// Number of pages actually fetched.
    pub pages_fetched: u64,
}

/// A label is the whole source, a slash, then the whole name, nothing cut and
/// nothing added.
pub proof fn law_skill_label(source: Seq<char>, name: Seq<char>)
    ensures
        skill_label(source, name).len() == source.len() + 1 + name.len(),
        skill_label(source, name).subrange(0, source.len() as int) == source,
        skill_label(source, name)[source.len() as int] == '/',
        skill_label(source, name).subrange(
            source.len() + 1int,
            skill_label(source, name).len() as int,
        ) == name,
{
    let l = skill_label(source, name);
    assert(l.subrange(0, source.len() as int) =~= source);
    assert(l.subrange(source.len() + 1int, l.len() as int) =~= name);
}

} // verus!
