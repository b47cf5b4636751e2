# skills_sh

A client for the [skills.sh](https://skills.sh) skill registry, whose
decisions are proved with Verus.

The registry serves skills in pages (`{base}/{page}`); a scrape fetches pages
from `start_page` on, one after another, until a page says no more follow, or
until `max_pages` pages were fetched, or until `max_skills` skills were
collected (the list is then cut to exactly that many).

Layout:

- `src/` — the verified library:
  - `model.rs`: `Skill`, `Page`, `ScrapeOptions` (with its default),
    `ScrapeReport`, `Error`;
  - `url.rs`: page URLs, with the page number written in decimal, and the proof
    that different pages get different URLs;
  - `status.rs`: which HTTP statuses carry a page;
  - `pagination.rs`: `Scrape`, the state machine that says which page to fetch
    next and folds each page into the report, specified over the sequence of
    pages received;
  - `laws.rs`: what every scrape obeys (page cap, skill cap, order of the
    skills kept, consecutive page numbers, the end of pagination), and how two
    scrapes against the same server relate when one has a skill cap or one
    more page allowed.
- `app/` — the async HTTP client (reqwest), JSON decoding (serde), the error
  type shown to users (thiserror) and the loop that drives `Scrape`.
- `tests/` — scrapes driven against pages held in memory.
