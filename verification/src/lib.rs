//! skills_sh: the verified core of a client for the [skills.sh](https://skills.sh)
//! skill registry.
//!
//! The registry serves its skills in pages (`{base}/{page}`), each page saying
//! whether more pages follow. This crate holds what the client decides:
//!
//! - [`model`]: the data the API returns ([`Skill`], [`Page`]), the options of a
//!   scrape ([`ScrapeOptions`]), its outcome ([`ScrapeReport`]) and [`Error`];
//! - [`url`]: the address of a page, the page number written in decimal;
//! - [`status`]: which HTTP answers carry a page;
//! - [`pagination`]: the scrape itself, a state machine that says which page to
//!   fetch next and folds each fetched page into the report;
//! - [`laws`]: what every scrape obeys, whatever the API answers.
//!
//! The network, the decoding of JSON bodies and the async loop that drives the
//! state machine are not part of this crate.

#![allow(unused_imports)]

pub mod laws;
pub mod model;
pub mod pagination;
pub mod status;
pub mod url;

pub use model::{Error, Page, ScrapeOptions, ScrapeReport, Skill};
pub use pagination::Scrape;
pub use url::DEFAULT_API_BASE;
