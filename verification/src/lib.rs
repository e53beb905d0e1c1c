//! Metalpal finds the metal releases of the day.
//!
//! The releases are read off a calendar page, enriched with metadata from a
//! popularity catalog and from an archive, filtered by genre, and merged
//! into the collection of all releases seen so far. This library holds the
//! decisions of that pipeline, with contracts that Verus proves; fetching
//! pages, asking the catalogs, storing the collection and telling the user
//! are left to the program around it.
//!
//! - `release::calendar` reads draft releases off the calendar's markup.
//! - `release::spotify` and `release::metallum` decide what is taken from
//!   the answers of the two catalogs, `release::enrich` attaches it.
//! - `release::filter` decides which releases are skipped, and why.
//! - `release::merge` writes the day's releases back into the collection.
//! - `display` and `slack` lay out what the user is shown and told.
//!
//! Markup, patterns, dates and letter case are the business of the crates
//! `scraper`, `voca_rs`, `regex` and `chrono` and of the standard library.
//! Their answers are named in `html`, `pattern`, `date` and `text`; what the
//! library makes of the answers is proved.

pub mod config;
pub mod date;
pub mod display;
pub mod error;
pub mod html;
pub mod order;
pub mod pattern;
pub mod release;
pub mod slack;
pub mod text;
