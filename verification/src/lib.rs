//! Best-effort extraction of news records from web pages.
//!
//! The crate holds the rules by which links are discovered on a page, by which a
//! link is judged worth following, and by which the text of an article is
//! gathered. It performs no network access: a caller fetches, and hands the
//! bodies it received to the crawl.

pub mod article;
pub mod crawl;
pub mod html;
pub mod keywords;
pub mod links;
pub mod record;
pub mod text;
