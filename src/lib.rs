//! Quote lookup for listed companies: a reference table of companies rebuilt
//! from a flat run of table cells, a scraper for quote pages, and the request
//! locator that joins the two.

pub mod markup;
pub mod text;
pub mod table;
pub mod quote;
pub mod locator;
pub mod lookup;
