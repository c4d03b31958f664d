//! One quote lookup, split at the fetch: resolving the company and its
//! locator before it, reading the page after it.

use vstd::prelude::*;

use crate::locator::{locator_at, locator_of, Timestamp};
use crate::markup::{num_img_srcs_of, num_span_texts_of};
use crate::quote::{extract, quote_of, QuoteResult};
use crate::table::{StockInfo, StockTable};
use crate::text::{to_upper, upper_of};

verus! {

/// A fetch that failed, with what the transport said.
pub struct LookupError {
    pub cause: String,
}

/// The record for a user-supplied company name: the name is upper cased and
/// matched exactly against the table's keys.
pub fn find<'a>(table: &'a StockTable, target: &str) -> (r: Option<&'a StockInfo>)
    requires
        table.wf(),
    ensures
        r is None <==> !table@.contains_key(upper_of(target@)),
        r matches Some(info) ==> info@ == table@[upper_of(target@)],
{
    let key = to_upper(target);
    table.get(&key)
}

/// What to fetch for a target at time `now`: its record and the locator of
/// its quote page. A target that the table does not hold gives nothing, which
/// is no error.
pub fn lookup<'a>(table: &'a StockTable, target: &str, now: &Timestamp) -> (r: Option<
    (&'a StockInfo, String),
>)
    requires
        table.wf(),
    ensures
        r is None <==> !table@.contains_key(upper_of(target@)),
        r matches Some(p) ==> p.0@ == table@[upper_of(target@)] && p.1@ == locator_of(
            table@[upper_of(target@)].code,
            *now,
        ),
{
    match find(table, target) {
        Some(info) => {
            let url = locator_at(info.code.as_str(), now);
            Some((info, url))
        },
        None => None,
    }
}

/// The outcome of a lookup once its page was fetched: the quote that the page
/// gives, or the fetch's failure passed on as it came.
pub fn finish_lookup(fetched: Result<String, String>) -> (r: Result<QuoteResult, LookupError>)
    ensures
        fetched matches Ok(body) ==> r matches Ok(q) && q@ == quote_of(
            num_span_texts_of(body@),
            num_img_srcs_of(body@),
        ),
        fetched matches Err(e) ==> r matches Err(err) && err.cause@ == e@,
{
    match fetched {
        Ok(body) => Ok(extract(body.as_str())),
        Err(cause) => Err(LookupError { cause }),
    }
}

} // verus!
