//! The request locator of a quote page: a fixed address with the local time
//! of the request and the listing code as query parameters.

use vstd::prelude::*;
use vstd::string::*;

use crate::table::StockInfo;
use crate::text::{padded, push_char, push_padded};

verus! {

/// A local wall-clock time, to the second.
#[derive(PartialEq, Eq, Structural, Clone, Copy, Debug)]
pub struct Timestamp {
    pub year: i32,
    pub month: u32,
    pub day: u32,
    pub hour: u32,
    pub minute: u32,
    pub second: u32,
}

impl Timestamp {
    /// The ranges that a calendar date and a time of day keep to.
    pub open spec fn wf(&self) -> bool {
        &&& 1 <= self.month <= 12
        &&& 1 <= self.day <= 31
        &&& self.hour <= 23
        &&& self.minute <= 59
        &&& self.second <= 59
    }
}

/// Relies on chrono's `Local::now`, with `Datelike::{year, month, day}` and
/// `Timelike::{hour, minute, second}` on it: the local time now, each part in
/// the range those accessors document.
#[verifier::external_body]
fn local_now() -> (t: Timestamp)
    ensures
        t.wf(),
{
    let now = chrono::Local::now();
    Timestamp {
        year: chrono::Datelike::year(&now),
        month: chrono::Datelike::month(&now),
        day: chrono::Datelike::day(&now),
        hour: chrono::Timelike::hour(&now),
        minute: chrono::Timelike::minute(&now),
        second: chrono::Timelike::second(&now),
    }
}

/// A year zero-padded to four characters, the sign counted among them.
pub open spec fn year_text(year: int) -> Seq<char> {
    if year >= 0 {
        padded(year as nat, 4)
    } else {
        seq!['-'] + padded((-year) as nat, 3)
    }
}

/// The time as `YYYYMMDDhhmmss`, each part zero-padded, no separators.
pub open spec fn time_text(t: Timestamp) -> Seq<char> {
    year_text(t.year as int) + padded(t.month as nat, 2) + padded(t.day as nat, 2) + padded(
        t.hour as nat,
        2,
    ) + padded(t.minute as nat, 2) + padded(t.second as nat, 2)
}

/// The address of the quote page, up to the time parameter's value.
pub open spec fn page_prefix() -> Seq<char> {
    "https://finance.naver.com/item/sise_time.nhn?thistime="@
}

/// The separator between the time and the code parameters.
pub open spec fn code_param() -> Seq<char> {
    "&code="@
}

/// The locator of the quote page for a listing code at a given time.
pub open spec fn locator_of(code: Seq<char>, t: Timestamp) -> Seq<char> {
    page_prefix() + time_text(t) + code_param() + code
}

/// Appends the time as `YYYYMMDDhhmmss`.
pub fn push_time_text(s: &mut String, t: &Timestamp)
    ensures
        final(s)@ == old(s)@ + time_text(*t),
{
    let ghost start = s@;
    if t.year >= 0 {
        push_padded(s, t.year as u32, 4);
    } else {
        push_char(s, '-');
        push_padded(s, (-(t.year as i64)) as u32, 3);
    }
    assert(s@ =~= start + year_text(t.year as int));
    push_padded(s, t.month, 2);
    push_padded(s, t.day, 2);
    push_padded(s, t.hour, 2);
    push_padded(s, t.minute, 2);
    push_padded(s, t.second, 2);
    assert(s@ =~= start + time_text(*t));
}

/// The locator of the quote page for `code` at time `t`.
pub fn locator_at(code: &str, t: &Timestamp) -> (url: String)
    ensures
        url@ == locator_of(code@, *t),
{
    let mut url = "https://finance.naver.com/item/sise_time.nhn?thistime=".to_owned();
    push_time_text(&mut url, t);
    url.append("&code=");
    url.append(code);
    assert(url@ =~= locator_of(code@, *t));
    url
}

/// The locator of the quote page for a company at the local time now.
pub fn make_reference_url(stock_info: &StockInfo) -> (url: String)
    ensures
        exists|t: Timestamp| t.wf() && url@ == locator_of(stock_info.code@, t),
{
    let now = local_now();
    locator_at(stock_info.code.as_str(), &now)
}

} // verus!
