//! The quote extractor: price, change against the previous close, and the
//! direction of that change, read from a quote page.

use vstd::prelude::*;

use crate::markup::{num_img_srcs, num_img_srcs_of, num_span_texts, num_span_texts_of};
use crate::text::{contains_seq, contains_str, trim, trim_of};

verus! {

/// Which way the price moved against the previous close.
#[derive(PartialEq, Eq, Structural, Clone, Copy, Debug)]
pub enum Direction {
    Up,
    Down,
    Unchanged,
}

/// What one quote page says.
pub struct QuoteResult {
    pub price: String,
    pub direction: Direction,
    pub delta: String,
}

/// A quote as character sequences.
pub ghost struct QuoteView {
    pub price: Seq<char>,
    pub direction: Direction,
    pub delta: Seq<char>,
}

impl View for QuoteResult {
    type V = QuoteView;

    open spec fn view(&self) -> QuoteView {
        QuoteView { price: self.price@, direction: self.direction, delta: self.delta@ }
    }
}

/// The change text that means no change.
pub open spec fn zero_text() -> Seq<char> {
    seq!['0']
}

/// The word that marks a falling trend in an indicator's source path.
pub open spec fn down_text() -> Seq<char> {
    seq!['d', 'o', 'w', 'n']
}

/// The direction that a change text and the trend indicators give: unchanged
/// where the change is "0", where there is no indicator or where the first
/// has no source path; down where that path holds "down"; up otherwise.
pub open spec fn direction_of(delta: Seq<char>, img_srcs: Seq<Option<Seq<char>>>) -> Direction {
    if delta == zero_text() || img_srcs.len() == 0 {
        Direction::Unchanged
    } else {
        match img_srcs[0] {
            Some(src) => if contains_seq(src, down_text()) {
                Direction::Down
            } else {
                Direction::Up
            },
            None => Direction::Unchanged,
        }
    }
}

/// The quote that the price spans and the trend indicators of a page give:
/// the first span is the price, the second the change, later ones are ignored,
/// and a missing one leaves its field empty.
pub open spec fn quote_of(spans: Seq<Seq<char>>, img_srcs: Seq<Option<Seq<char>>>) -> QuoteView {
    QuoteView {
        price: if spans.len() >= 1 {
            trim_of(spans[0])
        } else {
            Seq::empty()
        },
        direction: if spans.len() >= 2 {
            direction_of(trim_of(spans[1]), img_srcs)
        } else {
            Direction::Unchanged
        },
        delta: if spans.len() >= 2 {
            trim_of(spans[1])
        } else {
            Seq::empty()
        },
    }
}

/// The direction of a change, from its trimmed text and the source paths of
/// the page's trend indicators in document order.
pub fn direction_from(delta: &str, img_srcs: &Vec<Option<String>>) -> (d: Direction)
    ensures
        d == direction_of(delta@, img_srcs.deep_view()),
{
    let is_zero = delta.unicode_len() == 1 && delta.get_char(0) == '0';
    proof {
        if delta@ == zero_text() {
            assert(delta@[0] == '0');
        }
        if is_zero {
            assert(delta@ =~= zero_text());
        }
    }
    if is_zero || img_srcs.len() == 0 {
        return Direction::Unchanged;
    }
    match &img_srcs[0] {
        Some(src) => {
            let down = contains_str(src.as_str(), "down");
            proof {
                reveal_strlit("down");
                assert("down"@ =~= down_text());
            }
            if down {
                Direction::Down
            } else {
                Direction::Up
            }
        },
        None => Direction::Unchanged,
    }
}

/// The quote from the texts of a page's price spans and the source paths of
/// its trend indicators, each in document order.
pub fn quote_from_matches(spans: &Vec<String>, img_srcs: &Vec<Option<String>>) -> (q: QuoteResult)
    ensures
        q@ == quote_of(spans.deep_view(), img_srcs.deep_view()),
{
    let price = if spans.len() >= 1 {
        trim(spans[0].as_str())
    } else {
        String::new()
    };
    if spans.len() >= 2 {
        let delta = trim(spans[1].as_str());
        let direction = direction_from(delta.as_str(), img_srcs);
        QuoteResult { price, direction, delta }
    } else {
        QuoteResult { price, direction: Direction::Unchanged, delta: String::new() }
    }
}

/// Reads a quote page: the first two spans under an element of class `num`
/// give the price and the change, and the first image under such an element
/// gives the direction of a non-zero change.
pub fn extract(markup: &str) -> (q: QuoteResult)
    ensures
        q@ == quote_of(num_span_texts_of(markup@), num_img_srcs_of(markup@)),
{
    let spans = num_span_texts(markup);
    let img_srcs = num_img_srcs(markup);
    quote_from_matches(&spans, &img_srcs)
}

} // verus!
