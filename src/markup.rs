//! The markup queries that the table loader and the quote extractor make,
//! answered by the `select` HTML library. A parse depends on the markup alone.

use vstd::prelude::*;

verus! {

/// The text of every `td` element of a document, in document order.
pub uninterp spec fn cell_texts_of(markup: Seq<char>) -> Seq<Seq<char>>;

/// The text of every `span` that is a child of an element of class `num`, in
/// document order.
pub uninterp spec fn num_span_texts_of(markup: Seq<char>) -> Seq<Seq<char>>;

/// The `src` attribute, where there is one, of every `img` that is a child of
/// an element of class `num`, in document order.
pub uninterp spec fn num_img_srcs_of(markup: Seq<char>) -> Seq<Option<Seq<char>>>;

/// Relies on select's `Document::from`, `Document::find` with `Name("td")` and
/// `Node::text`: the text of each table cell of the markup, in document order.
#[verifier::external_body]
pub(crate) fn cell_texts(markup: &str) -> (r: Vec<String>)
    ensures
        r.deep_view() == cell_texts_of(markup@),
{
    let document = select::document::Document::from(markup);
    let mut texts = Vec::new();
    for node in document.find(select::predicate::Name("td")) {
        texts.push(node.text());
    }
    texts
}

/// Relies on select's `Document::from`, `Document::find` with
/// `Class("num").child(Name("span"))` and `Node::text`: the text of each such
/// span of the markup, in document order.
#[verifier::external_body]
pub(crate) fn num_span_texts(markup: &str) -> (r: Vec<String>)
    ensures
        r.deep_view() == num_span_texts_of(markup@),
{
    let document = select::document::Document::from(markup);
    let query = select::predicate::Predicate::child(
        select::predicate::Class("num"),
        select::predicate::Name("span"),
    );
    let mut texts = Vec::new();
    for node in document.find(query) {
        texts.push(node.text());
    }
    texts
}

/// Relies on select's `Document::from`, `Document::find` with
/// `Class("num").child(Name("img"))` and `Node::attr("src")`: the source path
/// of each such image of the markup, in document order.
#[verifier::external_body]
pub(crate) fn num_img_srcs(markup: &str) -> (r: Vec<Option<String>>)
    ensures
        r.deep_view() == num_img_srcs_of(markup@),
{
    let document = select::document::Document::from(markup);
    let query = select::predicate::Predicate::child(
        select::predicate::Class("num"),
        select::predicate::Name("img"),
    );
    let mut srcs = Vec::new();
    for node in document.find(query) {
        srcs.push(node.attr("src").map(|v| v.to_string()));
    }
    srcs
}

} // verus!
