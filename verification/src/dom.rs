//! The document parser: kuchiki's HTML/XML tree, reached through trusted
//! declarations that parse a byte buffer and hand back plain values. Parsing
//! is deterministic in the bytes and matches come in tree order, so each
//! query's result is named as a function of the bytes and the query.
//! Each query parses its buffer afresh: the tree never crosses the trusted
//! boundary, and every contract stays a function of plain values.

use vstd::prelude::*;
use kuchiki::traits::TendrilSink;

verus! {

/// The text of the first element matching the selector, or `None` when
/// nothing matches.
pub uninterp spec fn first_text_of(b: Seq<u8>, sel: Seq<char>) -> Option<Seq<char>>;

/// Relies on kuchiki's `parse_html`, `select_first` and `text_contents`:
/// parsing the bytes is deterministic, `select_first` returns the first
/// matching element in tree order, and `text_contents` concatenates the
/// descendant text of that element.
#[verifier::external_body]
pub(crate) fn doc_first_text(bytes: &Vec<u8>, sel: &str) -> (r: Option<String>)
    ensures
        r.deep_view() == first_text_of(bytes@, sel@),
{
    let doc = kuchiki::parse_html().from_utf8().read_from(&mut &bytes[..]).unwrap();
    doc.select_first(sel).ok().map(|n| n.text_contents())
}

/// For each element matching the selector, in tree order, the value of the
/// named attribute.
pub uninterp spec fn attr_values_of(b: Seq<u8>, sel: Seq<char>, attr: Seq<char>) -> Seq<
    Option<Seq<char>>,
>;

/// Relies on kuchiki's `parse_html`, `select` and attribute lookup: matches
/// come in tree order and `attributes.get` returns the attribute's value
/// where the element has it.
#[verifier::external_body]
pub(crate) fn doc_attr_values(bytes: &Vec<u8>, sel: &str, attr: &str) -> (r: Vec<Option<String>>)
    ensures
        r.deep_view() == attr_values_of(bytes@, sel@, attr@),
{
    let doc = kuchiki::parse_html().from_utf8().read_from(&mut &bytes[..]).unwrap();
    match doc.select(sel) {
        Ok(iter) => iter.map(|e| e.attributes.borrow().get(attr).map(str::to_string)).collect(),
        Err(()) => Vec::new(),
    }
}

/// For each element matching the selector, in tree order, the values of the
/// two named attributes.
pub uninterp spec fn attr_pairs_of(
    b: Seq<u8>,
    sel: Seq<char>,
    attr_a: Seq<char>,
    attr_b: Seq<char>,
) -> Seq<(Option<Seq<char>>, Option<Seq<char>>)>;

/// Relies on kuchiki's `parse_html`, `select` and attribute lookup, as
/// `doc_attr_values` does, reading two attributes of each match.
#[verifier::external_body]
pub(crate) fn doc_attr_pairs(bytes: &Vec<u8>, sel: &str, attr_a: &str, attr_b: &str) -> (r: Vec<
    (Option<String>, Option<String>),
>)
    ensures
        r.deep_view() == attr_pairs_of(bytes@, sel@, attr_a@, attr_b@),
{
    let doc = kuchiki::parse_html().from_utf8().read_from(&mut &bytes[..]).unwrap();
    match doc.select(sel) {
        Ok(iter) => iter.map(|e| {
            let a = e.attributes.borrow();
            (a.get(attr_a).map(str::to_string), a.get(attr_b).map(str::to_string))
        }).collect(),
        Err(()) => Vec::new(),
    }
}

/// For each element matching `sel`, in tree order: the value of its `attr`
/// attribute, the text of its first `text_sel` descendant (empty when there
/// is none), and the `child_attr` attribute of its first `child_sel`
/// descendant.
pub uninterp spec fn records_of(
    b: Seq<u8>,
    sel: Seq<char>,
    attr: Seq<char>,
    text_sel: Seq<char>,
    child_sel: Seq<char>,
    child_attr: Seq<char>,
) -> Seq<(Option<Seq<char>>, Seq<char>, Option<Seq<char>>)>;

/// Relies on kuchiki's `parse_html`, `select`, `select_first`,
/// `text_contents` and attribute lookup: matches and first descendants come
/// in tree order, all of it a function of the bytes and the queries.
#[verifier::external_body]
pub(crate) fn doc_records(
    bytes: &Vec<u8>,
    sel: &str,
    attr: &str,
    text_sel: &str,
    child_sel: &str,
    child_attr: &str,
) -> (r: Vec<(Option<String>, String, Option<String>)>)
    ensures
        r.deep_view() == records_of(bytes@, sel@, attr@, text_sel@, child_sel@, child_attr@),
{
    let doc = kuchiki::parse_html().from_utf8().read_from(&mut &bytes[..]).unwrap();
    let mut out = Vec::new();
    if let Ok(iter) = doc.select(sel) {
        for m in iter {
            let a = m.attributes.borrow().get(attr).map(str::to_string);
            let t = m.as_node().select_first(text_sel).map(|n| n.text_contents());
            let c = m.as_node().select_first(child_sel).ok();
            let c = c.and_then(|n| n.attributes.borrow().get(child_attr).map(str::to_string));
            out.push((a, t.unwrap_or_default(), c));
        }
    }
    out
}

/// The concatenated descendant text of the whole document: what rendering a
/// content document to plain text returns.
pub uninterp spec fn text_of(b: Seq<u8>) -> Seq<char>;

/// Relies on kuchiki's `parse_html` and `text_contents`: the concatenation
/// of all text nodes of the parsed document, in tree order.
#[verifier::external_body]
pub(crate) fn doc_text(bytes: &Vec<u8>) -> (r: String)
    ensures
        r@ == text_of(bytes@),
{
    let doc = kuchiki::parse_html().from_utf8().read_from(&mut &bytes[..]).unwrap();
    doc.text_contents()
}

} // verus!
