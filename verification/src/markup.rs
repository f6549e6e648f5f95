//! Queries on HTML markup and resolution of links. The work is done by the
//! `select` and `url` crates; this module gives each query a name that the
//! contracts of the library speak of.

use crate::text::views;
use select::document::Document;
use select::predicate::{And, Attr, Class, Descendant, Name};
use vstd::prelude::*;

verus! {

/// The character views of a sequence of optional strings.
pub open spec fn option_views(items: Seq<Option<String>>) -> Seq<Option<Seq<char>>> {
    items.map_values(
        |item: Option<String>|
            match item {
                Some(s) => Some(s@),
                None => None,
            },
    )
}

/// The texts, in document order, of the elements of `markup` that are named
/// `tag` and carry the class `class`.
pub uninterp spec fn class_texts(markup: Seq<char>, tag: Seq<char>, class: Seq<char>) -> Seq<
    Seq<char>,
>;

/// The texts, in document order, of the elements of `markup` that are named
/// `inner_tag`, carry the class `inner_class` and lie inside an element named
/// `tag` with the class `class`.
pub uninterp spec fn inner_class_texts(
    markup: Seq<char>,
    tag: Seq<char>,
    class: Seq<char>,
    inner_tag: Seq<char>,
    inner_class: Seq<char>,
) -> Seq<Seq<char>>;

/// The texts, in document order, of the elements of `markup` that are named
/// `inner_tag` and lie inside an element named `tag` with the class `class`.
pub uninterp spec fn inner_tag_texts(
    markup: Seq<char>,
    tag: Seq<char>,
    class: Seq<char>,
    inner_tag: Seq<char>,
) -> Seq<Seq<char>>;

/// For each element of `markup` named `tag` whose attribute `attr` is
/// exactly `value`, in document order: the attribute `link_attr` of the first
/// element below it that is named `link_tag` and lies inside an element with
/// the class `link_class`, if there is such an element and it has that
/// attribute.
pub uninterp spec fn entry_links(
    markup: Seq<char>,
    tag: Seq<char>,
    attr: Seq<char>,
    value: Seq<char>,
    link_class: Seq<char>,
    link_tag: Seq<char>,
    link_attr: Seq<char>,
) -> Seq<Option<Seq<char>>>;

/// What `reference` resolves to against the address `base`, or `None` where
/// `base` is no address or the two do not combine.
pub uninterp spec fn resolved_url(base: Seq<char>, reference: Seq<char>) -> Option<Seq<char>>;

/// The error of the `url` crate's parser.
#[verifier::external_type_specification]
#[verifier::external_body]
pub struct ExUrlParseError(url::ParseError);

/// Parses `markup` with select's `Document::from`, runs `Document::find`
/// with the predicate `And(Name(tag), Class(class))` and takes `Node::text`
/// of each node found. Claimed of select: the texts depend on the three
/// strings alone.
#[verifier::external_body]
pub(crate) fn select_class_texts(markup: &str, tag: &str, class: &str) -> (r: Vec<String>)
    ensures
        views(r@) == class_texts(markup@, tag@, class@),
{
    Document::from(markup).find(And(Name(tag), Class(class))).map(|node| node.text()).collect()
}

/// Parses `markup` with select's `Document::from`, runs `Document::find`
/// with the predicate `Descendant(And(Name(tag), Class(class)),
/// And(Name(inner_tag), Class(inner_class)))` and takes `Node::text` of each
/// node found. Claimed of select: the texts depend on the five strings alone.
#[verifier::external_body]
pub(crate) fn select_inner_class_texts(
    markup: &str,
    tag: &str,
    class: &str,
    inner_tag: &str,
    inner_class: &str,
) -> (r: Vec<String>)
    ensures
        views(r@) == inner_class_texts(markup@, tag@, class@, inner_tag@, inner_class@),
{
    let outer = And(Name(tag), Class(class));
    let inner = And(Name(inner_tag), Class(inner_class));
    Document::from(markup).find(Descendant(outer, inner)).map(|node| node.text()).collect()
}

/// Parses `markup` with select's `Document::from`, runs `Document::find`
/// with the predicate `Descendant(And(Name(tag), Class(class)),
/// Name(inner_tag))` and takes `Node::text` of each node found. Claimed of
/// select: the texts depend on the four strings alone.
#[verifier::external_body]
pub(crate) fn select_inner_tag_texts(markup: &str, tag: &str, class: &str, inner_tag: &str) -> (r:
    Vec<String>)
    ensures
        views(r@) == inner_tag_texts(markup@, tag@, class@, inner_tag@),
{
    let outer = And(Name(tag), Class(class));
    Document::from(markup).find(Descendant(outer, Name(inner_tag))).map(|node| node.text()).collect()
}

/// Parses `markup` with select's `Document::from`, runs `Document::find`
/// with the predicate `And(Name(tag), Attr(attr, value))`, and for each node
/// found takes the first node of `Node::find` with the predicate
/// `Descendant(Class(link_class), Name(link_tag))` and its `Node::attr` for
/// `link_attr`. Claimed of select: the outcome depends on the seven strings
/// alone.
#[verifier::external_body]
pub(crate) fn select_entry_links(
    markup: &str,
    tag: &str,
    attr: &str,
    value: &str,
    link_class: &str,
    link_tag: &str,
    link_attr: &str,
) -> (r: Vec<Option<String>>)
    ensures
        option_views(r@) == entry_links(
            markup@,
            tag@,
            attr@,
            value@,
            link_class@,
            link_tag@,
            link_attr@,
        ),
{
    let link = Descendant(Class(link_class), Name(link_tag));
    Document::from(markup).find(And(Name(tag), Attr(attr, value))).map(
        |node| node.find(link).next().and_then(|a| a.attr(link_attr)).map(String::from),
    ).collect()
}

/// Parses `base` with the url crate's `Url::parse` and resolves `reference`
/// against it with `Url::join`. Claimed of url: the outcome depends on the
/// two strings alone.
#[verifier::external_body]
pub(crate) fn join_url(base: &str, reference: &str) -> (r: Result<String, url::ParseError>)
    ensures
        match r {
            Ok(address) => resolved_url(base@, reference@) == Some(address@),
            Err(_) => resolved_url(base@, reference@) is None,
        },
{
    url::Url::parse(base).and_then(|address| address.join(reference)).map(String::from)
}

} // verus!
