//! The document tree the parser builds: a `Document` of block-level
//! `Element`s (headings, paragraphs, lists), whose leaves are
//! `InlineToken`s (text, links, images, bold, italic, code). The
//! `*View` types are the mathematical models the contracts speak of.

use vstd::prelude::*;

verus! {

/// A hyperlink: its inline content and its target.
#[derive(Debug, PartialEq, Eq)]
pub struct Link {
    pub tokens: Vec<InlineToken>,
    pub href: String,
}

/// An image reference: its source and its alternative text.
#[derive(Debug, PartialEq, Eq)]
pub struct Image {
    pub src: String,
    pub alt: String,
}

/// A unit of content inside a block element.
#[derive(Debug, PartialEq, Eq)]
pub enum InlineToken {
    Text(String),
    Link(Link),
    Image(Image),
    Bold(Vec<InlineToken>),
    Italic(Vec<InlineToken>),
    Code(String),
}

/// A paragraph: a non-empty sequence of inline tokens.
#[derive(Debug, PartialEq, Eq)]
pub struct Paragraph(pub Vec<InlineToken>);

/// A heading: its level is exactly the scanned hash-run length, with no
/// clamping, followed by its inline content.
#[derive(Debug, PartialEq, Eq)]
pub struct Heading {
    pub level: usize,
    pub tokens: Vec<InlineToken>,
}

/// Whether a list's items were introduced by numeric markers or dashes.
#[derive(Debug, PartialEq, Eq, Clone, Copy)]
pub enum ListKind {
    Ordered,
    Unordered,
}

/// A list: its kind and its items; the parser never builds one with zero
/// items.
#[derive(Debug, PartialEq, Eq)]
pub struct List {
    pub kind: ListKind,
    pub items: Vec<ListItem>,
}

/// One list item: arbitrary block content.
pub type ListItem = Vec<Element>;

/// A whole parsed document: its block elements in order.
#[derive(Debug, PartialEq, Eq)]
pub struct Document(pub Vec<Element>);

/// A block-level document unit.
#[derive(Debug, PartialEq, Eq)]
pub enum Element {
    Heading(Heading),
    Paragraph(Paragraph),
    List(List),
}

// ---------------------------------------------------------------------
// Mathematical models
// ---------------------------------------------------------------------

/// The model of an inline token, over character sequences.
pub enum InlineTokenView {
    Text(Seq<char>),
    Link { tokens: Seq<InlineTokenView>, href: Seq<char> },
    Image { src: Seq<char>, alt: Seq<char> },
    Bold(Seq<InlineTokenView>),
    Italic(Seq<InlineTokenView>),
    Code(Seq<char>),
}

/// The model of a block element.
pub enum ElementView {
    Heading { level: int, tokens: Seq<InlineTokenView> },
    Paragraph(Seq<InlineTokenView>),
    List { kind: ListKind, items: Seq<Seq<ElementView>> },
}

/// The model of one inline token.
pub open spec fn inline_view(t: InlineToken) -> InlineTokenView
    decreases t,
{
    match t {
        InlineToken::Text(s) => InlineTokenView::Text(s@),
        InlineToken::Link(l) => InlineTokenView::Link {
            tokens: inlines_view(l.tokens@),
            href: l.href@,
        },
        InlineToken::Image(im) => InlineTokenView::Image { src: im.src@, alt: im.alt@ },
        InlineToken::Bold(v) => InlineTokenView::Bold(inlines_view(v@)),
        InlineToken::Italic(v) => InlineTokenView::Italic(inlines_view(v@)),
        InlineToken::Code(s) => InlineTokenView::Code(s@),
    }
}

/// The models of a sequence of inline tokens, in order.
pub open spec fn inlines_view(ts: Seq<InlineToken>) -> Seq<InlineTokenView>
    decreases ts,
{
    if ts.len() == 0 {
        Seq::empty()
    } else {
        seq![inline_view(ts[0])] + inlines_view(ts.drop_first())
    }
}

/// The model of one block element.
pub open spec fn element_view(e: Element) -> ElementView
    decreases e,
{
    match e {
        Element::Heading(h) => ElementView::Heading {
            level: h.level as int,
            tokens: inlines_view(h.tokens@),
        },
        Element::Paragraph(p) => ElementView::Paragraph(inlines_view(p.0@)),
        Element::List(l) => ElementView::List { kind: l.kind, items: items_view(l.items@) },
    }
}

/// The models of a sequence of block elements, in order.
pub open spec fn elements_view(es: Seq<Element>) -> Seq<ElementView>
    decreases es,
{
    if es.len() == 0 {
        Seq::empty()
    } else {
        seq![element_view(es[0])] + elements_view(es.drop_first())
    }
}

/// The models of a sequence of list items, in order.
pub open spec fn items_view(its: Seq<ListItem>) -> Seq<Seq<ElementView>>
    decreases its,
{
    if its.len() == 0 {
        Seq::empty()
    } else {
        seq![elements_view(its[0]@)] + items_view(its.drop_first())
    }
}

/// `inlines_view` is the element-wise model.
pub proof fn lemma_inlines_view(ts: Seq<InlineToken>)
    ensures
        inlines_view(ts).len() == ts.len(),
        forall|i: int| 0 <= i < ts.len() ==> inlines_view(ts)[i] == inline_view(ts[i]),
    decreases ts.len(),
{
    if ts.len() > 0 {
        lemma_inlines_view(ts.drop_first());
    }
}

/// `elements_view` is the element-wise model.
pub proof fn lemma_elements_view(es: Seq<Element>)
    ensures
        elements_view(es).len() == es.len(),
        forall|i: int| 0 <= i < es.len() ==> elements_view(es)[i] == element_view(es[i]),
    decreases es.len(),
{
    if es.len() > 0 {
        lemma_elements_view(es.drop_first());
    }
}

/// `items_view` is the element-wise model.
pub proof fn lemma_items_view(its: Seq<ListItem>)
    ensures
        items_view(its).len() == its.len(),
        forall|i: int| 0 <= i < its.len() ==> items_view(its)[i] == elements_view(its[i]@),
    decreases its.len(),
{
    if its.len() > 0 {
        lemma_items_view(its.drop_first());
    }
}

/// Appending one inline token appends its model.
pub proof fn lemma_inlines_view_push(ts: Seq<InlineToken>, t: InlineToken)
    ensures
        inlines_view(ts.push(t)) == inlines_view(ts) + seq![inline_view(t)],
{
    lemma_inlines_view(ts);
    lemma_inlines_view(ts.push(t));
    assert(inlines_view(ts.push(t)) =~= inlines_view(ts) + seq![inline_view(t)]);
}

/// Appending one element appends its model.
pub proof fn lemma_elements_view_push(es: Seq<Element>, e: Element)
    ensures
        elements_view(es.push(e)) == elements_view(es) + seq![element_view(e)],
{
    lemma_elements_view(es);
    lemma_elements_view(es.push(e));
    assert(elements_view(es.push(e)) =~= elements_view(es) + seq![element_view(e)]);
}

/// Appending one list item appends its model.
pub proof fn lemma_items_view_push(its: Seq<ListItem>, it: ListItem)
    ensures
        items_view(its.push(it)) == items_view(its) + seq![elements_view(it@)],
{
    lemma_items_view(its);
    lemma_items_view(its.push(it));
    assert(items_view(its.push(it)) =~= items_view(its) + seq![elements_view(it@)]);
}

impl View for InlineToken {
    type V = InlineTokenView;

    open spec fn view(&self) -> InlineTokenView {
        inline_view(*self)
    }
}

impl View for Element {
    type V = ElementView;

    open spec fn view(&self) -> ElementView {
        element_view(*self)
    }
}

impl View for Document {
    type V = Seq<ElementView>;

    open spec fn view(&self) -> Seq<ElementView> {
        elements_view(self.0@)
    }
}

// ---------------------------------------------------------------------
// Constructors
// ---------------------------------------------------------------------

impl InlineToken {
    /// A plain text node carrying exactly `text`.
    pub fn new_text(text: &str) -> (r: Self)
        ensures
            r@ == InlineTokenView::Text(text@),
    {
        InlineToken::Text(text.to_owned())
    }

    /// A link node with the given inline content and target.
    pub fn new_link(tokens: Vec<InlineToken>, href: &str) -> (r: Self)
        ensures
            r@ == (InlineTokenView::Link { tokens: inlines_view(tokens@), href: href@ }),
    {
        InlineToken::Link(Link { tokens, href: href.to_owned() })
    }

    /// A bold node wrapping the given inline content.
    pub fn new_blod(tokens: Vec<InlineToken>) -> (r: Self)
        ensures
            r@ == InlineTokenView::Bold(inlines_view(tokens@)),
    {
        InlineToken::Bold(tokens)
    }

    /// An italic node wrapping the given inline content.
    pub fn new_italic(tokens: Vec<InlineToken>) -> (r: Self)
        ensures
            r@ == InlineTokenView::Italic(inlines_view(tokens@)),
    {
        InlineToken::Italic(tokens)
    }

    /// A code span carrying exactly `code`.
    pub fn new_code(code: &str) -> (r: Self)
        ensures
            r@ == InlineTokenView::Code(code@),
    {
        InlineToken::Code(code.to_owned())
    }

    /// An image node with the given source and alternative text.
    pub fn new_img(src: &str, alt: &str) -> (r: Self)
        ensures
            r@ == (InlineTokenView::Image { src: src@, alt: alt@ }),
    {
        InlineToken::Image(Image { src: src.to_owned(), alt: alt.to_owned() })
    }
}

impl Document {
    /// A document of exactly the given elements.
    pub fn new(elements: Vec<Element>) -> (r: Self)
        ensures
            r@ == elements_view(elements@),
    {
        Document(elements)
    }
}

impl Element {
    /// A heading of exactly the given level and inline content.
    pub fn new_heading(level: usize, tokens: Vec<InlineToken>) -> (r: Self)
        ensures
            r@ == (ElementView::Heading { level: level as int, tokens: inlines_view(tokens@) }),
    {
        Element::Heading(Heading { level, tokens })
    }

    /// A paragraph of exactly the given inline content.
    pub fn new_paragraph(tokens: Vec<InlineToken>) -> (r: Self)
        ensures
            r@ == ElementView::Paragraph(inlines_view(tokens@)),
    {
        Element::Paragraph(Paragraph(tokens))
    }

    /// A list of exactly the given kind and items.
    pub fn new_list(kind: ListKind, items: Vec<ListItem>) -> (r: Self)
        ensures
            r@ == (ElementView::List { kind, items: items_view(items@) }),
    {
        Element::List(List { kind, items })
    }
}

} // verus!
