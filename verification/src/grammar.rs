//! The grammar, mathematically. Each `spec_parse_*` function maps a token
//! stream to the parsed construct's model and the unconsumed remainder, or
//! to the first error, exactly as the executable parser behaves; the
//! executable methods in the parser module are proved equal to them.
//!
//! Dispatch is by one token of lookahead. A heading is a hash run followed
//! by inline content; a list is a maximal run of items whose markers all
//! have the kind of the first (a dash run, or a text token of digits
//! followed by a dot); anything that starts an inline token opens a
//! paragraph. Inline content is text and whitespace accumulation, code
//! spans, italic, bold, links and images.

use vstd::prelude::*;
use crate::tokenizer::TokenView;
use crate::tokenizer::spec_token_text;
use crate::tokenizer::spec_tokens;
use crate::tokenizer::spec_tokens_text;
use crate::tokenizer::spec_next_token;
use crate::tokenizer::lemma_delim_run_exact;
use crate::tokenizer::lemma_tokens_unfold;
use crate::tokenizer::lemma_tokens_text_from;
use crate::ast::ElementView;
use crate::ast::InlineTokenView;
use crate::ast::ListKind;

verus! {

/// The grammar construct in whose parse an error was found.
#[derive(Debug, PartialEq, Eq, Clone, Copy)]
pub enum Construct {
    Element,
    Paragraph,
    Bold,
    Italic,
    Code,
    Link,
    Image,
    List,
    ListItem,
}

/// The model of a parse error: a token that fits no alternative of the
/// construct being parsed, or a construct still open at end of input.
pub enum ParseErrorView {
    UnexpectedToken { token: TokenView, construct: Construct },
    Unterminated { construct: Construct },
}

/// What ends a run of inline tokens: the enclosing construct.
#[derive(Debug, PartialEq, Eq, Clone, Copy)]
pub enum InlineCtx {
    Block,
    Bold,
    Italic,
    Link,
}

/// A decimal digit.
pub open spec fn is_digit_char(c: char) -> bool {
    c == '0' || c == '1' || c == '2' || c == '3' || c == '4' || c == '5' || c == '6' || c == '7'
        || c == '8' || c == '9'
}

/// An ordered-list marker: one or more digits followed by a dot.
pub open spec fn is_ordered_marker(s: Seq<char>) -> bool {
    &&& s.len() >= 2
    &&& s[s.len() - 1] == '.'
    &&& forall|i: int| 0 <= i < s.len() - 1 ==> is_digit_char(#[trigger] s[i])
}

/// A text token whose content is an ordered-list marker.
pub open spec fn is_marker_token(t: TokenView) -> bool {
    match t {
        TokenView::Text(s) => is_ordered_marker(s),
        _ => false,
    }
}

/// The tokens that can begin an inline token, in any context.
pub open spec fn is_inline_starter(t: TokenView) -> bool {
    match t {
        TokenView::Text(_) => true,
        TokenView::Whitespace(_) => true,
        TokenView::ExclamationMark => true,
        TokenView::Backticks(n) => n == 1,
        TokenView::Asterisk(n) => n == 1 || n == 2,
        TokenView::Underscore(n) => n == 1,
        TokenView::OpeningBracket => true,
        _ => false,
    }
}

/// The tokens that close the enclosing construct and therefore end an
/// inline run even though they could begin an inline token.
pub open spec fn ctx_stops(ctx: InlineCtx, t: TokenView) -> bool {
    match ctx {
        InlineCtx::Block => is_marker_token(t),
        InlineCtx::Bold => t == TokenView::Asterisk(2),
        InlineCtx::Italic => t == TokenView::Asterisk(1) || t == TokenView::Underscore(1),
        InlineCtx::Link => false,
    }
}

/// The construct an inline context belongs to, for error reports.
pub open spec fn ctx_construct(ctx: InlineCtx) -> Construct {
    match ctx {
        InlineCtx::Block => Construct::Paragraph,
        InlineCtx::Bold => Construct::Bold,
        InlineCtx::Italic => Construct::Italic,
        InlineCtx::Link => Construct::Link,
    }
}

/// Whether an inline run keeps going on lookahead `t`.
pub open spec fn inline_continues(ctx: InlineCtx, t: TokenView) -> bool {
    is_inline_starter(t) && !ctx_stops(ctx, t)
}

/// Whether text accumulation keeps going on lookahead `t`: text and
/// whitespace merge, except that at block level an ordered-list marker
/// ends the run.
pub open spec fn text_continues(ctx: InlineCtx, t: TokenView) -> bool {
    match t {
        TokenView::Whitespace(_) => true,
        TokenView::Text(s) => !(ctx == InlineCtx::Block && is_ordered_marker(s)),
        _ => false,
    }
}

/// Whether token `t` is a list-item marker of the given kind.
pub open spec fn marker_of_kind(t: TokenView, kind: ListKind) -> bool {
    match kind {
        ListKind::Unordered => t is Dash,
        ListKind::Ordered => is_marker_token(t),
    }
}

// ---------------------------------------------------------------------
// Inline grammar
// ---------------------------------------------------------------------

/// Text accumulation: the concatenated literal text of the consumed
/// tokens, and the remainder. Never fails and never consumes a token
/// that is not text or whitespace.
pub open spec fn spec_parse_text(toks: Seq<TokenView>, ctx: InlineCtx) -> (Seq<char>, Seq<
    TokenView,
>)
    decreases toks.len(),
{
    if toks.len() == 0 || !text_continues(ctx, toks[0]) {
        (Seq::empty(), toks)
    } else {
        let rec = spec_parse_text(toks.drop_first(), ctx);
        (spec_token_text(toks[0]) + rec.0, rec.1)
    }
}

/// An inline run: inline tokens while the lookahead starts one and does
/// not close the enclosing construct.
pub open spec fn spec_parse_inline_tokens(toks: Seq<TokenView>, ctx: InlineCtx) -> Result<
    (Seq<InlineTokenView>, Seq<TokenView>),
    ParseErrorView,
>
    decreases toks.len(), 4int,
{
    if toks.len() == 0 || !inline_continues(ctx, toks[0]) {
        Ok((Seq::empty(), toks))
    } else {
        match spec_parse_inline_token(toks, ctx) {
            Ok((t, rest)) => if rest.len() < toks.len() {
                match spec_parse_inline_tokens(rest, ctx) {
                    Ok((ts, rest2)) => Ok((seq![t] + ts, rest2)),
                    Err(e) => Err(e),
                }
            } else {
                // an inline token always consumes at least its first token;
                // this branch keeps the definition total
                Err(ParseErrorView::Unterminated { construct: ctx_construct(ctx) })
            },
            Err(e) => Err(e),
        }
    }
}

/// One inline token, dispatched on the lookahead: image, code span,
/// italic, bold, link, or merged text.
pub open spec fn spec_parse_inline_token(toks: Seq<TokenView>, ctx: InlineCtx) -> Result<
    (InlineTokenView, Seq<TokenView>),
    ParseErrorView,
>
    decreases toks.len(), 3int,
{
    if toks.len() == 0 {
        Err(ParseErrorView::UnexpectedToken { token: TokenView::EOF, construct: ctx_construct(ctx) })
    } else {
        let t = toks[0];
        match t {
            TokenView::ExclamationMark => spec_parse_image(toks),
            TokenView::Backticks(n) => if n == 1 {
                spec_parse_code(toks)
            } else {
                Err(ParseErrorView::UnexpectedToken { token: t, construct: ctx_construct(ctx) })
            },
            TokenView::Asterisk(n) => if n == 1 {
                spec_parse_italic(toks)
            } else if n == 2 {
                spec_parse_bold(toks)
            } else {
                Err(ParseErrorView::UnexpectedToken { token: t, construct: ctx_construct(ctx) })
            },
            TokenView::Underscore(n) => if n == 1 {
                spec_parse_italic(toks)
            } else {
                Err(ParseErrorView::UnexpectedToken { token: t, construct: ctx_construct(ctx) })
            },
            TokenView::OpeningBracket => spec_parse_link(toks),
            TokenView::Text(_) => {
                let tr = spec_parse_text(toks, ctx);
                Ok((InlineTokenView::Text(tr.0), tr.1))
            },
            TokenView::Whitespace(_) => {
                let tr = spec_parse_text(toks, ctx);
                Ok((InlineTokenView::Text(tr.0), tr.1))
            },
            _ => Err(ParseErrorView::UnexpectedToken { token: t, construct: ctx_construct(ctx) }),
        }
    }
}

/// A code span: a single backtick, merged text, a single backtick.
pub open spec fn spec_parse_code(toks: Seq<TokenView>) -> Result<
    (InlineTokenView, Seq<TokenView>),
    ParseErrorView,
>
    recommends
        toks.len() > 0,
        toks[0] == TokenView::Backticks(1),
{
    let tr = spec_parse_text(toks.drop_first(), InlineCtx::Link);
    let rest = tr.1;
    if rest.len() == 0 {
        Err(ParseErrorView::Unterminated { construct: Construct::Code })
    } else if rest[0] == TokenView::Backticks(1) {
        Ok((InlineTokenView::Code(tr.0), rest.drop_first()))
    } else {
        Err(ParseErrorView::UnexpectedToken { token: rest[0], construct: Construct::Code })
    }
}

/// An italic span: a single asterisk or underscore opens it, inline
/// content follows, and either single-character delimiter closes it.
pub open spec fn spec_parse_italic(toks: Seq<TokenView>) -> Result<
    (InlineTokenView, Seq<TokenView>),
    ParseErrorView,
>
    recommends
        toks.len() > 0,
    decreases toks.len(), 2int,
{
    if toks.len() == 0 {
        Err(ParseErrorView::Unterminated { construct: Construct::Italic })
    } else {
    match spec_parse_inline_tokens(toks.drop_first(), InlineCtx::Italic) {
        Ok((ts, rest)) => if rest.len() == 0 {
            Err(ParseErrorView::Unterminated { construct: Construct::Italic })
        } else if rest[0] == TokenView::Asterisk(1) || rest[0] == TokenView::Underscore(1) {
            Ok((InlineTokenView::Italic(ts), rest.drop_first()))
        } else {
            Err(ParseErrorView::UnexpectedToken { token: rest[0], construct: Construct::Italic })
        },
        Err(e) => Err(e),
    }
    }
}

/// A bold span: a double asterisk opens it, inline content follows, a
/// double asterisk closes it.
pub open spec fn spec_parse_bold(toks: Seq<TokenView>) -> Result<
    (InlineTokenView, Seq<TokenView>),
    ParseErrorView,
>
    recommends
        toks.len() > 0,
    decreases toks.len(), 2int,
{
    if toks.len() == 0 {
        Err(ParseErrorView::Unterminated { construct: Construct::Bold })
    } else {
    match spec_parse_inline_tokens(toks.drop_first(), InlineCtx::Bold) {
        Ok((ts, rest)) => if rest.len() == 0 {
            Err(ParseErrorView::Unterminated { construct: Construct::Bold })
        } else if rest[0] == TokenView::Asterisk(2) {
            Ok((InlineTokenView::Bold(ts), rest.drop_first()))
        } else {
            Err(ParseErrorView::UnexpectedToken { token: rest[0], construct: Construct::Bold })
        },
        Err(e) => Err(e),
    }
    }
}

/// A link: bracketed inline content, then the target text in
/// parentheses.
pub open spec fn spec_parse_link(toks: Seq<TokenView>) -> Result<
    (InlineTokenView, Seq<TokenView>),
    ParseErrorView,
>
    recommends
        toks.len() > 0,
        toks[0] == TokenView::OpeningBracket,
    decreases toks.len(), 2int,
{
    if toks.len() == 0 {
        Err(ParseErrorView::Unterminated { construct: Construct::Link })
    } else {
    match spec_parse_inline_tokens(toks.drop_first(), InlineCtx::Link) {
        Ok((ts, rest)) => if rest.len() == 0 {
            Err(ParseErrorView::Unterminated { construct: Construct::Link })
        } else if rest[0] == TokenView::ClosingBracket {
            let rest1 = rest.drop_first();
            if rest1.len() == 0 {
                Err(ParseErrorView::Unterminated { construct: Construct::Link })
            } else if rest1[0] == TokenView::OpeningParenthesis {
                let hr = spec_parse_text(rest1.drop_first(), InlineCtx::Link);
                let rest2 = hr.1;
                if rest2.len() == 0 {
                    Err(ParseErrorView::Unterminated { construct: Construct::Link })
                } else if rest2[0] == TokenView::ClosingParenthesis {
                    Ok(
                        (
                            InlineTokenView::Link { tokens: ts, href: hr.0 },
                            rest2.drop_first(),
                        ),
                    )
                } else {
                    Err(
                        ParseErrorView::UnexpectedToken {
                            token: rest2[0],
                            construct: Construct::Link,
                        },
                    )
                }
            } else {
                Err(ParseErrorView::UnexpectedToken { token: rest1[0], construct: Construct::Link })
            }
        } else {
            Err(ParseErrorView::UnexpectedToken { token: rest[0], construct: Construct::Link })
        },
        Err(e) => Err(e),
    }
    }
}

/// An image: an exclamation mark, bracketed alternative text, then the
/// source text in parentheses.
pub open spec fn spec_parse_image(toks: Seq<TokenView>) -> Result<
    (InlineTokenView, Seq<TokenView>),
    ParseErrorView,
>
    recommends
        toks.len() > 0,
        toks[0] == TokenView::ExclamationMark,
{
    let rest0 = toks.drop_first();
    if rest0.len() == 0 {
        Err(ParseErrorView::Unterminated { construct: Construct::Image })
    } else if rest0[0] == TokenView::OpeningBracket {
        let ar = spec_parse_text(rest0.drop_first(), InlineCtx::Link);
        let rest1 = ar.1;
        if rest1.len() == 0 {
            Err(ParseErrorView::Unterminated { construct: Construct::Image })
        } else if rest1[0] == TokenView::ClosingBracket {
            let rest2 = rest1.drop_first();
            if rest2.len() == 0 {
                Err(ParseErrorView::Unterminated { construct: Construct::Image })
            } else if rest2[0] == TokenView::OpeningParenthesis {
                let sr = spec_parse_text(rest2.drop_first(), InlineCtx::Link);
                let rest3 = sr.1;
                if rest3.len() == 0 {
                    Err(ParseErrorView::Unterminated { construct: Construct::Image })
                } else if rest3[0] == TokenView::ClosingParenthesis {
                    Ok(
                        (
                            InlineTokenView::Image { src: sr.0, alt: ar.0 },
                            rest3.drop_first(),
                        ),
                    )
                } else {
                    Err(
                        ParseErrorView::UnexpectedToken {
                            token: rest3[0],
                            construct: Construct::Image,
                        },
                    )
                }
            } else {
                Err(
                    ParseErrorView::UnexpectedToken { token: rest2[0], construct: Construct::Image },
                )
            }
        } else {
            Err(ParseErrorView::UnexpectedToken { token: rest1[0], construct: Construct::Image })
        }
    } else {
        Err(ParseErrorView::UnexpectedToken { token: rest0[0], construct: Construct::Image })
    }
}

// ---------------------------------------------------------------------
// Block grammar
// ---------------------------------------------------------------------

/// A heading: the hash run gives the level, inline content follows.
pub open spec fn spec_parse_heading(toks: Seq<TokenView>) -> Result<
    (ElementView, Seq<TokenView>),
    ParseErrorView,
>
    recommends
        toks.len() > 0,
        toks[0] is Hash,
{
    if toks.len() == 0 {
        Err(ParseErrorView::UnexpectedToken { token: TokenView::EOF, construct: Construct::Element })
    } else {
        match toks[0] {
            TokenView::Hash(n) => match spec_parse_inline_tokens(toks.drop_first(), InlineCtx::Block) {
                Ok((ts, rest)) => Ok((ElementView::Heading { level: n, tokens: ts }, rest)),
                Err(e) => Err(e),
            },
            _ => Err(
                ParseErrorView::UnexpectedToken { token: toks[0], construct: Construct::Element },
            ),
        }
    }
}

/// One block element, dispatched on the lookahead: a hash run opens a
/// heading, a list marker opens a list, an inline starter opens a
/// paragraph, and anything else is a syntax error.
pub open spec fn spec_parse_element(toks: Seq<TokenView>) -> Result<
    (ElementView, Seq<TokenView>),
    ParseErrorView,
>
    decreases toks.len(), 7int,
{
    if toks.len() == 0 {
        Err(ParseErrorView::UnexpectedToken { token: TokenView::EOF, construct: Construct::Element })
    } else {
        let t = toks[0];
        if t is Hash {
            spec_parse_heading(toks)
        } else if t is Dash || is_marker_token(t) {
            spec_parse_list(toks)
        } else if is_inline_starter(t) {
            match spec_parse_inline_tokens(toks, InlineCtx::Block) {
                Ok((ts, rest)) => Ok((ElementView::Paragraph(ts), rest)),
                Err(e) => Err(e),
            }
        } else {
            Err(ParseErrorView::UnexpectedToken { token: t, construct: Construct::Element })
        }
    }
}

/// A list: its kind comes from its first marker and is invariant for the
/// rest of its items; a marker of the other kind ends it (and will open
/// a second, adjacent list).
pub open spec fn spec_parse_list(toks: Seq<TokenView>) -> Result<
    (ElementView, Seq<TokenView>),
    ParseErrorView,
>
    decreases toks.len(), 6int,
{
    if toks.len() == 0 {
        Err(ParseErrorView::UnexpectedToken { token: TokenView::EOF, construct: Construct::List })
    } else if toks[0] is Dash || is_marker_token(toks[0]) {
        let kind = if toks[0] is Dash {
            ListKind::Unordered
        } else {
            ListKind::Ordered
        };
        match spec_parse_list_items(toks, kind) {
            Ok((items, rest)) => Ok((ElementView::List { kind, items }, rest)),
            Err(e) => Err(e),
        }
    } else {
        Err(ParseErrorView::UnexpectedToken { token: toks[0], construct: Construct::List })
    }
}

/// The maximal run of list items whose markers all have the given kind.
pub open spec fn spec_parse_list_items(toks: Seq<TokenView>, kind: ListKind) -> Result<
    (Seq<Seq<ElementView>>, Seq<TokenView>),
    ParseErrorView,
>
    decreases toks.len(), 5int,
{
    if toks.len() == 0 || !marker_of_kind(toks[0], kind) {
        Ok((Seq::empty(), toks))
    } else {
        match spec_parse_list_item(toks) {
            Ok((item, rest)) => if rest.len() < toks.len() {
                match spec_parse_list_items(rest, kind) {
                    Ok((items, rest2)) => Ok((seq![item] + items, rest2)),
                    Err(e) => Err(e),
                }
            } else {
                // an item always consumes its marker; this branch keeps
                // the definition total
                Err(ParseErrorView::Unterminated { construct: Construct::List })
            },
            Err(e) => Err(e),
        }
    }
}

/// One list item: its marker, then block content up to the next marker
/// or the end of input.
pub open spec fn spec_parse_list_item(toks: Seq<TokenView>) -> Result<
    (Seq<ElementView>, Seq<TokenView>),
    ParseErrorView,
>
    recommends
        toks.len() > 0,
    decreases toks.len(), 4int,
{
    if toks.len() == 0 {
        Err(
            ParseErrorView::UnexpectedToken { token: TokenView::EOF, construct: Construct::ListItem },
        )
    } else {
        spec_parse_item_elements(toks.drop_first())
    }
}

/// The block content of one list item: elements until the lookahead is a
/// marker of either kind or the input ends.
pub open spec fn spec_parse_item_elements(toks: Seq<TokenView>) -> Result<
    (Seq<ElementView>, Seq<TokenView>),
    ParseErrorView,
>
    decreases toks.len(), 8int,
{
    if toks.len() == 0 || toks[0] is Dash || is_marker_token(toks[0]) {
        Ok((Seq::empty(), toks))
    } else {
        match spec_parse_element(toks) {
            Ok((e, rest)) => if rest.len() < toks.len() {
                match spec_parse_item_elements(rest) {
                    Ok((es, rest2)) => Ok((seq![e] + es, rest2)),
                    Err(e2) => Err(e2),
                }
            } else {
                // an element always consumes at least one token; this
                // branch keeps the definition total
                Err(ParseErrorView::Unterminated { construct: Construct::ListItem })
            },
            Err(e) => Err(e),
        }
    }
}

/// All elements of a document: elements until the input ends.
pub open spec fn spec_parse_elements(toks: Seq<TokenView>) -> Result<
    (Seq<ElementView>, Seq<TokenView>),
    ParseErrorView,
>
    decreases toks.len(),
{
    if toks.len() == 0 {
        Ok((Seq::empty(), toks))
    } else {
        match spec_parse_element(toks) {
            Ok((e, rest)) => if rest.len() < toks.len() {
                match spec_parse_elements(rest) {
                    Ok((es, rest2)) => Ok((seq![e] + es, rest2)),
                    Err(e2) => Err(e2),
                }
            } else {
                // an element always consumes at least one token; this
                // branch keeps the definition total
                Err(ParseErrorView::Unterminated { construct: Construct::Element })
            },
            Err(e) => Err(e),
        }
    }
}

/// A whole document: every element of the token stream, or the first
/// error. Parsing stops only at the end of input or at an error, so
/// nothing remains unconsumed on success.
pub open spec fn spec_parse_document(toks: Seq<TokenView>) -> Result<
    Seq<ElementView>,
    ParseErrorView,
> {
    match spec_parse_elements(toks) {
        Ok((es, _rest)) => Ok(es),
        Err(e) => Err(e),
    }
}

// ---------------------------------------------------------------------
// Laws
// ---------------------------------------------------------------------

/// A token that plain-text accumulation consumes at block level:
/// whitespace, or text that is not an ordered-list marker.
pub open spec fn is_plain_text_token(t: TokenView) -> bool {
    t is Whitespace || (t is Text && !is_marker_token(t))
}

/// Text accumulation at block level consumes a stream of plain tokens
/// whole, yielding exactly their concatenated literal text.
pub proof fn lemma_parse_text_plain(toks: Seq<TokenView>)
    requires
        forall|j: int| 0 <= j < toks.len() ==> is_plain_text_token(#[trigger] toks[j]),
    ensures
        spec_parse_text(toks, InlineCtx::Block) == (
            spec_tokens_text(toks),
            Seq::<TokenView>::empty(),
        ),
    decreases toks.len(),
{
    if toks.len() == 0 {
        assert(toks =~= Seq::<TokenView>::empty());
    } else {
        assert(is_plain_text_token(toks[0]));
        assert forall|j: int| 0 <= j < toks.drop_first().len() implies is_plain_text_token(
            #[trigger] toks.drop_first()[j],
        ) by {
            assert(toks.drop_first()[j] == toks[j + 1]);
        }
        lemma_parse_text_plain(toks.drop_first());
    }
}

/// An inline run at block level over a non-empty stream of plain tokens
/// is one single merged text node carrying their concatenated text.
pub proof fn lemma_inline_tokens_plain(toks: Seq<TokenView>)
    requires
        toks.len() > 0,
        forall|j: int| 0 <= j < toks.len() ==> is_plain_text_token(#[trigger] toks[j]),
    ensures
        spec_parse_inline_tokens(toks, InlineCtx::Block) == Ok::<
            (Seq<InlineTokenView>, Seq<TokenView>),
            ParseErrorView,
        >((seq![InlineTokenView::Text(spec_tokens_text(toks))], Seq::<TokenView>::empty())),
{
    assert(is_plain_text_token(toks[0]));
    assert(inline_continues(InlineCtx::Block, toks[0]));
    lemma_parse_text_plain(toks);
    assert(spec_parse_inline_token(toks, InlineCtx::Block) == Ok::<
        (InlineTokenView, Seq<TokenView>),
        ParseErrorView,
    >((InlineTokenView::Text(spec_tokens_text(toks)), Seq::<TokenView>::empty())));
    assert(spec_parse_inline_tokens(Seq::<TokenView>::empty(), InlineCtx::Block) == Ok::<
        (Seq<InlineTokenView>, Seq<TokenView>),
        ParseErrorView,
    >((Seq::<InlineTokenView>::empty(), Seq::<TokenView>::empty())));
    assert(Seq::<TokenView>::empty().len() < toks.len());
    assert(seq![InlineTokenView::Text(spec_tokens_text(toks))] + Seq::<InlineTokenView>::empty()
        =~= seq![InlineTokenView::Text(spec_tokens_text(toks))]);
}

/// Heading law: an input of `k` consecutive hashes followed by a space
/// and further text that tokenizes to plain text and whitespace alone
/// parses to exactly one heading of level `k` — levels are unbounded,
/// not clamped — whose single inline token is the text after the hashes
/// (the space included). Inputs whose tail contains delimiter or bracket
/// tokens, or an ordered-list marker, are outside this law.
pub proof fn lemma_heading_law(s: Seq<char>, k: int)
    requires
        1 <= k < s.len(),
        forall|i: int| 0 <= i < k ==> s[i] == '#',
        s[k] == ' ',
        forall|j: int| 0 <= j < spec_tokens(s, k).len() ==> is_plain_text_token(
            #[trigger] spec_tokens(s, k)[j],
        ),
    ensures
        spec_parse_document(spec_tokens(s, 0)) == Ok::<Seq<ElementView>, ParseErrorView>(
            seq![
                (ElementView::Heading {
                    level: k,
                    tokens: seq![InlineTokenView::Text(s.subrange(k, s.len() as int))],
                }),
            ],
        ),
{
    lemma_delim_run_exact(s, 0, '#', k);
    assert(spec_next_token(s, 0) == (TokenView::Hash(k), k));
    lemma_tokens_unfold(s, 0);
    let tws = spec_tokens(s, k);
    let full = spec_tokens(s, 0);
    assert(full == seq![TokenView::Hash(k)] + tws);
    lemma_tokens_unfold(s, k);
    assert(tws.len() > 0);
    lemma_tokens_text_from(s, k);
    lemma_inline_tokens_plain(tws);
    assert(full[0] == TokenView::Hash(k));
    assert(full.drop_first() =~= tws);
    let hv = ElementView::Heading {
        level: k,
        tokens: seq![InlineTokenView::Text(s.subrange(k, s.len() as int))],
    };
    assert(spec_parse_heading(full) == Ok::<(ElementView, Seq<TokenView>), ParseErrorView>(
        (hv, Seq::<TokenView>::empty()),
    ));
    assert(spec_parse_element(full) == Ok::<(ElementView, Seq<TokenView>), ParseErrorView>(
        (hv, Seq::<TokenView>::empty()),
    ));
    assert(spec_parse_elements(Seq::<TokenView>::empty()) == Ok::<
        (Seq<ElementView>, Seq<TokenView>),
        ParseErrorView,
    >((Seq::<ElementView>::empty(), Seq::<TokenView>::empty())));
    assert(seq![hv] + Seq::<ElementView>::empty() =~= seq![hv]);
    assert(spec_parse_elements(full) == Ok::<(Seq<ElementView>, Seq<TokenView>), ParseErrorView>(
        (seq![hv], Seq::<TokenView>::empty()),
    ));
}

/// A run of list items is maximal: whatever remains after it never
/// begins with a marker of the same kind.
pub proof fn lemma_list_items_maximal(toks: Seq<TokenView>, kind: ListKind)
    ensures
        (match spec_parse_list_items(toks, kind) {
            Ok(pr) => pr.1.len() > 0 ==> !marker_of_kind(pr.1[0], kind),
            Err(_) => true,
        }),
    decreases toks.len(),
{
    if toks.len() > 0 && marker_of_kind(toks[0], kind) {
        match spec_parse_list_item(toks) {
            Ok((item, rest)) => {
                if rest.len() < toks.len() {
                    lemma_list_items_maximal(rest, kind);
                }
            },
            Err(_) => {},
        }
    }
}

/// List law: a parsed list takes every consecutive item of its kind —
/// what remains never begins with a marker of the list's own kind, so a
/// run of same-kind items can never split into two adjacent lists.
pub proof fn lemma_list_maximal(toks: Seq<TokenView>)
    ensures
        (match spec_parse_list(toks) {
            Ok(pr) => (match pr.0 {
                ElementView::List { kind, items } => pr.1.len() > 0 ==> !marker_of_kind(
                    pr.1[0],
                    kind,
                ),
                _ => true,
            }),
            Err(_) => true,
        }),
{
    if toks.len() > 0 && (toks[0] is Dash || is_marker_token(toks[0])) {
        let kind = if toks[0] is Dash {
            ListKind::Unordered
        } else {
            ListKind::Ordered
        };
        lemma_list_items_maximal(toks, kind);
    }
}

/// List law: a parsed list never has zero items — its first marker
/// always opens at least one item.
pub proof fn lemma_list_items_nonempty(toks: Seq<TokenView>)
    ensures
        spec_parse_list(toks) is Ok ==> (match spec_parse_list(toks)->Ok_0.0 {
            ElementView::List { kind, items } => items.len() >= 1,
            _ => false,
        }),
{
    if toks.len() > 0 && (toks[0] is Dash || is_marker_token(toks[0])) {
        let kind = if toks[0] is Dash {
            ListKind::Unordered
        } else {
            ListKind::Ordered
        };
        assert(marker_of_kind(toks[0], kind));
    }
}

} // verus!
