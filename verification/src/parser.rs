//! The recursive-descent parser. It owns the lexer and one buffered
//! lookahead token; every grammar rule inspects the lookahead to pick its
//! alternative and consumes tokens through [`Parser::eat`]. Each method is
//! proved to return exactly what the corresponding `spec_parse_*` function
//! of the grammar module says, over the parser's remaining token stream.

use vstd::prelude::*;
use vstd::string::StringExecFns;
use vstd::string::StrSliceExecFns;
use crate::tokenizer::Token;
use crate::tokenizer::TokenView;
use crate::tokenizer::Tokenizer;
use crate::tokenizer::spec_tokens;
use crate::tokenizer::spec_token_text;
use crate::tokenizer::lemma_next_token;
use crate::tokenizer::lemma_tokens_unfold;
use crate::ast::Document;
use crate::ast::Element;
use crate::ast::ElementView;
use crate::ast::Heading;
use crate::ast::InlineToken;
use crate::ast::InlineTokenView;
use crate::ast::Link;
use crate::ast::Image;
use crate::ast::List;
use crate::ast::ListItem;
use crate::ast::ListKind;
use crate::ast::Paragraph;
use crate::ast::inlines_view;
use crate::ast::elements_view;
use crate::ast::items_view;
use crate::ast::lemma_inlines_view_push;
use crate::ast::lemma_elements_view_push;
use crate::ast::lemma_items_view_push;
use crate::grammar::Construct;
use crate::grammar::InlineCtx;
use crate::grammar::ParseErrorView;
use crate::grammar::ctx_construct;
use crate::grammar::ctx_stops;
use crate::grammar::inline_continues;
use crate::grammar::is_digit_char;
use crate::grammar::is_inline_starter;
use crate::grammar::is_marker_token;
use crate::grammar::is_ordered_marker;
use crate::grammar::marker_of_kind;
use crate::grammar::text_continues;
use crate::grammar::spec_parse_text;
use crate::grammar::spec_parse_inline_tokens;
use crate::grammar::spec_parse_inline_token;
use crate::grammar::spec_parse_code;
use crate::grammar::spec_parse_italic;
use crate::grammar::spec_parse_bold;
use crate::grammar::spec_parse_link;
use crate::grammar::spec_parse_image;
use crate::grammar::spec_parse_heading;
use crate::grammar::spec_parse_element;
use crate::grammar::spec_parse_list;
use crate::grammar::spec_parse_list_items;
use crate::grammar::spec_parse_list_item;
use crate::grammar::spec_parse_item_elements;
use crate::grammar::spec_parse_elements;
use crate::grammar::spec_parse_document;

verus! {

/// A parse error: the whole parse aborts at the first one. An unexpected
/// token carries the offending token; an unterminated construct means the
/// input ended before the construct's closing delimiter.
#[derive(Debug, PartialEq, Eq)]
pub enum ParseError {
    UnexpectedToken { token: Token, construct: Construct },
    Unterminated { construct: Construct },
}

impl View for ParseError {
    type V = ParseErrorView;

    open spec fn view(&self) -> ParseErrorView {
        match self {
            ParseError::UnexpectedToken { token, construct } => ParseErrorView::UnexpectedToken {
                token: token@,
                construct: *construct,
            },
            ParseError::Unterminated { construct } => ParseErrorView::Unterminated {
                construct: *construct,
            },
        }
    }
}

// ---------------------------------------------------------------------
// Executable token classification
// ---------------------------------------------------------------------

/// Executable decimal-digit test, equal to [`is_digit_char`].
fn digit_char(c: char) -> (r: bool)
    ensures
        r == is_digit_char(c),
{
    c == '0' || c == '1' || c == '2' || c == '3' || c == '4' || c == '5' || c == '6' || c == '7'
        || c == '8' || c == '9'
}

/// Executable ordered-marker test, equal to [`is_ordered_marker`].
pub fn marker_string(s: &str) -> (r: bool)
    ensures
        r == is_ordered_marker(s@),
{
    let n = s.unicode_len();
    if n < 2 {
        return false;
    }
    if s.get_char(n - 1) != '.' {
        return false;
    }
    let mut i: usize = 0;
    while i < n - 1
        invariant
            2 <= n == s@.len(),
            i <= n - 1,
            forall|j: int| 0 <= j < i ==> is_digit_char(#[trigger] s@[j]),
        decreases n - 1 - i,
    {
        if !digit_char(s.get_char(i)) {
            return false;
        }
        i = i + 1;
    }
    true
}

/// Whether this token is an ordered-list marker.
fn token_is_marker(t: &Token) -> (r: bool)
    ensures
        r == is_marker_token(t@),
{
    match t {
        Token::Text(s) => marker_string(s.as_str()),
        _ => false,
    }
}

/// Whether this token can begin an inline token.
fn token_starts_inline(t: &Token) -> (r: bool)
    ensures
        r == is_inline_starter(t@),
{
    match t {
        Token::Text(_) => true,
        Token::Whitespace(_) => true,
        Token::ExclamationMark => true,
        Token::Backticks(n) => *n == 1,
        Token::Asterisk(n) => *n == 1 || *n == 2,
        Token::Underscore(n) => *n == 1,
        Token::OpeningBracket => true,
        _ => false,
    }
}

/// Whether this token closes the construct of context `ctx`.
fn token_stops_ctx(ctx: InlineCtx, t: &Token) -> (r: bool)
    ensures
        r == ctx_stops(ctx, t@),
{
    match ctx {
        InlineCtx::Block => token_is_marker(t),
        InlineCtx::Bold => matches!(t, Token::Asterisk(2)),
        InlineCtx::Italic => matches!(t, Token::Asterisk(1)) || matches!(t, Token::Underscore(1)),
        InlineCtx::Link => false,
    }
}

/// Whether text accumulation continues on this token.
fn token_continues_text(ctx: InlineCtx, t: &Token) -> (r: bool)
    ensures
        r == text_continues(ctx, t@),
{
    match t {
        Token::Whitespace(_) => true,
        Token::Text(s) => !(matches!(ctx, InlineCtx::Block) && marker_string(s.as_str())),
        _ => false,
    }
}

/// Whether this token is a list-item marker of the given kind.
fn token_marker_of_kind(t: &Token, kind: ListKind) -> (r: bool)
    ensures
        r == marker_of_kind(t@, kind),
{
    match kind {
        ListKind::Unordered => t.is_dash(),
        ListKind::Ordered => token_is_marker(t),
    }
}

/// The construct an inline context reports errors for.
fn construct_of_ctx(ctx: InlineCtx) -> (r: Construct)
    ensures
        r == ctx_construct(ctx),
{
    match ctx {
        InlineCtx::Block => Construct::Paragraph,
        InlineCtx::Bold => Construct::Bold,
        InlineCtx::Italic => Construct::Italic,
        InlineCtx::Link => Construct::Link,
    }
}

/// A single-backtick token (a code-span delimiter).
fn is_backticks_one(t: &Token) -> (r: bool)
    ensures
        r == (t@ == TokenView::Backticks(1)),
{
    matches!(t, Token::Backticks(1))
}

/// A single-asterisk token (an italic delimiter).
fn is_asterisk_one(t: &Token) -> (r: bool)
    ensures
        r == (t@ == TokenView::Asterisk(1)),
{
    matches!(t, Token::Asterisk(1))
}

/// A double-asterisk token (a bold delimiter).
fn is_asterisk_two(t: &Token) -> (r: bool)
    ensures
        r == (t@ == TokenView::Asterisk(2)),
{
    matches!(t, Token::Asterisk(2))
}

/// A single-underscore token (an italic delimiter).
fn is_underscore_one(t: &Token) -> (r: bool)
    ensures
        r == (t@ == TokenView::Underscore(1)),
{
    matches!(t, Token::Underscore(1))
}

/// An exclamation-mark token (an image opener).
fn is_exclamation(t: &Token) -> (r: bool)
    ensures
        r == (t@ is ExclamationMark),
{
    matches!(t, Token::ExclamationMark)
}

/// An opening-bracket token.
fn is_opening_bracket(t: &Token) -> (r: bool)
    ensures
        r == (t@ is OpeningBracket),
{
    matches!(t, Token::OpeningBracket)
}

/// A closing-bracket token.
fn is_closing_bracket(t: &Token) -> (r: bool)
    ensures
        r == (t@ is ClosingBracket),
{
    matches!(t, Token::ClosingBracket)
}

/// An opening-parenthesis token.
fn is_opening_paren(t: &Token) -> (r: bool)
    ensures
        r == (t@ is OpeningParenthesis),
{
    matches!(t, Token::OpeningParenthesis)
}

/// A closing-parenthesis token.
fn is_closing_paren(t: &Token) -> (r: bool)
    ensures
        r == (t@ is ClosingParenthesis),
{
    matches!(t, Token::ClosingParenthesis)
}

// ---------------------------------------------------------------------
// The parser
// ---------------------------------------------------------------------

/// The parser: the lexer it pulls from and the one buffered lookahead
/// token that every parsing decision inspects.
pub struct Parser {
    pub tokenizer: Tokenizer,
    pub lookahead: Option<Token>,
}

impl Parser {
    /// The lookahead is filled, and it is `EOF` only with the lexer at
    /// the end of its input.
    pub open spec fn wf(&self) -> bool {
        &&& self.tokenizer.wf()
        &&& match self.lookahead {
            Some(t) => t@ is EOF ==> self.tokenizer.position() == self.tokenizer.text().len(),
            None => false,
        }
    }

    /// The input text being parsed.
    pub open spec fn text(&self) -> Seq<char> {
        self.tokenizer.text()
    }

    /// The remaining token stream: the lookahead, then everything the
    /// lexer has not yet scanned. At end of input it is empty.
    pub open spec fn rest(&self) -> Seq<TokenView> {
        match self.lookahead {
            Some(t) => if t@ is EOF {
                Seq::empty()
            } else {
                seq![t@] + spec_tokens(self.tokenizer.text(), self.tokenizer.position())
            },
            None => Seq::empty(),
        }
    }

    /// A parser over the given lexer. The lookahead is empty until
    /// [`Parser::parse`] fills it.
    pub fn new(tokenizer: Tokenizer) -> (r: Self)
        ensures
            r.tokenizer == tokenizer,
            r.lookahead is None,
    {
        Parser { tokenizer, lookahead: None }
    }

    /// The buffered lookahead token: the head of the remaining stream,
    /// or `EOF` when nothing remains.
    pub fn peek(&self) -> (t: &Token)
        requires
            self.wf(),
        ensures
            self.rest().len() > 0 ==> t@ == self.rest()[0],
            self.rest().len() == 0 ==> t@ is EOF,
    {
        self.lookahead.as_ref().unwrap()
    }

    /// Returns the buffered lookahead token and refills the buffer with
    /// the next token from the lexer: consumes exactly the head of the
    /// remaining stream, or keeps returning `EOF` at end of input.
    pub fn eat(&mut self) -> (t: Token)
        requires
            old(self).wf(),
        ensures
            final(self).wf(),
            final(self).text() == old(self).text(),
            old(self).rest().len() > 0 ==> {
                &&& t@ == old(self).rest()[0]
                &&& final(self).rest() == old(self).rest().drop_first()
            },
            old(self).rest().len() == 0 ==> t@ is EOF && final(self).rest() == old(self).rest(),
    {
        let ghost s = self.text();
        let ghost pos = self.tokenizer.position();
        let next = self.tokenizer.consume();
        proof {
            lemma_next_token(s, pos);
            if pos < s.len() {
                lemma_tokens_unfold(s, pos);
            }
        }
        let mut slot: Option<Token> = Some(next);
        core::mem::swap(&mut self.lookahead, &mut slot);
        proof {
            if old(self).rest().len() > 0 {
                assert(final(self).rest() =~= old(self).rest().drop_first());
            }
        }
        match slot {
            Some(tok) => tok,
            None => Token::EOF,
        }
    }

    /// Consumes the lookahead if it is a whitespace token; otherwise
    /// leaves the stream as it is.
    pub fn consume_whitespace(&mut self)
        requires
            old(self).wf(),
        ensures
            final(self).wf(),
            final(self).text() == old(self).text(),
            old(self).rest().len() > 0 && old(self).rest()[0] is Whitespace ==> final(self).rest()
                == old(self).rest().drop_first(),
            !(old(self).rest().len() > 0 && old(self).rest()[0] is Whitespace) ==> final(self).rest() == old(self).rest(),
    {
        let is_ws = self.peek().is_whitespace();
        if is_ws {
            let _ = self.eat();
        }
    }

    /// Text accumulation: merges consecutive `Text` and `Whitespace`
    /// tokens into one string, concatenating their literal contents in
    /// order, and stops (without consuming) at the first token that is
    /// neither — or, at block level, at an ordered-list marker.
    pub fn parse_text(&mut self, ctx: InlineCtx) -> (s: String)
        requires
            old(self).wf(),
        ensures
            final(self).wf(),
            final(self).text() == old(self).text(),
            s@ == spec_parse_text(old(self).rest(), ctx).0,
            final(self).rest() == spec_parse_text(old(self).rest(), ctx).1,
            final(self).rest().len() <= old(self).rest().len(),
            old(self).rest().len() > 0 && text_continues(ctx, old(self).rest()[0]) ==> final(self).rest().len() < old(self).rest().len(),
    {
        let ghost orig = self.rest();
        let ghost text0 = self.text();
        let mut text = String::new();
        let mut more = !self.peek().is_eof() && token_continues_text(ctx, self.peek());
        while more
            invariant
                orig == old(self).rest(),
                text0 == old(self).text(),
                self.wf(),
                self.text() == text0,
                self.rest().len() <= orig.len(),
                more == (self.rest().len() > 0 && text_continues(ctx, self.rest()[0])),
                spec_parse_text(orig, ctx).0 == text@ + spec_parse_text(self.rest(), ctx).0,
                spec_parse_text(orig, ctx).1 == spec_parse_text(self.rest(), ctx).1,
                (text@.len() == 0 && self.rest() == orig) || self.rest().len() < orig.len(),
            decreases self.rest().len(),
        {
            let ghost cur = self.rest();
            let tok = self.eat();
            let ts = tok.to_string();
            text.append(ts.as_str());
            proof {
                assert(cur.drop_first() =~= self.rest());
                assert(spec_parse_text(cur, ctx).0 == spec_token_text(tok@) + spec_parse_text(
                    self.rest(),
                    ctx,
                ).0);
                assert(ts@.len() > 0 ==> text@.len() > 0);
            }
            more = !self.peek().is_eof() && token_continues_text(ctx, self.peek());
        }
        proof {
            assert(spec_parse_text(self.rest(), ctx).0 =~= Seq::<char>::empty());
            assert(spec_parse_text(orig, ctx).0 =~= text@);
        }
        text
    }

    /// A code span: a single backtick, merged text, a single backtick; an
    /// unterminated error if the input ends before the closing backtick.
    fn parse_code(&mut self) -> (r: Result<InlineToken, ParseError>)
        requires
            old(self).wf(),
            old(self).rest().len() > 0,
        ensures
            final(self).wf(),
            final(self).text() == old(self).text(),
            (match r {
                Ok(t) => spec_parse_code(old(self).rest()) == Ok::<
                    (InlineTokenView, Seq<TokenView>),
                    ParseErrorView,
                >((t@, final(self).rest())) && final(self).rest().len() < old(self).rest().len(),
                Err(e) => spec_parse_code(old(self).rest()) == Err::<
                    (InlineTokenView, Seq<TokenView>),
                    ParseErrorView,
                >(e@),
            }),
    {
        let _opener = self.eat();
        let txt = self.parse_text(InlineCtx::Link);
        let at_end = self.peek().is_eof();
        if at_end {
            return Err(ParseError::Unterminated { construct: Construct::Code });
        }
        if is_backticks_one(self.peek()) {
            let _closer = self.eat();
            Ok(InlineToken::Code(txt))
        } else {
            let t = self.eat();
            Err(ParseError::UnexpectedToken { token: t, construct: Construct::Code })
        }
    }

    /// An italic span: a single asterisk or underscore opens it, inline
    /// content follows, either single-character delimiter closes it.
    fn parse_italic(&mut self) -> (r: Result<InlineToken, ParseError>)
        requires
            old(self).wf(),
            old(self).rest().len() > 0,
        ensures
            final(self).wf(),
            final(self).text() == old(self).text(),
            (match r {
                Ok(t) => spec_parse_italic(old(self).rest()) == Ok::<
                    (InlineTokenView, Seq<TokenView>),
                    ParseErrorView,
                >((t@, final(self).rest())) && final(self).rest().len() < old(self).rest().len(),
                Err(e) => spec_parse_italic(old(self).rest()) == Err::<
                    (InlineTokenView, Seq<TokenView>),
                    ParseErrorView,
                >(e@),
            }),
        decreases old(self).rest().len(), 2int,
    {
        let _opener = self.eat();
        let tokens = match self.parse_inline_tokens(InlineCtx::Italic) {
            Ok(v) => v,
            Err(e) => {
                return Err(e);
            },
        };
        let at_end = self.peek().is_eof();
        if at_end {
            return Err(ParseError::Unterminated { construct: Construct::Italic });
        }
        if is_asterisk_one(self.peek()) || is_underscore_one(self.peek()) {
            let _closer = self.eat();
            Ok(InlineToken::Italic(tokens))
        } else {
            let t = self.eat();
            Err(ParseError::UnexpectedToken { token: t, construct: Construct::Italic })
        }
    }

    /// A bold span: a double asterisk opens it, inline content follows, a
    /// double asterisk closes it.
    fn parse_bold(&mut self) -> (r: Result<InlineToken, ParseError>)
        requires
            old(self).wf(),
            old(self).rest().len() > 0,
        ensures
            final(self).wf(),
            final(self).text() == old(self).text(),
            (match r {
                Ok(t) => spec_parse_bold(old(self).rest()) == Ok::<
                    (InlineTokenView, Seq<TokenView>),
                    ParseErrorView,
                >((t@, final(self).rest())) && final(self).rest().len() < old(self).rest().len(),
                Err(e) => spec_parse_bold(old(self).rest()) == Err::<
                    (InlineTokenView, Seq<TokenView>),
                    ParseErrorView,
                >(e@),
            }),
        decreases old(self).rest().len(), 2int,
    {
        let _opener = self.eat();
        let tokens = match self.parse_inline_tokens(InlineCtx::Bold) {
            Ok(v) => v,
            Err(e) => {
                return Err(e);
            },
        };
        let at_end = self.peek().is_eof();
        if at_end {
            return Err(ParseError::Unterminated { construct: Construct::Bold });
        }
        if is_asterisk_two(self.peek()) {
            let _closer = self.eat();
            Ok(InlineToken::Bold(tokens))
        } else {
            let t = self.eat();
            Err(ParseError::UnexpectedToken { token: t, construct: Construct::Bold })
        }
    }

    /// An image: an exclamation mark, bracketed alternative text, then
    /// the source text in parentheses.
    fn parse_image(&mut self) -> (r: Result<InlineToken, ParseError>)
        requires
            old(self).wf(),
            old(self).rest().len() > 0,
        ensures
            final(self).wf(),
            final(self).text() == old(self).text(),
            (match r {
                Ok(t) => spec_parse_image(old(self).rest()) == Ok::<
                    (InlineTokenView, Seq<TokenView>),
                    ParseErrorView,
                >((t@, final(self).rest())) && final(self).rest().len() < old(self).rest().len(),
                Err(e) => spec_parse_image(old(self).rest()) == Err::<
                    (InlineTokenView, Seq<TokenView>),
                    ParseErrorView,
                >(e@),
            }),
    {
        let _excl = self.eat();
        let at_end0 = self.peek().is_eof();
        if at_end0 {
            return Err(ParseError::Unterminated { construct: Construct::Image });
        }
        if !is_opening_bracket(self.peek()) {
            let t = self.eat();
            return Err(ParseError::UnexpectedToken { token: t, construct: Construct::Image });
        }
        let _ob = self.eat();
        let alt = self.parse_text(InlineCtx::Link);
        let at_end1 = self.peek().is_eof();
        if at_end1 {
            return Err(ParseError::Unterminated { construct: Construct::Image });
        }
        if !is_closing_bracket(self.peek()) {
            let t = self.eat();
            return Err(ParseError::UnexpectedToken { token: t, construct: Construct::Image });
        }
        let _cb = self.eat();
        let at_end2 = self.peek().is_eof();
        if at_end2 {
            return Err(ParseError::Unterminated { construct: Construct::Image });
        }
        if !is_opening_paren(self.peek()) {
            let t = self.eat();
            return Err(ParseError::UnexpectedToken { token: t, construct: Construct::Image });
        }
        let _op = self.eat();
        let src = self.parse_text(InlineCtx::Link);
        let at_end3 = self.peek().is_eof();
        if at_end3 {
            return Err(ParseError::Unterminated { construct: Construct::Image });
        }
        if !is_closing_paren(self.peek()) {
            let t = self.eat();
            return Err(ParseError::UnexpectedToken { token: t, construct: Construct::Image });
        }
        let _cp = self.eat();
        Ok(InlineToken::Image(Image { src, alt }))
    }

    /// A link: bracketed inline content, then the target text in
    /// parentheses. A link that reaches end of input before a closing
    /// delimiter is an unterminated-construct error, distinct from an
    /// unexpected token.
    pub fn parse_link(&mut self) -> (r: Result<Link, ParseError>)
        requires
            old(self).wf(),
            old(self).rest().len() > 0,
        ensures
            final(self).wf(),
            final(self).text() == old(self).text(),
            (match r {
                Ok(l) => spec_parse_link(old(self).rest()) == Ok::<
                    (InlineTokenView, Seq<TokenView>),
                    ParseErrorView,
                >(
                    (
                        (InlineTokenView::Link { tokens: inlines_view(l.tokens@), href: l.href@ }),
                        final(self).rest(),
                    ),
                ) && final(self).rest().len() < old(self).rest().len(),
                Err(e) => spec_parse_link(old(self).rest()) == Err::<
                    (InlineTokenView, Seq<TokenView>),
                    ParseErrorView,
                >(e@),
            }),
        decreases old(self).rest().len(), 2int,
    {
        let _ob = self.eat();
        let tokens = match self.parse_inline_tokens(InlineCtx::Link) {
            Ok(v) => v,
            Err(e) => {
                return Err(e);
            },
        };
        let at_end0 = self.peek().is_eof();
        if at_end0 {
            return Err(ParseError::Unterminated { construct: Construct::Link });
        }
        if !is_closing_bracket(self.peek()) {
            let t = self.eat();
            return Err(ParseError::UnexpectedToken { token: t, construct: Construct::Link });
        }
        let _cb = self.eat();
        let at_end1 = self.peek().is_eof();
        if at_end1 {
            return Err(ParseError::Unterminated { construct: Construct::Link });
        }
        if !is_opening_paren(self.peek()) {
            let t = self.eat();
            return Err(ParseError::UnexpectedToken { token: t, construct: Construct::Link });
        }
        let _op = self.eat();
        let href = self.parse_text(InlineCtx::Link);
        let at_end2 = self.peek().is_eof();
        if at_end2 {
            return Err(ParseError::Unterminated { construct: Construct::Link });
        }
        if !is_closing_paren(self.peek()) {
            let t = self.eat();
            return Err(ParseError::UnexpectedToken { token: t, construct: Construct::Link });
        }
        let _cp = self.eat();
        Ok(Link { tokens, href })
    }

    /// One inline token, dispatched on the lookahead, in this priority
    /// order: image, code span, italic, bold, link, merged text. Any
    /// other lookahead is a syntax error, not a silent skip.
    pub fn parse_inline_token(&mut self, ctx: InlineCtx) -> (r: Result<InlineToken, ParseError>)
        requires
            old(self).wf(),
        ensures
            final(self).wf(),
            final(self).text() == old(self).text(),
            (match r {
                Ok(t) => spec_parse_inline_token(old(self).rest(), ctx) == Ok::<
                    (InlineTokenView, Seq<TokenView>),
                    ParseErrorView,
                >((t@, final(self).rest())) && final(self).rest().len() <= old(self).rest().len()
                    && (old(self).rest().len() > 0 && inline_continues(ctx, old(self).rest()[0])
                    ==> final(self).rest().len() < old(self).rest().len()),
                Err(e) => spec_parse_inline_token(old(self).rest(), ctx) == Err::<
                    (InlineTokenView, Seq<TokenView>),
                    ParseErrorView,
                >(e@),
            }),
        decreases old(self).rest().len(), 3int,
    {
        let at_end = self.peek().is_eof();
        if at_end {
            return Err(
                ParseError::UnexpectedToken { token: Token::EOF, construct: construct_of_ctx(ctx) },
            );
        }
        if is_exclamation(self.peek()) {
            self.parse_image()
        } else if self.peek().is_backticks() {
            if is_backticks_one(self.peek()) {
                self.parse_code()
            } else {
                let t = self.eat();
                Err(ParseError::UnexpectedToken { token: t, construct: construct_of_ctx(ctx) })
            }
        } else if self.peek().is_asterisk() {
            if is_asterisk_one(self.peek()) {
                self.parse_italic()
            } else if is_asterisk_two(self.peek()) {
                self.parse_bold()
            } else {
                let t = self.eat();
                Err(ParseError::UnexpectedToken { token: t, construct: construct_of_ctx(ctx) })
            }
        } else if self.peek().is_underscore() {
            if is_underscore_one(self.peek()) {
                self.parse_italic()
            } else {
                let t = self.eat();
                Err(ParseError::UnexpectedToken { token: t, construct: construct_of_ctx(ctx) })
            }
        } else if is_opening_bracket(self.peek()) {
            match self.parse_link() {
                Ok(l) => Ok(InlineToken::Link(l)),
                Err(e) => Err(e),
            }
        } else if self.peek().is_string() || self.peek().is_whitespace() {
            let s = self.parse_text(ctx);
            Ok(InlineToken::Text(s))
        } else {
            let t = self.eat();
            Err(ParseError::UnexpectedToken { token: t, construct: construct_of_ctx(ctx) })
        }
    }

    /// An inline run: inline tokens while the lookahead starts one and
    /// does not close the enclosing construct; stops without consuming
    /// the terminating token.
    pub fn parse_inline_tokens(&mut self, ctx: InlineCtx) -> (r: Result<
        Vec<InlineToken>,
        ParseError,
    >)
        requires
            old(self).wf(),
        ensures
            final(self).wf(),
            final(self).text() == old(self).text(),
            (match r {
                Ok(v) => spec_parse_inline_tokens(old(self).rest(), ctx) == Ok::<
                    (Seq<InlineTokenView>, Seq<TokenView>),
                    ParseErrorView,
                >((inlines_view(v@), final(self).rest())) && final(self).rest().len() <= old(
                    self,
                ).rest().len() && (old(self).rest().len() > 0 && inline_continues(
                    ctx,
                    old(self).rest()[0],
                ) ==> final(self).rest().len() < old(self).rest().len()),
                Err(e) => spec_parse_inline_tokens(old(self).rest(), ctx) == Err::<
                    (Seq<InlineTokenView>, Seq<TokenView>),
                    ParseErrorView,
                >(e@),
            }),
        decreases old(self).rest().len(), 4int,
    {
        let ghost orig = self.rest();
        let ghost text0 = self.text();
        let mut tokens: Vec<InlineToken> = Vec::new();
        let mut more = !self.peek().is_eof() && token_starts_inline(self.peek())
            && !token_stops_ctx(ctx, self.peek());
        while more
            invariant
                orig == old(self).rest(),
                text0 == old(self).text(),
                self.wf(),
                self.text() == text0,
                more == (self.rest().len() > 0 && inline_continues(ctx, self.rest()[0])),
                self.rest().len() <= orig.len(),
                (tokens@.len() == 0 && self.rest() == orig) || self.rest().len() < orig.len(),
                (match spec_parse_inline_tokens(self.rest(), ctx) {
                    Ok(pr) => spec_parse_inline_tokens(orig, ctx) == Ok::<
                        (Seq<InlineTokenView>, Seq<TokenView>),
                        ParseErrorView,
                    >((inlines_view(tokens@) + pr.0, pr.1)),
                    Err(e) => spec_parse_inline_tokens(orig, ctx) == Err::<
                        (Seq<InlineTokenView>, Seq<TokenView>),
                        ParseErrorView,
                    >(e),
                }),
            decreases self.rest().len(),
        {
            let ghost cur = self.rest();
            match self.parse_inline_token(ctx) {
                Ok(t) => {
                    proof {
                        lemma_inlines_view_push(tokens@, t);
                        match spec_parse_inline_tokens(self.rest(), ctx) {
                            Ok(pr) => {
                                assert(inlines_view(tokens@.push(t)) + pr.0 =~= inlines_view(
                                    tokens@,
                                ) + (seq![t@] + pr.0));
                            },
                            Err(e) => {},
                        }
                    }
                    tokens.push(t);
                },
                Err(e) => {
                    return Err(e);
                },
            }
            more = !self.peek().is_eof() && token_starts_inline(self.peek())
                && !token_stops_ctx(ctx, self.peek());
        }
        proof {
            assert(inlines_view(tokens@) + Seq::<InlineTokenView>::empty() =~= inlines_view(
                tokens@,
            ));
        }
        Ok(tokens)
    }

    /// A heading: the hash run gives the level (exactly the run length,
    /// unbounded), and the inline content follows, up to end of input or
    /// the next block-start token.
    pub fn parse_heading(&mut self) -> (r: Result<Heading, ParseError>)
        requires
            old(self).wf(),
            old(self).rest().len() > 0,
            old(self).rest()[0] is Hash,
        ensures
            final(self).wf(),
            final(self).text() == old(self).text(),
            (match r {
                Ok(h) => spec_parse_heading(old(self).rest()) == Ok::<
                    (ElementView, Seq<TokenView>),
                    ParseErrorView,
                >(
                    (
                        (ElementView::Heading {
                            level: h.level as int,
                            tokens: inlines_view(h.tokens@),
                        }),
                        final(self).rest(),
                    ),
                ) && final(self).rest().len() < old(self).rest().len(),
                Err(e) => spec_parse_heading(old(self).rest()) == Err::<
                    (ElementView, Seq<TokenView>),
                    ParseErrorView,
                >(e@),
            }),
    {
        let opener = self.eat();
        let level = match opener {
            Token::Hash(n) => n,
            _ => 0,
        };
        match self.parse_inline_tokens(InlineCtx::Block) {
            Ok(tokens) => Ok(Heading { level, tokens }),
            Err(e) => Err(e),
        }
    }

    /// One list item: its marker, then block content up to the next
    /// marker of either kind or the end of input.
    pub fn parse_list_item(&mut self) -> (r: Result<ListItem, ParseError>)
        requires
            old(self).wf(),
        ensures
            final(self).wf(),
            final(self).text() == old(self).text(),
            (match r {
                Ok(item) => spec_parse_list_item(old(self).rest()) == Ok::<
                    (Seq<ElementView>, Seq<TokenView>),
                    ParseErrorView,
                >((elements_view(item@), final(self).rest())) && final(self).rest().len() < old(
                    self,
                ).rest().len(),
                Err(e) => spec_parse_list_item(old(self).rest()) == Err::<
                    (Seq<ElementView>, Seq<TokenView>),
                    ParseErrorView,
                >(e@),
            }),
        decreases old(self).rest().len(), 1int,
    {
        let at_end = self.peek().is_eof();
        if at_end {
            return Err(
                ParseError::UnexpectedToken { token: Token::EOF, construct: Construct::ListItem },
            );
        }
        let _marker = self.eat();
        self.parse_item_elements()
    }

    /// The block content of one list item: elements until the lookahead
    /// is a marker of either kind or the input ends.
    fn parse_item_elements(&mut self) -> (r: Result<Vec<Element>, ParseError>)
        requires
            old(self).wf(),
        ensures
            final(self).wf(),
            final(self).text() == old(self).text(),
            (match r {
                Ok(v) => spec_parse_item_elements(old(self).rest()) == Ok::<
                    (Seq<ElementView>, Seq<TokenView>),
                    ParseErrorView,
                >((elements_view(v@), final(self).rest())) && final(self).rest().len() <= old(
                    self,
                ).rest().len(),
                Err(e) => spec_parse_item_elements(old(self).rest()) == Err::<
                    (Seq<ElementView>, Seq<TokenView>),
                    ParseErrorView,
                >(e@),
            }),
        decreases old(self).rest().len(), 8int,
    {
        let ghost orig = self.rest();
        let ghost text0 = self.text();
        let mut elements: Vec<Element> = Vec::new();
        let mut more = !self.peek().is_eof() && !self.peek().is_dash() && !token_is_marker(
            self.peek(),
        );
        while more
            invariant
                orig == old(self).rest(),
                text0 == old(self).text(),
                self.wf(),
                self.text() == text0,
                more == (self.rest().len() > 0 && !(self.rest()[0] is Dash) && !is_marker_token(
                    self.rest()[0],
                )),
                self.rest().len() <= orig.len(),
                (match spec_parse_item_elements(self.rest()) {
                    Ok(pr) => spec_parse_item_elements(orig) == Ok::<
                        (Seq<ElementView>, Seq<TokenView>),
                        ParseErrorView,
                    >((elements_view(elements@) + pr.0, pr.1)),
                    Err(e) => spec_parse_item_elements(orig) == Err::<
                        (Seq<ElementView>, Seq<TokenView>),
                        ParseErrorView,
                    >(e),
                }),
            decreases self.rest().len(),
        {
            match self.parse_element() {
                Ok(el) => {
                    proof {
                        lemma_elements_view_push(elements@, el);
                        match spec_parse_item_elements(self.rest()) {
                            Ok(pr) => {
                                assert(elements_view(elements@.push(el)) + pr.0 =~= elements_view(
                                    elements@,
                                ) + (seq![el@] + pr.0));
                            },
                            Err(e) => {},
                        }
                    }
                    elements.push(el);
                },
                Err(e) => {
                    return Err(e);
                },
            }
            more = !self.peek().is_eof() && !self.peek().is_dash() && !token_is_marker(
                self.peek(),
            );
        }
        proof {
            assert(elements_view(elements@) + Seq::<ElementView>::empty() =~= elements_view(
                elements@,
            ));
        }
        Ok(elements)
    }

    /// A list: the kind of its first marker holds for all its items; the
    /// run of items ends at the end of input, or at a marker of the other
    /// kind, which will open a second, adjacent list. A parsed list never
    /// has zero items.
    pub fn parse_list(&mut self) -> (r: Result<List, ParseError>)
        requires
            old(self).wf(),
        ensures
            final(self).wf(),
            final(self).text() == old(self).text(),
            (match r {
                Ok(l) => spec_parse_list(old(self).rest()) == Ok::<
                    (ElementView, Seq<TokenView>),
                    ParseErrorView,
                >(
                    (
                        (ElementView::List { kind: l.kind, items: items_view(l.items@) }),
                        final(self).rest(),
                    ),
                ) && final(self).rest().len() < old(self).rest().len() && l.items@.len() > 0,
                Err(e) => spec_parse_list(old(self).rest()) == Err::<
                    (ElementView, Seq<TokenView>),
                    ParseErrorView,
                >(e@),
            }),
        decreases old(self).rest().len(), 6int,
    {
        let at_end = self.peek().is_eof();
        if at_end {
            return Err(ParseError::UnexpectedToken { token: Token::EOF, construct: Construct::List });
        }
        let first_dash = self.peek().is_dash();
        let first_marker = token_is_marker(self.peek());
        if !(first_dash || first_marker) {
            let t = self.eat();
            return Err(ParseError::UnexpectedToken { token: t, construct: Construct::List });
        }
        let kind = if first_dash {
            ListKind::Unordered
        } else {
            ListKind::Ordered
        };
        let ghost orig = self.rest();
        let ghost text0 = self.text();
        let mut items: Vec<ListItem> = Vec::new();
        let mut more = token_marker_of_kind(self.peek(), kind);
        while more
            invariant
                orig == old(self).rest(),
                text0 == old(self).text(),
                self.wf(),
                self.text() == text0,
                more == (self.rest().len() > 0 && marker_of_kind(self.rest()[0], kind)),
                self.rest().len() <= orig.len(),
                (items@.len() == 0 && self.rest() == orig) || self.rest().len() < orig.len(),
                (match spec_parse_list_items(self.rest(), kind) {
                    Ok(pr) => spec_parse_list_items(orig, kind) == Ok::<
                        (Seq<Seq<ElementView>>, Seq<TokenView>),
                        ParseErrorView,
                    >((items_view(items@) + pr.0, pr.1)),
                    Err(e) => spec_parse_list_items(orig, kind) == Err::<
                        (Seq<Seq<ElementView>>, Seq<TokenView>),
                        ParseErrorView,
                    >(e),
                }),
            decreases self.rest().len(),
        {
            match self.parse_list_item() {
                Ok(item) => {
                    proof {
                        lemma_items_view_push(items@, item);
                        match spec_parse_list_items(self.rest(), kind) {
                            Ok(pr) => {
                                assert(items_view(items@.push(item)) + pr.0 =~= items_view(items@)
                                    + (seq![elements_view(item@)] + pr.0));
                            },
                            Err(e) => {},
                        }
                    }
                    items.push(item);
                },
                Err(e) => {
                    return Err(e);
                },
            }
            more = token_marker_of_kind(self.peek(), kind);
        }
        proof {
            assert(items_view(items@) + Seq::<Seq<ElementView>>::empty() =~= items_view(items@));
        }
        Ok(List { kind, items })
    }

    /// List parsing dispatches on the first marker inside `parse_list`,
    /// which handles both kinds; an ordered run begins at a numeric
    /// marker. This entry point leaves the stream untouched.
    pub fn parse_ordered_list(&mut self)
        requires
            old(self).wf(),
        ensures
            *final(self) == *old(self),
    {
    }

    /// The unordered counterpart of [`Parser::parse_ordered_list`]; list
    /// parsing itself lives in `parse_list`. Leaves the stream untouched.
    pub fn parse_unordered_list(&mut self)
        requires
            old(self).wf(),
        ensures
            *final(self) == *old(self),
    {
    }

    /// One block element, dispatched on the lookahead: a hash run opens a
    /// heading, a dash run or a numeric marker opens a list, an inline
    /// starter opens a paragraph, and anything else is a syntax error.
    pub fn parse_element(&mut self) -> (r: Result<Element, ParseError>)
        requires
            old(self).wf(),
        ensures
            final(self).wf(),
            final(self).text() == old(self).text(),
            (match r {
                Ok(el) => spec_parse_element(old(self).rest()) == Ok::<
                    (ElementView, Seq<TokenView>),
                    ParseErrorView,
                >((el@, final(self).rest())) && final(self).rest().len() < old(self).rest().len(),
                Err(e) => spec_parse_element(old(self).rest()) == Err::<
                    (ElementView, Seq<TokenView>),
                    ParseErrorView,
                >(e@),
            }),
        decreases old(self).rest().len(), 7int,
    {
        let at_end = self.peek().is_eof();
        if at_end {
            return Err(
                ParseError::UnexpectedToken { token: Token::EOF, construct: Construct::Element },
            );
        }
        if self.peek().is_hash() {
            match self.parse_heading() {
                Ok(h) => Ok(Element::Heading(h)),
                Err(e) => Err(e),
            }
        } else if self.peek().is_dash() || token_is_marker(self.peek()) {
            match self.parse_list() {
                Ok(l) => Ok(Element::List(l)),
                Err(e) => Err(e),
            }
        } else if token_starts_inline(self.peek()) {
            match self.parse_inline_tokens(InlineCtx::Block) {
                Ok(tokens) => Ok(Element::Paragraph(Paragraph(tokens))),
                Err(e) => Err(e),
            }
        } else {
            let t = self.eat();
            Err(ParseError::UnexpectedToken { token: t, construct: Construct::Element })
        }
    }

    /// All elements of the document: elements until the end of input;
    /// the first syntax error aborts the whole parse.
    pub fn parse_elements(&mut self) -> (r: Result<Vec<Element>, ParseError>)
        requires
            old(self).wf(),
        ensures
            final(self).wf(),
            final(self).text() == old(self).text(),
            (match r {
                Ok(v) => spec_parse_elements(old(self).rest()) == Ok::<
                    (Seq<ElementView>, Seq<TokenView>),
                    ParseErrorView,
                >((elements_view(v@), final(self).rest())),
                Err(e) => spec_parse_elements(old(self).rest()) == Err::<
                    (Seq<ElementView>, Seq<TokenView>),
                    ParseErrorView,
                >(e@),
            }),
    {
        let ghost orig = self.rest();
        let ghost text0 = self.text();
        let mut elements: Vec<Element> = Vec::new();
        let mut more = !self.peek().is_eof();
        while more
            invariant
                orig == old(self).rest(),
                text0 == old(self).text(),
                self.wf(),
                self.text() == text0,
                more == (self.rest().len() > 0),
                self.rest().len() <= orig.len(),
                (match spec_parse_elements(self.rest()) {
                    Ok(pr) => spec_parse_elements(orig) == Ok::<
                        (Seq<ElementView>, Seq<TokenView>),
                        ParseErrorView,
                    >((elements_view(elements@) + pr.0, pr.1)),
                    Err(e) => spec_parse_elements(orig) == Err::<
                        (Seq<ElementView>, Seq<TokenView>),
                        ParseErrorView,
                    >(e),
                }),
            decreases self.rest().len(),
        {
            match self.parse_element() {
                Ok(el) => {
                    proof {
                        lemma_elements_view_push(elements@, el);
                        match spec_parse_elements(self.rest()) {
                            Ok(pr) => {
                                assert(elements_view(elements@.push(el)) + pr.0 =~= elements_view(
                                    elements@,
                                ) + (seq![el@] + pr.0));
                            },
                            Err(e) => {},
                        }
                    }
                    elements.push(el);
                },
                Err(e) => {
                    return Err(e);
                },
            }
            more = !self.peek().is_eof();
        }
        proof {
            assert(elements_view(elements@) + Seq::<ElementView>::empty() =~= elements_view(
                elements@,
            ));
        }
        Ok(elements)
    }

    /// Parses one whole document from the lexer's current position:
    /// fills the lookahead, then builds every element. Returns the first
    /// syntax error instead of a partial tree.
    pub fn parse(&mut self) -> (r: Result<Document, ParseError>)
        requires
            old(self).tokenizer.wf(),
        ensures
            final(self).wf(),
            (match r {
                Ok(d) => spec_parse_document(
                    spec_tokens(old(self).tokenizer.text(), old(self).tokenizer.position()),
                ) == Ok::<Seq<ElementView>, ParseErrorView>(d@),
                Err(e) => spec_parse_document(
                    spec_tokens(old(self).tokenizer.text(), old(self).tokenizer.position()),
                ) == Err::<Seq<ElementView>, ParseErrorView>(e@),
            }),
    {
        let ghost s = self.tokenizer.text();
        let ghost pos = self.tokenizer.position();
        let first = self.tokenizer.consume();
        self.lookahead = Some(first);
        proof {
            lemma_next_token(s, pos);
            if pos < s.len() {
                lemma_tokens_unfold(s, pos);
            }
            assert(self.rest() =~= spec_tokens(s, pos));
        }
        match self.parse_elements() {
            Ok(elements) => Ok(Document(elements)),
            Err(e) => Err(e),
        }
    }
}

} // verus!
