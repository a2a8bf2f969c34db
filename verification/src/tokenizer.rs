//! The lexer. It pulls characters from a [`CharIterator`] and groups them
//! into tokens: run-length delimiter tokens (`#`, `*`, `` ` ``, `-`, `_`),
//! single-character bracket and punctuation tokens, maximal whitespace runs
//! and maximal plain-text runs. The spec-level functions in this module
//! (`spec_next_token`, `spec_tokens`) define tokenization mathematically;
//! every executable method is proved to return exactly what they say.

use vstd::prelude::*;
use vstd::string::StrSliceExecFns;
use crate::cursor::CharIterator;

verus! {

/// A lexical token. Run-length variants carry the exact count of
/// consecutive identical delimiter characters; `Text` and `Whitespace`
/// carry the exact characters consumed.
#[derive(Debug, PartialEq, Eq, Clone)]
pub enum Token {
    Text(String),
    Hash(usize),
    Asterisk(usize),
    Backticks(usize),
    Dash(usize),
    Underscore(usize),
    Url(String),
    Whitespace(String),
    OpeningParenthesis,
    ClosingParenthesis,
    OpeningBracket,
    ClosingBracket,
    AngleBracket,
    ExclamationMark,
    EOF,
}

/// The mathematical model of a token: character sequences for text-like
/// tokens and unbounded integers for run lengths.
pub enum TokenView {
    Text(Seq<char>),
    Hash(int),
    Asterisk(int),
    Backticks(int),
    Dash(int),
    Underscore(int),
    Url(Seq<char>),
    Whitespace(Seq<char>),
    OpeningParenthesis,
    ClosingParenthesis,
    OpeningBracket,
    ClosingBracket,
    AngleBracket,
    ExclamationMark,
    EOF,
}

impl View for Token {
    type V = TokenView;

    open spec fn view(&self) -> TokenView {
        match self {
            Token::Text(s) => TokenView::Text(s@),
            Token::Hash(n) => TokenView::Hash(*n as int),
            Token::Asterisk(n) => TokenView::Asterisk(*n as int),
            Token::Backticks(n) => TokenView::Backticks(*n as int),
            Token::Dash(n) => TokenView::Dash(*n as int),
            Token::Underscore(n) => TokenView::Underscore(*n as int),
            Token::Url(s) => TokenView::Url(s@),
            Token::Whitespace(s) => TokenView::Whitespace(s@),
            Token::OpeningParenthesis => TokenView::OpeningParenthesis,
            Token::ClosingParenthesis => TokenView::ClosingParenthesis,
            Token::OpeningBracket => TokenView::OpeningBracket,
            Token::ClosingBracket => TokenView::ClosingBracket,
            Token::AngleBracket => TokenView::AngleBracket,
            Token::ExclamationMark => TokenView::ExclamationMark,
            Token::EOF => TokenView::EOF,
        }
    }
}

// ---------------------------------------------------------------------
// Character classes
// ---------------------------------------------------------------------

/// Whitespace as the lexer understands it: space, tab, newline, carriage
/// return (a whitespace run may mix them freely).
pub open spec fn is_whitespace_char(c: char) -> bool {
    c == ' ' || c == '\t' || c == '\n' || c == '\r'
}

/// The characters that open a run-length delimiter token.
pub open spec fn is_delim_char(c: char) -> bool {
    c == '#' || c == '*' || c == '`' || c == '-' || c == '_'
}

/// The characters that terminate a plain-text run. Backtick and dash are
/// deliberately absent: mid-run they stay part of the text.
pub open spec fn is_text_break_char(c: char) -> bool {
    c == '[' || c == ']' || c == '(' || c == ')' || c == '#' || c == '*' || c == '_' || c == '!'
}

/// A character that a plain-text run may contain.
pub open spec fn is_text_char(c: char) -> bool {
    !is_whitespace_char(c) && !is_text_break_char(c)
}

/// Executable whitespace test, equal to [`is_whitespace_char`].
pub fn whitespace_char(c: char) -> (r: bool)
    ensures
        r == is_whitespace_char(c),
{
    c == ' ' || c == '\t' || c == '\n' || c == '\r'
}

/// Executable plain-text test, equal to [`is_text_char`].
pub fn text_char(c: char) -> (r: bool)
    ensures
        r == is_text_char(c),
{
    !whitespace_char(c) && c != '[' && c != ']' && c != '(' && c != ')' && c != '#' && c != '*'
        && c != '_' && c != '!'
}

// ---------------------------------------------------------------------
// Maximal runs
// ---------------------------------------------------------------------

/// Length of the maximal run of copies of `d` starting at `i`.
pub open spec fn spec_delim_run(s: Seq<char>, i: int, d: char) -> int
    decreases s.len() - i when 0 <= i <= s.len()
{
    if i >= s.len() || s[i] != d {
        0
    } else {
        1 + spec_delim_run(s, i + 1, d)
    }
}

/// Length of the maximal whitespace run starting at `i`.
pub open spec fn spec_ws_run(s: Seq<char>, i: int) -> int
    decreases s.len() - i when 0 <= i <= s.len()
{
    if i >= s.len() || !is_whitespace_char(s[i]) {
        0
    } else {
        1 + spec_ws_run(s, i + 1)
    }
}

/// Length of the maximal plain-text run starting at `i`.
pub open spec fn spec_text_run(s: Seq<char>, i: int) -> int
    decreases s.len() - i when 0 <= i <= s.len()
{
    if i >= s.len() || !is_text_char(s[i]) {
        0
    } else {
        1 + spec_text_run(s, i + 1)
    }
}

/// A position `p` with the run's characters before it and a non-run
/// character (or the end) at it pins the delimiter run length down.
pub proof fn lemma_delim_run_exact(s: Seq<char>, i: int, d: char, p: int)
    requires
        0 <= i <= p <= s.len(),
        forall|j: int| i <= j < p ==> s[j] == d,
        p < s.len() ==> s[p] != d,
    ensures
        spec_delim_run(s, i, d) == p - i,
    decreases p - i,
{
    if i < p {
        lemma_delim_run_exact(s, i + 1, d, p);
    }
}

/// Same characterization for whitespace runs.
pub proof fn lemma_ws_run_exact(s: Seq<char>, i: int, p: int)
    requires
        0 <= i <= p <= s.len(),
        forall|j: int| i <= j < p ==> is_whitespace_char(s[j]),
        p < s.len() ==> !is_whitespace_char(s[p]),
    ensures
        spec_ws_run(s, i) == p - i,
    decreases p - i,
{
    if i < p {
        lemma_ws_run_exact(s, i + 1, p);
    }
}

/// Same characterization for plain-text runs.
pub proof fn lemma_text_run_exact(s: Seq<char>, i: int, p: int)
    requires
        0 <= i <= p <= s.len(),
        forall|j: int| i <= j < p ==> is_text_char(s[j]),
        p < s.len() ==> !is_text_char(s[p]),
    ensures
        spec_text_run(s, i) == p - i,
    decreases p - i,
{
    if i < p {
        lemma_text_run_exact(s, i + 1, p);
    }
}

/// Bounds and membership facts for the delimiter run.
pub proof fn lemma_delim_run(s: Seq<char>, i: int, d: char)
    requires
        0 <= i <= s.len(),
    ensures
        0 <= spec_delim_run(s, i, d),
        i + spec_delim_run(s, i, d) <= s.len(),
        forall|j: int| i <= j < i + spec_delim_run(s, i, d) ==> s[j] == d,
        i < s.len() && s[i] == d ==> spec_delim_run(s, i, d) >= 1,
    decreases s.len() - i,
{
    if i < s.len() && s[i] == d {
        lemma_delim_run(s, i + 1, d);
    }
}

/// Bounds and membership facts for the whitespace run.
pub proof fn lemma_ws_run(s: Seq<char>, i: int)
    requires
        0 <= i <= s.len(),
    ensures
        0 <= spec_ws_run(s, i),
        i + spec_ws_run(s, i) <= s.len(),
        forall|j: int| i <= j < i + spec_ws_run(s, i) ==> is_whitespace_char(s[j]),
        i < s.len() && is_whitespace_char(s[i]) ==> spec_ws_run(s, i) >= 1,
    decreases s.len() - i,
{
    if i < s.len() && is_whitespace_char(s[i]) {
        lemma_ws_run(s, i + 1);
    }
}

/// Bounds and membership facts for the plain-text run.
pub proof fn lemma_text_run(s: Seq<char>, i: int)
    requires
        0 <= i <= s.len(),
    ensures
        0 <= spec_text_run(s, i),
        i + spec_text_run(s, i) <= s.len(),
        forall|j: int| i <= j < i + spec_text_run(s, i) ==> is_text_char(s[j]),
        i < s.len() && is_text_char(s[i]) ==> spec_text_run(s, i) >= 1,
    decreases s.len() - i,
{
    if i < s.len() && is_text_char(s[i]) {
        lemma_text_run(s, i + 1);
    }
}

// ---------------------------------------------------------------------
// One token of lookahead, mathematically
// ---------------------------------------------------------------------

/// The run-length token that a run of `n` copies of delimiter `d` makes.
pub open spec fn spec_delim_token(d: char, n: int) -> TokenView {
    if d == '#' {
        TokenView::Hash(n)
    } else if d == '*' {
        TokenView::Asterisk(n)
    } else if d == '`' {
        TokenView::Backticks(n)
    } else if d == '-' {
        TokenView::Dash(n)
    } else {
        TokenView::Underscore(n)
    }
}

/// The token scanned at position `i` of `s`, together with the position
/// just past it. At or past the end of input this is `EOF` with the
/// position unchanged.
pub open spec fn spec_next_token(s: Seq<char>, i: int) -> (TokenView, int) {
    if i >= s.len() {
        (TokenView::EOF, i)
    } else {
        let c = s[i];
        if is_delim_char(c) {
            let n = spec_delim_run(s, i, c);
            (spec_delim_token(c, n), i + n)
        } else if c == '(' {
            (TokenView::OpeningParenthesis, i + 1)
        } else if c == ')' {
            (TokenView::ClosingParenthesis, i + 1)
        } else if c == '[' {
            (TokenView::OpeningBracket, i + 1)
        } else if c == ']' {
            (TokenView::ClosingBracket, i + 1)
        } else if c == '!' {
            (TokenView::ExclamationMark, i + 1)
        } else if is_whitespace_char(c) {
            let n = spec_ws_run(s, i);
            (TokenView::Whitespace(s.subrange(i, i + n)), i + n)
        } else {
            let n = spec_text_run(s, i);
            (TokenView::Text(s.subrange(i, i + n)), i + n)
        }
    }
}

/// The characters a repeated delimiter prints as: `n` copies of `c`.
pub open spec fn char_repeat(c: char, n: int) -> Seq<char> {
    Seq::new(if n >= 0 { n as nat } else { 0 }, |j: int| c)
}

/// The canonical textual form of a token: exactly the characters it was
/// scanned from.
pub open spec fn spec_token_text(t: TokenView) -> Seq<char> {
    match t {
        TokenView::Text(s) => s,
        TokenView::Hash(n) => char_repeat('#', n),
        TokenView::Asterisk(n) => char_repeat('*', n),
        TokenView::Backticks(n) => char_repeat('`', n),
        TokenView::Dash(n) => char_repeat('-', n),
        TokenView::Underscore(n) => char_repeat('_', n),
        TokenView::Url(s) => s,
        TokenView::Whitespace(s) => s,
        TokenView::OpeningParenthesis => seq!['('],
        TokenView::ClosingParenthesis => seq![')'],
        TokenView::OpeningBracket => seq!['['],
        TokenView::ClosingBracket => seq![']'],
        TokenView::AngleBracket => seq!['>'],
        TokenView::ExclamationMark => seq!['!'],
        TokenView::EOF => Seq::empty(),
    }
}

/// Scanning makes progress before the end of input, never runs past the
/// end, and the token's textual form is exactly the consumed slice.
pub proof fn lemma_next_token(s: Seq<char>, i: int)
    requires
        0 <= i <= s.len(),
    ensures
        i <= spec_next_token(s, i).1 <= s.len(),
        i < s.len() ==> spec_next_token(s, i).1 > i,
        i < s.len() ==> !(spec_next_token(s, i).0 is EOF),
        i >= s.len() ==> spec_next_token(s, i) == (TokenView::EOF, i),
        spec_token_text(spec_next_token(s, i).0) == s.subrange(i, spec_next_token(s, i).1),
    decreases s.len() - i,
{
    if i >= s.len() {
        assert(spec_token_text(TokenView::EOF) =~= s.subrange(i, i));
    } else {
        let c = s[i];
        if is_delim_char(c) {
            lemma_delim_run(s, i, c);
            let n = spec_delim_run(s, i, c);
            assert(spec_token_text(spec_delim_token(c, n)) =~= s.subrange(i, i + n));
        } else if c == '(' || c == ')' || c == '[' || c == ']' || c == '!' {
            assert(spec_token_text(spec_next_token(s, i).0) =~= s.subrange(i, i + 1));
        } else if is_whitespace_char(c) {
            lemma_ws_run(s, i);
        } else {
            lemma_text_run(s, i);
        }
    }
}

// ---------------------------------------------------------------------
// The whole token stream
// ---------------------------------------------------------------------

/// The stream of tokens from position `i` to the end of `s`. The end of
/// input produces no token here; the executable lexer reports it as an
/// `EOF` token instead, indefinitely.
pub open spec fn spec_tokens(s: Seq<char>, i: int) -> Seq<TokenView>
    decreases s.len() - i when 0 <= i <= s.len()
{
    if i >= s.len() {
        Seq::empty()
    } else {
        let t = spec_next_token(s, i).0;
        let j = spec_next_token(s, i).1;
        if i < j <= s.len() {
            seq![t] + spec_tokens(s, j)
        } else {
            seq![t]
        }
    }
}

/// The concatenation of the textual forms of a stream of tokens.
pub open spec fn spec_tokens_text(ts: Seq<TokenView>) -> Seq<char>
    decreases ts.len(),
{
    if ts.len() == 0 {
        Seq::empty()
    } else {
        spec_token_text(ts[0]) + spec_tokens_text(ts.drop_first())
    }
}

/// Before the end of input, the stream is the next token followed by the
/// stream after it.
pub proof fn lemma_tokens_unfold(s: Seq<char>, i: int)
    requires
        0 <= i < s.len(),
    ensures
        spec_tokens(s, i) == seq![spec_next_token(s, i).0] + spec_tokens(
            s,
            spec_next_token(s, i).1,
        ),
        spec_tokens(s, i).len() > 0,
        spec_tokens(s, i)[0] == spec_next_token(s, i).0,
{
    lemma_next_token(s, i);
}

/// Concatenating the textual forms of all tokens from `i` on
/// reconstructs the input from `i` on, exactly.
pub proof fn lemma_tokens_text_from(s: Seq<char>, i: int)
    requires
        0 <= i <= s.len(),
    ensures
        spec_tokens_text(spec_tokens(s, i)) == s.subrange(i, s.len() as int),
    decreases s.len() - i,
{
    if i >= s.len() {
        assert(spec_tokens_text(spec_tokens(s, i)) =~= s.subrange(i, i));
    } else {
        lemma_next_token(s, i);
        let t = spec_next_token(s, i).0;
        let j = spec_next_token(s, i).1;
        lemma_tokens_text_from(s, j);
        let ts = seq![t] + spec_tokens(s, j);
        assert(ts.drop_first() =~= spec_tokens(s, j));
        assert(spec_tokens_text(ts) =~= s.subrange(i, s.len() as int));
    }
}

/// Round-trip law: concatenating the literal text of every token in the
/// stream of an input reconstructs that input exactly.
pub proof fn lemma_lex_round_trip(s: Seq<char>)
    ensures
        spec_tokens_text(spec_tokens(s, 0)) == s,
{
    lemma_tokens_text_from(s, 0);
    assert(s.subrange(0, s.len() as int) =~= s);
}

/// End-of-input law: at or past the end, scanning returns `EOF` and does
/// not advance, so the lexer can be called again indefinitely.
pub proof fn lemma_eof_idempotent(s: Seq<char>, i: int)
    requires
        i >= s.len(),
    ensures
        spec_next_token(s, i) == (TokenView::EOF, i),
{
}

/// The lexer never emits an empty run: a `Text` or `Whitespace` token
/// always carries at least one character.
pub proof fn lemma_no_empty_runs(s: Seq<char>, i: int)
    requires
        0 <= i <= s.len(),
    ensures
        (match spec_next_token(s, i).0 {
            TokenView::Text(x) => x.len() > 0,
            TokenView::Whitespace(x) => x.len() > 0,
            _ => true,
        }),
{
    if i < s.len() {
        lemma_ws_run(s, i);
        lemma_text_run(s, i);
    }
}

// ---------------------------------------------------------------------
// Token methods
// ---------------------------------------------------------------------

/// The token, if any, that a single character maps to when read as a
/// stand-alone punctuation mark.
pub open spec fn spec_char_token(c: char) -> Option<TokenView> {
    if c == '(' {
        Some(TokenView::OpeningParenthesis)
    } else if c == ')' {
        Some(TokenView::ClosingParenthesis)
    } else if c == '[' {
        Some(TokenView::OpeningBracket)
    } else if c == ']' {
        Some(TokenView::ClosingBracket)
    } else if c == '>' {
        Some(TokenView::AngleBracket)
    } else if c == '!' {
        Some(TokenView::ExclamationMark)
    } else {
        None
    }
}

/// The error returned when a string does not begin with a recognized
/// single-character token.
#[derive(Debug, PartialEq, Eq)]
pub struct ParseTokenError;

/// Relies on String::push: appends exactly the one character to the end.
#[verifier::external_body]
fn push_char(s: &mut String, c: char)
    ensures
        final(s)@ == old(s)@ + seq![c],
{
    s.push(c);
}

/// A string of `n` copies of `c`.
fn repeat_char(c: char, n: usize) -> (r: String)
    ensures
        r@ == char_repeat(c, n as int),
{
    let mut s = String::new();
    let mut i: usize = 0;
    while i < n
        invariant
            i <= n,
            s@.len() == i,
            forall|j: int| 0 <= j < i ==> s@[j] == c,
        decreases n - i,
    {
        push_char(&mut s, c);
        i = i + 1;
    }
    proof {
        assert(s@ =~= char_repeat(c, n as int));
    }
    s
}

impl Token {
    /// True exactly of `Text` tokens (the lexer's plain string runs).
    pub fn is_string(&self) -> (r: bool)
        ensures
            r == (self@ is Text),
    {
        matches!(self, Token::Text(..))
    }

    /// True exactly of `Hash` tokens.
    pub fn is_hash(&self) -> (r: bool)
        ensures
            r == (self@ is Hash),
    {
        matches!(self, Token::Hash(..))
    }

    /// True exactly of `Asterisk` tokens.
    pub fn is_asterisk(&self) -> (r: bool)
        ensures
            r == (self@ is Asterisk),
    {
        matches!(self, Token::Asterisk(..))
    }

    /// True exactly of `Backticks` tokens.
    pub fn is_backticks(&self) -> (r: bool)
        ensures
            r == (self@ is Backticks),
    {
        matches!(self, Token::Backticks(..))
    }

    /// True exactly of `Dash` tokens.
    pub fn is_dash(&self) -> (r: bool)
        ensures
            r == (self@ is Dash),
    {
        matches!(self, Token::Dash(..))
    }

    /// True exactly of `Underscore` tokens.
    pub fn is_underscore(&self) -> (r: bool)
        ensures
            r == (self@ is Underscore),
    {
        matches!(self, Token::Underscore(..))
    }

    /// True exactly of `Url` tokens.
    pub fn is_url(&self) -> (r: bool)
        ensures
            r == (self@ is Url),
    {
        matches!(self, Token::Url(..))
    }

    /// True exactly of `Whitespace` tokens.
    pub fn is_whitespace(&self) -> (r: bool)
        ensures
            r == (self@ is Whitespace),
    {
        matches!(self, Token::Whitespace(..))
    }

    /// True exactly of the `EOF` token.
    pub fn is_eof(&self) -> (r: bool)
        ensures
            r == (self@ is EOF),
    {
        matches!(self, Token::EOF)
    }

    /// The canonical textual form of the token: exactly the characters it
    /// was scanned from ([`spec_token_text`]).
    pub fn to_string(&self) -> (r: String)
        ensures
            r@ == spec_token_text(self@),
    {
        match self {
            Token::Text(s) => s.clone(),
            Token::Hash(n) => repeat_char('#', *n),
            Token::Asterisk(n) => repeat_char('*', *n),
            Token::Backticks(n) => repeat_char('`', *n),
            Token::Dash(n) => repeat_char('-', *n),
            Token::Underscore(n) => repeat_char('_', *n),
            Token::Url(s) => s.clone(),
            Token::Whitespace(s) => s.clone(),
            Token::OpeningParenthesis => {
                proof {
                    reveal_strlit("(");
                    assert("("@ =~= seq!['(']);
                }
                "(".to_owned()
            },
            Token::ClosingParenthesis => {
                proof {
                    reveal_strlit(")");
                    assert(")"@ =~= seq![')']);
                }
                ")".to_owned()
            },
            Token::OpeningBracket => {
                proof {
                    reveal_strlit("[");
                    assert("["@ =~= seq!['[']);
                }
                "[".to_owned()
            },
            Token::ClosingBracket => {
                proof {
                    reveal_strlit("]");
                    assert("]"@ =~= seq![']']);
                }
                "]".to_owned()
            },
            Token::AngleBracket => {
                proof {
                    reveal_strlit(">");
                    assert(">"@ =~= seq!['>']);
                }
                ">".to_owned()
            },
            Token::ExclamationMark => {
                proof {
                    reveal_strlit("!");
                    assert("!"@ =~= seq!['!']);
                }
                "!".to_owned()
            },
            Token::EOF => String::new(),
        }
    }

    /// Reads a token from the first character of `s`: the empty string is
    /// end of input, a recognized punctuation character is its token, and
    /// anything else is rejected.
    pub fn from_str(s: &str) -> (r: Result<Token, ParseTokenError>)
        ensures
            s@.len() == 0 ==> r == Ok::<Token, ParseTokenError>(Token::EOF),
            s@.len() > 0 ==> (match spec_char_token(s@[0]) {
                Some(t) => r is Ok && r->Ok_0@ == t,
                None => r == Err::<Token, ParseTokenError>(ParseTokenError),
            }),
    {
        if s.unicode_len() == 0 {
            return Ok(Token::EOF);
        }
        let c = s.get_char(0);
        if c == '(' {
            Ok(Token::OpeningParenthesis)
        } else if c == ')' {
            Ok(Token::ClosingParenthesis)
        } else if c == '[' {
            Ok(Token::OpeningBracket)
        } else if c == ']' {
            Ok(Token::ClosingBracket)
        } else if c == '>' {
            Ok(Token::AngleBracket)
        } else if c == '!' {
            Ok(Token::ExclamationMark)
        } else {
            Err(ParseTokenError)
        }
    }
}

// ---------------------------------------------------------------------
// The executable lexer
// ---------------------------------------------------------------------

/// The lexer: owns the character cursor and scans one token per call.
pub struct Tokenizer {
    pub chars: CharIterator,
}

impl Tokenizer {
    /// The full character sequence being tokenized.
    pub open spec fn text(&self) -> Seq<char> {
        self.chars.text()
    }

    /// The current scan position.
    pub open spec fn position(&self) -> int {
        self.chars.position()
    }

    /// The scan position never runs past the end.
    pub open spec fn wf(&self) -> bool {
        self.chars.wf()
    }

    /// A lexer over the given cursor, scanning from its position.
    pub fn new(chars: CharIterator) -> (r: Self)
        ensures
            r.chars == chars,
    {
        Tokenizer { chars }
    }

    /// Scans the next token: exactly [`spec_next_token`] at the current
    /// position. At end of input it returns `EOF` without advancing, so
    /// calling it again, indefinitely, keeps returning `EOF`.
    pub fn consume(&mut self) -> (t: Token)
        requires
            old(self).wf(),
        ensures
            final(self).wf(),
            final(self).text() == old(self).text(),
            t@ == spec_next_token(old(self).text(), old(self).position()).0,
            final(self).position() == spec_next_token(old(self).text(), old(self).position()).1,
    {
        let cur = self.chars.current();
        match cur {
            None => Token::EOF,
            Some(c) => {
                if c == '#' || c == '*' || c == '`' || c == '_' || c == '-' {
                    self.consume_delim()
                } else if c == '(' {
                    let _ = self.chars.read();
                    Token::OpeningParenthesis
                } else if c == ')' {
                    let _ = self.chars.read();
                    Token::ClosingParenthesis
                } else if c == '[' {
                    let _ = self.chars.read();
                    Token::OpeningBracket
                } else if c == ']' {
                    let _ = self.chars.read();
                    Token::ClosingBracket
                } else if c == '!' {
                    let _ = self.chars.read();
                    Token::ExclamationMark
                } else if whitespace_char(c) {
                    self.consume_whitespace()
                } else {
                    self.consume_string()
                }
            },
        }
    }

    /// Scans a maximal whitespace run into one `Whitespace` token
    /// carrying the exact consumed text.
    pub fn consume_whitespace(&mut self) -> (t: Token)
        requires
            old(self).wf(),
            old(self).position() < old(self).text().len(),
            is_whitespace_char(old(self).text()[old(self).position()]),
        ensures
            final(self).wf(),
            final(self).text() == old(self).text(),
            t@ == spec_next_token(old(self).text(), old(self).position()).0,
            final(self).position() == spec_next_token(old(self).text(), old(self).position()).1,
    {
        let ghost s = self.text();
        let ghost start = self.position();
        let mut whitespace = String::new();
        let mut more = match self.chars.current() {
            Some(c) => whitespace_char(c),
            None => false,
        };
        while more
            invariant
                self.wf(),
                self.text() == s,
                0 <= start <= self.position() <= s.len(),
                whitespace@ == s.subrange(start, self.position()),
                forall|j: int| start <= j < self.position() ==> is_whitespace_char(s[j]),
                more == (self.position() < s.len() && is_whitespace_char(s[self.position()])),
            decreases s.len() - self.position(),
        {
            let c = self.chars.read().unwrap();
            push_char(&mut whitespace, c);
            proof {
                assert(whitespace@ =~= s.subrange(start, self.position()));
            }
            more = match self.chars.current() {
                Some(c2) => whitespace_char(c2),
                None => false,
            };
        }
        proof {
            lemma_ws_run_exact(s, start, self.position());
        }
        Token::Whitespace(whitespace)
    }

    /// Scans a maximal plain-text run into one `Text` token carrying the
    /// exact consumed text. Backtick and dash do not end a run; the
    /// bracket, parenthesis, hash, asterisk, underscore and exclamation
    /// characters and any whitespace do.
    pub fn consume_string(&mut self) -> (t: Token)
        requires
            old(self).wf(),
            old(self).position() < old(self).text().len(),
            is_text_char(old(self).text()[old(self).position()]),
            !is_delim_char(old(self).text()[old(self).position()]),
        ensures
            final(self).wf(),
            final(self).text() == old(self).text(),
            t@ == spec_next_token(old(self).text(), old(self).position()).0,
            final(self).position() == spec_next_token(old(self).text(), old(self).position()).1,
    {
        let ghost s = self.text();
        let ghost start = self.position();
        let mut string = String::new();
        let mut more = match self.chars.current() {
            Some(c) => text_char(c),
            None => false,
        };
        while more
            invariant
                self.wf(),
                self.text() == s,
                0 <= start <= self.position() <= s.len(),
                string@ == s.subrange(start, self.position()),
                forall|j: int| start <= j < self.position() ==> is_text_char(s[j]),
                more == (self.position() < s.len() && is_text_char(s[self.position()])),
            decreases s.len() - self.position(),
        {
            let c = self.chars.read().unwrap();
            push_char(&mut string, c);
            proof {
                assert(string@ =~= s.subrange(start, self.position()));
            }
            more = match self.chars.current() {
                Some(c2) => text_char(c2),
                None => false,
            };
        }
        proof {
            lemma_text_run_exact(s, start, self.position());
        }
        Token::Text(string)
    }

    /// Scans a maximal run of one delimiter character into its run-length
    /// token; the count is exactly the number of characters consumed.
    pub fn consume_delim(&mut self) -> (t: Token)
        requires
            old(self).wf(),
            old(self).position() < old(self).text().len(),
            is_delim_char(old(self).text()[old(self).position()]),
        ensures
            final(self).wf(),
            final(self).text() == old(self).text(),
            t@ == spec_next_token(old(self).text(), old(self).position()).0,
            final(self).position() == spec_next_token(old(self).text(), old(self).position()).1,
    {
        let ghost s = self.text();
        let ghost start = self.position();
        let n_chars = self.chars.chars.len();
        proof {
            assert(s.len() == n_chars);
        }
        let d = self.chars.read().unwrap();
        let mut count: usize = 1;
        let mut more = match self.chars.current() {
            Some(c) => c == d,
            None => false,
        };
        while more
            invariant
                self.wf(),
                self.text() == s,
                0 <= start < self.position() <= s.len(),
                s.len() <= usize::MAX,
                count == self.position() - start,
                d == s[start],
                forall|j: int| start <= j < self.position() ==> s[j] == d,
                more == (self.position() < s.len() && s[self.position()] == d),
            decreases s.len() - self.position(),
        {
            let _ = self.chars.read();
            count = count + 1;
            more = match self.chars.current() {
                Some(c2) => c2 == d,
                None => false,
            };
        }
        proof {
            lemma_delim_run_exact(s, start, d, self.position());
        }
        if d == '#' {
            Token::Hash(count)
        } else if d == '*' {
            Token::Asterisk(count)
        } else if d == '`' {
            Token::Backticks(count)
        } else if d == '-' {
            Token::Dash(count)
        } else {
            Token::Underscore(count)
        }
    }
}

} // verus!
