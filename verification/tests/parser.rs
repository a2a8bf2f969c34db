use markdown::ast::Document;
use markdown::ast::Element;
use markdown::ast::InlineToken;
use markdown::ast::ListKind;
use markdown::cursor::CharIterator;
use markdown::cursor::Encoding;
use markdown::grammar::Construct;
use markdown::parser::ParseError;
use markdown::parser::Parser;
use markdown::tokenizer::Token;
use markdown::tokenizer::Tokenizer;

fn parse_document(raw: &str) -> Result<Document, ParseError> {
    let mut chars = CharIterator::new();
    chars.read_from_str(raw, Some(Encoding::UTF8));
    let tokenizer = Tokenizer::new(chars);
    let mut parser = Parser::new(tokenizer);
    parser.parse()
}

#[test]
fn parse_heading() {
    let tests = vec![
        ("# h1", 1, " h1"),
        ("## h2", 2, " h2"),
        ("### h3", 3, " h3"),
        ("#### I am heading", 4, " I am heading"),
    ];
    for (raw, level, text) in tests {
        assert_eq!(
            parse_document(raw).unwrap(),
            Document::new(vec![Element::new_heading(
                level,
                vec![InlineToken::new_text(text)]
            )])
        );
    }
}

#[test]
fn heading_levels_are_not_clamped() {
    // Levels are exactly the hash-run length, beyond six as well.
    assert_eq!(
        parse_document("######### deep").unwrap(),
        Document::new(vec![Element::new_heading(
            9,
            vec![InlineToken::new_text(" deep")]
        )])
    );
}

#[test]
fn empty_input_is_empty_document() {
    assert_eq!(parse_document("").unwrap(), Document::new(vec![]));
}

#[test]
fn paragraph_merges_text_and_whitespace() {
    assert_eq!(
        parse_document("one two\nthree").unwrap(),
        Document::new(vec![Element::new_paragraph(vec![InlineToken::new_text(
            "one two\nthree"
        )])])
    );
}

#[test]
fn parse_link_in_paragraph() {
    assert_eq!(
        parse_document("[text](link)").unwrap(),
        Document::new(vec![Element::new_paragraph(vec![InlineToken::new_link(
            vec![InlineToken::new_text("text")],
            "link"
        )])])
    );
}

#[test]
fn unclosed_link_is_unterminated() {
    assert_eq!(
        parse_document("[text](link"),
        Err(ParseError::Unterminated {
            construct: Construct::Link
        })
    );
}

#[test]
fn parse_bold() {
    assert_eq!(
        parse_document("**bold**").unwrap(),
        Document::new(vec![Element::new_paragraph(vec![InlineToken::new_blod(
            vec![InlineToken::new_text("bold")]
        )])])
    );
}

#[test]
fn parse_italic_both_delimiters() {
    assert_eq!(
        parse_document("_italic_").unwrap(),
        Document::new(vec![Element::new_paragraph(vec![InlineToken::new_italic(
            vec![InlineToken::new_text("italic")]
        )])])
    );
    assert_eq!(
        parse_document("*italic*").unwrap(),
        Document::new(vec![Element::new_paragraph(vec![InlineToken::new_italic(
            vec![InlineToken::new_text("italic")]
        )])])
    );
}

#[test]
fn parse_code_span() {
    // The closing backtick must begin its own token, so here the content
    // ends in whitespace; see code_span_asymmetry for why.
    assert_eq!(
        parse_document("` code `").unwrap(),
        Document::new(vec![Element::new_paragraph(vec![InlineToken::new_code(
            " code "
        )])])
    );
}

#[test]
fn code_span_asymmetry() {
    // A deliberate asymmetry of the lexer: backtick does not terminate a
    // plain-text run, so in "`code`" the closing backtick is swallowed by
    // the text token and the code span reaches end of input unterminated.
    assert_eq!(
        parse_document("`code`"),
        Err(ParseError::Unterminated {
            construct: Construct::Code
        })
    );
}

#[test]
fn parse_image() {
    assert_eq!(
        parse_document("![alt](src)").unwrap(),
        Document::new(vec![Element::new_paragraph(vec![InlineToken::new_img(
            "src", "alt"
        )])])
    );
}

#[test]
fn three_dash_items_make_one_list() {
    // Three consecutive dash-prefixed items yield one unordered list of
    // three items, never three separate single-item lists.
    assert_eq!(
        parse_document("- a\n- b\n- c").unwrap(),
        Document::new(vec![Element::new_list(
            ListKind::Unordered,
            vec![
                vec![Element::new_paragraph(vec![InlineToken::new_text(" a\n")])],
                vec![Element::new_paragraph(vec![InlineToken::new_text(" b\n")])],
                vec![Element::new_paragraph(vec![InlineToken::new_text(" c")])],
            ]
        )])
    );
}

#[test]
fn ordered_list_from_numeric_markers() {
    assert_eq!(
        parse_document("1. a\n2. b").unwrap(),
        Document::new(vec![Element::new_list(
            ListKind::Ordered,
            vec![
                vec![Element::new_paragraph(vec![InlineToken::new_text(" a\n")])],
                vec![Element::new_paragraph(vec![InlineToken::new_text(" b")])],
            ]
        )])
    );
}

#[test]
fn mixed_markers_split_into_two_lists() {
    // The kind is decided by a list's first marker; a marker of the other
    // kind ends the list and opens an adjacent one.
    assert_eq!(
        parse_document("- a\n1. b").unwrap(),
        Document::new(vec![
            Element::new_list(
                ListKind::Unordered,
                vec![vec![Element::new_paragraph(vec![InlineToken::new_text(
                    " a\n"
                )])]]
            ),
            Element::new_list(
                ListKind::Ordered,
                vec![vec![Element::new_paragraph(vec![InlineToken::new_text(
                    " b"
                )])]]
            ),
        ])
    );
}

#[test]
fn unexpected_token_at_element() {
    assert_eq!(
        parse_document(")"),
        Err(ParseError::UnexpectedToken {
            token: Token::ClosingParenthesis,
            construct: Construct::Element
        })
    );
}

#[test]
fn unterminated_bold() {
    assert_eq!(
        parse_document("**bold"),
        Err(ParseError::Unterminated {
            construct: Construct::Bold
        })
    );
}

#[test]
fn unexpected_token_inside_bold() {
    assert_eq!(
        parse_document("**a#"),
        Err(ParseError::UnexpectedToken {
            token: Token::Hash(1),
            construct: Construct::Bold
        })
    );
}

#[test]
fn unterminated_italic_and_code() {
    assert_eq!(
        parse_document("_oops"),
        Err(ParseError::Unterminated {
            construct: Construct::Italic
        })
    );
    assert_eq!(
        parse_document("`oops"),
        Err(ParseError::Unterminated {
            construct: Construct::Code
        })
    );
}

#[test]
fn unterminated_image() {
    assert_eq!(
        parse_document("![alt](src"),
        Err(ParseError::Unterminated {
            construct: Construct::Image
        })
    );
}

#[test]
fn nested_emphasis() {
    assert_eq!(
        parse_document("**a _b_ c**").unwrap(),
        Document::new(vec![Element::new_paragraph(vec![InlineToken::new_blod(
            vec![
                InlineToken::new_text("a "),
                InlineToken::new_italic(vec![InlineToken::new_text("b")]),
                InlineToken::new_text(" c"),
            ]
        )])])
    );
}

#[test]
fn heading_then_list() {
    assert_eq!(
        parse_document("# t\n- a").unwrap(),
        Document::new(vec![
            Element::new_heading(1, vec![InlineToken::new_text(" t\n")]),
            Element::new_list(
                ListKind::Unordered,
                vec![vec![Element::new_paragraph(vec![InlineToken::new_text(
                    " a"
                )])]]
            ),
        ])
    );
}
