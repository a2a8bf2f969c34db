use markdown::cursor::CharIterator;
use markdown::cursor::Encoding;
use markdown::tokenizer::ParseTokenError;
use markdown::tokenizer::Token;
use markdown::tokenizer::Tokenizer;

fn tokenizer_for(raw: &str) -> Tokenizer {
    let mut chars = CharIterator::new();
    chars.read_from_str(raw, Some(Encoding::UTF8));
    Tokenizer::new(chars)
}

#[test]
fn consume_delims() {
    let mut tokenizer = tokenizer_for("#####**```---__");

    assert_eq!(tokenizer.consume_delim(), Token::Hash(5));
    assert_eq!(tokenizer.consume_delim(), Token::Asterisk(2));
    assert_eq!(tokenizer.consume_delim(), Token::Backticks(3));
    assert_eq!(tokenizer.consume_delim(), Token::Dash(3));
    assert_eq!(tokenizer.consume_delim(), Token::Underscore(2));
}

#[test]
fn consume_token_stream() {
    let mut tokenizer = tokenizer_for(
        "
        ### heading
        **bold**
        _italic_
        [text](link)
        ",
    );

    let tokens = vec![
        Token::Whitespace("\n        ".to_string()),
        // ### heading
        Token::Hash(3),
        Token::Whitespace(" ".to_string()),
        Token::Text("heading".to_string()),
        Token::Whitespace("\n        ".to_string()),
        // **bold**
        Token::Asterisk(2),
        Token::Text("bold".to_string()),
        Token::Asterisk(2),
        Token::Whitespace("\n        ".to_string()),
        // _italic_
        Token::Underscore(1),
        Token::Text("italic".to_string()),
        Token::Underscore(1),
        Token::Whitespace("\n        ".to_string()),
        // [text](link)
        Token::OpeningBracket,
        Token::Text("text".to_string()),
        Token::ClosingBracket,
        Token::OpeningParenthesis,
        Token::Text("link".to_string()),
        Token::ClosingParenthesis,
    ];

    for token in tokens {
        assert_eq!(tokenizer.consume(), token);
    }
}

#[test]
fn lex_interleaved_constructs() {
    let mut tokenizer = tokenizer_for("### heading\n**bold**\n_italic_\n[text](link)\n");

    let tokens = vec![
        Token::Hash(3),
        Token::Whitespace(" ".to_string()),
        Token::Text("heading".to_string()),
        Token::Whitespace("\n".to_string()),
        Token::Asterisk(2),
        Token::Text("bold".to_string()),
        Token::Asterisk(2),
        Token::Whitespace("\n".to_string()),
        Token::Underscore(1),
        Token::Text("italic".to_string()),
        Token::Underscore(1),
        Token::Whitespace("\n".to_string()),
        Token::OpeningBracket,
        Token::Text("text".to_string()),
        Token::ClosingBracket,
        Token::OpeningParenthesis,
        Token::Text("link".to_string()),
        Token::ClosingParenthesis,
        Token::Whitespace("\n".to_string()),
        Token::EOF,
    ];

    for token in tokens {
        assert_eq!(tokenizer.consume(), token);
    }
}

#[test]
fn token_round_trip() {
    // Concatenating each token's canonical textual form reconstructs the
    // input exactly, including whitespace and delimiter run lengths.
    let raw = "## title\n- item one\n1. two\n**b** _i_ `c` ![a](s) [t](h) a-b`c >x!\n";
    let mut tokenizer = tokenizer_for(raw);
    let mut rebuilt = String::new();
    loop {
        let token = tokenizer.consume();
        if token.is_eof() {
            break;
        }
        rebuilt.push_str(&token.to_string());
    }
    assert_eq!(rebuilt, raw);
}

#[test]
fn eof_idempotent() {
    let mut tokenizer = tokenizer_for("ab");
    assert_eq!(tokenizer.consume(), Token::Text("ab".to_string()));
    let pos_at_end = tokenizer.chars.pos;
    // Once end of input is reached, consuming keeps returning EOF without
    // advancing, however often it is called.
    for _ in 0..5 {
        assert_eq!(tokenizer.consume(), Token::EOF);
        assert_eq!(tokenizer.chars.pos, pos_at_end);
    }
}

#[test]
fn text_runs_keep_backtick_and_dash() {
    // Backtick and dash do not terminate a plain-text run; the listed
    // boundary characters do.
    let mut tokenizer = tokenizer_for("a-b`c#d");
    assert_eq!(tokenizer.consume(), Token::Text("a-b`c".to_string()));
    assert_eq!(tokenizer.consume(), Token::Hash(1));
    assert_eq!(tokenizer.consume(), Token::Text("d".to_string()));
    assert_eq!(tokenizer.consume(), Token::EOF);
}

#[test]
fn single_character_tokens() {
    let mut tokenizer = tokenizer_for("()[]!x");
    assert_eq!(tokenizer.consume(), Token::OpeningParenthesis);
    assert_eq!(tokenizer.consume(), Token::ClosingParenthesis);
    assert_eq!(tokenizer.consume(), Token::OpeningBracket);
    assert_eq!(tokenizer.consume(), Token::ClosingBracket);
    assert_eq!(tokenizer.consume(), Token::ExclamationMark);
    assert_eq!(tokenizer.consume(), Token::Text("x".to_string()));
}

#[test]
fn token_to_string_forms() {
    assert_eq!(Token::Hash(3).to_string(), "###");
    assert_eq!(Token::Asterisk(2).to_string(), "**");
    assert_eq!(Token::Backticks(1).to_string(), "`");
    assert_eq!(Token::Dash(4).to_string(), "----");
    assert_eq!(Token::Underscore(2).to_string(), "__");
    assert_eq!(Token::Whitespace("\n\t ".to_string()).to_string(), "\n\t ");
    assert_eq!(Token::Text("plain".to_string()).to_string(), "plain");
    assert_eq!(Token::ClosingParenthesis.to_string(), ")");
    assert_eq!(Token::AngleBracket.to_string(), ">");
    assert_eq!(Token::EOF.to_string(), "");
}

#[test]
fn token_from_str_single_characters() {
    assert_eq!(Token::from_str(""), Ok(Token::EOF));
    assert_eq!(Token::from_str("("), Ok(Token::OpeningParenthesis));
    assert_eq!(Token::from_str(")"), Ok(Token::ClosingParenthesis));
    assert_eq!(Token::from_str("["), Ok(Token::OpeningBracket));
    assert_eq!(Token::from_str("]"), Ok(Token::ClosingBracket));
    assert_eq!(Token::from_str(">"), Ok(Token::AngleBracket));
    assert_eq!(Token::from_str("!"), Ok(Token::ExclamationMark));
    assert_eq!(Token::from_str("abc"), Err(ParseTokenError));
}

#[test]
fn token_predicates() {
    assert!(Token::Text("a".to_string()).is_string());
    assert!(Token::Hash(1).is_hash());
    assert!(Token::Asterisk(1).is_asterisk());
    assert!(Token::Backticks(1).is_backticks());
    assert!(Token::Dash(1).is_dash());
    assert!(Token::Underscore(1).is_underscore());
    assert!(Token::Url("u".to_string()).is_url());
    assert!(Token::Whitespace(" ".to_string()).is_whitespace());
    assert!(Token::EOF.is_eof());
    assert!(!Token::EOF.is_string());
    assert!(!Token::Hash(1).is_dash());
}
