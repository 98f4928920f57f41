use roxc::scanner::Scanner;
use roxc::scanner::ScannerError;
use roxc::token::{Token, TokenType};

fn pull_all(source: &str) -> Vec<Result<Token, ScannerError>> {
    let mut scanner = Scanner::new(source);
    let mut out = Vec::new();
    loop {
        match scanner.next() {
            Some(item) => out.push(item),
            None => return out,
        }
    }
}

fn expect_token(item: &Result<Token, ScannerError>) -> &Token {
    match item {
        Ok(t) => t,
        Err(e) => panic!("expected a token, got an error: {:?}", e),
    }
}

fn expect_error(item: &Result<Token, ScannerError>) -> &ScannerError {
    match item {
        Ok(t) => panic!("expected an error, got a token: {:?}", t),
        Err(e) => e,
    }
}

fn assert_eof(item: &Result<Token, ScannerError>, line: usize) {
    let t = expect_token(item);
    assert!(matches!(t.token_type, TokenType::Eof));
    assert!(t.lexeme.is_none());
    assert_eq!(t.line, line);
}

#[test]
fn empty_source_yields_only_eof() {
    let items = pull_all("");
    assert_eq!(items.len(), 1);
    assert_eof(&items[0], 1);
}

#[test]
fn whitespace_only_source_yields_only_eof() {
    let items = pull_all(" \t\r  \n \n  ");
    assert_eq!(items.len(), 1);
    assert_eof(&items[0], 3);
}

#[test]
fn comment_only_source_yields_only_eof() {
    let items = pull_all("// nothing here");
    assert_eq!(items.len(), 1);
    assert_eof(&items[0], 1);
}

#[test]
fn block_comment_only_source_yields_only_eof() {
    let items = pull_all("/* spread \n over \n lines */");
    assert_eq!(items.len(), 1);
    assert_eof(&items[0], 3);
}

#[test]
fn mixed_skippable_source_yields_only_eof() {
    let items = pull_all("  /* a */ \n // b\n\t ");
    assert_eq!(items.len(), 1);
    assert_eof(&items[0], 3);
}

#[test]
fn unterminated_block_comment_runs_to_end_of_input() {
    // The closing delimiter never appears: the comment silently swallows
    // the rest of the input, by design.
    let items = pull_all("/* never closed");
    assert_eq!(items.len(), 1);
    assert_eof(&items[0], 1);
}

#[test]
fn single_character_punctuation_tokens() {
    let cases: Vec<(&str, fn(&TokenType) -> bool)> = vec![
        ("(", |t| matches!(t, TokenType::LeftParen)),
        (")", |t| matches!(t, TokenType::RightParen)),
        ("{", |t| matches!(t, TokenType::LeftBrace)),
        ("}", |t| matches!(t, TokenType::RightBrace)),
        (",", |t| matches!(t, TokenType::Comma)),
        (".", |t| matches!(t, TokenType::Dot)),
        ("-", |t| matches!(t, TokenType::Minus)),
        ("+", |t| matches!(t, TokenType::Plus)),
        (";", |t| matches!(t, TokenType::Semicolon)),
        ("*", |t| matches!(t, TokenType::Star)),
        ("/", |t| matches!(t, TokenType::Slash)),
    ];
    for (source, is_kind) in cases {
        let items = pull_all(source);
        assert_eq!(items.len(), 2, "source {:?}", source);
        let t = expect_token(&items[0]);
        assert!(is_kind(&t.token_type), "source {:?} gave {:?}", source, t);
        assert_eq!(t.lexeme.as_deref(), Some(source));
        assert_eq!(t.line, 1);
        assert_eof(&items[1], 1);
    }
}

#[test]
fn bang_equal_is_one_token() {
    let items = pull_all("!=");
    assert_eq!(items.len(), 2);
    let t = expect_token(&items[0]);
    assert!(matches!(t.token_type, TokenType::BangEqual));
    assert_eq!(t.lexeme.as_deref(), Some("!="));
    assert_eof(&items[1], 1);
}

#[test]
fn lone_bang_is_bang() {
    let items = pull_all("!");
    assert_eq!(items.len(), 2);
    let t = expect_token(&items[0]);
    assert!(matches!(t.token_type, TokenType::Bang));
    assert_eq!(t.lexeme.as_deref(), Some("!"));
    assert_eof(&items[1], 1);
}

#[test]
fn remaining_operators_single_and_double() {
    let items = pull_all("= == < <= > >=");
    let kinds: Vec<&Token> = items[..6].iter().map(expect_token).collect();
    assert!(matches!(kinds[0].token_type, TokenType::Equal));
    assert!(matches!(kinds[1].token_type, TokenType::EqualEqual));
    assert!(matches!(kinds[2].token_type, TokenType::Less));
    assert!(matches!(kinds[3].token_type, TokenType::LessEqual));
    assert!(matches!(kinds[4].token_type, TokenType::Greater));
    assert!(matches!(kinds[5].token_type, TokenType::GreaterEqual));
    assert_eq!(kinds[1].lexeme.as_deref(), Some("=="));
    assert_eq!(kinds[3].lexeme.as_deref(), Some("<="));
    assert_eq!(kinds[5].lexeme.as_deref(), Some(">="));
    assert_eof(&items[6], 1);
}

#[test]
fn keyword_prefix_of_identifier_stays_identifier() {
    let items = pull_all("classroom");
    assert_eq!(items.len(), 2);
    let t = expect_token(&items[0]);
    match &t.token_type {
        TokenType::Identifier(name) => assert_eq!(name, "classroom"),
        other => panic!("expected an identifier, got {:?}", other),
    }
    assert_eq!(t.lexeme.as_deref(), Some("classroom"));
    assert_eof(&items[1], 1);
}

#[test]
fn every_keyword_is_recognized() {
    let cases: Vec<(&str, fn(&TokenType) -> bool)> = vec![
        ("and", |t| matches!(t, TokenType::And)),
        ("class", |t| matches!(t, TokenType::Class)),
        ("else", |t| matches!(t, TokenType::Else)),
        ("false", |t| matches!(t, TokenType::False)),
        ("for", |t| matches!(t, TokenType::For)),
        ("fun", |t| matches!(t, TokenType::Fun)),
        ("if", |t| matches!(t, TokenType::If)),
        ("nil", |t| matches!(t, TokenType::Nil)),
        ("or", |t| matches!(t, TokenType::Or)),
        ("print", |t| matches!(t, TokenType::Print)),
        ("return", |t| matches!(t, TokenType::Return)),
        ("super", |t| matches!(t, TokenType::Super)),
        ("this", |t| matches!(t, TokenType::This)),
        ("true", |t| matches!(t, TokenType::True)),
        ("var", |t| matches!(t, TokenType::Var)),
        ("while", |t| matches!(t, TokenType::While)),
    ];
    for (source, is_kind) in cases {
        let items = pull_all(source);
        assert_eq!(items.len(), 2, "source {:?}", source);
        let t = expect_token(&items[0]);
        assert!(is_kind(&t.token_type), "source {:?} gave {:?}", source, t);
        assert_eq!(t.lexeme.as_deref(), Some(source));
        assert_eof(&items[1], 1);
    }
}

#[test]
fn string_payload_excludes_quotes() {
    let items = pull_all("\"hello\"");
    assert_eq!(items.len(), 2);
    let t = expect_token(&items[0]);
    match &t.token_type {
        TokenType::String(text) => assert_eq!(text, "hello"),
        other => panic!("expected a string token, got {:?}", other),
    }
    assert_eq!(t.lexeme.as_deref(), Some("hello"));
    assert_eq!(t.line, 1);
    assert_eof(&items[1], 1);
}

#[test]
fn unterminated_string_reports_the_opening_quote() {
    let items = pull_all("\"unterminated");
    assert_eq!(items.len(), 2);
    let e = expect_error(&items[0]);
    match e {
        ScannerError::UnterminatedString(meta) => {
            assert_eq!(meta.lexeme, None);
            assert_eq!(meta.line, 1);
            assert_eq!(meta.position, 1);
            assert_eq!(meta.source, "\"unterminated");
        }
        other => panic!("expected an unterminated string error, got {:?}", other),
    }
    assert_eof(&items[1], 1);
}

#[test]
fn unterminated_string_after_newline_keeps_opening_line() {
    let items = pull_all("\n\"abc");
    let e = expect_error(&items[0]);
    match e {
        ScannerError::UnterminatedString(meta) => {
            assert_eq!(meta.line, 2);
            assert_eq!(meta.position, 2);
        }
        other => panic!("expected an unterminated string error, got {:?}", other),
    }
}

#[test]
fn integral_numeric_literal() {
    let items = pull_all("10");
    assert_eq!(items.len(), 2);
    let t = expect_token(&items[0]);
    match &t.token_type {
        TokenType::Number(text) => {
            assert_eq!(text, "10");
            assert_eq!(text.parse::<f64>().unwrap(), 10.0);
        }
        other => panic!("expected a number token, got {:?}", other),
    }
    assert_eq!(t.lexeme.as_deref(), Some("10"));
    assert_eof(&items[1], 1);
}

#[test]
fn fractional_numeric_literal() {
    let items = pull_all("3.14");
    assert_eq!(items.len(), 2);
    let t = expect_token(&items[0]);
    match &t.token_type {
        TokenType::Number(text) => {
            assert_eq!(text, "3.14");
            assert_eq!(text.parse::<f64>().unwrap(), 3.14);
        }
        other => panic!("expected a number token, got {:?}", other),
    }
    assert_eq!(t.lexeme.as_deref(), Some("3.14"));
    assert_eof(&items[1], 1);
}

#[test]
fn trailing_dot_joins_the_numeral() {
    let items = pull_all("3.x");
    let t = expect_token(&items[0]);
    match &t.token_type {
        TokenType::Number(text) => assert_eq!(text, "3."),
        other => panic!("expected a number token, got {:?}", other),
    }
    let t2 = expect_token(&items[1]);
    match &t2.token_type {
        TokenType::Identifier(name) => assert_eq!(name, "x"),
        other => panic!("expected an identifier, got {:?}", other),
    }
    assert_eof(&items[2], 1);
}

#[test]
fn two_newlines_place_the_token_on_line_three() {
    let items = pull_all("\n\nfoo");
    let t = expect_token(&items[0]);
    assert_eq!(t.line, 3);
    assert_eof(&items[1], 3);
}

#[test]
fn newline_inside_string_counts_towards_the_line() {
    // The string token itself sits on the line of its opening quote, while
    // the line feed inside it still advances the counter for what follows.
    let items = pull_all("\"a\nb\" x");
    let t = expect_token(&items[0]);
    match &t.token_type {
        TokenType::String(text) => assert_eq!(text, "a\nb"),
        other => panic!("expected a string token, got {:?}", other),
    }
    assert_eq!(t.line, 1);
    let x = expect_token(&items[1]);
    assert_eq!(x.line, 2);
}

#[test]
fn newline_inside_block_comment_counts_towards_the_line() {
    let items = pull_all("/* a\nb */ x");
    let x = expect_token(&items[0]);
    match &x.token_type {
        TokenType::Identifier(name) => assert_eq!(name, "x"),
        other => panic!("expected an identifier, got {:?}", other),
    }
    assert_eq!(x.line, 2);
}

#[test]
fn line_comment_leaves_the_newline_for_the_next_pull() {
    let items = pull_all("// note\n5");
    let t = expect_token(&items[0]);
    match &t.token_type {
        TokenType::Number(text) => assert_eq!(text, "5"),
        other => panic!("expected a number token, got {:?}", other),
    }
    assert_eq!(t.line, 2);
}

#[test]
fn pulls_after_the_eof_token_yield_nothing() {
    let mut scanner = Scanner::new("+");
    let first = scanner.next();
    assert!(matches!(first, Some(Ok(_))));
    let second = scanner.next();
    match second {
        Some(Ok(t)) => assert!(matches!(t.token_type, TokenType::Eof)),
        other => panic!("expected the end-of-input token, got {:?}", other),
    }
    assert!(scanner.next().is_none());
    assert!(scanner.next().is_none());
    assert!(scanner.next().is_none());
}

#[test]
fn one_bad_lexeme_does_not_suppress_the_rest() {
    let items = pull_all("@ 1");
    assert_eq!(items.len(), 3);
    let e = expect_error(&items[0]);
    match e {
        ScannerError::UnrecognizedToken(meta) => {
            assert_eq!(meta.lexeme, Some('@'));
            assert_eq!(meta.line, 1);
            assert_eq!(meta.position, 1);
            assert_eq!(meta.source, "@ 1");
        }
        other => panic!("expected an unrecognized token error, got {:?}", other),
    }
    let t = expect_token(&items[1]);
    match &t.token_type {
        TokenType::Number(text) => {
            assert_eq!(text, "1");
            assert_eq!(text.parse::<f64>().unwrap(), 1.0);
        }
        other => panic!("expected a number token, got {:?}", other),
    }
    assert_eof(&items[2], 1);
}

#[test]
fn statement_scans_to_the_expected_sequence() {
    let items = pull_all("var answer = 41.5;");
    assert_eq!(items.len(), 6);
    assert!(matches!(expect_token(&items[0]).token_type, TokenType::Var));
    match &expect_token(&items[1]).token_type {
        TokenType::Identifier(name) => assert_eq!(name, "answer"),
        other => panic!("expected an identifier, got {:?}", other),
    }
    assert!(matches!(expect_token(&items[2]).token_type, TokenType::Equal));
    match &expect_token(&items[3]).token_type {
        TokenType::Number(text) => assert_eq!(text.parse::<f64>().unwrap(), 41.5),
        other => panic!("expected a number token, got {:?}", other),
    }
    assert!(matches!(expect_token(&items[4]).token_type, TokenType::Semicolon));
    assert_eof(&items[5], 1);
}

#[test]
fn division_between_numbers_is_a_slash_token() {
    let items = pull_all("8/2");
    assert_eq!(items.len(), 4);
    assert!(matches!(expect_token(&items[1]).token_type, TokenType::Slash));
}

#[test]
fn block_comment_between_tokens_is_invisible() {
    let items = pull_all("1/*gap*/2");
    assert_eq!(items.len(), 3);
    match &expect_token(&items[0]).token_type {
        TokenType::Number(text) => assert_eq!(text, "1"),
        other => panic!("expected a number token, got {:?}", other),
    }
    match &expect_token(&items[1]).token_type {
        TokenType::Number(text) => assert_eq!(text, "2"),
        other => panic!("expected a number token, got {:?}", other),
    }
}
