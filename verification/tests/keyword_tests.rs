use roxc::token::TokenType;

#[test]
fn keyword_table_hits() {
    assert!(matches!(TokenType::parse_keyword("and"), Some(TokenType::And)));
    assert!(matches!(TokenType::parse_keyword("class"), Some(TokenType::Class)));
    assert!(matches!(TokenType::parse_keyword("else"), Some(TokenType::Else)));
    assert!(matches!(TokenType::parse_keyword("false"), Some(TokenType::False)));
    assert!(matches!(TokenType::parse_keyword("for"), Some(TokenType::For)));
    assert!(matches!(TokenType::parse_keyword("fun"), Some(TokenType::Fun)));
    assert!(matches!(TokenType::parse_keyword("if"), Some(TokenType::If)));
    assert!(matches!(TokenType::parse_keyword("nil"), Some(TokenType::Nil)));
    assert!(matches!(TokenType::parse_keyword("or"), Some(TokenType::Or)));
    assert!(matches!(TokenType::parse_keyword("print"), Some(TokenType::Print)));
    assert!(matches!(TokenType::parse_keyword("return"), Some(TokenType::Return)));
    assert!(matches!(TokenType::parse_keyword("super"), Some(TokenType::Super)));
    assert!(matches!(TokenType::parse_keyword("this"), Some(TokenType::This)));
    assert!(matches!(TokenType::parse_keyword("true"), Some(TokenType::True)));
    assert!(matches!(TokenType::parse_keyword("var"), Some(TokenType::Var)));
    assert!(matches!(TokenType::parse_keyword("while"), Some(TokenType::While)));
}

#[test]
fn keyword_table_misses() {
    assert!(TokenType::parse_keyword("classroom").is_none());
    assert!(TokenType::parse_keyword("And").is_none());
    assert!(TokenType::parse_keyword("").is_none());
    assert!(TokenType::parse_keyword("prin").is_none());
    assert!(TokenType::parse_keyword("whiles").is_none());
}
