use simple_calc::lexer::{
    next_token, operator_identifier, repeated_point, FloatLiteral, Identifier, Keyword, Operator,
    Token,
};

fn ident(s: &str) -> Token {
    Token::IDENTIFIER(Identifier(String::from(s)))
}

fn all_tokens(text: &str) -> Vec<Token> {
    let mut out = Vec::new();
    let mut pos = 0;
    loop {
        let (tk, next) = next_token(text, pos);
        let stop = tk == Token::EOF || tk == Token::ERROR;
        out.push(tk);
        if stop {
            return out;
        }
        pos = next;
    }
}

#[test]
fn end_of_input() {
    assert_eq!(next_token("", 0), (Token::EOF, 0));
    assert_eq!(next_token("   \n\t\r ", 0), (Token::EOF, 7));
    assert_eq!(next_token("ab", 2), (Token::EOF, 2));
    assert_eq!(next_token("ab", 10), (Token::EOF, 10));
}

#[test]
fn semicolon_after_whitespace() {
    assert_eq!(next_token("  ;x", 0), (Token::SEMICOLON, 3));
}

#[test]
fn identifier_is_read_to_its_end() {
    assert_eq!(next_token("abc_12 + 1", 0), (ident("abc_12"), 6));
    assert_eq!(next_token("  _x9;", 0), (ident("_x9"), 5));
    assert_eq!(next_token("Zed", 0), (ident("Zed"), 3));
}

#[test]
fn identifier_text_is_built_character_by_character() {
    let (tk, end) = next_token("hello", 0);
    assert_eq!(end, 5);
    match tk {
        Token::IDENTIFIER(Identifier(name)) => {
            assert_eq!(name.len(), 5);
            assert_eq!(name, "hello");
        }
        _ => panic!("not an identifier"),
    }
}

#[test]
fn every_keyword() {
    let cases = [
        ("for", Keyword::For),
        ("if", Keyword::If),
        ("while", Keyword::While),
        ("loop", Keyword::Loop),
        ("until", Keyword::Until),
        ("return", Keyword::Return),
        ("continue", Keyword::Continue),
        ("break", Keyword::Break),
        ("to", Keyword::To),
        ("downto", Keyword::Downto),
        ("fn", Keyword::Fn),
        ("else", Keyword::Else),
        ("elif", Keyword::Elif),
    ];
    for (text, k) in cases {
        assert_eq!(next_token(text, 0), (Token::KEYWORD(k), text.len()));
    }
}

#[test]
fn keyword_is_a_whole_word() {
    assert_eq!(next_token("iffy = 1;", 0), (ident("iffy"), 4));
    assert_eq!(next_token("format", 0), (ident("format"), 6));
    assert_eq!(next_token("total", 0), (ident("total"), 5));
    assert_eq!(next_token("elsewhere", 0), (ident("elsewhere"), 9));
    assert_eq!(next_token("fn_1", 0), (ident("fn_1"), 4));
    assert_eq!(next_token("while2", 0), (ident("while2"), 6));
    assert_eq!(next_token("_if", 0), (ident("_if"), 3));
    assert_eq!(next_token("If", 0), (ident("If"), 2));
    assert_eq!(next_token("i", 0), (ident("i"), 1));
}

#[test]
fn keyword_ends_where_the_word_ends() {
    assert_eq!(next_token("if(", 0), (Token::KEYWORD(Keyword::If), 2));
    assert_eq!(next_token("if x", 0), (Token::KEYWORD(Keyword::If), 2));
    assert_eq!(next_token("else{", 0), (Token::KEYWORD(Keyword::Else), 4));
    assert_eq!(next_token("return;", 0), (Token::KEYWORD(Keyword::Return), 6));
    assert_eq!(next_token(" downto ", 0), (Token::KEYWORD(Keyword::Downto), 7));
    assert_eq!(next_token("to", 0), (Token::KEYWORD(Keyword::To), 2));
}

#[test]
fn every_operator() {
    let cases = [
        ("+", Operator::Plus),
        ("-", Operator::Minus),
        ("*", Operator::Star),
        ("/", Operator::Slash),
        ("=", Operator::Assign),
        ("**", Operator::Power),
        ("[", Operator::LeftBracket),
        ("]", Operator::RightBracket),
        ("(", Operator::LeftParen),
        (")", Operator::RightParen),
        ("{", Operator::LeftBrace),
        ("}", Operator::RightBrace),
        (",", Operator::Comma),
        ("->", Operator::Arrow),
    ];
    for (text, op) in cases {
        assert_eq!(next_token(text, 0), (Token::OPERATOR(op), text.len()));
    }
}

#[test]
fn two_character_operator_wins_over_its_prefix() {
    assert_eq!(
        all_tokens("a ** b -> c * - d"),
        vec![
            ident("a"),
            Token::OPERATOR(Operator::Power),
            ident("b"),
            Token::OPERATOR(Operator::Arrow),
            ident("c"),
            Token::OPERATOR(Operator::Star),
            Token::OPERATOR(Operator::Minus),
            ident("d"),
            Token::EOF,
        ]
    );
}

#[test]
fn integer_literal() {
    assert_eq!(next_token("0", 0), (Token::INTEGER(0), 1));
    assert_eq!(next_token(" 42;", 0), (Token::INTEGER(42), 3));
    assert_eq!(next_token("007", 0), (Token::INTEGER(7), 3));
    assert_eq!(next_token("2147483647", 0), (Token::INTEGER(2147483647), 10));
}

#[test]
fn integer_literal_is_held_at_the_largest_value() {
    assert_eq!(next_token("2147483648", 0), (Token::INTEGER(i32::MAX), 10));
    assert_eq!(
        next_token("99999999999999999999999999", 0),
        (Token::INTEGER(i32::MAX), 26)
    );
}

#[test]
fn float_literal_keeps_its_digits() {
    assert_eq!(
        next_token("12.50", 0),
        (
            Token::FLOAT(FloatLiteral { whole: vec![1, 2], fraction: vec![5, 0] }),
            5
        )
    );
    assert_eq!(
        next_token("3.", 0),
        (Token::FLOAT(FloatLiteral { whole: vec![3], fraction: vec![] }), 2)
    );
}

#[test]
fn second_decimal_point_is_skipped() {
    assert_eq!(
        next_token("1.2.3 ", 0),
        (
            Token::FLOAT(FloatLiteral { whole: vec![1], fraction: vec![2, 3] }),
            5
        )
    );
    assert_eq!(
        next_token("1..", 0),
        (Token::FLOAT(FloatLiteral { whole: vec![1], fraction: vec![] }), 3)
    );
}

#[test]
fn number_ends_at_a_letter() {
    assert_eq!(next_token("12ab", 0), (Token::INTEGER(12), 2));
    assert_eq!(next_token("12ab", 2), (ident("ab"), 4));
}

#[test]
fn error_token_consumes_nothing() {
    assert_eq!(next_token("  @", 0), (Token::ERROR, 2));
    assert_eq!(next_token(".5", 0), (Token::ERROR, 0));
    assert_eq!(next_token("é", 0), (Token::ERROR, 0));
}

#[test]
fn same_offset_gives_the_same_token() {
    let text = "a = f(1, 2.5);";
    for pos in 0..text.len() + 2 {
        assert_eq!(next_token(text, pos), next_token(text, pos));
    }
}

#[test]
fn whitespace_before_a_token_does_not_change_it() {
    let (plain, end) = next_token("while", 0);
    let (spaced, spaced_end) = next_token(" \t\r\n while", 0);
    assert_eq!(plain, spaced);
    assert_eq!(end + 5, spaced_end);
}

#[test]
fn a_statement_as_tokens() {
    assert_eq!(
        all_tokens("fn f(a,b){return a;}"),
        vec![
            Token::KEYWORD(Keyword::Fn),
            ident("f"),
            Token::OPERATOR(Operator::LeftParen),
            ident("a"),
            Token::OPERATOR(Operator::Comma),
            ident("b"),
            Token::OPERATOR(Operator::RightParen),
            Token::OPERATOR(Operator::LeftBrace),
            Token::KEYWORD(Keyword::Return),
            ident("a"),
            Token::SEMICOLON,
            Token::OPERATOR(Operator::RightBrace),
            Token::EOF,
        ]
    );
}

#[test]
fn second_decimal_point_is_found() {
    assert_eq!(repeated_point("1.2.3", 0), Some(3));
    assert_eq!(repeated_point("  10..5;", 0), Some(5));
    assert_eq!(repeated_point("a = 1.5.", 3), Some(7));
    assert_eq!(repeated_point("1.2.3.4", 0), Some(3));
}

#[test]
fn number_with_one_point_has_no_second() {
    assert_eq!(repeated_point("1.25", 0), None);
    assert_eq!(repeated_point("1.", 0), None);
    assert_eq!(repeated_point("1.2 .3", 0), None);
    assert_eq!(repeated_point("12", 0), None);
    assert_eq!(repeated_point("x.1.2", 0), None);
    assert_eq!(repeated_point("", 0), None);
    assert_eq!(repeated_point("1.2.3", 9), None);
}

#[test]
fn operator_names() {
    assert_eq!(operator_identifier(Operator::Plus), Identifier(String::from("+")));
    assert_eq!(operator_identifier(Operator::Minus), Identifier(String::from("-")));
    assert_eq!(operator_identifier(Operator::Star), Identifier(String::from("*")));
    assert_eq!(operator_identifier(Operator::Slash), Identifier(String::from("/")));
    assert_eq!(operator_identifier(Operator::Power), Identifier(String::from("**")));
    assert_eq!(operator_identifier(Operator::Arrow), Identifier(String::from("->")));
}

#[test]
fn copies_of_tokens_parts() {
    let id = Identifier(String::from("abc"));
    assert_eq!(id.clone(), id);
    let lit = FloatLiteral { whole: vec![1, 2], fraction: vec![0, 5] };
    assert_eq!(lit.clone(), lit);
}
