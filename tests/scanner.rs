use relox::scanner::Scanner;
use relox::token::{Literal, Token, TokenKind, TokenType};

fn scan(source: &str) -> Vec<Token> {
    Scanner::new(source.to_string()).scan_tokens().unwrap()
}

fn num(value: f32) -> Option<Literal> {
    Some(Literal::Double(value.to_bits()))
}

#[test]
fn single_chars() {
    let tokens = scan("(");
    let result = vec![
        Token::new(TokenType::LeftParen, "(", None, 1),
        Token::new(TokenType::Eof, "", None, 1),
    ];
    assert_eq!(tokens, result);

    let tokens = scan("()! \n  /  ");
    let result = vec![
        Token::new(TokenType::LeftParen, "(", None, 1),
        Token::new(TokenType::RightParen, ")", None, 1),
        Token::new(TokenType::Bang, "!", None, 1),
        Token::new(TokenType::Slash, "/", None, 2),
        Token::new(TokenType::Eof, "", None, 2),
    ];
    assert_eq!(tokens, result);
}

#[test]
fn multiple_char() {
    let tokens = scan("!<// blah blah blah");
    let result = vec![
        Token::new(TokenType::Bang, "!", None, 1),
        Token::new(TokenType::Less, "<", None, 1),
        Token::new(TokenType::Eof, "", None, 1),
    ];
    assert_eq!(tokens, result);

    let tokens = scan("<= // blah \n !");
    let result = vec![
        Token::new(TokenType::LessEqual, "<=", None, 1),
        Token::new(TokenType::Bang, "!", None, 2),
        Token::new(TokenType::Eof, "", None, 2),
    ];
    assert_eq!(tokens, result);
}

#[test]
fn strings() {
    let tokens = scan("\"whatever )\"");
    let result = vec![
        Token::new(
            TokenType::String,
            "whatever )",
            Some(Literal::String("whatever )".to_string())),
            1,
        ),
        Token::new(TokenType::Eof, "", None, 1),
    ];
    assert_eq!(tokens, result);

    let tokens = scan("\"whatever ) \n \"");
    let result = vec![
        Token::new(
            TokenType::String,
            "whatever ) \n ",
            Some(Literal::String("whatever ) \n ".to_string())),
            2,
        ),
        Token::new(TokenType::Eof, "", None, 2),
    ];
    assert_eq!(tokens, result);
}

#[test]
fn numbers() {
    let tokens = scan("11");
    let result = vec![
        Token::new(TokenType::Number, "11", num(11.0), 1),
        Token::new(TokenType::Eof, "", None, 1),
    ];
    assert_eq!(tokens, result);

    let tokens = scan("11.32");
    let result = vec![
        Token::new(TokenType::Number, "11.32", num(11.32), 1),
        Token::new(TokenType::Eof, "", None, 1),
    ];
    assert_eq!(tokens, result);

    let tokens = scan("11.");
    let result = vec![
        Token::new(TokenType::Number, "11", num(11.0), 1),
        Token::new(TokenType::Dot, ".", None, 1),
        Token::new(TokenType::Eof, "", None, 1),
    ];
    assert_eq!(tokens, result);

    let tokens = scan("11.12.11");
    let result = vec![
        Token::new(TokenType::Number, "11.12", num(11.12), 1),
        Token::new(TokenType::Dot, ".", None, 1),
        Token::new(TokenType::Number, "11", num(11.0), 1),
        Token::new(TokenType::Eof, "", None, 1),
    ];
    assert_eq!(tokens, result);

    let tokens = scan("11.12.");
    let result = vec![
        Token::new(TokenType::Number, "11.12", num(11.12), 1),
        Token::new(TokenType::Dot, ".", None, 1),
        Token::new(TokenType::Eof, "", None, 1),
    ];
    assert_eq!(tokens, result);
}

#[test]
fn number_followed_by_something() {
    let tokens = scan("11(");
    let result = vec![
        Token::new(TokenType::Number, "11", num(11.0), 1),
        Token::new(TokenType::LeftParen, "(", None, 1),
        Token::new(TokenType::Eof, "", None, 1),
    ];
    assert_eq!(tokens, result);
}

#[test]
fn number_sum() {
    let tokens = scan("1 + 2");
    let result = vec![
        Token::new(TokenType::Number, "1", num(1.0), 1),
        Token::new(TokenType::Plus, "+", None, 1),
        Token::new(TokenType::Number, "2", num(2.0), 1),
        Token::new(TokenType::Eof, "", None, 1),
    ];
    assert_eq!(tokens, result);
}

#[test]
fn number_with_parens() {
    let tokens = scan("2)");
    let result = vec![
        Token::new(TokenType::Number, "2", num(2.0), 1),
        Token::new(TokenType::RightParen, ")", None, 1),
        Token::new(TokenType::Eof, "", None, 1),
    ];
    assert_eq!(tokens, result);
}

#[test]
fn number_sum_with_parens() {
    let tokens = scan("(1 + 2)");
    let result = vec![
        Token::new(TokenType::LeftParen, "(", None, 1),
        Token::new(TokenType::Number, "1", num(1.0), 1),
        Token::new(TokenType::Plus, "+", None, 1),
        Token::new(TokenType::Number, "2", num(2.0), 1),
        Token::new(TokenType::RightParen, ")", None, 1),
        Token::new(TokenType::Eof, "", None, 1),
    ];
    assert_eq!(tokens, result);
}

#[test]
fn keywords_and_identifiers() {
    let tokens = scan("or and     \n orfelia caca");
    let result = vec![
        Token::new(TokenType::Or, "or", None, 1),
        Token::new(TokenType::And, "and", None, 1),
        Token::new(TokenType::Identifier, "orfelia", None, 2),
        Token::new(TokenType::Identifier, "caca", None, 2),
        Token::new(TokenType::Eof, "", None, 2),
    ];
    assert_eq!(tokens, result);
}

#[test]
fn mix_of_stuff() {
    let tokens = scan("  42 \"sdfsdf\" // nope \n )");
    let result = vec![
        Token::new(TokenType::Number, "42", num(42.0), 1),
        Token::new(
            TokenType::String,
            "sdfsdf",
            Some(Literal::String("sdfsdf".to_string())),
            1,
        ),
        Token::new(TokenType::RightParen, ")", None, 2),
        Token::new(TokenType::Eof, "", None, 2),
    ];
    assert_eq!(tokens, result);

    let tokens = scan("or \"sdfsdf\")//nope\n}(");
    let result = vec![
        Token::new(TokenType::Or, "or", None, 1),
        Token::new(
            TokenType::String,
            "sdfsdf",
            Some(Literal::String("sdfsdf".to_string())),
            1,
        ),
        Token::new(TokenType::RightParen, ")", None, 1),
        Token::new(TokenType::RightBrace, "}", None, 2),
        Token::new(TokenType::LeftParen, "(", None, 2),
        Token::new(TokenType::Eof, "", None, 2),
    ];
    assert_eq!(tokens, result);
}

#[test]
fn scan_one_plus_two_gives_four_tokens() {
    let tokens = Scanner::run_with("1 + 2".to_string()).unwrap();
    let kinds: Vec<TokenType> = tokens.iter().map(|t| t.token_type).collect();
    assert_eq!(kinds, vec![TokenType::Number, TokenType::Plus, TokenType::Number, TokenType::Eof]);
    assert_eq!(tokens[0].literal, num(1.0));
    assert_eq!(tokens[2].literal, num(2.0));
}

#[test]
fn empty_source_is_only_eof() {
    assert_eq!(scan(""), vec![Token::new(TokenType::Eof, "", None, 1)]);
}

#[test]
fn unrecognised_characters_become_error_tokens() {
    let tokens = scan("##$");
    let result = vec![
        Token::new(TokenType::ErrorToken, "#", None, 1),
        Token::new(TokenType::ErrorToken, "#", None, 1),
        Token::new(TokenType::ErrorToken, "$", None, 1),
        Token::new(TokenType::Eof, "", None, 1),
    ];
    assert_eq!(tokens, result);
}

#[test]
fn unterminated_string_is_an_error_token() {
    let tokens = scan("\"abc\ndef");
    let result = vec![
        Token::new(TokenType::ErrorToken, "abc\ndef", None, 2),
        Token::new(TokenType::Eof, "", None, 2),
    ];
    assert_eq!(tokens, result);
}

#[test]
fn two_char_operators_and_keywords() {
    let tokens = scan("!= == >= > = nil true false while x1");
    let kinds: Vec<TokenType> = tokens.iter().map(|t| t.token_type).collect();
    assert_eq!(
        kinds,
        vec![
            TokenType::BangEqual,
            TokenType::EqualEqual,
            TokenType::GreaterEqual,
            TokenType::Greater,
            TokenType::Equal,
            TokenType::Nil,
            TokenType::True,
            TokenType::False,
            TokenType::While,
            TokenType::Identifier,
            TokenType::Eof,
        ]
    );
    assert_eq!(tokens[9].lexeme, "x1");
}

#[test]
fn token_type_tables() {
    assert_eq!(TokenType::from_single_char('('), Some((TokenType::LeftParen, TokenKind::SingleChar)));
    assert_eq!(TokenType::from_single_char('<'), Some((TokenType::Less, TokenKind::OneOrTwoChar)));
    assert_eq!(TokenType::from_single_char('/'), Some((TokenType::Slash, TokenKind::SlashOrComment)));
    assert_eq!(TokenType::from_single_char('7'), Some((TokenType::Number, TokenKind::Rest)));
    assert_eq!(TokenType::from_single_char('a'), None);
    assert_eq!(TokenType::from_two_chars('<', '=', TokenType::Less), (TokenType::LessEqual, "<=".to_string(), 2));
    assert_eq!(TokenType::from_two_chars('<', '<', TokenType::Less), (TokenType::Less, "<".to_string(), 1));
    assert_eq!(TokenType::keyword("class"), Some(TokenType::Class));
    assert_eq!(TokenType::keyword("classy"), None);
    assert!(TokenType::is_comment('/', '/'));
    assert!(!TokenType::is_comment('/', '*'));
}
