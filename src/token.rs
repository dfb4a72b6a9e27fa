//! Tokens: the kinds, the literal values they may carry, and the fixed tables
//! that map characters and words to kinds.
use vstd::prelude::*;
use crate::text::{push_char, str_equal};

verus! {

#[derive(Debug, Clone, Copy, PartialEq, Eq, Structural)]
pub enum TokenType {
    // Slash or comment.
    Slash,
    // One or two characters.
    Bang,
    BangEqual,
    Equal,
    EqualEqual,
    Greater,
    GreaterEqual,
    Less,
    LessEqual,
    // Single character.
    LeftParen,
    RightParen,
    LeftBrace,
    RightBrace,
    Comma,
    Dot,
    Minus,
    Plus,
    Semicolon,
    Star,
    // Literals.
    Identifier,
    String,
    Number,
    // Keywords.
    And,
    Class,
    Else,
    False,
    Fun,
    For,
    If,
    Nil,
    Or,
    Print,
    Return,
    Super,
    This,
    True,
    Var,
    While,
    Eof,
    Skip,
    NewLine,
    ErrorToken,
}

/// How the scanner treats the character that starts a token.
#[derive(Debug, Clone, Copy, PartialEq, Eq, Structural)]
pub enum TokenKind {
    OneOrTwoChar,
    SingleChar,
    SlashOrComment,
    NoOp,
    Rest,
}

/// The value a literal token carries.
#[derive(Debug, PartialEq, Clone)]
pub enum Literal {
    /// The bit pattern of a single-precision float.
    Double(u32),
    String(String),
}

/// A literal, as values.
pub enum LiteralView {
    Double(u32),
    Str(Seq<char>),
}

impl View for Literal {
    type V = LiteralView;

    open spec fn view(&self) -> LiteralView {
        match self {
            Literal::Double(bits) => LiteralView::Double(*bits),
            Literal::String(s) => LiteralView::Str(s@),
        }
    }
}

#[derive(Debug, PartialEq, Clone)]
pub struct Token {
    pub token_type: TokenType,
    pub lexeme: String,
    pub literal: Option<Literal>,
    pub line: usize,
}

/// A token, as values.
pub struct TokenView {
    pub token_type: TokenType,
    pub lexeme: Seq<char>,
    pub literal: Option<LiteralView>,
    pub line: usize,
}

pub open spec fn literal_view(l: Option<Literal>) -> Option<LiteralView> {
    match l {
        Some(lit) => Some(lit@),
        None => None,
    }
}

impl View for Token {
    type V = TokenView;

    open spec fn view(&self) -> TokenView {
        TokenView {
            token_type: self.token_type,
            lexeme: self.lexeme@,
            literal: literal_view(self.literal),
            line: self.line,
        }
    }
}

/// The views of a sequence of tokens.
pub open spec fn tokens_view(tokens: Seq<Token>) -> Seq<TokenView> {
    tokens.map_values(|t: Token| t@)
}

impl Token {
    pub fn new(token_type: TokenType, lexeme: &str, literal: Option<Literal>, line: usize) -> (r: Self)
        ensures
            r.token_type == token_type,
            r.lexeme@ == lexeme@,
            r.literal == literal,
            r.line == line,
    {
        Token { token_type, lexeme: lexeme.to_string(), literal, line }
    }
}

/// The table of characters that start a token by themselves.
pub open spec fn spec_single_char(c: char) -> Option<(TokenType, TokenKind)> {
    match c {
        '(' => Some((TokenType::LeftParen, TokenKind::SingleChar)),
        ')' => Some((TokenType::RightParen, TokenKind::SingleChar)),
        '{' => Some((TokenType::LeftBrace, TokenKind::SingleChar)),
        '}' => Some((TokenType::RightBrace, TokenKind::SingleChar)),
        ',' => Some((TokenType::Comma, TokenKind::SingleChar)),
        '.' => Some((TokenType::Dot, TokenKind::SingleChar)),
        '-' => Some((TokenType::Minus, TokenKind::SingleChar)),
        '+' => Some((TokenType::Plus, TokenKind::SingleChar)),
        ';' => Some((TokenType::Semicolon, TokenKind::SingleChar)),
        '*' => Some((TokenType::Star, TokenKind::SingleChar)),
        '!' => Some((TokenType::Bang, TokenKind::OneOrTwoChar)),
        '=' => Some((TokenType::Equal, TokenKind::OneOrTwoChar)),
        '<' => Some((TokenType::Less, TokenKind::OneOrTwoChar)),
        '>' => Some((TokenType::Greater, TokenKind::OneOrTwoChar)),
        '/' => Some((TokenType::Slash, TokenKind::SlashOrComment)),
        ' ' => Some((TokenType::Skip, TokenKind::NoOp)),
        '\r' => Some((TokenType::Skip, TokenKind::NoOp)),
        '\t' => Some((TokenType::Skip, TokenKind::NoOp)),
        '\n' => Some((TokenType::NewLine, TokenKind::Rest)),
        '"' => Some((TokenType::String, TokenKind::Rest)),
        '0' ..= '9' => Some((TokenType::Number, TokenKind::Rest)),
        _ => None,
    }
}

/// The two-character operators.
pub open spec fn spec_two_chars(first: char, second: char) -> Option<TokenType> {
    if second != '=' {
        None
    } else {
        match first {
            '!' => Some(TokenType::BangEqual),
            '=' => Some(TokenType::EqualEqual),
            '<' => Some(TokenType::LessEqual),
            '>' => Some(TokenType::GreaterEqual),
            _ => None,
        }
    }
}

/// The reserved words.
pub open spec fn spec_keyword(s: Seq<char>) -> Option<TokenType> {
    if s == "and"@ {
        Some(TokenType::And)
    } else if s == "class"@ {
        Some(TokenType::Class)
    } else if s == "else"@ {
        Some(TokenType::Else)
    } else if s == "false"@ {
        Some(TokenType::False)
    } else if s == "for"@ {
        Some(TokenType::For)
    } else if s == "fun"@ {
        Some(TokenType::Fun)
    } else if s == "if"@ {
        Some(TokenType::If)
    } else if s == "nil"@ {
        Some(TokenType::Nil)
    } else if s == "or"@ {
        Some(TokenType::Or)
    } else if s == "print"@ {
        Some(TokenType::Print)
    } else if s == "return"@ {
        Some(TokenType::Return)
    } else if s == "super"@ {
        Some(TokenType::Super)
    } else if s == "this"@ {
        Some(TokenType::This)
    } else if s == "true"@ {
        Some(TokenType::True)
    } else if s == "var"@ {
        Some(TokenType::Var)
    } else if s == "while"@ {
        Some(TokenType::While)
    } else {
        None
    }
}

impl TokenType {
    /// Looks a character up in the table of token-starting characters.
    pub fn from_single_char(a_char: char) -> (r: Option<(TokenType, TokenKind)>)
        ensures
            r == spec_single_char(a_char),
    {
        match a_char {
            '(' => Some((TokenType::LeftParen, TokenKind::SingleChar)),
            ')' => Some((TokenType::RightParen, TokenKind::SingleChar)),
            '{' => Some((TokenType::LeftBrace, TokenKind::SingleChar)),
            '}' => Some((TokenType::RightBrace, TokenKind::SingleChar)),
            ',' => Some((TokenType::Comma, TokenKind::SingleChar)),
            '.' => Some((TokenType::Dot, TokenKind::SingleChar)),
            '-' => Some((TokenType::Minus, TokenKind::SingleChar)),
            '+' => Some((TokenType::Plus, TokenKind::SingleChar)),
            ';' => Some((TokenType::Semicolon, TokenKind::SingleChar)),
            '*' => Some((TokenType::Star, TokenKind::SingleChar)),
            '!' => Some((TokenType::Bang, TokenKind::OneOrTwoChar)),
            '=' => Some((TokenType::Equal, TokenKind::OneOrTwoChar)),
            '<' => Some((TokenType::Less, TokenKind::OneOrTwoChar)),
            '>' => Some((TokenType::Greater, TokenKind::OneOrTwoChar)),
            '/' => Some((TokenType::Slash, TokenKind::SlashOrComment)),
            ' ' | '\r' | '\t' => Some((TokenType::Skip, TokenKind::NoOp)),
            '\n' => Some((TokenType::NewLine, TokenKind::Rest)),
            '"' => Some((TokenType::String, TokenKind::Rest)),
            '0' ..= '9' => Some((TokenType::Number, TokenKind::Rest)),
            _ => None,
        }
    }

    /// The two-character operator that `first second` spells, with its
    /// lexeme and length 2; else `fallback`, the lexeme `first` and length 1.
    pub fn from_two_chars(first_char: char, second_char: char, fallback_token_type: TokenType) -> (r: (
        TokenType,
        String,
        usize,
    ))
        ensures
            spec_two_chars(first_char, second_char) matches Some(t) ==> r.0 == t && r.1@ == seq![
                first_char,
                second_char,
            ] && r.2 == 2,
            spec_two_chars(first_char, second_char) is None ==> r.0 == fallback_token_type
                && r.1@ == seq![first_char] && r.2 == 1,
    {
        let two = if second_char != '=' {
            None
        } else {
            match first_char {
                '!' => Some(TokenType::BangEqual),
                '=' => Some(TokenType::EqualEqual),
                '<' => Some(TokenType::LessEqual),
                '>' => Some(TokenType::GreaterEqual),
                _ => None,
            }
        };
        let mut as_str = String::new();
        push_char(&mut as_str, first_char);
        match two {
            Some(token_type) => {
                push_char(&mut as_str, second_char);
                (token_type, as_str, 2)
            },
            None => (fallback_token_type, as_str, 1),
        }
    }

    /// The keyword that `a_string` spells, if any.
    pub fn keyword(a_string: &str) -> (r: Option<TokenType>)
        ensures
            r == spec_keyword(a_string@),
    {
        if str_equal(a_string, "and") {
            Some(TokenType::And)
        } else if str_equal(a_string, "class") {
            Some(TokenType::Class)
        } else if str_equal(a_string, "else") {
            Some(TokenType::Else)
        } else if str_equal(a_string, "false") {
            Some(TokenType::False)
        } else if str_equal(a_string, "for") {
            Some(TokenType::For)
        } else if str_equal(a_string, "fun") {
            Some(TokenType::Fun)
        } else if str_equal(a_string, "if") {
            Some(TokenType::If)
        } else if str_equal(a_string, "nil") {
            Some(TokenType::Nil)
        } else if str_equal(a_string, "or") {
            Some(TokenType::Or)
        } else if str_equal(a_string, "print") {
            Some(TokenType::Print)
        } else if str_equal(a_string, "return") {
            Some(TokenType::Return)
        } else if str_equal(a_string, "super") {
            Some(TokenType::Super)
        } else if str_equal(a_string, "this") {
            Some(TokenType::This)
        } else if str_equal(a_string, "true") {
            Some(TokenType::True)
        } else if str_equal(a_string, "var") {
            Some(TokenType::Var)
        } else if str_equal(a_string, "while") {
            Some(TokenType::While)
        } else {
            None
        }
    }

    /// `//` starts a comment.
    pub fn is_comment(first_char: char, second_char: char) -> (r: bool)
        ensures
            r == (first_char == '/' && second_char == '/'),
    {
        first_char == '/' && second_char == '/'
    }
}

} // verus!
