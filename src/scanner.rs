//! The scanner: source text to tokens, ended by one `Eof` token.
//!
//! Characters that start no token become `ErrorToken`s, and scanning goes on,
//! so that every lexical error reaches the compiler.
use vstd::prelude::*;
use rustc_apfloat::Float;
use rustc_apfloat::ieee::Single;
use crate::errors::{ErrorKind, ReloxError};
use crate::text::{
    chars_of, is_alphabetic, is_alphanumeric, is_ascii_alphabetic, is_ascii_alphanumeric,
    is_ascii_digit, is_digit, string_of,
};
use crate::token::{
    Literal, LiteralView, Token, TokenKind, TokenType, TokenView, spec_keyword, spec_single_char,
    spec_two_chars, tokens_view,
};

verus! {

/// Number lexemes at least this long are left without a value.
pub const MAX_NUMBER_LEXEME: usize = 0x8000_0000;

/// The float that a decimal numeral denotes, as bits, or `None` where the
/// numeral is not accepted.
pub uninterp spec fn decimal_single(s: Seq<char>) -> Option<u32>;

/// Digits, then optionally a dot and digits: the shape of a number lexeme.
pub open spec fn is_numeral(s: Seq<char>) -> bool {
    &&& s.len() > 0
    &&& is_digit(s[0])
    &&& forall|i: int| 0 <= i < s.len() ==> is_digit(s[i]) || s[i] == '.'
}

/// Relies on `FromStr` for `rustc_apfloat::ieee::Single` (decimal parsing,
/// rounded to nearest even): its result depends on the text alone. On a
/// numeral shorter than 2^31 characters it does not panic.
#[verifier::external_body]
fn parse_single(s: &str) -> (r: Option<u32>)
    requires
        is_numeral(s@),
        s@.len() < MAX_NUMBER_LEXEME,
    ensures
        r == decimal_single(s@),
{
    match s.parse::<Single>() {
        Ok(x) => Some(x.to_bits() as u32),
        Err(_) => None,
    }
}

/// The end of the run of digits that starts at `i`.
pub open spec fn digits_end(s: Seq<char>, i: int) -> int
    decreases s.len() - i,
{
    if 0 <= i < s.len() && is_digit(s[i]) {
        digits_end(s, i + 1)
    } else {
        i
    }
}

/// The end of the run of letters and digits that starts at `i`.
pub open spec fn alnum_end(s: Seq<char>, i: int) -> int
    decreases s.len() - i,
{
    if 0 <= i < s.len() && is_alphanumeric(s[i]) {
        alnum_end(s, i + 1)
    } else {
        i
    }
}

/// The first index from `i` on that holds `c`, or the length.
pub open spec fn find_char(s: Seq<char>, i: int, c: char) -> int
    decreases s.len() - i,
{
    if i >= s.len() {
        s.len() as int
    } else if s[i] == c {
        i
    } else {
        find_char(s, i + 1, c)
    }
}

/// The number of newlines in `s[i..j]`.
pub open spec fn newlines_between(s: Seq<char>, i: int, j: int) -> int
    decreases j - i,
{
    if i >= j {
        0
    } else {
        newlines_between(s, i, j - 1) + if s[j - 1] == '\n' {
            1int
        } else {
            0int
        }
    }
}

/// The end of the number that starts at `pos`: digits, and a dot only where
/// a digit follows it.
pub open spec fn number_end(s: Seq<char>, pos: int) -> int {
    let d = digits_end(s, pos + 1);
    if d + 1 < s.len() && s[d] == '.' && is_digit(s[d + 1]) {
        digits_end(s, d + 1)
    } else {
        d
    }
}

/// The literal a number lexeme carries.
pub open spec fn number_literal(lexeme: Seq<char>) -> Option<LiteralView> {
    if lexeme.len() < MAX_NUMBER_LEXEME {
        match decimal_single(lexeme) {
            Some(bits) => Some(LiteralView::Double(bits)),
            None => None,
        }
    } else {
        None
    }
}

pub open spec fn token_view(
    token_type: TokenType,
    lexeme: Seq<char>,
    literal: Option<LiteralView>,
    line: int,
) -> TokenView {
    TokenView { token_type, lexeme, literal, line: line as usize }
}

/// What the scanner does at `pos`, on line `line`: the token it emits, if
/// any, the position after it, and the line after it.
pub open spec fn scan_step(s: Seq<char>, pos: int, line: int) -> (Option<TokenView>, int, int) {
    let c = s[pos];
    match spec_single_char(c) {
        Some((t, TokenKind::SingleChar)) => (
            Some(token_view(t, s.subrange(pos, pos + 1), None, line)),
            pos + 1,
            line,
        ),
        Some((t, TokenKind::OneOrTwoChar)) => {
            if pos + 1 < s.len() && spec_two_chars(c, s[pos + 1]) is Some {
                (
                    Some(
                        token_view(
                            spec_two_chars(c, s[pos + 1])->Some_0,
                            s.subrange(pos, pos + 2),
                            None,
                            line,
                        ),
                    ),
                    pos + 2,
                    line,
                )
            } else {
                (Some(token_view(t, s.subrange(pos, pos + 1), None, line)), pos + 1, line)
            }
        },
        Some((t, TokenKind::SlashOrComment)) => {
            if pos + 1 < s.len() && s[pos + 1] == '/' {
                let k = find_char(s, pos + 2, '\n');
                if k < s.len() {
                    (None, k + 1, line + 1)
                } else {
                    (None, s.len() as int, line)
                }
            } else {
                (Some(token_view(t, s.subrange(pos, pos + 1), None, line)), pos + 1, line)
            }
        },
        Some((TokenType::String, _)) => {
            let q = find_char(s, pos + 1, '"');
            let l = line + newlines_between(s, pos + 1, q);
            if q < s.len() {
                let text = s.subrange(pos + 1, q);
                (
                    Some(token_view(TokenType::String, text, Some(LiteralView::Str(text)), l)),
                    q + 1,
                    l,
                )
            } else {
                (
                    Some(token_view(TokenType::ErrorToken, s.subrange(pos + 1, q), None, l)),
                    q,
                    l,
                )
            }
        },
        Some((TokenType::NewLine, _)) => (None, pos + 1, line + 1),
        Some((TokenType::Number, _)) => {
            let lexeme = s.subrange(pos, number_end(s, pos));
            (
                Some(token_view(TokenType::Number, lexeme, number_literal(lexeme), line)),
                number_end(s, pos),
                line,
            )
        },
        Some(_) => (None, pos + 1, line),
        None => {
            if is_alphabetic(c) {
                let lexeme = s.subrange(pos, alnum_end(s, pos));
                let t = match spec_keyword(lexeme) {
                    Some(k) => k,
                    None => TokenType::Identifier,
                };
                (Some(token_view(t, lexeme, None, line)), alnum_end(s, pos), line)
            } else {
                (
                    Some(token_view(TokenType::ErrorToken, s.subrange(pos, pos + 1), None, line)),
                    pos + 1,
                    line,
                )
            }
        },
    }
}

pub open spec fn opt_seq(t: Option<TokenView>) -> Seq<TokenView> {
    match t {
        Some(t) => seq![t],
        None => Seq::empty(),
    }
}

/// The tokens of `s` from `pos` on, starting on line `line`.
pub open spec fn scan_from(s: Seq<char>, pos: int, line: int) -> Seq<TokenView>
    decreases s.len() - pos,
    via scan_from_decreases
{
    if pos < 0 || pos >= s.len() {
        seq![token_view(TokenType::Eof, Seq::empty(), None, line)]
    } else {
        let (t, next, l) = scan_step(s, pos, line);
        opt_seq(t) + scan_from(s, next, l)
    }
}

/// The tokens of a whole source text.
pub open spec fn scan_spec(s: Seq<char>) -> Seq<TokenView> {
    scan_from(s, 0, 1)
}

proof fn lemma_digits_end(s: Seq<char>, i: int)
    requires
        0 <= i,
    ensures
        i <= digits_end(s, i),
        digits_end(s, i) <= s.len() || digits_end(s, i) == i,
    decreases s.len() - i,
{
    if 0 <= i < s.len() && is_digit(s[i]) {
        lemma_digits_end(s, i + 1);
    }
}

proof fn lemma_alnum_end(s: Seq<char>, i: int)
    requires
        0 <= i,
    ensures
        i <= alnum_end(s, i),
        alnum_end(s, i) <= s.len() || alnum_end(s, i) == i,
    decreases s.len() - i,
{
    if 0 <= i < s.len() && is_alphanumeric(s[i]) {
        lemma_alnum_end(s, i + 1);
    }
}

proof fn lemma_find_char(s: Seq<char>, i: int, c: char)
    requires
        0 <= i,
    ensures
        i <= find_char(s, i, c) || (i > s.len() && find_char(s, i, c) == s.len()),
        find_char(s, i, c) <= s.len(),
    decreases s.len() - i,
{
    if i < s.len() && s[i] != c {
        lemma_find_char(s, i + 1, c);
    }
}

/// Every step moves forward, and stays within the text.
pub proof fn lemma_scan_step(s: Seq<char>, pos: int, line: int)
    requires
        0 <= pos < s.len(),
    ensures
        pos < scan_step(s, pos, line).1 <= s.len(),
{
    lemma_digits_end(s, pos + 1);
    lemma_alnum_end(s, pos + 1);
    lemma_find_char(s, pos + 1, '"');
    lemma_find_char(s, pos + 2, '\n');
    let d = digits_end(s, pos + 1);
    lemma_digits_end(s, d + 1);
}

proof fn lemma_scan_from_ends_with_eof(s: Seq<char>, pos: int, line: int)
    ensures
        scan_from(s, pos, line).len() >= 1,
        scan_from(s, pos, line).last().token_type == TokenType::Eof,
        forall|i: int|
            0 <= i < scan_from(s, pos, line).len() - 1 ==> #[trigger] scan_from(
                s,
                pos,
                line,
            )[i].token_type != TokenType::Eof,
    decreases s.len() - pos,
{
    if 0 <= pos < s.len() {
        let (t, next, l) = scan_step(s, pos, line);
        lemma_scan_step(s, pos, line);
        lemma_scan_from_ends_with_eof(s, next, l);
        let rest = scan_from(s, next, l);
        assert(scan_from(s, pos, line) == opt_seq(t) + rest);
        assert forall|i: int| 0 <= i < scan_from(s, pos, line).len() - 1 implies #[trigger] scan_from(
            s,
            pos,
            line,
        )[i].token_type != TokenType::Eof by {
            if t is Some && i == 0 {
            } else {
                let j = if t is Some { i - 1 } else { i };
                assert(scan_from(s, pos, line)[i] == rest[j]);
            }
        }
    }
}

/// The tokens of any source end with one `Eof` token, and hold no other.
pub proof fn lemma_scan_ends_with_eof(s: Seq<char>)
    ensures
        scan_spec(s).len() >= 1,
        scan_spec(s).last().token_type == TokenType::Eof,
        forall|i: int| 0 <= i < scan_spec(s).len() - 1 ==> #[trigger] scan_spec(s)[i].token_type
            != TokenType::Eof,
{
    lemma_scan_from_ends_with_eof(s, 0, 1);
}

#[via_fn]
proof fn scan_from_decreases(s: Seq<char>, pos: int, line: int) {
    if 0 <= pos < s.len() {
        lemma_scan_step(s, pos, line);
    }
}


/// Turns source text into tokens.
#[derive(Debug)]
pub struct Scanner {
    line: usize,
    start: usize,
    current_index: usize,
    source_chars: Vec<char>,
    tokens: Vec<Token>,
}

impl Scanner {
    /// The characters being scanned.
    pub closed spec fn source(&self) -> Seq<char> {
        self.source_chars@
    }

    /// The position of the next character to scan.
    pub closed spec fn pos(&self) -> int {
        self.current_index as int
    }

    pub closed spec fn line(&self) -> int {
        self.line as int
    }

    /// The tokens emitted so far.
    pub closed spec fn tokens(&self) -> Seq<Token> {
        self.tokens@
    }

    pub closed spec fn wf(&self) -> bool {
        &&& self.current_index <= self.source_chars@.len()
        &&& self.line <= self.current_index + 1
        &&& self.source_chars@.len() < usize::MAX
    }

    /// `self` is `old` after one `scan_step`.
    pub open spec fn stepped_from(&self, old: Scanner) -> bool {
        let (t, next, l) = scan_step(old.source(), old.pos(), old.line());
        &&& self.wf()
        &&& self.source() == old.source()
        &&& tokens_view(self.tokens()) == tokens_view(old.tokens()) + opt_seq(t)
        &&& self.pos() == next
        &&& self.line() == l
    }

    pub fn run_with(source: String) -> (r: Result<Vec<Token>, ReloxError>)
        requires
            source@.len() < usize::MAX,
        ensures
            r matches Ok(tokens) && tokens_view(tokens@) == scan_spec(source@),
    {
        Self::new(source).scan_tokens()
    }

    pub fn new(source: String) -> (r: Self)
        requires
            source@.len() < usize::MAX,
        ensures
            r.wf(),
            r.source() == source@,
            r.pos() == 0,
            r.line() == 1,
            r.tokens() == Seq::<Token>::empty(),
    {
        let source_chars = chars_of(source.as_str());
        Scanner { tokens: Vec::new(), source_chars, line: 1, current_index: 0, start: 0 }
    }

    /// Scans the rest of the source and hands the tokens over.
    pub fn scan_tokens(self) -> (r: Result<Vec<Token>, ReloxError>)
        requires
            self.wf(),
        ensures
            r matches Ok(tokens) && tokens_view(tokens@) == tokens_view(self.tokens()) + scan_from(
                self.source(),
                self.pos(),
                self.line(),
            ),
    {
        let mut scanner = self;
        scanner.run_scan()?;
        Ok(scanner.tokens)
    }

    fn push_token(&mut self, token: Token)
        ensures
            final(self).tokens() == old(self).tokens().push(token),
            final(self).source() == old(self).source(),
            final(self).pos() == old(self).pos(),
            final(self).line() == old(self).line(),
            final(self).wf() == old(self).wf(),
            tokens_view(final(self).tokens()) == tokens_view(old(self).tokens()) + seq![token@],
    {
        self.tokens.push(token);
        assert(tokens_view(self.tokens@) =~= tokens_view(old(self).tokens@) + seq![token@]);
    }

    fn run_scan(&mut self) -> (r: Result<(), ReloxError>)
        requires
            old(self).wf(),
        ensures
            r is Ok,
            final(self).wf(),
            tokens_view(final(self).tokens()) == tokens_view(old(self).tokens()) + scan_from(
                old(self).source(),
                old(self).pos(),
                old(self).line(),
            ),
    {
        let n = self.source_chars.len();
        while self.current_index < n
            invariant
                self.wf(),
                n == self.source().len(),
                self.source() == old(self).source(),
                tokens_view(self.tokens()) + scan_from(self.source(), self.pos(), self.line())
                    == tokens_view(old(self).tokens()) + scan_from(
                    old(self).source(),
                    old(self).pos(),
                    old(self).line(),
                ),
            decreases n - self.current_index,
        {
            let ghost before = *self;
            self.start = self.current_index;
            let source_char = self.source_chars[self.current_index];
            match TokenType::from_single_char(source_char) {
                Some((token_type, TokenKind::SingleChar)) => self.add_token(token_type),
                Some((token_type, TokenKind::OneOrTwoChar)) => self.handle_one_or_two(token_type),
                Some((token_type, TokenKind::SlashOrComment)) => {
                    self.handle_slash_or_comment(token_type)
                },
                Some((TokenType::String, _)) => self.handle_string(),
                Some((TokenType::Skip, _)) => {
                    self.current_index = self.current_index + 1;
                },
                Some((TokenType::NewLine, _)) => {
                    self.line = self.line + 1;
                    self.current_index = self.current_index + 1;
                },
                Some((TokenType::Number, _)) => self.handle_number(),
                Some(_) => {
                    return Err(
                        ReloxError::new_compile_error(
                            self.line,
                            "Unexpected token".to_string(),
                            None,
                            ErrorKind::LexError,
                        ),
                    );
                },
                None => {
                    if is_ascii_alphabetic(source_char) {
                        self.handle_keyword_or_identifier();
                    } else {
                        self.add_error_token();
                    }
                },
            }
            proof {
                assert(self.stepped_from(before));
                lemma_scan_step(before.source(), before.pos(), before.line());
                let (t, next, l) = scan_step(before.source(), before.pos(), before.line());
                assert(scan_from(before.source(), before.pos(), before.line()) == opt_seq(t)
                    + scan_from(before.source(), next, l));
                assert(tokens_view(self.tokens()) + scan_from(self.source(), self.pos(), self.line())
                    =~= tokens_view(before.tokens()) + scan_from(before.source(), before.pos(), before.line()));
            }
        }
        let eof = Token { token_type: TokenType::Eof, lexeme: String::new(), literal: None, line: self.line };
        self.push_token(eof);
        proof {
            assert(scan_from(self.source(), self.pos(), self.line()) =~= seq![eof@]);
        }
        Ok(())
    }

    /// A token of one character.
    fn add_token(&mut self, token_type: TokenType)
        requires
            old(self).wf(),
            old(self).pos() < old(self).source().len(),
            spec_single_char(old(self).source()[old(self).pos()]) == Some(
                (token_type, TokenKind::SingleChar),
            ),
        ensures
            final(self).stepped_from(*old(self)),
    {
        let pos = self.current_index;
        let lexeme = string_of(&self.source_chars, pos, pos + 1);
        let token = Token { token_type, lexeme, literal: None, line: self.line };
        self.push_token(token);
        self.current_index = pos + 1;
    }

    /// An unrecognised character: an error token carrying it.
    fn add_error_token(&mut self)
        requires
            old(self).wf(),
            old(self).pos() < old(self).source().len(),
            spec_single_char(old(self).source()[old(self).pos()]) is None,
            !is_alphabetic(old(self).source()[old(self).pos()]),
        ensures
            final(self).stepped_from(*old(self)),
    {
        let pos = self.current_index;
        let lexeme = string_of(&self.source_chars, pos, pos + 1);
        let token = Token { token_type: TokenType::ErrorToken, lexeme, literal: None, line: self.line };
        self.push_token(token);
        self.current_index = pos + 1;
    }

    /// `!`, `=`, `<` or `>`, alone or followed by `=`.
    fn handle_one_or_two(&mut self, token_type: TokenType)
        requires
            old(self).wf(),
            old(self).pos() < old(self).source().len(),
            spec_single_char(old(self).source()[old(self).pos()]) == Some(
                (token_type, TokenKind::OneOrTwoChar),
            ),
        ensures
            final(self).stepped_from(*old(self)),
    {
        let pos = self.current_index;
        let n = self.source_chars.len();
        if pos + 1 < n {
            let first = self.source_chars[pos];
            let second = self.source_chars[pos + 1];
            let (the_type, lexeme, lexeme_length) = TokenType::from_two_chars(first, second, token_type);
            assert(lexeme_length == 2 ==> lexeme@ =~= self.source_chars@.subrange(pos as int, pos + 2));
            assert(lexeme_length == 1 ==> lexeme@ =~= self.source_chars@.subrange(pos as int, pos + 1));
            let token = Token { token_type: the_type, lexeme, literal: None, line: self.line };
            self.push_token(token);
            self.current_index = pos + lexeme_length;
        } else {
            self.add_token_unchecked(token_type);
        }
    }

    /// A token of the one character at the cursor, whatever its class.
    fn add_token_unchecked(&mut self, token_type: TokenType)
        requires
            old(self).wf(),
            old(self).pos() < old(self).source().len(),
        ensures
            final(self).wf(),
            final(self).source() == old(self).source(),
            tokens_view(final(self).tokens()) == tokens_view(old(self).tokens()) + seq![
                token_view(
                    token_type,
                    old(self).source().subrange(old(self).pos(), old(self).pos() + 1),
                    None,
                    old(self).line(),
                ),
            ],
            final(self).pos() == old(self).pos() + 1,
            final(self).line() == old(self).line(),
    {
        let pos = self.current_index;
        let lexeme = string_of(&self.source_chars, pos, pos + 1);
        let token = Token { token_type, lexeme, literal: None, line: self.line };
        self.push_token(token);
        self.current_index = pos + 1;
    }

    /// `/` alone, or a comment up to the end of the line.
    fn handle_slash_or_comment(&mut self, token_type: TokenType)
        requires
            old(self).wf(),
            old(self).pos() < old(self).source().len(),
            spec_single_char(old(self).source()[old(self).pos()]) == Some(
                (token_type, TokenKind::SlashOrComment),
            ),
        ensures
            final(self).stepped_from(*old(self)),
    {
        let pos = self.current_index;
        let n = self.source_chars.len();
        if pos + 1 < n && TokenType::is_comment(self.source_chars[pos], self.source_chars[pos + 1]) {
            self.handle_comment();
        } else {
            self.add_token_unchecked(token_type);
        }
    }

    /// Skips a comment, and the newline that ends it.
    fn handle_comment(&mut self)
        requires
            old(self).wf(),
            old(self).pos() + 1 < old(self).source().len(),
            old(self).source()[old(self).pos()] == '/',
            old(self).source()[old(self).pos() + 1] == '/',
        ensures
            final(self).stepped_from(*old(self)),
    {
        let ghost s = self.source();
        let pos = self.current_index;
        let n = self.source_chars.len();
        let mut i = pos + 2;
        while i < n && self.source_chars[i] != '\n'
            invariant
                pos + 2 <= i <= n,
                n == s.len(),
                s == self.source_chars@,
                find_char(s, i as int, '\n') == find_char(s, pos + 2, '\n'),
            decreases n - i,
        {
            i = i + 1;
        }
        if i < n {
            self.line = self.line + 1;
            self.current_index = i + 1;
        } else {
            self.current_index = n;
        }
        assert(tokens_view(self.tokens()) =~= tokens_view(old(self).tokens()) + opt_seq(None));
    }

    /// A string literal, or an error token where the closing quote is missing.
    fn handle_string(&mut self)
        requires
            old(self).wf(),
            old(self).pos() < old(self).source().len(),
            old(self).source()[old(self).pos()] == '"',
        ensures
            final(self).stepped_from(*old(self)),
    {
        let ghost s = self.source();
        let ghost line0 = self.line();
        let pos = self.current_index;
        let n = self.source_chars.len();
        let mut i = pos + 1;
        while i < n && self.source_chars[i] != '"'
            invariant
                pos + 1 <= i <= n,
                n == s.len(),
                n < usize::MAX,
                s == self.source_chars@,
                self.source_chars@ == old(self).source_chars@,
                self.tokens@ == old(self).tokens@,
                self.current_index == pos,
                find_char(s, i as int, '"') == find_char(s, pos + 1, '"'),
                self.line == line0 + newlines_between(s, pos + 1, i as int),
                self.line <= i,
            decreases n - i,
        {
            if self.source_chars[i] == '\n' {
                self.line = self.line + 1;
            }
            i = i + 1;
        }
        let text = string_of(&self.source_chars, pos + 1, i);
        if i < n {
            let literal_text = text.clone();
            let token = Token {
                token_type: TokenType::String,
                lexeme: text,
                literal: Some(Literal::String(literal_text)),
                line: self.line,
            };
            self.push_token(token);
            self.current_index = i + 1;
        } else {
            let token = Token { token_type: TokenType::ErrorToken, lexeme: text, literal: None, line: self.line };
            self.push_token(token);
            self.current_index = n;
        }
    }

    /// A number: digits, then a dot and digits where a digit follows the dot.
    fn handle_number(&mut self)
        requires
            old(self).wf(),
            old(self).pos() < old(self).source().len(),
            is_digit(old(self).source()[old(self).pos()]),
        ensures
            final(self).stepped_from(*old(self)),
    {
        let ghost s = self.source();
        let pos = self.current_index;
        let n = self.source_chars.len();
        let mut i = pos + 1;
        while i < n && is_ascii_digit(self.source_chars[i])
            invariant
                pos + 1 <= i <= n,
                n == s.len(),
                s == self.source_chars@,
                digits_end(s, i as int) == digits_end(s, pos + 1),
                forall|k: int| pos <= k < i ==> is_digit(s[k]),
            decreases n - i,
        {
            i = i + 1;
        }
        let ghost d = i as int;
        if i + 1 < n && self.source_chars[i] == '.' && is_ascii_digit(self.source_chars[i + 1]) {
            i = i + 1;
            while i < n && is_ascii_digit(self.source_chars[i])
                invariant
                    d + 1 <= i <= n,
                    n == s.len(),
                    s == self.source_chars@,
                    digits_end(s, i as int) == digits_end(s, d + 1),
                    forall|k: int| pos <= k < i ==> is_digit(s[k]) || s[k] == '.',
                decreases n - i,
            {
                i = i + 1;
            }
        }
        assert(i == number_end(s, pos as int));
        let lexeme = string_of(&self.source_chars, pos, i);
        let literal = if i - pos < MAX_NUMBER_LEXEME {
            match parse_single(lexeme.as_str()) {
                Some(bits) => Some(Literal::Double(bits)),
                None => None,
            }
        } else {
            None
        };
        let token = Token { token_type: TokenType::Number, lexeme, literal, line: self.line };
        self.push_token(token);
        self.current_index = i;
    }

    /// A keyword, or else an identifier.
    fn handle_keyword_or_identifier(&mut self)
        requires
            old(self).wf(),
            old(self).pos() < old(self).source().len(),
            spec_single_char(old(self).source()[old(self).pos()]) is None,
            is_alphabetic(old(self).source()[old(self).pos()]),
        ensures
            final(self).stepped_from(*old(self)),
    {
        let ghost s = self.source();
        let pos = self.current_index;
        let n = self.source_chars.len();
        let mut i = pos;
        while i < n && is_ascii_alphanumeric(self.source_chars[i])
            invariant
                pos <= i <= n,
                n == s.len(),
                s == self.source_chars@,
                alnum_end(s, i as int) == alnum_end(s, pos as int),
            decreases n - i,
        {
            i = i + 1;
        }
        let lexeme = string_of(&self.source_chars, pos, i);
        let token_type = match TokenType::keyword(lexeme.as_str()) {
            Some(keyword_type) => keyword_type,
            None => TokenType::Identifier,
        };
        let token = Token { token_type, lexeme, literal: None, line: self.line };
        self.push_token(token);
        self.current_index = i;
    }
}

} // verus!
