//! The single-pass compiler: precedence climbing over the tokens, emitting
//! bytecode as it goes, with no syntax tree built at run time.
//!
//! Its contracts are stated over `parse_prec`, a precedence-climbing parse of
//! the token views into an `Expr` tree, and `expr_code`, the code of a tree.
use vstd::prelude::*;
use crate::chunk::{CONSTANT_POOL_MAX, Chunk, ChunkView, OpCode};
use crate::errors::{ErrorKind, ReloxError};
use crate::token::{Literal, LiteralView, Token, TokenType, TokenView, tokens_view};
use crate::value::{ArithOp, Value};

verus! {

#[derive(Debug, Clone, Copy, PartialEq, Eq, Structural)]
pub enum Precedence {
    Lowest,
    Assignment,
    Or,
    And,
    Equality,
    Comparison,
    Term,
    Factor,
    Unary,
    Call,
    Primary,
}

/// The precedence class of a token when it stands as an infix operator.
pub open spec fn precedence_of(t: TokenType) -> Precedence {
    match t {
        TokenType::Slash => Precedence::Factor,
        TokenType::Star => Precedence::Factor,
        TokenType::Minus => Precedence::Term,
        TokenType::Plus => Precedence::Term,
        _ => Precedence::Lowest,
    }
}

/// The rank of a precedence class, from 1 (`Lowest`) to 11 (`Primary`).
pub open spec fn rank(p: Precedence) -> u8 {
    match p {
        Precedence::Lowest => 1,
        Precedence::Assignment => 2,
        Precedence::Or => 3,
        Precedence::And => 4,
        Precedence::Equality => 5,
        Precedence::Comparison => 6,
        Precedence::Term => 7,
        Precedence::Factor => 8,
        Precedence::Unary => 9,
        Precedence::Call => 10,
        Precedence::Primary => 11,
    }
}

impl Precedence {
    pub fn new(token_type: TokenType) -> (r: Self)
        ensures
            r == precedence_of(token_type),
    {
        match token_type {
            TokenType::Slash => Precedence::Factor,
            TokenType::Star => Precedence::Factor,
            TokenType::Minus => Precedence::Term,
            TokenType::Plus => Precedence::Term,
            _ => Precedence::Lowest,
        }
    }

    pub fn to_number(&self) -> (r: u8)
        ensures
            r == rank(*self),
    {
        match self {
            Precedence::Lowest => 1,
            Precedence::Assignment => 2,
            Precedence::Or => 3,
            Precedence::And => 4,
            Precedence::Equality => 5,
            Precedence::Comparison => 6,
            Precedence::Term => 7,
            Precedence::Factor => 8,
            Precedence::Unary => 9,
            Precedence::Call => 10,
            Precedence::Primary => 11,
        }
    }
}

/// An expression tree, each node with the line its instruction is stamped with.
pub enum Expr {
    Number { bits: u32, line: u16 },
    Nil { line: u16 },
    Bool { value: bool, line: u16 },
    Negate { operand: Box<Expr>, line: u16 },
    Binary { op: ArithOp, left: Box<Expr>, right: Box<Expr>, line: u16 },
}

/// The operator of an infix operator token.
pub open spec fn binary_arith(t: TokenType) -> ArithOp {
    match t {
        TokenType::Plus => ArithOp::Add,
        TokenType::Minus => ArithOp::Subtract,
        TokenType::Star => ArithOp::Multiply,
        _ => ArithOp::Divide,
    }
}

/// The instruction of an arithmetic operator.
pub open spec fn arith_opcode(op: ArithOp) -> OpCode {
    match op {
        ArithOp::Add => OpCode::Add,
        ArithOp::Subtract => OpCode::Substract,
        ArithOp::Multiply => OpCode::Multiply,
        ArithOp::Divide => OpCode::Divide,
    }
}

/// The opcode of the infix operator token `t`.
pub open spec fn binary_opcode(t: TokenType) -> OpCode {
    arith_opcode(binary_arith(t))
}

/// The tree of a literal keyword.
pub open spec fn literal_expr(t: TokenType, line: u16) -> Expr {
    match t {
        TokenType::Nil => Expr::Nil { line },
        TokenType::True => Expr::Bool { value: true, line },
        _ => Expr::Bool { value: false, line },
    }
}

/// The constants of an expression, in the order its code pools them.
pub open spec fn expr_consts(e: Expr) -> Seq<Value>
    decreases e,
{
    match e {
        Expr::Number { bits, .. } => seq![Value::Number(bits)],
        Expr::Nil { .. } => Seq::empty(),
        Expr::Bool { .. } => Seq::empty(),
        Expr::Negate { operand, .. } => expr_consts(*operand),
        Expr::Binary { left, right, .. } => expr_consts(*left) + expr_consts(*right),
    }
}

/// The code of an expression whose first constant sits at `base` in the pool.
pub open spec fn expr_code(e: Expr, base: int) -> Seq<OpCode>
    decreases e,
{
    match e {
        Expr::Number { .. } => seq![OpCode::Constant { constant_offset: base as u8 }],
        Expr::Nil { .. } => seq![OpCode::Nil],
        Expr::Bool { value, .. } => seq![if value { OpCode::True } else { OpCode::False }],
        Expr::Negate { operand, .. } => expr_code(*operand, base).push(OpCode::Negate),
        Expr::Binary { op, left, right, .. } => (expr_code(*left, base) + expr_code(
            *right,
            base + expr_consts(*left).len(),
        )).push(arith_opcode(op)),
    }
}

/// The line of each instruction of `expr_code(e, _)`.
pub open spec fn expr_lines(e: Expr) -> Seq<u16>
    decreases e,
{
    match e {
        Expr::Number { line, .. } => seq![line],
        Expr::Nil { line } => seq![line],
        Expr::Bool { line, .. } => seq![line],
        Expr::Negate { operand, line } => expr_lines(*operand).push(line),
        Expr::Binary { left, right, line, .. } => (expr_lines(*left) + expr_lines(*right)).push(
            line,
        ),
    }
}

/// `c` with the code and constants of `e` appended.
pub open spec fn extend(c: ChunkView, e: Expr) -> ChunkView {
    ChunkView {
        code: c.code + expr_code(e, c.constants.len() as int),
        lines: c.lines + expr_lines(e),
        constants: c.constants + expr_consts(e),
    }
}

/// The constants of `e` fit in the pool after those of `c`.
pub open spec fn fits(c: ChunkView, e: Expr) -> bool {
    c.constants.len() + expr_consts(e).len() <= CONSTANT_POOL_MAX
}

/// The line of the token before `pos`, as the compiler stamps it.
pub open spec fn line_before(t: Seq<TokenView>, pos: int) -> u16 {
    t[pos - 1].line as u16
}

/// Parses an expression whose first token is at `pos`, taking infix operators
/// of rank `prec` or more: the tree and the position after it.
pub open spec fn parse_prec(t: Seq<TokenView>, pos: int, prec: int) -> Option<(Expr, int)>
    decreases t.len() - pos, 0int,
{
    if !(0 <= pos < t.len()) || t[pos].token_type == TokenType::ErrorToken {
        None
    } else {
        match parse_prefix(t, pos + 1) {
            Some((lhs, p)) => {
                if pos < p <= t.len() {
                    parse_infix(t, p, prec, lhs)
                } else {
                    None
                }
            },
            None => None,
        }
    }
}

/// The prefix rule for the token before `pos`.
pub open spec fn parse_prefix(t: Seq<TokenView>, pos: int) -> Option<(Expr, int)>
    decreases t.len() - pos, 2int,
{
    if !(1 <= pos <= t.len()) {
        None
    } else {
        match t[pos - 1].token_type {
            TokenType::LeftParen => match parse_prec(t, pos, 2) {
                Some((e, p)) => {
                    if 0 <= p < t.len() && t[p].token_type == TokenType::RightParen {
                        Some((e, p + 1))
                    } else {
                        None
                    }
                },
                None => None,
            },
            TokenType::Minus => match parse_prec(t, pos, 9) {
                Some((e, p)) => Some(
                    (Expr::Negate { operand: Box::new(e), line: line_before(t, p) }, p),
                ),
                None => None,
            },
            TokenType::Number => match t[pos - 1].literal {
                Some(LiteralView::Double(bits)) => Some(
                    (Expr::Number { bits, line: line_before(t, pos) }, pos),
                ),
                _ => None,
            },
            TokenType::Nil | TokenType::True | TokenType::False => Some(
                (literal_expr(t[pos - 1].token_type, line_before(t, pos)), pos),
            ),
            _ => None,
        }
    }
}

/// Extends `lhs` with the infix operators from `pos` on whose rank is at
/// least `prec`; each right operand is parsed at its operator's rank plus
/// one, so operators of one rank associate to the left.
pub open spec fn parse_infix(t: Seq<TokenView>, pos: int, prec: int, lhs: Expr) -> Option<
    (Expr, int),
>
    decreases t.len() - pos, 1int,
{
    if !(0 <= pos < t.len()) {
        None
    } else if prec <= rank(precedence_of(t[pos].token_type)) {
        let op = t[pos].token_type;
        match parse_prec(t, pos + 1, rank(precedence_of(op)) + 1) {
            Some((rhs, p)) => {
                if pos < p <= t.len() {
                    parse_infix(
                        t,
                        p,
                        prec,
                        Expr::Binary {
                            op: binary_arith(op),
                            left: Box::new(lhs),
                            right: Box::new(rhs),
                            line: line_before(t, p),
                        },
                    )
                } else {
                    None
                }
            },
            None => None,
        }
    } else {
        Some((lhs, pos))
    }
}

/// The whole token sequence as one expression, ended by `Eof`: the tree and
/// the position of the `Eof`.
pub open spec fn parse_program(t: Seq<TokenView>) -> Option<(Expr, int)> {
    match parse_prec(t, 0, 2) {
        Some((e, p)) => {
            if 0 <= p < t.len() && t[p].token_type == TokenType::Eof {
                Some((e, p))
            } else {
                None
            }
        },
        None => None,
    }
}

/// The chunk compiled from `t`, or `None` where compilation fails.
pub open spec fn compile_spec(t: Seq<TokenView>) -> Option<ChunkView> {
    match parse_program(t) {
        Some((e, p)) => {
            if expr_consts(e).len() <= CONSTANT_POOL_MAX {
                Some(
                    ChunkView {
                        code: expr_code(e, 0).push(OpCode::Return),
                        lines: expr_lines(e).push(t[p].line as u16),
                        constants: expr_consts(e),
                    },
                )
            } else {
                None
            }
        },
        None => None,
    }
}


/// `c` with the code of `e` appended, then one more instruction.
pub open spec fn extend_op(c: ChunkView, e: Expr, op: OpCode, line: u16) -> ChunkView {
    let d = extend(c, e);
    ChunkView { code: d.code.push(op), lines: d.lines.push(line), constants: d.constants }
}

proof fn lemma_extend_binary(c: ChunkView, l: Expr, r: Expr, op: ArithOp, line: u16)
    ensures
        extend(c, Expr::Binary { op, left: Box::new(l), right: Box::new(r), line }) == extend_op(
            extend(c, l),
            r,
            arith_opcode(op),
            line,
        ),
{
    let b = Expr::Binary { op, left: Box::new(l), right: Box::new(r), line };
    assert(extend(c, b).code =~= extend_op(extend(c, l), r, arith_opcode(op), line).code);
    assert(extend(c, b).lines =~= extend_op(extend(c, l), r, arith_opcode(op), line).lines);
    assert(extend(c, b).constants =~= extend_op(extend(c, l), r, arith_opcode(op), line).constants);
}

proof fn lemma_extend_negate(c: ChunkView, e: Expr, line: u16)
    ensures
        extend(c, Expr::Negate { operand: Box::new(e), line }) == extend_op(
            c,
            e,
            OpCode::Negate,
            line,
        ),
{
    let n = Expr::Negate { operand: Box::new(e), line };
    assert(extend(c, n).code =~= extend_op(c, e, OpCode::Negate, line).code);
    assert(extend(c, n).lines =~= extend_op(c, e, OpCode::Negate, line).lines);
}

/// Infix parsing only adds constants to what its left operand has.
proof fn lemma_infix_consts(t: Seq<TokenView>, pos: int, prec: int, lhs: Expr)
    requires
        parse_infix(t, pos, prec, lhs) is Some,
    ensures
        expr_consts(lhs).len() <= expr_consts(parse_infix(t, pos, prec, lhs)->Some_0.0).len(),
    decreases t.len() - pos,
{
    if 0 <= pos < t.len() && prec <= rank(precedence_of(t[pos].token_type)) {
        let op = t[pos].token_type;
        let (rhs, p) = parse_prec(t, pos + 1, rank(precedence_of(op)) + 1)->Some_0;
        let b = Expr::Binary {
            op: binary_arith(op),
            left: Box::new(lhs),
            right: Box::new(rhs),
            line: line_before(t, p),
        };
        lemma_infix_consts(t, p, prec, b);
    }
}

/// The compiler's state: the tokens, a cursor into them, the chunk being
/// filled, and the error bookkeeping of panic mode.
#[derive(Debug)]
pub struct Compiler {
    chunk: Chunk,
    tokens: Vec<Token>,
    cursor: usize,
    had_error: bool,
    panic_mode: bool,
    first_error: Option<ReloxError>,
}

/// After a parsing function ran from `before` to `after` and returned `ok`:
/// where no error was pending, it succeeded without error exactly when the
/// parse `res` exists and its constants fit, and then it moved past the parse
/// and appended its code.
pub open spec fn compiled(before: Compiler, after: Compiler, ok: bool, res: Option<(Expr, int)>) -> bool {
    &&& after.wf()
    &&& after.toks() == before.toks()
    &&& before.had_error() ==> after.had_error()
    &&& after.pos() >= before.pos()
    &&& !before.had_error() ==> ((ok && !after.had_error()) <==> (res is Some && fits(
        before.chunk_view(),
        res->Some_0.0,
    )))
    &&& (!before.had_error() && ok && !after.had_error()) ==> after.pos() == res->Some_0.1
        && after.chunk_view() == extend(before.chunk_view(), res->Some_0.0)
}

/// After an infix operator's handler ran: as `compiled`, where the operator
/// `op` follows the right operand `res`.
pub open spec fn compiled_infix(
    before: Compiler,
    after: Compiler,
    ok: bool,
    res: Option<(Expr, int)>,
    op: OpCode,
) -> bool {
    &&& after.wf()
    &&& after.toks() == before.toks()
    &&& before.had_error() ==> after.had_error()
    &&& after.pos() >= before.pos()
    &&& ok ==> after.pos() > before.pos()
    &&& !before.had_error() ==> ((ok && !after.had_error()) <==> (res is Some && fits(
        before.chunk_view(),
        res->Some_0.0,
    )))
    &&& (!before.had_error() && ok && !after.had_error()) ==> after.pos() == res->Some_0.1
        && after.chunk_view() == extend_op(
        before.chunk_view(),
        res->Some_0.0,
        op,
        line_before(before.toks(), res->Some_0.1),
    )
}

/// The operators with an infix rule.
pub open spec fn is_infix_operator(t: TokenType) -> bool {
    t == TokenType::Plus || t == TokenType::Minus || t == TokenType::Star || t == TokenType::Slash
}

impl Compiler {
    /// The tokens, as values.
    pub closed spec fn toks(&self) -> Seq<TokenView> {
        tokens_view(self.tokens@)
    }

    /// The index of the current token.
    pub closed spec fn pos(&self) -> int {
        self.cursor as int
    }

    /// Some error has been found and recorded.
    pub closed spec fn had_error(&self) -> bool {
        self.had_error
    }

    pub closed spec fn chunk_view(&self) -> ChunkView {
        self.chunk@
    }

    pub closed spec fn wf(&self) -> bool {
        &&& self.cursor <= self.tokens@.len()
        &&& self.chunk.wf()
        &&& self.had_error == self.first_error is Some
        &&& self.panic_mode ==> self.had_error
        &&& self.first_error matches Some(e) ==> e is CompilationError
    }

    proof fn lemma_toks(&self)
        ensures
            self.toks().len() == self.tokens@.len(),
            forall|i: int| 0 <= i < self.tokens@.len() ==> #[trigger] self.toks()[i] == self.tokens@[i]@,
    {
    }

    /// Compiles `tokens` into a chunk.
    pub fn run_with(tokens: Vec<Token>) -> (r: Result<Chunk, ReloxError>)
        ensures
            r is Ok <==> compile_spec(tokens_view(tokens@)) is Some,
            r matches Ok(c) ==> c@ == compile_spec(tokens_view(tokens@))->Some_0,
            r matches Err(e) ==> e is CompilationError || e is FatalError,
    {
        Self::new(tokens).compile()
    }

    pub fn new(tokens: Vec<Token>) -> (r: Self)
        ensures
            r.wf(),
            r.toks() == tokens_view(tokens@),
            r.pos() == 0,
            !r.had_error(),
            r.chunk_view().code.len() == 0,
            r.chunk_view().lines.len() == 0,
            r.chunk_view().constants.len() == 0,
    {
        Self {
            chunk: Chunk::new(),
            tokens,
            cursor: 0,
            had_error: false,
            panic_mode: false,
            first_error: None,
        }
    }

    /// Compiles the whole token sequence, ended by `Eof`, then appends `Return`.
    pub fn compile(self) -> (r: Result<Chunk, ReloxError>)
        requires
            self.wf(),
            self.pos() == 0,
            !self.had_error(),
            self.chunk_view().code.len() == 0,
            self.chunk_view().lines.len() == 0,
            self.chunk_view().constants.len() == 0,
        ensures
            r is Ok <==> compile_spec(self.toks()) is Some,
            r matches Ok(c) ==> c@ == compile_spec(self.toks())->Some_0,
            r matches Err(e) ==> e is CompilationError || e is FatalError,
    {
        let mut compiler = self;
        if compiler.had_error {
            return Err(
                ReloxError::new_compile_error(
                    0,
                    "Error on compilation".to_string(),
                    None,
                    ErrorKind::ParserError,
                ),
            );
        }
        let ghost c0 = compiler.chunk_view();
        let ghost t = compiler.toks();
        let parsed = compiler.parse();
        proof {
            if parse_program(t) is Some {
                let e = parse_program(t)->Some_0.0;
                assert(extend(c0, e).constants =~= expr_consts(e));
                assert(extend(c0, e).code =~= expr_code(e, 0));
                assert(extend(c0, e).lines =~= expr_lines(e));
            }
        }
        match parsed {
            Ok(()) => {},
            Err(error) => {
                return Err(compiler.take_reported(error));
            },
        }
        if compiler.had_error {
            return Err(compiler.take_reported(ReloxError::new_fatal_error("Compilation Error".to_string())));
        }
        match compiler.emit_return() {
            Ok(()) => {},
            Err(error) => {
                return Err(compiler.take_reported(error));
            },
        }
        Ok(compiler.chunk)
    }

    /// The first error reported, where there is one; else `error`.
    fn take_reported(&mut self, error: ReloxError) -> (r: ReloxError)
        requires
            error is CompilationError || error is FatalError,
            old(self).wf(),
        ensures
            r is CompilationError || r is FatalError,
    {
        match self.first_error.take() {
            Some(reported) => reported,
            None => error,
        }
    }

    /// Parses one expression and the `Eof` after it.
    pub fn parse(&mut self) -> (r: Result<(), ReloxError>)
        requires
            old(self).wf(),
            old(self).pos() == 0,
            !old(self).had_error(),
        ensures
            final(self).wf(),
            final(self).toks() == old(self).toks(),
            r matches Err(e) ==> e is CompilationError || e is FatalError,
            (r is Ok && !final(self).had_error()) <==> (parse_program(old(self).toks()) is Some
                && fits(old(self).chunk_view(), parse_program(old(self).toks())->Some_0.0)),
            (r is Ok && !final(self).had_error()) ==> {
                let (e, p) = parse_program(old(self).toks())->Some_0;
                &&& final(self).pos() == p + 1
                &&& final(self).chunk_view() == extend(old(self).chunk_view(), e)
            },
    {
        self.expression()?;
        let ghost mid = *self;
        let r = self.consume(TokenType::Eof, "Expects an expression");
        proof {
            let t = old(self).toks();
            if parse_prec(t, 0, 2) is Some {
                let (e, p) = parse_prec(t, 0, 2)->Some_0;
                if !mid.had_error() && mid.pos() == p {
                    assert(mid.chunk_view() == extend(old(self).chunk_view(), e));
                }
            }
        }
        r
    }

    /// Parses an expression at the lowest binding rank.
    fn expression(&mut self) -> (r: Result<(), ReloxError>)
        requires
            old(self).wf(),
        ensures
            compiled(*old(self), *final(self), r is Ok, parse_prec(old(self).toks(), old(self).pos(), 2)),
            r is Ok ==> final(self).pos() > old(self).pos(),
            r matches Err(e) ==> e is CompilationError || e is FatalError,
        decreases old(self).toks().len() - old(self).pos(), 1int,
    {
        self.parse_with_precendece(Precedence::Assignment.to_number())
    }

    /// Parses a prefix expression, then every infix operator whose rank is at
    /// least `precedence`.
    fn parse_with_precendece(&mut self, precedence: u8) -> (r: Result<(), ReloxError>)
        requires
            old(self).wf(),
            precedence >= 2,
        ensures
            compiled(
                *old(self),
                *final(self),
                r is Ok,
                parse_prec(old(self).toks(), old(self).pos(), precedence as int),
            ),
            r is Ok ==> final(self).pos() > old(self).pos(),
            r matches Err(e) ==> e is CompilationError || e is FatalError,
        decreases old(self).toks().len() - old(self).pos(), 0int,
    {
        let ghost c0 = *self;
        let ghost t = self.toks();
        let ghost prec = precedence as int;
        let ghost whole = parse_prec(t, c0.pos(), prec);
        self.advance()?;
        let prefix_type = self.prev_token_type()?;
        let ghost c1 = *self;
        let ghost pre = parse_prefix(t, c0.pos() + 1);
        proof {
            if pre is Some {
                let (lhs, p) = pre->Some_0;
                if c0.pos() < p <= t.len() && parse_infix(t, p, prec, lhs) is Some {
                    lemma_infix_consts(t, p, prec, lhs);
                }
            }
        }
        self.parse_prefix_for_type(prefix_type)?;
        let ghost mut lhs: Expr = pre->Some_0.0;
        loop
            invariant
                self.wf(),
                c0 == *old(self),
                t == c0.toks(),
                self.toks() == t,
                self.pos() > c0.pos(),
                2 <= prec <= 255,
                prec == precedence,
                whole == parse_prec(t, c0.pos(), prec),
                c0.had_error() ==> self.had_error(),
                !c0.had_error() && !self.had_error() ==> whole == parse_infix(
                    t,
                    self.pos(),
                    prec,
                    lhs,
                ) && self.chunk_view() == extend(c0.chunk_view(), lhs),
                !c0.had_error() && self.had_error() ==> !(whole is Some && fits(
                    c0.chunk_view(),
                    whole->Some_0.0,
                )),
            ensures
                self.wf(),
                self.toks() == t,
                self.pos() > c0.pos(),
                c0.had_error() ==> self.had_error(),
                !c0.had_error() && !self.had_error() ==> whole == Some((lhs, self.pos()))
                    && self.chunk_view() == extend(c0.chunk_view(), lhs),
                !c0.had_error() && self.had_error() ==> !(whole is Some && fits(
                    c0.chunk_view(),
                    whole->Some_0.0,
                )),
            decreases t.len() - self.pos(),
        {
            let current = match self.current_token_type() {
                Ok(current) => current,
                Err(e) => {
                    proof {
                        if !c0.had_error() && !self.had_error() {
                            assert(parse_infix(t, self.pos(), prec, lhs) is None);
                        }
                    }
                    return Err(e);
                },
            };
            if precedence > Precedence::new(current).to_number() {
                break;
            }
            let ghost before = *self;
            let ghost op = t[before.pos()].token_type;
            let ghost right = parse_prec(t, before.pos() + 1, rank(precedence_of(op)) + 1);
            proof {
                if right is Some {
                    let (rhs, p) = right->Some_0;
                    let b = Expr::Binary {
                        op: binary_arith(op),
                        left: Box::new(lhs),
                        right: Box::new(rhs),
                        line: line_before(t, p),
                    };
                    if before.pos() < p <= t.len() && parse_infix(t, p, prec, b) is Some {
                        lemma_infix_consts(t, p, prec, b);
                    }
                    lemma_extend_binary(c0.chunk_view(), lhs, rhs, binary_arith(op), line_before(t, p));
                }
            }
            match self.advance() {
                Ok(()) => {},
                Err(e) => {
                    return Err(e);
                },
            }
            let infix_type = self.prev_token_type()?;
            let infix = self.parse_infix_for_type(infix_type);
            proof {
                if !c0.had_error() && !before.had_error() && !self.had_error() && infix is Ok {
                    let (rhs, p) = right->Some_0;
                    lhs = Expr::Binary {
                        op: binary_arith(op),
                        left: Box::new(lhs),
                        right: Box::new(rhs),
                        line: line_before(t, p),
                    };
                }
            }
            match infix {
                Ok(()) => {},
                Err(e) => {
                    return Err(e);
                },
            }
        }
        Ok(())
    }

    /// Dispatches on the token just consumed to its prefix rule.
    fn parse_prefix_for_type(&mut self, token_type: TokenType) -> (r: Result<(), ReloxError>)
        requires
            old(self).wf(),
            1 <= old(self).pos() <= old(self).toks().len(),
            token_type == old(self).toks()[old(self).pos() - 1].token_type,
        ensures
            compiled(*old(self), *final(self), r is Ok, parse_prefix(old(self).toks(), old(self).pos())),
            r matches Err(e) ==> e is CompilationError || e is FatalError,
        decreases old(self).toks().len() - old(self).pos(), 3int,
    {
        match token_type {
            TokenType::LeftParen => self.grouping(),
            TokenType::Minus => self.unary(token_type),
            TokenType::Number => self.number(),
            TokenType::Nil => self.literal(token_type),
            TokenType::True => self.literal(token_type),
            TokenType::False => self.literal(token_type),
            _ => Err(ReloxError::new_fatal_error("Prefix unimplemented".to_string())),
        }
    }

    /// Dispatches on the operator just consumed to its infix rule.
    fn parse_infix_for_type(&mut self, token_type: TokenType) -> (r: Result<(), ReloxError>)
        requires
            old(self).wf(),
            1 <= old(self).pos() <= old(self).toks().len(),
            token_type == old(self).toks()[old(self).pos() - 1].token_type,
        ensures
            final(self).wf(),
            final(self).toks() == old(self).toks(),
            old(self).had_error() ==> final(self).had_error(),
            final(self).pos() >= old(self).pos(),
            is_infix_operator(token_type) ==> compiled_infix(
                *old(self),
                *final(self),
                r is Ok,
                parse_prec(old(self).toks(), old(self).pos(), rank(precedence_of(token_type)) + 1),
                binary_opcode(token_type),
            ),
            r matches Err(e) ==> e is CompilationError || e is FatalError,
        decreases old(self).toks().len() - old(self).pos(), 2int,
    {
        match token_type {
            TokenType::Slash => self.binary(token_type),
            TokenType::Minus => self.binary(token_type),
            TokenType::Plus => self.binary(token_type),
            TokenType::Star => self.binary(token_type),
            _ => Err(ReloxError::new_fatal_error("Infix unimplemented".to_string())),
        }
    }

    /// The right operand of a binary operator, then the operator's instruction.
    fn binary(&mut self, token_type: TokenType) -> (r: Result<(), ReloxError>)
        requires
            old(self).wf(),
            1 <= old(self).pos() <= old(self).toks().len(),
            is_infix_operator(token_type),
        ensures
            compiled_infix(
                *old(self),
                *final(self),
                r is Ok,
                parse_prec(old(self).toks(), old(self).pos(), rank(precedence_of(token_type)) + 1),
                binary_opcode(token_type),
            ),
            r matches Err(e) ==> e is CompilationError || e is FatalError,
        decreases old(self).toks().len() - old(self).pos(), 1int,
    {
        let higher_precedence = Precedence::new(token_type).to_number() + 1;
        self.parse_with_precendece(higher_precedence)?;
        match token_type {
            TokenType::Plus => self.emit_byte(OpCode::Add),
            TokenType::Minus => self.emit_byte(OpCode::Substract),
            TokenType::Star => self.emit_byte(OpCode::Multiply),
            _ => self.emit_byte(OpCode::Divide),
        }
    }

    /// `( expression )`: no code of its own.
    fn grouping(&mut self) -> (r: Result<(), ReloxError>)
        requires
            old(self).wf(),
            1 <= old(self).pos() <= old(self).toks().len(),
            old(self).toks()[old(self).pos() - 1].token_type == TokenType::LeftParen,
        ensures
            compiled(*old(self), *final(self), r is Ok, parse_prefix(old(self).toks(), old(self).pos())),
            r matches Err(e) ==> e is CompilationError || e is FatalError,
        decreases old(self).toks().len() - old(self).pos(), 2int,
    {
        self.expression()?;
        self.consume(TokenType::RightParen, "Expect ')' after expression")
    }

    /// `- operand`: the operand at unary rank, then `Negate`.
    fn unary(&mut self, token_type: TokenType) -> (r: Result<(), ReloxError>)
        requires
            old(self).wf(),
            1 <= old(self).pos() <= old(self).toks().len(),
            token_type == TokenType::Minus,
            old(self).toks()[old(self).pos() - 1].token_type == TokenType::Minus,
        ensures
            compiled(*old(self), *final(self), r is Ok, parse_prefix(old(self).toks(), old(self).pos())),
            r matches Err(e) ==> e is CompilationError || e is FatalError,
        decreases old(self).toks().len() - old(self).pos(), 1int,
    {
        let ghost c0 = *self;
        self.parse_with_precendece(Precedence::Unary.to_number())?;
        let ghost mid = *self;
        let r = match token_type {
            TokenType::Minus => self.emit_byte(OpCode::Negate),
            _ => Ok(()),
        };
        proof {
            let t = c0.toks();
            if parse_prec(t, c0.pos(), 9) is Some {
                let (e, p) = parse_prec(t, c0.pos(), 9)->Some_0;
                lemma_extend_negate(c0.chunk_view(), e, line_before(t, p));
            }
        }
        r
    }

    /// A number literal: its value goes to the pool, with a `Constant`.
    fn number(&mut self) -> (r: Result<(), ReloxError>)
        requires
            old(self).wf(),
            1 <= old(self).pos() <= old(self).toks().len(),
            old(self).toks()[old(self).pos() - 1].token_type == TokenType::Number,
        ensures
            compiled(*old(self), *final(self), r is Ok, parse_prefix(old(self).toks(), old(self).pos())),
            r matches Err(e) ==> e is CompilationError || e is FatalError,
    {
        self.emit_constant()
    }

    /// `nil`, `true` or `false`.
    fn literal(&mut self, token_type: TokenType) -> (r: Result<(), ReloxError>)
        requires
            old(self).wf(),
            1 <= old(self).pos() <= old(self).toks().len(),
            token_type == old(self).toks()[old(self).pos() - 1].token_type,
            token_type == TokenType::Nil || token_type == TokenType::True || token_type
                == TokenType::False,
        ensures
            compiled(*old(self), *final(self), r is Ok, parse_prefix(old(self).toks(), old(self).pos())),
            r matches Err(e) ==> e is CompilationError || e is FatalError,
    {
        let r = match token_type {
            TokenType::Nil => self.emit_byte(OpCode::Nil),
            TokenType::True => self.emit_byte(OpCode::True),
            _ => self.emit_byte(OpCode::False),
        };
        proof {
            let t = old(self).toks();
            let e = literal_expr(token_type, line_before(t, old(self).pos()));
            assert(self.chunk_view().code =~= extend(old(self).chunk_view(), e).code);
            assert(self.chunk_view().lines =~= extend(old(self).chunk_view(), e).lines);
            assert(self.chunk_view().constants =~= extend(old(self).chunk_view(), e).constants);
        }
        r
    }

    /// Pools the number of the token just consumed.
    fn emit_constant(&mut self) -> (r: Result<(), ReloxError>)
        requires
            old(self).wf(),
            1 <= old(self).pos() <= old(self).toks().len(),
            old(self).toks()[old(self).pos() - 1].token_type == TokenType::Number,
        ensures
            compiled(*old(self), *final(self), r is Ok, parse_prefix(old(self).toks(), old(self).pos())),
            r matches Err(e) ==> e is CompilationError || e is FatalError,
    {
        let (bits, line) = {
            let prev_token = self.prev_token()?;
            let bits = match &prev_token.literal {
                Some(Literal::Double(value)) => Some(*value),
                _ => None,
            };
            (bits, prev_token.line)
        };
        match bits {
            Some(value) => {
                let r = self.chunk.add_constant(Value::Number(value), line as u16);
                proof {
                    let t = old(self).toks();
                    let e = Expr::Number { bits: value, line: line_before(t, old(self).pos()) };
                    if r is Ok {
                        assert(self.chunk_view().code =~= extend(old(self).chunk_view(), e).code);
                        assert(self.chunk_view().lines =~= extend(old(self).chunk_view(), e).lines);
                        assert(self.chunk_view().constants =~= extend(old(self).chunk_view(), e).constants);
                    }
                }
                r
            },
            None => Err(
                ReloxError::new_compile_error(
                    line,
                    "Error on compilation".to_string(),
                    None,
                    ErrorKind::Fatal,
                ),
            ),
        }
    }

    /// Moves past the current token, first skipping (and reporting the first
    /// of) any error tokens.
    fn advance(&mut self) -> (r: Result<(), ReloxError>)
        requires
            old(self).wf(),
        ensures
            final(self).wf(),
            final(self).toks() == old(self).toks(),
            final(self).chunk_view() == old(self).chunk_view(),
            old(self).had_error() ==> final(self).had_error(),
            final(self).pos() >= old(self).pos(),
            r is Ok ==> final(self).pos() > old(self).pos(),
            r matches Err(e) ==> e is FatalError,
            !old(self).had_error() ==> ((r is Ok && !final(self).had_error()) <==> (old(self).pos()
                < old(self).toks().len() && old(self).toks()[old(self).pos()].token_type
                != TokenType::ErrorToken)),
            (!old(self).had_error() && r is Ok && !final(self).had_error()) ==> final(self).pos()
                == old(self).pos() + 1,
    {
        loop
            invariant
                self.wf(),
                self.toks() == old(self).toks(),
                self.chunk_view() == old(self).chunk_view(),
                old(self).had_error() ==> self.had_error(),
                self.pos() >= old(self).pos(),
                !old(self).had_error() && !self.had_error() ==> self.pos() == old(self).pos(),
                !old(self).had_error() && self.had_error() ==> (old(self).pos() < old(self).toks().len()
                    && old(self).toks()[old(self).pos()].token_type == TokenType::ErrorToken),
            ensures
                self.wf(),
                self.toks() == old(self).toks(),
                self.chunk_view() == old(self).chunk_view(),
                old(self).had_error() ==> self.had_error(),
                self.pos() >= old(self).pos(),
                self.pos() < self.toks().len(),
                self.toks()[self.pos()].token_type != TokenType::ErrorToken,
                !old(self).had_error() && !self.had_error() ==> self.pos() == old(self).pos(),
                !old(self).had_error() && self.had_error() ==> (old(self).pos() < old(self).toks().len()
                    && old(self).toks()[old(self).pos()].token_type == TokenType::ErrorToken),
            decreases (self.toks().len() - self.pos()) * 2 + if self.panic_mode {
                0int
            } else {
                1int
            },
        {
            let token_type = self.current_token_type()?;
            if token_type == TokenType::ErrorToken {
                self.handle_error("Unexpected character");
            } else {
                break;
            }
        }
        proof { self.lemma_toks(); }
        let n = self.tokens.len();
        self.cursor = self.cursor + 1;
        Ok(())
    }

    /// Moves past the current token if it is of `token_type`; else reports an error.
    fn consume(&mut self, token_type: TokenType, message: &str) -> (r: Result<(), ReloxError>)
        requires
            old(self).wf(),
            token_type != TokenType::ErrorToken,
        ensures
            final(self).wf(),
            final(self).toks() == old(self).toks(),
            final(self).chunk_view() == old(self).chunk_view(),
            old(self).had_error() ==> final(self).had_error(),
            final(self).pos() >= old(self).pos(),
            r matches Err(e) ==> e is FatalError,
            !old(self).had_error() ==> ((r is Ok && !final(self).had_error()) <==> (old(self).pos()
                < old(self).toks().len() && old(self).toks()[old(self).pos()].token_type
                == token_type)),
            (!old(self).had_error() && r is Ok && !final(self).had_error()) ==> final(self).pos()
                == old(self).pos() + 1,
    {
        let current = self.current_token_type()?;
        if current == token_type {
            self.advance()?;
        } else {
            self.handle_error(message);
        }
        Ok(())
    }

    /// Records an error at the current token, unless one is being recovered
    /// from already, in which case the token is skipped.
    fn handle_error(&mut self, message: &str)
        requires
            old(self).wf(),
            old(self).pos() < old(self).toks().len(),
        ensures
            final(self).wf(),
            final(self).toks() == old(self).toks(),
            final(self).chunk_view() == old(self).chunk_view(),
            final(self).had_error(),
            final(self).panic_mode,
            old(self).panic_mode ==> final(self).pos() == old(self).pos() + 1,
            !old(self).panic_mode ==> final(self).pos() == old(self).pos(),
    {
        proof { self.lemma_toks(); }
        let n = self.tokens.len();
        if self.panic_mode {
            self.cursor = self.cursor + 1;
            return;
        }
        self.panic_mode = true;
        let token = &self.tokens[self.cursor];
        let error = match token.token_type {
            TokenType::Eof => ReloxError::new_compile_error(
                token.line,
                message.to_string(),
                Some("end".to_string()),
                ErrorKind::ParserError,
            ),
            TokenType::ErrorToken => ReloxError::new_compile_error(
                token.line,
                message.to_string(),
                Some(token.lexeme.clone()),
                ErrorKind::LexError,
            ),
            _ => ReloxError::new_compile_error(
                token.line,
                message.to_string(),
                Some(token.lexeme.clone()),
                ErrorKind::ParserError,
            ),
        };
        self.first_error = Some(error);
        self.had_error = true;
    }

    /// Appends `Return`, stamped with the line of the last token consumed.
    fn emit_return(&mut self) -> (r: Result<(), ReloxError>)
        requires
            old(self).wf(),
        ensures
            final(self).wf(),
            r is Ok <==> 1 <= old(self).pos() <= old(self).toks().len(),
            r matches Err(e) ==> e is FatalError,
            r is Ok ==> final(self).chunk_view() == (ChunkView {
                code: old(self).chunk_view().code.push(OpCode::Return),
                lines: old(self).chunk_view().lines.push(line_before(old(self).toks(), old(self).pos())),
                constants: old(self).chunk_view().constants,
            }),
            final(self).first_error == old(self).first_error,
            final(self).had_error == old(self).had_error,
    {
        self.emit_byte(OpCode::Return)
    }

    /// Appends `bytecode`, stamped with the line of the last token consumed.
    fn emit_byte(&mut self, bytecode: OpCode) -> (r: Result<(), ReloxError>)
        requires
            old(self).wf(),
        ensures
            final(self).wf(),
            final(self).toks() == old(self).toks(),
            final(self).pos() == old(self).pos(),
            final(self).had_error == old(self).had_error,
            final(self).panic_mode == old(self).panic_mode,
            final(self).first_error == old(self).first_error,
            r is Ok <==> 1 <= old(self).pos() <= old(self).toks().len(),
            r matches Err(e) ==> e is FatalError,
            r is Ok ==> final(self).chunk_view() == (ChunkView {
                code: old(self).chunk_view().code.push(bytecode),
                lines: old(self).chunk_view().lines.push(line_before(old(self).toks(), old(self).pos())),
                constants: old(self).chunk_view().constants,
            }),
            r is Err ==> final(self).chunk_view() == old(self).chunk_view(),
    {
        proof { self.lemma_toks(); }
        let line = self.prev_token()?.line;
        self.chunk.write_bytecode(bytecode, line as u16);
        Ok(())
    }

    /// The token after the cursor's last move.
    fn prev_token(&self) -> (r: Result<&Token, ReloxError>)
        requires
            self.wf(),
        ensures
            r is Ok <==> 1 <= self.pos() <= self.toks().len(),
            r matches Ok(t) ==> t@ == self.toks()[self.pos() - 1],
            r matches Err(e) ==> e is FatalError,
    {
        proof { self.lemma_toks(); }
        if self.cursor >= 1 && self.cursor - 1 < self.tokens.len() {
            Ok(&self.tokens[self.cursor - 1])
        } else {
            Err(ReloxError::new_fatal_error("Parser tried to fetch an unexistent token".to_string()))
        }
    }

    fn prev_token_type(&self) -> (r: Result<TokenType, ReloxError>)
        requires
            self.wf(),
        ensures
            r is Ok <==> 1 <= self.pos() <= self.toks().len(),
            r matches Ok(t) ==> t == self.toks()[self.pos() - 1].token_type,
            r matches Err(e) ==> e is FatalError,
    {
        Ok(self.prev_token()?.token_type)
    }

    fn current_token(&self) -> (r: Result<&Token, ReloxError>)
        requires
            self.wf(),
        ensures
            r is Ok <==> self.pos() < self.toks().len(),
            r matches Ok(t) ==> t@ == self.toks()[self.pos()],
            r matches Err(e) ==> e is FatalError,
    {
        proof { self.lemma_toks(); }
        if self.cursor < self.tokens.len() {
            Ok(&self.tokens[self.cursor])
        } else {
            Err(ReloxError::new_fatal_error("Parser tried to fetch an unexistent token".to_string()))
        }
    }

    fn current_token_type(&self) -> (r: Result<TokenType, ReloxError>)
        requires
            self.wf(),
        ensures
            r is Ok <==> self.pos() < self.toks().len(),
            r matches Ok(t) ==> t == self.toks()[self.pos()].token_type,
            r matches Err(e) ==> e is FatalError,
    {
        Ok(self.current_token()?.token_type)
    }
}

} // verus!
