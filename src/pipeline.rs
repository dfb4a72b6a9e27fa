//! The whole pipeline, and what it computes: source text is scanned, compiled
//! and run, and the result is the direct evaluation of the parsed expression.
use vstd::prelude::*;
use crate::chunk::{CONSTANT_POOL_MAX, ChunkView, OpCode, spec_line_at};
use crate::compiler::{Compiler, Expr, arith_opcode, compile_spec, expr_code, expr_consts, expr_lines, parse_program};
use crate::errors::{ErrorKind, ReloxError};
use crate::scanner::{Scanner, scan_spec};
use crate::token::TokenView;
use crate::value::{Value, spec_binary, spec_negate};
use crate::vm::{RunOutcome, STACK_MAX, Vm, chunk_outcome, result_matches, spec_run};

verus! {

/// The direct, recursive evaluation of an expression: its value, or the line
/// of the operator that met an operand of the wrong type.
pub open spec fn eval(e: Expr) -> Result<Value, u16>
    decreases e,
{
    match e {
        Expr::Number { bits, .. } => Ok(Value::Number(bits)),
        Expr::Nil { .. } => Ok(Value::Nil),
        Expr::Bool { value, .. } => Ok(Value::Bool(value)),
        Expr::Negate { operand, line } => match eval(*operand) {
            Ok(v) => match spec_negate(v) {
                Some(w) => Ok(w),
                None => Err(line),
            },
            Err(l) => Err(l),
        },
        Expr::Binary { op, left, right, line } => match eval(*left) {
            Ok(a) => match eval(*right) {
                Ok(b) => match spec_binary(op, a, b) {
                    Some(w) => Ok(w),
                    None => Err(line),
                },
                Err(l) => Err(l),
            },
            Err(l) => Err(l),
        },
    }
}

/// How running an expression's code ends, by its direct evaluation.
pub open spec fn eval_outcome(e: Expr) -> RunOutcome {
    match eval(e) {
        Ok(v) => RunOutcome::Returned(v),
        Err(line) => RunOutcome::Runtime { line: line as usize, kind: ErrorKind::VmError },
    }
}

/// The number of stack slots that running an expression's code needs.
pub open spec fn depth(e: Expr) -> int
    decreases e,
{
    match e {
        Expr::Negate { operand, .. } => depth(*operand),
        Expr::Binary { left, right, .. } => {
            let l = depth(*left);
            let r = depth(*right) + 1;
            if l >= r {
                l
            } else {
                r
            }
        },
        _ => 1,
    }
}

/// The code of `e`, based at constant `base`, stands in `c` at `ip`, and its
/// constants at `base`.
pub open spec fn holds_expr(c: ChunkView, ip: int, base: int, e: Expr) -> bool {
    let n = expr_code(e, base).len() as int;
    let k = expr_consts(e).len();
    &&& 0 <= ip
    &&& ip + n <= c.code.len()
    &&& ip + n <= c.lines.len()
    &&& c.code.subrange(ip, ip + n) == expr_code(e, base)
    &&& c.lines.subrange(ip, ip + n) == expr_lines(e)
    &&& 0 <= base
    &&& base + k <= c.constants.len()
    &&& base + k <= CONSTANT_POOL_MAX
    &&& c.constants.subrange(base, base + k) == expr_consts(e)
}

/// Where running the code of an expression that evaluated to `res` leads:
/// on to `ip` with the value pushed, or to a runtime error.
pub open spec fn after_expr(c: ChunkView, ip: int, s: Seq<Value>, res: Result<Value, u16>) -> RunOutcome {
    match res {
        Ok(v) => spec_run(c, ip, s.push(v)),
        Err(line) => RunOutcome::Runtime { line: line as usize, kind: ErrorKind::VmError },
    }
}

proof fn lemma_lens(e: Expr, base: int)
    ensures
        expr_lines(e).len() == expr_code(e, base).len(),
        expr_code(e, base).len() >= 1,
        depth(e) >= 1,
    decreases e,
{
    match e {
        Expr::Negate { operand, .. } => lemma_lens(*operand, base),
        Expr::Binary { left, right, .. } => {
            lemma_lens(*left, base);
            lemma_lens(*right, base + expr_consts(*left).len());
        },
        _ => {},
    }
}

/// Running the code of an expression pushes its value, or stops with the
/// runtime error its evaluation meets, provided the stack has room.
proof fn lemma_run_expr(c: ChunkView, ip: int, base: int, e: Expr, s: Seq<Value>)
    requires
        holds_expr(c, ip, base, e),
        s.len() + depth(e) <= STACK_MAX,
    ensures
        spec_run(c, ip, s) == after_expr(c, ip + expr_code(e, base).len(), s, eval(e)),
    decreases e,
{
    lemma_lens(e, base);
    let n = expr_code(e, base).len() as int;
    assert(c.code[ip + n - 1] == c.code.subrange(ip, ip + n)[n - 1]);
    assert(c.lines[ip + n - 1] == c.lines.subrange(ip, ip + n)[n - 1]);
    match e {
        Expr::Number { bits, line } => {
            assert(c.constants[base] == c.constants.subrange(base, base + 1)[0]);
            assert(spec_run(c, ip, s) == spec_run(c, ip + 1, s.push(Value::Number(bits))));
        },
        Expr::Nil { .. } => {
            assert(spec_run(c, ip, s) == spec_run(c, ip + 1, s.push(Value::Nil)));
        },
        Expr::Bool { value, .. } => {
            assert(spec_run(c, ip, s) == spec_run(c, ip + 1, s.push(Value::Bool(value))));
        },
        Expr::Negate { operand, line } => {
            let m = expr_code(*operand, base).len() as int;
            lemma_lens(*operand, base);
            assert(c.code.subrange(ip, ip + m) =~= expr_code(e, base).subrange(0, m));
            assert(c.lines.subrange(ip, ip + m) =~= expr_lines(e).subrange(0, m));
            assert(expr_code(e, base).subrange(0, m) =~= expr_code(*operand, base));
            assert(expr_lines(e).subrange(0, m) =~= expr_lines(*operand));
            lemma_run_expr(c, ip, base, *operand, s);
            let op_ip = ip + m;
            assert(c.code[op_ip] == OpCode::Negate);
            assert(spec_line_at(c, op_ip) == line);
            match eval(*operand) {
                Ok(v) => {
                    let st = s.push(v);
                    assert(st.drop_last() =~= s);
                    if spec_negate(v) is Some {
                        assert(spec_run(c, op_ip, st) == spec_run(c, op_ip + 1, s.push(spec_negate(v)->Some_0)));
                    }
                },
                Err(_) => {},
            }
        },
        Expr::Binary { op, left, right, line } => {
            let kl = expr_consts(*left).len() as int;
            let kr = expr_consts(*right).len() as int;
            let ml = expr_code(*left, base).len() as int;
            let mr = expr_code(*right, base + kl).len() as int;
            lemma_lens(*left, base);
            lemma_lens(*right, base + kl);
            let whole = expr_code(e, base);
            let lines = expr_lines(e);
            assert(whole.subrange(0, ml) =~= expr_code(*left, base));
            assert(whole.subrange(ml, ml + mr) =~= expr_code(*right, base + kl));
            assert(lines.subrange(0, ml) =~= expr_lines(*left));
            assert(lines.subrange(ml, ml + mr) =~= expr_lines(*right));
            assert(c.code.subrange(ip, ip + ml) =~= whole.subrange(0, ml));
            assert(c.code.subrange(ip + ml, ip + ml + mr) =~= whole.subrange(ml, ml + mr));
            assert(c.lines.subrange(ip, ip + ml) =~= lines.subrange(0, ml));
            assert(c.lines.subrange(ip + ml, ip + ml + mr) =~= lines.subrange(ml, ml + mr));
            assert(c.constants.subrange(base, base + kl) =~= expr_consts(e).subrange(0, kl));
            assert(c.constants.subrange(base + kl, base + kl + kr) =~= expr_consts(e).subrange(kl, kl + kr));
            assert(expr_consts(e).subrange(0, kl) =~= expr_consts(*left));
            assert(expr_consts(e).subrange(kl, kl + kr) =~= expr_consts(*right));
            lemma_run_expr(c, ip, base, *left, s);
            let op_ip = ip + ml + mr;
            assert(c.code[op_ip] == arith_opcode(op));
            assert(spec_line_at(c, op_ip) == line);
            match eval(*left) {
                Ok(a) => {
                    let sa = s.push(a);
                    lemma_run_expr(c, ip + ml, base + kl, *right, sa);
                    match eval(*right) {
                        Ok(b) => {
                            let sb = sa.push(b);
                            assert(sb.drop_last().drop_last() =~= s);
                            assert(sb[sb.len() - 2] == a);
                            if spec_binary(op, a, b) is Some {
                                assert(spec_run(c, op_ip, sb) == spec_run(c, op_ip + 1, s.push(spec_binary(op, a, b)->Some_0)));
                            }
                        },
                        Err(_) => {},
                    }
                },
                Err(_) => {},
            }
        },
    }
}

/// Running a compiled chunk agrees with direct evaluation of the parse tree,
/// when that evaluation fits on the operand stack.
pub proof fn lemma_compiled_evaluates(t: Seq<TokenView>)
    requires
        compile_spec(t) is Some,
        depth(parse_program(t)->Some_0.0) <= STACK_MAX,
    ensures
        chunk_outcome(compile_spec(t)->Some_0) == eval_outcome(parse_program(t)->Some_0.0),
{
    let (e, p) = parse_program(t)->Some_0;
    let c = compile_spec(t)->Some_0;
    lemma_lens(e, 0);
    let n = expr_code(e, 0).len() as int;
    assert(c.code.subrange(0, n) =~= expr_code(e, 0));
    assert(c.lines.subrange(0, n) =~= expr_lines(e));
    assert(c.constants.subrange(0, expr_consts(e).len() as int) =~= expr_consts(e));
    lemma_run_expr(c, 0, 0, e, Seq::empty());
    assert(c.code[n] == OpCode::Return);
    match eval(e) {
        Ok(v) => {
            assert(Seq::<Value>::empty().push(v).last() == v);
        },
        Err(_) => {},
    }
}

/// The compiler never emits code that pops an empty stack or reads a missing
/// constant: a compiled chunk whose evaluation fits on the stack ends with
/// `Return` or a runtime error, never with a fatal error.
pub proof fn lemma_compiled_never_fatal(t: Seq<TokenView>)
    requires
        compile_spec(t) is Some,
        depth(parse_program(t)->Some_0.0) <= STACK_MAX,
    ensures
        !(chunk_outcome(compile_spec(t)->Some_0) is Fatal),
{
    lemma_compiled_evaluates(t);
}

/// Compiling and running agrees with direct evaluation: for source text that
/// parses as one expression whose constants fit in a chunk and whose
/// evaluation fits on the operand stack, the scanned, compiled and executed
/// program ends with the value of the expression, or with the runtime error
/// that evaluating it meets, at the same line.
pub proof fn lemma_pipeline_evaluates(src: Seq<char>)
    requires
        parse_program(scan_spec(src)) is Some,
        expr_consts(parse_program(scan_spec(src))->Some_0.0).len() <= CONSTANT_POOL_MAX,
        depth(parse_program(scan_spec(src))->Some_0.0) <= STACK_MAX,
    ensures
        compile_spec(scan_spec(src)) is Some,
        chunk_outcome(compile_spec(scan_spec(src))->Some_0) == eval_outcome(
            parse_program(scan_spec(src))->Some_0.0,
        ),
{
    lemma_compiled_evaluates(scan_spec(src));
}

/// Two runs of one chunk end alike: running a chunk depends on the chunk
/// alone, and a run never changes the chunk it runs.
pub proof fn lemma_runs_agree(c: ChunkView, r1: Result<Value, ReloxError>, r2: Result<Value, ReloxError>)
    requires
        result_matches(r1, chunk_outcome(c)),
        result_matches(r2, chunk_outcome(c)),
    ensures
        r1 is Ok <==> r2 is Ok,
        r1 is Ok ==> r1->Ok_0 == r2->Ok_0,
        r1 matches Err(e1) ==> (r2 matches Err(e2) && (e1.spec_kind() == e2.spec_kind()
            && e1.spec_line() == e2.spec_line() && (e1 is RuntimeError <==> e2 is RuntimeError))),
{
}

/// Scans, compiles and runs `source`.
pub fn run(source: String) -> (r: Result<Value, ReloxError>)
    requires
        source@.len() < usize::MAX,
    ensures
        compile_spec(scan_spec(source@)) matches Some(c) ==> result_matches(r, chunk_outcome(c)),
        compile_spec(scan_spec(source@)) is None ==> (r matches Err(e) && (e is CompilationError
            || e is FatalError)),
{
    let tokens = Scanner::run_with(source)?;
    let chunk = Compiler::run_with(tokens)?;
    Vm::run_with(chunk, false)
}

} // verus!
