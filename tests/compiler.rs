use relox::chunk::OpCode;
use relox::compiler::{Compiler, Precedence};
use relox::errors::{ErrorKind, ReloxError};
use relox::pipeline::run;
use relox::scanner::Scanner;
use relox::token::TokenType;
use relox::value::Value;
use relox::vm::Vm;

fn number(value: f32) -> Value {
    Value::Number(value.to_bits())
}

fn eval(source: &str) -> Result<Value, ReloxError> {
    run(source.to_string())
}

#[test]
fn test_simple_addition() {
    let tokens = Scanner::run_with("1 + 2".to_string()).unwrap();
    let chunk = Compiler::run_with(tokens).unwrap();
    let val = Vm::run_with(chunk, false).unwrap();
    assert_eq!(val, number(3.0));
}

#[test]
fn test_simple_substraction() {
    let tokens = Scanner::run_with("3 - 2".to_string()).unwrap();
    let chunk = Compiler::run_with(tokens).unwrap();
    let val = Vm::run_with(chunk, false).unwrap();
    assert_eq!(val, number(1.0));
}

#[test]
fn test_addition_with_mult() {
    let tokens = Scanner::run_with("1 + 2 * 3".to_string()).unwrap();
    let chunk = Compiler::run_with(tokens).unwrap();
    let val = Vm::run_with(chunk, false).unwrap();
    assert_eq!(val, number(7.0));
}

#[test]
fn test_addition_with_mult2() {
    let tokens = Scanner::run_with("1 * 3 + 2".to_string()).unwrap();
    let chunk = Compiler::run_with(tokens).unwrap();
    let val = Vm::run_with(chunk, false).unwrap();
    assert_eq!(val, number(5.0));
}

#[test]
fn test_parens1() {
    let tokens = Scanner::run_with("(1 + 3) * 2".to_string()).unwrap();
    let chunk = Compiler::run_with(tokens).unwrap();
    let val = Vm::run_with(chunk, false).unwrap();
    assert_eq!(val, number(8.0));
}

#[test]
fn test_parens2() {
    let tokens = Scanner::run_with("(1 + (3 - 1)) * (2 + 2)".to_string()).unwrap();
    let chunk = Compiler::run_with(tokens).unwrap();
    let val = Vm::run_with(chunk, false).unwrap();
    assert_eq!(val, number(12.0));
}

#[test]
fn test_booleans() {
    let tokens = Scanner::run_with("true".to_string()).unwrap();
    let chunk = Compiler::run_with(tokens).unwrap();
    let val = Vm::run_with(chunk, false).unwrap();
    assert_eq!(val, Value::Bool(true));
}

#[test]
fn test_boolean_grouping() {
    let tokens = Scanner::run_with("(true)".to_string()).unwrap();
    let chunk = Compiler::run_with(tokens).unwrap();
    let val = Vm::run_with(chunk, false).unwrap();
    assert_eq!(val, Value::Bool(true));
}

#[test]
#[should_panic]
fn test_syntax_errors() {
    let tokens = Scanner::run_with("##$".to_string()).unwrap();
    Compiler::run_with(tokens).unwrap();
}

#[test]
#[should_panic]
fn test_syntax_errors2() {
    let tokens = Scanner::run_with("((true)".to_string()).unwrap();
    Compiler::run_with(tokens).unwrap();
}

#[test]
fn unrecognised_characters_are_a_lex_compile_error() {
    let tokens = Scanner::run_with("##$".to_string()).unwrap();
    match Compiler::run_with(tokens) {
        Err(ReloxError::CompilationError(e)) => {
            assert_eq!(e.kind, ErrorKind::LexError);
            assert_eq!(e.line, 1);
            assert_eq!(e.where_it_was, Some("#".to_string()));
        }
        other => panic!("expected a compile error, got {:?}", other),
    }
}

#[test]
fn unterminated_grouping_is_a_parser_compile_error() {
    let tokens = Scanner::run_with("((true)".to_string()).unwrap();
    match Compiler::run_with(tokens) {
        Err(ReloxError::CompilationError(e)) => {
            assert_eq!(e.kind, ErrorKind::ParserError);
            assert_eq!(e.message, "Expect ')' after expression");
            assert_eq!(e.where_it_was, Some("end".to_string()));
        }
        other => panic!("expected a compile error, got {:?}", other),
    }
}

#[test]
fn empty_and_trailing_input_fail_to_compile() {
    assert!(eval("").is_err());
    match eval("1 2") {
        Err(ReloxError::CompilationError(e)) => assert_eq!(e.kind, ErrorKind::ParserError),
        other => panic!("expected a compile error, got {:?}", other),
    }
    assert!(matches!(eval(")"), Err(ReloxError::FatalError(_))));
}

#[test]
fn operators_of_one_rank_associate_to_the_left() {
    assert_eq!(eval("8 - 2 - 1").unwrap(), number(5.0));
    assert_eq!(eval("8 / 2 / 2").unwrap(), number(2.0));
    assert_eq!(eval("2 * 3 + 4").unwrap(), number(10.0));
    assert_eq!(eval("2 * 3 - 4 / 2").unwrap(), number(4.0));
}

#[test]
fn negation_and_literals() {
    assert_eq!(eval("-3").unwrap(), number(-3.0));
    assert_eq!(eval("--3").unwrap(), number(3.0));
    assert_eq!(eval("-2 * 3").unwrap(), number(-6.0));
    assert_eq!(eval("-(1 + 2)").unwrap(), number(-3.0));
    assert_eq!(eval("nil").unwrap(), Value::Nil);
    assert_eq!(eval("false").unwrap(), Value::Bool(false));
    assert_eq!(eval("1.5 * 2").unwrap(), number(3.0));
    assert_eq!(eval("1 / 0").unwrap(), number(f32::INFINITY));
}

#[test]
fn negating_a_boolean_is_a_runtime_error() {
    let tokens = Scanner::run_with("-true".to_string()).unwrap();
    let chunk = Compiler::run_with(tokens).unwrap();
    match Vm::run_with(chunk, false) {
        Err(ReloxError::RuntimeError(e)) => {
            assert_eq!(e.kind, ErrorKind::VmError);
            assert_eq!(e.line, 1);
        }
        other => panic!("expected a runtime error, got {:?}", other),
    }
}

#[test]
fn type_errors_carry_the_line_of_the_last_operand() {
    match eval("1 +\n\n true") {
        Err(ReloxError::RuntimeError(e)) => {
            assert_eq!(e.kind, ErrorKind::VmError);
            assert_eq!(e.line, 3);
        }
        other => panic!("expected a runtime error, got {:?}", other),
    }
}

#[test]
fn compiled_code_and_lines() {
    let tokens = Scanner::run_with("1 +\n2".to_string()).unwrap();
    let chunk = Compiler::run_with(tokens).unwrap();
    assert_eq!(chunk.len(), 4);
    assert_eq!(chunk.instruction_at(0), Some(&OpCode::Constant { constant_offset: 0 }));
    assert_eq!(chunk.instruction_at(1), Some(&OpCode::Constant { constant_offset: 1 }));
    assert_eq!(chunk.instruction_at(2), Some(&OpCode::Add));
    assert_eq!(chunk.instruction_at(3), Some(&OpCode::Return));
    assert_eq!(chunk.line_at(0), 1);
    assert_eq!(chunk.line_at(1), 2);
    assert_eq!(chunk.line_at(2), 2);
    assert_eq!(chunk.line_at(3), 2);
    assert_eq!(chunk.read_constant(1), Some(&number(2.0)));
}

#[test]
fn too_many_constants_fail_to_compile() {
    let ok: Vec<String> = (0..255).map(|i| i.to_string()).collect();
    assert_eq!(eval(&ok.join(" + ")).unwrap(), number((0..255).sum::<u32>() as f32));
    let too_many: Vec<String> = (0..256).map(|i| i.to_string()).collect();
    assert!(matches!(eval(&too_many.join(" + ")), Err(ReloxError::FatalError(_))));
}

#[test]
fn precedence_ranks() {
    assert_eq!(Precedence::new(TokenType::Star), Precedence::Factor);
    assert_eq!(Precedence::new(TokenType::Slash), Precedence::Factor);
    assert_eq!(Precedence::new(TokenType::Plus), Precedence::Term);
    assert_eq!(Precedence::new(TokenType::Minus), Precedence::Term);
    assert_eq!(Precedence::new(TokenType::Number), Precedence::Lowest);
    assert_eq!(Precedence::Lowest.to_number(), 1);
    assert_eq!(Precedence::Term.to_number(), 7);
    assert_eq!(Precedence::Factor.to_number(), 8);
    assert_eq!(Precedence::Unary.to_number(), 9);
    assert_eq!(Precedence::Primary.to_number(), 11);
}
