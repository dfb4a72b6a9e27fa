use relox::chunk::{Chunk, OpCode};
use relox::compiler::Compiler;
use relox::errors::{ErrorKind, ReloxError};
use relox::scanner::Scanner;
use relox::value::Value;
use relox::vm::{Vm, VmStack};

fn number(value: f32) -> Value {
    Value::Number(value.to_bits())
}

fn run_ops(constants: &[f32], ops: &[OpCode]) -> Result<Value, ReloxError> {
    let mut chunk = Chunk::new();
    for c in constants {
        chunk.add_constant(number(*c), 0).unwrap();
    }
    for op in ops {
        chunk.write_bytecode(*op, 0);
    }
    let mut vm = Vm::new(chunk, false);
    vm.run()
}

#[test]
fn test_vm_stack() {
    let mut stack = VmStack::<Value>::new();
    assert!(stack.pop().is_err());
    stack.push(number(63.2)).unwrap();
    stack.push(number(6.2)).unwrap();
    assert_eq!(stack.pop().unwrap(), number(6.2));
    assert_eq!(stack.pop().unwrap(), number(63.2));
    assert!(stack.pop().is_err());
}

#[test]
fn test_negation() {
    let mut chunk = Chunk::new();
    chunk.add_constant(number(3.0), 0).unwrap();
    chunk.write_bytecode(OpCode::Negate, 0);
    chunk.write_bytecode(OpCode::Return, 0);
    let mut vm = Vm::new(chunk, false);
    assert_eq!(vm.run().unwrap(), number(-3.0));
}

#[test]
fn test_addition() {
    assert_eq!(run_ops(&[3.0, 2.0], &[OpCode::Add, OpCode::Return]).unwrap(), number(5.0));
}

#[test]
fn test_subsraction() {
    assert_eq!(run_ops(&[3.0, 2.0], &[OpCode::Substract, OpCode::Return]).unwrap(), number(1.0));
}

#[test]
fn test_division() {
    assert_eq!(run_ops(&[6.0, 2.0], &[OpCode::Divide, OpCode::Return]).unwrap(), number(3.0));
}

#[test]
fn test_mult() {
    assert_eq!(run_ops(&[3.0, 2.0], &[OpCode::Multiply, OpCode::Return]).unwrap(), number(6.0));
}

#[test]
fn test_add_mult() {
    assert_eq!(
        run_ops(&[1.0, 2.0, 3.0], &[OpCode::Multiply, OpCode::Add, OpCode::Return]).unwrap(),
        number(7.0)
    );
}

#[test]
fn stack_takes_256_values_and_overflows_on_the_257th() {
    let mut stack = VmStack::<Value>::new();
    for i in 0..256u32 {
        assert!(stack.push(Value::Number(i)).is_ok());
    }
    assert_eq!(stack.len(), 256);
    match stack.push(Value::Nil) {
        Err(ReloxError::RuntimeError(e)) => assert_eq!(e.kind, ErrorKind::StackOverFlow),
        other => panic!("expected a stack overflow, got {:?}", other),
    }
    assert_eq!(stack.len(), 256);
    assert_eq!(stack.pop().unwrap(), Value::Number(255));
    assert_eq!(stack.stack_slice(0, 2), &[Value::Number(0), Value::Number(1)]);
}

#[test]
fn running_257_pushes_overflows_the_machine_stack() {
    let mut chunk = Chunk::new();
    for _ in 0..257 {
        chunk.write_bytecode(OpCode::Nil, 4);
    }
    chunk.write_bytecode(OpCode::Return, 4);
    match Vm::run_with(chunk, false) {
        Err(ReloxError::RuntimeError(e)) => assert_eq!(e.kind, ErrorKind::StackOverFlow),
        other => panic!("expected a stack overflow, got {:?}", other),
    }
    let mut chunk = Chunk::new();
    for _ in 0..256 {
        chunk.write_bytecode(OpCode::True, 4);
    }
    chunk.write_bytecode(OpCode::Return, 4);
    assert_eq!(Vm::run_with(chunk, false).unwrap(), Value::Bool(true));
}

#[test]
fn malformed_chunks_are_fatal() {
    assert!(matches!(run_ops(&[], &[]), Err(ReloxError::FatalError(_))));
    assert!(matches!(run_ops(&[], &[OpCode::Return]), Err(ReloxError::FatalError(_))));
    assert!(matches!(run_ops(&[1.0], &[OpCode::Add, OpCode::Return]), Err(ReloxError::FatalError(_))));
    let mut chunk = Chunk::new();
    chunk.write_bytecode(OpCode::Constant { constant_offset: 3 }, 0);
    chunk.write_bytecode(OpCode::Return, 0);
    assert!(matches!(Vm::run_with(chunk, false), Err(ReloxError::FatalError(_))));
}

#[test]
fn arithmetic_on_booleans_is_a_runtime_error() {
    let mut chunk = Chunk::new();
    chunk.add_constant(number(1.0), 5).unwrap();
    chunk.write_bytecode(OpCode::True, 6);
    chunk.write_bytecode(OpCode::Add, 7);
    chunk.write_bytecode(OpCode::Return, 8);
    match Vm::run_with(chunk, false) {
        Err(ReloxError::RuntimeError(e)) => {
            assert_eq!(e.kind, ErrorKind::VmError);
            assert_eq!(e.line, 7);
        }
        other => panic!("expected a runtime error, got {:?}", other),
    }
}

#[test]
fn running_one_chunk_twice_gives_one_result() {
    let tokens = Scanner::run_with("(1 + 2) * -4 / 3".to_string()).unwrap();
    let chunk = Compiler::run_with(tokens).unwrap();
    let mut first = Vm::new(chunk, false);
    let a = first.run().unwrap();
    let chunk_again = first.chunk().clone();
    let b = Vm::run_with(chunk_again, false).unwrap();
    assert_eq!(a, b);
    assert_eq!(a, number(-4.0));
}

#[test]
fn stepping_reports_each_instruction() {
    let tokens = Scanner::run_with("1 + 2".to_string()).unwrap();
    let chunk = Compiler::run_with(tokens).unwrap();
    let mut vm = Vm::new(chunk, true);
    assert!(vm.debug_mode());
    assert_eq!(vm.step().unwrap(), None);
    assert_eq!(vm.value_stack().len(), 1);
    assert_eq!(vm.step().unwrap(), None);
    assert_eq!(vm.step().unwrap(), None);
    assert_eq!(vm.value_stack().stack_slice(0, 1), &[number(3.0)]);
    assert_eq!(vm.ip(), 3);
    assert_eq!(vm.step().unwrap(), Some(number(3.0)));
}

#[test]
fn value_arithmetic() {
    assert_eq!(number(3.0).add(number(2.0)).unwrap(), number(5.0));
    assert_eq!(number(3.0).sub(number(2.0)).unwrap(), number(1.0));
    assert_eq!(number(3.0).mul(number(2.0)).unwrap(), number(6.0));
    assert_eq!(number(3.0).div(number(2.0)).unwrap(), number(1.5));
    assert_eq!(number(3.0).neg().unwrap(), number(-3.0));
    assert!(Value::Nil.neg().is_err());
    assert!(Value::Bool(true).add(number(1.0)).is_err());
    assert_eq!(Value::default(), Value::Nil);
}
