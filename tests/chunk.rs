use std::mem::{size_of, size_of_val};

use relox::chunk::{Chunk, OpCode};
use relox::value::Value;

#[test]
fn test_chunk() {
    let mut chunk = Chunk::new();
    chunk.add_constant(Value::Number(3.0f32.to_bits()), 22).unwrap();
    chunk.add_constant(Value::Number(4.0f32.to_bits()), 22).unwrap();
    chunk.write_bytecode(OpCode::Add, 22);
    chunk.write_bytecode(OpCode::Return, 23);

    assert_eq!(24, size_of::<Vec<OpCode>>());
    assert_eq!(24, size_of::<Vec<Value>>());
    assert_eq!(24, size_of::<Vec<u16>>());
    assert_eq!(72, size_of_val(&chunk));
    assert_eq!(8, size_of_val(&Value::Bool(true)));
    assert_eq!(8, size_of_val(&Value::Number(3.3f32.to_bits())));
    assert_eq!(2, size_of_val(&OpCode::Return));
    assert_eq!(2, size_of_val(&OpCode::True));
    assert_eq!(8, size_of_val(&Value::Number(3.3f32.to_bits())));
}

#[test]
fn chunk_records_code_lines_and_constants() {
    let mut chunk = Chunk::new();
    assert!(chunk.is_empty());
    chunk.add_constant(Value::Number(3.0f32.to_bits()), 22).unwrap();
    chunk.write_bytecode(OpCode::Negate, 23);
    assert!(!chunk.is_empty());
    assert_eq!(chunk.len(), 2);
    assert_eq!(chunk.instruction_at(0), Some(&OpCode::Constant { constant_offset: 0 }));
    assert_eq!(chunk.instruction_at(1), Some(&OpCode::Negate));
    assert_eq!(chunk.instruction_at(2), None);
    assert_eq!(chunk.line_at(0), 22);
    assert_eq!(chunk.line_at(1), 23);
    assert_eq!(chunk.line_at(5), 0);
    assert_eq!(chunk.read_constant(0), Some(&Value::Number(3.0f32.to_bits())));
    assert_eq!(chunk.read_constant(1), None);
}

#[test]
fn constant_pool_holds_255_constants() {
    let mut chunk = Chunk::new();
    for i in 0..255u32 {
        assert!(chunk.add_constant(Value::Number(i), 1).is_ok());
    }
    assert_eq!(chunk.constant_count(), 255);
    assert_eq!(chunk.instruction_at(254), Some(&OpCode::Constant { constant_offset: 254 }));
    let err = chunk.add_constant(Value::Number(7), 1).unwrap_err();
    assert_eq!(err.kind(), relox::errors::ErrorKind::Fatal);
    assert_eq!(chunk.constant_count(), 255);
    assert_eq!(chunk.len(), 255);
}
