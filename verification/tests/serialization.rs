//! The serialized chunk format: its prefix, its error taxonomy, and
//! the round trip from a chunk to bytes and back.

use fusabi::chunk::{Chunk, SourceSpan};
use fusabi::codec::{deserialize_chunk, serialize_chunk, CodecError};
use fusabi::instruction::Instruction;
use fusabi::value::Value;

#[test]
fn test_serialize_prefix() {
    let chunk = Chunk::new();
    let bytes = serialize_chunk(&chunk);
    assert!(bytes.len() >= 5);
    assert_eq!(&bytes[0..4], b"FZB\x01");
    assert_eq!(bytes[4], 1);
}

#[test]
fn test_serialize_deserialize_empty_chunk() {
    let chunk = Chunk::new();
    let bytes = serialize_chunk(&chunk);
    let restored = deserialize_chunk(&bytes).unwrap();

    assert_eq!(chunk.instructions.len(), restored.instructions.len());
    assert_eq!(chunk.constants.len(), restored.constants.len());
    assert_eq!(chunk.name, restored.name);
}

#[test]
fn test_serialize_deserialize_chunk_with_data() {
    let mut chunk = Chunk::with_name("test");
    chunk.add_constant(Value::Int(42));
    chunk.add_constant(Value::Str("hello".to_string()));
    chunk.emit(Instruction::LoadConst(0));
    chunk.emit(Instruction::LoadConst(1));
    chunk.emit(Instruction::Return);

    let bytes = serialize_chunk(&chunk);
    assert!(bytes.starts_with(b"FZB\x01"));
    assert_eq!(bytes[4], 1);

    let restored = deserialize_chunk(&bytes).unwrap();
    assert_eq!(chunk.name, restored.name);
    assert_eq!(chunk.instructions.len(), restored.instructions.len());
    assert_eq!(chunk.constants.len(), restored.constants.len());

    assert_eq!(chunk.instructions[0], restored.instructions[0]);
    assert_eq!(chunk.instructions[1], restored.instructions[1]);
    assert_eq!(chunk.instructions[2], restored.instructions[2]);

    assert_eq!(chunk.constants[0], restored.constants[0]);
    assert_eq!(chunk.constants[1], restored.constants[1]);
}

#[test]
fn test_round_trip_chunk_with_metadata() {
    let mut chunk = Chunk::with_name("demo");
    chunk.add_constant(Value::Int(42));
    chunk.emit(Instruction::LoadConst(0));
    chunk.emit_with_span(Instruction::Return, SourceSpan::new(2, 4, 10, 3));
    chunk.set_source("let x = 42 in x");
    chunk.set_source_file("demo.fsx");

    let bytes = serialize_chunk(&chunk);
    let restored = deserialize_chunk(&bytes).unwrap();

    assert_eq!(restored, chunk);
    assert_eq!(restored.spans[1], SourceSpan::new(2, 4, 10, 3));
}

#[test]
fn test_round_trip_structured_constants() {
    let mut chunk = Chunk::new();
    chunk.add_constant(Value::vec_to_cons(vec![
        Value::Int(1),
        Value::Tuple(vec![Value::Bool(true), Value::Unit]),
    ]));
    chunk.add_constant(Value::Variant {
        tag: "Option".to_string(),
        ctor: "Some".to_string(),
        fields: vec![Value::Float(0x3ff0_0000_0000_0000)],
    });
    chunk.add_constant(Value::Table(vec![("k".to_string(), Value::Int(-7))]));
    chunk.emit(Instruction::MakeVariant {
        tag: "Option".to_string(),
        ctor: "None".to_string(),
        arity: 0,
    });
    chunk.emit(Instruction::Jump(-3));
    chunk.emit(Instruction::Return);

    let bytes = serialize_chunk(&chunk);
    let restored = deserialize_chunk(&bytes).unwrap();
    assert_eq!(restored, chunk);
}

#[test]
fn test_invalid_magic_bytes() {
    let bad_bytes = b"BAD\x01\x00extra data";
    let result = deserialize_chunk(bad_bytes);
    assert_eq!(result, Err(CodecError::InvalidMagic));
}

#[test]
fn test_unsupported_version() {
    let mut bad_bytes = Vec::new();
    bad_bytes.extend_from_slice(b"FZB\x01");
    bad_bytes.push(99);
    bad_bytes.extend_from_slice(b"extra data");

    let result = deserialize_chunk(&bad_bytes);
    assert_eq!(result, Err(CodecError::UnsupportedVersion(99)));
}

#[test]
fn test_file_too_small() {
    let bad_bytes = b"FZB";
    let result = deserialize_chunk(bad_bytes);
    assert_eq!(result, Err(CodecError::Truncated));
}

#[test]
fn test_truncated_body() {
    let chunk = Chunk::new();
    let bytes = serialize_chunk(&chunk);
    let result = deserialize_chunk(&bytes[0..bytes.len() - 1]);
    assert_eq!(result, Err(CodecError::Truncated));
}
