//! Bytecode values, constructors and the framing of serialized bytecode.
use rustscript::bytecode::{BinOp, ByteCode, UnOp, Value};
use rustscript::framing::{frame_len, read_frame, write_frame, FrameError};

#[test]
fn test_value_from_i64() {
    let v: Value = 42.into();
    assert_eq!(v, Value::Int(42));

    let v: Value = 0.into();
    assert_eq!(v, Value::Int(0));
}

#[test]
fn test_from_bool() {
    let bool_value: bool = true;
    let value: Value = bool_value.into();
    assert_eq!(value, Value::Bool(bool_value));

    let bool_value: bool = false;
    let value: Value = bool_value.into();
    assert_eq!(value, Value::Bool(bool_value));
}

#[test]
fn test_from_unit() {
    let value: Value = ().into();
    assert_eq!(value, Value::Unit);
}

#[test]
fn test_from_string() {
    let string_value: String = "Hello, World!".to_string();
    let value: Value = string_value.clone().into();
    assert_eq!(value, Value::String(string_value));
}

#[test]
fn operators_from_and_to_symbols() {
    let syms = ["+", "-", "*", "/", "%", ">", "<", "==", "&&", "||"];
    let ops = [
        BinOp::Add,
        BinOp::Sub,
        BinOp::Mul,
        BinOp::Div,
        BinOp::Mod,
        BinOp::Gt,
        BinOp::Lt,
        BinOp::Eq,
        BinOp::And,
        BinOp::Or,
    ];
    for (s, op) in syms.iter().zip(ops.iter()) {
        assert_eq!(BinOp::from_symbol(s), *op);
        assert_eq!(op.to_symbol(), s.to_string());
    }
    assert_eq!(UnOp::from_symbol("-"), UnOp::Neg);
    assert_eq!(UnOp::from_symbol("!"), UnOp::Not);
    assert_eq!(UnOp::Not.to_symbol(), "!".to_string());
}

#[test]
fn bytecode_constructors() {
    assert_eq!(ByteCode::ldc(Value::Int(2)), ByteCode::LDC(Value::Int(2)));
    assert_eq!(ByteCode::ld("x"), ByteCode::LD("x".to_string()));
    assert_eq!(ByteCode::assign("y"), ByteCode::ASSIGN("y".to_string()));
    assert_eq!(ByteCode::binop("&&"), ByteCode::BINOP(BinOp::And));
    assert_eq!(ByteCode::unop("-"), ByteCode::UNOP(UnOp::Neg));
    assert_eq!(
        ByteCode::ldf(3, vec!["n".to_string()]),
        ByteCode::LDF(3, vec!["n".to_string()])
    );
}

#[test]
fn frame_is_length_then_payload() {
    let payload = vec![7u8, 8, 9];
    let framed = write_frame(&payload);
    assert_eq!(framed, vec![3, 0, 0, 0, 0, 0, 0, 0, 7, 8, 9]);
    assert_eq!(frame_len(&framed[0..8].to_vec()), 3);
}

#[test]
fn frame_length_is_little_endian() {
    let payload = vec![1u8; 258];
    let framed = write_frame(&payload);
    assert_eq!(&framed[0..8], &[2, 1, 0, 0, 0, 0, 0, 0]);
    assert_eq!(framed.len(), 266);
}

#[test]
fn read_frame_gives_back_the_payload() {
    for payload in [vec![], vec![0u8], vec![1, 2, 3, 4, 5], vec![255u8; 300]] {
        let framed = write_frame(&payload);
        assert_eq!(read_frame(&framed), Ok(payload));
    }
}

#[test]
fn read_frame_ignores_trailing_bytes() {
    let mut framed = write_frame(&vec![5u8, 6]);
    framed.push(99);
    assert_eq!(read_frame(&framed), Ok(vec![5, 6]));
}

#[test]
fn read_frame_errors() {
    assert_eq!(read_frame(&vec![1, 0, 0]), Err(FrameError::MissingLength));
    assert_eq!(read_frame(&vec![2, 0, 0, 0, 0, 0, 0, 0, 1]), Err(FrameError::MissingPayload));
    assert_eq!(frame_len(&vec![0, 0, 0, 0, 0, 0, 0, 128]), 1u64 << 63);
}
