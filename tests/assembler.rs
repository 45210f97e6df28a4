use stackvm::decode::{decode, Instr};
use stackvm::numeric::CmpOp;
use stackvm::assembler::{Assembler, Fed, ParseError};
use stackvm::literal::parse_literal;
use stackvm::mnemonic::{create_mapping, lookup};
use stackvm::ty::Ty;

fn assemble(src: &str) -> Result<Vec<u8>, ParseError> {
    let mut a = Assembler::new();
    for tok in src.split_whitespace() {
        if let Fed::FloatLiteral(t) = a.feed(tok)? {
            a.push_literal_bits(t, tok.parse::<f64>().unwrap().to_bits());
        }
    }
    Ok(a.output().clone())
}

#[test]
fn encodes_opcodes_tags_and_literals() {
    assert_eq!(assemble("push i32 5 push i32 7 add i32 pop i32").unwrap(), vec![
        0, 27, 5, 0, 0, 0, 0, 27, 7, 0, 0, 0, 4, 27, 1, 27
    ]);
    assert_eq!(assemble("push bool true push bool false").unwrap(), vec![0, 24, 1, 0, 24, 0]);
    assert_eq!(assemble("goto 258").unwrap(), vec![11, 2, 1, 0, 0, 0, 0, 0, 0]);
    assert_eq!(assemble("push i16 -2").unwrap(), vec![0, 26, 254, 255]);
    assert_eq!(assemble("type_cast u8 f32").unwrap(), vec![23, 29, 33]);
}

#[test]
fn float_literal_is_handed_out() {
    let mut a = Assembler::new();
    assert_eq!(a.feed("push"), Ok(Fed::Done));
    assert_eq!(a.feed("f64"), Ok(Fed::Done));
    assert_eq!(a.feed("1.5"), Ok(Fed::FloatLiteral(Ty::F64)));
    a.push_literal_bits(Ty::F64, 1.5f64.to_bits());
    let mut expected = vec![0u8, 34];
    expected.extend_from_slice(&1.5f64.to_bits().to_le_bytes());
    assert_eq!(a.output().clone(), expected);
}

#[test]
fn parse_errors() {
    assert_eq!(assemble("push i32 five"), Err(ParseError::BadLiteral));
    assert_eq!(assemble("push bool yes"), Err(ParseError::BadLiteral));
    assert_eq!(assemble("push u8 256"), Err(ParseError::BadLiteral));
    assert_eq!(assemble("add 5"), Err(ParseError::UnexpectedToken));
    assert_eq!(assemble("jump"), Err(ParseError::UnexpectedToken));
    assert_eq!(assemble("goto -1"), Err(ParseError::BadLiteral));
}

#[test]
fn integer_literals_follow_rust_parsing() {
    assert_eq!(parse_literal("-128", Ty::I8), Some(128));
    assert_eq!(parse_literal("-129", Ty::I8), None);
    assert_eq!(parse_literal("127", Ty::I8), Some(127));
    assert_eq!(parse_literal("128", Ty::I8), None);
    assert_eq!(parse_literal("+5", Ty::U16), Some(5));
    assert_eq!(parse_literal("-0", Ty::U8), None);
    assert_eq!(parse_literal("-0", Ty::I8), Some(0));
    assert_eq!(parse_literal("", Ty::I32), None);
    assert_eq!(parse_literal("-", Ty::I32), None);
    assert_eq!(parse_literal("+", Ty::U32), None);
    assert_eq!(parse_literal("12a", Ty::U32), None);
    assert_eq!(parse_literal("18446744073709551615", Ty::U64), Some(u64::MAX));
    assert_eq!(parse_literal("18446744073709551616", Ty::U64), None);
    assert_eq!(parse_literal("99999999999999999999999999", Ty::U64), None);
    assert_eq!(parse_literal("-9223372036854775808", Ty::I64), Some(1u64 << 63));
}

#[test]
fn mnemonic_table_round_trip() {
    let table = create_mapping();
    assert_eq!(table.len(), 35);
    for (i, name) in table.iter().enumerate() {
        assert_eq!(lookup(&table, name), Some(i as u8));
    }
    assert_eq!(lookup(&table, "type_cast"), Some(23));
    assert_eq!(lookup(&table, "f64"), Some(34));
    assert_eq!(lookup(&table, "nope"), None);
}

#[test]
fn assembled_program_decodes_back() {
    let p = assemble("push i16 -300 push bool true compare_greater u8 type_cast i16 f32 goto 3 logic_not").unwrap();
    let table = create_mapping();
    let mut pc = 0;
    let mut got = Vec::new();
    while pc < p.len() {
        let (i, next) = decode(&p, pc).unwrap();
        got.push(i);
        pc = next;
    }
    assert_eq!(got, vec![
        Instr::Push(Ty::I16, (-300i16) as u16 as u64),
        Instr::Push(Ty::Bool, 1),
        Instr::Compare(CmpOp::Greater, Ty::U8),
        Instr::TypeCast(Ty::I16, Ty::F32),
        Instr::Goto(3),
        Instr::LogicNot,
    ]);
    assert_eq!(table[p[0] as usize], "push");
    assert_eq!(table[p[1] as usize], "i16");
    assert_eq!(table[p[7] as usize], "compare_greater");
    assert_eq!(table[p[9] as usize], "type_cast");
}
