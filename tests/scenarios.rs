use stackvm::assembler::{Assembler, Fed, ParseError};
use stackvm::numeric::value_of;
use stackvm::stack::VmError;
use stackvm::ty::Ty;
use stackvm::vm::{Event, FloatOp, StackUpperVector};

fn assemble(src: &str) -> Result<Vec<u8>, ParseError> {
    let mut a = Assembler::new();
    for tok in src.split_whitespace() {
        match a.feed(tok)? {
            Fed::Done => {}
            Fed::FloatLiteral(Ty::F32) => a.push_literal_bits(Ty::F32, tok.parse::<f32>().unwrap().to_bits() as u64),
            Fed::FloatLiteral(t) => a.push_literal_bits(t, tok.parse::<f64>().unwrap().to_bits()),
        }
    }
    Ok(a.output().clone())
}

fn machine(program: Vec<u8>) -> StackUpperVector {
    let mut vm = StackUpperVector::new();
    vm.set_program(program);
    vm.init();
    vm
}

fn show(t: Ty, bits: u64) -> String {
    match t {
        Ty::Bool => format!("{}", bits != 0),
        Ty::F32 => format!("{:.3}", f32::from_bits(bits as u32)),
        Ty::F64 => format!("{:.3}", f64::from_bits(bits)),
        _ => format!("{}", value_of(t, bits)),
    }
}

fn run(src: &str) -> Result<Vec<String>, VmError> {
    let program = assemble(src).unwrap();
    let mut vm = machine(program);
    let mut out = Vec::new();
    loop {
        match vm.do_Token()? {
            Event::Next => {}
            Event::Halt => return Ok(out),
            Event::Output(t, bits) => out.push(show(t, bits)),
            Event::Float(FloatOp::Cast(from, Ty::F64)) => {
                let bits = vm.pop_bits(from.width())?;
                let v = value_of(from, bits) as f64;
                vm.push_bits(8, v.to_bits())?;
            }
            Event::Float(op) => panic!("float work not covered here: {:?}", op),
        }
    }
}

#[test]
fn scenario_arithmetic() {
    let src = "push i32 12 push i32 2 push i32 3 push i32 4 multiply i32 push i32 10 push i32 5 divide i32 add i32 multiply i32 add u32 pop i32";
    assert_eq!(run(src).unwrap(), vec!["40"]);
}

#[test]
fn scenario_long_chain() {
    let src = "push i32 1 push i32 2 push i32 3 push i32 4 push i32 5 push i32 6 push i32 7 push i32 8 push i32 9 push i32 20 push i32 10 divide i32 add i32 subtract i32 multiply i32 multiply i32 subtract i32 add i32 subtract i32 add i32 add i32 pop i32";
    assert_eq!(run(src).unwrap(), vec!["-129"]);
}

#[test]
fn scenario_logic_and() {
    assert_eq!(run("push bool false push bool true logic_and pop bool").unwrap(), vec!["false"]);
}

#[test]
fn scenario_logic_not() {
    assert_eq!(run("push bool true logic_not pop bool").unwrap(), vec!["false"]);
}

#[test]
fn scenario_counting_loop() {
    let src = "push i32 0 clone_push i32 push i32 10 compare_greater_equal i32 pop_goto_if_true 42 push i32 1 add i32 goto 6 peek i32 pop i32";
    assert_eq!(run(src).unwrap(), vec!["10", "10"]);
}

#[test]
fn scenario_cast_to_f64() {
    assert_eq!(run("push i32 7 type_cast i32 f64 peek f64 pop f64").unwrap(), vec!["7.000", "7.000"]);
}

#[test]
fn divide_rounds_toward_zero() {
    assert_eq!(run("push i32 -7 push i32 2 divide i32 pop i32").unwrap(), vec!["-3"]);
    assert_eq!(run("push i8 -128 push i8 -1 divide i8 pop i8").unwrap(), vec!["-128"]);
    assert_eq!(run("push u8 200 push u8 7 divide u8 pop u8").unwrap(), vec!["28"]);
}

#[test]
fn compare_greater_uses_second_push_as_right_operand() {
    assert_eq!(run("push i32 5 push i32 3 compare_greater i32 pop bool").unwrap(), vec!["true"]);
    assert_eq!(run("push i32 3 push i32 5 compare_greater i32 pop bool").unwrap(), vec!["false"]);
    assert_eq!(run("push i16 -1 push i16 1 compare_lesser i16 pop bool").unwrap(), vec!["true"]);
    assert_eq!(run("push u16 65535 push u16 1 compare_lesser u16 pop bool").unwrap(), vec!["false"]);
}

#[test]
fn wrapping_arithmetic() {
    assert_eq!(run("push u8 250 push u8 10 add u8 pop u8").unwrap(), vec!["4"]);
    assert_eq!(run("push i8 127 push i8 1 add i8 pop i8").unwrap(), vec!["-128"]);
    assert_eq!(run("push u32 0 push u32 1 subtract u32 pop u32").unwrap(), vec!["4294967295"]);
    assert_eq!(
        run("push u64 18446744073709551615 push u64 2 multiply u64 pop u64").unwrap(),
        vec!["18446744073709551614"]
    );
}

#[test]
fn integer_casts() {
    assert_eq!(run("push i32 -1 type_cast i32 u8 pop u8").unwrap(), vec!["255"]);
    assert_eq!(run("push u8 255 type_cast u8 i8 pop i8").unwrap(), vec!["-1"]);
    assert_eq!(run("push i8 -1 type_cast i8 u64 pop u64").unwrap(), vec!["18446744073709551615"]);
    assert_eq!(run("push i64 70000 type_cast i64 i16 pop i16").unwrap(), vec!["4464"]);
}

#[test]
fn cast_moves_cursor_by_width_difference() {
    let program = assemble("push i16 300 type_cast i16 i64").unwrap();
    let mut vm = machine(program);
    vm.do_Token().unwrap();
    assert_eq!(vm.stack_top(), 2);
    vm.do_Token().unwrap();
    assert_eq!(vm.stack_top(), 8);
}

#[test]
fn clone_push_copies_top() {
    let program = assemble("push u16 513 clone_push u16").unwrap();
    let mut vm = machine(program);
    vm.do_Token().unwrap();
    vm.do_Token().unwrap();
    assert_eq!(vm.stack_top(), 4);
    assert_eq!(vm.pop_bits(2).unwrap(), 513);
    assert_eq!(vm.pop_bits(2).unwrap(), 513);
}

#[test]
fn push_pop_balanced() {
    let program = assemble("push i64 -5 pop i64").unwrap();
    let mut vm = machine(program);
    vm.do_Token().unwrap();
    assert_eq!(vm.stack_top(), 8);
    assert_eq!(vm.do_Token().unwrap(), Event::Output(Ty::I64, (-5i64) as u64));
    assert_eq!(vm.stack_top(), 0);
    assert_eq!(vm.do_Token().unwrap(), Event::Halt);
}

fn with_index(mut bytes: Vec<u8>, id: u64) -> Vec<u8> {
    bytes.extend_from_slice(&id.to_le_bytes());
    bytes
}

fn run_bytes(program: Vec<u8>) -> Result<Vec<String>, VmError> {
    let mut vm = machine(program);
    let mut out = Vec::new();
    loop {
        match vm.do_Token()? {
            Event::Halt => return Ok(out),
            Event::Output(t, bits) => out.push(show(t, bits)),
            _ => {}
        }
    }
}

#[test]
fn store_and_load() {
    // push i32 -42; store i32 7; load i32 7; peek_store i32 100; load i32 100; pop i32; pop i32
    let mut p = assemble("push i32 -42").unwrap();
    p = with_index([p, vec![8, 27]].concat(), 7);
    p = with_index([p, vec![10, 27]].concat(), 7);
    p = with_index([p, vec![9, 27]].concat(), 100);
    p = with_index([p, vec![10, 27]].concat(), 100);
    p.extend_from_slice(&[1, 27, 1, 27]);
    assert_eq!(run_bytes(p).unwrap(), vec!["-42", "-42"]);
}

#[test]
fn store_index_is_read_as_a_literal_of_the_tag() {
    assert_eq!(assemble("store i32 7").unwrap(), vec![8, 27, 7, 0, 0, 0]);
}

#[test]
fn scratch_out_of_range() {
    let p = with_index([assemble("push u8 1").unwrap(), vec![8, 29]].concat(), 100000);
    assert_eq!(run_bytes(p), Err(VmError::ScratchOutOfRange));
    assert_eq!(run_bytes(with_index(vec![10, 32], 99993)), Err(VmError::ScratchOutOfRange));
    let p = with_index(vec![10, 32], 99992);
    assert_eq!(run_bytes([p, vec![1, 32]].concat()).unwrap(), vec!["0"]);
}

#[test]
fn stack_errors() {
    assert_eq!(run("pop i32"), Err(VmError::StackUnderflow));
    assert_eq!(run("push i8 1 add i8"), Err(VmError::StackUnderflow));
    let mut src = String::new();
    for _ in 0..1251 {
        src.push_str("push u64 1 ");
    }
    assert_eq!(run(&src), Err(VmError::StackOverflow));
}

#[test]
fn divide_by_zero_is_refused() {
    assert_eq!(run("push i32 1 push i32 0 divide i32"), Err(VmError::DivideByZero));
}

#[test]
fn type_errors() {
    assert_eq!(run("push bool true push bool true add bool"), Err(VmError::BadType(24)));
    assert_eq!(run("push i32 1 type_cast i32 i32"), Err(VmError::BadType(27)));
    assert_eq!(run("push bool true type_cast bool i32"), Err(VmError::BadType(24)));
    let mut vm = machine(vec![0, 40]);
    assert_eq!(vm.do_Token(), Err(VmError::BadType(40)));
}

#[test]
fn program_errors() {
    let mut vm = machine(vec![30]);
    assert_eq!(vm.do_Token(), Err(VmError::UnknownOpcode(30)));
    let mut vm = machine(vec![0, 27, 1]);
    assert_eq!(vm.do_Token(), Err(VmError::ProgramOverrun));
    assert_eq!(run("goto 100"), Err(VmError::ProgramOverrun));
    assert_eq!(run("goto 9").unwrap(), Vec::<String>::new());
}

#[test]
fn peek_goto_keeps_condition() {
    let src = "push bool true peek_goto_if_true 12 pop bool";
    assert_eq!(run(src).unwrap(), vec!["true"]);
}

#[test]
fn cast_to_u32_truncates() {
    assert_eq!(run("push i64 -1 type_cast i64 u32 pop u32").unwrap(), vec!["4294967295"]);
    assert_eq!(run("push u64 4294967301 type_cast u64 i32 pop i32").unwrap(), vec!["5"]);
}

#[test]
fn named_instruction_methods_read_operands_at_cursor() {
    let mut program = Vec::new();
    program.extend_from_slice(&9i32.to_le_bytes());
    program.extend_from_slice(&4i32.to_le_bytes());
    program.extend_from_slice(&3u64.to_le_bytes());
    program.extend_from_slice(&3u64.to_le_bytes());
    program.extend_from_slice(&20u64.to_le_bytes());
    program.extend_from_slice(&20u64.to_le_bytes());
    program.extend_from_slice(&[7u8]);
    let mut vm = machine(program);
    assert_eq!(vm.push(Ty::I32), Ok(Event::Next));
    assert_eq!(vm.pc(), 4);
    assert_eq!(vm.push(Ty::I32), Ok(Event::Next));
    assert_eq!(vm.pc(), 8);
    assert_eq!(vm.subtract(Ty::I32), Ok(Event::Next));
    assert_eq!(vm.clone_push(Ty::I32), Ok(Event::Next));
    assert_eq!(vm.multiply(Ty::I32), Ok(Event::Next));
    assert_eq!(vm.stack_top(), 4);
    assert_eq!(vm.store(Ty::I32), Ok(Event::Next));
    assert_eq!((vm.pc(), vm.stack_top()), (16, 0));
    assert_eq!(vm.load(Ty::I32), Ok(Event::Next));
    assert_eq!((vm.pc(), vm.stack_top()), (24, 4));
    assert_eq!(vm.peek_store(Ty::I32), Ok(Event::Next));
    assert_eq!((vm.pc(), vm.stack_top()), (32, 4));
    assert_eq!(vm.load(Ty::I32), Ok(Event::Next));
    assert_eq!(vm.pc(), 40);
    assert_eq!(vm.compare_equal(Ty::I32), Ok(Event::Next));
    assert_eq!(vm.pop_bits(1), Ok(1));
    assert_eq!(vm.push(Ty::U8), Ok(Event::Next));
    assert_eq!(vm.pc(), 41);
    assert_eq!(vm.pop_bits(1), Ok(7));
    assert_eq!(vm.push(Ty::U8), Err(VmError::ProgramOverrun));
    assert_eq!((vm.pc(), vm.stack_top()), (41, 0));
}

#[test]
fn errors_leave_state_unchanged() {
    let mut vm = machine(vec![0, 27, 1, 0, 0, 0, 4, 24, 23, 27, 27, 30]);
    assert_eq!(vm.do_Token(), Ok(Event::Next));
    assert_eq!(vm.do_Token(), Err(VmError::BadType(24)));
    assert_eq!((vm.pc(), vm.stack_top()), (6, 4));
    let mut vm = machine(vec![23, 27, 27]);
    assert_eq!(vm.do_Token(), Err(VmError::BadType(27)));
    assert_eq!((vm.pc(), vm.stack_top()), (0, 0));
    let mut vm = machine(vec![30]);
    assert_eq!(vm.do_Token(), Err(VmError::UnknownOpcode(30)));
    assert_eq!(vm.pc(), 0);
}

#[test]
fn balanced_sequence_returns_cursor() {
    let program = assemble("push i8 -3 push i64 99 push u16 7 pop u16 pop i64 push u32 1 pop u32 pop i8").unwrap();
    let mut vm = machine(program);
    let mut tops = Vec::new();
    while vm.do_Token().unwrap() != Event::Halt {
        tops.push(vm.stack_top());
    }
    assert_eq!(tops, vec![1, 9, 11, 9, 1, 5, 1, 0]);
}
