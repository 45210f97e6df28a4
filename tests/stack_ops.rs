use stackvm::numeric::ArithOp;
use stackvm::stack::StackArray;
use stackvm::ty::Ty;

fn push_i32(s: &mut StackArray, v: i32) {
    s.push_bits(4, v as u32 as u64).unwrap();
}

fn pop_i32(s: &mut StackArray) -> i32 {
    s.pop_bits(4).unwrap() as u32 as i32
}

fn push_bool(s: &mut StackArray, b: bool) {
    s.push_bits(1, if b { 1 } else { 0 }).unwrap();
}

fn pop_bool(s: &mut StackArray) -> bool {
    s.pop_bits(1).unwrap() != 0
}

#[test]
fn test1() {
    let mut stack = StackArray::new();
    stack.init();
    for v in [12, 2, 3, 4] {
        push_i32(&mut stack, v);
    }
    stack.arith(ArithOp::Multiply, Ty::I32).unwrap();
    push_i32(&mut stack, 10);
    push_i32(&mut stack, 5);
    stack.arith(ArithOp::Divide, Ty::I32).unwrap();
    stack.arith(ArithOp::Add, Ty::I32).unwrap();
    stack.arith(ArithOp::Multiply, Ty::I32).unwrap();
    stack.arith(ArithOp::Add, Ty::U32).unwrap();
    assert_eq!(pop_i32(&mut stack), 40);
    assert_eq!(stack.top(), 0);
}

#[test]
fn test2() {
    let mut stack = StackArray::new();
    stack.init();
    for v in [1, 2, 3, 4, 5, 6, 7, 8, 9, 20, 10] {
        push_i32(&mut stack, v);
    }
    stack.arith(ArithOp::Divide, Ty::I32).unwrap();
    stack.arith(ArithOp::Add, Ty::I32).unwrap();
    stack.arith(ArithOp::Subtract, Ty::I32).unwrap();
    stack.arith(ArithOp::Multiply, Ty::I32).unwrap();
    stack.arith(ArithOp::Multiply, Ty::I32).unwrap();
    stack.arith(ArithOp::Subtract, Ty::I32).unwrap();
    stack.arith(ArithOp::Add, Ty::I32).unwrap();
    stack.arith(ArithOp::Subtract, Ty::I32).unwrap();
    stack.arith(ArithOp::Add, Ty::I32).unwrap();
    stack.arith(ArithOp::Add, Ty::I32).unwrap();
    assert_eq!(pop_i32(&mut stack), -129);
    assert_eq!(stack.top(), 0);
}

#[test]
fn test3() {
    let mut stack = StackArray::new();
    stack.init();
    for v in [12, 2, 3, 4] {
        push_i32(&mut stack, v);
    }
    stack.arith(ArithOp::Multiply, Ty::I32).unwrap();
    let value: i32 = -10;
    stack.push_bits(4, value as u32 as u64).unwrap();
    push_i32(&mut stack, 5);
    stack.arith(ArithOp::Divide, Ty::I32).unwrap();
    stack.arith(ArithOp::Add, Ty::I32).unwrap();
    stack.arith(ArithOp::Multiply, Ty::I32).unwrap();
    stack.arith(ArithOp::Add, Ty::U32).unwrap();
    assert_eq!(pop_i32(&mut stack), 32);
    assert_eq!(stack.top(), 0);
}

fn logic_case(or_: bool, a: bool, b: bool) -> bool {
    let mut stack = StackArray::new();
    push_bool(&mut stack, a);
    push_bool(&mut stack, b);
    stack.logic(or_).unwrap();
    let r = pop_bool(&mut stack);
    assert_eq!(stack.top(), 0);
    r
}

#[test]
fn test_logic_and() {
    assert_eq!(logic_case(false, false, false), false);
    assert_eq!(logic_case(false, false, true), false);
    assert_eq!(logic_case(false, true, false), false);
    assert_eq!(logic_case(false, true, true), true);
}

#[test]
fn test_logic_or() {
    assert_eq!(logic_case(true, false, false), false);
    assert_eq!(logic_case(true, false, true), true);
    assert_eq!(logic_case(true, true, false), true);
    assert_eq!(logic_case(true, true, true), true);
}

#[test]
fn test_logic_not() {
    let mut stack = StackArray::new();
    stack.init();
    push_bool(&mut stack, false);
    stack.logic_not().unwrap();
    assert_eq!(pop_bool(&mut stack), true);
    push_bool(&mut stack, true);
    stack.logic_not().unwrap();
    assert_eq!(pop_bool(&mut stack), false);
    assert_eq!(stack.top(), 0);
}
