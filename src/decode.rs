use vstd::prelude::*;
use crate::bytes::{le_val, read_le};
use crate::numeric::{ArithOp, CmpOp};
use crate::stack::VmError;
use crate::ty::{
    ty_of_tag, Ty, ADD, CLONE_PUSH, COMPARE_EQUAL, COMPARE_GREATER, COMPARE_GREATER_EQUAL,
    COMPARE_LESSER, COMPARE_NOT_EQUAL, DIVIDE, GOTO, LOAD, LOGIC_AND, LOGIC_NOT, LOGIC_OR,
    MULTIPLY, PEEK, PEEK_GOTO_IF_TRUE, PEEK_STORE, POP, POP_GOTO_IF_TRUE, PUSH, STORE, SUBTRACT,
    TYPE_CAST,
};

verus! {

/// One decoded instruction with its operands.
#[derive(Clone, Copy, Debug, PartialEq, Eq, Structural)]
pub enum Instr {
    Push(Ty, u64),
    Pop(Ty),
    Peek(Ty),
    ClonePush(Ty),
    Arith(ArithOp, Ty),
    Store(Ty, u64),
    PeekStore(Ty, u64),
    Load(Ty, u64),
    Goto(u64),
    PopGotoIfTrue(u64),
    PeekGotoIfTrue(u64),
    LogicAnd,
    LogicOr,
    LogicNot,
    Compare(CmpOp, Ty),
    TypeCast(Ty, Ty),
}

/// The eight-byte number at `at`.
pub open spec fn word_at(p: Seq<u8>, at: int) -> u64 {
    le_val(p.subrange(at, at + 8)) as u64
}

pub open spec fn arith_op_of(op: u8) -> ArithOp {
    if op == ADD {
        ArithOp::Add
    } else if op == SUBTRACT {
        ArithOp::Subtract
    } else if op == MULTIPLY {
        ArithOp::Multiply
    } else {
        ArithOp::Divide
    }
}

pub open spec fn cmp_op_of(op: u8) -> CmpOp {
    if op == COMPARE_EQUAL {
        CmpOp::Equal
    } else if op == COMPARE_NOT_EQUAL {
        CmpOp::NotEqual
    } else if op == COMPARE_GREATER {
        CmpOp::Greater
    } else if op == COMPARE_GREATER_EQUAL {
        CmpOp::GreaterEqual
    } else if op == COMPARE_LESSER {
        CmpOp::Lesser
    } else {
        CmpOp::LesserEqual
    }
}

/// Decodes an instruction of opcode `op` whose type tag `t` stands at `pc + 1`.
pub open spec fn decode_typed(p: Seq<u8>, pc: int, op: u8, t: Ty) -> Result<(Instr, usize), VmError> {
    let w = t.spec_width();
    if op == PUSH {
        if pc + 2 + w > p.len() {
            Err(VmError::ProgramOverrun)
        } else {
            Ok((Instr::Push(t, le_val(p.subrange(pc + 2, pc + 2 + w)) as u64), (pc + 2 + w) as usize))
        }
    } else if op == POP {
        Ok((Instr::Pop(t), (pc + 2) as usize))
    } else if op == PEEK {
        Ok((Instr::Peek(t), (pc + 2) as usize))
    } else if op == CLONE_PUSH {
        Ok((Instr::ClonePush(t), (pc + 2) as usize))
    } else if op == STORE || op == PEEK_STORE || op == LOAD {
        if pc + 10 > p.len() {
            Err(VmError::ProgramOverrun)
        } else {
            let id = word_at(p, pc + 2);
            Ok(
                (
                    if op == STORE {
                        Instr::Store(t, id)
                    } else if op == PEEK_STORE {
                        Instr::PeekStore(t, id)
                    } else {
                        Instr::Load(t, id)
                    },
                    (pc + 10) as usize,
                ),
            )
        }
    } else if t is Bool {
        Err(VmError::BadType(p[pc + 1]))
    } else if ADD <= op <= DIVIDE {
        Ok((Instr::Arith(arith_op_of(op), t), (pc + 2) as usize))
    } else {
        Ok((Instr::Compare(cmp_op_of(op), t), (pc + 2) as usize))
    }
}

/// Decodes the instruction at `pc`, with the offset of the next one.
pub open spec fn spec_decode(p: Seq<u8>, pc: int) -> Result<(Instr, usize), VmError> {
    let op = p[pc];
    if op == GOTO || op == POP_GOTO_IF_TRUE || op == PEEK_GOTO_IF_TRUE {
        if pc + 9 > p.len() {
            Err(VmError::ProgramOverrun)
        } else {
            let target = word_at(p, pc + 1);
            Ok(
                (
                    if op == GOTO {
                        Instr::Goto(target)
                    } else if op == POP_GOTO_IF_TRUE {
                        Instr::PopGotoIfTrue(target)
                    } else {
                        Instr::PeekGotoIfTrue(target)
                    },
                    (pc + 9) as usize,
                ),
            )
        }
    } else if op == LOGIC_AND {
        Ok((Instr::LogicAnd, (pc + 1) as usize))
    } else if op == LOGIC_OR {
        Ok((Instr::LogicOr, (pc + 1) as usize))
    } else if op == LOGIC_NOT {
        Ok((Instr::LogicNot, (pc + 1) as usize))
    } else if op > TYPE_CAST {
        Err(VmError::UnknownOpcode(op))
    } else if pc + 2 > p.len() {
        Err(VmError::ProgramOverrun)
    } else if ty_of_tag(p[pc + 1]) is None {
        Err(VmError::BadType(p[pc + 1]))
    } else if op == TYPE_CAST {
        let from = ty_of_tag(p[pc + 1])->0;
        if from is Bool {
            Err(VmError::BadType(p[pc + 1]))
        } else if pc + 3 > p.len() {
            Err(VmError::ProgramOverrun)
        } else {
            match ty_of_tag(p[pc + 2]) {
                None => Err(VmError::BadType(p[pc + 2])),
                Some(to) => if to is Bool || to == from {
                    Err(VmError::BadType(p[pc + 2]))
                } else {
                    Ok((Instr::TypeCast(from, to), (pc + 3) as usize))
                },
            }
        }
    } else {
        decode_typed(p, pc, op, ty_of_tag(p[pc + 1])->0)
    }
}

fn word(p: &Vec<u8>, at: usize) -> (r: u64)
    requires
        at + 8 <= p@.len(),
    ensures
        r == word_at(p@, at as int),
{
    read_le(p, at, 8)
}

/// Decodes the instruction that starts at byte `pc` of the program.
pub fn decode(p: &Vec<u8>, pc: usize) -> (r: Result<(Instr, usize), VmError>)
    requires
        pc < p@.len(),
    ensures
        r == spec_decode(p@, pc as int),
        r is Ok ==> pc < r->Ok_0.1 <= p@.len(),
{
    let n = p.len();
    let op = p[pc];
    if op == GOTO || op == POP_GOTO_IF_TRUE || op == PEEK_GOTO_IF_TRUE {
        if n - pc < 9 {
            return Err(VmError::ProgramOverrun);
        }
        let target = word(p, pc + 1);
        let i = if op == GOTO {
            Instr::Goto(target)
        } else if op == POP_GOTO_IF_TRUE {
            Instr::PopGotoIfTrue(target)
        } else {
            Instr::PeekGotoIfTrue(target)
        };
        return Ok((i, pc + 9));
    }
    if op == LOGIC_AND {
        return Ok((Instr::LogicAnd, pc + 1));
    }
    if op == LOGIC_OR {
        return Ok((Instr::LogicOr, pc + 1));
    }
    if op == LOGIC_NOT {
        return Ok((Instr::LogicNot, pc + 1));
    }
    if op > TYPE_CAST {
        return Err(VmError::UnknownOpcode(op));
    }
    if n - pc < 2 {
        return Err(VmError::ProgramOverrun);
    }
    let tb = p[pc + 1];
    let t = match Ty::from_tag(tb) {
        None => {
            return Err(VmError::BadType(tb));
        },
        Some(t) => t,
    };
    if op == TYPE_CAST {
        if t == Ty::Bool {
            return Err(VmError::BadType(tb));
        }
        if n - pc < 3 {
            return Err(VmError::ProgramOverrun);
        }
        let tb2 = p[pc + 2];
        return match Ty::from_tag(tb2) {
            None => Err(VmError::BadType(tb2)),
            Some(to) => if to == Ty::Bool || to == t {
                Err(VmError::BadType(tb2))
            } else {
                Ok((Instr::TypeCast(t, to), pc + 3))
            },
        };
    }
    let w = t.width();
    if op == PUSH {
        if n - pc < 2 + w {
            return Err(VmError::ProgramOverrun);
        }
        let x = read_le(p, pc + 2, w);
        return Ok((Instr::Push(t, x), pc + 2 + w));
    }
    if op == POP {
        return Ok((Instr::Pop(t), pc + 2));
    }
    if op == PEEK {
        return Ok((Instr::Peek(t), pc + 2));
    }
    if op == CLONE_PUSH {
        return Ok((Instr::ClonePush(t), pc + 2));
    }
    if op == STORE || op == PEEK_STORE || op == LOAD {
        if n - pc < 10 {
            return Err(VmError::ProgramOverrun);
        }
        let id = word(p, pc + 2);
        let i = if op == STORE {
            Instr::Store(t, id)
        } else if op == PEEK_STORE {
            Instr::PeekStore(t, id)
        } else {
            Instr::Load(t, id)
        };
        return Ok((i, pc + 10));
    }
    if t == Ty::Bool {
        return Err(VmError::BadType(tb));
    }
    if op <= DIVIDE {
        let a = if op == ADD {
            ArithOp::Add
        } else if op == SUBTRACT {
            ArithOp::Subtract
        } else if op == MULTIPLY {
            ArithOp::Multiply
        } else {
            ArithOp::Divide
        };
        return Ok((Instr::Arith(a, t), pc + 2));
    }
    let c = if op == COMPARE_EQUAL {
        CmpOp::Equal
    } else if op == COMPARE_NOT_EQUAL {
        CmpOp::NotEqual
    } else if op == COMPARE_GREATER {
        CmpOp::Greater
    } else if op == COMPARE_GREATER_EQUAL {
        CmpOp::GreaterEqual
    } else if op == COMPARE_LESSER {
        CmpOp::Lesser
    } else {
        CmpOp::LesserEqual
    };
    Ok((Instr::Compare(c, t), pc + 2))
}

} // verus!
