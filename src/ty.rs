use vstd::prelude::*;

verus! {

/// Opcode bytes of the instruction stream, dense from zero.
pub const PUSH: u8 = 0;
pub const POP: u8 = 1;
pub const PEEK: u8 = 2;
pub const CLONE_PUSH: u8 = 3;
pub const ADD: u8 = 4;
pub const SUBTRACT: u8 = 5;
pub const MULTIPLY: u8 = 6;
pub const DIVIDE: u8 = 7;
pub const STORE: u8 = 8;
pub const PEEK_STORE: u8 = 9;
pub const LOAD: u8 = 10;
pub const GOTO: u8 = 11;
pub const POP_GOTO_IF_TRUE: u8 = 12;
pub const PEEK_GOTO_IF_TRUE: u8 = 13;
pub const LOGIC_AND: u8 = 14;
pub const LOGIC_OR: u8 = 15;
pub const LOGIC_NOT: u8 = 16;
pub const COMPARE_EQUAL: u8 = 17;
pub const COMPARE_NOT_EQUAL: u8 = 18;
pub const COMPARE_GREATER: u8 = 19;
pub const COMPARE_GREATER_EQUAL: u8 = 20;
pub const COMPARE_LESSER: u8 = 21;
pub const COMPARE_LESSER_EQUAL: u8 = 22;
pub const TYPE_CAST: u8 = 23;
/// The first and last type-tag bytes.
pub const TAG_FIRST: u8 = 24;
pub const TAG_LAST: u8 = 34;

/// The primitive value types of the machine.
#[derive(Clone, Copy, Debug, PartialEq, Eq, Structural)]
pub enum Ty {
    Bool,
    I8,
    I16,
    I32,
    I64,
    U8,
    U16,
    U32,
    U64,
    F32,
    F64,
}

impl Ty {
    pub open spec fn spec_tag(self) -> u8 {
        match self {
            Ty::Bool => 24,
            Ty::I8 => 25,
            Ty::I16 => 26,
            Ty::I32 => 27,
            Ty::I64 => 28,
            Ty::U8 => 29,
            Ty::U16 => 30,
            Ty::U32 => 31,
            Ty::U64 => 32,
            Ty::F32 => 33,
            Ty::F64 => 34,
        }
    }

    pub open spec fn spec_width(self) -> nat {
        match self {
            Ty::Bool | Ty::I8 | Ty::U8 => 1,
            Ty::I16 | Ty::U16 => 2,
            Ty::I32 | Ty::U32 | Ty::F32 => 4,
            Ty::I64 | Ty::U64 | Ty::F64 => 8,
        }
    }

    pub open spec fn is_signed(self) -> bool {
        self is I8 || self is I16 || self is I32 || self is I64
    }

    pub open spec fn is_int(self) -> bool {
        !(self is Bool || self is F32 || self is F64)
    }

    pub open spec fn is_float(self) -> bool {
        self is F32 || self is F64
    }

    /// The type-tag byte of this type.
    pub fn tag(self) -> (r: u8)
        ensures
            r == self.spec_tag(),
    {
        match self {
            Ty::Bool => 24,
            Ty::I8 => 25,
            Ty::I16 => 26,
            Ty::I32 => 27,
            Ty::I64 => 28,
            Ty::U8 => 29,
            Ty::U16 => 30,
            Ty::U32 => 31,
            Ty::U64 => 32,
            Ty::F32 => 33,
            Ty::F64 => 34,
        }
    }

    /// The width in bytes of a value of this type.
    pub fn width(self) -> (r: usize)
        ensures
            r == self.spec_width(),
            r == 1 || r == 2 || r == 4 || r == 8,
    {
        match self {
            Ty::Bool | Ty::I8 | Ty::U8 => 1,
            Ty::I16 | Ty::U16 => 2,
            Ty::I32 | Ty::U32 | Ty::F32 => 4,
            Ty::I64 | Ty::U64 | Ty::F64 => 8,
        }
    }

    pub fn signed(self) -> (r: bool)
        ensures
            r == self.is_signed(),
    {
        match self {
            Ty::I8 | Ty::I16 | Ty::I32 | Ty::I64 => true,
            _ => false,
        }
    }

    pub fn float(self) -> (r: bool)
        ensures
            r == self.is_float(),
    {
        match self {
            Ty::F32 | Ty::F64 => true,
            _ => false,
        }
    }

    /// The type named by a tag byte, if the byte is a type tag.
    pub fn from_tag(b: u8) -> (r: Option<Ty>)
        ensures
            r == ty_of_tag(b),
            r is Some <==> TAG_FIRST <= b <= TAG_LAST,
            r is Some ==> r->0.spec_tag() == b,
    {
        match b {
            24 => Some(Ty::Bool),
            25 => Some(Ty::I8),
            26 => Some(Ty::I16),
            27 => Some(Ty::I32),
            28 => Some(Ty::I64),
            29 => Some(Ty::U8),
            30 => Some(Ty::U16),
            31 => Some(Ty::U32),
            32 => Some(Ty::U64),
            33 => Some(Ty::F32),
            34 => Some(Ty::F64),
            _ => None,
        }
    }
}

/// The type that a tag byte names.
pub open spec fn ty_of_tag(b: u8) -> Option<Ty> {
    if b == 24 {
        Some(Ty::Bool)
    } else if b == 25 {
        Some(Ty::I8)
    } else if b == 26 {
        Some(Ty::I16)
    } else if b == 27 {
        Some(Ty::I32)
    } else if b == 28 {
        Some(Ty::I64)
    } else if b == 29 {
        Some(Ty::U8)
    } else if b == 30 {
        Some(Ty::U16)
    } else if b == 31 {
        Some(Ty::U32)
    } else if b == 32 {
        Some(Ty::U64)
    } else if b == 33 {
        Some(Ty::F32)
    } else if b == 34 {
        Some(Ty::F64)
    } else {
        None
    }
}

/// Whether an opcode is followed by an eight-byte branch target.
pub open spec fn is_branch(b: u8) -> bool {
    b == GOTO || b == POP_GOTO_IF_TRUE || b == PEEK_GOTO_IF_TRUE
}

} // verus!
