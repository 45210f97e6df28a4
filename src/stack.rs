use vstd::prelude::*;
use crate::bytes::{le_bytes, le_val, lemma_le_bytes_len, lemma_le_bytes_of_val, lemma_le_val_bound, push_le, read_le};
use crate::numeric::{arith, arith_spec, cast_int, cmp_spec, compare, num_val, wrap, ArithOp, CmpOp};
use crate::ty::Ty;

verus! {

/// Bytes available to the operand stack.
pub const STACK_CAPACITY: usize = 10000;
/// Bytes of the scratch buffer.
pub const SCRATCH_SIZE: usize = 100000;

/// Why execution stopped.
#[derive(Clone, Copy, Debug, PartialEq, Eq, Structural)]
pub enum VmError {
    /// A push would pass the stack's capacity.
    StackOverflow,
    /// A pop or peek found fewer bytes than its width.
    StackUnderflow,
    /// A scratch access reaches past the buffer.
    ScratchOutOfRange,
    /// An integer division by zero.
    DivideByZero,
    /// A byte that is no opcode where an opcode is expected.
    UnknownOpcode(u8),
    /// A type tag outside the instruction's legal set.
    BadType(u8),
    /// An instruction runs past the program's end, or a branch leaves it.
    ProgramOverrun,
}

/// The last `w` bytes of `s`, read as a number.
pub open spec fn top_bits(s: Seq<u8>, w: nat) -> nat {
    le_val(s.subrange(s.len() - w, s.len() as int))
}

/// `s` without its last `w` bytes.
pub open spec fn below(s: Seq<u8>, w: nat) -> Seq<u8> {
    s.subrange(0, s.len() - w)
}

pub open spec fn bool_byte(b: bool) -> nat {
    if b {
        1
    } else {
        0
    }
}

/// A contiguous byte stack whose top is the end of its contents.
pub struct StackArray {
    bytes: Vec<u8>,
}

impl View for StackArray {
    type V = Seq<u8>;

    closed spec fn view(&self) -> Seq<u8> {
        self.bytes@
    }
}

impl StackArray {
    pub open spec fn wf(&self) -> bool {
        self@.len() <= STACK_CAPACITY
    }

    pub fn new() -> (r: StackArray)
        ensures
            r@ == Seq::<u8>::empty(),
            r.wf(),
    {
        StackArray { bytes: Vec::new() }
    }

    /// Empties the stack.
    pub fn init(&mut self)
        ensures
            final(self)@ == Seq::<u8>::empty(),
            final(self).wf(),
    {
        self.bytes = Vec::new();
    }

    /// The cursor: the number of bytes in use.
    pub fn top(&self) -> (r: usize)
        ensures
            r == self@.len(),
    {
        self.bytes.len()
    }

    /// Pushes the low `w` bytes of `bits`.
    pub fn push_bits(&mut self, w: usize, bits: u64) -> (r: Result<(), VmError>)
        requires
            old(self).wf(),
            w <= 8,
        ensures
            final(self).wf(),
            r is Ok <==> old(self)@.len() + w <= STACK_CAPACITY,
            r is Ok ==> final(self)@ == old(self)@ + le_bytes(bits as nat, w as nat),
            r is Err ==> r == Err::<(), VmError>(VmError::StackOverflow) && final(self)@ == old(self)@,
    {
        if self.bytes.len() > STACK_CAPACITY - w {
            return Err(VmError::StackOverflow);
        }
        push_le(&mut self.bytes, bits, w);
        proof {
            lemma_le_bytes_len(bits as nat, w as nat);
        }
        Ok(())
    }

    /// Reads the top `w` bytes as a number without moving the cursor.
    pub fn peek_bits(&self, w: usize) -> (r: Result<u64, VmError>)
        requires
            w <= 8,
        ensures
            r is Ok <==> w <= self@.len(),
            r is Ok ==> r->Ok_0 as nat == top_bits(self@, w as nat),
            r is Err ==> r == Err::<u64, VmError>(VmError::StackUnderflow),
    {
        let n = self.bytes.len();
        if n < w {
            return Err(VmError::StackUnderflow);
        }
        Ok(read_le(&self.bytes, n - w, w))
    }

    /// Removes the top `w` bytes and returns them as a number.
    pub fn pop_bits(&mut self, w: usize) -> (r: Result<u64, VmError>)
        requires
            old(self).wf(),
            w <= 8,
        ensures
            final(self).wf(),
            r is Ok <==> w <= old(self)@.len(),
            r is Ok ==> r->Ok_0 as nat == top_bits(old(self)@, w as nat) && final(self)@
                == below(old(self)@, w as nat),
            r is Err ==> r == Err::<u64, VmError>(VmError::StackUnderflow) && final(self)@ == old(self)@,
    {
        let n = self.bytes.len();
        if n < w {
            return Err(VmError::StackUnderflow);
        }
        let v = read_le(&self.bytes, n - w, w);
        self.bytes.truncate(n - w);
        Ok(v)
    }

    /// The numbers held by the top two values of width `w`: first the lower one.
    fn top_two(&self, w: usize) -> (r: (u64, u64))
        requires
            w <= 8,
            2 * w <= self@.len(),
        ensures
            r.0 as nat == top_bits(below(self@, w as nat), w as nat),
            r.1 as nat == top_bits(self@, w as nat),
            (r.0 as nat) < crate::bytes::pow256(w as nat),
            (r.1 as nat) < crate::bytes::pow256(w as nat),
    {
        let n = self.bytes.len();
        let b = read_le(&self.bytes, n - w, w);
        let a = read_le(&self.bytes, n - 2 * w, w);
        proof {
            let s = self@;
            assert(below(s, w as nat).subrange(n - 2 * w, n - w) =~= s.subrange(n - 2 * w, n - w));
            lemma_le_val_bound(s.subrange(n - 2 * w, n - w));
            lemma_le_val_bound(s.subrange(n - w, n as int));
        }
        (a, b)
    }

    /// Replaces the top two values of integer type `t` with the result of `op`;
    /// the value pushed later is the right operand.
    pub fn arith(&mut self, op: ArithOp, t: Ty) -> (r: Result<(), VmError>)
        requires
            old(self).wf(),
            !t.is_float(),
        ensures
            final(self).wf(),
            r is Ok <==> 2 * t.spec_width() <= old(self)@.len() && !(op is Divide && top_bits(
                old(self)@,
                t.spec_width(),
            ) == 0),
            old(self)@.len() < 2 * t.spec_width() ==> r == Err::<(), VmError>(VmError::StackUnderflow),
            2 * t.spec_width() <= old(self)@.len() && op is Divide && top_bits(old(self)@, t.spec_width())
                == 0 ==> r == Err::<(), VmError>(VmError::DivideByZero),
            r is Ok ==> final(self)@ == below(old(self)@, 2 * t.spec_width()) + le_bytes(
                arith_spec(
                    op,
                    t,
                    top_bits(below(old(self)@, t.spec_width()), t.spec_width()),
                    top_bits(old(self)@, t.spec_width()),
                ),
                t.spec_width(),
            ),
            r is Err ==> final(self)@ == old(self)@,
    {
        let w = t.width();
        let n = self.bytes.len();
        if n < 2 * w {
            return Err(VmError::StackUnderflow);
        }
        let (a, b) = self.top_two(w);
        if op == ArithOp::Divide && b == 0 {
            return Err(VmError::DivideByZero);
        }
        let v = arith(op, t, a, b);
        self.bytes.truncate(n - 2 * w);
        push_le(&mut self.bytes, v, w);
        proof {
            lemma_le_bytes_len(v as nat, w as nat);
        }
        Ok(())
    }

    /// Replaces the top two values of integer type `t` with the boolean `op`
    /// gives; the value pushed later is the right operand.
    pub fn compare(&mut self, op: CmpOp, t: Ty) -> (r: Result<(), VmError>)
        requires
            old(self).wf(),
            !t.is_float(),
        ensures
            final(self).wf(),
            r is Ok <==> 2 * t.spec_width() <= old(self)@.len(),
            r is Ok ==> final(self)@ == below(old(self)@, 2 * t.spec_width()) + le_bytes(
                bool_byte(
                    cmp_spec(
                        op,
                        num_val(t, top_bits(below(old(self)@, t.spec_width()), t.spec_width())),
                        num_val(t, top_bits(old(self)@, t.spec_width())),
                    ),
                ),
                1,
            ),
            r is Err ==> r == Err::<(), VmError>(VmError::StackUnderflow) && final(self)@ == old(self)@,
    {
        let w = t.width();
        let n = self.bytes.len();
        if n < 2 * w {
            return Err(VmError::StackUnderflow);
        }
        let (a, b) = self.top_two(w);
        let c = compare(op, t, a, b);
        self.bytes.truncate(n - 2 * w);
        push_le(&mut self.bytes, if c { 1 } else { 0 }, 1);
        proof {
            lemma_le_bytes_len(bool_byte(c), 1);
        }
        Ok(())
    }

    /// Replaces the top two booleans with their conjunction (`or_` false) or
    /// disjunction (`or_` true); a byte other than zero is true.
    pub fn logic(&mut self, or_: bool) -> (r: Result<(), VmError>)
        requires
            old(self).wf(),
        ensures
            final(self).wf(),
            r is Ok <==> 2 <= old(self)@.len(),
            r is Ok ==> final(self)@ == below(old(self)@, 2) + le_bytes(
                bool_byte(
                    if or_ {
                        top_bits(below(old(self)@, 1), 1) != 0 || top_bits(old(self)@, 1) != 0
                    } else {
                        top_bits(below(old(self)@, 1), 1) != 0 && top_bits(old(self)@, 1) != 0
                    },
                ),
                1,
            ),
            r is Err ==> r == Err::<(), VmError>(VmError::StackUnderflow) && final(self)@ == old(self)@,
    {
        let n = self.bytes.len();
        if n < 2 {
            return Err(VmError::StackUnderflow);
        }
        let (a, b) = self.top_two(1);
        let c = if or_ {
            a != 0 || b != 0
        } else {
            a != 0 && b != 0
        };
        self.bytes.truncate(n - 2);
        push_le(&mut self.bytes, if c { 1 } else { 0 }, 1);
        proof {
            lemma_le_bytes_len(bool_byte(c), 1);
        }
        Ok(())
    }

    /// Complements the boolean on top.
    pub fn logic_not(&mut self) -> (r: Result<(), VmError>)
        requires
            old(self).wf(),
        ensures
            final(self).wf(),
            r is Ok <==> 1 <= old(self)@.len(),
            r is Ok ==> final(self)@ == below(old(self)@, 1) + le_bytes(
                bool_byte(top_bits(old(self)@, 1) == 0),
                1,
            ),
            r is Err ==> r == Err::<(), VmError>(VmError::StackUnderflow) && final(self)@ == old(self)@,
    {
        let a = self.pop_bits(1)?;
        self.push_bits(1, if a == 0 { 1 } else { 0 })
    }

    /// Pushes a copy of the top `w` bytes.
    pub fn clone_top(&mut self, w: usize) -> (r: Result<(), VmError>)
        requires
            old(self).wf(),
            w <= 8,
        ensures
            final(self).wf(),
            r is Ok <==> w <= old(self)@.len() && old(self)@.len() + w <= STACK_CAPACITY,
            old(self)@.len() < w ==> r == Err::<(), VmError>(VmError::StackUnderflow),
            w <= old(self)@.len() && r is Err ==> r == Err::<(), VmError>(VmError::StackOverflow),
            r is Ok ==> final(self)@ == old(self)@ + old(self)@.subrange(
                old(self)@.len() - w,
                old(self)@.len() as int,
            ),
            r is Err ==> final(self)@ == old(self)@,
    {
        let v = self.peek_bits(w)?;
        proof {
            lemma_le_bytes_of_val(self@.subrange(self@.len() - w, self@.len() as int));
        }
        self.push_bits(w, v)
    }

    /// Converts the integer of type `from` on top to type `to`, as Rust's `as`
    /// does; the cursor moves by the difference of the two widths.
    pub fn cast_int(&mut self, from: Ty, to: Ty) -> (r: Result<(), VmError>)
        requires
            old(self).wf(),
            !from.is_float(),
            !to.is_float(),
        ensures
            final(self).wf(),
            r is Ok <==> from.spec_width() <= old(self)@.len() && old(self)@.len() - from.spec_width()
                + to.spec_width() <= STACK_CAPACITY,
            old(self)@.len() < from.spec_width() ==> r == Err::<(), VmError>(VmError::StackUnderflow),
            from.spec_width() <= old(self)@.len() && r is Err ==> r == Err::<(), VmError>(VmError::StackOverflow),
            r is Ok ==> final(self)@ == below(old(self)@, from.spec_width()) + le_bytes(
                wrap(to, num_val(from, top_bits(old(self)@, from.spec_width()))),
                to.spec_width(),
            ),
            r is Err ==> final(self)@ == old(self)@,
    {
        let wf = from.width();
        let wt = to.width();
        let n = self.bytes.len();
        if n < wf {
            return Err(VmError::StackUnderflow);
        }
        if n - wf > STACK_CAPACITY - wt {
            return Err(VmError::StackOverflow);
        }
        let bits = read_le(&self.bytes, n - wf, wf);
        proof {
            lemma_le_val_bound(self@.subrange(n - wf, n as int));
        }
        let v = cast_int(from, to, bits);
        self.bytes.truncate(n - wf);
        push_le(&mut self.bytes, v, wt);
        proof {
            lemma_le_bytes_len(v as nat, wt as nat);
        }
        Ok(())
    }
}

} // verus!
