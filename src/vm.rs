use vstd::prelude::*;
use crate::bytes::{le_bytes, le_val, lemma_le_bytes_of_val, read_le};
use crate::decode::{decode, spec_decode, word_at, Instr};
use crate::numeric::{arith_spec, cmp_spec, num_val, wrap, ArithOp, CmpOp};
use crate::scratch::{splice, BufferArray};
use crate::stack::{below, bool_byte, top_bits, StackArray, VmError, SCRATCH_SIZE, STACK_CAPACITY};
use crate::ty::Ty;

verus! {

/// A float instruction, left to the caller: the machine does no floating point.
/// The operands are on the stack, as for the integer form.
#[derive(Clone, Copy, Debug, PartialEq, Eq, Structural)]
pub enum FloatOp {
    Arith(ArithOp, Ty),
    Compare(CmpOp, Ty),
    Cast(Ty, Ty),
}

/// What one step of the machine asks of its caller.
#[derive(Clone, Copy, Debug, PartialEq, Eq, Structural)]
pub enum Event {
    /// Nothing: go on.
    Next,
    /// Print a value of the type, given by its bit pattern.
    Output(Ty, u64),
    /// Carry out a float instruction on the stack.
    Float(FloatOp),
    /// The program is done.
    Halt,
}

/// The machine's state as a mathematical value.
pub struct VmState {
    pub pc: nat,
    pub stack: Seq<u8>,
    pub scratch: Seq<u8>,
}

/// The number in the `w` bytes of `p` at `pc`.
pub open spec fn literal_at(p: Seq<u8>, pc: int, w: nat) -> nat {
    le_val(p.subrange(pc, pc + w))
}

pub open spec fn at(s: VmState, pc: nat, stack: Seq<u8>) -> VmState {
    VmState { pc, stack, scratch: s.scratch }
}

/// What executing `i`, whose successor starts at `next`, does to state `s`
/// in a program of `plen` bytes.
pub open spec fn spec_execute(i: Instr, next: nat, plen: nat, s: VmState) -> Result<(Event, VmState), VmError> {
    let st = s.stack;
    let n = st.len();
    match i {
        Instr::Push(t, x) => if n + t.spec_width() > STACK_CAPACITY {
            Err(VmError::StackOverflow)
        } else {
            Ok((Event::Next, at(s, next, st + le_bytes(x as nat, t.spec_width()))))
        },
        Instr::Pop(t) => if n < t.spec_width() {
            Err(VmError::StackUnderflow)
        } else {
            Ok((Event::Output(t, top_bits(st, t.spec_width()) as u64), at(s, next, below(st, t.spec_width()))))
        },
        Instr::Peek(t) => if n < t.spec_width() {
            Err(VmError::StackUnderflow)
        } else {
            Ok((Event::Output(t, top_bits(st, t.spec_width()) as u64), at(s, next, st)))
        },
        Instr::ClonePush(t) => if n < t.spec_width() {
            Err(VmError::StackUnderflow)
        } else if n + t.spec_width() > STACK_CAPACITY {
            Err(VmError::StackOverflow)
        } else {
            Ok((Event::Next, at(s, next, st + st.subrange(n - t.spec_width(), n as int))))
        },
        Instr::Arith(op, t) => if t.is_float() {
            Ok((Event::Float(FloatOp::Arith(op, t)), at(s, next, st)))
        } else if n < 2 * t.spec_width() {
            Err(VmError::StackUnderflow)
        } else if op is Divide && top_bits(st, t.spec_width()) == 0 {
            Err(VmError::DivideByZero)
        } else {
            let a = top_bits(below(st, t.spec_width()), t.spec_width());
            let b = top_bits(st, t.spec_width());
            Ok(
                (
                    Event::Next,
                    at(
                        s,
                        next,
                        below(st, 2 * t.spec_width()) + le_bytes(arith_spec(op, t, a, b), t.spec_width()),
                    ),
                ),
            )
        },
        Instr::Compare(op, t) => if t.is_float() {
            Ok((Event::Float(FloatOp::Compare(op, t)), at(s, next, st)))
        } else if n < 2 * t.spec_width() {
            Err(VmError::StackUnderflow)
        } else {
            let a = num_val(t, top_bits(below(st, t.spec_width()), t.spec_width()));
            let b = num_val(t, top_bits(st, t.spec_width()));
            Ok(
                (
                    Event::Next,
                    at(s, next, below(st, 2 * t.spec_width()) + le_bytes(bool_byte(cmp_spec(op, a, b)), 1)),
                ),
            )
        },
        Instr::LogicAnd => if n < 2 {
            Err(VmError::StackUnderflow)
        } else {
            let c = top_bits(below(st, 1), 1) != 0 && top_bits(st, 1) != 0;
            Ok((Event::Next, at(s, next, below(st, 2) + le_bytes(bool_byte(c), 1))))
        },
        Instr::LogicOr => if n < 2 {
            Err(VmError::StackUnderflow)
        } else {
            let c = top_bits(below(st, 1), 1) != 0 || top_bits(st, 1) != 0;
            Ok((Event::Next, at(s, next, below(st, 2) + le_bytes(bool_byte(c), 1))))
        },
        Instr::LogicNot => if n < 1 {
            Err(VmError::StackUnderflow)
        } else {
            Ok((Event::Next, at(s, next, below(st, 1) + le_bytes(bool_byte(top_bits(st, 1) == 0), 1))))
        },
        Instr::Store(t, id) => if id + t.spec_width() > SCRATCH_SIZE {
            Err(VmError::ScratchOutOfRange)
        } else if n < t.spec_width() {
            Err(VmError::StackUnderflow)
        } else {
            Ok(
                (
                    Event::Next,
                    VmState {
                        pc: next,
                        stack: below(st, t.spec_width()),
                        scratch: splice(s.scratch, id as nat, st.subrange(n - t.spec_width(), n as int)),
                    },
                ),
            )
        },
        Instr::PeekStore(t, id) => if id + t.spec_width() > SCRATCH_SIZE {
            Err(VmError::ScratchOutOfRange)
        } else if n < t.spec_width() {
            Err(VmError::StackUnderflow)
        } else {
            Ok(
                (
                    Event::Next,
                    VmState {
                        pc: next,
                        stack: st,
                        scratch: splice(s.scratch, id as nat, st.subrange(n - t.spec_width(), n as int)),
                    },
                ),
            )
        },
        Instr::Load(t, id) => if id + t.spec_width() > SCRATCH_SIZE {
            Err(VmError::ScratchOutOfRange)
        } else if n + t.spec_width() > STACK_CAPACITY {
            Err(VmError::StackOverflow)
        } else {
            Ok((Event::Next, at(s, next, st + s.scratch.subrange(id as int, id + t.spec_width()))))
        },
        Instr::Goto(target) => if target > plen {
            Err(VmError::ProgramOverrun)
        } else {
            Ok((Event::Next, at(s, target as nat, st)))
        },
        Instr::PopGotoIfTrue(target) => if n < 1 {
            Err(VmError::StackUnderflow)
        } else if top_bits(st, 1) != 0 && target > plen {
            Err(VmError::ProgramOverrun)
        } else {
            Ok(
                (
                    Event::Next,
                    at(s, if top_bits(st, 1) != 0 { target as nat } else { next }, below(st, 1)),
                ),
            )
        },
        Instr::PeekGotoIfTrue(target) => if n < 1 {
            Err(VmError::StackUnderflow)
        } else if top_bits(st, 1) != 0 && target > plen {
            Err(VmError::ProgramOverrun)
        } else {
            Ok((Event::Next, at(s, if top_bits(st, 1) != 0 { target as nat } else { next }, st)))
        },
        Instr::TypeCast(from, to) => if from.is_float() || to.is_float() {
            Ok((Event::Float(FloatOp::Cast(from, to)), at(s, next, st)))
        } else if n < from.spec_width() {
            Err(VmError::StackUnderflow)
        } else if n - from.spec_width() + to.spec_width() > STACK_CAPACITY {
            Err(VmError::StackOverflow)
        } else {
            Ok(
                (
                    Event::Next,
                    at(
                        s,
                        next,
                        below(st, from.spec_width()) + le_bytes(
                            wrap(to, num_val(from, top_bits(st, from.spec_width()))),
                            to.spec_width(),
                        ),
                    ),
                ),
            )
        },
    }
}

/// What one step does: halt at the program's end, else decode and execute.
pub open spec fn spec_step(p: Seq<u8>, s: VmState) -> Result<(Event, VmState), VmError> {
    if s.pc >= p.len() {
        Ok((Event::Halt, s))
    } else {
        match spec_decode(p, s.pc as int) {
            Err(e) => Err(e),
            Ok((i, next)) => spec_execute(i, next as nat, p.len(), s),
        }
    }
}

/// The interpreter: an immutable program, its cursor, the operand stack and
/// the scratch buffer.
pub struct StackUpperVector {
    program: Vec<u8>,
    pc: usize,
    stack: StackArray,
    scratch: BufferArray,
}

impl StackUpperVector {
    pub closed spec fn program(&self) -> Seq<u8> {
        self.program@
    }

    pub closed spec fn state(&self) -> VmState {
        VmState { pc: self.pc as nat, stack: self.stack@, scratch: self.scratch@ }
    }

    pub closed spec fn wf(&self) -> bool {
        &&& self.pc <= self.program@.len()
        &&& self.stack.wf()
        &&& self.scratch.wf()
    }

    /// A machine with no program, an empty stack and a zeroed scratch buffer.
    pub fn new() -> (r: StackUpperVector)
        ensures
            r.wf(),
            r.program() == Seq::<u8>::empty(),
            r.state().pc == 0,
            r.state().stack == Seq::<u8>::empty(),
            r.state().scratch.len() == SCRATCH_SIZE,
            forall|i: int| 0 <= i < SCRATCH_SIZE ==> r.state().scratch[i] == 0,
    {
        StackUpperVector { program: Vec::new(), pc: 0, stack: StackArray::new(), scratch: BufferArray::new() }
    }

    /// Installs `program` and puts the cursor at its start; stack and scratch
    /// buffer keep their contents.
    pub fn set_program(&mut self, program: Vec<u8>)
        requires
            old(self).wf(),
        ensures
            final(self).wf(),
            final(self).program() == program@,
            final(self).state() == at(old(self).state(), 0, old(self).state().stack),
    {
        self.program = program;
        self.pc = 0;
    }

    /// Moves the cursor back to the program's start and empties the stack;
    /// the scratch buffer keeps its contents.
    pub fn init(&mut self)
        requires
            old(self).wf(),
        ensures
            final(self).wf(),
            final(self).program() == old(self).program(),
            final(self).state().pc == 0,
            final(self).state().stack == Seq::<u8>::empty(),
            final(self).state().scratch == old(self).state().scratch,
    {
        self.stack.init();
        self.pc = 0;
    }

    /// The program cursor.
    pub fn pc(&self) -> (r: usize)
        ensures
            r == self.state().pc,
    {
        self.pc
    }

    /// The stack cursor: bytes in use on the operand stack.
    pub fn stack_top(&self) -> (r: usize)
        ensures
            r == self.state().stack.len(),
    {
        self.stack.top()
    }

    /// Removes the top `w` bytes of the stack, as a number; for the caller's
    /// float work.
    pub fn pop_bits(&mut self, w: usize) -> (r: Result<u64, VmError>)
        requires
            old(self).wf(),
            w <= 8,
        ensures
            final(self).wf(),
            final(self).program() == old(self).program(),
            r is Ok <==> w <= old(self).state().stack.len(),
            r is Ok ==> r->Ok_0 as nat == top_bits(old(self).state().stack, w as nat) && final(self).state()
                == at(old(self).state(), old(self).state().pc, below(old(self).state().stack, w as nat)),
            r is Err ==> r == Err::<u64, VmError>(VmError::StackUnderflow) && final(self).state() == old(self).state(),
    {
        self.stack.pop_bits(w)
    }

    /// Pushes the low `w` bytes of `bits`; for the caller's float work.
    pub fn push_bits(&mut self, w: usize, bits: u64) -> (r: Result<(), VmError>)
        requires
            old(self).wf(),
            w <= 8,
        ensures
            final(self).wf(),
            final(self).program() == old(self).program(),
            r is Ok <==> old(self).state().stack.len() + w <= STACK_CAPACITY,
            r is Ok ==> final(self).state() == at(
                old(self).state(),
                old(self).state().pc,
                old(self).state().stack + le_bytes(bits as nat, w as nat),
            ),
            r is Err ==> r == Err::<(), VmError>(VmError::StackOverflow) && final(self).state() == old(self).state(),
    {
        self.stack.push_bits(w, bits)
    }

    /// Executes an instruction that works on the stack alone.
    #[verifier::rlimit(40)]
    fn execute_stack(&mut self, i: Instr, next: usize) -> (r: Result<Event, VmError>)
        requires
            old(self).wf(),
            next <= old(self).program().len(),
            !(i is Store || i is PeekStore || i is Load || i is Goto || i is PopGotoIfTrue || i is PeekGotoIfTrue),
        ensures
            final(self).wf(),
            final(self).program() == old(self).program(),
            match spec_execute(i, next as nat, old(self).program().len(), old(self).state()) {
                Ok((e, s1)) => r == Ok::<Event, VmError>(e) && final(self).state() == s1,
                Err(e) => r == Err::<Event, VmError>(e),
            },
            r is Err ==> final(self).state() == old(self).state(),
    {
        let plen = self.program.len();
        match i {
            Instr::Push(t, x) => {
                self.stack.push_bits(t.width(), x)?;
                self.pc = next;
                Ok(Event::Next)
            },
            Instr::Pop(t) => {
                let v = self.stack.pop_bits(t.width())?;
                self.pc = next;
                Ok(Event::Output(t, v))
            },
            Instr::Peek(t) => {
                let v = self.stack.peek_bits(t.width())?;
                self.pc = next;
                Ok(Event::Output(t, v))
            },
            Instr::ClonePush(t) => {
                self.stack.clone_top(t.width())?;
                self.pc = next;
                Ok(Event::Next)
            },
            Instr::Arith(op, t) => {
                if t.float() {
                    self.pc = next;
                    return Ok(Event::Float(FloatOp::Arith(op, t)));
                }
                self.stack.arith(op, t)?;
                self.pc = next;
                Ok(Event::Next)
            },
            Instr::Compare(op, t) => {
                if t.float() {
                    self.pc = next;
                    return Ok(Event::Float(FloatOp::Compare(op, t)));
                }
                self.stack.compare(op, t)?;
                self.pc = next;
                Ok(Event::Next)
            },
            Instr::LogicAnd => {
                self.stack.logic(false)?;
                self.pc = next;
                Ok(Event::Next)
            },
            Instr::LogicOr => {
                self.stack.logic(true)?;
                self.pc = next;
                Ok(Event::Next)
            },
            Instr::LogicNot => {
                self.stack.logic_not()?;
                self.pc = next;
                Ok(Event::Next)
            },
            Instr::TypeCast(from, to) => {
                if from.float() || to.float() {
                    self.pc = next;
                    return Ok(Event::Float(FloatOp::Cast(from, to)));
                }
                self.stack.cast_int(from, to)?;
                self.pc = next;
                Ok(Event::Next)
            },
            // the other instructions are ruled out by the precondition
            _ => Err(VmError::ProgramOverrun),
        }
    }

    /// Executes a scratch-buffer instruction.
    #[verifier::rlimit(40)]
    fn execute_memory(&mut self, i: Instr, next: usize) -> (r: Result<Event, VmError>)
        requires
            old(self).wf(),
            next <= old(self).program().len(),
            i is Store || i is PeekStore || i is Load,
        ensures
            final(self).wf(),
            final(self).program() == old(self).program(),
            match spec_execute(i, next as nat, old(self).program().len(), old(self).state()) {
                Ok((e, s1)) => r == Ok::<Event, VmError>(e) && final(self).state() == s1,
                Err(e) => r == Err::<Event, VmError>(e),
            },
            r is Err ==> final(self).state() == old(self).state(),
    {
        let plen = self.program.len();
        match i {
            Instr::Store(t, id) | Instr::PeekStore(t, id) => {
                let w = t.width();
                if id > (SCRATCH_SIZE - w) as u64 {
                    return Err(VmError::ScratchOutOfRange);
                }
                let ghost st = self.stack@;
                let bits = if matches!(i, Instr::Store(..)) {
                    self.stack.pop_bits(w)?
                } else {
                    self.stack.peek_bits(w)?
                };
                proof {
                    lemma_le_bytes_of_val(st.subrange(st.len() - w, st.len() as int));
                }
                self.scratch.store(id, w, bits)?;
                self.pc = next;
                Ok(Event::Next)
            },
            Instr::Load(t, id) => {
                let w = t.width();
                if id > (SCRATCH_SIZE - w) as u64 {
                    return Err(VmError::ScratchOutOfRange);
                }
                if self.stack.top() > STACK_CAPACITY - w {
                    return Err(VmError::StackOverflow);
                }
                let bits = self.scratch.load(id, w)?;
                proof {
                    lemma_le_bytes_of_val(self.scratch@.subrange(id as int, id + w));
                }
                self.stack.push_bits(w, bits)?;
                self.pc = next;
                Ok(Event::Next)
            },
            // the other instructions are ruled out by the precondition
            _ => Err(VmError::ProgramOverrun),
        }
    }

    /// Executes a branch.
    #[verifier::rlimit(40)]
    fn execute_branch(&mut self, i: Instr, next: usize) -> (r: Result<Event, VmError>)
        requires
            old(self).wf(),
            next <= old(self).program().len(),
            i is Goto || i is PopGotoIfTrue || i is PeekGotoIfTrue,
        ensures
            final(self).wf(),
            final(self).program() == old(self).program(),
            match spec_execute(i, next as nat, old(self).program().len(), old(self).state()) {
                Ok((e, s1)) => r == Ok::<Event, VmError>(e) && final(self).state() == s1,
                Err(e) => r == Err::<Event, VmError>(e),
            },
            r is Err ==> final(self).state() == old(self).state(),
    {
        let plen = self.program.len();
        match i {
            Instr::Goto(target) => {
                if target > plen as u64 {
                    return Err(VmError::ProgramOverrun);
                }
                self.pc = target as usize;
                Ok(Event::Next)
            },
            Instr::PopGotoIfTrue(target) | Instr::PeekGotoIfTrue(target) => {
                let c = self.stack.peek_bits(1)? != 0;
                if c && target > plen as u64 {
                    return Err(VmError::ProgramOverrun);
                }
                if matches!(i, Instr::PopGotoIfTrue(_)) {
                    self.stack.pop_bits(1)?;
                }
                self.pc = if c {
                    target as usize
                } else {
                    next
                };
                Ok(Event::Next)
            },
            // the other instructions are ruled out by the precondition
            _ => Err(VmError::ProgramOverrun),
        }
    }

    /// Adds the top two values of type `t`. The program cursor stays where it is.
    pub fn add(&mut self, t: Ty) -> (r: Result<Event, VmError>)
        requires
            old(self).wf(),
        ensures
            final(self).wf(),
            final(self).program() == old(self).program(),
            match spec_execute(Instr::Arith(ArithOp::Add, t), old(self).state().pc, old(self).program().len(), old(self).state()) {
                Ok((e, s1)) => r == Ok::<Event, VmError>(e) && final(self).state() == s1,
                Err(e) => r == Err::<Event, VmError>(e),
            },
            r is Err ==> final(self).state() == old(self).state(),
    {
        let pc = self.pc;
        self.execute_stack(Instr::Arith(ArithOp::Add, t), pc)
    }

    /// Subtracts the top value of type `t` from the one below it. The program cursor stays where it is.
    pub fn subtract(&mut self, t: Ty) -> (r: Result<Event, VmError>)
        requires
            old(self).wf(),
        ensures
            final(self).wf(),
            final(self).program() == old(self).program(),
            match spec_execute(Instr::Arith(ArithOp::Subtract, t), old(self).state().pc, old(self).program().len(), old(self).state()) {
                Ok((e, s1)) => r == Ok::<Event, VmError>(e) && final(self).state() == s1,
                Err(e) => r == Err::<Event, VmError>(e),
            },
            r is Err ==> final(self).state() == old(self).state(),
    {
        let pc = self.pc;
        self.execute_stack(Instr::Arith(ArithOp::Subtract, t), pc)
    }

    /// Multiplies the top two values of type `t`. The program cursor stays where it is.
    pub fn multiply(&mut self, t: Ty) -> (r: Result<Event, VmError>)
        requires
            old(self).wf(),
        ensures
            final(self).wf(),
            final(self).program() == old(self).program(),
            match spec_execute(Instr::Arith(ArithOp::Multiply, t), old(self).state().pc, old(self).program().len(), old(self).state()) {
                Ok((e, s1)) => r == Ok::<Event, VmError>(e) && final(self).state() == s1,
                Err(e) => r == Err::<Event, VmError>(e),
            },
            r is Err ==> final(self).state() == old(self).state(),
    {
        let pc = self.pc;
        self.execute_stack(Instr::Arith(ArithOp::Multiply, t), pc)
    }

    /// Divides the value below the top by the top value, of type `t`. The program cursor stays where it is.
    pub fn divide(&mut self, t: Ty) -> (r: Result<Event, VmError>)
        requires
            old(self).wf(),
        ensures
            final(self).wf(),
            final(self).program() == old(self).program(),
            match spec_execute(Instr::Arith(ArithOp::Divide, t), old(self).state().pc, old(self).program().len(), old(self).state()) {
                Ok((e, s1)) => r == Ok::<Event, VmError>(e) && final(self).state() == s1,
                Err(e) => r == Err::<Event, VmError>(e),
            },
            r is Err ==> final(self).state() == old(self).state(),
    {
        let pc = self.pc;
        self.execute_stack(Instr::Arith(ArithOp::Divide, t), pc)
    }

    /// Compares the top two values of type `t` for `==`. The program cursor stays where it is.
    pub fn compare_equal(&mut self, t: Ty) -> (r: Result<Event, VmError>)
        requires
            old(self).wf(),
        ensures
            final(self).wf(),
            final(self).program() == old(self).program(),
            match spec_execute(Instr::Compare(CmpOp::Equal, t), old(self).state().pc, old(self).program().len(), old(self).state()) {
                Ok((e, s1)) => r == Ok::<Event, VmError>(e) && final(self).state() == s1,
                Err(e) => r == Err::<Event, VmError>(e),
            },
            r is Err ==> final(self).state() == old(self).state(),
    {
        let pc = self.pc;
        self.execute_stack(Instr::Compare(CmpOp::Equal, t), pc)
    }

    /// Compares the top two values of type `t` for `!=`. The program cursor stays where it is.
    pub fn compare_not_equal(&mut self, t: Ty) -> (r: Result<Event, VmError>)
        requires
            old(self).wf(),
        ensures
            final(self).wf(),
            final(self).program() == old(self).program(),
            match spec_execute(Instr::Compare(CmpOp::NotEqual, t), old(self).state().pc, old(self).program().len(), old(self).state()) {
                Ok((e, s1)) => r == Ok::<Event, VmError>(e) && final(self).state() == s1,
                Err(e) => r == Err::<Event, VmError>(e),
            },
            r is Err ==> final(self).state() == old(self).state(),
    {
        let pc = self.pc;
        self.execute_stack(Instr::Compare(CmpOp::NotEqual, t), pc)
    }

    /// Compares the top two values of type `t` for `>`. The program cursor stays where it is.
    pub fn compare_greater(&mut self, t: Ty) -> (r: Result<Event, VmError>)
        requires
            old(self).wf(),
        ensures
            final(self).wf(),
            final(self).program() == old(self).program(),
            match spec_execute(Instr::Compare(CmpOp::Greater, t), old(self).state().pc, old(self).program().len(), old(self).state()) {
                Ok((e, s1)) => r == Ok::<Event, VmError>(e) && final(self).state() == s1,
                Err(e) => r == Err::<Event, VmError>(e),
            },
            r is Err ==> final(self).state() == old(self).state(),
    {
        let pc = self.pc;
        self.execute_stack(Instr::Compare(CmpOp::Greater, t), pc)
    }

    /// Compares the top two values of type `t` for `>=`. The program cursor stays where it is.
    pub fn compare_greater_equal(&mut self, t: Ty) -> (r: Result<Event, VmError>)
        requires
            old(self).wf(),
        ensures
            final(self).wf(),
            final(self).program() == old(self).program(),
            match spec_execute(Instr::Compare(CmpOp::GreaterEqual, t), old(self).state().pc, old(self).program().len(), old(self).state()) {
                Ok((e, s1)) => r == Ok::<Event, VmError>(e) && final(self).state() == s1,
                Err(e) => r == Err::<Event, VmError>(e),
            },
            r is Err ==> final(self).state() == old(self).state(),
    {
        let pc = self.pc;
        self.execute_stack(Instr::Compare(CmpOp::GreaterEqual, t), pc)
    }

    /// Compares the top two values of type `t` for `<`. The program cursor stays where it is.
    pub fn compare_lesser(&mut self, t: Ty) -> (r: Result<Event, VmError>)
        requires
            old(self).wf(),
        ensures
            final(self).wf(),
            final(self).program() == old(self).program(),
            match spec_execute(Instr::Compare(CmpOp::Lesser, t), old(self).state().pc, old(self).program().len(), old(self).state()) {
                Ok((e, s1)) => r == Ok::<Event, VmError>(e) && final(self).state() == s1,
                Err(e) => r == Err::<Event, VmError>(e),
            },
            r is Err ==> final(self).state() == old(self).state(),
    {
        let pc = self.pc;
        self.execute_stack(Instr::Compare(CmpOp::Lesser, t), pc)
    }

    /// Compares the top two values of type `t` for `<=`. The program cursor stays where it is.
    pub fn compare_lesser_equal(&mut self, t: Ty) -> (r: Result<Event, VmError>)
        requires
            old(self).wf(),
        ensures
            final(self).wf(),
            final(self).program() == old(self).program(),
            match spec_execute(Instr::Compare(CmpOp::LesserEqual, t), old(self).state().pc, old(self).program().len(), old(self).state()) {
                Ok((e, s1)) => r == Ok::<Event, VmError>(e) && final(self).state() == s1,
                Err(e) => r == Err::<Event, VmError>(e),
            },
            r is Err ==> final(self).state() == old(self).state(),
    {
        let pc = self.pc;
        self.execute_stack(Instr::Compare(CmpOp::LesserEqual, t), pc)
    }

    /// Pushes a copy of the top value of type `t`. The program cursor stays where it is.
    pub fn clone_push(&mut self, t: Ty) -> (r: Result<Event, VmError>)
        requires
            old(self).wf(),
        ensures
            final(self).wf(),
            final(self).program() == old(self).program(),
            match spec_execute(Instr::ClonePush(t), old(self).state().pc, old(self).program().len(), old(self).state()) {
                Ok((e, s1)) => r == Ok::<Event, VmError>(e) && final(self).state() == s1,
                Err(e) => r == Err::<Event, VmError>(e),
            },
            r is Err ==> final(self).state() == old(self).state(),
    {
        let pc = self.pc;
        self.execute_stack(Instr::ClonePush(t), pc)
    }

    /// Executes `push` of type `t`: reads the literal of the type's width at
    /// the program cursor, pushes it and moves the cursor past it.
    pub fn push(&mut self, t: Ty) -> (r: Result<Event, VmError>)
        requires
            old(self).wf(),
        ensures
            final(self).wf(),
            final(self).program() == old(self).program(),
            r is Err ==> final(self).state() == old(self).state(),
            old(self).state().pc + t.spec_width() > old(self).program().len() ==> r == Err::<Event, VmError>(
                VmError::ProgramOverrun,
            ),
            old(self).state().pc + t.spec_width() <= old(self).program().len() ==> match spec_execute(
                Instr::Push(t, literal_at(old(self).program(), old(self).state().pc as int, t.spec_width()) as u64),
                old(self).state().pc + t.spec_width(),
                old(self).program().len(),
                old(self).state(),
            ) {
                Ok((e, s1)) => r == Ok::<Event, VmError>(e) && final(self).state() == s1,
                Err(e) => r == Err::<Event, VmError>(e),
            },
    {
        let w = t.width();
        if self.program.len() - self.pc < w {
            return Err(VmError::ProgramOverrun);
        }
        let x = read_le(&self.program, self.pc, w);
        let next = self.pc + w;
        self.execute_stack(Instr::Push(t, x), next)
    }

    /// Executes `store` of type `t`: reads the eight-byte scratch index at the
    /// program cursor, pops the value of type `t` into the scratch buffer at that index, and moves the cursor past the index.
    pub fn store(&mut self, t: Ty) -> (r: Result<Event, VmError>)
        requires
            old(self).wf(),
        ensures
            final(self).wf(),
            final(self).program() == old(self).program(),
            r is Err ==> final(self).state() == old(self).state(),
            old(self).state().pc + 8 > old(self).program().len() ==> r == Err::<Event, VmError>(
                VmError::ProgramOverrun,
            ),
            old(self).state().pc + 8 <= old(self).program().len() ==> match spec_execute(
                Instr::Store(t, word_at(old(self).program(), old(self).state().pc as int)),
                old(self).state().pc + 8,
                old(self).program().len(),
                old(self).state(),
            ) {
                Ok((e, s1)) => r == Ok::<Event, VmError>(e) && final(self).state() == s1,
                Err(e) => r == Err::<Event, VmError>(e),
            },
    {
        if self.program.len() - self.pc < 8 {
            return Err(VmError::ProgramOverrun);
        }
        let id = read_le(&self.program, self.pc, 8);
        let next = self.pc + 8;
        self.execute_memory(Instr::Store(t, id), next)
    }

    /// Executes `peek_store` of type `t`: reads the eight-byte scratch index at the
    /// program cursor, copies the top value of type `t` into the scratch buffer at that index, and moves the cursor past the index.
    pub fn peek_store(&mut self, t: Ty) -> (r: Result<Event, VmError>)
        requires
            old(self).wf(),
        ensures
            final(self).wf(),
            final(self).program() == old(self).program(),
            r is Err ==> final(self).state() == old(self).state(),
            old(self).state().pc + 8 > old(self).program().len() ==> r == Err::<Event, VmError>(
                VmError::ProgramOverrun,
            ),
            old(self).state().pc + 8 <= old(self).program().len() ==> match spec_execute(
                Instr::PeekStore(t, word_at(old(self).program(), old(self).state().pc as int)),
                old(self).state().pc + 8,
                old(self).program().len(),
                old(self).state(),
            ) {
                Ok((e, s1)) => r == Ok::<Event, VmError>(e) && final(self).state() == s1,
                Err(e) => r == Err::<Event, VmError>(e),
            },
    {
        if self.program.len() - self.pc < 8 {
            return Err(VmError::ProgramOverrun);
        }
        let id = read_le(&self.program, self.pc, 8);
        let next = self.pc + 8;
        self.execute_memory(Instr::PeekStore(t, id), next)
    }

    /// Executes `load` of type `t`: reads the eight-byte scratch index at the
    /// program cursor, pushes the value of type `t` found at that index of the scratch buffer, and moves the cursor past the index.
    pub fn load(&mut self, t: Ty) -> (r: Result<Event, VmError>)
        requires
            old(self).wf(),
        ensures
            final(self).wf(),
            final(self).program() == old(self).program(),
            r is Err ==> final(self).state() == old(self).state(),
            old(self).state().pc + 8 > old(self).program().len() ==> r == Err::<Event, VmError>(
                VmError::ProgramOverrun,
            ),
            old(self).state().pc + 8 <= old(self).program().len() ==> match spec_execute(
                Instr::Load(t, word_at(old(self).program(), old(self).state().pc as int)),
                old(self).state().pc + 8,
                old(self).program().len(),
                old(self).state(),
            ) {
                Ok((e, s1)) => r == Ok::<Event, VmError>(e) && final(self).state() == s1,
                Err(e) => r == Err::<Event, VmError>(e),
            },
    {
        if self.program.len() - self.pc < 8 {
            return Err(VmError::ProgramOverrun);
        }
        let id = read_le(&self.program, self.pc, 8);
        let next = self.pc + 8;
        self.execute_memory(Instr::Load(t, id), next)
    }

    /// Executes `i`, whose successor starts at `next`.
    pub fn execute(&mut self, i: Instr, next: usize) -> (r: Result<Event, VmError>)
        requires
            old(self).wf(),
            next <= old(self).program().len(),
        ensures
            final(self).wf(),
            final(self).program() == old(self).program(),
            match spec_execute(i, next as nat, old(self).program().len(), old(self).state()) {
                Ok((e, s1)) => r == Ok::<Event, VmError>(e) && final(self).state() == s1,
                Err(e) => r == Err::<Event, VmError>(e),
            },
            r is Err ==> final(self).state() == old(self).state(),
    {
        match i {
            Instr::Store(..) | Instr::PeekStore(..) | Instr::Load(..) => self.execute_memory(i, next),
            Instr::Goto(_) | Instr::PopGotoIfTrue(_) | Instr::PeekGotoIfTrue(_) => self.execute_branch(i, next),
            _ => self.execute_stack(i, next),
        }
    }

    /// Runs one instruction: `Halt` at the end of the program, else the
    /// decoded instruction's effect.
    #[allow(non_snake_case)]
    pub fn do_Token(&mut self) -> (r: Result<Event, VmError>)
        requires
            old(self).wf(),
        ensures
            final(self).wf(),
            final(self).program() == old(self).program(),
            match spec_step(old(self).program(), old(self).state()) {
                Ok((e, s1)) => r == Ok::<Event, VmError>(e) && final(self).state() == s1,
                Err(e) => r == Err::<Event, VmError>(e),
            },
            r is Err ==> final(self).state() == old(self).state(),
    {
        if self.pc >= self.program.len() {
            return Ok(Event::Halt);
        }
        let (i, next) = decode(&self.program, self.pc)?;
        self.execute(i, next)
    }
}

} // verus!
