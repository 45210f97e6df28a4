use vstd::prelude::*;
use vstd::arithmetic::div_mod::{lemma_mod_add_multiples_vanish, lemma_small_mod};
use crate::bytes::{le_bytes, lemma_le_bytes_len, lemma_le_round_trip, lemma_pow256_values, pow256};
use crate::decode::Instr;
use crate::literal::in_range;
use crate::numeric::{modulus, num_val, trunc_div, wrap, ArithOp, CmpOp};
use crate::stack::{below, bool_byte, top_bits, VmError, STACK_CAPACITY};
use crate::ty::Ty;
use crate::vm::{spec_execute, Event, VmState};

verus! {

/// Pushing the bytes of a value that fits and then taking `w` bytes off
/// gives back the stack and the value.
pub proof fn lemma_push_then_top(s: Seq<u8>, x: nat, w: nat)
    requires
        x < pow256(w),
    ensures
        (s + le_bytes(x, w)).len() == s.len() + w,
        below(s + le_bytes(x, w), w) == s,
        top_bits(s + le_bytes(x, w), w) == x,
{
    let l = le_bytes(x, w);
    lemma_le_bytes_len(x, w);
    lemma_le_round_trip(x, w);
    let t = s + l;
    assert(t.subrange(0, t.len() - w) =~= s);
    assert(t.subrange(t.len() - w, t.len() as int) =~= l);
}

/// An integer of a type's range reads back from its bit pattern.
pub proof fn lemma_num_val_wrap(t: Ty, v: int)
    requires
        t.is_int(),
        in_range(t, v),
    ensures
        num_val(t, wrap(t, v)) == v,
        wrap(t, v) < modulus(t),
{
    lemma_pow256_values();
    let m = modulus(t) as int;
    if v >= 0 {
        lemma_small_mod(v as nat, m as nat);
    } else {
        lemma_mod_add_multiples_vanish(v, m);
        lemma_small_mod((m + v) as nat, m as nat);
    }
}

/// A push of type `t` followed by a pop of type `t` leaves the stack cursor,
/// and the whole stack, where it was, and the pop gives the value pushed.
pub proof fn law_push_pop_balanced(s: VmState, t: Ty, x: u64, n1: nat, n2: nat, plen: nat)
    requires
        (x as nat) < modulus(t),
        s.stack.len() + t.spec_width() <= STACK_CAPACITY,
    ensures
        ({
            let r1 = spec_execute(Instr::Push(t, x), n1, plen, s);
            r1 is Ok && ({
                let s1 = r1->Ok_0.1;
                let r2 = spec_execute(Instr::Pop(t), n2, plen, s1);
                &&& r2 is Ok
                &&& r2->Ok_0.0 == Event::Output(t, x)
                &&& r2->Ok_0.1.stack == s.stack
                &&& r2->Ok_0.1.stack.len() == s.stack.len()
            })
        }),
{
    lemma_push_then_top(s.stack, x as nat, t.spec_width());
}

/// `push a; push b; divide; pop` on an integer type gives `a / b` rounded
/// toward zero, for `b` other than zero and wherever the quotient is a value
/// of the type (all but the lowest signed value divided by minus one); the
/// stack is back where it was.
pub proof fn law_divide(s: VmState, t: Ty, a: int, b: int, plen: nat, n1: nat, n2: nat, n3: nat, n4: nat)
    requires
        t.is_int(),
        in_range(t, a),
        in_range(t, b),
        b != 0,
        in_range(t, trunc_div(a, b)),
        s.stack.len() + 2 * t.spec_width() <= STACK_CAPACITY,
    ensures
        ({
            let r1 = spec_execute(Instr::Push(t, wrap(t, a) as u64), n1, plen, s);
            let r2 = spec_execute(Instr::Push(t, wrap(t, b) as u64), n2, plen, r1->Ok_0.1);
            let r3 = spec_execute(Instr::Arith(ArithOp::Divide, t), n3, plen, r2->Ok_0.1);
            let r4 = spec_execute(Instr::Pop(t), n4, plen, r3->Ok_0.1);
            &&& r1 is Ok && r2 is Ok && r3 is Ok && r4 is Ok
            &&& r4->Ok_0.0 == Event::Output(t, wrap(t, trunc_div(a, b)) as u64)
            &&& num_val(t, wrap(t, trunc_div(a, b))) == trunc_div(a, b)
            &&& r4->Ok_0.1.stack == s.stack
        }),
{
    let w = t.spec_width();
    lemma_pow256_values();
    lemma_num_val_wrap(t, a);
    lemma_num_val_wrap(t, b);
    lemma_num_val_wrap(t, trunc_div(a, b));
    let s0 = s.stack;
    let s1 = s0 + le_bytes(wrap(t, a), w);
    let s2 = s1 + le_bytes(wrap(t, b), w);
    lemma_push_then_top(s0, wrap(t, a), w);
    lemma_push_then_top(s1, wrap(t, b), w);
    assert(wrap(t, b) != 0);
    assert(below(s2, 2 * w) =~= s0);
    assert(below(s2, w) == s1);
    assert(top_bits(below(s2, w), w) == wrap(t, a));
    assert(top_bits(s2, w) == wrap(t, b));
    let q = wrap(t, trunc_div(a, b));
    assert(crate::numeric::arith_spec(ArithOp::Divide, t, wrap(t, a), wrap(t, b)) == q);
    lemma_push_then_top(s0, q, w);
    let r3 = spec_execute(Instr::Arith(ArithOp::Divide, t), n3, plen, VmState { pc: n2, stack: s2, scratch: s.scratch });
    assert(r3->Ok_0.1.stack == s0 + le_bytes(q, w));
}

/// `push a; push b; compare_greater; pop` gives `a > b`: the value pushed
/// later is the right operand.
pub proof fn law_compare_greater(s: VmState, t: Ty, a: int, b: int, plen: nat, n1: nat, n2: nat, n3: nat, n4: nat)
    requires
        t.is_int(),
        in_range(t, a),
        in_range(t, b),
        s.stack.len() + 2 * t.spec_width() <= STACK_CAPACITY,
    ensures
        ({
            let r1 = spec_execute(Instr::Push(t, wrap(t, a) as u64), n1, plen, s);
            let r2 = spec_execute(Instr::Push(t, wrap(t, b) as u64), n2, plen, r1->Ok_0.1);
            let r3 = spec_execute(Instr::Compare(CmpOp::Greater, t), n3, plen, r2->Ok_0.1);
            let r4 = spec_execute(Instr::Pop(Ty::Bool), n4, plen, r3->Ok_0.1);
            &&& r1 is Ok && r2 is Ok && r3 is Ok && r4 is Ok
            &&& r4->Ok_0.0 == Event::Output(Ty::Bool, bool_byte(a > b) as u64)
            &&& r4->Ok_0.1.stack == s.stack
        }),
{
    let w = t.spec_width();
    lemma_num_val_wrap(t, a);
    lemma_num_val_wrap(t, b);
    lemma_pow256_values();
    let s0 = s.stack;
    let s1 = s0 + le_bytes(wrap(t, a), w);
    let s2 = s1 + le_bytes(wrap(t, b), w);
    lemma_push_then_top(s0, wrap(t, a), w);
    lemma_push_then_top(s1, wrap(t, b), w);
    assert(below(s2, 2 * w) =~= s0);
    lemma_push_then_top(s0, bool_byte(a > b), 1);
}

/// `clone_push` moves the stack cursor up by the type's width and leaves two
/// identical copies of the top value.
pub proof fn law_clone_push(s: VmState, t: Ty, next: nat, plen: nat)
    requires
        t.spec_width() <= s.stack.len(),
        s.stack.len() + t.spec_width() <= STACK_CAPACITY,
    ensures
        ({
            let r = spec_execute(Instr::ClonePush(t), next, plen, s);
            let n = s.stack.len();
            let w = t.spec_width();
            &&& r is Ok
            &&& r->Ok_0.1.stack.len() == n + w
            &&& r->Ok_0.1.stack.subrange(n as int, (n + w) as int) == s.stack.subrange(n - w, n as int)
            &&& r->Ok_0.1.stack.subrange(n - w, n as int) == s.stack.subrange(n - w, n as int)
            &&& below(r->Ok_0.1.stack, 2 * w) == below(s.stack, w)
        }),
{
    let n = s.stack.len();
    let w = t.spec_width();
    let top = s.stack.subrange(n - w, n as int);
    let s1 = s.stack + top;
    assert(s1.subrange(n as int, (n + w) as int) =~= top);
    assert(s1.subrange(n - w, n as int) =~= top);
    assert(below(s1, 2 * w) =~= below(s.stack, w));
}

/// An integer `type_cast` moves the stack cursor by the difference of the
/// widths and leaves the value converted as Rust's `as` converts it.
pub proof fn law_type_cast(s: VmState, from: Ty, to: Ty, next: nat, plen: nat)
    requires
        from.is_int(),
        to.is_int(),
        from.spec_width() <= s.stack.len(),
        s.stack.len() - from.spec_width() + to.spec_width() <= STACK_CAPACITY,
    ensures
        ({
            let r = spec_execute(Instr::TypeCast(from, to), next, plen, s);
            let v = num_val(from, top_bits(s.stack, from.spec_width()));
            &&& r is Ok
            &&& r->Ok_0.1.stack.len() == s.stack.len() + to.spec_width() - from.spec_width()
            &&& top_bits(r->Ok_0.1.stack, to.spec_width()) == wrap(to, v)
            &&& below(r->Ok_0.1.stack, to.spec_width()) == below(s.stack, from.spec_width())
        }),
{
    let v = num_val(from, top_bits(s.stack, from.spec_width()));
    lemma_pow256_values();
    assert(wrap(to, v) < modulus(to));
    lemma_push_then_top(below(s.stack, from.spec_width()), wrap(to, v), to.spec_width());
}

/// Executes a straight-line sequence of instructions in turn from state `s`,
/// stopping at the first error.
pub open spec fn run_seq(instrs: Seq<Instr>, plen: nat, s: VmState) -> Result<VmState, VmError>
    decreases instrs.len(),
{
    if instrs.len() == 0 {
        Ok(s)
    } else {
        match spec_execute(instrs[0], s.pc, plen, s) {
            Ok((_, s1)) => run_seq(instrs.drop_first(), plen, s1),
            Err(e) => Err(e),
        }
    }
}

/// A sequence of pushes and pops that, from a stack of `h` bytes, never pops
/// more than is there and never passes the capacity.
pub open spec fn fits(instrs: Seq<Instr>, h: nat) -> bool
    decreases instrs.len(),
{
    if instrs.len() == 0 {
        true
    } else {
        match instrs[0] {
            Instr::Push(t, _) => h + t.spec_width() <= STACK_CAPACITY && fits(
                instrs.drop_first(),
                h + t.spec_width(),
            ),
            Instr::Pop(t) => t.spec_width() <= h && fits(instrs.drop_first(), (h - t.spec_width()) as nat),
            _ => false,
        }
    }
}

/// The bytes pushed minus the bytes popped.
pub open spec fn net_width(instrs: Seq<Instr>) -> int
    decreases instrs.len(),
{
    if instrs.len() == 0 {
        0
    } else {
        let rest = net_width(instrs.drop_first());
        match instrs[0] {
            Instr::Push(t, _) => rest + t.spec_width(),
            Instr::Pop(t) => rest - t.spec_width(),
            _ => rest,
        }
    }
}

/// A sequence of pushes and pops that stays within the stack runs without
/// error and moves the stack cursor by the bytes pushed minus the bytes
/// popped; so where these balance, the cursor is back where it started.
pub proof fn law_push_pop_sequence(instrs: Seq<Instr>, plen: nat, s: VmState)
    requires
        fits(instrs, s.stack.len()),
    ensures
        run_seq(instrs, plen, s) is Ok,
        run_seq(instrs, plen, s)->Ok_0.stack.len() == s.stack.len() + net_width(instrs),
        net_width(instrs) == 0 ==> run_seq(instrs, plen, s)->Ok_0.stack.len() == s.stack.len(),
        run_seq(instrs, plen, s)->Ok_0.scratch == s.scratch,
    decreases instrs.len(),
{
    if instrs.len() > 0 {
        let r = spec_execute(instrs[0], s.pc, plen, s);
        match instrs[0] {
            Instr::Push(t, x) => {
                lemma_le_bytes_len(x as nat, t.spec_width());
            },
            _ => {},
        }
        law_push_pop_sequence(instrs.drop_first(), plen, r->Ok_0.1);
    }
}

} // verus!
