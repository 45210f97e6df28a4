use vstd::prelude::*;
use crate::assembler::{spec_feed, AsmState, Fed, ParseError};
use crate::literal::{all_digits, literal_bits};
use crate::mnemonic::{code_of, find_code, lemma_code_of_mnemonic, mnemonic, MNEMONIC_COUNT};
use crate::bytes::{le_bytes, lemma_le_bytes_len, lemma_le_round_trip, lemma_pow256_values};
use crate::decode::{spec_decode, Instr};
use crate::numeric::{modulus, ArithOp, CmpOp};
use crate::ty::{
    ty_of_tag, Ty, ADD, CLONE_PUSH, COMPARE_EQUAL, COMPARE_GREATER, COMPARE_GREATER_EQUAL,
    COMPARE_LESSER, COMPARE_LESSER_EQUAL, COMPARE_NOT_EQUAL, DIVIDE, GOTO, LOAD, LOGIC_AND,
    LOGIC_NOT, LOGIC_OR, MULTIPLY, PEEK, PEEK_GOTO_IF_TRUE, PEEK_STORE, POP, POP_GOTO_IF_TRUE,
    PUSH, STORE, SUBTRACT, TYPE_CAST,
};

verus! {

pub open spec fn arith_code(op: ArithOp) -> u8 {
    match op {
        ArithOp::Add => ADD,
        ArithOp::Subtract => SUBTRACT,
        ArithOp::Multiply => MULTIPLY,
        ArithOp::Divide => DIVIDE,
    }
}

pub open spec fn cmp_code(op: CmpOp) -> u8 {
    match op {
        CmpOp::Equal => COMPARE_EQUAL,
        CmpOp::NotEqual => COMPARE_NOT_EQUAL,
        CmpOp::Greater => COMPARE_GREATER,
        CmpOp::GreaterEqual => COMPARE_GREATER_EQUAL,
        CmpOp::Lesser => COMPARE_LESSER,
        CmpOp::LesserEqual => COMPARE_LESSER_EQUAL,
    }
}

/// The opcode and type-tag bytes of an instruction, without its immediate.
pub open spec fn codes(i: Instr) -> Seq<u8> {
    match i {
        Instr::Push(t, _) => seq![PUSH, t.spec_tag()],
        Instr::Pop(t) => seq![POP, t.spec_tag()],
        Instr::Peek(t) => seq![PEEK, t.spec_tag()],
        Instr::ClonePush(t) => seq![CLONE_PUSH, t.spec_tag()],
        Instr::Arith(op, t) => seq![arith_code(op), t.spec_tag()],
        Instr::Store(t, _) => seq![STORE, t.spec_tag()],
        Instr::PeekStore(t, _) => seq![PEEK_STORE, t.spec_tag()],
        Instr::Load(t, _) => seq![LOAD, t.spec_tag()],
        Instr::Goto(_) => seq![GOTO],
        Instr::PopGotoIfTrue(_) => seq![POP_GOTO_IF_TRUE],
        Instr::PeekGotoIfTrue(_) => seq![PEEK_GOTO_IF_TRUE],
        Instr::LogicAnd => seq![LOGIC_AND],
        Instr::LogicOr => seq![LOGIC_OR],
        Instr::LogicNot => seq![LOGIC_NOT],
        Instr::Compare(op, t) => seq![cmp_code(op), t.spec_tag()],
        Instr::TypeCast(from, to) => seq![TYPE_CAST, from.spec_tag(), to.spec_tag()],
    }
}

/// The immediate bytes of an instruction.
pub open spec fn immediate(i: Instr) -> Seq<u8> {
    match i {
        Instr::Push(t, x) => le_bytes(x as nat, t.spec_width()),
        Instr::Store(_, id) | Instr::PeekStore(_, id) | Instr::Load(_, id) => le_bytes(id as nat, 8),
        Instr::Goto(x) | Instr::PopGotoIfTrue(x) | Instr::PeekGotoIfTrue(x) => le_bytes(x as nat, 8),
        _ => Seq::empty(),
    }
}

/// The bytes the machine reads for an instruction.
pub open spec fn encode(i: Instr) -> Seq<u8> {
    codes(i) + immediate(i)
}

/// An instruction that the machine accepts: arithmetic and comparison not on
/// booleans, a cast between two different numeric types, a literal that fits.
pub open spec fn well_formed(i: Instr) -> bool {
    match i {
        Instr::Push(t, x) => (x as nat) < modulus(t),
        Instr::Arith(_, t) | Instr::Compare(_, t) => !(t is Bool),
        Instr::TypeCast(from, to) => !(from is Bool) && !(to is Bool) && from != to,
        _ => true,
    }
}

proof fn lemma_tag_round_trip(t: Ty)
    ensures
        ty_of_tag(t.spec_tag()) == Some(t),
{
}

/// Decoding the bytes of a well-formed instruction, wherever they stand in
/// a program, gives the instruction back and the offset just past it.
pub proof fn law_decode_encode(before: Seq<u8>, i: Instr, after: Seq<u8>)
    requires
        well_formed(i),
        before.len() + encode(i).len() <= usize::MAX,
    ensures
        spec_decode(before + encode(i) + after, before.len() as int) == Ok::<(Instr, usize), crate::stack::VmError>(
            (i, (before.len() + encode(i).len()) as usize),
        ),
{
    let p = before + encode(i) + after;
    let pc = before.len() as int;
    let e = encode(i);
    lemma_pow256_values();
    assert(p.subrange(pc, pc + e.len()) =~= e);
    assert forall|k: int| 0 <= k < e.len() implies p[pc + k] == e[k] by {
        assert(p.subrange(pc, pc + e.len())[k] == p[pc + k]);
    }
    match i {
        Instr::Push(t, x) => {
            lemma_tag_round_trip(t);
            lemma_le_bytes_len(x as nat, t.spec_width());
            lemma_le_round_trip(x as nat, t.spec_width());
            assert(p.subrange(pc + 2, pc + 2 + t.spec_width()) =~= le_bytes(x as nat, t.spec_width()));
        },
        Instr::Store(t, id) | Instr::PeekStore(t, id) | Instr::Load(t, id) => {
            lemma_tag_round_trip(t);
            lemma_le_bytes_len(id as nat, 8);
            lemma_le_round_trip(id as nat, 8);
            assert(p.subrange(pc + 2, pc + 10) =~= le_bytes(id as nat, 8));
        },
        Instr::Goto(x) | Instr::PopGotoIfTrue(x) | Instr::PeekGotoIfTrue(x) => {
            lemma_le_bytes_len(x as nat, 8);
            lemma_le_round_trip(x as nat, 8);
            assert(p.subrange(pc + 1, pc + 9) =~= le_bytes(x as nat, 8));
        },
        Instr::TypeCast(from, to) => {
            lemma_tag_round_trip(from);
            lemma_tag_round_trip(to);
        },
        Instr::Pop(t) | Instr::Peek(t) | Instr::ClonePush(t) | Instr::Arith(_, t) | Instr::Compare(_, t) => {
            lemma_tag_round_trip(t);
        },
        _ => {},
    }
}

/// Feeds the tokens in turn; `None` where one is refused or is a float
/// literal.
pub open spec fn feed_all(s: AsmState, toks: Seq<Seq<char>>) -> Option<AsmState>
    decreases toks.len(),
{
    if toks.len() == 0 {
        Some(s)
    } else {
        match spec_feed(s, toks[0]) {
            Ok((Fed::Done, s1)) => feed_all(s1, toks.drop_first()),
            _ => None,
        }
    }
}

pub open spec fn has_immediate(i: Instr) -> bool {
    i is Push || i is Goto || i is PopGotoIfTrue || i is PeekGotoIfTrue
}

/// The source tokens of an instruction: the mnemonics of its opcode and type
/// tags, then the literal `lit` where it takes an immediate.
pub open spec fn source_tokens(i: Instr, lit: Seq<char>) -> Seq<Seq<char>> {
    codes(i).map_values(|c: u8| mnemonic(c)) + if has_immediate(i) {
        seq![lit]
    } else {
        Seq::empty()
    }
}

/// `lit` is the source text of the immediate of `i`.
pub open spec fn literal_of(i: Instr, lit: Seq<char>) -> bool {
    match i {
        Instr::Push(t, x) => if t is Bool {
            (lit == "true"@ && x == 1) || (lit == "false"@ && x == 0)
        } else {
            !t.is_float() && literal_bits(lit, t) == Some(x)
        },
        Instr::Goto(x) | Instr::PopGotoIfTrue(x) | Instr::PeekGotoIfTrue(x) => literal_bits(lit, Ty::U64) == Some(x),
        _ => true,
    }
}

proof fn lemma_find_none(w: Seq<char>, k: nat)
    requires
        forall|c: u8| c < MNEMONIC_COUNT ==> #[trigger] mnemonic(c) != w,
    ensures
        find_code(w, k) is None,
    decreases MNEMONIC_COUNT - k,
{
    if k < MNEMONIC_COUNT {
        lemma_find_none(w, k + 1);
    }
}

/// A literal's text is no mnemonic.
#[verifier::rlimit(100)]
proof fn lemma_not_mnemonic(w: Seq<char>)
    requires
        (w.len() > 0 && ('0' <= w[0] <= '9' || w[0] == '+' || w[0] == '-')) || w == "true"@ || w == "false"@,
    ensures
        code_of(w) is None,
{
    reveal_strlit("push");
    reveal_strlit("pop");
    reveal_strlit("peek");
    reveal_strlit("clone_push");
    reveal_strlit("add");
    reveal_strlit("subtract");
    reveal_strlit("multiply");
    reveal_strlit("divide");
    reveal_strlit("store");
    reveal_strlit("peek_store");
    reveal_strlit("load");
    reveal_strlit("goto");
    reveal_strlit("pop_goto_if_true");
    reveal_strlit("peek_goto_if_true");
    reveal_strlit("logic_and");
    reveal_strlit("logic_or");
    reveal_strlit("logic_not");
    reveal_strlit("compare_equal");
    reveal_strlit("compare_not_equal");
    reveal_strlit("compare_greater");
    reveal_strlit("compare_greater_equal");
    reveal_strlit("compare_lesser");
    reveal_strlit("compare_lesser_equal");
    reveal_strlit("type_cast");
    reveal_strlit("bool");
    reveal_strlit("i8");
    reveal_strlit("i16");
    reveal_strlit("i32");
    reveal_strlit("i64");
    reveal_strlit("u8");
    reveal_strlit("u16");
    reveal_strlit("u32");
    reveal_strlit("u64");
    reveal_strlit("f32");
    reveal_strlit("f64");
    reveal_strlit("true");
    reveal_strlit("false");
    assert forall|c: u8| c < MNEMONIC_COUNT implies #[trigger] mnemonic(c) != w by {
        if mnemonic(c) == w {
            assert(mnemonic(c)[0] == w[0]);
            assert(mnemonic(c).len() == w.len());
        }
    }
    lemma_find_none(w, 0);
}

proof fn lemma_literal_start(lit: Seq<char>, t: Ty)
    requires
        literal_bits(lit, t) is Some,
    ensures
        lit.len() > 0 && ('0' <= lit[0] <= '9' || lit[0] == '+' || lit[0] == '-'),
{
    if !(lit.len() > 0 && (lit[0] == '+' || lit[0] == '-')) {
        assert(all_digits(lit));
        assert(crate::literal::is_digit(lit[0]));
    }
}

proof fn lemma_feed_mnemonic(s: AsmState, c: u8)
    requires
        c < MNEMONIC_COUNT,
    ensures
        spec_feed(s, mnemonic(c)) == Ok::<(Fed, AsmState), ParseError>(
            (Fed::Done, AsmState { out: s.out.push(c), prev: c }),
        ),
{
    lemma_code_of_mnemonic(c);
}

proof fn lemma_feed_codes(s: AsmState, cs: Seq<u8>, rest: Seq<Seq<char>>)
    requires
        forall|k: int| 0 <= k < cs.len() ==> #[trigger] cs[k] < MNEMONIC_COUNT,
    ensures
        feed_all(s, cs.map_values(|c: u8| mnemonic(c)) + rest) == feed_all(
            AsmState {
                out: s.out + cs,
                prev: if cs.len() > 0 {
                    cs.last()
                } else {
                    s.prev
                },
            },
            rest,
        ),
    decreases cs.len(),
{
    let toks = cs.map_values(|c: u8| mnemonic(c)) + rest;
    if cs.len() == 0 {
        assert(toks =~= rest);
        assert(s.out + cs =~= s.out);
    } else {
        let c = cs[0];
        lemma_feed_mnemonic(s, c);
        let s1 = AsmState { out: s.out.push(c), prev: c };
        let tail = cs.drop_first();
        assert(toks.drop_first() =~= tail.map_values(|c: u8| mnemonic(c)) + rest);
        lemma_feed_codes(s1, tail, rest);
        assert(s1.out + tail =~= s.out + cs);
    }
}

/// Assembling the source tokens of a well-formed instruction writes exactly
/// the bytes that the machine reads for it; the decoder reads the
/// instruction back from them wherever they stand; and the mnemonic of each
/// opcode and tag byte written is the source token it came from. Not for
/// `store`, `peek_store` and `load`, whose index the assembler reads as a
/// literal of the tag's type rather than as an eight-byte index.
#[verifier::rlimit(60)]
pub proof fn law_assemble_round_trip(s: AsmState, i: Instr, lit: Seq<char>, after: Seq<u8>)
    requires
        well_formed(i),
        !(i is Store || i is PeekStore || i is Load),
        literal_of(i, lit),
        s.out.len() + encode(i).len() <= usize::MAX,
    ensures
        feed_all(s, source_tokens(i, lit)) == Some(
            AsmState { out: s.out + encode(i), prev: codes(i).last() },
        ),
        spec_decode(s.out + encode(i) + after, s.out.len() as int) == Ok::<(Instr, usize), crate::stack::VmError>(
            (i, (s.out.len() + encode(i).len()) as usize),
        ),
        forall|k: int| 0 <= k < codes(i).len() ==> mnemonic(#[trigger] encode(i)[k]) == source_tokens(i, lit)[k],
{
    let cs = codes(i);
    let imm = if has_immediate(i) {
        seq![lit]
    } else {
        Seq::<Seq<char>>::empty()
    };
    assert forall|k: int| 0 <= k < cs.len() implies #[trigger] cs[k] < MNEMONIC_COUNT by {}
    lemma_feed_codes(s, cs, imm);
    let s1 = AsmState { out: s.out + cs, prev: cs.last() };
    if has_immediate(i) {
        match i {
            Instr::Push(t, x) => {
                if !(t is Bool) {
                    lemma_literal_start(lit, t);
                }
                lemma_not_mnemonic(lit);
                assert(spec_feed(s1, lit) == Ok::<(Fed, AsmState), ParseError>(
                    (Fed::Done, AsmState { out: s.out + encode(i), prev: cs.last() }),
                )) by {
                    if t is Bool {
                        reveal_strlit("true");
                        reveal_strlit("false");
                        reveal_with_fuel(le_bytes, 2);
                        assert(le_bytes(x as nat, 1) =~= seq![x as u8]);
                        assert(s1.out.push(x as u8) =~= s.out + encode(i));
                    } else {
                        assert(s1.out + le_bytes(x as nat, t.spec_width()) =~= s.out + encode(i));
                    }
                }
            },
            Instr::Goto(x) | Instr::PopGotoIfTrue(x) | Instr::PeekGotoIfTrue(x) => {
                lemma_literal_start(lit, Ty::U64);
                lemma_not_mnemonic(lit);
                assert(s1.out + le_bytes(x as nat, 8) =~= s.out + encode(i));
            },
            _ => {},
        }
        assert(imm.drop_first() =~= Seq::<Seq<char>>::empty());
        reveal_with_fuel(feed_all, 2);
    } else {
        assert(s.out + cs =~= s.out + encode(i));
    }
    law_decode_encode(s.out, i, after);
    assert forall|k: int| 0 <= k < cs.len() implies mnemonic(#[trigger] encode(i)[k]) == source_tokens(i, lit)[k] by {
        assert(encode(i)[k] == cs[k]);
    }
}

/// The bytes of a sequence of instructions, one after another.
pub open spec fn encode_all(instrs: Seq<Instr>) -> Seq<u8>
    decreases instrs.len(),
{
    if instrs.len() == 0 {
        Seq::empty()
    } else {
        encode(instrs[0]) + encode_all(instrs.drop_first())
    }
}

/// The source tokens of a sequence of instructions, `lits[k]` being the
/// literal of instruction `k`.
pub open spec fn tokens_all(instrs: Seq<Instr>, lits: Seq<Seq<char>>) -> Seq<Seq<char>>
    decreases instrs.len(),
{
    if instrs.len() == 0 || lits.len() == 0 {
        Seq::empty()
    } else {
        source_tokens(instrs[0], lits[0]) + tokens_all(instrs.drop_first(), lits.drop_first())
    }
}

proof fn lemma_feed_all_append(s: AsmState, a: Seq<Seq<char>>, b: Seq<Seq<char>>)
    ensures
        feed_all(s, a + b) == match feed_all(s, a) {
            Some(s1) => feed_all(s1, b),
            None => None,
        },
    decreases a.len(),
{
    if a.len() == 0 {
        assert(a + b =~= b);
    } else {
        assert((a + b).drop_first() =~= a.drop_first() + b);
        assert((a + b)[0] == a[0]);
        match spec_feed(s, a[0]) {
            Ok((Fed::Done, s1)) => lemma_feed_all_append(s1, a.drop_first(), b),
            _ => {},
        }
    }
}

/// Assembling the source tokens of a sequence of well-formed instructions
/// writes exactly their bytes, one after another; `law_decode_encode` then
/// reads each instruction back at its offset. Not for `store`,
/// `peek_store` and `load`, as in `law_assemble_round_trip`.
pub proof fn law_assemble_program(s: AsmState, instrs: Seq<Instr>, lits: Seq<Seq<char>>)
    requires
        lits.len() == instrs.len(),
        forall|k: int|
            0 <= k < instrs.len() ==> well_formed(#[trigger] instrs[k]) && !(instrs[k] is Store
                || instrs[k] is PeekStore || instrs[k] is Load) && literal_of(instrs[k], lits[k]),
        s.out.len() + encode_all(instrs).len() <= usize::MAX,
    ensures
        feed_all(s, tokens_all(instrs, lits)) is Some,
        feed_all(s, tokens_all(instrs, lits))->0.out == s.out + encode_all(instrs),
    decreases instrs.len(),
{
    if instrs.len() == 0 {
        assert(s.out + encode_all(instrs) =~= s.out);
    } else {
        let i = instrs[0];
        assert(well_formed(instrs[0]));
        law_assemble_round_trip(s, i, lits[0], Seq::empty());
        let s1 = AsmState { out: s.out + encode(i), prev: codes(i).last() };
        let rest = instrs.drop_first();
        assert forall|k: int|
            0 <= k < rest.len() implies well_formed(#[trigger] rest[k]) && !(rest[k] is Store || rest[k] is PeekStore
                || rest[k] is Load) && literal_of(rest[k], lits.drop_first()[k]) by {
            assert(rest[k] == instrs[k + 1]);
            assert(well_formed(instrs[k + 1]));
        }
        law_assemble_program(s1, rest, lits.drop_first());
        lemma_feed_all_append(s, source_tokens(i, lits[0]), tokens_all(rest, lits.drop_first()));
        assert(s1.out + encode_all(rest) =~= s.out + encode_all(instrs));
    }
}

} // verus!
