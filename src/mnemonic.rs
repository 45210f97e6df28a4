use vstd::prelude::*;

verus! {

/// The number of mnemonics: every opcode and every type tag.
pub const MNEMONIC_COUNT: usize = 35;

/// The mnemonic of each opcode and type-tag byte.
pub open spec fn mnemonic(code: u8) -> Seq<char> {
    match code {
        0 => "push"@,
        1 => "pop"@,
        2 => "peek"@,
        3 => "clone_push"@,
        4 => "add"@,
        5 => "subtract"@,
        6 => "multiply"@,
        7 => "divide"@,
        8 => "store"@,
        9 => "peek_store"@,
        10 => "load"@,
        11 => "goto"@,
        12 => "pop_goto_if_true"@,
        13 => "peek_goto_if_true"@,
        14 => "logic_and"@,
        15 => "logic_or"@,
        16 => "logic_not"@,
        17 => "compare_equal"@,
        18 => "compare_not_equal"@,
        19 => "compare_greater"@,
        20 => "compare_greater_equal"@,
        21 => "compare_lesser"@,
        22 => "compare_lesser_equal"@,
        23 => "type_cast"@,
        24 => "bool"@,
        25 => "i8"@,
        26 => "i16"@,
        27 => "i32"@,
        28 => "i64"@,
        29 => "u8"@,
        30 => "u16"@,
        31 => "u32"@,
        32 => "u64"@,
        33 => "f32"@,
        34 => "f64"@,
        _ => Seq::empty(),
    }
}

/// The byte whose mnemonic is `w`, searching from `c` upward.
pub open spec fn find_code(w: Seq<char>, c: nat) -> Option<u8>
    decreases MNEMONIC_COUNT - c,
{
    if c >= MNEMONIC_COUNT {
        None
    } else if mnemonic(c as u8) == w {
        Some(c as u8)
    } else {
        find_code(w, c + 1)
    }
}

/// The byte whose mnemonic is `w`, if there is one.
pub open spec fn code_of(w: Seq<char>) -> Option<u8> {
    find_code(w, 0)
}

/// The mnemonic table: entry `i` is the mnemonic of byte `i`.
pub fn create_mapping() -> (r: Vec<String>)
    ensures
        r@.len() == MNEMONIC_COUNT,
        forall|i: int| 0 <= i < MNEMONIC_COUNT ==> #[trigger] r@[i]@ == mnemonic(i as u8),
{
    let mut t: Vec<String> = Vec::new();
    t.push("push".to_owned());
    t.push("pop".to_owned());
    t.push("peek".to_owned());
    t.push("clone_push".to_owned());
    t.push("add".to_owned());
    t.push("subtract".to_owned());
    t.push("multiply".to_owned());
    t.push("divide".to_owned());
    t.push("store".to_owned());
    t.push("peek_store".to_owned());
    t.push("load".to_owned());
    t.push("goto".to_owned());
    t.push("pop_goto_if_true".to_owned());
    t.push("peek_goto_if_true".to_owned());
    t.push("logic_and".to_owned());
    t.push("logic_or".to_owned());
    t.push("logic_not".to_owned());
    t.push("compare_equal".to_owned());
    t.push("compare_not_equal".to_owned());
    t.push("compare_greater".to_owned());
    t.push("compare_greater_equal".to_owned());
    t.push("compare_lesser".to_owned());
    t.push("compare_lesser_equal".to_owned());
    t.push("type_cast".to_owned());
    t.push("bool".to_owned());
    t.push("i8".to_owned());
    t.push("i16".to_owned());
    t.push("i32".to_owned());
    t.push("i64".to_owned());
    t.push("u8".to_owned());
    t.push("u16".to_owned());
    t.push("u32".to_owned());
    t.push("u64".to_owned());
    t.push("f32".to_owned());
    t.push("f64".to_owned());
    proof {
        assert forall|i: int| 0 <= i < MNEMONIC_COUNT implies #[trigger] t@[i]@ == mnemonic(i as u8) by {
            assert(0 <= i < 35);
        }
    }
    t
}

/// Looks a word up in a table made by `create_mapping`.
pub fn lookup(table: &Vec<String>, word: &str) -> (r: Option<u8>)
    requires
        table@.len() == MNEMONIC_COUNT,
        forall|i: int| 0 <= i < MNEMONIC_COUNT ==> #[trigger] table@[i]@ == mnemonic(i as u8),
    ensures
        r == code_of(word@),
{
    let w = word.to_owned();
    let mut i: usize = 0;
    while i < MNEMONIC_COUNT
        invariant
            i <= MNEMONIC_COUNT,
            w@ == word@,
            table@.len() == MNEMONIC_COUNT,
            forall|k: int| 0 <= k < MNEMONIC_COUNT ==> #[trigger] table@[k]@ == mnemonic(k as u8),
            code_of(word@) == find_code(word@, i as nat),
        decreases MNEMONIC_COUNT - i,
    {
        if table[i] == w {
            return Some(i as u8);
        }
        i = i + 1;
    }
    None
}

/// No two bytes share a mnemonic.
#[verifier::rlimit(100)]
pub proof fn lemma_mnemonics_distinct(a: u8, b: u8)
    requires
        a < b < MNEMONIC_COUNT,
    ensures
        mnemonic(a) != mnemonic(b),
{
    reveal_strlit("push");
    reveal_strlit("pop");
    reveal_strlit("peek");
    reveal_strlit("clone_push");
    reveal_strlit("add");
    reveal_strlit("subtract");
    reveal_strlit("multiply");
    reveal_strlit("divide");
    reveal_strlit("store");
    reveal_strlit("peek_store");
    reveal_strlit("load");
    reveal_strlit("goto");
    reveal_strlit("pop_goto_if_true");
    reveal_strlit("peek_goto_if_true");
    reveal_strlit("logic_and");
    reveal_strlit("logic_or");
    reveal_strlit("logic_not");
    reveal_strlit("compare_equal");
    reveal_strlit("compare_not_equal");
    reveal_strlit("compare_greater");
    reveal_strlit("compare_greater_equal");
    reveal_strlit("compare_lesser");
    reveal_strlit("compare_lesser_equal");
    reveal_strlit("type_cast");
    reveal_strlit("bool");
    reveal_strlit("i8");
    reveal_strlit("i16");
    reveal_strlit("i32");
    reveal_strlit("i64");
    reveal_strlit("u8");
    reveal_strlit("u16");
    reveal_strlit("u32");
    reveal_strlit("u64");
    reveal_strlit("f32");
    reveal_strlit("f64");
    if mnemonic(a) == mnemonic(b) {
        assert(mnemonic(a).len() == mnemonic(b).len());
        assert(mnemonic(a)[0] == mnemonic(b)[0]);
        assert(mnemonic(a)[1] == mnemonic(b)[1]);
        assert(mnemonic(a).len() > 2 ==> mnemonic(a)[2] == mnemonic(b)[2]);
        assert(mnemonic(a).len() > 5 ==> mnemonic(a)[5] == mnemonic(b)[5]);
        assert(mnemonic(a).len() > 8 ==> mnemonic(a)[8] == mnemonic(b)[8]);
        assert(mnemonic(a).len() > 9 ==> mnemonic(a)[9] == mnemonic(b)[9]);
        assert(mnemonic(a).len() > 15 ==> mnemonic(a)[15] == mnemonic(b)[15]);
    }
}

proof fn lemma_find_from(c: u8, k: nat)
    requires
        c < MNEMONIC_COUNT,
        k <= c,
    ensures
        find_code(mnemonic(c), k) == Some(c),
    decreases c - k,
{
    if k < c {
        lemma_mnemonics_distinct(k as u8, c);
        lemma_find_from(c, k + 1);
    }
}

/// Every opcode and type-tag byte reads back from its mnemonic.
pub proof fn lemma_code_of_mnemonic(c: u8)
    requires
        c < MNEMONIC_COUNT,
    ensures
        code_of(mnemonic(c)) == Some(c),
{
    lemma_find_from(c, 0);
}

} // verus!
