use vstd::prelude::*;

verus! {

/// 256 to the power n.
pub open spec fn pow256(n: nat) -> nat
    decreases n,
{
    if n == 0 {
        1
    } else {
        256 * pow256((n - 1) as nat)
    }
}

/// The unsigned number whose little-endian bytes are `s`.
pub open spec fn le_val(s: Seq<u8>) -> nat
    decreases s.len(),
{
    if s.len() == 0 {
        0
    } else {
        s[0] as nat + 256 * le_val(s.drop_first())
    }
}

/// The low `n` bytes of `v`, least significant first.
pub open spec fn le_bytes(v: nat, n: nat) -> Seq<u8>
    decreases n,
{
    if n == 0 {
        Seq::empty()
    } else {
        seq![(v % 256) as u8] + le_bytes(v / 256, (n - 1) as nat)
    }
}

pub proof fn lemma_pow256_pos(n: nat)
    ensures
        pow256(n) >= 1,
    decreases n,
{
    if n > 0 {
        lemma_pow256_pos((n - 1) as nat);
    }
}

pub proof fn lemma_pow256_mono(a: nat, b: nat)
    requires
        a <= b,
    ensures
        pow256(a) <= pow256(b),
    decreases b,
{
    if a < b {
        lemma_pow256_mono(a, (b - 1) as nat);
        lemma_pow256_pos((b - 1) as nat);
    }
}

pub proof fn lemma_pow256_values()
    ensures
        pow256(1) == 256,
        pow256(2) == 65536,
        pow256(4) == 4294967296,
        pow256(8) == 18446744073709551616,
{
    reveal_with_fuel(pow256, 9);
}

pub proof fn lemma_le_bytes_len(v: nat, n: nat)
    ensures
        le_bytes(v, n).len() == n,
    decreases n,
{
    if n > 0 {
        lemma_le_bytes_len(v / 256, (n - 1) as nat);
    }
}

pub proof fn lemma_le_val_bound(s: Seq<u8>)
    ensures
        le_val(s) < pow256(s.len()),
    decreases s.len(),
{
    if s.len() > 0 {
        lemma_le_val_bound(s.drop_first());
    }
}

/// Reading back the bytes of a value that fits gives the value.
pub proof fn lemma_le_round_trip(v: nat, n: nat)
    requires
        v < pow256(n),
    ensures
        le_val(le_bytes(v, n)) == v,
    decreases n,
{
    if n > 0 {
        let s = le_bytes(v, n);
        let rest = le_bytes(v / 256, (n - 1) as nat);
        assert(s.drop_first() =~= rest);
        assert(v / 256 < pow256((n - 1) as nat));
        lemma_le_round_trip(v / 256, (n - 1) as nat);
    }
}

/// Writing the bytes of a number that was read gives the same bytes.
pub proof fn lemma_le_bytes_of_val(s: Seq<u8>)
    ensures
        le_bytes(le_val(s), s.len()) == s,
    decreases s.len(),
{
    if s.len() > 0 {
        let v = le_val(s);
        let t = s.drop_first();
        lemma_le_bytes_of_val(t);
        assert(v % 256 == s[0] as nat);
        assert(v / 256 == le_val(t));
        assert(le_bytes(v, s.len()) =~= s);
    }
}

/// Reads the little-endian number in `v[start .. start + w]`.
pub fn read_le(v: &Vec<u8>, start: usize, w: usize) -> (r: u64)
    requires
        w <= 8,
        start + w <= v@.len(),
    ensures
        r as nat == le_val(v@.subrange(start as int, start + w)),
{
    let mut acc: u64 = 0;
    let mut i: usize = w;
    let n = v.len();
    proof {
        lemma_pow256_values();
    }
    while i > 0
        invariant
            i <= w <= 8,
            start + w <= v@.len(),
            n == v@.len(),
            acc as nat == le_val(v@.subrange(start + i, start + w)),
            pow256(8) == 18446744073709551616,
        decreases i,
    {
        let ghost tail = v@.subrange(start + i, start + w);
        let ghost wider = v@.subrange(start + i - 1, start + w);
        proof {
            assert(wider.drop_first() =~= tail);
            lemma_le_val_bound(tail);
            lemma_pow256_mono(tail.len(), 7);
            lemma_pow256_values();
            reveal_with_fuel(pow256, 9);
        }
        acc = acc * 256 + v[start + (i - 1)] as u64;
        i = i - 1;
    }
    acc
}

/// Appends the low `w` bytes of `x`, least significant first.
pub fn push_le(v: &mut Vec<u8>, x: u64, w: usize)
    ensures
        final(v)@ == old(v)@ + le_bytes(x as nat, w as nat),
{
    let mut cur: u64 = x;
    let mut i: usize = 0;
    while i < w
        invariant
            i <= w,
            v@ + le_bytes(cur as nat, (w - i) as nat) == old(v)@ + le_bytes(x as nat, w as nat),
        decreases w - i,
    {
        let ghost before = v@;
        let ghost rest = le_bytes(cur as nat / 256, (w - i - 1) as nat);
        v.push((cur % 256) as u8);
        proof {
            assert(le_bytes(cur as nat, (w - i) as nat) == seq![(cur as nat % 256) as u8] + rest);
            assert(before + le_bytes(cur as nat, (w - i) as nat) =~= v@ + rest);
        }
        cur = cur / 256;
        i = i + 1;
    }
    assert(v@ + le_bytes(cur as nat, 0) =~= v@);
}

} // verus!
