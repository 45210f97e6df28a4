use vstd::prelude::*;
use vstd::arithmetic::div_mod::{lemma_mod_add_multiples_vanish, lemma_small_mod};
use vstd::string::StrSliceExecFns;
use crate::numeric::{modulus, modulus_of, wrap};
use crate::ty::Ty;

verus! {

pub open spec fn is_digit(c: char) -> bool {
    '0' <= c <= '9'
}

/// A nonempty run of decimal digits.
pub open spec fn all_digits(s: Seq<char>) -> bool {
    s.len() > 0 && forall|i: int| 0 <= i < s.len() ==> is_digit(#[trigger] s[i])
}

/// The number that a run of decimal digits spells.
pub open spec fn digits_val(s: Seq<char>) -> nat
    decreases s.len(),
{
    if s.len() == 0 {
        0
    } else {
        digits_val(s.drop_last()) * 10 + (s.last() as nat - '0' as nat) as nat
    }
}

/// A decimal integer as Rust's integer `parse` reads it: an optional sign
/// (`-` only where `signed`), then one or more digits.
pub open spec fn parse_int(s: Seq<char>, signed: bool) -> Option<int> {
    if s.len() > 0 && s[0] == '-' {
        if signed && all_digits(s.drop_first()) {
            Some(-digits_val(s.drop_first()))
        } else {
            None
        }
    } else if s.len() > 0 && s[0] == '+' {
        if all_digits(s.drop_first()) {
            Some(digits_val(s.drop_first()) as int)
        } else {
            None
        }
    } else if all_digits(s) {
        Some(digits_val(s) as int)
    } else {
        None
    }
}

/// Whether `v` is a value of integer type `t`.
pub open spec fn in_range(t: Ty, v: int) -> bool {
    if t.is_signed() {
        -(modulus(t) as int / 2) <= v < modulus(t) as int / 2
    } else {
        0 <= v < modulus(t)
    }
}

/// The bit pattern of an integer literal of type `t`, if it reads as a value
/// of that type.
pub open spec fn literal_bits(s: Seq<char>, t: Ty) -> Option<u64> {
    match parse_int(s, t.is_signed()) {
        Some(v) => if in_range(t, v) {
            Some(wrap(t, v) as u64)
        } else {
            None
        },
        None => None,
    }
}

proof fn lemma_digits_prefix(s: Seq<char>, k: int)
    requires
        0 <= k <= s.len(),
        forall|i: int| 0 <= i < s.len() ==> is_digit(#[trigger] s[i]),
    ensures
        digits_val(s.subrange(0, k)) <= digits_val(s),
    decreases s.len(),
{
    if k < s.len() {
        let t = s.drop_last();
        assert(t.subrange(0, k) =~= s.subrange(0, k));
        lemma_digits_prefix(t, k);
    } else {
        assert(s.subrange(0, k) =~= s);
    }
}

/// Reads the digits of `tok` from char `start` on, as long as the number
/// stays at most `limit`.
fn parse_digits(tok: &str, start: usize, limit: u128) -> (r: Option<u128>)
    requires
        start <= tok@.len(),
        limit <= 18446744073709551616,
    ensures
        r is Some <==> all_digits(tok@.subrange(start as int, tok@.len() as int)) && digits_val(
            tok@.subrange(start as int, tok@.len() as int),
        ) <= limit,
        r is Some ==> r->0 == digits_val(tok@.subrange(start as int, tok@.len() as int)),
{
    let n = tok.unicode_len();
    let ghost s = tok@.subrange(start as int, n as int);
    if start >= n {
        return None;
    }
    let mut acc: u128 = 0;
    let mut i: usize = start;
    while i < n
        invariant
            start <= i <= n,
            n == tok@.len(),
            s == tok@.subrange(start as int, n as int),
            acc <= limit <= 18446744073709551616,
            acc == digits_val(s.subrange(0, i - start)),
            forall|j: int| 0 <= j < i - start ==> is_digit(#[trigger] s[j]),
        decreases n - i,
    {
        let c = tok.get_char(i);
        if !('0' <= c && c <= '9') {
            assert(!is_digit(s[i - start]));
            return None;
        }
        proof {
            assert(s.subrange(0, i + 1 - start).drop_last() =~= s.subrange(0, i - start));
        }
        acc = acc * 10 + (c as u128 - '0' as u128);
        i = i + 1;
        if acc > limit {
            proof {
                if all_digits(s) {
                    lemma_digits_prefix(s, i - start);
                }
            }
            return None;
        }
    }
    proof {
        assert(s.subrange(0, n - start) =~= s);
    }
    Some(acc)
}

/// Reads an integer literal of type `t` and gives its bit pattern.
pub fn parse_literal(tok: &str, t: Ty) -> (r: Option<u64>)
    requires
        t.is_int(),
    ensures
        r == literal_bits(tok@, t),
{
    let n = tok.unicode_len();
    if n == 0 {
        return None;
    }
    let m = modulus_of(t);
    let c0 = tok.get_char(0);
    proof {
        assert(tok@.drop_first() =~= tok@.subrange(1, n as int));
        assert(tok@.subrange(0, n as int) =~= tok@);
    }
    if c0 == '-' {
        if !t.signed() {
            return None;
        }
        let v = match parse_digits(tok, 1, m / 2) {
            None => {
                return None;
            },
            Some(v) => v,
        };
        if v == 0 {
            return Some(0);
        }
        proof {
            lemma_mod_add_multiples_vanish(-(v as int), m as int);
            lemma_small_mod((m - v) as nat, m as nat);
        }
        Some((m - v) as u64)
    } else {
        let start: usize = if c0 == '+' {
            1
        } else {
            0
        };
        let bound = if t.signed() {
            m / 2 - 1
        } else {
            m - 1
        };
        match parse_digits(tok, start, bound) {
            None => None,
            Some(v) => {
                proof {
                    lemma_small_mod(v as nat, m as nat);
                }
                Some(v as u64)
            },
        }
    }
}

} // verus!
