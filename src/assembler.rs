use vstd::prelude::*;
use crate::bytes::{le_bytes, push_le};
use crate::literal::{literal_bits, parse_literal};
use crate::mnemonic::{code_of, create_mapping, lookup, mnemonic, MNEMONIC_COUNT};
use crate::ty::{is_branch, ty_of_tag, Ty, GOTO, PEEK_GOTO_IF_TRUE, POP_GOTO_IF_TRUE, PUSH, TAG_FIRST, TAG_LAST};

verus! {

/// Why a token was refused.
#[derive(Clone, Copy, Debug, PartialEq, Eq, Structural)]
pub enum ParseError {
    /// A word that is no mnemonic where no immediate is expected.
    UnexpectedToken,
    /// An immediate that does not read as a value of the expected type.
    BadLiteral,
}

/// What feeding one token asks of the caller.
#[derive(Clone, Copy, Debug, PartialEq, Eq, Structural)]
pub enum Fed {
    /// The token was encoded.
    Done,
    /// The token is a float literal of this type: the caller reads it and
    /// hands its bit pattern to `push_literal_bits`.
    FloatLiteral(Ty),
}

/// The output and the last opcode or tag byte written.
pub struct AsmState {
    pub out: Seq<u8>,
    pub prev: u8,
}

/// What one token does to the assembler's state.
pub open spec fn spec_feed(s: AsmState, tok: Seq<char>) -> Result<(Fed, AsmState), ParseError> {
    match code_of(tok) {
        Some(c) => Ok((Fed::Done, AsmState { out: s.out.push(c), prev: c })),
        None => if TAG_FIRST <= s.prev <= TAG_LAST {
            let t = ty_of_tag(s.prev)->0;
            if t is Bool {
                if tok == "true"@ {
                    Ok((Fed::Done, AsmState { out: s.out.push(1), prev: s.prev }))
                } else if tok == "false"@ {
                    Ok((Fed::Done, AsmState { out: s.out.push(0), prev: s.prev }))
                } else {
                    Err(ParseError::BadLiteral)
                }
            } else if t.is_float() {
                Ok((Fed::FloatLiteral(t), s))
            } else {
                match literal_bits(tok, t) {
                    Some(b) => Ok(
                        (
                            Fed::Done,
                            AsmState { out: s.out + le_bytes(b as nat, t.spec_width()), prev: s.prev },
                        ),
                    ),
                    None => Err(ParseError::BadLiteral),
                }
            }
        } else if is_branch(s.prev) {
            match literal_bits(tok, Ty::U64) {
                Some(b) => Ok((Fed::Done, AsmState { out: s.out + le_bytes(b as nat, 8), prev: s.prev })),
                None => Err(ParseError::BadLiteral),
            }
        } else {
            Err(ParseError::UnexpectedToken)
        },
    }
}

/// A one-pass assembler from mnemonic tokens to the byte program.
pub struct Assembler {
    table: Vec<String>,
    out: Vec<u8>,
    prev: u8,
}

impl Assembler {
    pub closed spec fn state(&self) -> AsmState {
        AsmState { out: self.out@, prev: self.prev }
    }

    pub closed spec fn wf(&self) -> bool {
        &&& self.table@.len() == MNEMONIC_COUNT
        &&& forall|i: int| 0 <= i < MNEMONIC_COUNT ==> #[trigger] self.table@[i]@ == mnemonic(i as u8)
    }

    /// An assembler with empty output; no immediate is expected at first.
    pub fn new() -> (r: Assembler)
        ensures
            r.wf(),
            r.state().out == Seq::<u8>::empty(),
            r.state().prev == PUSH,
    {
        Assembler { table: create_mapping(), out: Vec::new(), prev: PUSH }
    }

    /// Encodes one token: a mnemonic, or an immediate read by the type tag
    /// or branch opcode written last.
    pub fn feed(&mut self, tok: &str) -> (r: Result<Fed, ParseError>)
        requires
            old(self).wf(),
        ensures
            final(self).wf(),
            match spec_feed(old(self).state(), tok@) {
                Ok((f, s1)) => r == Ok::<Fed, ParseError>(f) && final(self).state() == s1,
                Err(e) => r == Err::<Fed, ParseError>(e) && final(self).state() == old(self).state(),
            },
    {
        if let Some(c) = lookup(&self.table, tok) {
            self.out.push(c);
            self.prev = c;
            return Ok(Fed::Done);
        }
        if let Some(t) = Ty::from_tag(self.prev) {
            if t == Ty::Bool {
                let owned = tok.to_owned();
                if owned == "true".to_owned() {
                    self.out.push(1);
                    return Ok(Fed::Done);
                } else if owned == "false".to_owned() {
                    self.out.push(0);
                    return Ok(Fed::Done);
                } else {
                    return Err(ParseError::BadLiteral);
                }
            }
            if t.float() {
                return Ok(Fed::FloatLiteral(t));
            }
            return match parse_literal(tok, t) {
                Some(b) => {
                    push_le(&mut self.out, b, t.width());
                    Ok(Fed::Done)
                },
                None => Err(ParseError::BadLiteral),
            };
        }
        if self.prev == GOTO || self.prev == POP_GOTO_IF_TRUE || self.prev == PEEK_GOTO_IF_TRUE {
            return match parse_literal(tok, Ty::U64) {
                Some(b) => {
                    push_le(&mut self.out, b, 8);
                    Ok(Fed::Done)
                },
                None => Err(ParseError::BadLiteral),
            };
        }
        Err(ParseError::UnexpectedToken)
    }

    /// Appends the bit pattern of a float literal of type `t`, as `feed` asked.
    pub fn push_literal_bits(&mut self, t: Ty, bits: u64)
        requires
            old(self).wf(),
        ensures
            final(self).wf(),
            final(self).state() == (AsmState {
                out: old(self).state().out + le_bytes(bits as nat, t.spec_width()),
                prev: old(self).state().prev,
            }),
    {
        push_le(&mut self.out, bits, t.width());
    }

    /// The bytes written so far.
    pub fn output(&self) -> (r: &Vec<u8>)
        ensures
            r@ == self.state().out,
    {
        &self.out
    }
}

} // verus!
