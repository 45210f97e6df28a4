use vstd::prelude::*;
use crate::bytes::{le_bytes, le_val, lemma_le_bytes_len, push_le, read_le};
use crate::stack::{VmError, SCRATCH_SIZE};

verus! {

/// A fixed byte region addressed by byte index, without alignment.
pub struct BufferArray {
    bytes: Vec<u8>,
}

impl View for BufferArray {
    type V = Seq<u8>;

    closed spec fn view(&self) -> Seq<u8> {
        self.bytes@
    }
}

/// `s` with `w` bytes at `id` replaced by `part`.
pub open spec fn splice(s: Seq<u8>, id: nat, part: Seq<u8>) -> Seq<u8> {
    s.subrange(0, id as int) + part + s.subrange((id + part.len()) as int, s.len() as int)
}

impl BufferArray {
    pub open spec fn wf(&self) -> bool {
        self@.len() == SCRATCH_SIZE
    }

    /// A buffer of zero bytes.
    pub fn new() -> (r: BufferArray)
        ensures
            r.wf(),
            forall|i: int| 0 <= i < r@.len() ==> r@[i] == 0,
    {
        let mut bytes: Vec<u8> = Vec::new();
        let mut i: usize = 0;
        while i < SCRATCH_SIZE
            invariant
                i <= SCRATCH_SIZE,
                bytes@.len() == i,
                forall|j: int| 0 <= j < i ==> bytes@[j] == 0,
            decreases SCRATCH_SIZE - i,
        {
            bytes.push(0);
            i = i + 1;
        }
        BufferArray { bytes }
    }

    /// Writes the low `w` bytes of `bits` at index `id`.
    pub fn store(&mut self, id: u64, w: usize, bits: u64) -> (r: Result<(), VmError>)
        requires
            old(self).wf(),
            w <= 8,
        ensures
            final(self).wf(),
            r is Ok <==> id + w <= SCRATCH_SIZE,
            r is Ok ==> final(self)@ == splice(old(self)@, id as nat, le_bytes(bits as nat, w as nat)),
            r is Err ==> r == Err::<(), VmError>(VmError::ScratchOutOfRange) && final(self)@ == old(self)@,
    {
        if id > (SCRATCH_SIZE - w) as u64 {
            return Err(VmError::ScratchOutOfRange);
        }
        let start = id as usize;
        let mut part: Vec<u8> = Vec::new();
        push_le(&mut part, bits, w);
        proof {
            lemma_le_bytes_len(bits as nat, w as nat);
            assert(part@ =~= le_bytes(bits as nat, w as nat));
        }
        let mut i: usize = 0;
        while i < w
            invariant
                i <= w <= 8,
                start + w <= SCRATCH_SIZE,
                part@ == le_bytes(bits as nat, w as nat),
                part@.len() == w,
                self@.len() == SCRATCH_SIZE,
                forall|j: int|
                    0 <= j < SCRATCH_SIZE ==> #[trigger] self@[j] == if start <= j < start + i {
                        part@[j - start]
                    } else {
                        old(self)@[j]
                    },
            decreases w - i,
        {
            self.bytes.set(start + i, part[i]);
            i = i + 1;
        }
        proof {
            assert(self@ =~= splice(old(self)@, start as nat, part@));
        }
        Ok(())
    }

    /// Reads `w` bytes at index `id` as a number.
    pub fn load(&self, id: u64, w: usize) -> (r: Result<u64, VmError>)
        requires
            self.wf(),
            w <= 8,
        ensures
            r is Ok <==> id + w <= SCRATCH_SIZE,
            r is Ok ==> r->Ok_0 as nat == le_val(self@.subrange(id as int, id + w)),
            r is Err ==> r == Err::<u64, VmError>(VmError::ScratchOutOfRange),
    {
        if id > (SCRATCH_SIZE - w) as u64 {
            return Err(VmError::ScratchOutOfRange);
        }
        Ok(read_le(&self.bytes, id as usize, w))
    }
}

} // verus!
