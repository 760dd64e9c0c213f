//! Byte-cursor primitive for big-endian field extraction.
//!
//! Every parser in the crate reads its fixed-width integers through this
//! module, so the masking and shifting of bit-packed fields stays in one
//! place.

use vstd::prelude::*;

verus! {

/// Error of a read past the end of the byte source.
#[derive(Debug, Clone, Copy, PartialEq, Eq, Structural)]
pub enum BitFieldError {
    TruncatedInput,
}

/// The big-endian 16-bit value formed by two bytes.
pub open spec fn spec_be_u16(hi: u8, lo: u8) -> u16 {
    ((hi as u16) << 8) | (lo as u16)
}

/// The big-endian 32-bit value formed by four bytes.
pub open spec fn spec_be_u32(b0: u8, b1: u8, b2: u8, b3: u8) -> u32 {
    ((b0 as u32) << 24) | ((b1 as u32) << 16) | ((b2 as u32) << 8) | (b3 as u32)
}

/// Two distinct byte quadruples form distinct big-endian 32-bit values.
pub proof fn lemma_be_u32_injective(a0: u8, a1: u8, a2: u8, a3: u8, b0: u8, b1: u8, b2: u8, b3: u8)
    by (bit_vector)
    ensures
        spec_be_u32(a0, a1, a2, a3) == spec_be_u32(b0, b1, b2, b3) ==> a0 == b0 && a1 == b1
            && a2 == b2 && a3 == b3,
{
}

/// Cursor over a byte slice, advancing as fields are read.
pub struct BitFieldReader<'a> {
    data: &'a [u8],
    pos: usize,
}

impl<'a> BitFieldReader<'a> {
    /// The whole byte source the cursor walks over.
    pub closed spec fn spec_data(&self) -> Seq<u8> {
        self.data@
    }

    /// The current cursor position.
    pub closed spec fn spec_pos(&self) -> int {
        self.pos as int
    }

    #[verifier::type_invariant]
    pub open spec fn wf(&self) -> bool {
        0 <= self.spec_pos() <= self.spec_data().len()
    }

    pub fn new(data: &'a [u8]) -> (r: Self)
        ensures
            r.spec_data() == data@,
            r.spec_pos() == 0,
    {
        BitFieldReader { data, pos: 0 }
    }

    /// How many bytes are still unread.
    pub fn remaining(&self) -> (r: usize)
        ensures
            r == self.spec_data().len() - self.spec_pos(),
    {
        proof {
            use_type_invariant(self);
        }
        self.data.len() - self.pos
    }

    /// Reads one byte, or fails when none remains.
    pub fn read_u8(&mut self) -> (r: Result<u8, BitFieldError>)
        ensures
            final(self).spec_data() == old(self).spec_data(),
            old(self).spec_pos() + 1 <= old(self).spec_data().len() ==> {
                &&& r == Ok::<u8, BitFieldError>(old(self).spec_data()[old(self).spec_pos()])
                &&& final(self).spec_pos() == old(self).spec_pos() + 1
            },
            old(self).spec_pos() + 1 > old(self).spec_data().len() ==> {
                &&& r == Err::<u8, BitFieldError>(BitFieldError::TruncatedInput)
                &&& final(self).spec_pos() == old(self).spec_pos()
            },
    {
        proof {
            use_type_invariant(&*self);
        }
        if self.pos < self.data.len() {
            let b = self.data[self.pos];
            self.pos = self.pos + 1;
            Ok(b)
        } else {
            Err(BitFieldError::TruncatedInput)
        }
    }

    /// Reads a big-endian 16-bit integer, or fails when fewer than two
    /// bytes remain.
    pub fn read_u16_be(&mut self) -> (r: Result<u16, BitFieldError>)
        ensures
            final(self).spec_data() == old(self).spec_data(),
            old(self).spec_pos() + 2 <= old(self).spec_data().len() ==> {
                &&& r == Ok::<u16, BitFieldError>(spec_be_u16(
                    old(self).spec_data()[old(self).spec_pos()],
                    old(self).spec_data()[old(self).spec_pos() + 1],
                ))
                &&& final(self).spec_pos() == old(self).spec_pos() + 2
            },
            old(self).spec_pos() + 2 > old(self).spec_data().len() ==> {
                &&& r == Err::<u16, BitFieldError>(BitFieldError::TruncatedInput)
                &&& final(self).spec_pos() == old(self).spec_pos()
            },
    {
        proof {
            use_type_invariant(&*self);
        }
        if self.data.len() - self.pos >= 2 {
            let hi = self.data[self.pos];
            let lo = self.data[self.pos + 1];
            self.pos = self.pos + 2;
            Ok(((hi as u16) << 8) | (lo as u16))
        } else {
            Err(BitFieldError::TruncatedInput)
        }
    }

    /// Reads a big-endian 32-bit integer, or fails when fewer than four
    /// bytes remain.
    pub fn read_u32_be(&mut self) -> (r: Result<u32, BitFieldError>)
        ensures
            final(self).spec_data() == old(self).spec_data(),
            old(self).spec_pos() + 4 <= old(self).spec_data().len() ==> {
                &&& r == Ok::<u32, BitFieldError>(spec_be_u32(
                    old(self).spec_data()[old(self).spec_pos()],
                    old(self).spec_data()[old(self).spec_pos() + 1],
                    old(self).spec_data()[old(self).spec_pos() + 2],
                    old(self).spec_data()[old(self).spec_pos() + 3],
                ))
                &&& final(self).spec_pos() == old(self).spec_pos() + 4
            },
            old(self).spec_pos() + 4 > old(self).spec_data().len() ==> {
                &&& r == Err::<u32, BitFieldError>(BitFieldError::TruncatedInput)
                &&& final(self).spec_pos() == old(self).spec_pos()
            },
    {
        proof {
            use_type_invariant(&*self);
        }
        if self.data.len() - self.pos >= 4 {
            let b0 = self.data[self.pos];
            let b1 = self.data[self.pos + 1];
            let b2 = self.data[self.pos + 2];
            let b3 = self.data[self.pos + 3];
            self.pos = self.pos + 4;
            Ok(((b0 as u32) << 24) | ((b1 as u32) << 16) | ((b2 as u32) << 8) | (b3 as u32))
        } else {
            Err(BitFieldError::TruncatedInput)
        }
    }
}

} // verus!
