//! The byte source: a buffer of octets and a cursor that only moves forward.

use crate::error::DecodeError;
use crate::wire::available;
use crate::wire::be_u128;
use crate::wire::be_u16;
use crate::wire::be_u32;
use crate::wire::big_endian_u128;
use crate::wire::big_endian_u16;
use crate::wire::big_endian_u32;
use crate::wire::Decoding;
use crate::wire::lemma_nul_distance_none;
use crate::wire::lemma_nul_distance_some;
use crate::wire::nul_distance;
use crate::wire::nul_free;
use vstd::prelude::*;
use vstd::slice::slice_subrange;
use vstd::slice::slice_to_vec;

verus! {

/// Whether a decoder's result `r`, and the stream before and after the call,
/// are what `want` prescribes. `want` is either the value that the bytes at
/// the cursor stand for, with the number of bytes that it takes, or the error
/// that they give, with the number of bytes that are read when it is found.
/// Either way the cursor has moved by exactly that number.
pub open spec fn decoded<T: View>(
    r: Result<T, DecodeError>,
    want: Decoding<T::V>,
    before: &ByteStream,
    after: &ByteStream,
) -> bool {
    &&& after.follows(before)
    &&& match want {
        Ok((v, n)) => r matches Ok(x) && x@ == v && after.position() == before.position() + n,
        Err((e, n)) => r matches Err(x) && x == e && after.position() == before.position() + n,
    }
}

/// A sequence of bytes read front to back. The cursor is the only state that
/// outlives a decoding call; no decoder moves it backwards. A read that asks
/// for more bytes than are left fails and takes what is left: the stream is
/// then at its end.
pub struct ByteStream {
    data: Vec<u8>,
    pos: usize,
}

impl ByteStream {
    #[verifier::type_invariant]
    spec fn inv(&self) -> bool {
        self.pos <= self.data@.len()
    }

    /// All the bytes of the stream, read or not.
    pub closed spec fn bytes(&self) -> Seq<u8> {
        self.data@
    }

    /// How many bytes have been read.
    pub closed spec fn position(&self) -> nat {
        self.pos as nat
    }

    /// The bytes that have not been read yet.
    pub open spec fn remaining(&self) -> Seq<u8> {
        self.bytes().skip(self.position() as int)
    }

    /// Whether `self` is the stream `before` after some reading: the same
    /// bytes, the cursor not moved backwards.
    pub open spec fn follows(&self, before: &ByteStream) -> bool {
        &&& self.bytes() == before.bytes()
        &&& before.position() <= self.position()
    }

    /// A stream over `data` with nothing read.
    pub fn new(data: Vec<u8>) -> (s: ByteStream)
        ensures
            s.bytes() == data@,
            s.position() == 0,
    {
        ByteStream { data, pos: 0 }
    }

    /// The number of bytes read so far.
    pub fn offset(&self) -> (n: usize)
        ensures
            n == self.position(),
            n <= self.bytes().len(),
    {
        proof {
            use_type_invariant(self);
        }
        self.pos
    }

    /// Whether every byte has been read.
    pub fn at_end(&self) -> (b: bool)
        ensures
            b == (self.position() == self.bytes().len()),
            self.position() <= self.bytes().len(),
    {
        proof {
            use_type_invariant(self);
        }
        self.pos == self.data.len()
    }

    /// Reads one byte.
    pub fn read_u8(&mut self) -> (r: Result<u8, DecodeError>)
        ensures
            final(self).follows(old(self)),
            match r {
                Ok(v) => {
                    &&& available(old(self).bytes(), old(self).position() as int, 1)
                    &&& v == old(self).bytes()[old(self).position() as int]
                    &&& final(self).position() == old(self).position() + 1
                },
                Err(e) => {
                    &&& e == DecodeError::Truncated
                    &&& !available(old(self).bytes(), old(self).position() as int, 1)
                    &&& final(self).position() == old(self).bytes().len()
                },
            },
    {
        proof {
            use_type_invariant(&*self);
        }
        if self.pos < self.data.len() {
            let v = self.data[self.pos];
            self.pos = self.pos + 1;
            Ok(v)
        } else {
            self.pos = self.data.len();
            Err(DecodeError::Truncated)
        }
    }

    /// Reads a big-endian `u16`.
    pub fn read_u16(&mut self) -> (r: Result<u16, DecodeError>)
        ensures
            final(self).follows(old(self)),
            match r {
                Ok(v) => {
                    &&& available(old(self).bytes(), old(self).position() as int, 2)
                    &&& v == be_u16(old(self).bytes(), old(self).position() as int)
                    &&& final(self).position() == old(self).position() + 2
                },
                Err(e) => {
                    &&& e == DecodeError::Truncated
                    &&& !available(old(self).bytes(), old(self).position() as int, 2)
                    &&& final(self).position() == old(self).bytes().len()
                },
            },
    {
        proof {
            use_type_invariant(&*self);
        }
        if self.data.len() - self.pos >= 2 {
            let v = big_endian_u16(slice_subrange(self.data.as_slice(), self.pos, self.pos + 2));
            self.pos = self.pos + 2;
            Ok(v)
        } else {
            self.pos = self.data.len();
            Err(DecodeError::Truncated)
        }
    }

    /// Reads a big-endian `u32`.
    pub fn read_u32(&mut self) -> (r: Result<u32, DecodeError>)
        ensures
            final(self).follows(old(self)),
            match r {
                Ok(v) => {
                    &&& available(old(self).bytes(), old(self).position() as int, 4)
                    &&& v == be_u32(old(self).bytes(), old(self).position() as int)
                    &&& final(self).position() == old(self).position() + 4
                },
                Err(e) => {
                    &&& e == DecodeError::Truncated
                    &&& !available(old(self).bytes(), old(self).position() as int, 4)
                    &&& final(self).position() == old(self).bytes().len()
                },
            },
    {
        proof {
            use_type_invariant(&*self);
        }
        if self.data.len() - self.pos >= 4 {
            let v = big_endian_u32(slice_subrange(self.data.as_slice(), self.pos, self.pos + 4));
            self.pos = self.pos + 4;
            Ok(v)
        } else {
            self.pos = self.data.len();
            Err(DecodeError::Truncated)
        }
    }

    /// Reads a big-endian `u128`.
    pub fn read_u128(&mut self) -> (r: Result<u128, DecodeError>)
        ensures
            final(self).follows(old(self)),
            match r {
                Ok(v) => {
                    &&& available(old(self).bytes(), old(self).position() as int, 16)
                    &&& v == be_u128(old(self).bytes(), old(self).position() as int)
                    &&& final(self).position() == old(self).position() + 16
                },
                Err(e) => {
                    &&& e == DecodeError::Truncated
                    &&& !available(old(self).bytes(), old(self).position() as int, 16)
                    &&& final(self).position() == old(self).bytes().len()
                },
            },
    {
        proof {
            use_type_invariant(&*self);
        }
        if self.data.len() - self.pos >= 16 {
            let v = big_endian_u128(slice_subrange(self.data.as_slice(), self.pos, self.pos + 16));
            self.pos = self.pos + 16;
            Ok(v)
        } else {
            self.pos = self.data.len();
            Err(DecodeError::Truncated)
        }
    }

    /// Reads exactly `n` bytes into a buffer that the caller owns.
    pub fn read_bytes(&mut self, n: usize) -> (r: Result<Vec<u8>, DecodeError>)
        ensures
            final(self).follows(old(self)),
            match r {
                Ok(v) => {
                    &&& available(old(self).bytes(), old(self).position() as int, n as int)
                    &&& v@ == old(self).bytes().subrange(
                        old(self).position() as int,
                        old(self).position() + n,
                    )
                    &&& final(self).position() == old(self).position() + n
                },
                Err(e) => {
                    &&& e == DecodeError::Truncated
                    &&& !available(old(self).bytes(), old(self).position() as int, n as int)
                    &&& final(self).position() == old(self).bytes().len()
                },
            },
    {
        proof {
            use_type_invariant(&*self);
        }
        if self.data.len() - self.pos >= n {
            let v = slice_to_vec(slice_subrange(self.data.as_slice(), self.pos, self.pos + n));
            self.pos = self.pos + n;
            Ok(v)
        } else {
            self.pos = self.data.len();
            Err(DecodeError::Truncated)
        }
    }

    /// Reads the bytes up to the next NUL, and the NUL itself, which is not
    /// part of the result. A stream that ends before a NUL is truncated.
    pub fn read_until_nul(&mut self) -> (r: Result<Vec<u8>, DecodeError>)
        ensures
            final(self).follows(old(self)),
            match nul_distance(old(self).bytes(), old(self).position() as int) {
                Some(n) => {
                    &&& r matches Ok(v)
                    &&& v@ == old(self).bytes().subrange(
                        old(self).position() as int,
                        old(self).position() as int + n,
                    )
                    &&& final(self).position() == old(self).position() + n + 1
                },
                None => {
                    &&& r matches Err(e)
                    &&& e == DecodeError::Truncated
                    &&& final(self).position() == old(self).bytes().len()
                },
            },
    {
        proof {
            use_type_invariant(&*self);
        }
        let ghost s = self.data@;
        let ghost start = self.pos as int;
        let mut out: Vec<u8> = Vec::new();
        loop
            invariant
                self.data@ == s,
                self.bytes() == old(self).bytes(),
                s == old(self).bytes(),
                start == old(self).position(),
                start <= self.pos <= s.len(),
                self.pos == self.position(),
                out@ == s.subrange(start, self.pos as int),
                nul_free(out@),
            decreases s.len() - self.pos,
        {
            if self.pos >= self.data.len() {
                proof {
                    lemma_nul_distance_none(s, start);
                }
                return Err(DecodeError::Truncated);
            }
            let b = self.data[self.pos];
            self.pos = self.pos + 1;
            if b == 0 {
                proof {
                    lemma_nul_distance_some(s, start, (self.pos - 1 - start) as nat);
                }
                return Ok(out);
            }
            out.push(b);
            assert(out@ == s.subrange(start, self.pos as int));
        }
    }
}

} // verus!
