//! A cursor that reads the protocol's fields, one after another, from a
//! borrowed buffer.

use vstd::prelude::*;
use crate::endian::{u16_at, u16_from_le, u32_at, u32_from_le};
use crate::error::DecodeError;
use crate::text::{decode_lossy_utf16le, decode_lossy_utf8, decoded_text, MAX_TEXT_LEN};

verus! {

/// The next `n` bytes of `s` and what follows them.
pub open spec fn bytes_field(s: Seq<u8>, n: nat) -> Result<(Seq<u8>, Seq<u8>), DecodeError> {
    if s.len() < n {
        Err(DecodeError::Truncated)
    } else {
        Ok((s.take(n as int), s.skip(n as int)))
    }
}

/// A 16-bit little-endian integer at the head of `s`, and what follows it.
pub open spec fn u16_field(s: Seq<u8>) -> Result<(u16, Seq<u8>), DecodeError> {
    if s.len() < 2 {
        Err(DecodeError::Truncated)
    } else {
        Ok((u16_at(s, 0), s.skip(2)))
    }
}

/// A 32-bit little-endian integer at the head of `s`, and what follows it.
pub open spec fn u32_field(s: Seq<u8>) -> Result<(u32, Seq<u8>), DecodeError> {
    if s.len() < 4 {
        Err(DecodeError::Truncated)
    } else {
        Ok((u32_at(s, 0), s.skip(4)))
    }
}

/// A boolean at the head of `s`: a 16-bit word, true unless it is zero.
pub open spec fn bool_field(s: Seq<u8>) -> Result<(bool, Seq<u8>), DecodeError> {
    if s.len() < 2 {
        Err(DecodeError::Truncated)
    } else {
        Ok((u16_at(s, 0) != 0, s.skip(2)))
    }
}

/// A blob at the head of `s`: a 32-bit byte count, then that many bytes.
pub open spec fn blob_field(s: Seq<u8>) -> Result<(Seq<u8>, Seq<u8>), DecodeError> {
    if s.len() < 4 || s.len() - 4 < u32_at(s, 0) {
        Err(DecodeError::Truncated)
    } else {
        Ok((s.subrange(4, 4 + u32_at(s, 0)), s.skip(4 + u32_at(s, 0))))
    }
}

/// A text at the head of `s`: a 16-bit kind, a 32-bit byte count, then that
/// many bytes, which kind 0 marks as UTF-8 and any other kind as UTF-16LE.
/// Malformed bytes never fail the field; only missing ones do, or more of
/// them than the decoder takes.
pub open spec fn text_field(s: Seq<u8>) -> Result<(Seq<char>, Seq<u8>), DecodeError> {
    if s.len() < 6 || s.len() - 6 < u32_at(s, 2) {
        Err(DecodeError::Truncated)
    } else if u32_at(s, 2) > MAX_TEXT_LEN {
        Err(DecodeError::TextTooLong)
    } else {
        Ok(
            (
                decoded_text(u16_at(s, 0) == 0, s.subrange(6, 6 + u32_at(s, 2))),
                s.skip(6 + u32_at(s, 2)),
            ),
        )
    }
}

/// Where `usize` has 64 bits, no text is too long: a text field fails only
/// for want of bytes.
pub proof fn lemma_text_fits_in_64_bits(s: Seq<u8>)
    requires
        usize::MAX == u64::MAX,
    ensures
        text_field(s) is Err ==> text_field(s) == Err::<(Seq<char>, Seq<u8>), DecodeError>(
            DecodeError::Truncated,
        ),
{
}

/// A 16-bit integer read `k` bytes into `t` is the one that lies there.
pub proof fn lemma_u16_field_at(t: Seq<u8>, k: int)
    requires
        0 <= k <= t.len(),
    ensures
        u16_field(t.skip(k)) == if t.len() - k < 2 {
            Err::<(u16, Seq<u8>), DecodeError>(DecodeError::Truncated)
        } else {
            Ok::<(u16, Seq<u8>), DecodeError>((u16_at(t, k), t.skip(k + 2)))
        },
        bool_field(t.skip(k)) == if t.len() - k < 2 {
            Err::<(bool, Seq<u8>), DecodeError>(DecodeError::Truncated)
        } else {
            Ok::<(bool, Seq<u8>), DecodeError>((u16_at(t, k) != 0, t.skip(k + 2)))
        },
{
    if t.len() - k >= 2 {
        assert(t.skip(k).skip(2) =~= t.skip(k + 2));
    }
}

/// A 32-bit integer read `k` bytes into `t` is the one that lies there.
pub proof fn lemma_u32_field_at(t: Seq<u8>, k: int)
    requires
        0 <= k <= t.len(),
    ensures
        u32_field(t.skip(k)) == if t.len() - k < 4 {
            Err::<(u32, Seq<u8>), DecodeError>(DecodeError::Truncated)
        } else {
            Ok::<(u32, Seq<u8>), DecodeError>((u32_at(t, k), t.skip(k + 4)))
        },
{
    if t.len() - k >= 4 {
        assert(t.skip(k).skip(4) =~= t.skip(k + 4));
    }
}

/// A sequential reader over a borrowed buffer. Each read either consumes
/// exactly the bytes of one field or fails and consumes nothing.
#[derive(Clone, Copy, Debug)]
pub struct BodyReader<'a> {
    buffer: &'a [u8],
    position: usize,
}

impl<'a> BodyReader<'a> {
    #[verifier::type_invariant]
    spec fn in_bounds(&self) -> bool {
        self.position <= self.buffer@.len()
    }

    /// The bytes that have not been read yet.
    pub closed spec fn remaining(&self) -> Seq<u8> {
        self.buffer@.skip(self.position as int)
    }

    /// A reader at the start of `buffer`.
    pub fn new(buffer: &'a [u8]) -> (reader: Self)
        ensures
            reader.remaining() == buffer@,
    {
        Self { buffer, position: 0 }
    }

    /// Reads the next `N` bytes.
    pub fn read_bytes_exact<const N: usize>(&mut self) -> (r: Result<[u8; N], DecodeError>)
        ensures
            match bytes_field(old(self).remaining(), N as nat) {
                Ok((bytes, rest)) => r is Ok && r.unwrap()@ == bytes && final(self).remaining()
                    == rest,
                Err(e) => r == Err::<[u8; N], DecodeError>(e) && final(self).remaining() == old(
                    self,
                ).remaining(),
            },
    {
        proof {
            use_type_invariant(&*self);
        }
        if self.buffer.len() - self.position < N {
            return Err(DecodeError::Truncated);
        }
        let start = self.position;
        let mut data: [u8; N] = [0u8; N];
        let mut i: usize = 0;
        while i < N
            invariant
                i <= N,
                start + N <= self.buffer.len(),
                self.buffer == old(self).buffer,
                forall|j: int| 0 <= j < i ==> data@[j] == self.buffer@[start + j],
            decreases N - i,
        {
            data[i] = self.buffer[start + i];
            i += 1;
        }
        self.position = start + N;
        proof {
            assert(data@ =~= old(self).remaining().take(N as int));
            assert(self.remaining() =~= old(self).remaining().skip(N as int));
        }
        Ok(data)
    }

    /// Reads a 16-bit little-endian integer.
    pub fn read_u16(&mut self) -> (r: Result<u16, DecodeError>)
        ensures
            match u16_field(old(self).remaining()) {
                Ok((v, rest)) => r == Ok::<u16, DecodeError>(v) && final(self).remaining() == rest,
                Err(e) => r == Err::<u16, DecodeError>(e) && final(self).remaining() == old(
                    self,
                ).remaining(),
            },
    {
        match self.read_bytes_exact::<2>() {
            Ok(bytes) => Ok(u16_from_le(bytes)),
            Err(e) => Err(e),
        }
    }

    /// Reads a 32-bit little-endian integer.
    pub fn read_u32(&mut self) -> (r: Result<u32, DecodeError>)
        ensures
            match u32_field(old(self).remaining()) {
                Ok((v, rest)) => r == Ok::<u32, DecodeError>(v) && final(self).remaining() == rest,
                Err(e) => r == Err::<u32, DecodeError>(e) && final(self).remaining() == old(
                    self,
                ).remaining(),
            },
    {
        match self.read_bytes_exact::<4>() {
            Ok(bytes) => Ok(u32_from_le(bytes)),
            Err(e) => Err(e),
        }
    }

    /// What is left of the buffer.
    pub fn rest(&self) -> (rest: &'a [u8])
        ensures
            rest@ == self.remaining(),
    {
        proof {
            use_type_invariant(self);
        }
        vstd::slice::slice_subrange(self.buffer, self.position, self.buffer.len())
    }

    /// Reads the next `n` bytes and lends them from the buffer.
    pub fn read_slice(&mut self, n: usize) -> (r: Result<&'a [u8], DecodeError>)
        ensures
            match bytes_field(old(self).remaining(), n as nat) {
                Ok((bytes, rest)) => r is Ok && r.unwrap()@ == bytes && final(self).remaining()
                    == rest,
                Err(e) => r == Err::<&[u8], DecodeError>(e) && final(self).remaining() == old(
                    self,
                ).remaining(),
            },
    {
        proof {
            use_type_invariant(&*self);
        }
        if self.buffer.len() - self.position < n {
            return Err(DecodeError::Truncated);
        }
        let start = self.position;
        let bytes = vstd::slice::slice_subrange(self.buffer, start, start + n);
        self.position = start + n;
        proof {
            assert(bytes@ =~= old(self).remaining().take(n as int));
            assert(self.remaining() =~= old(self).remaining().skip(n as int));
        }
        Ok(bytes)
    }

    /// Reads a boolean, which the protocol spends two bytes on.
    pub fn read_bool(&mut self) -> (r: Result<bool, DecodeError>)
        ensures
            match bool_field(old(self).remaining()) {
                Ok((v, rest)) => r == Ok::<bool, DecodeError>(v) && final(self).remaining()
                    == rest,
                Err(e) => r == Err::<bool, DecodeError>(e) && final(self).remaining() == old(
                    self,
                ).remaining(),
            },
    {
        match self.read_u16() {
            Ok(word) => Ok(word != 0),
            Err(e) => Err(e),
        }
    }

    /// Reads a text: its kind, its length in bytes, then the bytes, which
    /// are decoded leniently.
    pub fn read_string(&mut self) -> (r: Result<String, DecodeError>)
        ensures
            match text_field(old(self).remaining()) {
                Ok((text, rest)) => r is Ok && r.unwrap()@ == text && final(self).remaining()
                    == rest,
                Err(e) => r == Err::<String, DecodeError>(e) && final(self).remaining() == old(
                    self,
                ).remaining(),
            },
    {
        let start = *self;
        let kind = match self.read_u16() {
            Ok(kind) => kind,
            Err(e) => return Err(e),
        };
        let len = match self.read_u32() {
            Ok(len) => len,
            Err(e) => {
                *self = start;
                return Err(e);
            },
        };
        let bytes = match self.read_slice(len as usize) {
            Ok(bytes) => bytes,
            Err(e) => {
                *self = start;
                return Err(e);
            },
        };
        if len as usize > MAX_TEXT_LEN {
            *self = start;
            return Err(DecodeError::TextTooLong);
        }
        proof {
            let s = old(self).remaining();
            assert(u32_at(s.skip(2), 0) == u32_at(s, 2));
            assert(bytes@ =~= s.subrange(6, 6 + len));
            assert(self.remaining() =~= s.skip(6 + len));
        }
        if kind == 0 {
            Ok(decode_lossy_utf8(bytes))
        } else {
            Ok(decode_lossy_utf16le(bytes))
        }
    }

    /// Reads a blob: its length in bytes, then the bytes as they are.
    pub fn read_vec(&mut self) -> (r: Result<Vec<u8>, DecodeError>)
        ensures
            match blob_field(old(self).remaining()) {
                Ok((blob, rest)) => r is Ok && r.unwrap()@ == blob && final(self).remaining()
                    == rest,
                Err(e) => r == Err::<Vec<u8>, DecodeError>(e) && final(self).remaining() == old(
                    self,
                ).remaining(),
            },
    {
        let start = *self;
        let len = match self.read_u32() {
            Ok(len) => len,
            Err(e) => return Err(e),
        };
        let bytes = match self.read_slice(len as usize) {
            Ok(bytes) => bytes,
            Err(e) => {
                *self = start;
                return Err(e);
            },
        };
        proof {
            let s = old(self).remaining();
            assert(bytes@ =~= s.subrange(4, 4 + len));
            assert(self.remaining() =~= s.skip(4 + len));
        }
        Ok(vstd::slice::slice_to_vec(bytes))
    }
}

} // verus!
