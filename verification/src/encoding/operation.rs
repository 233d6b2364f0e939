//! One command of a response: an opcode and a text argument.

use vstd::prelude::*;
use vstd::std_specs::convert::{FromSpecImpl, TryFromSpecImpl};
use vstd::utf8::{decode_utf8, encode_utf8, valid_utf8};
use crate::encoding::opcode::OpCode;
use crate::encoding::reader::BodyReader;
use crate::endian::{u32_at, u32_bytes, u32_to_le};
use crate::error::DecodeError;
use crate::text::string_from_utf8;

verus! {

broadcast use crate::endian::lemma_u32_bytes_len;

/// What a length field holds for a length of `n`: fields are 32 bits wide,
/// and a length that does not fit is cut down to its low 32 bits.
pub open spec fn length_word(n: nat) -> u32 {
    (n % 0x1_0000_0000) as u32
}

/// Whether `bytes` is a text followed by its terminator: it ends in a zero
/// byte, holds no other, and is UTF-8 up to there.
pub open spec fn is_terminated_text(bytes: Seq<u8>) -> bool {
    &&& bytes.len() > 0
    &&& bytes.last() == 0
    &&& forall|i: int| 0 <= i < bytes.len() - 1 ==> bytes[i] != 0
    &&& valid_utf8(bytes.drop_last())
}

/// A record as it travels: a reserved zero word, the opcode word `code`, a
/// second reserved zero word, the declared length, the bytes of the argument
/// and a terminator.
pub open spec fn record_bytes(code: u32, declared: u32, arg: Seq<u8>) -> Seq<u8> {
    u32_bytes(0) + u32_bytes(code) + u32_bytes(0) + u32_bytes(declared) + arg + seq![0u8]
}

/// An operation as a mathematical value.
pub struct OperationView {
    pub opcode: OpCode,
    pub arg: Seq<char>,
}

impl OperationView {
    /// The argument as it travels: UTF-8, without the terminator.
    pub open spec fn arg_bytes(self) -> Seq<u8> {
        encode_utf8(self.arg)
    }

    /// The record of this operation. It declares the length of the argument
    /// with its terminator, so an empty argument declares one byte.
    pub open spec fn bytes(self) -> Seq<u8> {
        record_bytes(
            self.opcode.code(),
            length_word(self.arg_bytes().len() + 1),
            self.arg_bytes(),
        )
    }

    /// Whether the record says what the operation is: the argument, with its
    /// terminator, is short enough for the length field, and holds no zero
    /// byte that would end it early.
    pub open spec fn well_formed(self) -> bool {
        &&& self.arg_bytes().len() + 1 <= u32::MAX
        &&& forall|i: int| 0 <= i < self.arg_bytes().len() ==> self.arg_bytes()[i] != 0
    }
}

/// The operation whose record is at the head of `s`, and what follows it.
///
/// A declared length of zero stands for an empty argument without a
/// terminator. Any other declared length covers the argument and its
/// terminator.
pub open spec fn operation_field(s: Seq<u8>) -> Result<(OperationView, Seq<u8>), DecodeError> {
    if s.len() < 4 {
        Err(DecodeError::Truncated)
    } else if u32_at(s, 0) == u32::MAX {
        Err(DecodeError::SentinelRejected)
    } else if s.len() < 8 {
        Err(DecodeError::Truncated)
    } else if OpCode::of_code(u32_at(s, 4)) is None {
        Err(DecodeError::InvalidOpcode)
    } else if s.len() < 16 {
        Err(DecodeError::Truncated)
    } else if u32_at(s, 12) == 0 {
        Ok(
            (
                OperationView {
                    opcode: OpCode::of_code(u32_at(s, 4)).unwrap(),
                    arg: Seq::empty(),
                },
                s.skip(16),
            ),
        )
    } else if s.len() - 16 < u32_at(s, 12) {
        Err(DecodeError::Truncated)
    } else if !is_terminated_text(s.subrange(16, 16 + u32_at(s, 12))) {
        Err(DecodeError::BadStringTermination)
    } else {
        Ok(
            (
                OperationView {
                    opcode: OpCode::of_code(u32_at(s, 4)).unwrap(),
                    arg: decode_utf8(s.subrange(16, 16 + u32_at(s, 12) - 1)),
                },
                s.skip(16 + u32_at(s, 12)),
            ),
        )
    }
}

/// One command for a host: what to do, and the text it is to do it with.
#[derive(Debug, PartialEq, Eq)]
pub struct Operation {
    opcode: OpCode,
    arg: String,
}

impl View for Operation {
    type V = OperationView;

    closed spec fn view(&self) -> OperationView {
        OperationView { opcode: self.opcode, arg: self.arg@ }
    }
}

/// Appends the four little-endian bytes of `word` to `out`.
pub(crate) fn push_u32(out: &mut Vec<u8>, word: u32)
    ensures
        final(out)@ == old(out)@ + u32_bytes(word),
{
    let bytes = u32_to_le(word);
    out.push(bytes[0]);
    out.push(bytes[1]);
    out.push(bytes[2]);
    out.push(bytes[3]);
    proof {
        assert(out@ =~= old(out)@ + u32_bytes(word));
    }
}

/// Appends `bytes` to `out`.
pub(crate) fn push_bytes(out: &mut Vec<u8>, bytes: &[u8])
    ensures
        final(out)@ == old(out)@ + bytes@,
{
    let mut i: usize = 0;
    while i < bytes.len()
        invariant
            i <= bytes@.len(),
            out@ == old(out)@ + bytes@.take(i as int),
        decreases bytes@.len() - i,
    {
        out.push(bytes[i]);
        i += 1;
        proof {
            assert(out@ =~= old(out)@ + bytes@.take(i as int));
        }
    }
    proof {
        assert(bytes@.take(i as int) =~= bytes@);
    }
}

/// What a length field holds for a length of `n`.
pub(crate) fn length_word_of(n: usize) -> (word: u32)
    ensures
        word == length_word(n as nat),
{
    let wide: u64 = n as u64;
    (wide % 0x1_0000_0000) as u32
}

/// What a length field holds for a length of `n` and one byte more.
fn length_word_after(n: usize) -> (word: u32)
    ensures
        word == length_word(n as nat + 1),
{
    let low: u64 = n as u64 % 0x1_0000_0000;
    ((low + 1) % 0x1_0000_0000) as u32
}

/// Whether no byte of `bytes` is zero.
fn has_no_zero(bytes: &[u8]) -> (clean: bool)
    ensures
        clean <==> forall|i: int| 0 <= i < bytes@.len() ==> bytes@[i] != 0,
{
    let mut i: usize = 0;
    while i < bytes.len()
        invariant
            i <= bytes@.len(),
            forall|j: int| 0 <= j < i ==> bytes@[j] != 0,
        decreases bytes@.len() - i,
    {
        if bytes[i] == 0 {
            return false;
        }
        i += 1;
    }
    true
}

impl Operation {
    /// The operation `opcode` with the argument `arg`.
    pub fn new(opcode: OpCode, arg: String) -> (op: Self)
        ensures
            op@ == (OperationView { opcode, arg: arg@ }),
    {
        Self { opcode, arg }
    }

    /// What the host is to do.
    pub fn opcode(&self) -> (opcode: OpCode)
        ensures
            opcode == self@.opcode,
    {
        self.opcode
    }

    /// The text that goes with the command.
    pub fn arg(&self) -> (arg: &str)
        ensures
            arg@ == self@.arg,
    {
        self.arg.as_str()
    }

    /// Appends the record of this operation to `out`.
    pub fn write_to(&self, out: &mut Vec<u8>)
        ensures
            final(out)@ == old(out)@ + self@.bytes(),
    {
        let arg = self.arg.as_str().as_bytes();
        let declared = length_word_after(arg.len());
        push_u32(out, 0);
        push_u32(out, u32::from(self.opcode));
        push_u32(out, 0);
        push_u32(out, declared);
        push_bytes(out, arg);
        out.push(0);
        proof {
            assert(out@ =~= old(out)@ + self@.bytes());
        }
    }

    /// Reads the record of one operation.
    pub fn read_from(reader: &mut BodyReader<'_>) -> (r: Result<Operation, DecodeError>)
        ensures
            match operation_field(old(reader).remaining()) {
                Ok((op, rest)) => r is Ok && r.unwrap()@ == op && final(reader).remaining()
                    == rest,
                Err(e) => r == Err::<Operation, DecodeError>(e) && final(reader).remaining()
                    == old(reader).remaining(),
            },
    {
        let start = *reader;
        let ghost s = old(reader).remaining();
        let reserved = match reader.read_u32() {
            Ok(word) => word,
            Err(e) => return Err(e),
        };
        if reserved == u32::MAX {
            *reader = start;
            return Err(DecodeError::SentinelRejected);
        }
        let code = match reader.read_u32() {
            Ok(word) => word,
            Err(e) => {
                *reader = start;
                return Err(e);
            },
        };
        let opcode = match OpCode::try_from(code) {
            Ok(opcode) => opcode,
            Err(e) => {
                *reader = start;
                return Err(e);
            },
        };
        match reader.read_u32() {
            Ok(_) => {},
            Err(e) => {
                *reader = start;
                return Err(e);
            },
        }
        let declared = match reader.read_u32() {
            Ok(word) => word,
            Err(e) => {
                *reader = start;
                return Err(e);
            },
        };
        proof {
            assert(code == u32_at(s, 4));
            assert(declared == u32_at(s, 12));
            assert(reader.remaining() =~= s.skip(16));
        }
        if declared == 0 {
            return Ok(Operation { opcode, arg: String::new() });
        }
        let bytes = match reader.read_slice(declared as usize) {
            Ok(bytes) => bytes,
            Err(e) => {
                *reader = start;
                return Err(e);
            },
        };
        proof {
            assert(bytes@ =~= s.subrange(16, 16 + declared));
            assert(reader.remaining() =~= s.skip(16 + declared));
        }
        let text_len = bytes.len() - 1;
        let text = vstd::slice::slice_subrange(bytes, 0, text_len);
        proof {
            assert(text@ =~= bytes@.drop_last());
            assert(text@ =~= s.subrange(16, 16 + declared - 1));
        }
        if bytes[text_len] != 0 || !has_no_zero(text) {
            *reader = start;
            return Err(DecodeError::BadStringTermination);
        }
        match string_from_utf8(vstd::slice::slice_to_vec(text)) {
            Some(arg) => Ok(Operation { opcode, arg }),
            None => {
                *reader = start;
                Err(DecodeError::BadStringTermination)
            },
        }
    }
}

impl From<Operation> for Vec<u8> {
    /// The record of `value`.
    fn from(value: Operation) -> (bytes: Vec<u8>)
        ensures
            bytes@ == value@.bytes(),
    {
        let mut out = Vec::new();
        value.write_to(&mut out);
        out
    }
}

/// What `from` returns is stated by its own `ensures`, over the bytes that
/// the vector holds.
impl FromSpecImpl<Operation> for Vec<u8> {
    open spec fn obeys_from_spec() -> bool {
        false
    }

    open spec fn from_spec(v: Operation) -> Vec<u8> {
        arbitrary()
    }
}

impl<'a, 'b> TryFrom<&'a mut &'b [u8]> for Operation {
    type Error = DecodeError;

    /// Takes the record of one operation off the front of `value`. A
    /// rejected buffer is left as it was.
    fn try_from(value: &'a mut &'b [u8]) -> (r: Result<Operation, DecodeError>)
        ensures
            match operation_field(old(value)@) {
                Ok((op, rest)) => r is Ok && r.unwrap()@ == op && final(value)@ == rest,
                Err(e) => r == Err::<Operation, DecodeError>(e) && final(value)@ == old(value)@,
            },
    {
        let mut reader = BodyReader::new(*value);
        let r = Operation::read_from(&mut reader);
        if r.is_ok() {
            *value = reader.rest();
        }
        r
    }
}

/// What `try_from` returns is stated by its own `ensures`, which also says
/// what it leaves in the buffer.
impl<'a, 'b> TryFromSpecImpl<&'a mut &'b [u8]> for Operation {
    open spec fn obeys_try_from_spec() -> bool {
        false
    }

    open spec fn try_from_spec(v: &'a mut &'b [u8]) -> Result<Operation, DecodeError> {
        arbitrary()
    }
}

} // verus!
