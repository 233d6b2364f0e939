//! A response: the commands for one host, in the order in which it is to
//! carry them out.

use vstd::prelude::*;
use vstd::std_specs::convert::{FromSpecImpl, TryFromSpecImpl};
use crate::encoding::operation::{
    length_word,
    length_word_of,
    operation_field,
    push_u32,
    Operation,
    OperationView,
};
use crate::encoding::reader::BodyReader;
use crate::endian::{u32_at, u32_bytes, u32_to_le};
use crate::error::DecodeError;

verus! {

broadcast use crate::endian::lemma_u32_bytes_len;

/// The operations of `ops` as mathematical values.
pub open spec fn operation_views(ops: Seq<Operation>) -> Seq<OperationView> {
    ops.map_values(|op: Operation| op@)
}

/// The records of `ops`, one after another.
pub open spec fn operations_bytes(ops: Seq<OperationView>) -> Seq<u8>
    decreases ops.len(),
{
    if ops.len() == 0 {
        Seq::empty()
    } else {
        operations_bytes(ops.drop_last()) + ops.last().bytes()
    }
}

/// A response as it travels: its own length in bytes, these four included,
/// the number of operations, and their records.
pub open spec fn response_bytes(ops: Seq<OperationView>) -> Seq<u8> {
    u32_bytes(length_word(8 + operations_bytes(ops).len())) + u32_bytes(length_word(ops.len()))
        + operations_bytes(ops)
}

/// Whether `ops` is a response that its bytes say in full: every operation
/// is well formed, and their number and the length of the whole fit their
/// 32-bit fields.
pub open spec fn response_well_formed(ops: Seq<OperationView>) -> bool {
    &&& forall|i: int| 0 <= i < ops.len() ==> (#[trigger] ops[i]).well_formed()
    &&& ops.len() <= u32::MAX
    &&& 8 + operations_bytes(ops).len() <= u32::MAX
}

/// The `count` operations whose records start `s`, and what follows them.
/// The first record that is rejected rejects them all.
pub open spec fn operations_field(s: Seq<u8>, count: nat) -> Result<
    (Seq<OperationView>, Seq<u8>),
    DecodeError,
>
    decreases count,
{
    if count == 0 {
        Ok((Seq::empty(), s))
    } else {
        match operation_field(s) {
            Err(e) => Err(e),
            Ok((op, rest)) => match operations_field(rest, (count - 1) as nat) {
                Err(e) => Err(e),
                Ok((ops, rest)) => Ok((seq![op] + ops, rest)),
            },
        }
    }
}

/// The response at the head of `s`, and what follows its last operation.
///
/// The declared length may not exceed the length of `s`; beyond that it
/// decides nothing, and bytes after the last operation are not looked at.
pub open spec fn response_field(s: Seq<u8>) -> Result<(Seq<OperationView>, Seq<u8>), DecodeError> {
    if s.len() < 4 {
        Err(DecodeError::Truncated)
    } else if u32_at(s, 0) > s.len() {
        Err(DecodeError::DeclaredLengthExceedsAvailable)
    } else if s.len() < 8 {
        Err(DecodeError::Truncated)
    } else {
        operations_field(s.skip(8), u32_at(s, 4) as nat)
    }
}

/// What a decode gives once `done` has been read and `more` is the outcome
/// for the operations still to come.
spec fn continued(
    done: Seq<OperationView>,
    more: Result<(Seq<OperationView>, Seq<u8>), DecodeError>,
) -> Result<(Seq<OperationView>, Seq<u8>), DecodeError> {
    match more {
        Ok((ops, rest)) => Ok((done + ops, rest)),
        Err(e) => Err(e),
    }
}

/// Reading one more operation does not change what the whole comes to.
proof fn lemma_continued_step(done: Seq<OperationView>, s: Seq<u8>, count: nat)
    requires
        count > 0,
    ensures
        continued(done, operations_field(s, count)) == match operation_field(s) {
            Err(e) => Err(e),
            Ok((op, rest)) => continued(done.push(op), operations_field(rest, (count - 1) as nat)),
        },
{
    if let Ok((op, rest)) = operation_field(s) {
        if let Ok((ops, _)) = operations_field(rest, (count - 1) as nat) {
            assert(done + (seq![op] + ops) =~= done.push(op) + ops);
        }
    }
}

/// An ordered batch of operations, sent to a host after it checks in.
#[derive(Debug, PartialEq, Eq)]
pub struct Response {
    ops: Vec<Operation>,
}

impl View for Response {
    type V = Seq<OperationView>;

    closed spec fn view(&self) -> Seq<OperationView> {
        operation_views(self.ops@)
    }
}

impl Response {
    /// The response that holds `ops`, in their order.
    pub fn new(ops: Vec<Operation>) -> (response: Self)
        ensures
            response@ == operation_views(ops@),
    {
        Self { ops }
    }

    /// The operations, in the order in which the host is to carry them out.
    pub fn ops(&self) -> (ops: &Vec<Operation>)
        ensures
            operation_views(ops@) == self@,
    {
        &self.ops
    }

    /// Reads a response: its header, then as many operations as the header
    /// counts.
    pub fn read_from(reader: &mut BodyReader<'_>) -> (r: Result<Response, DecodeError>)
        ensures
            match response_field(old(reader).remaining()) {
                Ok((ops, rest)) => r is Ok && r.unwrap()@ == ops && final(reader).remaining()
                    == rest,
                Err(e) => r == Err::<Response, DecodeError>(e) && final(reader).remaining()
                    == old(reader).remaining(),
            },
    {
        let start = *reader;
        let ghost s = old(reader).remaining();
        let declared = match reader.read_u32() {
            Ok(word) => word,
            Err(e) => return Err(e),
        };
        if declared as usize > start.rest().len() {
            *reader = start;
            return Err(DecodeError::DeclaredLengthExceedsAvailable);
        }
        let count = match reader.read_u32() {
            Ok(word) => word,
            Err(e) => {
                *reader = start;
                return Err(e);
            },
        };
        proof {
            assert(count == u32_at(s, 4));
            assert(reader.remaining() =~= s.skip(8));
        }
        let mut ops: Vec<Operation> = Vec::new();
        let mut i: u32 = 0;
        while i < count
            invariant
                i <= count,
                ops@.len() == i,
                s == old(reader).remaining(),
                start.remaining() == s,
                response_field(s) == continued(
                    operation_views(ops@),
                    operations_field(reader.remaining(), (count - i) as nat),
                ),
            decreases count - i,
        {
            proof {
                lemma_continued_step(
                    operation_views(ops@),
                    reader.remaining(),
                    (count - i) as nat,
                );
            }
            let ghost before = operation_views(ops@);
            match Operation::read_from(reader) {
                Ok(op) => {
                    ops.push(op);
                    proof {
                        assert(operation_views(ops@) =~= before.push(op@));
                    }
                },
                Err(e) => {
                    *reader = start;
                    return Err(e);
                },
            }
            i += 1;
        }
        proof {
            let done = operation_views(ops@);
            assert(done + Seq::<OperationView>::empty() =~= done);
        }
        Ok(Response { ops })
    }
}

impl Default for Response {
    /// The response that holds no operation.
    fn default() -> (response: Self)
        ensures
            response@ == Seq::<OperationView>::empty(),
    {
        let response = Self { ops: Vec::new() };
        proof {
            assert(response@ =~= Seq::<OperationView>::empty());
        }
        response
    }
}

impl From<Response> for Vec<u8> {
    /// The bytes of `value`: the header, with the total length written last,
    /// once it is known, and the records of its operations.
    fn from(value: Response) -> (bytes: Vec<u8>)
        ensures
            bytes@ == response_bytes(value@),
    {
        let ghost ops = value@;
        let mut out: Vec<u8> = Vec::new();
        push_u32(&mut out, 0);
        push_u32(&mut out, length_word_of(value.ops.len()));
        let mut i: usize = 0;
        while i < value.ops.len()
            invariant
                i <= value.ops@.len(),
                ops == value@,
                out@ == u32_bytes(0) + u32_bytes(length_word(ops.len())) + operations_bytes(
                    ops.take(i as int),
                ),
            decreases value.ops@.len() - i,
        {
            value.ops[i].write_to(&mut out);
            proof {
                let next = ops.take(i + 1);
                assert(next.drop_last() =~= ops.take(i as int));
                assert(next.last() == value.ops@[i as int]@);
            }
            i += 1;
        }
        proof {
            assert(ops.take(i as int) =~= ops);
        }
        let total = u32_to_le(length_word_of(out.len()));
        out[0] = total[0];
        out[1] = total[1];
        out[2] = total[2];
        out[3] = total[3];
        proof {
            assert(out@ =~= response_bytes(ops));
        }
        out
    }
}

/// What `from` returns is stated by its own `ensures`, over the bytes that
/// the vector holds.
impl FromSpecImpl<Response> for Vec<u8> {
    open spec fn obeys_from_spec() -> bool {
        false
    }

    open spec fn from_spec(v: Response) -> Vec<u8> {
        arbitrary()
    }
}

impl<'a, 'b> TryFrom<&'a mut &'b [u8]> for Response {
    type Error = DecodeError;

    /// Takes a response off the front of `value`. What follows its last
    /// operation stays in `value`; a rejected buffer is left as it was.
    fn try_from(value: &'a mut &'b [u8]) -> (r: Result<Response, DecodeError>)
        ensures
            match response_field(old(value)@) {
                Ok((ops, rest)) => r is Ok && r.unwrap()@ == ops && final(value)@ == rest,
                Err(e) => r == Err::<Response, DecodeError>(e) && final(value)@ == old(value)@,
            },
    {
        let mut reader = BodyReader::new(*value);
        let r = Response::read_from(&mut reader);
        if r.is_ok() {
            *value = reader.rest();
        }
        r
    }
}

/// What `try_from` returns is stated by its own `ensures`, which also says
/// what it leaves in the buffer.
impl<'a, 'b> TryFromSpecImpl<&'a mut &'b [u8]> for Response {
    open spec fn obeys_try_from_spec() -> bool {
        false
    }

    open spec fn try_from_spec(v: &'a mut &'b [u8]) -> Result<Response, DecodeError> {
        arbitrary()
    }
}

} // verus!
