//! What holds between the two directions of the command codec.

use vstd::prelude::*;
use vstd::utf8::{encode_utf8_decode_utf8, encode_utf8_valid_utf8};
use crate::encoding::opcode::OpCode;
use crate::encoding::operation::{
    is_terminated_text,
    length_word,
    operation_field,
    record_bytes,
    OperationView,
};
use crate::encoding::response::{
    operations_bytes,
    operations_field,
    response_bytes,
    response_field,
    response_well_formed,
};
use crate::endian::{lemma_u32_at_bytes, u32_at, u32_bytes};
use crate::error::DecodeError;

verus! {

broadcast use crate::endian::lemma_u32_bytes_len;

/// The words of a record that is followed by `tail` are read back as they
/// were written, and the argument lies behind them.
proof fn lemma_record_words(code: u32, declared: u32, arg: Seq<u8>, tail: Seq<u8>)
    ensures
        ({
            let s = record_bytes(code, declared, arg) + tail;
            let n = arg.len() as int;
            &&& s.len() == 17 + n + tail.len()
            &&& u32_at(s, 0) == 0
            &&& u32_at(s, 4) == code
            &&& u32_at(s, 12) == declared
            &&& s.subrange(16, 16 + n) == arg
            &&& s[16 + n] == 0
            &&& s.skip(17 + n) == tail
        }),
{
    let s = record_bytes(code, declared, arg) + tail;
    let n = arg.len() as int;
    assert(s.subrange(0, 4) =~= u32_bytes(0));
    assert(s.subrange(4, 8) =~= u32_bytes(code));
    assert(s.subrange(12, 16) =~= u32_bytes(declared));
    lemma_u32_at_bytes(0, s, 0);
    lemma_u32_at_bytes(code, s, 4);
    lemma_u32_at_bytes(declared, s, 12);
    assert(s.subrange(16, 16 + n) =~= arg);
    assert(s.skip(17 + n) =~= tail);
}

/// A record that is sound but for its opcode word is accepted exactly when
/// that word is one of 0, 1, 2, 8, 10, 14, 15, 16 and 17, and then as the
/// command that the word stands for; any other word has it rejected for its
/// opcode.
pub proof fn lemma_opcode_word_decides(code: u32, op: OperationView, tail: Seq<u8>)
    requires
        op.well_formed(),
    ensures
        OpCode::of_code(code) is Some <==> code == 0 || code == 1 || code == 2 || code == 8
            || code == 10 || code == 14 || code == 15 || code == 16 || code == 17,
        operation_field(
            record_bytes(code, (op.arg_bytes().len() + 1) as u32, op.arg_bytes()) + tail,
        ) == match OpCode::of_code(code) {
            Some(opcode) => Ok::<(OperationView, Seq<u8>), DecodeError>(
                (OperationView { opcode, arg: op.arg }, tail),
            ),
            None => Err::<(OperationView, Seq<u8>), DecodeError>(DecodeError::InvalidOpcode),
        },
{
    OpCode::lemma_codes_in_use(code);
    let n = op.arg_bytes().len() as int;
    lemma_record_words(code, (n + 1) as u32, op.arg_bytes(), tail);
    if let Some(opcode) = OpCode::of_code(code) {
        let same = OperationView { opcode, arg: op.arg };
        assert(same.bytes() == record_bytes(code, (n + 1) as u32, op.arg_bytes()));
        lemma_operation_round_trip(same, tail);
    }
}

/// Decoding the record of a well-formed operation gives the operation back
/// and stops where the record ends, whatever follows it.
pub proof fn lemma_operation_round_trip(op: OperationView, tail: Seq<u8>)
    requires
        op.well_formed(),
    ensures
        operation_field(op.bytes() + tail) == Ok::<(OperationView, Seq<u8>), DecodeError>(
            (op, tail),
        ),
{
    let n = op.arg_bytes().len() as int;
    let declared = (n + 1) as u32;
    let s = op.bytes() + tail;
    lemma_record_words(op.opcode.code(), declared, op.arg_bytes(), tail);
    op.opcode.lemma_code_round_trip();
    encode_utf8_valid_utf8(op.arg);
    encode_utf8_decode_utf8(op.arg);
    let body = s.subrange(16, 16 + declared);
    assert(body.drop_last() =~= op.arg_bytes());
    assert(s.subrange(16, 16 + declared - 1) =~= op.arg_bytes());
    assert(forall|i: int| 0 <= i < body.len() - 1 ==> body[i] == op.arg_bytes()[i]);
    assert(is_terminated_text(body));
}

/// A record whose first reserved word is all ones is rejected, whatever the
/// rest of it holds.
pub proof fn lemma_sentinel_rejected(s: Seq<u8>)
    requires
        s.len() >= 4,
        s[0] == 0xFF,
        s[1] == 0xFF,
        s[2] == 0xFF,
        s[3] == 0xFF,
    ensures
        operation_field(s) == Err::<(OperationView, Seq<u8>), DecodeError>(
            DecodeError::SentinelRejected,
        ),
{
}

/// With a first word that is not all ones and an opcode word in full, a
/// record is rejected for its opcode exactly when that word is none of 0, 1,
/// 2, 8, 10, 14, 15, 16 and 17; no accepted record holds another.
pub proof fn lemma_opcode_decides(s: Seq<u8>)
    requires
        s.len() >= 8,
        u32_at(s, 0) != u32::MAX,
    ensures
        operation_field(s) == Err::<(OperationView, Seq<u8>), DecodeError>(
            DecodeError::InvalidOpcode,
        ) <==> !(u32_at(s, 4) == 0 || u32_at(s, 4) == 1 || u32_at(s, 4) == 2 || u32_at(s, 4) == 8
            || u32_at(s, 4) == 10 || u32_at(s, 4) == 14 || u32_at(s, 4) == 15 || u32_at(s, 4)
            == 16 || u32_at(s, 4) == 17),
        operation_field(s) is Ok ==> operation_field(s).unwrap().0.opcode.code() == u32_at(s, 4),
{
    OpCode::lemma_codes_in_use(u32_at(s, 4));
}

/// A record that declares one byte more, or one byte less, than its
/// argument and terminator take is rejected. A record with an empty argument
/// that declares no byte at all is the exception: that is the accepted short
/// form of the empty argument.
pub proof fn lemma_miscounted_argument_rejected(op: OperationView, declared: u32, tail: Seq<u8>)
    requires
        op.well_formed(),
        declared == op.arg_bytes().len() + 2 || (declared == op.arg_bytes().len() && declared
            != 0),
    ensures
        operation_field(record_bytes(op.opcode.code(), declared, op.arg_bytes()) + tail) == Err::<
            (OperationView, Seq<u8>),
            DecodeError,
        >(
            if declared > op.arg_bytes().len() && tail.len() == 0 {
                DecodeError::Truncated
            } else {
                DecodeError::BadStringTermination
            },
        ),
{
    let n = op.arg_bytes().len() as int;
    let s = record_bytes(op.opcode.code(), declared, op.arg_bytes()) + tail;
    lemma_record_words(op.opcode.code(), declared, op.arg_bytes(), tail);
    op.opcode.lemma_code_round_trip();
    if declared == n + 2 {
        if tail.len() > 0 {
            let body = s.subrange(16, 16 + declared);
            assert(body[n] == s[16 + n]);
            assert(!is_terminated_text(body));
        }
    } else {
        let body = s.subrange(16, 16 + declared);
        assert(body =~= op.arg_bytes());
        assert(body.last() == op.arg_bytes()[n - 1]);
        assert(!is_terminated_text(body));
    }
}

/// The records of a batch start with the record of its first operation.
proof fn lemma_operations_bytes_first(ops: Seq<OperationView>)
    requires
        ops.len() > 0,
    ensures
        operations_bytes(ops) == ops[0].bytes() + operations_bytes(ops.drop_first()),
    decreases ops.len(),
{
    if ops.len() == 1 {
        assert(ops.drop_last() =~= Seq::<OperationView>::empty());
        assert(ops.drop_first() =~= Seq::<OperationView>::empty());
        assert(operations_bytes(ops) =~= ops[0].bytes() + operations_bytes(ops.drop_first()));
    } else {
        lemma_operations_bytes_first(ops.drop_last());
        assert(ops.drop_last().drop_first() =~= ops.drop_first().drop_last());
        assert(operations_bytes(ops) =~= ops[0].bytes() + operations_bytes(ops.drop_first()));
    }
}

/// Decoding the records of well-formed operations, as many as there are,
/// gives them back in their order and stops where the last record ends.
pub proof fn lemma_operations_round_trip(ops: Seq<OperationView>, tail: Seq<u8>)
    requires
        forall|i: int| 0 <= i < ops.len() ==> (#[trigger] ops[i]).well_formed(),
    ensures
        operations_field(operations_bytes(ops) + tail, ops.len()) == Ok::<
            (Seq<OperationView>, Seq<u8>),
            DecodeError,
        >((ops, tail)),
    decreases ops.len(),
{
    if ops.len() == 0 {
        assert(operations_bytes(ops) + tail =~= tail);
        assert(ops =~= Seq::<OperationView>::empty());
    } else {
        let first = ops[0];
        let others = ops.drop_first();
        let after = operations_bytes(others) + tail;
        let s = operations_bytes(ops) + tail;
        assert(s == first.bytes() + after) by {
            lemma_operations_bytes_first(ops);
            assert(first.bytes() + operations_bytes(others) + tail =~= first.bytes() + after);
        }
        assert(operation_field(s) == Ok::<(OperationView, Seq<u8>), DecodeError>((first, after)))
            by {
            lemma_operation_round_trip(first, after);
        }
        assert(operations_field(after, others.len()) == Ok::<
            (Seq<OperationView>, Seq<u8>),
            DecodeError,
        >((others, tail))) by {
            assert forall|i: int| 0 <= i < others.len() implies (#[trigger] others[i]).well_formed(
            ) by {
                assert(others[i] == ops[i + 1]);
            }
            lemma_operations_round_trip(others, tail);
        }
        assert(seq![first] + others =~= ops);
    }
}

/// A length that fits its field is written as it is.
proof fn lemma_length_word_fits(n: nat)
    requires
        n <= u32::MAX,
    ensures
        length_word(n) == n,
{
}

/// A header that declares no more than the buffer holds hands the decode on
/// to the records behind it.
proof fn lemma_header_accepted(total: u32, count: u32, body: Seq<u8>)
    requires
        total <= 8 + body.len(),
    ensures
        response_field(u32_bytes(total) + u32_bytes(count) + body) == operations_field(
            body,
            count as nat,
        ),
        u32_at(u32_bytes(total) + u32_bytes(count) + body, 0) == total,
        (u32_bytes(total) + u32_bytes(count) + body).len() == 8 + body.len(),
{
    let s = u32_bytes(total) + u32_bytes(count) + body;
    assert(s.subrange(0, 4) =~= u32_bytes(total));
    assert(s.subrange(4, 8) =~= u32_bytes(count));
    lemma_u32_at_bytes(total, s, 0);
    lemma_u32_at_bytes(count, s, 4);
    assert(s.skip(8) =~= body);
}

/// Decoding the bytes of a well-formed response gives the response back and
/// stops where its last record ends, whatever follows; and the first four
/// bytes hold the length of the whole, little-endian.
pub proof fn lemma_response_round_trip(ops: Seq<OperationView>, tail: Seq<u8>)
    requires
        response_well_formed(ops),
    ensures
        response_field(response_bytes(ops) + tail) == Ok::<
            (Seq<OperationView>, Seq<u8>),
            DecodeError,
        >((ops, tail)),
        u32_at(response_bytes(ops), 0) == response_bytes(ops).len(),
{
    let records = operations_bytes(ops);
    let total = length_word(8 + records.len());
    let count = length_word(ops.len());
    lemma_length_word_fits(8 + records.len());
    lemma_length_word_fits(ops.len());
    lemma_header_accepted(total, count, records);
    lemma_header_accepted(total, count, records + tail);
    assert(response_bytes(ops) + tail =~= u32_bytes(total) + u32_bytes(count) + (records + tail));
    lemma_operations_round_trip(ops, tail);
}

/// A response whose header declares more bytes than the buffer holds is
/// rejected for that, whatever its records are.
pub proof fn lemma_overlong_declaration_rejected(s: Seq<u8>)
    requires
        s.len() >= 4,
        u32_at(s, 0) > s.len(),
    ensures
        response_field(s) == Err::<(Seq<OperationView>, Seq<u8>), DecodeError>(
            DecodeError::DeclaredLengthExceedsAvailable,
        ),
{
}

/// An accepted record is accepted with the same operation when more bytes
/// follow it, and those bytes are left unread.
pub proof fn lemma_operation_ignores_trailing(s: Seq<u8>, extra: Seq<u8>)
    requires
        operation_field(s) is Ok,
    ensures
        operation_field(s + extra) == Ok::<(OperationView, Seq<u8>), DecodeError>(
            (operation_field(s).unwrap().0, operation_field(s).unwrap().1 + extra),
        ),
{
    let t = s + extra;
    assert(u32_at(t, 0) == u32_at(s, 0));
    assert(u32_at(t, 4) == u32_at(s, 4));
    assert(u32_at(t, 12) == u32_at(s, 12));
    let n = u32_at(s, 12) as int;
    if n == 0 {
        assert(t.skip(16) =~= s.skip(16) + extra);
    } else {
        assert(t.subrange(16, 16 + n) =~= s.subrange(16, 16 + n));
        assert(t.subrange(16, 16 + n - 1) =~= s.subrange(16, 16 + n - 1));
        assert(t.skip(16 + n) =~= s.skip(16 + n) + extra);
    }
}

/// Accepted records are accepted with the same operations when more bytes
/// follow the last of them.
pub proof fn lemma_operations_ignore_trailing(s: Seq<u8>, count: nat, extra: Seq<u8>)
    requires
        operations_field(s, count) is Ok,
    ensures
        operations_field(s + extra, count) == Ok::<(Seq<OperationView>, Seq<u8>), DecodeError>(
            (operations_field(s, count).unwrap().0, operations_field(s, count).unwrap().1 + extra),
        ),
    decreases count,
{
    if count > 0 {
        lemma_operation_ignores_trailing(s, extra);
        let rest = operation_field(s).unwrap().1;
        lemma_operations_ignore_trailing(rest, (count - 1) as nat, extra);
    }
}

/// An accepted response is accepted with the same operations when bytes are
/// appended to the buffer: what follows the last counted record is not
/// looked at.
pub proof fn lemma_response_ignores_trailing(s: Seq<u8>, extra: Seq<u8>)
    requires
        response_field(s) is Ok,
    ensures
        response_field(s + extra) == Ok::<(Seq<OperationView>, Seq<u8>), DecodeError>(
            (response_field(s).unwrap().0, response_field(s).unwrap().1 + extra),
        ),
{
    let t = s + extra;
    assert(u32_at(t, 0) == u32_at(s, 0));
    assert(u32_at(t, 4) == u32_at(s, 4));
    assert(t.skip(8) =~= s.skip(8) + extra);
    lemma_operations_ignore_trailing(s.skip(8), u32_at(s, 4) as nat, extra);
}

} // verus!
