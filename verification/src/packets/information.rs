//! The extended check-in packet, which carries two attachments.

use vstd::prelude::*;
use crate::encoding::reader::{
    blob_field,
    lemma_u16_field_at,
    lemma_u32_field_at,
    text_field,
    BodyReader,
};
use crate::endian::{u16_at, u32_at};
use crate::error::DecodeError;
use crate::packets::header::{header_fields, PacketHeader, PacketHeaderView};

verus! {

/// An information packet as a mathematical value.
pub struct InformationPacketView {
    pub header: PacketHeaderView,
    pub unknown_short_1: u16,
    pub unknown_short_2: u16,
    pub len_hint: u32,
    pub truncated_guid_hash: Seq<char>,
    pub buf_1: Seq<u8>,
    pub buf_2: Seq<u8>,
}

/// The information packet whose header has been read and whose other fields
/// lie at the head of `t`, and what follows them.
///
/// First come 14 bytes in a fixed layout: two 16-bit values of unknown
/// meaning, three 16-bit words that must be zero, and a 32-bit length, which
/// is kept as it was sent and held against nothing. Each of the three words
/// is checked as soon as it has been read. Then come one text, the truncated
/// hash of the host's identifier, and two blobs.
pub open spec fn information_block(t: Seq<u8>, header: PacketHeaderView) -> Result<
    (InformationPacketView, Seq<u8>),
    DecodeError,
> {
    if t.len() < 6 {
        Err(DecodeError::Truncated)
    } else if u16_at(t, 4) != 0 {
        Err(DecodeError::UnexpectedReservedValue)
    } else if t.len() < 8 {
        Err(DecodeError::Truncated)
    } else if u16_at(t, 6) != 0 {
        Err(DecodeError::UnexpectedReservedValue)
    } else if t.len() < 10 {
        Err(DecodeError::Truncated)
    } else if u16_at(t, 8) != 0 {
        Err(DecodeError::UnexpectedReservedValue)
    } else if t.len() < 14 {
        Err(DecodeError::Truncated)
    } else {
        match text_field(t.skip(14)) {
            Err(e) => Err(e),
            Ok((truncated_guid_hash, s1)) => match blob_field(s1) {
                Err(e) => Err(e),
                Ok((buf_1, s2)) => match blob_field(s2) {
                    Err(e) => Err(e),
                    Ok((buf_2, rest)) => Ok(
                        (
                            InformationPacketView {
                                header,
                                unknown_short_1: u16_at(t, 0),
                                unknown_short_2: u16_at(t, 2),
                                len_hint: u32_at(t, 10),
                                truncated_guid_hash,
                                buf_1,
                                buf_2,
                            },
                            rest,
                        ),
                    ),
                },
            },
        }
    }
}

/// The information packet whose fields are at the head of `s`, and what
/// follows them: a header, then the fields of [`information_block`].
pub open spec fn information_fields(s: Seq<u8>) -> Result<
    (InformationPacketView, Seq<u8>),
    DecodeError,
> {
    match header_fields(s) {
        Err(e) => Err(e),
        Ok((header, t)) => information_block(t, header),
    }
}

/// The record with which a host checks in and hands over two attachments.
#[derive(Debug)]
pub struct InformationPacket {
    header: PacketHeader,
    unknown_short_1: u16,
    unknown_short_2: u16,
    len_hint: u32,
    truncated_guid_hash: String,
    buf_1: Vec<u8>,
    buf_2: Vec<u8>,
}

impl View for InformationPacket {
    type V = InformationPacketView;

    closed spec fn view(&self) -> InformationPacketView {
        InformationPacketView {
            header: self.header@,
            unknown_short_1: self.unknown_short_1,
            unknown_short_2: self.unknown_short_2,
            len_hint: self.len_hint,
            truncated_guid_hash: self.truncated_guid_hash@,
            buf_1: self.buf_1@,
            buf_2: self.buf_2@,
        }
    }
}

impl InformationPacket {
    /// Reads the fields that follow the header of an information packet.
    fn read_block(cursor: &mut BodyReader<'_>, header: PacketHeader) -> (r: Result<
        InformationPacket,
        DecodeError,
    >)
        ensures
            match information_block(old(cursor).remaining(), header@) {
                Ok((packet, rest)) => r is Ok && r.unwrap()@ == packet
                    && final(cursor).remaining() == rest,
                Err(e) => r == Err::<InformationPacket, DecodeError>(e),
            },
    {
        let ghost t = cursor.remaining();
        proof {
            assert(t.skip(0) =~= t);
            lemma_u16_field_at(t, 0);
        }
        let unknown_short_1 = match cursor.read_u16() {
            Ok(word) => word,
            Err(e) => return Err(e),
        };
        proof {
            lemma_u16_field_at(t, 2);
        }
        let unknown_short_2 = match cursor.read_u16() {
            Ok(word) => word,
            Err(e) => return Err(e),
        };
        proof {
            lemma_u16_field_at(t, 4);
        }
        match cursor.read_u16() {
            Ok(word) => if word != 0 {
                return Err(DecodeError::UnexpectedReservedValue);
            },
            Err(e) => return Err(e),
        }
        proof {
            lemma_u16_field_at(t, 6);
        }
        match cursor.read_u16() {
            Ok(word) => if word != 0 {
                return Err(DecodeError::UnexpectedReservedValue);
            },
            Err(e) => return Err(e),
        }
        proof {
            lemma_u16_field_at(t, 8);
        }
        match cursor.read_u16() {
            Ok(word) => if word != 0 {
                return Err(DecodeError::UnexpectedReservedValue);
            },
            Err(e) => return Err(e),
        }
        proof {
            lemma_u32_field_at(t, 10);
        }
        let len_hint = match cursor.read_u32() {
            Ok(word) => word,
            Err(e) => return Err(e),
        };
        let truncated_guid_hash = match cursor.read_string() {
            Ok(text) => text,
            Err(e) => return Err(e),
        };
        let buf_1 = match cursor.read_vec() {
            Ok(blob) => blob,
            Err(e) => return Err(e),
        };
        let buf_2 = match cursor.read_vec() {
            Ok(blob) => blob,
            Err(e) => return Err(e),
        };
        Ok(
            InformationPacket {
                header,
                unknown_short_1,
                unknown_short_2,
                len_hint,
                truncated_guid_hash,
                buf_1,
                buf_2,
            },
        )
    }

    /// Reads the fields of an information packet. A reader that does not
    /// hold them in full is left where it was.
    pub fn from_reader(reader: &mut BodyReader<'_>) -> (r: Result<InformationPacket, DecodeError>)
        ensures
            match information_fields(old(reader).remaining()) {
                Ok((packet, rest)) => r is Ok && r.unwrap()@ == packet
                    && final(reader).remaining() == rest,
                Err(e) => r == Err::<InformationPacket, DecodeError>(e)
                    && final(reader).remaining() == old(reader).remaining(),
            },
    {
        let mut cursor = *reader;
        let header = match PacketHeader::from_reader(&mut cursor) {
            Ok(header) => header,
            Err(e) => return Err(e),
        };
        match InformationPacket::read_block(&mut cursor, header) {
            Ok(packet) => {
                *reader = cursor;
                Ok(packet)
            },
            Err(e) => Err(e),
        }
    }

    /// What the host says of itself.
    pub fn header(&self) -> (header: &PacketHeader)
        ensures
            header@ == self@.header,
    {
        &self.header
    }

    /// The first value of unknown meaning.
    pub fn unknown_short_1(&self) -> (word: u16)
        ensures
            word == self@.unknown_short_1,
    {
        self.unknown_short_1
    }

    /// The second value of unknown meaning.
    pub fn unknown_short_2(&self) -> (word: u16)
        ensures
            word == self@.unknown_short_2,
    {
        self.unknown_short_2
    }

    /// The length that the packet declares ahead of its hash, as it was
    /// sent.
    pub fn len_hint(&self) -> (word: u32)
        ensures
            word == self@.len_hint,
    {
        self.len_hint
    }

    /// The truncated hash of the host's identifier.
    pub fn truncated_guid_hash(&self) -> (text: &str)
        ensures
            text@ == self@.truncated_guid_hash,
    {
        self.truncated_guid_hash.as_str()
    }

    /// The first attachment.
    pub fn buf_1(&self) -> (blob: &Vec<u8>)
        ensures
            blob@ == self@.buf_1,
    {
        &self.buf_1
    }

    /// The second attachment.
    pub fn buf_2(&self) -> (blob: &Vec<u8>)
        ensures
            blob@ == self@.buf_2,
    {
        &self.buf_2
    }
}

} // verus!
