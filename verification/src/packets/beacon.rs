//! The plain check-in packet.

use vstd::prelude::*;
use crate::encoding::reader::{text_field, BodyReader};
use crate::error::DecodeError;
use crate::packets::header::{header_fields, PacketHeader, PacketHeaderView};

verus! {

/// A beacon packet as a mathematical value.
pub struct BeaconPacketView {
    pub header: PacketHeaderView,
    pub truncated_guid_hash: Seq<char>,
}

/// The beacon whose fields are at the head of `s`, and what follows them: a
/// header, then one text, the truncated hash of the host's identifier.
pub open spec fn beacon_fields(s: Seq<u8>) -> Result<(BeaconPacketView, Seq<u8>), DecodeError> {
    match header_fields(s) {
        Err(e) => Err(e),
        Ok((header, s1)) => match text_field(s1) {
            Err(e) => Err(e),
            Ok((truncated_guid_hash, rest)) => Ok(
                (BeaconPacketView { header, truncated_guid_hash }, rest),
            ),
        },
    }
}

/// The record that a host sends to check in.
#[derive(Debug)]
pub struct BeaconPacket {
    header: PacketHeader,
    truncated_guid_hash: String,
}

impl View for BeaconPacket {
    type V = BeaconPacketView;

    closed spec fn view(&self) -> BeaconPacketView {
        BeaconPacketView {
            header: self.header@,
            truncated_guid_hash: self.truncated_guid_hash@,
        }
    }
}

impl BeaconPacket {
    /// Reads the fields of a beacon. A reader that does not hold them in
    /// full is left where it was.
    pub fn from_reader(reader: &mut BodyReader<'_>) -> (r: Result<BeaconPacket, DecodeError>)
        ensures
            match beacon_fields(old(reader).remaining()) {
                Ok((beacon, rest)) => r is Ok && r.unwrap()@ == beacon
                    && final(reader).remaining() == rest,
                Err(e) => r == Err::<BeaconPacket, DecodeError>(e) && final(reader).remaining()
                    == old(reader).remaining(),
            },
    {
        let mut cursor = *reader;
        let header = match PacketHeader::from_reader(&mut cursor) {
            Ok(header) => header,
            Err(e) => return Err(e),
        };
        let truncated_guid_hash = match cursor.read_string() {
            Ok(text) => text,
            Err(e) => return Err(e),
        };
        *reader = cursor;
        Ok(BeaconPacket { header, truncated_guid_hash })
    }

    /// What the host says of itself.
    pub fn header(&self) -> (header: &PacketHeader)
        ensures
            header@ == self@.header,
    {
        &self.header
    }

    /// The truncated hash of the host's identifier.
    pub fn truncated_guid_hash(&self) -> (text: &str)
        ensures
            text@ == self@.truncated_guid_hash,
    {
        self.truncated_guid_hash.as_str()
    }
}

} // verus!
