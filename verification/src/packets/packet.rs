//! The dispatcher: from a buffer to the packet that it holds.

use vstd::prelude::*;
use vstd::std_specs::convert::TryFromSpecImpl;
use vstd::utf8::encode_utf8_decode_utf8;
use crate::encoding::reader::{text_field, BodyReader};
use crate::endian::u32_at;
use crate::error::DecodeError;
use crate::packets::beacon::{beacon_fields, BeaconPacket, BeaconPacketView};
use crate::packets::ids::PacketId;
use crate::packets::information::{information_fields, InformationPacket, InformationPacketView};

verus! {

/// The text that follows the identifier of every packet.
pub open spec fn domain_fragment() -> Seq<char> {
    "ckav.ru"@
}

/// A packet as a mathematical value.
pub enum PacketView {
    Beacon(BeaconPacketView),
    Information(InformationPacketView),
}

/// The packet that `s` holds.
///
/// A packet starts with its 32-bit identifier and the domain fragment as a
/// text. The fragment is checked before the identifier is; the fields of the
/// packet type that the identifier names follow. What lies behind the last
/// field is not looked at.
pub open spec fn packet_of(s: Seq<u8>) -> Result<PacketView, DecodeError> {
    if s.len() < 4 {
        Err(DecodeError::Truncated)
    } else {
        match text_field(s.skip(4)) {
            Err(e) => Err(e),
            Ok((fragment, rest)) => if fragment != domain_fragment() {
                Err(DecodeError::InvalidDomainFragment)
            } else {
                match PacketId::of_code(u32_at(s, 0)) {
                    None => Err(DecodeError::UnknownPacketId),
                    Some(PacketId::Beacon) => match beacon_fields(rest) {
                        Err(e) => Err(e),
                        Ok((beacon, _)) => Ok(PacketView::Beacon(beacon)),
                    },
                    Some(PacketId::Information) => match information_fields(rest) {
                        Err(e) => Err(e),
                        Ok((information, _)) => Ok(PacketView::Information(information)),
                    },
                }
            },
        }
    }
}

/// A packet from a host, tagged with its type.
#[derive(Debug)]
pub enum Packet {
    Beacon(BeaconPacket),
    Information(InformationPacket),
}

impl View for Packet {
    type V = PacketView;

    open spec fn view(&self) -> PacketView {
        match self {
            Packet::Beacon(beacon) => PacketView::Beacon(beacon@),
            Packet::Information(information) => PacketView::Information(information@),
        }
    }
}

/// Whether `a` and `b` hold the same bytes.
fn same_bytes(a: &[u8], b: &[u8]) -> (same: bool)
    ensures
        same == (a@ == b@),
{
    if a.len() != b.len() {
        return false;
    }
    let mut i: usize = 0;
    while i < a.len()
        invariant
            i <= a@.len(),
            a@.len() == b@.len(),
            forall|j: int| 0 <= j < i ==> a@[j] == b@[j],
        decreases a@.len() - i,
    {
        if a[i] != b[i] {
            return false;
        }
        i += 1;
    }
    proof {
        assert(a@ =~= b@);
    }
    true
}

/// Whether `text` is the domain fragment that every packet carries.
pub fn is_domain_fragment(text: &str) -> (same: bool)
    ensures
        same == (text@ == domain_fragment()),
{
    let same = same_bytes(text.as_bytes(), "ckav.ru".as_bytes());
    proof {
        encode_utf8_decode_utf8(text@);
        encode_utf8_decode_utf8("ckav.ru"@);
    }
    same
}

impl Packet {
    /// The identifier of this packet's type.
    pub fn packet_id(&self) -> (id: PacketId)
        ensures
            id == match self@ {
                PacketView::Beacon(_) => PacketId::Beacon,
                PacketView::Information(_) => PacketId::Information,
            },
    {
        match self {
            Packet::Beacon(_) => PacketId::Beacon,
            Packet::Information(_) => PacketId::Information,
        }
    }

    /// The domain fragment that this packet carried, as every packet does.
    pub fn url_fragment(&self) -> (text: &'static str)
        ensures
            text@ == domain_fragment(),
    {
        "ckav.ru"
    }
}

impl<'a> TryFrom<&'a [u8]> for Packet {
    type Error = DecodeError;

    /// Decodes the packet that `value` holds.
    fn try_from(value: &'a [u8]) -> (r: Result<Packet, DecodeError>)
        ensures
            match packet_of(value@) {
                Ok(packet) => r is Ok && r.unwrap()@ == packet,
                Err(e) => r == Err::<Packet, DecodeError>(e),
            },
    {
        let mut reader = BodyReader::new(value);
        let id = match reader.read_u32() {
            Ok(word) => word,
            Err(e) => return Err(e),
        };
        let fragment = match reader.read_string() {
            Ok(text) => text,
            Err(e) => return Err(e),
        };
        if !is_domain_fragment(fragment.as_str()) {
            return Err(DecodeError::InvalidDomainFragment);
        }
        match PacketId::try_from(id) {
            Err(e) => Err(e),
            Ok(PacketId::Beacon) => match BeaconPacket::from_reader(&mut reader) {
                Ok(beacon) => Ok(Packet::Beacon(beacon)),
                Err(e) => Err(e),
            },
            Ok(PacketId::Information) => match InformationPacket::from_reader(&mut reader) {
                Ok(information) => Ok(Packet::Information(information)),
                Err(e) => Err(e),
            },
        }
    }
}

/// What `try_from` returns is stated by its own `ensures`, over the view of
/// the packet.
impl<'a> TryFromSpecImpl<&'a [u8]> for Packet {
    open spec fn obeys_try_from_spec() -> bool {
        false
    }

    open spec fn try_from_spec(v: &'a [u8]) -> Result<Packet, DecodeError> {
        arbitrary()
    }
}

} // verus!
