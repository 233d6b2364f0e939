//! The closed enumerations of the packet format.

use vstd::prelude::*;
use vstd::std_specs::convert::{FromSpecImpl, TryFromSpecImpl};
use crate::error::DecodeError;

verus! {

/// The identifier that leads a packet and names its type. Every 32-bit value
/// that is not the code of a variant names no packet.
#[derive(Debug, Clone, Copy, PartialEq, Eq, Structural)]
pub enum PacketId {
    Beacon,
    Information,
}

impl PacketId {
    /// The number that stands for this packet type on the wire.
    pub open spec fn code(self) -> u32 {
        match self {
            PacketId::Beacon => 0x0028_0012,
            PacketId::Information => 0x0027_0012,
        }
    }

    /// The packet type that `code` stands for, if there is one.
    pub open spec fn of_code(code: u32) -> Option<PacketId> {
        if code == 0x0028_0012 {
            Some(PacketId::Beacon)
        } else if code == 0x0027_0012 {
            Some(PacketId::Information)
        } else {
            None
        }
    }

    /// A packet type is found again from its own code.
    pub proof fn lemma_code_round_trip(self)
        ensures
            PacketId::of_code(self.code()) == Some(self),
    {
    }
}

impl From<PacketId> for u32 {
    /// The number that stands for `value` on the wire.
    fn from(value: PacketId) -> (code: u32)
        ensures
            code == value.code(),
    {
        match value {
            PacketId::Beacon => 0x0028_0012,
            PacketId::Information => 0x0027_0012,
        }
    }
}

impl FromSpecImpl<PacketId> for u32 {
    open spec fn obeys_from_spec() -> bool {
        true
    }

    open spec fn from_spec(v: PacketId) -> u32 {
        v.code()
    }
}

impl TryFrom<u32> for PacketId {
    type Error = DecodeError;

    /// The packet type that `value` stands for; `UnknownPacketId` where it
    /// stands for none.
    fn try_from(value: u32) -> (r: Result<PacketId, DecodeError>)
        ensures
            r == match PacketId::of_code(value) {
                Some(id) => Ok::<PacketId, DecodeError>(id),
                None => Err::<PacketId, DecodeError>(DecodeError::UnknownPacketId),
            },
    {
        match value {
            0x0028_0012 => Ok(PacketId::Beacon),
            0x0027_0012 => Ok(PacketId::Information),
            _ => Err(DecodeError::UnknownPacketId),
        }
    }
}

impl TryFromSpecImpl<u32> for PacketId {
    open spec fn obeys_try_from_spec() -> bool {
        true
    }

    open spec fn try_from_spec(v: u32) -> Result<PacketId, DecodeError> {
        match PacketId::of_code(v) {
            Some(id) => Ok(id),
            None => Err(DecodeError::UnknownPacketId),
        }
    }
}

/// The kind of Windows installation that a host reports.
#[derive(Debug, Clone, Copy, PartialEq, Eq, Structural)]
#[allow(non_camel_case_types)]
pub enum ProductType {
    VER_NT_WORKSTATION,
    VER_NT_DOMAIN_CONTROLLER,
    VER_NT_SERVER,
}

impl ProductType {
    /// The number that stands for this product type on the wire.
    pub open spec fn code(self) -> u16 {
        match self {
            ProductType::VER_NT_WORKSTATION => 1,
            ProductType::VER_NT_DOMAIN_CONTROLLER => 2,
            ProductType::VER_NT_SERVER => 3,
        }
    }

    /// The product type that `code` stands for, if there is one.
    pub open spec fn of_code(code: u16) -> Option<ProductType> {
        if code == 1 {
            Some(ProductType::VER_NT_WORKSTATION)
        } else if code == 2 {
            Some(ProductType::VER_NT_DOMAIN_CONTROLLER)
        } else if code == 3 {
            Some(ProductType::VER_NT_SERVER)
        } else {
            None
        }
    }

    /// The name of this product type in plain words.
    pub open spec fn label_text(self) -> Seq<char> {
        match self {
            ProductType::VER_NT_WORKSTATION => "Workstation"@,
            ProductType::VER_NT_DOMAIN_CONTROLLER => "Domain Controller"@,
            ProductType::VER_NT_SERVER => "Server"@,
        }
    }

    /// A product type is found again from its own code.
    pub proof fn lemma_code_round_trip(self)
        ensures
            ProductType::of_code(self.code()) == Some(self),
    {
    }

    /// The name of this product type in plain words.
    pub fn label(&self) -> (label: &'static str)
        ensures
            label@ == self.label_text(),
    {
        match self {
            ProductType::VER_NT_WORKSTATION => "Workstation",
            ProductType::VER_NT_DOMAIN_CONTROLLER => "Domain Controller",
            ProductType::VER_NT_SERVER => "Server",
        }
    }
}

impl From<ProductType> for u16 {
    /// The number that stands for `value` on the wire.
    fn from(value: ProductType) -> (code: u16)
        ensures
            code == value.code(),
    {
        match value {
            ProductType::VER_NT_WORKSTATION => 1,
            ProductType::VER_NT_DOMAIN_CONTROLLER => 2,
            ProductType::VER_NT_SERVER => 3,
        }
    }
}

impl FromSpecImpl<ProductType> for u16 {
    open spec fn obeys_from_spec() -> bool {
        true
    }

    open spec fn from_spec(v: ProductType) -> u16 {
        v.code()
    }
}

impl TryFrom<u16> for ProductType {
    type Error = DecodeError;

    /// The product type that `value` stands for; `InvalidProductType` where
    /// it stands for none.
    fn try_from(value: u16) -> (r: Result<ProductType, DecodeError>)
        ensures
            r == match ProductType::of_code(value) {
                Some(product) => Ok::<ProductType, DecodeError>(product),
                None => Err::<ProductType, DecodeError>(DecodeError::InvalidProductType),
            },
    {
        match value {
            1 => Ok(ProductType::VER_NT_WORKSTATION),
            2 => Ok(ProductType::VER_NT_DOMAIN_CONTROLLER),
            3 => Ok(ProductType::VER_NT_SERVER),
            _ => Err(DecodeError::InvalidProductType),
        }
    }
}

impl TryFromSpecImpl<u16> for ProductType {
    open spec fn obeys_try_from_spec() -> bool {
        true
    }

    open spec fn try_from_spec(v: u16) -> Result<ProductType, DecodeError> {
        match ProductType::of_code(v) {
            Some(product) => Ok(product),
            None => Err(DecodeError::InvalidProductType),
        }
    }
}

} // verus!
