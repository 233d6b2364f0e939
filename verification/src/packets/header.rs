//! The fields that every packet starts with.

use vstd::prelude::*;
use crate::encoding::reader::{lemma_u16_field_at, lemma_u32_field_at, text_field, BodyReader};
use crate::endian::{u16_at, u32_at};
use crate::error::DecodeError;
use crate::packets::ids::ProductType;

verus! {

/// A packet header as a mathematical value.
pub struct PacketHeaderView {
    pub username: Seq<char>,
    pub computer_name: Seq<char>,
    pub domain_name: Seq<char>,
    pub monitor_width: u32,
    pub monitor_height: u32,
    pub is_domain_admin: bool,
    pub is_local_admin: bool,
    pub is_amd_arch: bool,
    pub win_major_version: u16,
    pub win_minor_version: u16,
    pub win_product_type: ProductType,
    pub unknown_data: u16,
}

/// The header whose three names have been read and whose other fields lie
/// at the head of `t`, and what follows it.
///
/// The fields take 22 bytes in a fixed layout: the monitor's width and
/// height, 32 bits each; three booleans, for domain administrator, local
/// administrator and the architecture; the major and the minor Windows
/// version, the product type and a reserved value, 16 bits each. The product
/// type is checked as soon as it has been read, before the reserved value is
/// asked for.
pub open spec fn header_block(
    t: Seq<u8>,
    username: Seq<char>,
    computer_name: Seq<char>,
    domain_name: Seq<char>,
) -> Result<(PacketHeaderView, Seq<u8>), DecodeError> {
    if t.len() < 20 {
        Err(DecodeError::Truncated)
    } else if ProductType::of_code(u16_at(t, 18)) is None {
        Err(DecodeError::InvalidProductType)
    } else if t.len() < 22 {
        Err(DecodeError::Truncated)
    } else {
        Ok(
            (
                PacketHeaderView {
                    username,
                    computer_name,
                    domain_name,
                    monitor_width: u32_at(t, 0),
                    monitor_height: u32_at(t, 4),
                    is_domain_admin: u16_at(t, 8) != 0,
                    is_local_admin: u16_at(t, 10) != 0,
                    is_amd_arch: u16_at(t, 12) != 0,
                    win_major_version: u16_at(t, 14),
                    win_minor_version: u16_at(t, 16),
                    win_product_type: ProductType::of_code(u16_at(t, 18)).unwrap(),
                    unknown_data: u16_at(t, 20),
                },
                t.skip(22),
            ),
        )
    }
}

/// The header at the head of `s`, and what follows it: three texts, which
/// are the user, computer and domain name, then the fixed block.
pub open spec fn header_fields(s: Seq<u8>) -> Result<(PacketHeaderView, Seq<u8>), DecodeError> {
    match text_field(s) {
        Err(e) => Err(e),
        Ok((username, s1)) => match text_field(s1) {
            Err(e) => Err(e),
            Ok((computer_name, s2)) => match text_field(s2) {
                Err(e) => Err(e),
                Ok((domain_name, t)) => header_block(t, username, computer_name, domain_name),
            },
        },
    }
}

/// What a host says of itself in every packet.
#[derive(Debug)]
pub struct PacketHeader {
    username: String,
    computer_name: String,
    domain_name: String,
    monitor_width: u32,
    monitor_height: u32,
    is_domain_admin: bool,
    is_local_admin: bool,
    is_amd_arch: bool,
    win_major_version: u16,
    win_minor_version: u16,
    win_product_type: ProductType,
    unknown_data: u16,
}

impl View for PacketHeader {
    type V = PacketHeaderView;

    closed spec fn view(&self) -> PacketHeaderView {
        PacketHeaderView {
            username: self.username@,
            computer_name: self.computer_name@,
            domain_name: self.domain_name@,
            monitor_width: self.monitor_width,
            monitor_height: self.monitor_height,
            is_domain_admin: self.is_domain_admin,
            is_local_admin: self.is_local_admin,
            is_amd_arch: self.is_amd_arch,
            win_major_version: self.win_major_version,
            win_minor_version: self.win_minor_version,
            win_product_type: self.win_product_type,
            unknown_data: self.unknown_data,
        }
    }
}

impl PacketHeader {
    /// Reads the fixed block of a header whose names have been read.
    fn read_block(
        cursor: &mut BodyReader<'_>,
        username: String,
        computer_name: String,
        domain_name: String,
    ) -> (r: Result<PacketHeader, DecodeError>)
        ensures
            match header_block(
                old(cursor).remaining(),
                username@,
                computer_name@,
                domain_name@,
            ) {
                Ok((header, rest)) => r is Ok && r.unwrap()@ == header
                    && final(cursor).remaining() == rest,
                Err(e) => r == Err::<PacketHeader, DecodeError>(e),
            },
    {
        let ghost t = cursor.remaining();
        proof {
            assert(t.skip(0) =~= t);
            lemma_u32_field_at(t, 0);
        }
        let monitor_width = match cursor.read_u32() {
            Ok(word) => word,
            Err(e) => return Err(e),
        };
        proof {
            lemma_u32_field_at(t, 4);
        }
        let monitor_height = match cursor.read_u32() {
            Ok(word) => word,
            Err(e) => return Err(e),
        };
        proof {
            lemma_u16_field_at(t, 8);
        }
        let is_domain_admin = match cursor.read_bool() {
            Ok(flag) => flag,
            Err(e) => return Err(e),
        };
        proof {
            lemma_u16_field_at(t, 10);
        }
        let is_local_admin = match cursor.read_bool() {
            Ok(flag) => flag,
            Err(e) => return Err(e),
        };
        proof {
            lemma_u16_field_at(t, 12);
        }
        let is_amd_arch = match cursor.read_bool() {
            Ok(flag) => flag,
            Err(e) => return Err(e),
        };
        proof {
            lemma_u16_field_at(t, 14);
        }
        let win_major_version = match cursor.read_u16() {
            Ok(word) => word,
            Err(e) => return Err(e),
        };
        proof {
            lemma_u16_field_at(t, 16);
        }
        let win_minor_version = match cursor.read_u16() {
            Ok(word) => word,
            Err(e) => return Err(e),
        };
        proof {
            lemma_u16_field_at(t, 18);
        }
        let product_code = match cursor.read_u16() {
            Ok(word) => word,
            Err(e) => return Err(e),
        };
        let win_product_type = match ProductType::try_from(product_code) {
            Ok(product) => product,
            Err(e) => return Err(e),
        };
        proof {
            lemma_u16_field_at(t, 20);
        }
        let unknown_data = match cursor.read_u16() {
            Ok(word) => word,
            Err(e) => return Err(e),
        };
        Ok(
            PacketHeader {
                username,
                computer_name,
                domain_name,
                monitor_width,
                monitor_height,
                is_domain_admin,
                is_local_admin,
                is_amd_arch,
                win_major_version,
                win_minor_version,
                win_product_type,
                unknown_data,
            },
        )
    }

    /// Reads a header. A reader that holds no header in full is left where
    /// it was.
    pub fn from_reader(reader: &mut BodyReader<'_>) -> (r: Result<PacketHeader, DecodeError>)
        ensures
            match header_fields(old(reader).remaining()) {
                Ok((header, rest)) => r is Ok && r.unwrap()@ == header
                    && final(reader).remaining() == rest,
                Err(e) => r == Err::<PacketHeader, DecodeError>(e) && final(reader).remaining()
                    == old(reader).remaining(),
            },
    {
        let mut cursor = *reader;
        let username = match cursor.read_string() {
            Ok(text) => text,
            Err(e) => return Err(e),
        };
        let computer_name = match cursor.read_string() {
            Ok(text) => text,
            Err(e) => return Err(e),
        };
        let domain_name = match cursor.read_string() {
            Ok(text) => text,
            Err(e) => return Err(e),
        };
        match PacketHeader::read_block(&mut cursor, username, computer_name, domain_name) {
            Ok(header) => {
                *reader = cursor;
                Ok(header)
            },
            Err(e) => Err(e),
        }
    }

    /// The name of the user that the host runs as.
    pub fn username(&self) -> (text: &str)
        ensures
            text@ == self@.username,
    {
        self.username.as_str()
    }

    /// The name of the host.
    pub fn computer_name(&self) -> (text: &str)
        ensures
            text@ == self@.computer_name,
    {
        self.computer_name.as_str()
    }

    /// The name of the domain that the host belongs to.
    pub fn domain_name(&self) -> (text: &str)
        ensures
            text@ == self@.domain_name,
    {
        self.domain_name.as_str()
    }

    /// The width of the host's monitor.
    pub fn monitor_width(&self) -> (width: u32)
        ensures
            width == self@.monitor_width,
    {
        self.monitor_width
    }

    /// The height of the host's monitor.
    pub fn monitor_height(&self) -> (height: u32)
        ensures
            height == self@.monitor_height,
    {
        self.monitor_height
    }

    /// Whether the user administers the domain.
    pub fn is_domain_admin(&self) -> (flag: bool)
        ensures
            flag == self@.is_domain_admin,
    {
        self.is_domain_admin
    }

    /// Whether the user administers the host.
    pub fn is_local_admin(&self) -> (flag: bool)
        ensures
            flag == self@.is_local_admin,
    {
        self.is_local_admin
    }

    /// The architecture flag of the host.
    pub fn is_amd_arch(&self) -> (flag: bool)
        ensures
            flag == self@.is_amd_arch,
    {
        self.is_amd_arch
    }

    /// The major version of Windows on the host.
    pub fn win_major_version(&self) -> (version: u16)
        ensures
            version == self@.win_major_version,
    {
        self.win_major_version
    }

    /// The minor version of Windows on the host.
    pub fn win_minor_version(&self) -> (version: u16)
        ensures
            version == self@.win_minor_version,
    {
        self.win_minor_version
    }

    /// The kind of Windows installation on the host.
    pub fn win_product_type(&self) -> (product: ProductType)
        ensures
            product == self@.win_product_type,
    {
        self.win_product_type
    }

    /// The reserved value that ends the header, as it was sent.
    pub fn unknown_data(&self) -> (word: u16)
        ensures
            word == self@.unknown_data,
    {
        self.unknown_data
    }
}

} // verus!
