//! The packets that a host sends when it checks in, and their decoder.

pub mod beacon;
pub mod header;
pub mod ids;
pub mod information;
pub mod packet;

pub use beacon::BeaconPacket;
pub use header::PacketHeader;
pub use ids::PacketId;
pub use ids::ProductType;
pub use information::InformationPacket;
pub use packet::Packet;
