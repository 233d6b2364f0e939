//! The field reader for inbound bodies and the codec for command responses.

pub mod laws;
pub mod opcode;
pub mod operation;
pub mod reader;
pub mod response;

pub use opcode::OpCode;
pub use operation::Operation;
pub use reader::BodyReader;
pub use response::Response;
