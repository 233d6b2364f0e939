//! The commands that a response can carry.

use vstd::prelude::*;
use vstd::std_specs::convert::{FromSpecImpl, TryFromSpecImpl};
use crate::error::DecodeError;

verus! {

/// A command for the host that checked in. The numbering is sparse: every
/// 32-bit value that is not the code of a variant is invalid.
#[derive(Debug, Clone, Copy, PartialEq, Eq, Structural)]
pub enum OpCode {
    StealInfo,
    DownloadExe1,
    DownloadDll,
    DownloadExe2,
    DeleteFile,
    ExitProcess,
    DownloadExe3,
    SetGlobal,
    MoveAndExit,
}

impl OpCode {
    /// The number that stands for this command on the wire.
    pub open spec fn code(self) -> u32 {
        match self {
            OpCode::DownloadExe1 => 0,
            OpCode::DownloadDll => 1,
            OpCode::DownloadExe2 => 2,
            OpCode::DeleteFile => 8,
            OpCode::StealInfo => 10,
            OpCode::ExitProcess => 14,
            OpCode::DownloadExe3 => 15,
            OpCode::SetGlobal => 16,
            OpCode::MoveAndExit => 17,
        }
    }

    /// The command that `code` stands for, if there is one.
    pub open spec fn of_code(code: u32) -> Option<OpCode> {
        if code == 0 {
            Some(OpCode::DownloadExe1)
        } else if code == 1 {
            Some(OpCode::DownloadDll)
        } else if code == 2 {
            Some(OpCode::DownloadExe2)
        } else if code == 8 {
            Some(OpCode::DeleteFile)
        } else if code == 10 {
            Some(OpCode::StealInfo)
        } else if code == 14 {
            Some(OpCode::ExitProcess)
        } else if code == 15 {
            Some(OpCode::DownloadExe3)
        } else if code == 16 {
            Some(OpCode::SetGlobal)
        } else if code == 17 {
            Some(OpCode::MoveAndExit)
        } else {
            None
        }
    }

    /// A command is found again from its own code.
    pub proof fn lemma_code_round_trip(self)
        ensures
            OpCode::of_code(self.code()) == Some(self),
    {
    }

    /// The codes in use are 0, 1, 2, 8, 10, 14, 15, 16 and 17, and a code
    /// that is in use belongs to one command only.
    pub proof fn lemma_codes_in_use(code: u32)
        ensures
            OpCode::of_code(code) is Some <==> code == 0 || code == 1 || code == 2 || code == 8
                || code == 10 || code == 14 || code == 15 || code == 16 || code == 17,
            OpCode::of_code(code) is Some ==> OpCode::of_code(code).unwrap().code() == code,
    {
    }
}

impl From<OpCode> for u32 {
    /// The number that stands for `value` on the wire.
    fn from(value: OpCode) -> (code: u32)
        ensures
            code == value.code(),
    {
        match value {
            OpCode::DownloadExe1 => 0,
            OpCode::DownloadDll => 1,
            OpCode::DownloadExe2 => 2,
            OpCode::DeleteFile => 8,
            OpCode::StealInfo => 10,
            OpCode::ExitProcess => 14,
            OpCode::DownloadExe3 => 15,
            OpCode::SetGlobal => 16,
            OpCode::MoveAndExit => 17,
        }
    }
}

impl FromSpecImpl<OpCode> for u32 {
    open spec fn obeys_from_spec() -> bool {
        true
    }

    open spec fn from_spec(v: OpCode) -> u32 {
        v.code()
    }
}

impl TryFrom<u32> for OpCode {
    type Error = DecodeError;

    /// The command that `value` stands for; `InvalidOpcode` where it stands
    /// for none.
    fn try_from(value: u32) -> (r: Result<OpCode, DecodeError>)
        ensures
            r == match OpCode::of_code(value) {
                Some(opcode) => Ok::<OpCode, DecodeError>(opcode),
                None => Err::<OpCode, DecodeError>(DecodeError::InvalidOpcode),
            },
    {
        match value {
            0 => Ok(OpCode::DownloadExe1),
            1 => Ok(OpCode::DownloadDll),
            2 => Ok(OpCode::DownloadExe2),
            8 => Ok(OpCode::DeleteFile),
            10 => Ok(OpCode::StealInfo),
            14 => Ok(OpCode::ExitProcess),
            15 => Ok(OpCode::DownloadExe3),
            16 => Ok(OpCode::SetGlobal),
            17 => Ok(OpCode::MoveAndExit),
            _ => Err(DecodeError::InvalidOpcode),
        }
    }
}

impl TryFromSpecImpl<u32> for OpCode {
    open spec fn obeys_try_from_spec() -> bool {
        true
    }

    open spec fn try_from_spec(v: u32) -> Result<OpCode, DecodeError> {
        match OpCode::of_code(v) {
            Some(opcode) => Ok(opcode),
            None => Err(DecodeError::InvalidOpcode),
        }
    }
}

} // verus!
