//! The parts of an intent's definition.
use crate::error::ProgramError;
use vstd::prelude::*;

verus! {

/// The type of a parameter.
#[derive(Clone, Copy, PartialEq, Eq, Debug, Structural)]
pub enum ParamType {
    Address,
    U64,
    I64,
    String,
    Bool,
    U8,
    U16,
    U32,
    U128,
}

/// A condition on the value of a `U64` parameter.
#[derive(Clone, Copy, PartialEq, Eq, Debug, Structural)]
pub enum ConstraintType {
    NoConstraint,
    LessThanU64,
    GreaterThanU64,
}

/// Where the address of an account comes from.
#[derive(Clone, Copy, PartialEq, Eq, Debug, Structural)]
pub enum AccountSourceType {
    /// The byte pool holds the address.
    Static,
    /// A parameter holds the address.
    Param,
    /// The address is derived from seeds and a program.
    PdaDerived,
    /// The data of another account holds the address.
    HasOne,
    /// The address is that of the wallet's vault.
    Vault,
}

/// What a segment of instruction data consists of.
#[derive(Clone, Copy, PartialEq, Eq, Debug, Structural)]
pub enum SegmentType {
    /// Bytes of the byte pool.
    Literal,
    /// The leading bytes of a parameter.
    Param,
}

/// What a seed of a derived address consists of.
#[derive(Clone, Copy, PartialEq, Eq, Debug, Structural)]
pub enum SeedType {
    /// Bytes of the byte pool.
    Literal,
    /// The bytes of a parameter.
    ParamRef,
    /// The address of an account.
    AccountRef,
}

/// How a parameter is written into instruction data.
#[derive(Clone, Copy, PartialEq, Eq, Debug, Structural)]
pub enum DataEncoding {
    Address,
    U64,
    I64,
    Bool,
    U8,
    U16,
    U32,
    U128,
}

/// The encoding with a number, where there is one.
pub open spec fn encoding_of(val: u8) -> Option<DataEncoding> {
    if val == 0 {
        Some(DataEncoding::Address)
    } else if val == 1 {
        Some(DataEncoding::U64)
    } else if val == 2 {
        Some(DataEncoding::I64)
    } else if val == 3 {
        Some(DataEncoding::Bool)
    } else if val == 4 {
        Some(DataEncoding::U8)
    } else if val == 5 {
        Some(DataEncoding::U16)
    } else if val == 6 {
        Some(DataEncoding::U32)
    } else if val == 7 {
        Some(DataEncoding::U128)
    } else {
        None
    }
}

/// How many bytes an encoding takes.
pub open spec fn encoding_size(encoding: DataEncoding) -> int {
    match encoding {
        DataEncoding::Address => 32,
        DataEncoding::U64 => 8,
        DataEncoding::I64 => 8,
        DataEncoding::Bool => 1,
        DataEncoding::U8 => 1,
        DataEncoding::U16 => 2,
        DataEncoding::U32 => 4,
        DataEncoding::U128 => 16,
    }
}

impl DataEncoding {
    /// The encoding with a number.
    pub fn from_u8(val: u8) -> (r: Option<DataEncoding>)
        ensures
            r == encoding_of(val),
    {
        match val {
            0 => Some(DataEncoding::Address),
            1 => Some(DataEncoding::U64),
            2 => Some(DataEncoding::I64),
            3 => Some(DataEncoding::Bool),
            4 => Some(DataEncoding::U8),
            5 => Some(DataEncoding::U16),
            6 => Some(DataEncoding::U32),
            7 => Some(DataEncoding::U128),
            _ => None,
        }
    }

    /// How many bytes the encoding takes.
    pub fn byte_size(&self) -> (r: usize)
        ensures
            r == encoding_size(*self),
            r <= 32,
    {
        match self {
            DataEncoding::Address => 32,
            DataEncoding::U64 => 8,
            DataEncoding::I64 => 8,
            DataEncoding::Bool => 1,
            DataEncoding::U8 => 1,
            DataEncoding::U16 => 2,
            DataEncoding::U32 => 4,
            DataEncoding::U128 => 16,
        }
    }
}

/// A parameter of an intent.
#[derive(Clone, Copy, Debug)]
pub struct ParamEntry {
    pub param_type: ParamType,
    pub name_offset: u16,
    pub name_len: u16,
    pub constraint_type: ConstraintType,
    pub constraint_value: u64,
}

/// An account that an intent's instructions use.
#[derive(Clone, Copy, Debug)]
pub struct AccountEntry {
    pub source_type: AccountSourceType,
    pub is_signer: bool,
    pub is_writable: bool,
    pub pool_offset: u16,
    pub pool_len: u16,
}

/// An instruction that an intent runs.
#[derive(Clone, Copy, Debug)]
pub struct InstructionEntry {
    pub program_account_index: u8,
    pub account_indexes_offset: u16,
    pub account_indexes_len: u16,
    pub segments_start: u16,
    pub segments_count: u16,
}

/// A segment of an instruction's data.
#[derive(Clone, Copy, Debug)]
pub struct DataSegmentEntry {
    pub segment_type: SegmentType,
    pub pool_offset: u16,
    pub pool_len: u16,
}

/// A seed of a derived address.
#[derive(Clone, Copy, Debug)]
pub struct SeedEntry {
    pub seed_type: SeedType,
    pub pool_offset: u16,
    pub pool_len: u16,
}

/// How many bytes a parameter takes that starts at `offset`: a string has one
/// byte for its length in front, which has to be there.
pub open spec fn param_size(param_type: ParamType, data: Seq<u8>, offset: int) -> Option<int> {
    match param_type {
        ParamType::Address => Some(32),
        ParamType::U64 => Some(8),
        ParamType::I64 => Some(8),
        ParamType::String => if 0 <= offset < data.len() {
            Some(1 + data[offset] as int)
        } else {
            None
        },
        ParamType::Bool => Some(1),
        ParamType::U8 => Some(1),
        ParamType::U16 => Some(2),
        ParamType::U32 => Some(4),
        ParamType::U128 => Some(16),
    }
}

/// How many bytes the parameter at `offset` takes.
pub fn param_byte_size(param_type: ParamType, data: &[u8], offset: usize) -> (r: Result<
    usize,
    ProgramError,
>)
    ensures
        match param_size(param_type, data@, offset as int) {
            Some(size) => r is Ok && r->Ok_0 == size,
            None => r == Err::<usize, ProgramError>(ProgramError::InvalidInstructionData),
        },
        r is Ok ==> r->Ok_0 <= 256,
{
    match param_type {
        ParamType::Address => Ok(32),
        ParamType::U64 => Ok(8),
        ParamType::I64 => Ok(8),
        ParamType::String => {
            if offset < data.len() {
                Ok(1 + data[offset] as usize)
            } else {
                Err(ProgramError::InvalidInstructionData)
            }
        },
        ParamType::Bool => Ok(1),
        ParamType::U8 => Ok(1),
        ParamType::U16 => Ok(2),
        ParamType::U32 => Ok(4),
        ParamType::U128 => Ok(16),
    }
}

} // verus!
