//! Intents: the kinds of action that a wallet allows.
use crate::address::Address;
use crate::bytes::{get_part, le_value, part, read_le};
use crate::crypto::utf8_text;
use crate::error::ProgramError;
use crate::utils::definition::{
    param_byte_size, param_size, AccountEntry, ConstraintType, DataSegmentEntry, InstructionEntry,
    ParamEntry, ParamType, SeedEntry,
};
use vstd::prelude::*;
use vstd::slice::slice_subrange;
use vstd::string::StringSliceAdditionalSpecFns;
use vstd::utf8::valid_utf8;

verus! {

/// The length of the discriminator at the front of an account's data.
pub const DISC_LEN: usize = 8;

/// Where `approved` stands in the data of an intent account.
pub const INTENT_APPROVED_OFFSET: usize = 43;

/// Where `active_proposal_count` stands in the data of an intent account.
pub const INTENT_ACTIVE_PROPOSAL_COUNT_OFFSET: usize = 54;

/// How many bytes the fields of an intent take in its account. A list takes
/// four bytes for its length and the bytes of as many entries as it can hold.
pub const INTENT_SIZE: usize = 48 + 2 * (4 + 16 * 32) + (4 + 8 * 14) + (4 + 32 * 7) + (4 + 12 * 9)
    + 2 * (4 + 32 * 5) + (4 + 4096);

/// What an intent does.
#[derive(Clone, Copy, PartialEq, Eq, Debug, Structural)]
pub enum IntentType {
    AddIntent,
    RemoveIntent,
    UpdateIntent,
    Custom,
}

impl IntentType {
    /// The intent type with a number.
    pub fn from_u8(val: u8) -> (r: Result<IntentType, ProgramError>)
        ensures
            val == 0 ==> r == Ok::<IntentType, ProgramError>(IntentType::AddIntent),
            val == 1 ==> r == Ok::<IntentType, ProgramError>(IntentType::RemoveIntent),
            val == 2 ==> r == Ok::<IntentType, ProgramError>(IntentType::UpdateIntent),
            val == 3 ==> r == Ok::<IntentType, ProgramError>(IntentType::Custom),
            val > 3 ==> r == Err::<IntentType, ProgramError>(ProgramError::InvalidInstructionData),
    {
        match val {
            0 => Ok(IntentType::AddIntent),
            1 => Ok(IntentType::RemoveIntent),
            2 => Ok(IntentType::UpdateIntent),
            3 => Ok(IntentType::Custom),
            _ => Err(ProgramError::InvalidInstructionData),
        }
    }
}

/// An intent: who may propose and approve, and what an execution does.
pub struct Intent {
    pub wallet: Address,
    pub bump: u8,
    pub intent_index: u8,
    pub intent_type: IntentType,
    pub approved: u8,
    pub approval_threshold: u8,
    pub cancellation_threshold: u8,
    pub timelock_seconds: u32,
    pub template_offset: u16,
    pub template_len: u16,
    /// Number of open (Active or Approved) proposals using this intent.
    /// Prevents intent modification while proposals are in flight.
    pub active_proposal_count: u16,
    pub proposers: Vec<Address>,
    pub approvers: Vec<Address>,
    pub params: Vec<ParamEntry>,
    pub accounts: Vec<AccountEntry>,
    pub instructions: Vec<InstructionEntry>,
    pub data_segments: Vec<DataSegmentEntry>,
    pub seeds: Vec<SeedEntry>,
    /// Byte pool for variable data: param names, seed literals,
    /// instruction literal data, static addresses, template string.
    pub byte_pool: Vec<u8>,
}

/// Where the parameter with number `k` starts.
pub open spec fn param_offset_of(params: Seq<ParamEntry>, data: Seq<u8>, k: int) -> Option<int>
    decreases k,
{
    if k <= 0 {
        Some(0)
    } else if k > params.len() {
        None
    } else {
        match param_offset_of(params, data, k - 1) {
            Some(offset) => match param_size(params[k - 1].param_type, data, offset) {
                Some(size) => Some(offset + size),
                None => None,
            },
            None => None,
        }
    }
}

/// The bytes of the parameter with number `k`.
pub open spec fn param_bytes(params: Seq<ParamEntry>, data: Seq<u8>, k: int) -> Option<Seq<u8>> {
    if k >= params.len() {
        None
    } else {
        match param_offset_of(params, data, k) {
            Some(offset) => match param_size(params[k].param_type, data, offset) {
                Some(size) => part(data, offset, size),
                None => None,
            },
            None => None,
        }
    }
}

/// Whether a value meets the condition of a parameter.
pub open spec fn constraint_holds(param: ParamEntry, value: nat) -> bool {
    match param.constraint_type {
        ConstraintType::NoConstraint => true,
        ConstraintType::LessThanU64 => value < param.constraint_value,
        ConstraintType::GreaterThanU64 => value > param.constraint_value,
    }
}

/// What is wrong with a parameter that starts at `offset`, or where it ends.
pub open spec fn checked_param(param: ParamEntry, data: Seq<u8>, offset: int) -> Result<
    int,
    ProgramError,
> {
    match param_size(param.param_type, data, offset) {
        None => Err(ProgramError::InvalidInstructionData),
        Some(size) => if offset + size > data.len() {
            Err(ProgramError::InvalidInstructionData)
        } else if param.param_type == ParamType::String && !valid_utf8(
            data.subrange(offset + 1, offset + size),
        ) {
            Err(ProgramError::InvalidInstructionData)
        } else if param.param_type == ParamType::U64 && !constraint_holds(
            param,
            le_value(data.subrange(offset, offset + 8)),
        ) {
            Err(ProgramError::InvalidArgument)
        } else {
            Ok(offset + size)
        },
    }
}

/// What is wrong with the first `k` parameters, or where they end.
pub open spec fn checked_params(params: Seq<ParamEntry>, data: Seq<u8>, k: int) -> Result<
    int,
    ProgramError,
>
    decreases k,
{
    if k <= 0 {
        Ok(0)
    } else {
        match checked_params(params, data, k - 1) {
            Ok(offset) => checked_param(params[k - 1], data, offset),
            Err(e) => Err(e),
        }
    }
}

/// The first position of an address in a list.
fn find_address(list: &Vec<Address>, address: &Address) -> (r: Option<usize>)
    ensures
        r is Some <==> list@.contains(*address),
        r is Some ==> {
            &&& r->0 < list@.len()
            &&& list@[r->0 as int] == *address
            &&& forall|j: int| 0 <= j < r->0 ==> list@[j] != *address
        },
{
    let mut i: usize = 0;
    while i < list.len()
        invariant
            i <= list@.len(),
            forall|j: int| 0 <= j < i ==> list@[j] != *address,
        decreases list@.len() - i,
    {
        if list[i] == *address {
            return Some(i);
        }
        i = i + 1;
    }
    None
}

/// An error in the first `k` parameters is the error of them all.
proof fn lemma_checked_prefix(params: Seq<ParamEntry>, data: Seq<u8>, k: int)
    requires
        0 <= k <= params.len(),
        checked_params(params, data, k) is Err,
    ensures
        checked_params(params, data, params.len() as int) == checked_params(params, data, k),
    decreases params.len() - k,
{
    if k < params.len() {
        lemma_checked_prefix(params, data, k + 1);
    }
}

impl Intent {
    /// How many bytes an intent account takes.
    pub const SPACE: usize = DISC_LEN + INTENT_SIZE;

    /// Whether the lists keep within their capacities.
    pub open spec fn wf(&self) -> bool {
        &&& self.proposers@.len() <= 16
        &&& self.approvers@.len() <= 16
        &&& self.params@.len() <= 8
        &&& self.accounts@.len() <= 32
        &&& self.instructions@.len() <= 12
        &&& self.data_segments@.len() <= 32
        &&& self.seeds@.len() <= 32
        &&& self.byte_pool@.len() <= 4096
    }

    /// Whether the intent may be used.
    pub fn is_approved(&self) -> (r: bool)
        ensures
            r == (self.approved != 0),
    {
        self.approved != 0
    }

    /// Whether an address may propose.
    pub fn is_proposer(&self, address: &Address) -> (r: bool)
        ensures
            r == self.proposers@.contains(*address),
    {
        match find_address(&self.proposers, address) {
            Some(_) => true,
            None => false,
        }
    }

    /// Whether an address may approve and cancel.
    pub fn is_approver(&self, address: &Address) -> (r: bool)
        ensures
            r == self.approvers@.contains(*address),
    {
        match find_address(&self.approvers, address) {
            Some(_) => true,
            None => false,
        }
    }

    /// Returns the index of this approver in the approvers list, or None.
    pub fn approver_index(&self, address: &Address) -> (r: Option<u8>)
        requires
            self.wf(),
        ensures
            r is Some <==> self.approvers@.contains(*address),
            r is Some ==> {
                &&& r->0 < self.approvers@.len()
                &&& self.approvers@[r->0 as int] == *address
                &&& forall|j: int| 0 <= j < r->0 ==> self.approvers@[j] != *address
            },
    {
        match find_address(&self.approvers, address) {
            Some(i) => Some(i as u8),
            None => None,
        }
    }

    /// The bytes of the template.
    pub open spec fn template_bytes(&self) -> Option<Seq<u8>> {
        match part(self.byte_pool@, self.template_offset as int, self.template_len as int) {
            Some(bytes) => if valid_utf8(bytes) {
                Some(bytes)
            } else {
                None
            },
            None => None,
        }
    }

    /// The text that describes the action, with `{n}` for parameter `n`.
    pub fn template_str(&self) -> (r: Result<&str, ProgramError>)
        ensures
            match self.template_bytes() {
                Some(bytes) => r is Ok && r->Ok_0.spec_bytes() == bytes,
                None => r == Err::<&str, ProgramError>(ProgramError::InvalidInstructionData),
            },
    {
        match get_part(
            self.byte_pool.as_slice(),
            self.template_offset as usize,
            self.template_len as usize,
        ) {
            Some(bytes) => match utf8_text(bytes) {
                Some(text) => Ok(text),
                None => Err(ProgramError::InvalidInstructionData),
            },
            None => Err(ProgramError::InvalidInstructionData),
        }
    }

    /// The `len` bytes of the byte pool from `offset` on.
    pub fn pool_slice(&self, offset: u16, len: u16) -> (r: Result<&[u8], ProgramError>)
        ensures
            match part(self.byte_pool@, offset as int, len as int) {
                Some(bytes) => r is Ok && r->Ok_0@ == bytes,
                None => r == Err::<&[u8], ProgramError>(ProgramError::InvalidInstructionData),
            },
    {
        match get_part(self.byte_pool.as_slice(), offset as usize, len as usize) {
            Some(bytes) => Ok(bytes),
            None => Err(ProgramError::InvalidInstructionData),
        }
    }

    /// The name of a parameter.
    pub fn param_name(&self, param: &ParamEntry) -> (r: Result<&str, ProgramError>)
        ensures
            match part(self.byte_pool@, param.name_offset as int, param.name_len as int) {
                Some(bytes) => if valid_utf8(bytes) {
                    r is Ok && r->Ok_0.spec_bytes() == bytes
                } else {
                    r == Err::<&str, ProgramError>(ProgramError::InvalidInstructionData)
                },
                None => r == Err::<&str, ProgramError>(ProgramError::InvalidInstructionData),
            },
    {
        match self.pool_slice(param.name_offset, param.name_len) {
            Ok(bytes) => match utf8_text(bytes) {
                Some(text) => Ok(text),
                None => Err(ProgramError::InvalidInstructionData),
            },
            Err(e) => Err(e),
        }
    }

    /// Where the parameter with number `target` starts in the parameter data.
    pub fn param_offset(&self, data: &[u8], target: u8) -> (r: Result<usize, ProgramError>)
        ensures
            match param_offset_of(self.params@, data@, target as int) {
                Some(offset) => r is Ok && r->Ok_0 == offset,
                None => r == Err::<usize, ProgramError>(ProgramError::InvalidInstructionData),
            },
            r is Ok ==> r->Ok_0 <= 256 * target,
    {
        let mut offset: usize = 0;
        let mut i: usize = 0;
        while i < target as usize
            invariant
                i <= target,
                offset <= 256 * i,
                param_offset_of(self.params@, data@, i as int) == Some(offset as int),
            decreases target - i,
        {
            if i >= self.params.len() {
                proof {
                    lemma_no_offset(self.params@, data@, i as int + 1, target as int);
                }
                return Err(ProgramError::InvalidInstructionData);
            }
            match param_byte_size(self.params[i].param_type, data, offset) {
                Ok(size) => {
                    offset = offset + size;
                },
                Err(e) => {
                    proof {
                        lemma_no_offset(self.params@, data@, i as int + 1, target as int);
                    }
                    return Err(e);
                },
            }
            i = i + 1;
        }
        Ok(offset)
    }

    /// The bytes of the parameter with number `param_index`.
    pub fn read_param_bytes<'a>(&self, params_data: &'a [u8], param_index: u8) -> (r: Result<
        &'a [u8],
        ProgramError,
    >)
        ensures
            match param_bytes(self.params@, params_data@, param_index as int) {
                Some(bytes) => r is Ok && r->Ok_0@ == bytes,
                None => r == Err::<&[u8], ProgramError>(ProgramError::InvalidInstructionData),
            },
    {
        let offset: usize = match self.param_offset(params_data, param_index) {
            Ok(offset) => offset,
            Err(e) => {
                return Err(e);
            },
        };
        if param_index as usize >= self.params.len() {
            return Err(ProgramError::InvalidInstructionData);
        }
        let size: usize = match param_byte_size(
            self.params[param_index as usize].param_type,
            params_data,
            offset,
        ) {
            Ok(size) => size,
            Err(e) => {
                return Err(e);
            },
        };
        match get_part(params_data, offset, size) {
            Some(bytes) => Ok(bytes),
            None => Err(ProgramError::InvalidInstructionData),
        }
    }

    /// Checks that the data hold every parameter, that strings are text and
    /// that the conditions on the values hold.
    pub fn validate_param_constraints(&self, params_data: &[u8]) -> (r: Result<(), ProgramError>)
        ensures
            match checked_params(self.params@, params_data@, self.params@.len() as int) {
                Ok(_) => r is Ok,
                Err(e) => r == Err::<(), ProgramError>(e),
            },
    {
        let mut offset: usize = 0;
        let mut i: usize = 0;
        while i < self.params.len()
            invariant
                i <= self.params@.len(),
                offset <= params_data@.len(),
                checked_params(self.params@, params_data@, i as int) == Ok::<int, ProgramError>(
                    offset as int,
                ),
            decreases self.params@.len() - i,
        {
            match check_param(&self.params[i], params_data, offset) {
                Ok(end) => {
                    offset = end;
                },
                Err(e) => {
                    proof {
                        lemma_checked_prefix(self.params@, params_data@, i as int + 1);
                    }
                    return Err(e);
                },
            }
            i = i + 1;
        }
        Ok(())
    }
}

/// Without a start for one parameter there is none for a later one.
proof fn lemma_no_offset(params: Seq<ParamEntry>, data: Seq<u8>, j: int, k: int)
    requires
        0 < j <= k,
        param_offset_of(params, data, j) is None,
    ensures
        param_offset_of(params, data, k) is None,
    decreases k,
{
    if j < k {
        lemma_no_offset(params, data, j, k - 1);
    }
}

/// Checks one parameter that starts at `offset`, and says where it ends.
fn check_param(param: &ParamEntry, data: &[u8], offset: usize) -> (r: Result<usize, ProgramError>)
    requires
        offset <= data@.len(),
    ensures
        match checked_param(*param, data@, offset as int) {
            Ok(end) => r is Ok && r->Ok_0 == end && end <= data@.len(),
            Err(e) => r == Err::<usize, ProgramError>(e),
        },
{
    let size: usize = match param_byte_size(param.param_type, data, offset) {
        Ok(size) => size,
        Err(e) => {
            return Err(e);
        },
    };
    if size > data.len() - offset {
        return Err(ProgramError::InvalidInstructionData);
    }
    let bytes = slice_subrange(data, offset, offset + size);
    match param.param_type {
        ParamType::String => {
            let text = slice_subrange(bytes, 1, size);
            assert(text@ =~= data@.subrange(offset + 1, offset + size));
            match utf8_text(text) {
                Some(_) => {},
                None => {
                    return Err(ProgramError::InvalidInstructionData);
                },
            }
        },
        ParamType::U64 => {
            let value: u128 = read_le(bytes);
            let holds = match param.constraint_type {
                ConstraintType::NoConstraint => true,
                ConstraintType::LessThanU64 => value < param.constraint_value as u128,
                ConstraintType::GreaterThanU64 => value > param.constraint_value as u128,
            };
            if !holds {
                return Err(ProgramError::InvalidArgument);
            }
        },
        _ => {},
    }
    Ok(offset + size)
}

} // verus!
