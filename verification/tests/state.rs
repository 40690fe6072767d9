//! Intents and proposals.
use clear_msig::accounts::Account;
use clear_msig::address::Address;
use clear_msig::error::ProgramError;
use clear_msig::instructions::approve::Approve;
use clear_msig::instructions::cancel::Cancel;
use clear_msig::state::intent::{
    Intent, IntentType, DISC_LEN, INTENT_ACTIVE_PROPOSAL_COUNT_OFFSET, INTENT_APPROVED_OFFSET,
    INTENT_SIZE,
};
use clear_msig::state::proposal::{Proposal, ProposalStatus, PROPOSAL_STATUS_OFFSET};
use clear_msig::state::wallet::ClearWallet;
use clear_msig::utils::definition::{ConstraintType, ParamEntry, ParamType};

const BAD_DATA: ProgramError = ProgramError::InvalidInstructionData;

fn address(n: u8) -> Address {
    Address::new_from_array([n; 32])
}

fn param(param_type: ParamType, constraint_type: ConstraintType, constraint_value: u64) -> ParamEntry {
    ParamEntry { param_type, name_offset: 1, name_len: 4, constraint_type, constraint_value }
}

fn intent(params: Vec<ParamEntry>) -> Intent {
    Intent {
        wallet: address(0),
        bump: 0,
        intent_index: 0,
        intent_type: IntentType::Custom,
        approved: 1,
        approval_threshold: 2,
        cancellation_threshold: 2,
        timelock_seconds: 0,
        template_offset: 0,
        template_len: 3,
        active_proposal_count: 1,
        proposers: vec![address(1), address(2)],
        approvers: vec![address(3), address(4), address(4)],
        params,
        accounts: vec![],
        instructions: vec![],
        data_segments: vec![],
        seeds: vec![],
        byte_pool: b"xname\xff".to_vec(),
    }
}

fn proposal() -> Proposal {
    Proposal {
        wallet: address(0),
        intent: address(0),
        proposal_index: 0,
        proposer: address(1),
        status: ProposalStatus::Active,
        proposed_at: 0,
        approved_at: 0,
        bump: 0,
        approval_bitmap: 0,
        cancellation_bitmap: 0,
        rent_refund: address(0),
        params_data: vec![],
    }
}

fn wallet() -> ClearWallet {
    let mut name = [0u8; 64];
    name[..4].copy_from_slice(b"test");
    ClearWallet { bump: 1, proposal_index: 2, intent_index: 3, name_len: 4, name }
}

#[test]
fn layout_of_accounts() {
    assert_eq!(DISC_LEN, 8);
    assert_eq!(INTENT_APPROVED_OFFSET, 43);
    assert_eq!(INTENT_ACTIVE_PROPOSAL_COUNT_OFFSET, 54);
    assert_eq!(PROPOSAL_STATUS_OFFSET, 112);
    assert_eq!(INTENT_SIZE, 5964);
    assert_eq!(Intent::SPACE, 5972);
    assert_eq!(Proposal::SPACE, 682);
    assert_eq!(ClearWallet::SPACE, 83);
}

#[test]
fn names_of_wallets() {
    assert_eq!(wallet().name(), "test");
}

#[test]
fn numbers_of_intent_types() {
    assert_eq!(IntentType::from_u8(0), Ok(IntentType::AddIntent));
    assert_eq!(IntentType::from_u8(1), Ok(IntentType::RemoveIntent));
    assert_eq!(IntentType::from_u8(2), Ok(IntentType::UpdateIntent));
    assert_eq!(IntentType::from_u8(3), Ok(IntentType::Custom));
    assert_eq!(IntentType::from_u8(4), Err(BAD_DATA));
    assert_eq!(IntentType::from_u8(255), Err(BAD_DATA));
}

#[test]
fn members_of_an_intent() {
    let i = intent(vec![]);
    assert!(i.is_approved());
    assert!(i.is_proposer(&address(2)));
    assert!(!i.is_proposer(&address(3)));
    assert!(i.is_approver(&address(3)));
    assert!(!i.is_approver(&address(1)));
    assert_eq!(i.approver_index(&address(3)), Some(0));
    assert_eq!(i.approver_index(&address(4)), Some(1));
    assert_eq!(i.approver_index(&address(5)), None);
}

#[test]
fn the_byte_pool() {
    let mut i = intent(vec![param(ParamType::U8, ConstraintType::NoConstraint, 0)]);
    assert_eq!(i.pool_slice(1, 4), Ok(&b"name"[..]));
    assert_eq!(i.pool_slice(6, 0), Ok(&b""[..]));
    assert_eq!(i.pool_slice(6, 1), Err(BAD_DATA));
    assert_eq!(i.pool_slice(65_535, 65_535), Err(BAD_DATA));
    assert_eq!(i.param_name(&i.params[0]), Ok("name"));
    assert_eq!(i.template_str(), Ok("xna"));
    i.template_len = 6;
    assert_eq!(i.template_str(), Err(BAD_DATA));
    i.params[0].name_len = 5;
    assert_eq!(i.param_name(&i.params[0]), Err(BAD_DATA));
}

#[test]
fn parameters_are_read_in_order() {
    let none = ConstraintType::NoConstraint;
    let i = intent(vec![
        param(ParamType::U8, none, 0),
        param(ParamType::String, none, 0),
        param(ParamType::U16, none, 0),
    ]);
    let data = [7, 2, b'h', b'i', 1, 2];
    assert_eq!(i.read_param_bytes(&data, 0), Ok(&data[..1]));
    assert_eq!(i.read_param_bytes(&data, 1), Ok(&data[1..4]));
    assert_eq!(i.read_param_bytes(&data, 2), Ok(&data[4..]));
    assert_eq!(i.read_param_bytes(&data, 3), Err(BAD_DATA));
    assert_eq!(i.read_param_bytes(&data, 255), Err(BAD_DATA));
    assert_eq!(i.read_param_bytes(&data[..5], 2), Err(BAD_DATA));
    assert_eq!(i.read_param_bytes(&data[..1], 1), Err(BAD_DATA));
    assert_eq!(i.param_offset(&data, 2), Ok(4));
}

#[test]
fn constraints_on_parameters() {
    let less = intent(vec![param(ParamType::U64, ConstraintType::LessThanU64, 10)]);
    assert_eq!(less.validate_param_constraints(&9u64.to_le_bytes()), Ok(()));
    assert_eq!(
        less.validate_param_constraints(&10u64.to_le_bytes()),
        Err(ProgramError::InvalidArgument)
    );
    let more = intent(vec![param(ParamType::U64, ConstraintType::GreaterThanU64, 10)]);
    assert_eq!(more.validate_param_constraints(&11u64.to_le_bytes()), Ok(()));
    assert_eq!(
        more.validate_param_constraints(&10u64.to_le_bytes()),
        Err(ProgramError::InvalidArgument)
    );
    assert_eq!(more.validate_param_constraints(&[1; 7]), Err(BAD_DATA));
    // Only numbers of 64 bits are held to a constraint.
    let other = intent(vec![param(ParamType::U8, ConstraintType::LessThanU64, 0)]);
    assert_eq!(other.validate_param_constraints(&[200]), Ok(()));
}

#[test]
fn parameters_have_to_be_there() {
    let none = ConstraintType::NoConstraint;
    let sizes = [
        (ParamType::Address, 32),
        (ParamType::U64, 8),
        (ParamType::I64, 8),
        (ParamType::Bool, 1),
        (ParamType::U8, 1),
        (ParamType::U16, 2),
        (ParamType::U32, 4),
        (ParamType::U128, 16),
    ];
    for (t, size) in sizes {
        let i = intent(vec![param(t, none, 0)]);
        assert_eq!(i.validate_param_constraints(&vec![0; size]), Ok(()));
        assert_eq!(i.validate_param_constraints(&vec![0; size - 1]), Err(BAD_DATA));
    }
    let i = intent(vec![param(ParamType::String, none, 0), param(ParamType::U8, none, 0)]);
    assert_eq!(i.validate_param_constraints(&[1, b'a', 5]), Ok(()));
    assert_eq!(i.validate_param_constraints(&[1, b'a']), Err(BAD_DATA));
    assert_eq!(i.validate_param_constraints(&[]), Err(BAD_DATA));
    assert_eq!(i.validate_param_constraints(&[2, b'a']), Err(BAD_DATA));
    assert_eq!(i.validate_param_constraints(&[1, 0xff, 5]), Err(BAD_DATA));
}

#[test]
fn votes_are_exclusive() {
    let mut p = proposal();
    assert_eq!((p.approval_count(), p.cancellation_count()), (0, 0));
    p.set_approval(0);
    p.set_approval(15);
    p.set_approval(15);
    assert_eq!((p.approval_count(), p.cancellation_count()), (2, 0));
    assert!(p.has_approved_by_index(15) && !p.has_approved_by_index(14));
    p.set_cancellation(15);
    assert_eq!((p.approval_count(), p.cancellation_count()), (1, 1));
    assert!(p.has_cancelled_by_index(15) && !p.has_approved_by_index(15));
    p.set_approval(15);
    assert_eq!((p.approval_count(), p.cancellation_count()), (2, 0));
    for i in 0..16 {
        p.set_cancellation(i);
    }
    assert_eq!((p.approval_count(), p.cancellation_count()), (0, 16));
}

#[test]
fn numbers_of_statuses() {
    let all = [
        ProposalStatus::Active,
        ProposalStatus::Approved,
        ProposalStatus::Executed,
        ProposalStatus::Cancelled,
    ];
    for (n, status) in all.iter().enumerate() {
        assert_eq!(status.to_u8() as usize, n);
    }
}

#[test]
fn approvals_reach_the_threshold() {
    let mut a = Approve {
        wallet: Account { address: address(9), data: wallet() },
        intent: Account { address: address(8), data: intent(vec![]) },
        proposal: Account { address: address(7), data: proposal() },
    };
    assert_eq!(a.apply_approval(0, false, 50), Err(ProgramError::InvalidArgument));
    assert_eq!(a.proposal.data.approval_count(), 0);
    assert_eq!(a.apply_approval(0, true, 50), Ok(()));
    assert_eq!(a.proposal.data.status, ProposalStatus::Active);
    assert_eq!(a.proposal.data.approved_at, 0);
    assert_eq!(a.apply_approval(2, true, 60), Ok(()));
    assert_eq!(a.proposal.data.status, ProposalStatus::Approved);
    assert_eq!(a.proposal.data.approved_at, 60);
    assert_eq!(a.intent.data.active_proposal_count, 1);

    // One cancellation takes the approval back, the second ends the proposal.
    let mut c = Cancel { wallet: a.wallet, intent: a.intent, proposal: a.proposal };
    assert_eq!(c.apply_cancellation(1, false), Err(ProgramError::InvalidArgument));
    assert_eq!(c.apply_cancellation(1, true), Ok(()));
    assert_eq!(c.proposal.data.status, ProposalStatus::Approved);
    assert_eq!(c.apply_cancellation(0, true), Ok(()));
    assert_eq!(c.proposal.data.status, ProposalStatus::Cancelled);
    assert_eq!(c.proposal.data.approved_at, 60);
    assert_eq!(c.intent.data.active_proposal_count, 0);
}

#[test]
fn a_vote_settles_an_index_that_was_on_both_sides() {
    let mut a = Approve {
        wallet: Account { address: address(9), data: wallet() },
        intent: Account { address: address(8), data: intent(vec![]) },
        proposal: Account { address: address(7), data: proposal() },
    };
    a.proposal.data.approval_bitmap = 0b10;
    a.proposal.data.cancellation_bitmap = 0b111;
    assert_eq!(a.apply_approval(0, true, 50), Ok(()));
    assert_eq!((a.proposal.data.approval_bitmap, a.proposal.data.cancellation_bitmap), (3, 6));
}
