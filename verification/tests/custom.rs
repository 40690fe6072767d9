//! What custom intents run.
use clear_msig::accounts::{Account, AccountView};
use clear_msig::address::Address;
use clear_msig::error::ProgramError;
use clear_msig::instructions::custom::{build_custom_instructions, CpiInstruction};
use clear_msig::instructions::execute::{
    build_new_intent_data, modifiable_intent, Execute, Execution,
};
use clear_msig::pda::{intent_pda, system_program_id};
use clear_msig::state::intent::{Intent, IntentType, INTENT_SIZE};
use clear_msig::state::proposal::{Proposal, ProposalStatus};
use clear_msig::state::wallet::ClearWallet;
use clear_msig::utils::definition::{
    AccountEntry, AccountSourceType, ConstraintType, DataSegmentEntry, InstructionEntry,
    ParamEntry, ParamType, SeedEntry, SeedType, SegmentType,
};

const BAD_DATA: ProgramError = ProgramError::InvalidInstructionData;
const BAD: ProgramError = ProgramError::InvalidArgument;
const MISSING: ProgramError = ProgramError::NotEnoughAccountKeys;
const STOPPED: ProgramError = ProgramError::ProgramFailedToComplete;

fn address(n: u8) -> Address {
    Address::new_from_array([n; 32])
}

fn view(address: Address) -> AccountView {
    AccountView { address, is_signer: false, is_writable: true, data: vec![] }
}

fn vault() -> AccountView {
    view(address(100))
}

fn wallet() -> AccountView {
    AccountView { data: [[0u8; 3].to_vec(), vec![77; 32]].concat(), ..view(address(101)) }
}

/// An intent under construction: things are added to the byte pool as needed.
struct Builder {
    intent: Intent,
}

fn builder(params: &[ParamType]) -> Builder {
    let params = params
        .iter()
        .map(|t| ParamEntry {
            param_type: *t,
            name_offset: 0,
            name_len: 0,
            constraint_type: ConstraintType::NoConstraint,
            constraint_value: 0,
        })
        .collect();
    Builder {
        intent: Intent {
            wallet: address(101),
            bump: 0,
            intent_index: 3,
            intent_type: IntentType::Custom,
            approved: 1,
            approval_threshold: 1,
            cancellation_threshold: 1,
            timelock_seconds: 0,
            template_offset: 0,
            template_len: 0,
            active_proposal_count: 1,
            proposers: vec![],
            approvers: vec![],
            params,
            accounts: vec![],
            instructions: vec![],
            data_segments: vec![],
            seeds: vec![],
            byte_pool: vec![],
        },
    }
}

impl Builder {
    fn pool(&mut self, bytes: &[u8]) -> (u16, u16) {
        let offset = self.intent.byte_pool.len() as u16;
        self.intent.byte_pool.extend(bytes);
        (offset, bytes.len() as u16)
    }

    fn account(&mut self, source_type: AccountSourceType, bytes: &[u8]) {
        let (pool_offset, pool_len) = self.pool(bytes);
        let n = self.intent.accounts.len();
        self.intent.accounts.push(AccountEntry {
            source_type,
            is_signer: n == 0,
            is_writable: n % 2 == 0,
            pool_offset,
            pool_len,
        });
    }

    fn seed(&mut self, seed_type: SeedType, bytes: &[u8]) {
        let (pool_offset, pool_len) = self.pool(bytes);
        self.intent.seeds.push(SeedEntry { seed_type, pool_offset, pool_len });
    }

    fn segment(&mut self, segment_type: SegmentType, bytes: &[u8]) {
        let (pool_offset, pool_len) = self.pool(bytes);
        self.intent.data_segments.push(DataSegmentEntry { segment_type, pool_offset, pool_len });
    }

    fn instruction(&mut self, program: u8, indexes: &[u8], segments: (u16, u16)) {
        let (offset, len) = self.pool(indexes);
        self.intent.instructions.push(InstructionEntry {
            program_account_index: program,
            account_indexes_offset: offset,
            account_indexes_len: len,
            segments_start: segments.0,
            segments_count: segments.1,
        });
    }

    fn run(
        &self,
        data: &[u8],
        remaining: Vec<AccountView>,
    ) -> Result<Vec<CpiInstruction>, ProgramError> {
        build_custom_instructions(
            &self.intent,
            data,
            &vault(),
            &view(system_program_id()),
            &wallet(),
            &remaining,
        )
    }
}

fn err(r: Result<Vec<CpiInstruction>, ProgramError>) -> ProgramError {
    match r {
        Ok(_) => panic!("accepted"),
        Err(e) => e,
    }
}

fn addresses(r: Result<Vec<CpiInstruction>, ProgramError>) -> Vec<[u8; 32]> {
    match r {
        Ok(list) => list[0].accounts.iter().map(|a| a.address.bytes).collect(),
        Err(e) => panic!("refused: {e:?}"),
    }
}

/// A transfer by the system program: from the vault to a parameter's address.
fn transfer() -> (Builder, Vec<u8>) {
    let mut b = builder(&[ParamType::Address, ParamType::U64]);
    b.account(AccountSourceType::Vault, &[]);
    b.account(AccountSourceType::Param, &[0]);
    b.account(AccountSourceType::Static, &system_program_id().bytes);
    b.segment(SegmentType::Literal, &[2, 0, 0, 0]);
    b.segment(SegmentType::Param, &[1, 1]);
    b.instruction(2, &[0, 1], (0, 2));
    let mut data = address(5).bytes.to_vec();
    data.extend(1_000u64.to_le_bytes());
    (b, data)
}

#[test]
fn a_transfer_from_the_vault() {
    let (b, data) = transfer();
    // Only the recipient is passed: the vault and the program are declared.
    let list = b.run(&data, vec![view(address(5))]).unwrap_or_else(|e| panic!("{e:?}"));
    assert_eq!(list.len(), 1);
    let ix = &list[0];
    assert_eq!(ix.program_id.bytes, [0; 32]);
    assert_eq!(ix.data, vec![2, 0, 0, 0, 0xe8, 3, 0, 0, 0, 0, 0, 0]);
    assert_eq!(ix.accounts.len(), 2);
    assert_eq!(ix.accounts[0].address.bytes, [100; 32]);
    assert!(ix.accounts[0].is_signer && ix.accounts[0].is_writable);
    assert_eq!(ix.accounts[1].address.bytes, [5; 32]);
    assert!(!ix.accounts[1].is_signer && !ix.accounts[1].is_writable);
    // Another recipient, or none, is refused.
    assert_eq!(err(b.run(&data, vec![view(address(6))])), BAD);
    assert_eq!(err(b.run(&data, vec![])), MISSING);
}

#[test]
fn static_accounts() {
    let mut b = builder(&[]);
    b.account(AccountSourceType::Static, &[9; 32]);
    b.account(AccountSourceType::Static, &[101; 40]);
    b.instruction(0, &[0, 1], (0, 0));
    // The wallet is declared, the other comes from the remaining accounts.
    assert_eq!(addresses(b.run(&[], vec![view(address(9))])), vec![[9; 32], [101; 32]]);
    assert_eq!(err(b.run(&[], vec![view(address(8))])), BAD);
    let mut b = builder(&[]);
    b.account(AccountSourceType::Static, &[9; 31]);
    assert_eq!(err(b.run(&[], vec![view(address(9))])), BAD_DATA);
    b.intent.accounts[0].pool_offset = 1;
    assert_eq!(err(b.run(&[], vec![view(address(9))])), BAD_DATA);
}

#[test]
fn accounts_of_parameters() {
    let mut b = builder(&[ParamType::U8, ParamType::Address]);
    b.account(AccountSourceType::Param, &[1]);
    b.instruction(0, &[0], (0, 0));
    let mut data = vec![0u8];
    data.extend([4; 32]);
    assert_eq!(addresses(b.run(&data, vec![view(address(4))])), vec![[4; 32]]);
    assert_eq!(err(b.run(&data[..32], vec![view(address(4))])), BAD_DATA);
    // A parameter that is no address, or does not exist.
    b.intent.byte_pool[0] = 0;
    assert_eq!(err(b.run(&data, vec![view(address(4))])), BAD_DATA);
    b.intent.byte_pool[0] = 2;
    assert_eq!(err(b.run(&data, vec![view(address(4))])), BAD_DATA);
    b.intent.accounts[0].pool_len = 0;
    assert_eq!(err(b.run(&data, vec![view(address(4))])), BAD_DATA);
}

#[test]
fn accounts_in_the_data_of_others() {
    let mut b = builder(&[]);
    b.account(AccountSourceType::Static, &[101; 32]);
    b.account(AccountSourceType::HasOne, &[0, 3, 0]);
    b.instruction(0, &[1], (0, 0));
    assert_eq!(addresses(b.run(&[], vec![view(address(77))])), vec![[77; 32]]);
    assert_eq!(err(b.run(&[], vec![view(address(78))])), BAD);
    b.intent.byte_pool[33] = 4;
    assert_eq!(err(b.run(&[], vec![view(address(77))])), BAD_DATA);
    b.intent.byte_pool[33] = 3;
    b.intent.byte_pool[34] = 1;
    assert_eq!(err(b.run(&[], vec![view(address(77))])), BAD_DATA);
    b.intent.byte_pool[32] = 2;
    assert_eq!(err(b.run(&[], vec![view(address(77))])), MISSING);
    b.intent.accounts[1].pool_len = 2;
    assert_eq!(err(b.run(&[], vec![view(address(77))])), BAD_DATA);
}

#[test]
fn derived_accounts() {
    let program = solana_pubkey::Pubkey::new_from_array([55; 32]);
    let seeds: [&[u8]; 3] = [b"seed", &[42], &[101; 32]];
    let expected = solana_pubkey::Pubkey::find_program_address(&seeds, &program).0.to_bytes();
    let mut b = builder(&[ParamType::U8]);
    b.account(AccountSourceType::Static, &[55; 32]);
    b.account(AccountSourceType::Static, &[101; 32]);
    b.account(AccountSourceType::PdaDerived, &[0, 1, 0, 3, 0]);
    b.seed(SeedType::Literal, b"unused");
    b.seed(SeedType::Literal, b"seed");
    b.seed(SeedType::ParamRef, &[0]);
    b.seed(SeedType::AccountRef, &[1]);
    b.instruction(0, &[2], (0, 0));
    let accounts = || vec![view(address(55)), view(Address::new_from_array(expected))];
    assert_eq!(addresses(b.run(&[42], accounts())), vec![expected]);
    assert_eq!(err(b.run(&[43], accounts())), BAD);
    assert_eq!(err(b.run(&[], accounts())), BAD_DATA);

    // A seed too many, an unknown account, an unknown program.
    b.intent.byte_pool[67] = 4;
    assert_eq!(err(b.run(&[42], accounts())), BAD_DATA);
    b.intent.byte_pool[67] = 17;
    assert_eq!(err(b.run(&[42], accounts())), BAD_DATA);
    b.intent.byte_pool[67] = 3;
    let last = b.intent.seeds[3].pool_offset as usize;
    b.intent.byte_pool[last] = 3;
    assert_eq!(err(b.run(&[42], accounts())), MISSING);
    b.intent.byte_pool[last] = 1;
    b.intent.byte_pool[64] = 3;
    assert_eq!(err(b.run(&[42], accounts())), MISSING);
    b.intent.byte_pool[64] = 0;
    b.intent.accounts[2].pool_len = 4;
    assert_eq!(err(b.run(&[42], accounts())), BAD_DATA);
}

#[test]
fn seeds_have_limits() {
    let with_seed = |seed_type: SeedType, bytes: &[u8], params: &[ParamType], data: &[u8]| {
        let mut b = builder(params);
        b.account(AccountSourceType::Vault, &[]);
        b.account(AccountSourceType::PdaDerived, &[0, 0, 0, 1, 0]);
        b.seed(seed_type, bytes);
        err(b.run(data, vec![view(address(1))]))
    };
    assert_eq!(with_seed(SeedType::Literal, &[1; 33], &[], &[]), BAD_DATA);
    assert_eq!(with_seed(SeedType::Literal, &[1; 32], &[], &[]), BAD);
    assert_eq!(with_seed(SeedType::ParamRef, &[], &[], &[]), BAD_DATA);
    assert_eq!(with_seed(SeedType::ParamRef, &[0], &[ParamType::String], &[32; 33]), BAD_DATA);
    assert_eq!(with_seed(SeedType::ParamRef, &[0], &[ParamType::String], &[31; 32]), BAD);
    assert_eq!(with_seed(SeedType::AccountRef, &[], &[], &[]), BAD_DATA);
    // Sixteen seeds derive no address.
    let mut b = builder(&[]);
    b.account(AccountSourceType::Vault, &[]);
    b.account(AccountSourceType::PdaDerived, &[0, 0, 0, 16, 0]);
    for _ in 0..16 {
        b.seed(SeedType::Literal, &[1]);
    }
    assert_eq!(err(b.run(&[], vec![view(address(1))])), STOPPED);
    b.intent.byte_pool[3] = 15;
    assert_eq!(err(b.run(&[], vec![view(address(1))])), BAD);
}

#[test]
fn instruction_accounts_have_limits() {
    let mut b = builder(&[]);
    b.account(AccountSourceType::Vault, &[]);
    b.instruction(0, &[0; 16], (0, 0));
    assert_eq!(addresses(b.run(&[], vec![])).len(), 16);
    let mut b = builder(&[]);
    b.account(AccountSourceType::Vault, &[]);
    b.instruction(0, &[0; 17], (0, 0));
    assert_eq!(err(b.run(&[], vec![])), BAD_DATA);
    b.intent.instructions[0].account_indexes_len = 18;
    assert_eq!(err(b.run(&[], vec![])), STOPPED);
    b.intent.instructions[0].account_indexes_len = 1;
    b.intent.byte_pool[0] = 1;
    assert_eq!(err(b.run(&[], vec![])), MISSING);
    b.intent.instructions[0].program_account_index = 1;
    assert_eq!(err(b.run(&[], vec![])), MISSING);
}

#[test]
fn instruction_data_have_limits() {
    let mut b = builder(&[ParamType::U16]);
    b.account(AccountSourceType::Vault, &[]);
    b.segment(SegmentType::Literal, &[1; 1022]);
    b.segment(SegmentType::Param, &[0, 5]);
    b.segment(SegmentType::Literal, &[]);
    b.instruction(0, &[0], (0, 3));
    let list = b.run(&[3, 4], vec![]).unwrap_or_else(|e| panic!("{e:?}"));
    assert_eq!(list[0].data.len(), 1024);
    assert_eq!(&list[0].data[1021..], &[1, 3, 4]);
    b.segment(SegmentType::Literal, &[1]);
    b.intent.instructions[0].segments_count = 4;
    assert_eq!(err(b.run(&[3, 4], vec![])), BAD_DATA);
    b.intent.instructions[0].segments_count = 5;
    assert_eq!(err(b.run(&[3, 4], vec![])), STOPPED);
    b.intent.instructions[0].segments_count = 2;
    // An unknown encoding, one that is longer than the parameter, no parameter.
    b.intent.byte_pool[1023] = 8;
    assert_eq!(err(b.run(&[3, 4], vec![])), BAD_DATA);
    b.intent.byte_pool[1023] = 6;
    assert_eq!(err(b.run(&[3, 4], vec![])), BAD_DATA);
    b.intent.byte_pool[1023] = 5;
    b.intent.byte_pool[1022] = 1;
    assert_eq!(err(b.run(&[3, 4], vec![])), BAD_DATA);
    b.intent.data_segments[1].pool_len = 1;
    assert_eq!(err(b.run(&[3, 4], vec![])), BAD_DATA);
    b.intent.data_segments[1].pool_offset = u16::MAX;
    assert_eq!(err(b.run(&[3, 4], vec![])), STOPPED);
}

fn execute(intent: Intent, params_data: Vec<u8>) -> Execute {
    Execute {
        wallet: Account {
            address: address(101),
            data: ClearWallet {
                bump: 0,
                proposal_index: 1,
                intent_index: 2,
                name_len: 0,
                name: [0; 64],
            },
        },
        wallet_view: wallet(),
        vault: vault(),
        intent: Account { address: address(102), data: intent },
        proposal: Account {
            address: address(103),
            data: Proposal {
                wallet: address(101),
                intent: address(102),
                proposal_index: 0,
                proposer: address(1),
                status: ProposalStatus::Approved,
                proposed_at: 0,
                approved_at: 10,
                bump: 0,
                approval_bitmap: 1,
                cancellation_bitmap: 0,
                rent_refund: address(1),
                params_data,
            },
        },
        system_program: view(system_program_id()),
    }
}

#[test]
fn executing_a_custom_intent() {
    let (b, data) = transfer();
    let mut ex = execute(b.intent, data);
    let nothing = || Err(ProgramError::InvalidArgument);
    let remaining = vec![view(address(5))];
    match ex.execute(&remaining, nothing(), 254, 9) {
        Err(e) => assert_eq!(e, BAD),
        Ok(_) => panic!("too early"),
    }
    assert_eq!(ex.proposal.data.status, ProposalStatus::Approved);
    assert_eq!(ex.intent.data.active_proposal_count, 1);
    match ex.execute(&remaining, nothing(), 254, 10) {
        Ok(Execution::Invoke { vault_bump, instructions }) => {
            assert_eq!(vault_bump, 254);
            assert_eq!(instructions.len(), 1);
        }
        _ => panic!("refused"),
    }
    assert_eq!(ex.proposal.data.status, ProposalStatus::Executed);
    assert_eq!(ex.intent.data.active_proposal_count, 0);
    assert_eq!(ex.wallet.data.intent_index, 2);
}

#[test]
fn adding_an_intent_at_a_known_address() {
    let mut intent = builder(&[]).intent;
    intent.intent_type = IntentType::AddIntent;
    let mut ex = execute(intent, vec![6; 512]);
    let signer = AccountView { is_signer: true, ..view(address(1)) };
    let remaining = vec![signer, view(address(2))];
    match ex.add_intent_at(&remaining, Some((address(2), 7)), &[8; 32]) {
        Ok(Execution::CreateIntent { payer, address: at, intent_index, bump, data }) => {
            assert_eq!(payer.bytes, [1; 32]);
            assert_eq!(at.bytes, [2; 32]);
            assert_eq!((intent_index, bump), (3, 7));
            assert_eq!(data.len(), 8 + INTENT_SIZE);
            assert_eq!(&data[..8], &[8; 8]);
            assert_eq!(&data[8..520], &[6; 512][..]);
            assert!(data[520..].iter().all(|b| *b == 0));
        }
        _ => panic!("refused"),
    }
    assert_eq!(ex.wallet.data.intent_index, 3);
    match ex.add_intent_at(&remaining, None, &[8; 32]) {
        Err(e) => assert_eq!(e, STOPPED),
        Ok(_) => panic!("accepted"),
    }
    assert_eq!(ex.wallet.data.intent_index, 3);
    assert_eq!(build_new_intent_data(&[1; 32], &[2; 6000])[8..], [2; INTENT_SIZE]);
}

#[test]
fn which_intents_may_be_modified() {
    let refusal = |expected: Option<Address>, writable: bool, loaded: Result<Intent, ProgramError>| {
        let account = AccountView { is_writable: writable, ..view(address(1)) };
        modifiable_intent(&account, expected, loaded).err()
    };
    let idle = || {
        let mut intent = builder(&[]).intent;
        intent.active_proposal_count = 0;
        intent
    };
    let here = Some(address(1));
    assert_eq!(refusal(here, true, Ok(idle())), None);
    assert_eq!(refusal(None, true, Ok(idle())), Some(STOPPED));
    assert_eq!(refusal(Some(address(2)), true, Ok(idle())), Some(ProgramError::InvalidSeeds));
    assert_eq!(refusal(here, false, Ok(idle())), Some(ProgramError::Immutable));
    assert_eq!(refusal(here, true, Err(BAD_DATA)), Some(BAD_DATA));
    assert_eq!(refusal(here, true, Ok(builder(&[]).intent)), Some(BAD));
}

#[test]
fn updating_an_intent() {
    let at = intent_pda(&address(101), 1).unwrap();
    let update = |len: usize| {
        let mut intent = builder(&[]).intent;
        intent.intent_type = IntentType::UpdateIntent;
        let mut params = vec![1u8];
        params.extend((0..len).map(|i| (i % 251) as u8));
        execute(intent, params)
    };
    let idle = || {
        let mut intent = builder(&[]).intent;
        intent.active_proposal_count = 0;
        Ok(intent)
    };
    let target = || vec![AccountView { is_writable: true, ..view(at) }];

    let mut ex = update(INTENT_SIZE);
    match ex.execute(&target(), idle(), 0, 10) {
        Ok(Execution::WriteBody { body }) => {
            assert_eq!(body.len(), INTENT_SIZE);
            assert_eq!(body, ex.proposal.data.params_data[1..]);
        }
        _ => panic!("refused"),
    }
    assert_eq!(ex.proposal.data.status, ProposalStatus::Executed);
    assert_eq!(ex.intent.data.active_proposal_count, 0);
    assert_eq!(ex.wallet.data.intent_index, 2);

    let refusal = |len: usize, remaining: Vec<AccountView>, loaded: Result<Intent, ProgramError>| {
        let mut ex = update(len);
        let r = ex.execute(&remaining, loaded, 0, 10).err();
        assert_eq!(ex.proposal.data.status, ProposalStatus::Approved);
        r
    };
    for len in [0, 1, 511, INTENT_SIZE - 1, INTENT_SIZE + 1] {
        assert_eq!(refusal(len, target(), idle()), Some(BAD_DATA));
    }
    assert_eq!(refusal(INTENT_SIZE, vec![], idle()), Some(MISSING));
    let elsewhere = vec![AccountView { is_writable: true, ..view(address(1)) }];
    let seeds = Some(ProgramError::InvalidSeeds);
    assert_eq!(refusal(INTENT_SIZE, elsewhere, idle()), seeds);
    let fixed = vec![AccountView { is_writable: false, ..view(at) }];
    assert_eq!(refusal(INTENT_SIZE, fixed, idle()), Some(ProgramError::Immutable));
    assert_eq!(refusal(INTENT_SIZE, target(), Err(STOPPED)), Some(STOPPED));
    assert_eq!(refusal(INTENT_SIZE, target(), Ok(builder(&[]).intent)), Some(BAD));
}
