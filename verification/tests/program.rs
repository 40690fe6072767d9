//! Wallets, intents and proposals through the program's instructions.
use clear_msig::accounts::{Account, AccountView};
use clear_msig::address::Address;
use clear_msig::clear_msig_anchor;
use clear_msig::client::{
    add_intent_msg, ed25519_pubkey, remove_intent_msg, sign_message, wrap_offchain, SigningKey,
};
use clear_msig::client::{format_timestamp, hex_encode, sha256_bytes, suffix};
use clear_msig::error::ProgramError;
use clear_msig::instructions::approve::Approve;
use clear_msig::instructions::cancel::Cancel;
use clear_msig::instructions::cleanup_proposal::CleanupProposal;
use clear_msig::instructions::create_wallet::{CreateWallet, CreateWalletArgs, CreateWalletBumps};
use clear_msig::instructions::execute::{Execute, Execution};
use clear_msig::instructions::propose::Propose;
use clear_msig::pda::{find_intent, find_proposal, find_vault, find_wallet, system_program_id};
use clear_msig::state::intent::{
    Intent, IntentType, DISC_LEN, INTENT_ACTIVE_PROPOSAL_COUNT_OFFSET, INTENT_APPROVED_OFFSET,
    INTENT_SIZE,
};
use clear_msig::state::proposal::{Proposal, ProposalStatus};
use clear_msig::state::wallet::ClearWallet;
use sha2::{Digest, Sha256};
use std::collections::HashMap;
use std::sync::atomic::{AtomicU64, Ordering};

// =========================================================================
// Helpers
// =========================================================================

const DEFAULT_EXPIRY: i64 = 1_000_000_000;

type Key = [u8; 32];

/// The accounts of the program, and the clock.
struct Ledger {
    wallets: HashMap<Key, ClearWallet>,
    intents: HashMap<Key, Intent>,
    proposals: HashMap<Key, Proposal>,
    raw: HashMap<Key, Vec<u8>>,
    now: i64,
}

fn setup() -> Ledger {
    Ledger {
        wallets: HashMap::new(),
        intents: HashMap::new(),
        proposals: HashMap::new(),
        raw: HashMap::new(),
        now: 0,
    }
}

static NEXT: AtomicU64 = AtomicU64::new(1);

fn new_unique() -> Address {
    let mut bytes = [0u8; 32];
    bytes[..8].copy_from_slice(&NEXT.fetch_add(1, Ordering::Relaxed).to_be_bytes());
    bytes[31] = 7;
    Address::new_from_array(bytes)
}

fn new_keypair() -> SigningKey {
    SigningKey { seed: rand::random() }
}

fn pubkey_of(key: &SigningKey) -> Address {
    Address::new_from_array(ed25519_pubkey(key))
}

fn sha256_hash(data: &[u8]) -> [u8; 32] {
    let mut hasher = Sha256::new();
    hasher.update(data);
    hasher.finalize().into()
}

fn acct_discriminator(name: &str) -> [u8; 8] {
    let hash = sha256_hash(format!("account:{name}").as_bytes());
    hash[..8].try_into().unwrap()
}

fn blank_intent() -> Intent {
    Intent {
        wallet: system_program_id(),
        bump: 0,
        intent_index: 0,
        intent_type: IntentType::AddIntent,
        approved: 0,
        approval_threshold: 0,
        cancellation_threshold: 0,
        timelock_seconds: 0,
        template_offset: 0,
        template_len: 0,
        active_proposal_count: 0,
        proposers: vec![],
        approvers: vec![],
        params: vec![],
        accounts: vec![],
        instructions: vec![],
        data_segments: vec![],
        seeds: vec![],
        byte_pool: vec![],
    }
}

fn blank_wallet() -> ClearWallet {
    ClearWallet { bump: 0, proposal_index: 0, intent_index: 0, name_len: 0, name: [0; 64] }
}

fn blank_proposal() -> Proposal {
    Proposal {
        wallet: system_program_id(),
        intent: system_program_id(),
        proposal_index: 0,
        proposer: system_program_id(),
        status: ProposalStatus::Active,
        proposed_at: 0,
        approved_at: 0,
        bump: 0,
        approval_bitmap: 0,
        cancellation_bitmap: 0,
        rent_refund: system_program_id(),
        params_data: vec![],
    }
}

/// Reads the leading fields of an intent account, the proposers last.
fn load_intent(data: &[u8]) -> Result<Intent, ProgramError> {
    assert_eq!(data.len(), DISC_LEN + INTENT_SIZE);
    assert_eq!(data[..DISC_LEN], acct_discriminator("Intent"));
    let body = &data[DISC_LEN..];
    let mut intent = blank_intent();
    intent.wallet = Address::new_from_array(body[..32].try_into().unwrap());
    intent.bump = body[32];
    intent.intent_index = body[33];
    intent.intent_type = IntentType::from_u8(body[34])?;
    intent.approved = data[INTENT_APPROVED_OFFSET];
    intent.approval_threshold = body[36];
    intent.cancellation_threshold = body[37];
    intent.timelock_seconds = u32::from_le_bytes(body[38..42].try_into().unwrap());
    let at = INTENT_ACTIVE_PROPOSAL_COUNT_OFFSET;
    intent.active_proposal_count = u16::from_le_bytes(data[at..at + 2].try_into().unwrap());
    let count = u32::from_le_bytes(body[48..52].try_into().unwrap()) as usize;
    for i in 0..count {
        let start = 52 + 32 * i;
        intent.proposers.push(Address::new_from_array(body[start..start + 32].try_into().unwrap()));
    }
    Ok(intent)
}

fn view(address: Address, is_signer: bool, is_writable: bool) -> AccountView {
    AccountView { address, is_signer, is_writable, data: vec![] }
}

fn find_wallet_address(name: &str) -> Address {
    find_wallet(&sha256_hash(name.as_bytes())).unwrap().0
}

fn find_intent_address(wallet: &Address, index: u8) -> Address {
    find_intent(wallet, index).unwrap().0
}

fn get_proposal_address(intent: Address, index: u64) -> Address {
    find_proposal(&intent, index).unwrap().0
}

struct ProposeIx {
    payer: Address,
    wallet: Address,
    intent: Address,
    proposal_index: u64,
    expiry: i64,
    proposer_pubkey: [u8; 32],
    signature: [u8; 64],
    params_data: Vec<u8>,
}

impl Ledger {
    fn create_wallet(
        &mut self,
        payer: Address,
        name: &str,
        proposers: &[Address],
        approvers: &[Address],
        threshold: u8,
    ) -> Result<(), ProgramError> {
        self.create_wallet_full(payer, name, proposers, approvers, threshold, 1, 0)
    }

    #[allow(clippy::too_many_arguments)]
    fn create_wallet_full(
        &mut self,
        payer: Address,
        name: &str,
        proposers: &[Address],
        approvers: &[Address],
        approval_threshold: u8,
        cancellation_threshold: u8,
        timelock_seconds: u32,
    ) -> Result<(), ProgramError> {
        let name_hash = Address::new_from_array(sha256_hash(name.as_bytes()));
        self.create_wallet_at(
            payer,
            name_hash,
            find_wallet_address(name),
            name,
            proposers,
            approvers,
            approval_threshold,
            cancellation_threshold,
            timelock_seconds,
        )
    }

    #[allow(clippy::too_many_arguments)]
    fn create_wallet_at(
        &mut self,
        payer: Address,
        name_hash: Address,
        wallet: Address,
        name: &str,
        proposers: &[Address],
        approvers: &[Address],
        approval_threshold: u8,
        cancellation_threshold: u8,
        timelock_seconds: u32,
    ) -> Result<(), ProgramError> {
        let new_intent =
            |i: u8| Account { address: find_intent_address(&wallet, i), data: blank_intent() };
        let mut accounts = CreateWallet {
            payer,
            name_hash,
            wallet: Account { address: wallet, data: blank_wallet() },
            add_intent: new_intent(0),
            remove_intent: new_intent(1),
            update_intent: new_intent(2),
        };
        let proposers: Vec<Key> = proposers.iter().map(|a| a.bytes).collect();
        let approvers: Vec<Key> = approvers.iter().map(|a| a.bytes).collect();
        clear_msig_anchor::create_wallet(
            &mut accounts,
            approval_threshold,
            cancellation_threshold,
            timelock_seconds,
            name.as_bytes(),
            &proposers,
            &approvers,
        )?;
        self.wallets.insert(wallet.bytes, accounts.wallet.data);
        for intent in [accounts.add_intent, accounts.remove_intent, accounts.update_intent] {
            self.intents.insert(intent.address.bytes, intent.data);
        }
        Ok(())
    }

    fn propose(&mut self, ix: ProposeIx) -> Result<(), ProgramError> {
        let proposal = get_proposal_address(ix.intent, ix.proposal_index);
        let mut accounts = Propose {
            payer: ix.payer,
            wallet: Account {
                address: ix.wallet,
                data: self.wallets.remove(&ix.wallet.bytes).unwrap(),
            },
            intent: Account {
                address: ix.intent,
                data: self.intents.remove(&ix.intent.bytes).unwrap(),
            },
            proposal: Account { address: proposal, data: blank_proposal() },
        };
        let r = clear_msig_anchor::propose(
            &mut accounts,
            ix.expiry,
            ix.proposer_pubkey,
            ix.signature,
            &ix.params_data,
            self.now,
        );
        self.wallets.insert(ix.wallet.bytes, accounts.wallet.data);
        self.intents.insert(ix.intent.bytes, accounts.intent.data);
        if r.is_ok() {
            self.proposals.insert(proposal.bytes, accounts.proposal.data);
        }
        r
    }

    fn approve(
        &mut self,
        wallet: Address,
        intent: Address,
        proposal: Address,
        expiry: i64,
        approver_index: u8,
        signature: [u8; 64],
    ) -> Result<(), ProgramError> {
        let mut accounts = Approve {
            wallet: Account { address: wallet, data: self.wallets.remove(&wallet.bytes).unwrap() },
            intent: Account { address: intent, data: self.intents.remove(&intent.bytes).unwrap() },
            proposal: Account {
                address: proposal,
                data: self.proposals.remove(&proposal.bytes).unwrap(),
            },
        };
        let r =
            clear_msig_anchor::approve(&mut accounts, expiry, approver_index, signature, self.now);
        self.wallets.insert(wallet.bytes, accounts.wallet.data);
        self.intents.insert(intent.bytes, accounts.intent.data);
        self.proposals.insert(proposal.bytes, accounts.proposal.data);
        r
    }

    fn cancel(
        &mut self,
        wallet: Address,
        intent: Address,
        proposal: Address,
        expiry: i64,
        canceller_index: u8,
        signature: [u8; 64],
    ) -> Result<(), ProgramError> {
        let mut accounts = Cancel {
            wallet: Account { address: wallet, data: self.wallets.remove(&wallet.bytes).unwrap() },
            intent: Account { address: intent, data: self.intents.remove(&intent.bytes).unwrap() },
            proposal: Account {
                address: proposal,
                data: self.proposals.remove(&proposal.bytes).unwrap(),
            },
        };
        let r =
            clear_msig_anchor::cancel(&mut accounts, expiry, canceller_index, signature, self.now);
        self.wallets.insert(wallet.bytes, accounts.wallet.data);
        self.intents.insert(intent.bytes, accounts.intent.data);
        self.proposals.insert(proposal.bytes, accounts.proposal.data);
        r
    }

    fn execute(
        &mut self,
        wallet: Address,
        intent: Address,
        proposal: Address,
        remaining: Vec<AccountView>,
    ) -> Result<(), ProgramError> {
        let loaded = match remaining.first() {
            Some(first) if first.address != intent => {
                self.intents.remove(&first.address.bytes).ok_or(ProgramError::InvalidArgument)
            }
            _ => Err(ProgramError::InvalidArgument),
        };
        let kept = loaded.as_ref().ok().map(copy_intent);
        let mut accounts = Execute {
            wallet: Account { address: wallet, data: self.wallets.remove(&wallet.bytes).unwrap() },
            wallet_view: view(wallet, false, true),
            vault: view(find_vault(&wallet).unwrap().0, false, true),
            intent: Account { address: intent, data: self.intents.remove(&intent.bytes).unwrap() },
            proposal: Account {
                address: proposal,
                data: self.proposals.remove(&proposal.bytes).unwrap(),
            },
            system_program: view(system_program_id(), false, false),
        };
        let r = clear_msig_anchor::execute(&mut accounts, &remaining, loaded, self.now);
        self.wallets.insert(wallet.bytes, accounts.wallet.data);
        self.intents.insert(intent.bytes, accounts.intent.data);
        self.proposals.insert(proposal.bytes, accounts.proposal.data);
        if let Some(kept) = kept {
            self.intents.insert(remaining[0].address.bytes, kept);
        }
        match r {
            Ok(Execution::CreateIntent { address, data, .. }) => {
                self.intents.insert(address.bytes, load_intent(&data)?);
                self.raw.insert(address.bytes, data);
                Ok(())
            }
            Ok(Execution::WriteIntent { intent }) => {
                self.intents.insert(remaining[0].address.bytes, intent);
                Ok(())
            }
            Ok(Execution::WriteBody { body }) => {
                let target = remaining[0].address.bytes;
                let mut data = acct_discriminator("Intent").to_vec();
                data.extend(body);
                self.intents.insert(target, load_intent(&data)?);
                self.raw.insert(target, data);
                Ok(())
            }
            Ok(Execution::Invoke { .. }) => Ok(()),
            Err(e) => Err(e),
        }
    }

    fn cleanup(&mut self, proposal: Address, rent_refund: Address) -> Result<(), ProgramError> {
        let mut accounts = CleanupProposal {
            proposal: Account {
                address: proposal,
                data: self.proposals.remove(&proposal.bytes).unwrap(),
            },
            rent_refund,
        };
        let r = clear_msig_anchor::cleanup_proposal(&mut accounts);
        if r.is_err() {
            self.proposals.insert(proposal.bytes, accounts.proposal.data);
        }
        r
    }

    fn status(&self, proposal: &Address) -> u8 {
        self.proposals[&proposal.bytes].status.to_u8()
    }
}

fn copy_intent(i: &Intent) -> Intent {
    Intent {
        proposers: i.proposers.clone(),
        approvers: i.approvers.clone(),
        params: i.params.clone(),
        accounts: i.accounts.clone(),
        instructions: i.instructions.clone(),
        data_segments: i.data_segments.clone(),
        seeds: i.seeds.clone(),
        byte_pool: i.byte_pool.clone(),
        ..*i
    }
}

/// Builds a partial Intent body for AddIntent proposals.
/// Due to the limit of 512 bytes on proposal.params_data, only the first
/// 512 bytes of the Intent are filled. This covers identity,
/// governance, and proposer fields but not approvers or beyond.
fn build_intent_params(
    wallet: &Address,
    proposers: &[Address],
    _approvers: &[Address],
    approval_threshold: u8,
    cancellation_threshold: u8,
    timelock_seconds: u32,
) -> Vec<u8> {
    let cap = INTENT_SIZE.min(512);
    let mut data = vec![0u8; cap];
    data[..32].copy_from_slice(&wallet.bytes);
    data[34] = 3; // Custom
    data[35] = 1;
    data[36] = approval_threshold;
    data[37] = cancellation_threshold;
    data[38..42].copy_from_slice(&timelock_seconds.to_le_bytes());
    let prop_count = proposers.len().min(14);
    data[48..52].copy_from_slice(&(prop_count as u32).to_le_bytes());
    for (i, p) in proposers.iter().take(prop_count).enumerate() {
        let start = 52 + i * 32;
        if start + 32 <= cap {
            data[start..start + 32].copy_from_slice(&p.bytes);
        }
    }
    data
}

type MessageFn = dyn Fn(&str, i64, &str, u64, &[u8]) -> Vec<u8>;

fn remove_msg(action: &str, expiry: i64, name: &str, index: u64, data: &[u8]) -> Vec<u8> {
    remove_intent_msg(action, expiry, name, index, data[0])
}

/// Full propose -> approve -> execute flow.
struct ProposeApproveExecuteArgs<'a> {
    svm: &'a mut Ledger,
    payer: Address,
    wallet: Address,
    wallet_name: &'a str,
    intent: Address,
    proposal_index: u64,
    proposer: &'a SigningKey,
    approver: &'a SigningKey,
    params_data: Vec<u8>,
    msg_fn: &'a MessageFn,
    execute_remaining: Vec<AccountView>,
}

fn propose_approve_execute(args: ProposeApproveExecuteArgs<'_>) -> Address {
    let proposal = get_proposal_address(args.intent, args.proposal_index);
    let msg = (args.msg_fn)(
        "propose", DEFAULT_EXPIRY, args.wallet_name, args.proposal_index, &args.params_data,
    );
    let result = args.svm.propose(ProposeIx {
        payer: args.payer,
        wallet: args.wallet,
        intent: args.intent,
        proposal_index: args.proposal_index,
        expiry: DEFAULT_EXPIRY,
        proposer_pubkey: ed25519_pubkey(args.proposer),
        signature: sign_message(args.proposer, &msg),
        params_data: args.params_data.clone(),
    });
    assert_eq!(result, Ok(()), "propose failed");

    // Approve (approver is always at index 0)
    let msg = (args.msg_fn)(
        "approve", DEFAULT_EXPIRY, args.wallet_name, args.proposal_index, &args.params_data,
    );
    let signature = sign_message(args.approver, &msg);
    let result =
        args.svm.approve(args.wallet, args.intent, proposal, DEFAULT_EXPIRY, 0, signature);
    assert_eq!(result, Ok(()), "approve failed");

    let result = args.svm.execute(args.wallet, args.intent, proposal, args.execute_remaining);
    assert_eq!(result, Ok(()), "execute failed");
    proposal
}

// =========================================================================
// Tests
// =========================================================================

#[test]
fn test_create_wallet() {
    let mut svm = setup();
    let payer = new_unique();
    let proposer = new_unique();
    let approver = new_unique();
    let result = svm.create_wallet(payer, "treasury", &[proposer], &[approver], 1);
    assert_eq!(result, Ok(()), "create failed");

    let wallet = find_wallet_address("treasury");
    let data = &svm.wallets[&wallet.bytes];
    assert_eq!(data.name(), "treasury");
    assert_eq!(data.proposal_index, 0);
    assert_eq!(data.intent_index, 2);
    assert_eq!(data.bump, find_wallet(&sha256_hash(b"treasury")).unwrap().1);
    for index in 0..3u8 {
        let (address, bump) = find_intent(&wallet, index).unwrap();
        let intent = &svm.intents[&address.bytes];
        assert_eq!(intent.intent_index, index);
        assert_eq!(intent.bump, bump);
        assert!(intent.is_approved());
        assert!(intent.wallet == wallet);
        assert!(intent.proposers == vec![proposer]);
        assert!(intent.approvers == vec![approver]);
        assert_eq!(intent.approval_threshold, 1);
        assert_eq!(intent.cancellation_threshold, 1);
    }
}

#[test]
fn test_create_wallet_wrong_wallet_address_fails() {
    let mut svm = setup();
    let payer = new_unique();
    let wallet = find_wallet_address("wrong-name");
    let wrong_name_hash = Address::new_from_array([0u8; 32]);
    let result = svm.create_wallet_at(
        payer,
        wrong_name_hash,
        wallet,
        "actual-name",
        &[new_unique()],
        &[new_unique()],
        1,
        1,
        0,
    );
    assert!(result.is_err(), "wrong wallet address should fail PDA check");
    assert_eq!(result, Err(ProgramError::ConstraintSeeds));
}

#[test]
fn test_create_wallet_bad_threshold_fails() {
    let mut svm = setup();
    let payer = new_unique();
    assert!(svm.create_wallet(payer, "bad", &[new_unique()], &[new_unique()], 2).is_err());
}

#[test]
fn test_propose_add_intent() {
    let mut svm = setup();
    let payer = new_unique();
    let proposer = new_keypair();
    let approver = new_keypair();
    let wallet_name = "prop-test";
    assert!(svm
        .create_wallet(payer, wallet_name, &[pubkey_of(&proposer)], &[pubkey_of(&approver)], 1)
        .is_ok());

    let wallet = find_wallet_address(wallet_name);
    let add_intent = find_intent_address(&wallet, 0);
    let params_data =
        build_intent_params(&wallet, &[pubkey_of(&proposer)], &[pubkey_of(&approver)], 1, 1, 0);
    let msg = add_intent_msg("propose", DEFAULT_EXPIRY, wallet_name, 0, &params_data);
    let result = svm.propose(ProposeIx {
        payer,
        wallet,
        intent: add_intent,
        proposal_index: 0,
        expiry: DEFAULT_EXPIRY,
        proposer_pubkey: ed25519_pubkey(&proposer),
        signature: sign_message(&proposer, &msg),
        params_data,
    });
    assert_eq!(result, Ok(()), "propose failed");
    let proposal = &svm.proposals[&get_proposal_address(add_intent, 0).bytes];
    assert!(proposal.wallet == wallet);
    assert!(proposal.intent == add_intent);
    assert!(proposal.rent_refund == payer);
    assert_eq!(svm.intents[&add_intent.bytes].active_proposal_count, 1);
    assert_eq!(svm.wallets[&wallet.bytes].proposal_index, 1);
}

#[test]
fn test_propose_and_approve_add_intent() {
    let mut svm = setup();
    let payer = new_unique();
    let proposer = new_keypair();
    let approver = new_keypair();
    let wallet_name = "approve-test";
    assert!(svm
        .create_wallet(payer, wallet_name, &[pubkey_of(&proposer)], &[pubkey_of(&approver)], 1)
        .is_ok());

    let wallet = find_wallet_address(wallet_name);
    let add_intent = find_intent_address(&wallet, 0);
    let params_data =
        build_intent_params(&wallet, &[pubkey_of(&proposer)], &[pubkey_of(&approver)], 1, 1, 0);
    let proposal_address = get_proposal_address(add_intent, 0);

    let msg = add_intent_msg("propose", DEFAULT_EXPIRY, wallet_name, 0, &params_data);
    assert!(svm
        .propose(ProposeIx {
            payer,
            wallet,
            intent: add_intent,
            proposal_index: 0,
            expiry: DEFAULT_EXPIRY,
            proposer_pubkey: ed25519_pubkey(&proposer),
            signature: sign_message(&proposer, &msg),
            params_data: params_data.clone(),
        })
        .is_ok());

    let msg = add_intent_msg("approve", DEFAULT_EXPIRY, wallet_name, 0, &params_data);
    let signature = sign_message(&approver, &msg);
    let result = svm.approve(wallet, add_intent, proposal_address, DEFAULT_EXPIRY, 0, signature);
    assert_eq!(result, Ok(()), "approve failed");
    assert_eq!(svm.status(&proposal_address), 1, "status should be Approved(1)");
}

#[test]
fn test_cancel_overrides_approval() {
    let mut svm = setup();
    let payer = new_unique();
    let proposer = new_keypair();
    let approver1 = new_keypair();
    let approver2 = new_keypair();
    let wallet_name = "cancel-test";
    assert!(svm
        .create_wallet(
            payer,
            wallet_name,
            &[pubkey_of(&proposer)],
            &[pubkey_of(&approver1), pubkey_of(&approver2)],
            2,
        )
        .is_ok());

    let wallet = find_wallet_address(wallet_name);
    let add_intent = find_intent_address(&wallet, 0);
    let params_data = build_intent_params(
        &wallet,
        &[pubkey_of(&proposer)],
        &[pubkey_of(&approver1), pubkey_of(&approver2)],
        2,
        1,
        0,
    );
    let proposal_address = get_proposal_address(add_intent, 0);

    // Propose
    let msg = add_intent_msg("propose", DEFAULT_EXPIRY, wallet_name, 0, &params_data);
    svm.propose(ProposeIx {
        payer,
        wallet,
        intent: add_intent,
        proposal_index: 0,
        expiry: DEFAULT_EXPIRY,
        proposer_pubkey: ed25519_pubkey(&proposer),
        signature: sign_message(&proposer, &msg),
        params_data: params_data.clone(),
    })
    .unwrap();

    // Approver 1 approves
    let msg = add_intent_msg("approve", DEFAULT_EXPIRY, wallet_name, 0, &params_data);
    let signature = sign_message(&approver1, &msg);
    svm.approve(wallet, add_intent, proposal_address, DEFAULT_EXPIRY, 0, signature).unwrap();

    // Approver 1 switches to cancel
    let mut body = b"expires ".to_vec();
    body.extend(format_timestamp(DEFAULT_EXPIRY));
    body.extend(b": cancel add intent definition_hash: ");
    body.extend(hex_encode(&sha256_hash(&params_data)));
    body.extend(suffix(wallet_name, 0));
    let cancel_msg = wrap_offchain(&body);
    let signature = sign_message(&approver1, &cancel_msg);
    svm.cancel(wallet, add_intent, proposal_address, DEFAULT_EXPIRY, 0, signature).unwrap();

    assert_eq!(svm.status(&proposal_address), 3, "status should be Cancelled(3)");
    assert_eq!(svm.intents[&add_intent.bytes].active_proposal_count, 0);
}

#[test]
fn test_wrong_signer_propose_fails() {
    let mut svm = setup();
    let payer = new_unique();
    let proposer = new_keypair();
    let approver = new_keypair();
    let wrong_key = new_keypair();
    let wallet_name = "wrong-signer";
    assert!(svm
        .create_wallet(payer, wallet_name, &[pubkey_of(&proposer)], &[pubkey_of(&approver)], 1)
        .is_ok());

    let wallet = find_wallet_address(wallet_name);
    let add_intent = find_intent_address(&wallet, 0);
    let params_data = vec![0u8; 10];
    let msg = add_intent_msg("propose", DEFAULT_EXPIRY, wallet_name, 0, &params_data);
    let result = svm.propose(ProposeIx {
        payer,
        wallet,
        intent: add_intent,
        proposal_index: 0,
        expiry: DEFAULT_EXPIRY,
        proposer_pubkey: ed25519_pubkey(&wrong_key),
        signature: sign_message(&wrong_key, &msg),
        params_data,
    });
    assert!(result.is_err());
    assert_eq!(result, Err(ProgramError::MissingRequiredSignature));
}

#[test]
fn test_expired_signature_fails() {
    let mut svm = setup();
    let payer = new_unique();
    let proposer = new_keypair();
    let approver = new_keypair();
    let wallet_name = "expired-sig";
    assert!(svm
        .create_wallet(payer, wallet_name, &[pubkey_of(&proposer)], &[pubkey_of(&approver)], 1)
        .is_ok());

    let wallet = find_wallet_address(wallet_name);
    let add_intent = find_intent_address(&wallet, 0);
    let params_data = vec![0u8; 10];
    let expired = -1i64;
    let msg = add_intent_msg("propose", expired, wallet_name, 0, &params_data);
    let result = svm.propose(ProposeIx {
        payer,
        wallet,
        intent: add_intent,
        proposal_index: 0,
        expiry: expired,
        proposer_pubkey: ed25519_pubkey(&proposer),
        signature: sign_message(&proposer, &msg),
        params_data,
    });
    assert!(result.is_err());
}

/// A wallet with one proposer and one approver, and a proposal to remove
/// intent 0.
fn propose_removal(
    svm: &mut Ledger,
    payer: Address,
    proposer: &SigningKey,
    wallet_name: &str,
) -> (Address, Address, Address) {
    let wallet = find_wallet_address(wallet_name);
    let remove_intent = find_intent_address(&wallet, 1);
    let proposal_address = get_proposal_address(remove_intent, 0);
    let msg = remove_intent_msg("propose", DEFAULT_EXPIRY, wallet_name, 0, 0);
    let result = svm.propose(ProposeIx {
        payer,
        wallet,
        intent: remove_intent,
        proposal_index: 0,
        expiry: DEFAULT_EXPIRY,
        proposer_pubkey: ed25519_pubkey(proposer),
        signature: sign_message(proposer, &msg),
        params_data: vec![0u8], // target_index = 0
    });
    assert_eq!(result, Ok(()), "propose remove failed");
    (wallet, remove_intent, proposal_address)
}

#[test]
fn test_propose_remove_intent() {
    let mut svm = setup();
    let payer = new_unique();
    let proposer = new_keypair();
    let approver = new_keypair();
    let wallet_name = "remove-test";
    assert!(svm
        .create_wallet(payer, wallet_name, &[pubkey_of(&proposer)], &[pubkey_of(&approver)], 1)
        .is_ok());
    propose_removal(&mut svm, payer, &proposer, wallet_name);
}

#[test]
fn test_duplicate_approval_fails() {
    let mut svm = setup();
    let payer = new_unique();
    let proposer = new_keypair();
    let approver = new_keypair();
    let wallet_name = "dup-approve";
    assert!(svm
        .create_wallet(payer, wallet_name, &[pubkey_of(&proposer)], &[pubkey_of(&approver)], 1)
        .is_ok());

    let wallet = find_wallet_address(wallet_name);
    let add_intent = find_intent_address(&wallet, 0);
    let proposal_address = get_proposal_address(add_intent, 0);
    let params_data = vec![0u8; 10];
    let msg = add_intent_msg("propose", DEFAULT_EXPIRY, wallet_name, 0, &params_data);
    svm.propose(ProposeIx {
        payer,
        wallet,
        intent: add_intent,
        proposal_index: 0,
        expiry: DEFAULT_EXPIRY,
        proposer_pubkey: ed25519_pubkey(&proposer),
        signature: sign_message(&proposer, &msg),
        params_data: params_data.clone(),
    })
    .unwrap();

    let msg = add_intent_msg("approve", DEFAULT_EXPIRY, wallet_name, 0, &params_data);
    let signature = sign_message(&approver, &msg);
    assert!(svm
        .approve(wallet, add_intent, proposal_address, DEFAULT_EXPIRY, 0, signature)
        .is_ok());
    assert!(
        svm.approve(wallet, add_intent, proposal_address, DEFAULT_EXPIRY, 0, signature).is_err(),
        "duplicate approval should fail"
    );
}

// =========================================================================
// Execute lifecycle tests
// =========================================================================

#[test]
fn test_execute_add_intent() {
    let mut svm = setup();
    let payer = new_unique();
    let proposer = new_keypair();
    let approver = new_keypair();
    let wallet_name = "exec-add";
    assert!(svm
        .create_wallet(payer, wallet_name, &[pubkey_of(&proposer)], &[pubkey_of(&approver)], 1)
        .is_ok());

    let wallet = find_wallet_address(wallet_name);
    let add_intent = find_intent_address(&wallet, 0);
    let new_intent_address = find_intent_address(&wallet, 3);
    let params_data =
        build_intent_params(&wallet, &[pubkey_of(&proposer)], &[pubkey_of(&approver)], 1, 1, 0);
    propose_approve_execute(ProposeApproveExecuteArgs {
        svm: &mut svm,
        payer,
        wallet,
        wallet_name,
        intent: add_intent,
        proposal_index: 0,
        proposer: &proposer,
        approver: &approver,
        params_data: params_data.clone(),
        msg_fn: &add_intent_msg,
        execute_remaining: vec![view(payer, true, true), view(new_intent_address, false, true)],
    });

    let data = &svm.raw[&new_intent_address.bytes];
    assert_eq!(data[..DISC_LEN], acct_discriminator("Intent"), "new intent discriminator");
    assert_eq!(data[DISC_LEN..DISC_LEN + 512], params_data[..]);
    assert!(data[DISC_LEN + 512..].iter().all(|b| *b == 0));
    assert_eq!(data.len(), Intent::SPACE);
    assert_eq!(svm.wallets[&wallet.bytes].intent_index, 3);
}

#[test]
fn test_execute_remove_intent() {
    let mut svm = setup();
    let payer = new_unique();
    let proposer = new_keypair();
    let approver = new_keypair();
    let wallet_name = "exec-remove";
    assert!(svm
        .create_wallet(payer, wallet_name, &[pubkey_of(&proposer)], &[pubkey_of(&approver)], 1)
        .is_ok());

    let wallet = find_wallet_address(wallet_name);
    let remove_intent = find_intent_address(&wallet, 1);
    let add_intent = find_intent_address(&wallet, 0);
    propose_approve_execute(ProposeApproveExecuteArgs {
        svm: &mut svm,
        payer,
        wallet,
        wallet_name,
        intent: remove_intent,
        proposal_index: 0,
        proposer: &proposer,
        approver: &approver,
        params_data: vec![0u8],
        msg_fn: &remove_msg,
        execute_remaining: vec![view(add_intent, false, true)],
    });
    assert_eq!(svm.intents[&add_intent.bytes].approved, 0, "intent should be deactivated");
}

#[test]
fn test_removed_intent_cannot_be_used() {
    let mut svm = setup();
    let payer = new_unique();
    let proposer = new_keypair();
    let approver = new_keypair();
    let wallet_name = "removed-fail";
    assert!(svm
        .create_wallet(payer, wallet_name, &[pubkey_of(&proposer)], &[pubkey_of(&approver)], 1)
        .is_ok());

    let wallet = find_wallet_address(wallet_name);
    let remove_intent = find_intent_address(&wallet, 1);
    let add_intent = find_intent_address(&wallet, 0);

    // Remove AddIntent
    propose_approve_execute(ProposeApproveExecuteArgs {
        svm: &mut svm,
        payer,
        wallet,
        wallet_name,
        intent: remove_intent,
        proposal_index: 0,
        proposer: &proposer,
        approver: &approver,
        params_data: vec![0u8],
        msg_fn: &remove_msg,
        execute_remaining: vec![view(add_intent, false, true)],
    });

    // Try to propose via the removed AddIntent — should fail
    let dummy_params = vec![0u8; 10];
    let msg = add_intent_msg("propose", DEFAULT_EXPIRY, wallet_name, 1, &dummy_params);
    let result = svm.propose(ProposeIx {
        payer,
        wallet,
        intent: add_intent,
        proposal_index: 1,
        expiry: DEFAULT_EXPIRY,
        proposer_pubkey: ed25519_pubkey(&proposer),
        signature: sign_message(&proposer, &msg),
        params_data: dummy_params,
    });
    assert!(result.is_err());
}

// =========================================================================
// Comprehensive tests
// =========================================================================

#[test]
fn test_timelock_enforcement() {
    let mut svm = setup();
    let payer = new_unique();
    let proposer = new_keypair();
    let approver = new_keypair();
    let wallet_name = "timelock-test";
    svm.create_wallet_full(
        payer,
        wallet_name,
        &[pubkey_of(&proposer)],
        &[pubkey_of(&approver)],
        1,
        1,
        3600,
    )
    .unwrap();

    let (wallet, remove_intent, proposal_address) =
        propose_removal(&mut svm, payer, &proposer, wallet_name);
    let add_intent = find_intent_address(&wallet, 0);

    let msg = remove_intent_msg("approve", DEFAULT_EXPIRY, wallet_name, 0, 0);
    let signature = sign_message(&approver, &msg);
    svm.approve(wallet, remove_intent, proposal_address, DEFAULT_EXPIRY, 0, signature).unwrap();

    // Execute immediately should fail (clock=0, timelock=3600)
    let remaining = vec![view(add_intent, false, true)];
    let result = svm.execute(wallet, remove_intent, proposal_address, remaining);
    assert!(result.is_err());

    // One second early is too early as well, the full hour is enough.
    svm.now = 3599;
    let remaining = vec![view(add_intent, false, true)];
    let result = svm.execute(wallet, remove_intent, proposal_address, remaining);
    assert_eq!(result, Err(ProgramError::InvalidArgument));
    svm.now = 3600;
    let remaining = vec![view(add_intent, false, true)];
    assert_eq!(svm.execute(wallet, remove_intent, proposal_address, remaining), Ok(()));
}

#[test]
fn test_execute_not_approved_fails() {
    let mut svm = setup();
    let payer = new_unique();
    let proposer = new_keypair();
    let approver = new_keypair();
    let wallet_name = "not-approved";
    assert!(svm
        .create_wallet(payer, wallet_name, &[pubkey_of(&proposer)], &[pubkey_of(&approver)], 1)
        .is_ok());

    // Propose but don't approve
    let (wallet, remove_intent, proposal_address) =
        propose_removal(&mut svm, payer, &proposer, wallet_name);
    let add_intent = find_intent_address(&wallet, 0);
    let remaining = vec![view(add_intent, false, true)];
    assert!(svm.execute(wallet, remove_intent, proposal_address, remaining).is_err());
}

#[test]
fn test_multi_approver_threshold() {
    let mut svm = setup();
    let payer = new_unique();
    let proposer = new_keypair();
    let approver1 = new_keypair();
    let approver2 = new_keypair();
    let approver3 = new_keypair();
    let wallet_name = "multi-approve";
    assert!(svm
        .create_wallet(
            payer,
            wallet_name,
            &[pubkey_of(&proposer)],
            &[pubkey_of(&approver1), pubkey_of(&approver2), pubkey_of(&approver3)],
            2,
        )
        .is_ok());
    let (wallet, remove_intent, proposal_address) =
        propose_removal(&mut svm, payer, &proposer, wallet_name);

    // First approval — not enough
    let msg = remove_intent_msg("approve", DEFAULT_EXPIRY, wallet_name, 0, 0);
    let signature = sign_message(&approver1, &msg);
    svm.approve(wallet, remove_intent, proposal_address, DEFAULT_EXPIRY, 0, signature).unwrap();
    assert_eq!(svm.status(&proposal_address), 0, "should still be Active");

    // Second approval — threshold met
    let signature = sign_message(&approver2, &msg);
    svm.approve(wallet, remove_intent, proposal_address, DEFAULT_EXPIRY, 1, signature).unwrap();
    assert_eq!(svm.status(&proposal_address), 1, "should be Approved");
}

#[test]
fn test_cancel_reverts_approved_to_active() {
    let mut svm = setup();
    let payer = new_unique();
    let proposer = new_keypair();
    let approver1 = new_keypair();
    let approver2 = new_keypair();
    let wallet_name = "revert-test";
    svm.create_wallet_full(
        payer,
        wallet_name,
        &[pubkey_of(&proposer)],
        &[pubkey_of(&approver1), pubkey_of(&approver2)],
        2,
        2,
        0,
    )
    .unwrap();
    let (wallet, remove_intent, proposal_address) =
        propose_removal(&mut svm, payer, &proposer, wallet_name);

    // Both approve
    let approve_msg = remove_intent_msg("approve", DEFAULT_EXPIRY, wallet_name, 0, 0);
    let signature = sign_message(&approver1, &approve_msg);
    svm.approve(wallet, remove_intent, proposal_address, DEFAULT_EXPIRY, 0, signature).unwrap();
    let signature = sign_message(&approver2, &approve_msg);
    svm.approve(wallet, remove_intent, proposal_address, DEFAULT_EXPIRY, 1, signature).unwrap();
    assert_eq!(svm.status(&proposal_address), 1, "should be Approved");

    // approver1 switches to cancel
    let mut body = b"expires ".to_vec();
    body.extend(format_timestamp(DEFAULT_EXPIRY));
    body.extend(b": cancel remove intent 0");
    body.extend(suffix(wallet_name, 0));
    let signature = sign_message(&approver1, &wrap_offchain(&body));
    svm.cancel(wallet, remove_intent, proposal_address, DEFAULT_EXPIRY, 0, signature).unwrap();
    assert_eq!(svm.status(&proposal_address), 0, "should revert to Active");
    assert_eq!(svm.intents[&remove_intent.bytes].active_proposal_count, 1);
}

#[test]
fn test_non_approver_approve_fails() {
    let mut svm = setup();
    let payer = new_unique();
    let proposer = new_keypair();
    let approver = new_keypair();
    let random_key = new_keypair();
    let wallet_name = "non-approver";
    assert!(svm
        .create_wallet(payer, wallet_name, &[pubkey_of(&proposer)], &[pubkey_of(&approver)], 1)
        .is_ok());
    let (wallet, remove_intent, proposal_address) =
        propose_removal(&mut svm, payer, &proposer, wallet_name);

    let msg = remove_intent_msg("approve", DEFAULT_EXPIRY, wallet_name, 0, 0);
    let signature = sign_message(&random_key, &msg);
    assert!(svm
        .approve(wallet, remove_intent, proposal_address, DEFAULT_EXPIRY, 99, signature)
        .is_err());
    // At the approver's own index another's signature does not count either.
    let result = svm.approve(wallet, remove_intent, proposal_address, DEFAULT_EXPIRY, 0, signature);
    assert_eq!(result, Err(ProgramError::InvalidArgument));
}

#[test]
fn test_full_add_then_remove_lifecycle() {
    let mut svm = setup();
    let payer = new_unique();
    let proposer = new_keypair();
    let approver = new_keypair();
    let wallet_name = "full-lifecycle";
    assert!(svm
        .create_wallet(payer, wallet_name, &[pubkey_of(&proposer)], &[pubkey_of(&approver)], 1)
        .is_ok());

    let wallet = find_wallet_address(wallet_name);
    let add_intent = find_intent_address(&wallet, 0);
    let remove_intent = find_intent_address(&wallet, 1);
    let new_intent_address = find_intent_address(&wallet, 3);

    // 1. Add a transfer intent
    let params_data =
        build_intent_params(&wallet, &[pubkey_of(&proposer)], &[pubkey_of(&approver)], 1, 1, 0);
    propose_approve_execute(ProposeApproveExecuteArgs {
        svm: &mut svm,
        payer,
        wallet,
        wallet_name,
        intent: add_intent,
        proposal_index: 0,
        proposer: &proposer,
        approver: &approver,
        params_data,
        msg_fn: &add_intent_msg,
        execute_remaining: vec![view(payer, true, true), view(new_intent_address, false, true)],
    });
    assert_eq!(
        svm.raw[&new_intent_address.bytes][..DISC_LEN],
        acct_discriminator("Intent"),
        "new intent created"
    );

    // 2. Remove the new intent
    propose_approve_execute(ProposeApproveExecuteArgs {
        svm: &mut svm,
        payer,
        wallet,
        wallet_name,
        intent: remove_intent,
        proposal_index: 1,
        proposer: &proposer,
        approver: &approver,
        params_data: vec![3u8],
        msg_fn: &remove_msg,
        execute_remaining: vec![view(new_intent_address, false, true)],
    });
    assert_eq!(svm.intents[&new_intent_address.bytes].approved, 0, "intent deactivated");

    // 3. Try to propose using deactivated intent — should fail
    let dummy_params = vec![0u8; 10];
    let msg = add_intent_msg("propose", DEFAULT_EXPIRY, wallet_name, 2, &dummy_params);
    let result = svm.propose(ProposeIx {
        payer,
        wallet,
        intent: new_intent_address,
        proposal_index: 2,
        expiry: DEFAULT_EXPIRY,
        proposer_pubkey: ed25519_pubkey(&proposer),
        signature: sign_message(&proposer, &msg),
        params_data: dummy_params,
    });
    assert!(result.is_err());
}

#[test]
fn test_remove_add_intent_blocks_future_adds() {
    let mut svm = setup();
    let payer = new_unique();
    let proposer = new_keypair();
    let approver = new_keypair();
    let wallet_name = "block-adds";
    assert!(svm
        .create_wallet(payer, wallet_name, &[pubkey_of(&proposer)], &[pubkey_of(&approver)], 1)
        .is_ok());

    let wallet = find_wallet_address(wallet_name);
    let add_intent = find_intent_address(&wallet, 0);
    let remove_intent = find_intent_address(&wallet, 1);

    // Remove AddIntent itself
    propose_approve_execute(ProposeApproveExecuteArgs {
        svm: &mut svm,
        payer,
        wallet,
        wallet_name,
        intent: remove_intent,
        proposal_index: 0,
        proposer: &proposer,
        approver: &approver,
        params_data: vec![0u8],
        msg_fn: &remove_msg,
        execute_remaining: vec![view(add_intent, false, true)],
    });

    // Now try to add an intent — AddIntent is deactivated
    let params_data =
        build_intent_params(&wallet, &[pubkey_of(&proposer)], &[pubkey_of(&approver)], 1, 1, 0);
    let msg = add_intent_msg("propose", DEFAULT_EXPIRY, wallet_name, 1, &params_data);
    let result = svm.propose(ProposeIx {
        payer,
        wallet,
        intent: add_intent,
        proposal_index: 1,
        expiry: DEFAULT_EXPIRY,
        proposer_pubkey: ed25519_pubkey(&proposer),
        signature: sign_message(&proposer, &msg),
        params_data,
    });
    assert!(result.is_err());
}

#[test]
fn test_cleanup_executed_proposal() {
    let mut svm = setup();
    let payer = new_unique();
    let proposer = new_keypair();
    let approver = new_keypair();
    let wallet_name = "cleanup-test";
    assert!(svm
        .create_wallet(payer, wallet_name, &[pubkey_of(&proposer)], &[pubkey_of(&approver)], 1)
        .is_ok());

    let wallet = find_wallet_address(wallet_name);
    let remove_intent = find_intent_address(&wallet, 1);
    let add_intent = find_intent_address(&wallet, 0);
    let proposal_address = propose_approve_execute(ProposeApproveExecuteArgs {
        svm: &mut svm,
        payer,
        wallet,
        wallet_name,
        intent: remove_intent,
        proposal_index: 0,
        proposer: &proposer,
        approver: &approver,
        params_data: vec![0u8],
        msg_fn: &remove_msg,
        execute_remaining: vec![view(add_intent, false, true)],
    });
    assert_eq!(svm.status(&proposal_address), 2, "should be Executed");

    // The refund goes to the payer only.
    let result = svm.cleanup(proposal_address, new_unique());
    assert_eq!(result, Err(ProgramError::ConstraintHasOne));
    assert_eq!(svm.cleanup(proposal_address, payer), Ok(()), "cleanup failed");
    assert!(!svm.proposals.contains_key(&proposal_address.bytes), "proposal should be closed");
}

#[test]
fn test_cleanup_active_proposal_fails() {
    let mut svm = setup();
    let payer = new_unique();
    let proposer = new_keypair();
    let approver = new_keypair();
    let wallet_name = "cleanup-fail";
    assert!(svm
        .create_wallet(payer, wallet_name, &[pubkey_of(&proposer)], &[pubkey_of(&approver)], 1)
        .is_ok());
    let (_, _, proposal_address) = propose_removal(&mut svm, payer, &proposer, wallet_name);
    assert!(svm.cleanup(proposal_address, payer).is_err());
}

// =========================================================================
// Refusals
// =========================================================================

/// A wallet whose removal of intent 0 is proposed and approved.
fn approved_removal(
    svm: &mut Ledger,
    wallet_name: &str,
    approver: &SigningKey,
) -> (Address, Address, Address) {
    let payer = new_unique();
    let proposer = new_keypair();
    svm.create_wallet(payer, wallet_name, &[pubkey_of(&proposer)], &[pubkey_of(approver)], 1)
        .unwrap();
    let (wallet, remove_intent, proposal) =
        propose_removal(svm, payer, &proposer, wallet_name);
    let msg = remove_intent_msg("approve", DEFAULT_EXPIRY, wallet_name, 0, 0);
    svm.approve(wallet, remove_intent, proposal, DEFAULT_EXPIRY, 0, sign_message(approver, &msg))
        .unwrap();
    (wallet, remove_intent, proposal)
}

#[test]
fn executions_are_refused_without_a_fitting_target() {
    let mut svm = setup();
    let approver = new_keypair();
    let (wallet, intent, proposal) = approved_removal(&mut svm, "targets", &approver);
    let target = find_intent_address(&wallet, 0);
    let other = find_intent_address(&wallet, 2);

    let result = svm.execute(wallet, intent, proposal, vec![]);
    assert_eq!(result, Err(ProgramError::NotEnoughAccountKeys));
    let result = svm.execute(wallet, intent, proposal, vec![view(other, false, true)]);
    assert_eq!(result, Err(ProgramError::InvalidSeeds));
    let result = svm.execute(wallet, intent, proposal, vec![view(target, false, false)]);
    assert_eq!(result, Err(ProgramError::Immutable));
    svm.intents.get_mut(&target.bytes).unwrap().active_proposal_count = 1;
    let result = svm.execute(wallet, intent, proposal, vec![view(target, false, true)]);
    assert_eq!(result, Err(ProgramError::InvalidArgument));
    assert_eq!(svm.status(&proposal), 1);

    svm.intents.get_mut(&target.bytes).unwrap().active_proposal_count = 0;
    let result = svm.execute(wallet, intent, proposal, vec![view(target, false, true)]);
    assert_eq!(result, Ok(()));
    let result = svm.execute(wallet, intent, proposal, vec![view(target, false, true)]);
    assert_eq!(result, Err(ProgramError::InvalidArgument));
}

#[test]
fn a_timelock_beyond_the_end_of_time_is_refused() {
    let mut svm = setup();
    let approver = new_keypair();
    let (wallet, intent, proposal) = approved_removal(&mut svm, "end-of-time", &approver);
    svm.proposals.get_mut(&proposal.bytes).unwrap().approved_at = i64::MAX;
    svm.intents.get_mut(&intent.bytes).unwrap().timelock_seconds = 1;
    let target = find_intent_address(&wallet, 0);
    let result = svm.execute(wallet, intent, proposal, vec![view(target, false, true)]);
    assert_eq!(result, Err(ProgramError::ArithmeticOverflow));
}

#[test]
fn additions_need_a_signing_payer_and_the_next_address() {
    let mut svm = setup();
    let payer = new_unique();
    let proposer = new_keypair();
    let approver = new_keypair();
    let name = "additions";
    svm.create_wallet(payer, name, &[pubkey_of(&proposer)], &[pubkey_of(&approver)], 1).unwrap();
    let wallet = find_wallet_address(name);
    let intent = find_intent_address(&wallet, 0);
    let proposal = get_proposal_address(intent, 0);
    let params = vec![1u8, 2, 3];
    let msg = add_intent_msg("propose", DEFAULT_EXPIRY, name, 0, &params);
    svm.propose(ProposeIx {
        payer,
        wallet,
        intent,
        proposal_index: 0,
        expiry: DEFAULT_EXPIRY,
        proposer_pubkey: ed25519_pubkey(&proposer),
        signature: sign_message(&proposer, &msg),
        params_data: params.clone(),
    })
    .unwrap();
    let msg = add_intent_msg("approve", DEFAULT_EXPIRY, name, 0, &params);
    svm.approve(wallet, intent, proposal, DEFAULT_EXPIRY, 0, sign_message(&approver, &msg))
        .unwrap();

    let next = find_intent_address(&wallet, 3);
    let wrong = find_intent_address(&wallet, 4);
    let result = svm.execute(wallet, intent, proposal, vec![view(payer, true, true)]);
    assert_eq!(result, Err(ProgramError::NotEnoughAccountKeys));
    let remaining = vec![view(payer, false, true), view(next, false, true)];
    let result = svm.execute(wallet, intent, proposal, remaining);
    assert_eq!(result, Err(ProgramError::MissingRequiredSignature));
    let remaining = vec![view(payer, true, true), view(wrong, false, true)];
    let result = svm.execute(wallet, intent, proposal, remaining);
    assert_eq!(result, Err(ProgramError::InvalidSeeds));
    svm.wallets.get_mut(&wallet.bytes).unwrap().intent_index = 255;
    let remaining = vec![view(payer, true, true), view(next, false, true)];
    let result = svm.execute(wallet, intent, proposal, remaining);
    assert_eq!(result, Err(ProgramError::InvalidArgument));
}

#[test]
fn updates_need_one_whole_body() {
    let mut svm = setup();
    let payer = new_unique();
    let proposer = new_keypair();
    let approver = new_keypair();
    let name = "updates";
    svm.create_wallet(payer, name, &[pubkey_of(&proposer)], &[pubkey_of(&approver)], 1).unwrap();
    let wallet = find_wallet_address(name);
    let intent = find_intent_address(&wallet, 2);
    let proposal = get_proposal_address(intent, 0);
    let params = vec![1u8, 9, 9];
    let message = |action: &str| {
        let mut body = b"expires ".to_vec();
        body.extend(format_timestamp(DEFAULT_EXPIRY));
        body.extend(format!(": {action} update intent 1 definition_hash: ").into_bytes());
        body.extend(hex_encode(&sha256_bytes(&params[1..])));
        body.extend(suffix(name, 0));
        wrap_offchain(&body)
    };
    svm.propose(ProposeIx {
        payer,
        wallet,
        intent,
        proposal_index: 0,
        expiry: DEFAULT_EXPIRY,
        proposer_pubkey: ed25519_pubkey(&proposer),
        signature: sign_message(&proposer, &message("propose")),
        params_data: params.clone(),
    })
    .unwrap();
    let signature = sign_message(&approver, &message("approve"));
    svm.approve(wallet, intent, proposal, DEFAULT_EXPIRY, 0, signature).unwrap();
    let target = find_intent_address(&wallet, 1);
    let result = svm.execute(wallet, intent, proposal, vec![view(target, false, true)]);
    assert_eq!(result, Err(ProgramError::InvalidInstructionData));
}

#[test]
fn a_signature_for_one_action_is_none_for_another() {
    let mut svm = setup();
    let payer = new_unique();
    let proposer = new_keypair();
    let approver = new_keypair();
    let name = "actions";
    svm.create_wallet(payer, name, &[pubkey_of(&proposer)], &[pubkey_of(&approver)], 1).unwrap();
    let (wallet, intent, proposal) = propose_removal(&mut svm, payer, &proposer, name);
    let msg = remove_intent_msg("cancel", DEFAULT_EXPIRY, name, 0, 0);
    let signature = sign_message(&approver, &msg);
    let result = svm.approve(wallet, intent, proposal, DEFAULT_EXPIRY, 0, signature);
    assert_eq!(result, Err(ProgramError::InvalidArgument));
    let result = svm.cancel(wallet, intent, proposal, DEFAULT_EXPIRY - 1, 0, signature);
    assert_eq!(result, Err(ProgramError::InvalidArgument));
    assert_eq!(svm.cancel(wallet, intent, proposal, DEFAULT_EXPIRY, 0, signature), Ok(()));
    assert_eq!(svm.status(&proposal), 3);
    // A cancelled proposal stays cancelled.
    let result = svm.cancel(wallet, intent, proposal, DEFAULT_EXPIRY, 0, signature);
    assert_eq!(result, Err(ProgramError::InvalidArgument));
}

#[test]
fn foreign_accounts_are_refused() {
    let mut svm = setup();
    let approver = new_keypair();
    let (wallet, intent, proposal) = approved_removal(&mut svm, "mine", &approver);
    let (other_wallet, other_intent, other_proposal) =
        approved_removal(&mut svm, "other", &approver);
    let target = find_intent_address(&wallet, 0);
    let result = svm.execute(wallet, other_intent, proposal, vec![view(target, false, true)]);
    assert_eq!(result, Err(ProgramError::ConstraintHasOne));
    let result = svm.execute(wallet, intent, other_proposal, vec![view(target, false, true)]);
    assert_eq!(result, Err(ProgramError::ConstraintHasOne));
    let result = svm.approve(other_wallet, intent, proposal, DEFAULT_EXPIRY, 0, [0; 64]);
    assert_eq!(result, Err(ProgramError::ConstraintHasOne));
    let result = svm.cancel(wallet, intent, other_proposal, DEFAULT_EXPIRY, 0, [0; 64]);
    assert_eq!(result, Err(ProgramError::ConstraintHasOne));
}

#[test]
fn proposals_have_limits() {
    let mut svm = setup();
    let payer = new_unique();
    let proposer = new_keypair();
    let name = "limits";
    svm.create_wallet(payer, name, &[pubkey_of(&proposer)], &[new_unique()], 1).unwrap();
    let wallet = find_wallet_address(name);
    let intent = find_intent_address(&wallet, 0);
    let propose = |svm: &mut Ledger, index: u64, params: Vec<u8>| {
        let msg = add_intent_msg("propose", DEFAULT_EXPIRY, name, index, &params);
        svm.propose(ProposeIx {
            payer,
            wallet,
            intent,
            proposal_index: index,
            expiry: DEFAULT_EXPIRY,
            proposer_pubkey: ed25519_pubkey(&proposer),
            signature: sign_message(&proposer, &msg),
            params_data: params,
        })
    };
    // One byte over the limit stops the program, the limit itself is fine.
    assert_eq!(propose(&mut svm, 0, vec![0; 513]), Err(ProgramError::ProgramFailedToComplete));
    assert_eq!(propose(&mut svm, 0, vec![0; 512]), Ok(()));
    // Each index is used once.
    assert_eq!(propose(&mut svm, 0, vec![0; 512]), Err(ProgramError::ConstraintSeeds));
    assert_eq!(propose(&mut svm, 1, vec![0; 512]), Ok(()));
    assert_eq!(svm.intents[&intent.bytes].active_proposal_count, 2);
    // The counters do not wrap.
    svm.intents.get_mut(&intent.bytes).unwrap().active_proposal_count = u16::MAX;
    assert_eq!(propose(&mut svm, 2, vec![0; 512]), Err(ProgramError::InvalidArgument));
    svm.intents.get_mut(&intent.bytes).unwrap().active_proposal_count = 0;
    svm.wallets.get_mut(&wallet.bytes).unwrap().proposal_index = u64::MAX;
    let result = propose(&mut svm, u64::MAX, vec![0; 512]);
    assert_eq!(result, Err(ProgramError::ArithmeticOverflow));
}

#[test]
fn wallets_have_limits() {
    let mut svm = setup();
    let payer = new_unique();
    let one = [new_unique()];
    let many: Vec<Address> = (0..17).map(|_| new_unique()).collect();
    let sixteen = &many[..16];
    let bad = Err(ProgramError::InvalidArgument);
    assert_eq!(svm.create_wallet(payer, "w", &many, &one, 1), bad);
    assert_eq!(svm.create_wallet(payer, "w", &one, &many, 1), bad);
    assert_eq!(svm.create_wallet(payer, "w", &one, &one, 0), bad);
    assert_eq!(svm.create_wallet_full(payer, "w", &one, &one, 1, 0, 0), bad);
    assert_eq!(svm.create_wallet_full(payer, "w", &one, &one, 1, 2, 0), bad);
    let long = "x".repeat(65);
    assert_eq!(svm.create_wallet(payer, &long, &one, &one, 1), bad);
    assert_eq!(svm.create_wallet(payer, &long[..64], sixteen, sixteen, 16), Ok(()));
    let wallet = find_wallet_address(&long[..64]);
    assert_eq!(svm.wallets[&wallet.bytes].name(), &long[..64]);
    // 272 approvers count as sixteen, but no list can hold them.
    let crowd: Vec<Address> = (0..272).map(|_| new_unique()).collect();
    let result = svm.create_wallet(payer, "w", &one, &crowd, 1);
    assert_eq!(result, Err(ProgramError::ProgramFailedToComplete));
}

#[test]
fn a_wallet_is_named_by_its_hash() {
    let mut svm = setup();
    let payer = new_unique();
    let one = [new_unique()];
    let name_hash = Address::new_from_array(sha256_hash(b"a"));
    let wallet = find_wallet_address("a");
    let result = svm.create_wallet_at(payer, name_hash, wallet, "b", &one, &one, 1, 1, 0);
    assert_eq!(result, Err(ProgramError::InvalidSeeds));
    assert!(svm.wallets.is_empty());
}

#[test]
fn a_name_must_be_text() {
    let name = [0xffu8];
    let hash = sha256_bytes(&name);
    let (wallet, bump) = find_wallet(&hash).unwrap();
    let new_intent = |i: u8| Account { address: find_intent_address(&wallet, i), data: blank_intent() };
    let mut accounts = CreateWallet {
        payer: new_unique(),
        name_hash: Address::new_from_array(hash),
        wallet: Account { address: wallet, data: blank_wallet() },
        add_intent: new_intent(0),
        remove_intent: new_intent(1),
        update_intent: new_intent(2),
    };
    let keys = [[1u8; 32]];
    let r = clear_msig_anchor::create_wallet(&mut accounts, 1, 1, 0, &name, &keys, &keys);
    assert_eq!(r, Err(ProgramError::InvalidArgument));
    assert_eq!(accounts.wallet.data.name_len, 0);
    // The same accounts with a hash that was worked out elsewhere.
    let args = CreateWalletArgs {
        name: b"ok",
        approval_threshold: 1,
        cancellation_threshold: 1,
        timelock_seconds: 5,
        proposers: &keys,
        approvers: &keys,
    };
    let bumps =
        CreateWalletBumps { wallet: bump, add_intent: 1, remove_intent: 2, update_intent: 3 };
    assert_eq!(accounts.create_with_hash(args, &bumps, &hash), Ok(()));
    assert_eq!(accounts.wallet.data.name(), "ok");
    assert_eq!(accounts.update_intent.data.bump, 3);
    assert_eq!(accounts.update_intent.data.timelock_seconds, 5);
}
