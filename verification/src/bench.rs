//! The instructions that the benchmark runs: for each case those that bring
//! the program into the right state, and the one that is measured.
use crate::accounts::AccountMeta;
use crate::address::Address;
use crate::client::{
    build_approve_data, build_cancel_data, build_cleanup_data, build_create_wallet_data,
    build_execute_data, build_propose_data, create_wallet_args, discriminator_bytes,
    ed25519_keypair_from_label, ed25519_pubkey, key_views, propose_args, remove_intent_msg,
    sign_message, vote_args, ProgramKind, SigningKey, DEFAULT_EXPIRY,
};
use crate::crypto::{ed25519_public_key, ed25519_signature, sha256_digest, utf8_text};
use crate::metas::{
    approve_metas, cancel_metas, cleanup_list, cleanup_metas, create_wallet_accounts,
    create_wallet_metas, execute_list, execute_metas, meta_views, propose_list, propose_metas,
    vote_list, writable, MetaView,
};
use crate::pda::{
    address_of, intent_pda, intent_seeds, proposal_pda, proposal_seeds, vault_seeds, wallet_pda,
    wallet_seeds,
};
use crate::text::copy_range;
use crate::utils::message::{message_text, offchain_message, remove_intent_text, ContextView};
use vstd::prelude::*;
use vstd::string::StringSliceAdditionalSpecFns;
use vstd::utf8::{encode_utf8_valid_utf8, valid_utf8};

verus! {

/// The intent that the benchmark removes.
pub const TARGET_INTENT_INDEX: u8 = 2;

/// A wallet with one proposer and one approver.
pub struct WalletSetup {
    /// On-chain payer (also the rent_refund target). Separate from the
    /// transaction fee payer so close instructions don't double-count lamports.
    pub creator: Address,
    pub proposer: SigningKey,
    pub approver: SigningKey,
    pub wallet: Address,
    pub wallet_name: Vec<u8>,
}

/// An instruction to send to the program, and whether the creator signs it.
pub struct BenchInstruction {
    pub data: Vec<u8>,
    pub metas: Vec<AccountMeta>,
    pub creator_signs: bool,
}

/// An instruction to send, with its lists as sequences.
pub struct InstructionView {
    pub data: Seq<u8>,
    pub metas: Seq<MetaView>,
    pub creator_signs: bool,
}

impl View for BenchInstruction {
    type V = InstructionView;

    open spec fn view(&self) -> InstructionView {
        InstructionView {
            data: self.data@,
            metas: meta_views(self.metas@),
            creator_signs: self.creator_signs,
        }
    }
}

/// A case of the benchmark.
pub struct BenchCase {
    pub steps: Vec<BenchInstruction>,
    pub measured: BenchInstruction,
}

/// A case of the benchmark, with its steps as a sequence.
pub struct CaseView {
    pub steps: Seq<InstructionView>,
    pub measured: InstructionView,
}

impl View for BenchCase {
    type V = CaseView;

    open spec fn view(&self) -> CaseView {
        CaseView {
            steps: self.steps@.map_values(|i: BenchInstruction| i@),
            measured: self.measured@,
        }
    }
}

/// Whether a step, or its absence, is as specified.
pub open spec fn is_step(r: Option<BenchInstruction>, step: Option<InstructionView>) -> bool {
    match step {
        Some(view) => r is Some && r->0@ == view,
        None => r is None,
    }
}

/// Whether a case, or its absence, is as specified.
pub open spec fn is_case(r: Option<BenchCase>, case: Option<CaseView>) -> bool {
    match case {
        Some(view) => r is Some && r->0@ == view,
        None => r is None,
    }
}

impl WalletSetup {
    /// Whether the wallet's name is text.
    pub open spec fn wf(&self) -> bool {
        valid_utf8(self.wallet_name@)
    }

    /// The wallet of the benchmark, paid by the creator, where its address can
    /// be derived.
    pub fn default(creator: Address) -> (r: Option<WalletSetup>)
        ensures
            match address_of(wallet_seeds(sha256_digest("bench-wallet".spec_bytes()))) {
                None => r is None,
                Some(wallet) => {
                    &&& r is Some
                    &&& r->0.wf()
                    &&& r->0.creator == creator
                    &&& r->0.proposer.seed@ == sha256_digest("bench-proposer".spec_bytes())
                    &&& r->0.approver.seed@ == sha256_digest("bench-approver".spec_bytes())
                    &&& r->0.wallet@ == wallet
                    &&& r->0.wallet_name@ == "bench-wallet".spec_bytes()
                },
            },
    {
        let name = "bench-wallet".as_bytes();
        let wallet_name = copy_range(name, 0, name.len());
        assert(wallet_name@ =~= "bench-wallet".spec_bytes());
        proof {
            encode_utf8_valid_utf8("bench-wallet"@);
        }
        match wallet_pda(name) {
            None => None,
            Some((wallet, _)) => Some(
                WalletSetup {
                    creator,
                    proposer: ed25519_keypair_from_label("bench-proposer"),
                    approver: ed25519_keypair_from_label("bench-approver"),
                    wallet,
                    wallet_name,
                },
            ),
        }
    }

    /// The wallet's name as text.
    pub fn wallet_name_str(&self) -> (r: &str)
        requires
            self.wf(),
        ensures
            r.spec_bytes() == self.wallet_name@,
    {
        match utf8_text(self.wallet_name.as_slice()) {
            Some(text) => text,
            None => "",
        }
    }

    /// What a member signs to propose, approve or cancel the removal of an
    /// intent as the wallet's first proposal.
    pub open spec fn remove_message(&self, action: &str, target_intent_index: u8) -> Seq<u8> {
        offchain_message(
            message_text(
                ContextView {
                    expiry: DEFAULT_EXPIRY,
                    action: action.spec_bytes(),
                    wallet_name: self.wallet_name@,
                    proposal_index: 0,
                },
                remove_intent_text(target_intent_index),
            ),
        )
    }

    /// The instruction that creates the wallet.
    pub open spec fn create_step(&self, kind: ProgramKind) -> Option<InstructionView> {
        match create_wallet_accounts(self.creator@, self.wallet_name@) {
            None => None,
            Some(metas) => Some(
                InstructionView {
                    data: discriminator_bytes(kind, "create_wallet") + self.create_args(kind),
                    metas,
                    creator_signs: true,
                },
            ),
        }
    }

    /// The arguments of the wallet's creation: one proposer and one approver,
    /// both thresholds one, and no timelock.
    pub open spec fn create_args(&self, kind: ProgramKind) -> Seq<u8> {
        create_wallet_args(
            kind,
            1,
            1,
            0,
            self.wallet_name@,
            seq![ed25519_public_key(self.proposer.seed@)],
            seq![ed25519_public_key(self.approver.seed@)],
        )
    }

    /// The instruction that proposes to remove an intent.
    pub open spec fn propose_step(
        &self,
        kind: ProgramKind,
        intent: Seq<u8>,
        proposal: Seq<u8>,
        target_intent_index: u8,
    ) -> InstructionView {
        InstructionView {
            data: discriminator_bytes(kind, "propose") + propose_args(
                kind,
                0,
                DEFAULT_EXPIRY,
                ed25519_public_key(self.proposer.seed@),
                ed25519_signature(
                    self.proposer.seed@,
                    self.remove_message("propose", target_intent_index),
                ),
                seq![target_intent_index],
            ),
            metas: propose_list(self.creator@, self.wallet@, intent, proposal),
            creator_signs: true,
        }
    }

    /// The instruction that approves the removal.
    pub open spec fn approve_step(
        &self,
        kind: ProgramKind,
        intent: Seq<u8>,
        proposal: Seq<u8>,
        target_intent_index: u8,
    ) -> InstructionView {
        InstructionView {
            data: discriminator_bytes(kind, "approve") + vote_args(
                DEFAULT_EXPIRY,
                0,
                ed25519_signature(
                    self.approver.seed@,
                    self.remove_message("approve", target_intent_index),
                ),
            ),
            metas: vote_list(self.wallet@, intent, proposal),
            creator_signs: false,
        }
    }

    /// The instruction that cancels the removal.
    pub open spec fn cancel_step(
        &self,
        kind: ProgramKind,
        intent: Seq<u8>,
        proposal: Seq<u8>,
        target_intent_index: u8,
    ) -> InstructionView {
        InstructionView {
            data: discriminator_bytes(kind, "cancel") + vote_args(
                DEFAULT_EXPIRY,
                0,
                ed25519_signature(
                    self.approver.seed@,
                    self.remove_message("cancel", target_intent_index),
                ),
            ),
            metas: vote_list(self.wallet@, intent, proposal),
            creator_signs: false,
        }
    }

    /// The instruction that executes the removal, with the target intent as
    /// remaining account.
    pub open spec fn execute_step(
        &self,
        kind: ProgramKind,
        intent: Seq<u8>,
        proposal: Seq<u8>,
        target_intent_index: u8,
    ) -> Option<InstructionView> {
        match (
            address_of(intent_seeds(self.wallet@, target_intent_index)),
            address_of(vault_seeds(self.wallet@)),
        ) {
            (Some(target), Some(vault)) => Some(
                InstructionView {
                    data: discriminator_bytes(kind, "execute"),
                    metas: execute_list(
                        self.wallet@,
                        vault,
                        intent,
                        proposal,
                        seq![writable(target, false)],
                    ),
                    creator_signs: false,
                },
            ),
            _ => None,
        }
    }

    /// The instruction that closes the proposal's account.
    pub open spec fn cleanup_step(&self, kind: ProgramKind, proposal: Seq<u8>) -> InstructionView {
        InstructionView {
            data: discriminator_bytes(kind, "cleanup_proposal"),
            metas: cleanup_list(proposal, self.creator@),
            creator_signs: false,
        }
    }

    /// The addresses of the intent that removes intents and of its first
    /// proposal, where they can be derived.
    pub open spec fn removal(&self) -> Option<(Seq<u8>, Seq<u8>)> {
        match address_of(intent_seeds(self.wallet@, 1)) {
            None => None,
            Some(intent) => match address_of(proposal_seeds(intent, 0)) {
                None => None,
                Some(proposal) => Some((intent, proposal)),
            },
        }
    }
}

/// Create a wallet with one proposer and one approver, single-signer threshold.
pub fn setup_wallet(kind: ProgramKind, setup: &WalletSetup) -> (r: Option<BenchInstruction>)
    ensures
        is_step(r, setup.create_step(kind)),
{
    let metas = match create_wallet_metas(setup.creator, setup.wallet_name.as_slice()) {
        Some(metas) => metas,
        None => {
            return None;
        },
    };
    let proposers: [[u8; 32]; 1] = [ed25519_pubkey(&setup.proposer)];
    let approvers: [[u8; 32]; 1] = [ed25519_pubkey(&setup.approver)];
    proof {
        assert(key_views(proposers@) =~= seq![ed25519_public_key(setup.proposer.seed@)]);
        assert(key_views(approvers@) =~= seq![ed25519_public_key(setup.approver.seed@)]);
    }
    let data = build_create_wallet_data(
        kind,
        1,
        1,
        0,
        setup.wallet_name.as_slice(),
        &proposers,
        &approvers,
    );
    Some(BenchInstruction { data, metas, creator_signs: true })
}

/// Propose removing intent index `target_intent_index`. Returns the address of
/// the intent and of the proposal, the proposal's parameters, and the
/// instruction.
pub fn setup_proposed_remove_intent(
    kind: ProgramKind,
    setup: &WalletSetup,
    target_intent_index: u8,
) -> (r: Option<(Address, Address, Vec<u8>, BenchInstruction)>)
    requires
        setup.wf(),
    ensures
        match setup.removal() {
            None => r is None,
            Some((intent, proposal)) => r matches Some((i, p, params_data, instruction)) && {
                &&& i@ == intent
                &&& p@ == proposal
                &&& params_data@ == seq![target_intent_index]
                &&& instruction@ == setup.propose_step(
                    kind,
                    intent,
                    proposal,
                    target_intent_index,
                )
            },
        },
{
    // We propose against the RemoveIntent meta-intent (index 1).
    let remove_intent = match intent_pda(&setup.wallet, 1) {
        Some(intent) => intent,
        None => {
            return None;
        },
    };
    let proposal = match proposal_pda(&remove_intent, 0) {
        Some(proposal) => proposal,
        None => {
            return None;
        },
    };
    let params_data: Vec<u8> = vec![target_intent_index];
    assert(params_data@ =~= seq![target_intent_index]);
    let msg = remove_intent_msg(
        "propose",
        DEFAULT_EXPIRY,
        setup.wallet_name_str(),
        0,
        target_intent_index,
    );
    let signature = sign_message(&setup.proposer, msg.as_slice());
    let metas = match propose_metas(setup.creator, setup.wallet, remove_intent, 0) {
        Some(metas) => metas,
        None => {
            return None;
        },
    };
    let data = build_propose_data(
        kind,
        0,
        DEFAULT_EXPIRY,
        &ed25519_pubkey(&setup.proposer),
        &signature,
        params_data.as_slice(),
    );
    Some((remove_intent, proposal, params_data, BenchInstruction { data, metas, creator_signs: true }))
}

/// Approve an existing proposal.
pub fn setup_approved(
    kind: ProgramKind,
    setup: &WalletSetup,
    intent: Address,
    proposal: Address,
    target_intent_index: u8,
) -> (r: BenchInstruction)
    requires
        setup.wf(),
    ensures
        r@ == setup.approve_step(kind, intent@, proposal@, target_intent_index),
{
    let msg = remove_intent_msg(
        "approve",
        DEFAULT_EXPIRY,
        setup.wallet_name_str(),
        0,
        target_intent_index,
    );
    let signature = sign_message(&setup.approver, msg.as_slice());
    let metas = approve_metas(setup.wallet, intent, proposal);
    let data = build_approve_data(kind, DEFAULT_EXPIRY, 0, &signature);
    BenchInstruction { data, metas, creator_signs: false }
}

/// Execute an approved RemoveIntent proposal (needs the target intent as remaining).
pub fn setup_executed_remove(
    kind: ProgramKind,
    setup: &WalletSetup,
    intent: Address,
    proposal: Address,
    target_intent_index: u8,
) -> (r: Option<BenchInstruction>)
    ensures
        is_step(r, setup.execute_step(kind, intent@, proposal@, target_intent_index)),
{
    let target = match intent_pda(&setup.wallet, target_intent_index) {
        Some(target) => target,
        None => {
            return None;
        },
    };
    let remaining: Vec<AccountMeta> = vec![AccountMeta::new(target, false)];
    assert(meta_views(remaining@) =~= seq![writable(target@, false)]);
    let metas = match execute_metas(setup.wallet, intent, proposal, remaining) {
        Some(metas) => metas,
        None => {
            return None;
        },
    };
    let data = build_execute_data(kind);
    Some(BenchInstruction { data, metas, creator_signs: false })
}

/// Measures the creation of a wallet.
pub fn case_create_wallet(kind: ProgramKind, setup: &WalletSetup) -> (r: Option<BenchCase>)
    ensures
        is_case(r, setup.create_wallet_case(kind)),
{
    match setup_wallet(kind, setup) {
        Some(measured) => {
            let steps: Vec<BenchInstruction> = Vec::new();
            assert(steps@.map_values(|i: BenchInstruction| i@) =~= Seq::empty());
            Some(BenchCase { steps, measured })
        },
        None => None,
    }
}

impl WalletSetup {
    /// The case of a wallet's creation.
    pub open spec fn create_wallet_case(&self, kind: ProgramKind) -> Option<CaseView> {
        match self.create_step(kind) {
            Some(measured) => Some(CaseView { steps: Seq::empty(), measured }),
            None => None,
        }
    }

    /// The case of a proposal.
    pub open spec fn propose_case(&self, kind: ProgramKind) -> Option<CaseView> {
        match (self.create_step(kind), self.removal()) {
            (Some(create), Some((intent, proposal))) => Some(
                CaseView {
                    steps: seq![create],
                    measured: self.propose_step(kind, intent, proposal, TARGET_INTENT_INDEX),
                },
            ),
            _ => None,
        }
    }

    /// The case of an approval.
    pub open spec fn approve_case(&self, kind: ProgramKind) -> Option<CaseView> {
        match (self.propose_case(kind), self.removal()) {
            (Some(before), Some((intent, proposal))) => Some(
                CaseView {
                    steps: before.steps.push(before.measured),
                    measured: self.approve_step(kind, intent, proposal, TARGET_INTENT_INDEX),
                },
            ),
            _ => None,
        }
    }

    /// The case of a cancellation.
    pub open spec fn cancel_case(&self, kind: ProgramKind) -> Option<CaseView> {
        match (self.propose_case(kind), self.removal()) {
            (Some(before), Some((intent, proposal))) => Some(
                CaseView {
                    steps: before.steps.push(before.measured),
                    measured: self.cancel_step(kind, intent, proposal, TARGET_INTENT_INDEX),
                },
            ),
            _ => None,
        }
    }

    /// The case of an execution.
    pub open spec fn execute_case(&self, kind: ProgramKind) -> Option<CaseView> {
        match (self.approve_case(kind), self.removal()) {
            (Some(before), Some((intent, proposal))) => match self.execute_step(
                kind,
                intent,
                proposal,
                TARGET_INTENT_INDEX,
            ) {
                Some(measured) => Some(
                    CaseView { steps: before.steps.push(before.measured), measured },
                ),
                None => None,
            },
            _ => None,
        }
    }

    /// The case of a cleanup.
    pub open spec fn cleanup_case(&self, kind: ProgramKind) -> Option<CaseView> {
        match (self.execute_case(kind), self.removal()) {
            (Some(before), Some((_, proposal))) => Some(
                CaseView {
                    steps: before.steps.push(before.measured),
                    measured: self.cleanup_step(kind, proposal),
                },
            ),
            _ => None,
        }
    }
}

/// A case that runs another first.
fn case_after(before: BenchCase, measured: BenchInstruction) -> (r: BenchCase)
    ensures
        r@ == (CaseView { steps: before@.steps.push(before@.measured), measured: measured@ }),
{
    let ghost first = before@;
    let mut steps = before.steps;
    steps.push(before.measured);
    assert(steps@.map_values(|i: BenchInstruction| i@) =~= first.steps.push(first.measured));
    BenchCase { steps, measured }
}

/// Measures a proposal to remove an intent.
pub fn case_propose(kind: ProgramKind, setup: &WalletSetup) -> (r: Option<BenchCase>)
    requires
        setup.wf(),
    ensures
        is_case(r, setup.propose_case(kind)),
{
    let create = match setup_wallet(kind, setup) {
        Some(create) => create,
        None => {
            return None;
        },
    };
    match setup_proposed_remove_intent(kind, setup, TARGET_INTENT_INDEX) {
        Some((_, _, _, measured)) => {
            let steps: Vec<BenchInstruction> = vec![create];
            assert(steps@.map_values(|i: BenchInstruction| i@) =~= seq![create@]);
            Some(BenchCase { steps, measured })
        },
        None => None,
    }
}

/// The addresses of the intent that removes intents and of its first proposal.
fn removal_addresses(setup: &WalletSetup) -> (r: Option<(Address, Address)>)
    ensures
        match setup.removal() {
            Some((intent, proposal)) => r is Some && (r->0).0@ == intent && (r->0).1@ == proposal,
            None => r is None,
        },
{
    match intent_pda(&setup.wallet, 1) {
        Some(intent) => match proposal_pda(&intent, 0) {
            Some(proposal) => Some((intent, proposal)),
            None => None,
        },
        None => None,
    }
}

/// Measures an approval.
pub fn case_approve(kind: ProgramKind, setup: &WalletSetup) -> (r: Option<BenchCase>)
    requires
        setup.wf(),
    ensures
        is_case(r, setup.approve_case(kind)),
{
    match (case_propose(kind, setup), removal_addresses(setup)) {
        (Some(before), Some((intent, proposal))) => {
            let measured = setup_approved(kind, setup, intent, proposal, TARGET_INTENT_INDEX);
            Some(case_after(before, measured))
        },
        _ => None,
    }
}

/// Measures a cancellation.
pub fn case_cancel(kind: ProgramKind, setup: &WalletSetup) -> (r: Option<BenchCase>)
    requires
        setup.wf(),
    ensures
        is_case(r, setup.cancel_case(kind)),
{
    match (case_propose(kind, setup), removal_addresses(setup)) {
        (Some(before), Some((intent, proposal))) => {
            let msg = remove_intent_msg(
                "cancel",
                DEFAULT_EXPIRY,
                setup.wallet_name_str(),
                0,
                TARGET_INTENT_INDEX,
            );
            let signature = sign_message(&setup.approver, msg.as_slice());
            let measured = BenchInstruction {
                data: build_cancel_data(kind, DEFAULT_EXPIRY, 0, &signature),
                metas: cancel_metas(setup.wallet, intent, proposal),
                creator_signs: false,
            };
            Some(case_after(before, measured))
        },
        _ => None,
    }
}

/// Measures an execution.
pub fn case_execute(kind: ProgramKind, setup: &WalletSetup) -> (r: Option<BenchCase>)
    requires
        setup.wf(),
    ensures
        is_case(r, setup.execute_case(kind)),
{
    match (case_approve(kind, setup), removal_addresses(setup)) {
        (Some(before), Some((intent, proposal))) => {
            match setup_executed_remove(kind, setup, intent, proposal, TARGET_INTENT_INDEX) {
                Some(measured) => Some(case_after(before, measured)),
                None => None,
            }
        },
        _ => None,
    }
}

/// Measures a cleanup.
pub fn case_cleanup(kind: ProgramKind, setup: &WalletSetup) -> (r: Option<BenchCase>)
    requires
        setup.wf(),
    ensures
        is_case(r, setup.cleanup_case(kind)),
{
    match (case_execute(kind, setup), removal_addresses(setup)) {
        (Some(before), Some((_, proposal))) => {
            let measured = BenchInstruction {
                data: build_cleanup_data(kind),
                metas: cleanup_metas(proposal, setup.creator),
                creator_signs: false,
            };
            Some(case_after(before, measured))
        },
        _ => None,
    }
}

} // verus!
