//! Creating wallets.
use crate::accounts::Account;
use crate::address::{address_is_its_bytes, Address};
use crate::crypto::{sha256, sha256_digest, utf8_text};
use crate::error::ProgramError;
use crate::state::intent::{Intent, IntentType};
use crate::state::wallet::ClearWallet;
use vstd::prelude::*;
use vstd::utf8::valid_utf8;

verus! {

/// The accounts of a wallet creation. The payer signs; the wallet and its
/// three default intents are new. `name_hash` is the account at the address
/// sha256(name).
pub struct CreateWallet {
    pub payer: Address,
    pub name_hash: Address,
    pub wallet: Account<ClearWallet>,
    pub add_intent: Account<Intent>,
    pub remove_intent: Account<Intent>,
    pub update_intent: Account<Intent>,
}

/// The arguments of a wallet creation.
pub struct CreateWalletArgs<'a> {
    pub name: &'a [u8],
    pub approval_threshold: u8,
    pub cancellation_threshold: u8,
    pub timelock_seconds: u32,
    pub proposers: &'a [[u8; 32]],
    pub approvers: &'a [[u8; 32]],
}

/// The bumps of the new accounts.
pub struct CreateWalletBumps {
    pub wallet: u8,
    pub add_intent: u8,
    pub remove_intent: u8,
    pub update_intent: u8,
}

/// The addresses with the given bytes.
pub open spec fn address_list(keys: Seq<[u8; 32]>) -> Seq<Address> {
    keys.map_values(|key: [u8; 32]| Address { bytes: key })
}

/// Makes addresses of bytes.
fn to_addresses(keys: &[[u8; 32]]) -> (r: Vec<Address>)
    ensures
        r@ == address_list(keys@),
{
    let mut out: Vec<Address> = Vec::new();
    let mut i: usize = 0;
    while i < keys.len()
        invariant
            i <= keys@.len(),
            out@ =~= address_list(keys@).take(i as int),
        decreases keys@.len() - i,
    {
        out.push(Address::new_from_array(keys[i]));
        i = i + 1;
    }
    out
}

impl<'a> CreateWalletArgs<'a> {
    /// Why the arguments are refused. The numbers of proposers and approvers
    /// count modulo 256, and more of them than a list can hold stop the
    /// program.
    pub open spec fn refusal(&self) -> Option<ProgramError> {
        let proposer_count = self.proposers@.len() % 256;
        let approver_count = self.approvers@.len() % 256;
        if proposer_count > 16 || approver_count > 16 || self.approval_threshold == 0
            || self.approval_threshold > approver_count || self.cancellation_threshold == 0
            || self.cancellation_threshold > approver_count || self.name@.len() > 64
            || !valid_utf8(self.name@) {
            Some(ProgramError::InvalidArgument)
        } else if self.proposers@.len() > 16 || self.approvers@.len() > 16 {
            Some(ProgramError::ProgramFailedToComplete)
        } else {
            None
        }
    }

    /// Whether an intent is a default intent for these arguments, made from
    /// an intent account that was `before`.
    pub open spec fn is_default_intent(
        &self,
        after: Account<Intent>,
        before: Account<Intent>,
        wallet: Address,
        intent_index: u8,
        intent_type: IntentType,
        bump: u8,
    ) -> bool {
        &&& after.address == before.address
        &&& after.data == (Intent {
            wallet,
            bump,
            intent_index,
            intent_type,
            approved: 1,
            approval_threshold: self.approval_threshold,
            cancellation_threshold: self.cancellation_threshold,
            timelock_seconds: self.timelock_seconds,
            template_offset: 0,
            template_len: 0,
            active_proposal_count: 0,
            proposers: after.data.proposers,
            approvers: after.data.approvers,
            ..before.data
        })
        &&& after.data.proposers@ == address_list(self.proposers@)
        &&& after.data.approvers@ == address_list(self.approvers@)
    }

    /// Checks the arguments.
    fn check(&self) -> (r: Result<(), ProgramError>)
        ensures
            match self.refusal() {
                Some(e) => r == Err::<(), ProgramError>(e),
                None => r is Ok,
            },
    {
        let proposer_count: usize = self.proposers.len() % 256;
        let approver_count: usize = self.approvers.len() % 256;
        if proposer_count > 16 {
            return Err(ProgramError::InvalidArgument);
        }
        if approver_count > 16 {
            return Err(ProgramError::InvalidArgument);
        }
        if self.approval_threshold == 0 {
            return Err(ProgramError::InvalidArgument);
        }
        if self.approval_threshold as usize > approver_count {
            return Err(ProgramError::InvalidArgument);
        }
        if self.cancellation_threshold == 0 {
            return Err(ProgramError::InvalidArgument);
        }
        if self.cancellation_threshold as usize > approver_count {
            return Err(ProgramError::InvalidArgument);
        }
        if self.name.len() > 64 {
            return Err(ProgramError::InvalidArgument);
        }
        match utf8_text(self.name) {
            Some(_) => {},
            None => {
                return Err(ProgramError::InvalidArgument);
            },
        }
        if self.proposers.len() > 16 || self.approvers.len() > 16 {
            return Err(ProgramError::ProgramFailedToComplete);
        }
        Ok(())
    }

    /// Fills in a default intent.
    fn fill_intent(
        &self,
        intent: &mut Account<Intent>,
        wallet: Address,
        intent_index: u8,
        intent_type: IntentType,
        bump: u8,
    )
        ensures
            self.is_default_intent(
                *final(intent),
                *old(intent),
                wallet,
                intent_index,
                intent_type,
                bump,
            ),
    {
        intent.data.wallet = wallet;
        intent.data.bump = bump;
        intent.data.intent_index = intent_index;
        intent.data.intent_type = intent_type;
        intent.data.approved = 1;
        intent.data.approval_threshold = self.approval_threshold;
        intent.data.cancellation_threshold = self.cancellation_threshold;
        intent.data.timelock_seconds = self.timelock_seconds;
        intent.data.template_offset = 0;
        intent.data.template_len = 0;
        intent.data.active_proposal_count = 0;
        intent.data.proposers = to_addresses(self.proposers);
        intent.data.approvers = to_addresses(self.approvers);
    }
}

impl CreateWallet {
    /// Whether the intent accounts are valid.
    pub open spec fn wf(&self) -> bool {
        self.add_intent.data.wf() && self.remove_intent.data.wf() && self.update_intent.data.wf()
    }

    /// Whether the accounts come from others by a wallet creation: a wallet
    /// with the given name and no proposals yet, and three default intents.
    pub open spec fn created_from(
        &self,
        before: CreateWallet,
        args: CreateWalletArgs<'_>,
        bumps: CreateWalletBumps,
    ) -> bool {
        let wallet = before.wallet.address;
        &&& self.payer == before.payer
        &&& self.name_hash == before.name_hash
        &&& self.wallet.address == wallet
        &&& self.wallet.data == (ClearWallet {
            bump: bumps.wallet,
            proposal_index: 0,
            intent_index: 2,
            name_len: args.name@.len() as u8,
            name: self.wallet.data.name,
        })
        &&& self.wallet.data.name@ == args.name@ + before.wallet.data.name@.skip(
            args.name@.len() as int,
        )
        &&& args.is_default_intent(
            self.add_intent,
            before.add_intent,
            wallet,
            0,
            IntentType::AddIntent,
            bumps.add_intent,
        )
        &&& args.is_default_intent(
            self.remove_intent,
            before.remove_intent,
            wallet,
            1,
            IntentType::RemoveIntent,
            bumps.remove_intent,
        )
        &&& args.is_default_intent(
            self.update_intent,
            before.update_intent,
            wallet,
            2,
            IntentType::UpdateIntent,
            bumps.update_intent,
        )
    }

    /// What a wallet creation does with accounts that were `before`, where
    /// `digest` is the hash of the wallet's name.
    pub open spec fn creation_outcome(
        &self,
        before: CreateWallet,
        args: CreateWalletArgs<'_>,
        bumps: CreateWalletBumps,
        digest: Seq<u8>,
        r: Result<(), ProgramError>,
    ) -> bool {
        if before.name_hash@ != digest {
            r == Err::<(), ProgramError>(ProgramError::InvalidSeeds) && *self == before
        } else {
            match args.refusal() {
                Some(e) => r == Err::<(), ProgramError>(e) && *self == before,
                None => r is Ok && self.created_from(before, args, bumps),
            }
        }
    }

    /// Creates a wallet with three default intents: to add, remove and update
    /// intents.
    pub fn create(&mut self, args: CreateWalletArgs<'_>, bumps: &CreateWalletBumps) -> (r: Result<
        (),
        ProgramError,
    >)
        requires
            old(self).wf(),
        ensures
            final(self).wf(),
            r is Ok ==> final(self).wallet.data.wf(),
            final(self).creation_outcome(*old(self), args, *bumps, sha256_digest(args.name@), r),
    {
        let computed = sha256(args.name);
        self.create_with_hash(args, bumps, &computed)
    }

    /// Creates a wallet, where `computed` is the hash of its name.
    pub fn create_with_hash(
        &mut self,
        args: CreateWalletArgs<'_>,
        bumps: &CreateWalletBumps,
        computed: &[u8; 32],
    ) -> (r: Result<(), ProgramError>)
        requires
            old(self).wf(),
        ensures
            final(self).wf(),
            r is Ok ==> final(self).wallet.data.wf(),
            final(self).creation_outcome(*old(self), args, *bumps, computed@, r),
    {
        let expected = Address::new_from_array(*computed);
        proof {
            address_is_its_bytes(self.name_hash, expected);
        }
        if self.name_hash != expected {
            return Err(ProgramError::InvalidSeeds);
        }
        args.check()?;
        let wallet = self.wallet.address;
        self.wallet.data.bump = bumps.wallet;
        self.wallet.data.proposal_index = 0;
        self.wallet.data.intent_index = 2;
        self.wallet.data.name_len = args.name.len() as u8;
        write_name(&mut self.wallet.data.name, args.name);
        assert(self.wallet.data.name_bytes() =~= args.name@);
        args.fill_intent(
            &mut self.add_intent,
            wallet,
            0,
            IntentType::AddIntent,
            bumps.add_intent,
        );
        args.fill_intent(
            &mut self.remove_intent,
            wallet,
            1,
            IntentType::RemoveIntent,
            bumps.remove_intent,
        );
        args.fill_intent(
            &mut self.update_intent,
            wallet,
            2,
            IntentType::UpdateIntent,
            bumps.update_intent,
        );
        Ok(())
    }
}

/// Writes a name over the front of a buffer.
fn write_name(buffer: &mut [u8; 64], name: &[u8])
    requires
        name@.len() <= 64,
    ensures
        final(buffer)@ == name@ + old(buffer)@.skip(name@.len() as int),
{
    let ghost before = buffer@;
    let mut i: usize = 0;
    while i < name.len()
        invariant
            i <= name@.len() <= 64,
            buffer@.len() == 64,
            before == old(buffer)@,
            buffer@ =~= name@.take(i as int) + before.skip(i as int),
        decreases name@.len() - i,
    {
        buffer[i] = name[i];
        i = i + 1;
    }
    assert(name@.take(i as int) =~= name@);
}

} // verus!
