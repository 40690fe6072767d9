//! Wallets.
use crate::crypto::utf8_text;
use crate::state::intent::DISC_LEN;
use vstd::prelude::*;
use vstd::slice::slice_subrange;
use vstd::string::StringSliceAdditionalSpecFns;
use vstd::utf8::valid_utf8;

verus! {

/// How many bytes the fields of a wallet take in its account.
pub const WALLET_SIZE: usize = 1 + 8 + 1 + 1 + 64;

/// A wallet: its name, and how many proposals and intents it has had.
pub struct ClearWallet {
    pub bump: u8,
    /// The index of the next proposal.
    pub proposal_index: u64,
    /// The index of the latest intent.
    pub intent_index: u8,
    pub name_len: u8,
    pub name: [u8; 64],
}

impl ClearWallet {
    /// How many bytes a wallet account takes.
    pub const SPACE: usize = DISC_LEN + WALLET_SIZE;

    /// The bytes of the name.
    pub open spec fn name_bytes(&self) -> Seq<u8> {
        self.name@.take(self.name_len as int)
    }

    /// Whether the name fits and is text.
    pub open spec fn wf(&self) -> bool {
        self.name_len <= 64 && valid_utf8(self.name_bytes())
    }

    /// The name, which was validated as UTF-8 on creation.
    pub fn name(&self) -> (r: &str)
        requires
            self.wf(),
        ensures
            r.spec_bytes() == self.name_bytes(),
    {
        let bytes = slice_subrange(&self.name, 0, self.name_len as usize);
        assert(bytes@ =~= self.name_bytes());
        match utf8_text(bytes) {
            Some(text) => text,
            None => "",
        }
    }
}

} // verus!
