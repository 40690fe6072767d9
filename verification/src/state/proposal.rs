//! Proposals: requests to run an intent, and the votes on them.
use crate::address::Address;
use crate::state::intent::DISC_LEN;
use vstd::prelude::*;

verus! {

/// How many bytes the fields of a proposal take in its account.
pub const PROPOSAL_SIZE: usize = 3 * 32 + 8 + 1 + 8 + 8 + 1 + 2 + 2 + 32 + (4 + 512);

/// Where `status` stands in the data of a proposal account.
pub const PROPOSAL_STATUS_OFFSET: usize = DISC_LEN + 32 + 32 + 8 + 32;

/// How many bytes of parameters a proposal can hold.
pub const PARAMS_DATA_MAX: usize = 512;

/// How far a proposal has come.
#[derive(Clone, Copy, PartialEq, Eq, Debug, Structural)]
pub enum ProposalStatus {
    Active,
    Approved,
    Executed,
    Cancelled,
}

impl ProposalStatus {
    /// The number that stands for the status in an account.
    pub fn to_u8(self) -> (r: u8)
        ensures
            r == match self {
                ProposalStatus::Active => 0u8,
                ProposalStatus::Approved => 1,
                ProposalStatus::Executed => 2,
                ProposalStatus::Cancelled => 3,
            },
    {
        match self {
            ProposalStatus::Active => 0,
            ProposalStatus::Approved => 1,
            ProposalStatus::Executed => 2,
            ProposalStatus::Cancelled => 3,
        }
    }
}

/// A proposal. Votes are tracked as a bitmap over the intent's approver list:
/// each bit position corresponds to an approver index in the intent.
pub struct Proposal {
    pub wallet: Address,
    pub intent: Address,
    pub proposal_index: u64,
    pub proposer: Address,
    pub status: ProposalStatus,
    pub proposed_at: i64,
    pub approved_at: i64,
    pub bump: u8,
    pub approval_bitmap: u16,
    pub cancellation_bitmap: u16,
    pub rent_refund: Address,
    pub params_data: Vec<u8>,
}

/// Whether a bitmap has a bit set.
pub open spec fn has_bit(bitmap: u16, i: int) -> bool {
    bitmap & (1u16 << (i as u16)) != 0
}

/// The positions of the bits that are set in a bitmap.
pub open spec fn votes(bitmap: u16) -> Set<int> {
    votes_below(bitmap, 16)
}

/// The positions below `k` of the bits that are set in a bitmap.
pub open spec fn votes_below(bitmap: u16, k: int) -> Set<int> {
    Set::new(|i: int| 0 <= i < k && has_bit(bitmap, i))
}

proof fn lemma_votes_below(bitmap: u16, k: int)
    requires
        0 <= k,
    ensures
        votes_below(bitmap, k).finite(),
        votes_below(bitmap, k).len() <= k,
        votes_below(bitmap, k + 1) == if has_bit(bitmap, k) {
            votes_below(bitmap, k).insert(k)
        } else {
            votes_below(bitmap, k)
        },
    decreases k,
{
    if k > 0 {
        lemma_votes_below(bitmap, k - 1);
    } else {
        assert(votes_below(bitmap, 0) =~= Set::empty());
    }
    if has_bit(bitmap, k) {
        assert(votes_below(bitmap, k + 1) =~= votes_below(bitmap, k).insert(k));
    } else {
        assert(votes_below(bitmap, k + 1) =~= votes_below(bitmap, k));
    }
}

/// A bitmap of zero holds no votes.
pub proof fn no_votes()
    ensures
        votes(0) == Set::<int>::empty(),
{
    assert forall|i: int| 0 <= i < 16 implies !has_bit(0, i) by {
        let b = i as u16;
        assert(0u16 & (1u16 << b) == 0) by (bit_vector);
    }
    assert(votes(0) =~= Set::<int>::empty());
}

/// At most sixteen can vote.
pub proof fn votes_are_few(bitmap: u16)
    ensures
        votes(bitmap).finite(),
        votes(bitmap).len() <= 16,
{
    lemma_votes_below(bitmap, 16);
}

/// How many bits are set in a bitmap.
fn count_votes(bitmap: u16) -> (n: u8)
    ensures
        n == votes(bitmap).len(),
        n <= 16,
{
    let mut n: u8 = 0;
    let mut i: u16 = 0;
    assert(votes_below(bitmap, 0) =~= Set::empty());
    while i < 16
        invariant
            i <= 16,
            n <= i,
            n == votes_below(bitmap, i as int).len(),
        decreases 16 - i,
    {
        proof {
            lemma_votes_below(bitmap, i as int);
        }
        if bitmap & (1u16 << i) != 0 {
            n = n + 1;
        }
        i = i + 1;
    }
    n
}

/// A bitmap with one more bit has one more vote.
proof fn lemma_set_bit(bitmap: u16, idx: u8)
    requires
        idx < 16,
    ensures
        votes(bitmap | (1u16 << (idx as u16))) == votes(bitmap).insert(idx as int),
{
    let more = bitmap | (1u16 << (idx as u16));
    assert forall|i: int| 0 <= i < 16 implies has_bit(more, i) == (has_bit(bitmap, i) || i
        == idx) by {
        let a = idx as u16;
        let b = i as u16;
        assert((bitmap | (1u16 << a)) & (1u16 << b) != 0 <==> (bitmap & (1u16 << b) != 0 || a == b))
            by (bit_vector)
            requires
                a < 16,
                b < 16,
        ;
    }
    assert(votes(more) =~= votes(bitmap).insert(idx as int));
}

/// A bitmap without a bit does not have its vote.
proof fn lemma_clear_bit(bitmap: u16, idx: u8)
    requires
        idx < 16,
    ensures
        votes(bitmap & !(1u16 << (idx as u16))) == votes(bitmap).remove(idx as int),
{
    let less = bitmap & !(1u16 << (idx as u16));
    assert forall|i: int| 0 <= i < 16 implies has_bit(less, i) == (has_bit(bitmap, i) && i
        != idx) by {
        let a = idx as u16;
        let b = i as u16;
        assert((bitmap & !(1u16 << a)) & (1u16 << b) != 0 <==> (bitmap & (1u16 << b) != 0 && a
            != b)) by (bit_vector)
            requires
                a < 16,
                b < 16,
        ;
    }
    assert(votes(less) =~= votes(bitmap).remove(idx as int));
}

impl Proposal {
    /// How many bytes a proposal account takes.
    pub const SPACE: usize = DISC_LEN + PROPOSAL_SIZE;

    /// Whether the parameters fit, and nobody both approves and cancels.
    pub open spec fn wf(&self) -> bool {
        &&& self.params_data@.len() <= PARAMS_DATA_MAX
        &&& self.approvals().disjoint(self.cancellations())
    }

    /// The approvers that approve.
    pub open spec fn approvals(&self) -> Set<int> {
        votes(self.approval_bitmap)
    }

    /// The approvers that want to cancel.
    pub open spec fn cancellations(&self) -> Set<int> {
        votes(self.cancellation_bitmap)
    }

    /// Whether the proposal can still be executed or cancelled.
    pub open spec fn is_open(&self) -> bool {
        self.status == ProposalStatus::Active || self.status == ProposalStatus::Approved
    }

    /// How many approve.
    pub fn approval_count(&self) -> (n: u8)
        ensures
            n == self.approvals().len(),
            n <= 16,
    {
        count_votes(self.approval_bitmap)
    }

    /// How many want to cancel.
    pub fn cancellation_count(&self) -> (n: u8)
        ensures
            n == self.cancellations().len(),
            n <= 16,
    {
        count_votes(self.cancellation_bitmap)
    }

    /// Whether the approver with an index approves.
    pub fn has_approved_by_index(&self, idx: u8) -> (r: bool)
        requires
            idx < 16,
        ensures
            r == self.approvals().contains(idx as int),
    {
        self.approval_bitmap & (1u16 << (idx as u16)) != 0
    }

    /// Whether the approver with an index wants to cancel.
    pub fn has_cancelled_by_index(&self, idx: u8) -> (r: bool)
        requires
            idx < 16,
        ensures
            r == self.cancellations().contains(idx as int),
    {
        self.cancellation_bitmap & (1u16 << (idx as u16)) != 0
    }

    /// Takes an approver's approval, in place of a cancellation.
    pub fn set_approval(&mut self, idx: u8)
        requires
            idx < 16,
        ensures
            final(self).approvals() == old(self).approvals().insert(idx as int),
            final(self).cancellations() == old(self).cancellations().remove(idx as int),
            *final(self) == (Proposal {
                approval_bitmap: final(self).approval_bitmap,
                cancellation_bitmap: final(self).cancellation_bitmap,
                ..*old(self)
            }),
    {
        let mask: u16 = 1u16 << (idx as u16);
        proof {
            lemma_clear_bit(self.cancellation_bitmap, idx);
            lemma_set_bit(self.approval_bitmap, idx);
        }
        self.cancellation_bitmap = self.cancellation_bitmap & !mask;
        self.approval_bitmap = self.approval_bitmap | mask;
    }

    /// Takes an approver's cancellation, in place of an approval.
    pub fn set_cancellation(&mut self, idx: u8)
        requires
            idx < 16,
        ensures
            final(self).cancellations() == old(self).cancellations().insert(idx as int),
            final(self).approvals() == old(self).approvals().remove(idx as int),
            *final(self) == (Proposal {
                approval_bitmap: final(self).approval_bitmap,
                cancellation_bitmap: final(self).cancellation_bitmap,
                ..*old(self)
            }),
    {
        let mask: u16 = 1u16 << (idx as u16);
        proof {
            lemma_clear_bit(self.approval_bitmap, idx);
            lemma_set_bit(self.cancellation_bitmap, idx);
        }
        self.approval_bitmap = self.approval_bitmap & !mask;
        self.cancellation_bitmap = self.cancellation_bitmap | mask;
    }
}

/// Two bitmaps with the same votes are the same bitmap.
pub proof fn bitmap_is_its_votes(a: u16, b: u16)
    requires
        votes(a) == votes(b),
    ensures
        a == b,
{
    assert forall|i: u16| 0 <= i < 16 implies (a & (1u16 << i) != 0) == (b & (1u16 << i) != 0) by {
        assert(votes(a).contains(i as int) == votes(b).contains(i as int));
        assert(votes(a).contains(i as int) == has_bit(a, i as int));
        assert(votes(b).contains(i as int) == has_bit(b, i as int));
    }
    assert(a == b) by (bit_vector)
        requires
            (a & (1u16 << 0u16) != 0) == (b & (1u16 << 0u16) != 0),
            (a & (1u16 << 1u16) != 0) == (b & (1u16 << 1u16) != 0),
            (a & (1u16 << 2u16) != 0) == (b & (1u16 << 2u16) != 0),
            (a & (1u16 << 3u16) != 0) == (b & (1u16 << 3u16) != 0),
            (a & (1u16 << 4u16) != 0) == (b & (1u16 << 4u16) != 0),
            (a & (1u16 << 5u16) != 0) == (b & (1u16 << 5u16) != 0),
            (a & (1u16 << 6u16) != 0) == (b & (1u16 << 6u16) != 0),
            (a & (1u16 << 7u16) != 0) == (b & (1u16 << 7u16) != 0),
            (a & (1u16 << 8u16) != 0) == (b & (1u16 << 8u16) != 0),
            (a & (1u16 << 9u16) != 0) == (b & (1u16 << 9u16) != 0),
            (a & (1u16 << 10u16) != 0) == (b & (1u16 << 10u16) != 0),
            (a & (1u16 << 11u16) != 0) == (b & (1u16 << 11u16) != 0),
            (a & (1u16 << 12u16) != 0) == (b & (1u16 << 12u16) != 0),
            (a & (1u16 << 13u16) != 0) == (b & (1u16 << 13u16) != 0),
            (a & (1u16 << 14u16) != 0) == (b & (1u16 << 14u16) != 0),
            (a & (1u16 << 15u16) != 0) == (b & (1u16 << 15u16) != 0),
    ;
}

/// The votes of a bitmap are its bits: approver `i` has voted exactly where the
/// bit with number `i`, counted from the lowest, is one, and only the numbers 0
/// to 15 vote.
pub proof fn votes_are_bits(bitmap: u16, i: u16, j: int)
    requires
        i < 16,
        j < 0 || j >= 16,
    ensures
        votes(bitmap).contains(i as int) <==> (bitmap >> i) & 1u16 == 1u16,
        !votes(bitmap).contains(j),
{
    assert(bitmap & (1u16 << i) != 0 <==> (bitmap >> i) & 1u16 == 1u16) by (bit_vector)
        requires
            i < 16,
    ;
}

/// There are as many votes as bits that are one.
pub proof fn votes_are_counted(bitmap: u16)
    ensures
        votes(bitmap).len() == ((bitmap >> 0) & 1) + ((bitmap >> 1) & 1) + ((bitmap >> 2) & 1) + ((
        bitmap >> 3) & 1) + ((bitmap >> 4) & 1) + ((bitmap >> 5) & 1) + ((bitmap >> 6) & 1) + ((
        bitmap >> 7) & 1) + ((bitmap >> 8) & 1) + ((bitmap >> 9) & 1) + ((bitmap >> 10) & 1) + ((
        bitmap >> 11) & 1) + ((bitmap >> 12) & 1) + ((bitmap >> 13) & 1) + ((bitmap >> 14) & 1) + ((
        bitmap >> 15) & 1),
{
    assert(votes_below(bitmap, 0) =~= Set::empty());
    lemma_count_bit(bitmap, 0);
    lemma_count_bit(bitmap, 1);
    lemma_count_bit(bitmap, 2);
    lemma_count_bit(bitmap, 3);
    lemma_count_bit(bitmap, 4);
    lemma_count_bit(bitmap, 5);
    lemma_count_bit(bitmap, 6);
    lemma_count_bit(bitmap, 7);
    lemma_count_bit(bitmap, 8);
    lemma_count_bit(bitmap, 9);
    lemma_count_bit(bitmap, 10);
    lemma_count_bit(bitmap, 11);
    lemma_count_bit(bitmap, 12);
    lemma_count_bit(bitmap, 13);
    lemma_count_bit(bitmap, 14);
    lemma_count_bit(bitmap, 15);
}

proof fn lemma_count_bit(bitmap: u16, k: u16)
    requires
        k < 16,
    ensures
        votes_below(bitmap, k + 1).len() == votes_below(bitmap, k as int).len() + ((bitmap >> k)
            & 1),
{
    lemma_votes_below(bitmap, k as int);
    assert(bitmap & (1u16 << k) != 0 <==> (bitmap >> k) & 1u16 == 1u16) by (bit_vector)
        requires
            k < 16,
    ;
    assert((bitmap >> k) & 1u16 == 0 || (bitmap >> k) & 1u16 == 1u16) by (bit_vector);
}

/// One more vote sets its bit and no other.
pub proof fn a_vote_sets_its_bit(before: u16, after: u16, index: u8)
    requires
        index < 16,
        votes(after) == votes(before).insert(index as int),
    ensures
        after == before | (1u16 << (index as u16)),
{
    lemma_set_bit(before, index);
    bitmap_is_its_votes(after, before | (1u16 << (index as u16)));
}

/// One vote less clears its bit and no other.
pub proof fn a_vote_taken_back_clears_its_bit(before: u16, after: u16, index: u8)
    requires
        index < 16,
        votes(after) == votes(before).remove(index as int),
    ensures
        after == before & !(1u16 << (index as u16)),
{
    lemma_clear_bit(before, index);
    bitmap_is_its_votes(after, before & !(1u16 << (index as u16)));
}

} // verus!
