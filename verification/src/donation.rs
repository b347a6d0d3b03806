use vstd::prelude::*;

verus! {

/// One recorded value transfer from a donor to a post's author, in the
/// smallest currency unit, with an accompanying message.
pub struct DonationLog {
    pub id: usize,
    pub amount: u128,
    pub donor: String,
    pub created_at: u64,
    pub message: String,
    /// The post the donation was made to (a back-reference, non-owning).
    pub post_id: usize,
}

impl Clone for DonationLog {
    fn clone(&self) -> (r: Self)
        ensures
            r == *self,
    {
        DonationLog {
            id: self.id,
            amount: self.amount,
            donor: self.donor.clone(),
            created_at: self.created_at,
            message: self.message.clone(),
            post_id: self.post_id,
        }
    }
}

/// The sum of the amounts recorded in a donation log.
pub open spec fn donation_sum(s: Seq<DonationLog>) -> int
    decreases s.len(),
{
    if s.len() == 0 {
        0
    } else {
        donation_sum(s.drop_last()) + s.last().amount
    }
}

/// Appending one record raises the sum by exactly its amount.
pub proof fn lemma_donation_sum_push(s: Seq<DonationLog>, d: DonationLog)
    ensures
        donation_sum(s.push(d)) == donation_sum(s) + d.amount,
{
    assert(s.push(d).drop_last() =~= s);
}

} // verus!
