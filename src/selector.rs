use vstd::prelude::*;
use crate::account::AccountId;

verus! {

/// Position of the winner among `len` participants for a given entropy value.
pub open spec fn winner_index(entropy: u64, len: nat) -> int
    recommends
        len > 0,
{
    (entropy as int) % (len as int)
}

/// Picks the participant at position `entropy mod len`.
pub fn pick_winner(participants: &Vec<AccountId>, entropy: u64) -> (r: AccountId)
    requires
        participants.len() > 0,
    ensures
        r == participants@[winner_index(entropy, participants@.len())],
{
    let len = participants.len() as u64;
    let index = (entropy % len) as usize;
    participants[index]
}

} // verus!
