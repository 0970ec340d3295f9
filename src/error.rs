use vstd::prelude::*;

verus! {

/// Every way a raffle operation can fail.
#[derive(Clone, Copy, Debug, PartialEq, Eq, Structural)]
pub enum RaffleError {
    InvalidTicketCount,
    InvalidTicketPrice,
    InvalidFeePercent,
    InvalidStakePercent,
    RaffleNotFound,
    RaffleClosed,
    NoTicketsAvailable,
    AlreadyParticipating,
    NotOrganizer,
    NoTicketsSold,
    NotWinner,
    TransferFailed,
}

} // verus!
