use vstd::prelude::*;
use crate::account::AccountId;

verus! {

/// Notification that a raffle was opened.
#[derive(Clone, Copy, Debug)]
pub struct RaffleCreated {
    pub raffle_id: u32,
    pub organizer: AccountId,
    pub max_tickets: u32,
    pub ticket_price: u128,
}

/// Notification that a ticket was sold; `tickets_sold` is the new count.
#[derive(Clone, Copy, Debug)]
pub struct TicketPurchased {
    pub raffle_id: u32,
    pub buyer: AccountId,
    pub tickets_sold: u32,
}

/// Notification that a raffle was closed and its winner drawn.
#[derive(Clone, Copy, Debug)]
pub struct RaffleClosed {
    pub raffle_id: u32,
    pub winner: AccountId,
}

} // verus!
