pub mod account;
pub mod error;
pub mod events;
pub mod laws;
pub mod payment;
pub mod raffle;
pub mod selector;

pub use crate::account::AccountId;
pub use crate::error::RaffleError;
pub use crate::events::{RaffleClosed, RaffleCreated, TicketPurchased};
pub use crate::payment::{split_payment, PaymentSplit};
pub use crate::raffle::{Raffle, RaffleInfo, TicketSale};
pub use crate::selector::pick_winner;
