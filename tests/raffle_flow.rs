use raffle::{AccountId, Raffle, RaffleError};

const PRICE: u128 = 1_000_000_000;

fn acct(n: u8) -> AccountId {
    AccountId([n; 32])
}

fn platform() -> Raffle {
    Raffle::new(acct(200), acct(201))
}

#[test]
fn scenario_full_lifecycle() {
    let organizer = acct(1);
    let a = acct(2);
    let mut r = platform();
    assert_eq!(r.create_raffle(organizer, 10, PRICE, 10, 20), Ok(1));

    let sale = r.buy_ticket(1, a, PRICE).unwrap();
    assert_eq!(sale.split.fee, 100_000_000);
    assert_eq!(sale.split.organizer_share, 700_000_000);
    assert_eq!(sale.split.stake, 200_000_000);
    assert_eq!(sale.fee_account, acct(201));
    assert_eq!(sale.organizer, organizer);
    assert_eq!(sale.event.raffle_id, 1);
    assert_eq!(sale.event.buyer, a);
    assert_eq!(sale.event.tickets_sold, 1);
    let info = r.get_raffle_info(1).unwrap();
    assert_eq!(info.total_stake, 200_000_000);
    assert_eq!(info.tickets_sold, 1);

    assert_eq!(r.buy_ticket(1, a, PRICE).map(|_| ()), Err(RaffleError::AlreadyParticipating));

    let closed = r.close_raffle(1, organizer, 987_654_321).unwrap();
    assert_eq!(closed.raffle_id, 1);
    assert_eq!(closed.winner, a);
    let info = r.get_raffle_info(1).unwrap();
    assert_eq!(info.winner, Some(a));
    assert!(info.is_closed);

    assert_eq!(r.claim_prize(1, a), Ok(200_000_000));
    assert_eq!(r.get_raffle_info(1).unwrap().total_stake, 0);
    assert_eq!(r.claim_prize(1, a), Ok(0));
}

#[test]
fn valid_creation_starts_empty() {
    let mut r = platform();
    assert_eq!(r.create_raffle(acct(1), 10000, u128::MAX, 20, 50), Ok(1));
    assert_eq!(r.create_raffle(acct(2), 1, PRICE, 0, 0), Ok(2));
    assert_eq!(r.next_raffle_id(), 3);
    for id in [1u32, 2] {
        let info = r.get_raffle_info(id).unwrap();
        assert_eq!(info.tickets_sold, 0);
        assert_eq!(info.winner, None);
        assert!(!info.is_closed);
        assert_eq!(info.total_stake, 0);
        assert!(r.get_participants(id).is_empty());
    }
    let info = r.get_raffle_info(2).unwrap();
    assert_eq!(info.organizer, acct(2));
    assert_eq!(info.max_tickets, 1);
    assert_eq!(info.ticket_price, PRICE);
}

#[test]
fn creation_errors() {
    let mut r = platform();
    let o = acct(1);
    assert_eq!(r.create_raffle(o, 0, PRICE, 10, 20), Err(RaffleError::InvalidTicketCount));
    assert_eq!(r.create_raffle(o, 10001, PRICE, 10, 20), Err(RaffleError::InvalidTicketCount));
    assert_eq!(r.create_raffle(o, 10, PRICE - 1, 10, 20), Err(RaffleError::InvalidTicketPrice));
    assert_eq!(r.create_raffle(o, 10, PRICE, 21, 20), Err(RaffleError::InvalidFeePercent));
    assert_eq!(r.create_raffle(o, 10, PRICE, 10, 51), Err(RaffleError::InvalidStakePercent));
    assert_eq!(r.create_raffle(o, 0, 0, 255, 255), Err(RaffleError::InvalidTicketCount));
    assert_eq!(r.next_raffle_id(), 1);
    assert!(r.get_raffle_info(1).is_none());
}

#[test]
fn unknown_raffle_is_not_found() {
    let mut r = platform();
    assert_eq!(r.buy_ticket(1, acct(2), PRICE).map(|_| ()), Err(RaffleError::RaffleNotFound));
    assert_eq!(r.close_raffle(0, acct(1), 0).map(|_| ()), Err(RaffleError::RaffleNotFound));
    assert_eq!(r.claim_prize(7, acct(1)), Err(RaffleError::RaffleNotFound));
    assert!(r.get_raffle_info(0).is_none());
    assert!(r.get_participants(1).is_empty());
}

#[test]
fn wrong_payment_is_rejected() {
    let mut r = platform();
    r.create_raffle(acct(1), 5, PRICE, 10, 20).unwrap();
    assert_eq!(r.buy_ticket(1, acct(2), PRICE - 1).map(|_| ()), Err(RaffleError::InvalidTicketPrice));
    assert_eq!(r.buy_ticket(1, acct(2), PRICE + 1).map(|_| ()), Err(RaffleError::InvalidTicketPrice));
    assert_eq!(r.get_raffle_info(1).unwrap().tickets_sold, 0);
}

#[test]
fn sold_out_after_max_tickets() {
    let mut r = platform();
    r.create_raffle(acct(1), 3, PRICE, 10, 20).unwrap();
    for n in 10u8..13 {
        assert!(r.buy_ticket(1, acct(n), PRICE).is_ok());
    }
    assert_eq!(r.buy_ticket(1, acct(50), PRICE).map(|_| ()), Err(RaffleError::NoTicketsAvailable));
    assert_eq!(r.get_participants(1), vec![acct(10), acct(11), acct(12)]);
    let info = r.get_raffle_info(1).unwrap();
    assert_eq!(info.tickets_sold, 3);
    assert_eq!(info.total_stake, 600_000_000);
}

#[test]
fn close_errors() {
    let mut r = platform();
    let o = acct(1);
    r.create_raffle(o, 3, PRICE, 10, 20).unwrap();
    assert_eq!(r.close_raffle(1, o, 5).map(|_| ()), Err(RaffleError::NoTicketsSold));
    assert_eq!(r.close_raffle(1, acct(9), 5).map(|_| ()), Err(RaffleError::NotOrganizer));
    r.buy_ticket(1, acct(2), PRICE).unwrap();
    assert_eq!(r.close_raffle(1, acct(9), 5).map(|_| ()), Err(RaffleError::NotOrganizer));
    assert!(r.close_raffle(1, o, 5).is_ok());
    assert_eq!(r.close_raffle(1, o, 5).map(|_| ()), Err(RaffleError::RaffleClosed));
    assert_eq!(r.buy_ticket(1, acct(3), PRICE).map(|_| ()), Err(RaffleError::RaffleClosed));
}

#[test]
fn winner_index_follows_entropy() {
    let mut r = platform();
    let o = acct(1);
    r.create_raffle(o, 5, PRICE, 0, 50).unwrap();
    for n in 10u8..13 {
        r.buy_ticket(1, acct(n), PRICE).unwrap();
    }
    let closed = r.close_raffle(1, o, 7).unwrap();
    assert_eq!(closed.winner, acct(11));
    assert_eq!(r.get_raffle_info(1).unwrap().winner, Some(acct(11)));
}

#[test]
fn claim_rules() {
    let mut r = platform();
    let o = acct(1);
    r.create_raffle(o, 5, PRICE, 0, 50).unwrap();
    r.buy_ticket(1, acct(10), PRICE).unwrap();
    r.buy_ticket(1, acct(11), PRICE).unwrap();
    assert_eq!(r.claim_prize(1, acct(10)), Err(RaffleError::RaffleClosed));
    r.close_raffle(1, o, 2).unwrap();
    assert_eq!(r.claim_prize(1, acct(11)), Err(RaffleError::NotWinner));
    assert_eq!(r.claim_prize(1, o), Err(RaffleError::NotWinner));
    assert_eq!(r.claim_prize(1, acct(10)), Ok(1_000_000_000));
    assert_eq!(r.get_raffle_info(1).unwrap().total_stake, 0);
    assert_eq!(r.claim_prize(1, acct(10)), Ok(0));
}

#[test]
fn zero_fee_sale_sends_all_but_stake_to_organizer() {
    let mut r = platform();
    r.create_raffle(acct(1), 2, 3_000_000_001, 0, 50).unwrap();
    let sale = r.buy_ticket(1, acct(5), 3_000_000_001).unwrap();
    assert_eq!(sale.split.fee, 0);
    assert_eq!(sale.split.stake, 1_500_000_000);
    assert_eq!(sale.split.organizer_share, 1_500_000_001);
}

#[test]
fn platform_accounts_are_kept() {
    let r = platform();
    assert_eq!(r.platform_authority(), acct(200));
    assert_eq!(r.platform_fee_account(), acct(201));
    assert_eq!(r.next_raffle_id(), 1);
}
