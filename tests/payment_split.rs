use raffle::{pick_winner, split_payment, AccountId};

#[test]
fn split_of_round_amount() {
    let s = split_payment(1_000_000_000, 10, 20);
    assert_eq!(s.fee, 100_000_000);
    assert_eq!(s.stake, 200_000_000);
    assert_eq!(s.organizer_share, 700_000_000);
}

#[test]
fn split_rounds_down_and_loses_nothing() {
    let s = split_payment(199, 20, 50);
    assert_eq!(s.fee, 39);
    assert_eq!(s.stake, 99);
    assert_eq!(s.organizer_share, 61);
    assert_eq!(s.fee + s.stake + s.organizer_share, 199);
}

#[test]
fn split_of_largest_amount_does_not_overflow() {
    let paid = u128::MAX;
    let s = split_payment(paid, 20, 50);
    assert_eq!(s.fee, paid / 100 * 20 + (paid % 100) * 20 / 100);
    assert_eq!(s.stake, paid / 2);
    assert_eq!(s.fee + s.stake + s.organizer_share, paid);
}

#[test]
fn split_with_no_fee_or_stake() {
    let s = split_payment(12345, 0, 0);
    assert_eq!((s.fee, s.stake, s.organizer_share), (0, 0, 12345));
}

#[test]
fn pick_winner_uses_entropy_modulo_length() {
    let parts = vec![AccountId([1; 32]), AccountId([2; 32]), AccountId([3; 32])];
    assert_eq!(pick_winner(&parts, 0), AccountId([1; 32]));
    assert_eq!(pick_winner(&parts, 5), AccountId([3; 32]));
    assert_eq!(pick_winner(&parts, u64::MAX), AccountId([1; 32]));
    assert_eq!(pick_winner(&vec![AccountId([9; 32])], 123456789), AccountId([9; 32]));
}

#[test]
fn accounts_compare_by_bytes() {
    let mut b = [7u8; 32];
    assert_eq!(AccountId(b), AccountId::from_bytes(b));
    b[31] = 8;
    assert_ne!(AccountId(b), AccountId([7; 32]));
    assert_eq!(AccountId(b).to_bytes(), b);
}
