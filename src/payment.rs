use vstd::prelude::*;

verus! {

/// How one ticket payment is divided.
#[derive(Clone, Copy, Debug, PartialEq, Eq, Structural)]
pub struct PaymentSplit {
    /// Part sent to the platform's fee account.
    pub fee: u128,
    /// Part added to the raffle's prize pool.
    pub stake: u128,
    /// Remainder, sent to the raffle's organizer.
    pub organizer_share: u128,
}

/// `percent` percent of `amount`, rounded down.
pub open spec fn share_of(amount: int, percent: int) -> int {
    (amount * percent) / 100
}

/// The split of `paid` for the given fee and stake percentages: both shares
/// are rounded down and the organizer receives whatever is left.
pub open spec fn split_spec(paid: u128, fee_percent: u8, stake_percent: u8) -> PaymentSplit {
    let fee = share_of(paid as int, fee_percent as int);
    let stake = share_of(paid as int, stake_percent as int);
    PaymentSplit {
        fee: fee as u128,
        stake: stake as u128,
        organizer_share: (paid - fee - stake) as u128,
    }
}

proof fn lemma_share_bounds(amount: int, percent: int)
    requires
        0 <= amount,
        0 <= percent <= 100,
    ensures
        0 <= share_of(amount, percent) <= amount,
        share_of(amount, percent) == (amount / 100) * percent + ((amount % 100) * percent) / 100,
{
    let q = amount / 100;
    let r = amount % 100;
    assert(amount == 100 * q + r && 0 <= r < 100 && q >= 0) by (nonlinear_arith)
        requires
            q == amount / 100,
            r == amount % 100,
            amount >= 0,
    ;
    assert(amount * percent == 100 * (q * percent) + r * percent) by (nonlinear_arith)
        requires
            amount == 100 * q + r,
    ;
    assert(0 <= r * percent <= 99 * 100) by (nonlinear_arith)
        requires
            0 <= r < 100,
            0 <= percent <= 100,
    ;
    let y = r * percent;
    let x = q * percent;
    assert(y == 100 * (y / 100) + y % 100 && 0 <= y % 100 < 100) by (nonlinear_arith)
        requires
            y >= 0,
    ;
    assert(100 * x + y == 100 * (x + y / 100) + y % 100) by (nonlinear_arith)
        requires
            y == 100 * (y / 100) + y % 100,
    ;
    vstd::arithmetic::div_mod::lemma_div_multiples_vanish_fancy(x + y / 100, y % 100, 100);
    assert(q * percent <= q * 100) by (nonlinear_arith)
        requires
            q >= 0,
            percent <= 100,
    ;
    assert(0 <= y / 100 <= r) by (nonlinear_arith)
        requires
            y == r * percent,
            0 <= r,
            0 <= percent <= 100,
    ;
    assert(0 <= x) by (nonlinear_arith)
        requires
            x == q * percent,
            q >= 0,
            percent >= 0,
    ;
}

proof fn lemma_shares_fit(amount: int, a: int, b: int)
    requires
        0 <= amount,
        0 <= a,
        0 <= b,
        a + b <= 100,
    ensures
        share_of(amount, a) + share_of(amount, b) <= amount,
{
    let x = amount * a;
    let y = amount * b;
    assert(x >= 0 && y >= 0 && x + y <= amount * 100) by (nonlinear_arith)
        requires
            x == amount * a,
            y == amount * b,
            amount >= 0,
            a >= 0,
            b >= 0,
            a + b <= 100,
    ;
    assert(x / 100 + y / 100 <= (x + y) / 100) by (nonlinear_arith)
        requires
            x >= 0,
            y >= 0,
    ;
    assert((x + y) / 100 <= (amount * 100) / 100) by (nonlinear_arith)
        requires
            0 <= x + y <= amount * 100,
    ;
    assert((amount * 100) / 100 == amount) by (nonlinear_arith);
}

/// For a fee of at most 20 percent and a stake of at most 50 percent, the fee
/// and the stake are the rounded-down shares of the payment and the three
/// parts of the split add up exactly to the payment: nothing is lost to rounding.
pub proof fn lemma_split_is_exact(paid: u128, fee_percent: u8, stake_percent: u8)
    requires
        fee_percent <= 20,
        stake_percent <= 50,
    ensures
        split_spec(paid, fee_percent, stake_percent).fee == (paid * fee_percent) / 100,
        split_spec(paid, fee_percent, stake_percent).stake == (paid * stake_percent) / 100,
        split_spec(paid, fee_percent, stake_percent).fee + split_spec(
            paid,
            fee_percent,
            stake_percent,
        ).stake + split_spec(paid, fee_percent, stake_percent).organizer_share == paid,
{
    lemma_share_bounds(paid as int, fee_percent as int);
    lemma_share_bounds(paid as int, stake_percent as int);
    lemma_shares_fit(paid as int, fee_percent as int, stake_percent as int);
}

fn percent_of(amount: u128, percent: u8) -> (r: u128)
    requires
        percent <= 100,
    ensures
        r == share_of(amount as int, percent as int),
{
    proof {
        lemma_share_bounds(amount as int, percent as int);
        assert((amount as int / 100) * (percent as int) <= amount as int) by (nonlinear_arith)
            requires
                percent <= 100,
                amount >= 0,
        ;
        assert(((amount as int % 100) * (percent as int)) / 100 <= 100) by (nonlinear_arith)
            requires
                percent <= 100,
                amount >= 0,
        ;
    }
    let whole = (amount / 100) * (percent as u128);
    let part = ((amount % 100) * (percent as u128)) / 100;
    whole + part
}

/// Divides a ticket payment between the platform fee, the prize pool and the
/// organizer. Nothing is lost to rounding: the three parts add up to `paid`.
/// The arithmetic never overflows, whatever the amount.
pub fn split_payment(paid: u128, fee_percent: u8, stake_percent: u8) -> (r: PaymentSplit)
    requires
        fee_percent + stake_percent <= 100,
    ensures
        r == split_spec(paid, fee_percent, stake_percent),
        r.fee + r.stake + r.organizer_share == paid,
{
    let fee = percent_of(paid, fee_percent);
    let stake = percent_of(paid, stake_percent);
    proof {
        lemma_shares_fit(paid as int, fee_percent as int, stake_percent as int);
    }
    PaymentSplit { fee, stake, organizer_share: paid - fee - stake }
}

} // verus!
