use vstd::prelude::*;
use crate::account::AccountId;
use crate::error::RaffleError;
use crate::raffle::{
    creation_error, is_participant, no_duplicates, RaffleState, MAX_COMBINED_PERCENT,
    MAX_FEE_PERCENT, MAX_STAKE_PERCENT, MAX_TICKETS, MIN_TICKET_PRICE,
};

verus! {

/// The state after `buyers` each try, in order, to buy a ticket of raffle `id`
/// paying `paid`; a failed attempt leaves the state as it was.
pub open spec fn after_purchases(
    s: RaffleState,
    id: u32,
    buyers: Seq<AccountId>,
    paid: u128,
) -> RaffleState
    decreases buyers.len(),
{
    if buyers.len() == 0 {
        s
    } else {
        let next = if s.purchase_error(id, buyers[0], paid) is None {
            s.after_purchase(id, buyers[0], paid)
        } else {
            s
        };
        after_purchases(next, id, buyers.drop_first(), paid)
    }
}

/// Every attempt in `after_purchases(s, id, buyers, paid)` succeeds.
pub open spec fn all_purchases_succeed(
    s: RaffleState,
    id: u32,
    buyers: Seq<AccountId>,
    paid: u128,
) -> bool
    decreases buyers.len(),
{
    buyers.len() == 0 || (s.purchase_error(id, buyers[0], paid) is None
        && all_purchases_succeed(
        s.after_purchase(id, buyers[0], paid),
        id,
        buyers.drop_first(),
        paid,
    ))
}

/// Valid parameters are always accepted, and the raffle they open starts with
/// no tickets sold, no winner, open, and with an empty prize pool.
pub proof fn lemma_valid_creation_succeeds(
    s: RaffleState,
    organizer: AccountId,
    max_tickets: u32,
    ticket_price: u128,
    fee_percent: u8,
    stake_percent: u8,
)
    requires
        1 <= max_tickets <= MAX_TICKETS,
        ticket_price >= MIN_TICKET_PRICE,
        fee_percent <= MAX_FEE_PERCENT,
        stake_percent <= MAX_STAKE_PERCENT,
        fee_percent + stake_percent <= MAX_COMBINED_PERCENT,
    ensures
        creation_error(max_tickets, ticket_price, fee_percent, stake_percent) is None,
        ({
            let t = s.with_new_raffle(
                organizer,
                max_tickets,
                ticket_price,
                fee_percent,
                stake_percent,
            );
            let id = s.next_raffle_id;
            s.wf() ==> {
                &&& t.has_raffle(id)
                &&& t.info(id).tickets_sold == 0
                &&& t.info(id).winner is None
                &&& !t.info(id).is_closed
                &&& t.info(id).total_stake == 0
                &&& t.parts(id).len() == 0
            }
        }),
{
}

proof fn lemma_purchases_from_distinct(
    s: RaffleState,
    id: u32,
    buyers: Seq<AccountId>,
    paid: u128,
)
    requires
        s.participants.len() == s.raffles.len(),
        s.has_raffle(id),
        !s.info(id).is_closed,
        s.info(id).tickets_sold + buyers.len() <= s.info(id).max_tickets,
        paid == s.info(id).ticket_price,
        no_duplicates(buyers),
        forall|k: int| 0 <= k < buyers.len() ==> !is_participant(s.parts(id), #[trigger] buyers[k]),
    ensures
        all_purchases_succeed(s, id, buyers, paid),
        after_purchases(s, id, buyers, paid).has_raffle(id),
        !after_purchases(s, id, buyers, paid).info(id).is_closed,
        after_purchases(s, id, buyers, paid).info(id).max_tickets == s.info(id).max_tickets,
        after_purchases(s, id, buyers, paid).info(id).tickets_sold == s.info(id).tickets_sold
            + buyers.len(),
    decreases buyers.len(),
{
    if buyers.len() > 0 {
        let b = buyers[0];
        assert(!is_participant(s.parts(id), buyers[0]));
        let t = s.after_purchase(id, b, paid);
        let rest = buyers.drop_first();
        assert(no_duplicates(rest)) by {
            assert forall|x: int, y: int|
                0 <= x < rest.len() && 0 <= y < rest.len() && x != y implies #[trigger] rest[x]@
                != #[trigger] rest[y]@ by {
                assert(rest[x] == buyers[x + 1] && rest[y] == buyers[y + 1]);
            }
        }
        assert forall|k: int| 0 <= k < rest.len() implies !is_participant(
            t.parts(id),
            #[trigger] rest[k],
        ) by {
            assert(rest[k] == buyers[k + 1]);
            assert(!is_participant(s.parts(id), buyers[k + 1]));
            assert(buyers[0]@ != buyers[k + 1]@);
            if is_participant(t.parts(id), rest[k]) {
                let j = choose|j: int|
                    0 <= j < t.parts(id).len() && #[trigger] t.parts(id)[j]@ == rest[k]@;
                if j < s.parts(id).len() {
                    assert(t.parts(id)[j] == s.parts(id)[j]);
                }
            }
        }
        lemma_purchases_from_distinct(t, id, rest, paid);
    }
}

/// Starting from a raffle with no tickets sold, `max_tickets` purchases at the
/// ticket price by distinct accounts all succeed, and any further purchase
/// then fails with `NoTicketsAvailable`.
pub proof fn lemma_sold_out(
    s: RaffleState,
    id: u32,
    buyers: Seq<AccountId>,
    paid: u128,
    late_buyer: AccountId,
)
    requires
        s.wf(),
        s.has_raffle(id),
        s.info(id).tickets_sold == 0,
        paid == s.info(id).ticket_price,
        buyers.len() == s.info(id).max_tickets,
        no_duplicates(buyers),
    ensures
        all_purchases_succeed(s, id, buyers, paid),
        after_purchases(s, id, buyers, paid).purchase_error(id, late_buyer, paid) == Some(
            RaffleError::NoTicketsAvailable,
        ),
{
    let i = (id - 1) as int;
    assert(s.raffles[i] == s.info(id));
    assert(s.parts(id).len() == 0);
    if s.info(id).is_closed {
        let w = s.info(id).winner->0;
        assert(is_participant(s.parts(id), w));
    }
    lemma_purchases_from_distinct(s, id, buyers, paid);
}

/// Once an account has bought a ticket of a raffle that still has tickets
/// left, a second purchase by that account fails with `AlreadyParticipating`.
pub proof fn lemma_no_second_ticket(s: RaffleState, id: u32, buyer: AccountId, paid: u128)
    requires
        s.wf(),
        s.purchase_error(id, buyer, paid) is None,
        s.info(id).tickets_sold + 1 < s.info(id).max_tickets,
    ensures
        s.after_purchase(id, buyer, paid).purchase_error(id, buyer, paid) == Some(
            RaffleError::AlreadyParticipating,
        ),
{
    let t = s.after_purchase(id, buyer, paid);
    let last = t.parts(id).len() - 1;
    assert(t.parts(id)[last]@ == buyer@);
}

/// Closing a raffle that has sold no ticket fails with `NoTicketsSold` when the
/// organizer asks, and any close by someone else fails with `NotOrganizer`.
pub proof fn lemma_close_preconditions(s: RaffleState, id: u32, caller: AccountId)
    requires
        s.wf(),
        s.has_raffle(id),
    ensures
        s.info(id).organizer@ != caller@ ==> s.closing_error(id, caller) == Some(
            RaffleError::NotOrganizer,
        ),
        s.info(id).organizer@ == caller@ && s.info(id).tickets_sold == 0 ==> s.closing_error(
            id,
            caller,
        ) == Some(RaffleError::NoTicketsSold),
{
    let i = (id - 1) as int;
    assert(s.raffles[i] == s.info(id));
    if s.info(id).is_closed {
        let w = s.info(id).winner->0;
        assert(is_participant(s.parts(id), w));
    }
}

/// After a raffle has been closed, closing it again fails: with `RaffleClosed`
/// for its organizer and with `NotOrganizer` for anyone else.
pub proof fn lemma_close_once(
    s: RaffleState,
    id: u32,
    caller: AccountId,
    entropy: u64,
    again: AccountId,
)
    requires
        s.closing_error(id, caller) is None,
    ensures
        s.after_close(id, entropy).closing_error(id, again) == (if s.info(id).organizer@
            == again@ {
            Some(RaffleError::RaffleClosed)
        } else {
            Some(RaffleError::NotOrganizer)
        }),
{
}

/// On a closed raffle, a claim by anyone but the winner fails with `NotWinner`.
/// A claim by the winner empties the prize pool; a second claim then succeeds
/// with nothing left to pay, and leaves the state as it is.
pub proof fn lemma_claim_once(s: RaffleState, id: u32, caller: AccountId)
    requires
        s.wf(),
        s.has_raffle(id),
        s.info(id).is_closed,
    ensures
        !(s.info(id).winner matches Some(w) && w@ == caller@) ==> s.claim_error(id, caller)
            == Some(RaffleError::NotWinner),
        s.claim_error(id, caller) is None ==> {
            &&& s.after_claim(id).info(id).total_stake == 0
            &&& s.after_claim(id).claim_error(id, caller) is None
            &&& s.after_claim(id).after_claim(id) == s.after_claim(id)
        },
{
    let t = s.after_claim(id);
    assert(t.after_claim(id).raffles =~= t.raffles);
}

} // verus!
