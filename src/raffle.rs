use vstd::prelude::*;
use crate::account::AccountId;
use crate::error::RaffleError;
use crate::events::{RaffleClosed, TicketPurchased};
use crate::payment::{split_payment, split_spec, PaymentSplit};
use crate::selector::{pick_winner, winner_index};

verus! {

/// Largest number of tickets a raffle may offer.
pub const MAX_TICKETS: u32 = 10000;

/// Smallest accepted ticket price, in base units.
pub const MIN_TICKET_PRICE: u128 = 1_000_000_000;

/// Largest platform fee, in percent of a ticket's price.
pub const MAX_FEE_PERCENT: u8 = 20;

/// Largest prize-pool stake, in percent of a ticket's price.
pub const MAX_STAKE_PERCENT: u8 = 50;

/// Largest fee and stake together, in percent of a ticket's price.
pub const MAX_COMBINED_PERCENT: u8 = 70;

/// The record of one raffle.
#[derive(Clone, Copy, Debug)]
pub struct RaffleInfo {
    pub organizer: AccountId,
    pub max_tickets: u32,
    pub ticket_price: u128,
    pub fee_percent: u8,
    pub stake_percent: u8,
    pub tickets_sold: u32,
    pub winner: Option<AccountId>,
    pub is_closed: bool,
    pub total_stake: u128,
}

/// What a successful ticket purchase asks the host to carry out: the
/// notification, the split of the payment, and where each part goes.
#[derive(Clone, Copy, Debug)]
pub struct TicketSale {
    pub event: TicketPurchased,
    pub split: PaymentSplit,
    /// Receives `split.fee`.
    pub fee_account: AccountId,
    /// Receives `split.organizer_share`.
    pub organizer: AccountId,
}

/// The registry of raffles and their participants. Raffle `id` is stored at
/// position `id - 1`; identifiers are handed out from 1 upwards and never reused.
pub struct Raffle {
    platform_authority: AccountId,
    platform_fee_account: AccountId,
    raffles: Vec<RaffleInfo>,
    raffle_participants: Vec<Vec<AccountId>>,
    next_raffle_id: u32,
}

/// The abstract state of a `Raffle`.
pub struct RaffleState {
    pub platform_authority: AccountId,
    pub platform_fee_account: AccountId,
    pub raffles: Seq<RaffleInfo>,
    pub participants: Seq<Seq<AccountId>>,
    pub next_raffle_id: u32,
}

/// Whether `account` occurs in `parts`.
pub open spec fn is_participant(parts: Seq<AccountId>, account: AccountId) -> bool {
    exists|j: int| 0 <= j < parts.len() && #[trigger] parts[j]@ == account@
}

/// No account occurs twice in `parts`.
pub open spec fn no_duplicates(parts: Seq<AccountId>) -> bool {
    forall|a: int, b: int|
        0 <= a < parts.len() && 0 <= b < parts.len() && a != b ==> #[trigger] parts[a]@
            != #[trigger] parts[b]@
}

/// The error that creating a raffle with these parameters meets, if any.
pub open spec fn creation_error(
    max_tickets: u32,
    ticket_price: u128,
    fee_percent: u8,
    stake_percent: u8,
) -> Option<RaffleError> {
    if max_tickets == 0 || max_tickets > MAX_TICKETS {
        Some(RaffleError::InvalidTicketCount)
    } else if ticket_price < MIN_TICKET_PRICE {
        Some(RaffleError::InvalidTicketPrice)
    } else if fee_percent > MAX_FEE_PERCENT {
        Some(RaffleError::InvalidFeePercent)
    } else if stake_percent > MAX_STAKE_PERCENT {
        Some(RaffleError::InvalidStakePercent)
    } else if fee_percent + stake_percent > MAX_COMBINED_PERCENT {
        Some(RaffleError::InvalidFeePercent)
    } else {
        None
    }
}

/// A record as it stands right after creation.
pub open spec fn fresh_record(
    organizer: AccountId,
    max_tickets: u32,
    ticket_price: u128,
    fee_percent: u8,
    stake_percent: u8,
) -> RaffleInfo {
    RaffleInfo {
        organizer,
        max_tickets,
        ticket_price,
        fee_percent,
        stake_percent,
        tickets_sold: 0,
        winner: None,
        is_closed: false,
        total_stake: 0,
    }
}

/// A record together with its participants is consistent.
pub open spec fn record_wf(info: RaffleInfo, parts: Seq<AccountId>) -> bool {
    &&& creation_error(info.max_tickets, info.ticket_price, info.fee_percent, info.stake_percent)
        is None
    &&& info.tickets_sold <= info.max_tickets
    &&& parts.len() == info.tickets_sold
    &&& no_duplicates(parts)
    &&& info.winner is Some <==> info.is_closed
    &&& info.winner matches Some(w) ==> is_participant(parts, w)
}

impl RaffleState {
    /// Identifiers run from 1 to the number of raffles, every raffle has a
    /// participant list, and every record is consistent with it.
    pub open spec fn wf(self) -> bool {
        &&& self.participants.len() == self.raffles.len()
        &&& self.next_raffle_id == self.raffles.len() + 1
        &&& forall|i: int|
            0 <= i < self.raffles.len() ==> record_wf(
                #[trigger] self.raffles[i],
                self.participants[i],
            )
    }

    /// Whether raffle `id` has been created.
    pub open spec fn has_raffle(self, id: u32) -> bool {
        1 <= id <= self.raffles.len()
    }

    /// The record of raffle `id`.
    pub open spec fn info(self, id: u32) -> RaffleInfo {
        self.raffles[id - 1]
    }

    /// The participants of raffle `id`, in order of purchase.
    pub open spec fn parts(self, id: u32) -> Seq<AccountId> {
        self.participants[id - 1]
    }

    /// The state after a successful creation.
    pub open spec fn with_new_raffle(
        self,
        organizer: AccountId,
        max_tickets: u32,
        ticket_price: u128,
        fee_percent: u8,
        stake_percent: u8,
    ) -> RaffleState {
        RaffleState {
            raffles: self.raffles.push(
                fresh_record(organizer, max_tickets, ticket_price, fee_percent, stake_percent),
            ),
            participants: self.participants.push(Seq::empty()),
            next_raffle_id: (self.next_raffle_id + 1) as u32,
            ..self
        }
    }

    /// The state with record `id` replaced.
    pub open spec fn with_record(self, id: u32, info: RaffleInfo) -> RaffleState {
        RaffleState { raffles: self.raffles.update(id - 1, info), ..self }
    }

    /// The error that buying a ticket meets, if any.
    pub open spec fn purchase_error(self, id: u32, buyer: AccountId, paid: u128) -> Option<
        RaffleError,
    > {
        if !self.has_raffle(id) {
            Some(RaffleError::RaffleNotFound)
        } else if self.info(id).is_closed {
            Some(RaffleError::RaffleClosed)
        } else if self.info(id).tickets_sold >= self.info(id).max_tickets {
            Some(RaffleError::NoTicketsAvailable)
        } else if paid != self.info(id).ticket_price {
            Some(RaffleError::InvalidTicketPrice)
        } else if is_participant(self.parts(id), buyer) {
            Some(RaffleError::AlreadyParticipating)
        } else {
            None
        }
    }

    /// The split of a ticket payment of raffle `id`.
    pub open spec fn split_for(self, id: u32, paid: u128) -> PaymentSplit {
        split_spec(paid, self.info(id).fee_percent, self.info(id).stake_percent)
    }

    /// The prize pool of raffle `id` can take the stake of one more payment.
    pub open spec fn stake_fits(self, id: u32, paid: u128) -> bool {
        self.info(id).total_stake + self.split_for(id, paid).stake <= u128::MAX
    }

    /// The state after a successful purchase.
    pub open spec fn after_purchase(self, id: u32, buyer: AccountId, paid: u128) -> RaffleState {
        let info = self.info(id);
        let new_info = RaffleInfo {
            tickets_sold: (info.tickets_sold + 1) as u32,
            total_stake: (info.total_stake + self.split_for(id, paid).stake) as u128,
            ..info
        };
        RaffleState {
            raffles: self.raffles.update(id - 1, new_info),
            participants: self.participants.update(id - 1, self.parts(id).push(buyer)),
            ..self
        }
    }

    /// What a successful purchase hands back.
    pub open spec fn sale(self, id: u32, buyer: AccountId, paid: u128) -> TicketSale {
        TicketSale {
            event: TicketPurchased {
                raffle_id: id,
                buyer,
                tickets_sold: (self.info(id).tickets_sold + 1) as u32,
            },
            split: self.split_for(id, paid),
            fee_account: self.platform_fee_account,
            organizer: self.info(id).organizer,
        }
    }

    /// The error that closing a raffle meets, if any.
    pub open spec fn closing_error(self, id: u32, caller: AccountId) -> Option<RaffleError> {
        if !self.has_raffle(id) {
            Some(RaffleError::RaffleNotFound)
        } else if self.info(id).organizer@ != caller@ {
            Some(RaffleError::NotOrganizer)
        } else if self.info(id).is_closed {
            Some(RaffleError::RaffleClosed)
        } else if self.info(id).tickets_sold == 0 {
            Some(RaffleError::NoTicketsSold)
        } else {
            None
        }
    }

    /// The winner drawn for raffle `id` with the given entropy.
    pub open spec fn drawn(self, id: u32, entropy: u64) -> AccountId {
        self.parts(id)[winner_index(entropy, self.parts(id).len())]
    }

    /// The state after a successful close.
    pub open spec fn after_close(self, id: u32, entropy: u64) -> RaffleState {
        self.with_record(
            id,
            RaffleInfo { winner: Some(self.drawn(id, entropy)), is_closed: true, ..self.info(id) },
        )
    }

    /// The error that claiming the prize meets, if any.
    pub open spec fn claim_error(self, id: u32, caller: AccountId) -> Option<RaffleError> {
        if !self.has_raffle(id) {
            Some(RaffleError::RaffleNotFound)
        } else if !self.info(id).is_closed {
            Some(RaffleError::RaffleClosed)
        } else if !(self.info(id).winner matches Some(w) && w@ == caller@) {
            Some(RaffleError::NotWinner)
        } else {
            None
        }
    }

    /// The state after a successful claim: the prize pool is empty.
    pub open spec fn after_claim(self, id: u32) -> RaffleState {
        self.with_record(id, RaffleInfo { total_stake: 0, ..self.info(id) })
    }
}

impl View for Raffle {
    type V = RaffleState;

    closed spec fn view(&self) -> RaffleState {
        RaffleState {
            platform_authority: self.platform_authority,
            platform_fee_account: self.platform_fee_account,
            raffles: self.raffles@,
            participants: self.raffle_participants@.map_values(|p: Vec<AccountId>| p@),
            next_raffle_id: self.next_raffle_id,
        }
    }
}

/// Whether `account` occurs in `parts`, by a linear scan.
fn contains_account(parts: &Vec<AccountId>, account: &AccountId) -> (r: bool)
    ensures
        r == is_participant(parts@, *account),
{
    let mut i: usize = 0;
    while i < parts.len()
        invariant
            0 <= i <= parts.len(),
            forall|j: int| 0 <= j < i ==> parts@[j]@ != account@,
        decreases parts.len() - i,
    {
        if parts[i].same_as(account) {
            assert(parts@[i as int]@ == account@);
            return true;
        }
        i = i + 1;
    }
    false
}

/// The error that creating a raffle with these parameters meets, if any.
pub fn check_params(max_tickets: u32, ticket_price: u128, fee_percent: u8, stake_percent: u8) -> (r:
    Option<RaffleError>)
    ensures
        r == creation_error(max_tickets, ticket_price, fee_percent, stake_percent),
{
    if max_tickets == 0 || max_tickets > MAX_TICKETS {
        Some(RaffleError::InvalidTicketCount)
    } else if ticket_price < MIN_TICKET_PRICE {
        Some(RaffleError::InvalidTicketPrice)
    } else if fee_percent > MAX_FEE_PERCENT {
        Some(RaffleError::InvalidFeePercent)
    } else if stake_percent > MAX_STAKE_PERCENT {
        Some(RaffleError::InvalidStakePercent)
    } else if fee_percent + stake_percent > MAX_COMBINED_PERCENT {
        Some(RaffleError::InvalidFeePercent)
    } else {
        None
    }
}

/// Whether no account occurs twice in `parts`.
fn all_distinct(parts: &Vec<AccountId>) -> (r: bool)
    ensures
        r == no_duplicates(parts@),
{
    let mut j: usize = 0;
    while j < parts.len()
        invariant
            0 <= j <= parts.len(),
            forall|a: int, b: int|
                0 <= a < j && 0 <= b < j && a != b ==> #[trigger] parts@[a]@
                    != #[trigger] parts@[b]@,
        decreases parts.len() - j,
    {
        let mut k: usize = 0;
        while k < j
            invariant
                0 <= k <= j < parts.len(),
                forall|b: int| 0 <= b < k ==> parts@[j as int]@ != #[trigger] parts@[b]@,
            decreases j - k,
        {
            if parts[j].same_as(&parts[k]) {
                assert(parts@[j as int]@ == parts@[k as int]@);
                return false;
            }
            k = k + 1;
        }
        j = j + 1;
    }
    true
}

/// Whether a stored record and its participants are consistent.
fn record_consistent(info: &RaffleInfo, parts: &Vec<AccountId>) -> (r: bool)
    ensures
        r == record_wf(*info, parts@),
{
    if check_params(info.max_tickets, info.ticket_price, info.fee_percent, info.stake_percent).is_some() {
        return false;
    }
    if info.tickets_sold > info.max_tickets || parts.len() != info.tickets_sold as usize {
        return false;
    }
    if info.winner.is_some() != info.is_closed {
        return false;
    }
    if let Some(w) = info.winner {
        if !contains_account(parts, &w) {
            return false;
        }
    }
    all_distinct(parts)
}

impl Raffle {
    /// The registry is consistent; every operation keeps it so.
    pub open spec fn wf(&self) -> bool {
        self@.wf()
    }

    /// Rebuilds a registry from stored records, where `raffles[i]` is raffle
    /// `i + 1` and `raffle_participants[i]` its participants. Returns `None`
    /// exactly when the records do not form a consistent registry.
    pub fn from_records(
        platform_authority: AccountId,
        platform_fee_account: AccountId,
        raffles: Vec<RaffleInfo>,
        raffle_participants: Vec<Vec<AccountId>>,
    ) -> (r: Option<Raffle>)
        ensures
            ({
                let state = RaffleState {
                    platform_authority,
                    platform_fee_account,
                    raffles: raffles@,
                    participants: raffle_participants@.map_values(|p: Vec<AccountId>| p@),
                    next_raffle_id: (raffles@.len() + 1) as u32,
                };
                match r {
                    Some(x) => x.wf() && x@ == state,
                    None => !state.wf(),
                }
            }),
    {
        let ghost parts_view = raffle_participants@.map_values(|p: Vec<AccountId>| p@);
        if raffles.len() != raffle_participants.len() || raffles.len() >= 0xffff_ffff {
            return None;
        }
        let mut i: usize = 0;
        while i < raffles.len()
            invariant
                0 <= i <= raffles.len(),
                raffles.len() == raffle_participants.len(),
                parts_view == raffle_participants@.map_values(|p: Vec<AccountId>| p@),
                forall|k: int| 0 <= k < i ==> record_wf(#[trigger] raffles@[k], parts_view[k]),
            decreases raffles.len() - i,
        {
            if !record_consistent(&raffles[i], &raffle_participants[i]) {
                return None;
            }
            i = i + 1;
        }
        let next_raffle_id = (raffles.len() + 1) as u32;
        Some(
            Raffle {
                platform_authority,
                platform_fee_account,
                raffles,
                raffle_participants,
                next_raffle_id,
            },
        )
    }

    /// A registry with no raffles; the first raffle gets identifier 1.
    pub fn new(platform_authority: AccountId, platform_fee_account: AccountId) -> (r: Raffle)
        ensures
            r.wf(),
            r@.platform_authority == platform_authority,
            r@.platform_fee_account == platform_fee_account,
            r@.raffles.len() == 0,
            r@.next_raffle_id == 1,
    {
        let r = Raffle {
            platform_authority,
            platform_fee_account,
            raffles: Vec::new(),
            raffle_participants: Vec::new(),
            next_raffle_id: 1,
        };
        assert(r@.participants =~= Seq::empty());
        r
    }

    /// Opens a raffle organized by `caller`. On success the new record has no
    /// tickets sold, no winner, is open and has an empty prize pool, and its
    /// identifier is the next one in sequence.
    pub fn create_raffle(
        &mut self,
        caller: AccountId,
        max_tickets: u32,
        ticket_price: u128,
        fee_percent: u8,
        stake_percent: u8,
    ) -> (r: Result<u32, RaffleError>)
        requires
            old(self).wf(),
            creation_error(max_tickets, ticket_price, fee_percent, stake_percent) is None
                ==> old(self)@.next_raffle_id < u32::MAX,
        ensures
            final(self).wf(),
            match creation_error(max_tickets, ticket_price, fee_percent, stake_percent) {
                Some(e) => r == Err::<u32, RaffleError>(e) && final(self)@ == old(self)@,
                None => r == Ok::<u32, RaffleError>(old(self)@.next_raffle_id) && final(self)@
                    == old(self)@.with_new_raffle(
                    caller,
                    max_tickets,
                    ticket_price,
                    fee_percent,
                    stake_percent,
                ),
            },
    {
        if let Some(e) = check_params(max_tickets, ticket_price, fee_percent, stake_percent) {
            return Err(e);
        }
        let raffle_id = self.next_raffle_id;
        let info = RaffleInfo {
            organizer: caller,
            max_tickets,
            ticket_price,
            fee_percent,
            stake_percent,
            tickets_sold: 0,
            winner: None,
            is_closed: false,
            total_stake: 0,
        };
        self.raffles.push(info);
        self.raffle_participants.push(Vec::new());
        self.next_raffle_id = raffle_id + 1;
        proof {
            let pre = old(self)@;
            let post = pre.with_new_raffle(
                caller,
                max_tickets,
                ticket_price,
                fee_percent,
                stake_percent,
            );
            assert(self@.participants =~= post.participants);
            assert(self@.raffles =~= post.raffles);
            assert forall|i: int| 0 <= i < self@.raffles.len() implies record_wf(
                #[trigger] self@.raffles[i],
                self@.participants[i],
            ) by {
                if i < pre.raffles.len() {
                    assert(self@.raffles[i] == pre.raffles[i]);
                    assert(self@.participants[i] == pre.participants[i]);
                }
            }
        }
        Ok(raffle_id)
    }

    /// Sells one ticket of raffle `raffle_id` to `buyer`, who paid `paid_amount`.
    /// On success the buyer is appended to the participants, the ticket count
    /// goes up by one and the stake share joins the prize pool; the result says
    /// which transfers the host must make. Should a transfer fail, the host
    /// discards the whole operation.
    pub fn buy_ticket(&mut self, raffle_id: u32, buyer: AccountId, paid_amount: u128) -> (r:
        Result<TicketSale, RaffleError>)
        requires
            old(self).wf(),
            old(self)@.purchase_error(raffle_id, buyer, paid_amount) is None ==> old(
                self,
            )@.stake_fits(raffle_id, paid_amount),
        ensures
            final(self).wf(),
            match old(self)@.purchase_error(raffle_id, buyer, paid_amount) {
                Some(e) => r == Err::<TicketSale, RaffleError>(e) && final(self)@ == old(self)@,
                None => r == Ok::<TicketSale, RaffleError>(
                    old(self)@.sale(raffle_id, buyer, paid_amount),
                ) && final(self)@ == old(self)@.after_purchase(raffle_id, buyer, paid_amount),
            },
    {
        if raffle_id == 0 || raffle_id >= self.next_raffle_id {
            return Err(RaffleError::RaffleNotFound);
        }
        let idx = (raffle_id - 1) as usize;
        let mut info = self.raffles[idx];
        proof {
            assert(record_wf(self@.raffles[idx as int], self@.participants[idx as int]));
        }
        if info.is_closed {
            return Err(RaffleError::RaffleClosed);
        }
        if info.tickets_sold >= info.max_tickets {
            return Err(RaffleError::NoTicketsAvailable);
        }
        if paid_amount != info.ticket_price {
            return Err(RaffleError::InvalidTicketPrice);
        }
        if contains_account(&self.raffle_participants[idx], &buyer) {
            return Err(RaffleError::AlreadyParticipating);
        }
        let split = split_payment(paid_amount, info.fee_percent, info.stake_percent);
        info.tickets_sold = info.tickets_sold + 1;
        info.total_stake = info.total_stake + split.stake;
        self.raffles.set(idx, info);
        self.raffle_participants[idx].push(buyer);
        proof {
            let pre = old(self)@;
            let post = pre.after_purchase(raffle_id, buyer, paid_amount);
            assert(self@.participants =~= post.participants);
            assert(self@.raffles =~= post.raffles);
            let np = post.parts(raffle_id);
            assert(no_duplicates(np)) by {
                assert forall|a: int, b: int|
                    0 <= a < np.len() && 0 <= b < np.len() && a != b implies #[trigger] np[a]@
                    != #[trigger] np[b]@ by {
                    if a == np.len() - 1 {
                        assert(np[b] == pre.parts(raffle_id)[b]);
                    } else if b == np.len() - 1 {
                        assert(np[a] == pre.parts(raffle_id)[a]);
                    }
                }
            }
            assert forall|i: int| 0 <= i < self@.raffles.len() implies record_wf(
                #[trigger] self@.raffles[i],
                self@.participants[i],
            ) by {
                if i != idx {
                    assert(self@.raffles[i] == pre.raffles[i]);
                    assert(self@.participants[i] == pre.participants[i]);
                }
            }
        }
        Ok(
            TicketSale {
                event: TicketPurchased { raffle_id, buyer, tickets_sold: info.tickets_sold },
                split,
                fee_account: self.platform_fee_account,
                organizer: info.organizer,
            },
        )
    }

    /// Closes raffle `raffle_id` on behalf of `caller` and draws its winner:
    /// the participant at position `entropy mod tickets_sold`. The entropy is
    /// supplied by the host.
    pub fn close_raffle(&mut self, raffle_id: u32, caller: AccountId, entropy: u64) -> (r: Result<
        RaffleClosed,
        RaffleError,
    >)
        requires
            old(self).wf(),
        ensures
            final(self).wf(),
            match old(self)@.closing_error(raffle_id, caller) {
                Some(e) => r == Err::<RaffleClosed, RaffleError>(e) && final(self)@ == old(self)@,
                None => r == Ok::<RaffleClosed, RaffleError>(
                    RaffleClosed { raffle_id, winner: old(self)@.drawn(raffle_id, entropy) },
                ) && final(self)@ == old(self)@.after_close(raffle_id, entropy),
            },
    {
        if raffle_id == 0 || raffle_id >= self.next_raffle_id {
            return Err(RaffleError::RaffleNotFound);
        }
        let idx = (raffle_id - 1) as usize;
        let mut info = self.raffles[idx];
        proof {
            assert(record_wf(self@.raffles[idx as int], self@.participants[idx as int]));
        }
        if !info.organizer.same_as(&caller) {
            return Err(RaffleError::NotOrganizer);
        }
        if info.is_closed {
            return Err(RaffleError::RaffleClosed);
        }
        if info.tickets_sold == 0 {
            return Err(RaffleError::NoTicketsSold);
        }
        let winner = pick_winner(&self.raffle_participants[idx], entropy);
        info.winner = Some(winner);
        info.is_closed = true;
        self.raffles.set(idx, info);
        proof {
            let pre = old(self)@;
            let post = pre.after_close(raffle_id, entropy);
            assert(self@.raffles =~= post.raffles);
            let k = winner_index(entropy, pre.parts(raffle_id).len());
            assert(pre.parts(raffle_id)[k]@ == winner@);
            assert forall|i: int| 0 <= i < self@.raffles.len() implies record_wf(
                #[trigger] self@.raffles[i],
                self@.participants[i],
            ) by {
                if i != idx {
                    assert(self@.raffles[i] == pre.raffles[i]);
                }
            }
        }
        Ok(RaffleClosed { raffle_id, winner })
    }

    /// Pays the prize of raffle `raffle_id` to `caller`, its winner. The result
    /// is the amount the host must transfer to `caller`: the whole prize pool,
    /// which is emptied. Once the pool is empty, a further claim succeeds and
    /// returns 0, meaning that nothing is transferred. Should the transfer
    /// fail, the host discards the whole operation.
    pub fn claim_prize(&mut self, raffle_id: u32, caller: AccountId) -> (r: Result<u128, RaffleError>)
        requires
            old(self).wf(),
        ensures
            final(self).wf(),
            match old(self)@.claim_error(raffle_id, caller) {
                Some(e) => r == Err::<u128, RaffleError>(e) && final(self)@ == old(self)@,
                None => r == Ok::<u128, RaffleError>(old(self)@.info(raffle_id).total_stake)
                    && final(self)@ == old(self)@.after_claim(raffle_id),
            },
    {
        if raffle_id == 0 || raffle_id >= self.next_raffle_id {
            return Err(RaffleError::RaffleNotFound);
        }
        let idx = (raffle_id - 1) as usize;
        let mut info = self.raffles[idx];
        proof {
            assert(record_wf(self@.raffles[idx as int], self@.participants[idx as int]));
        }
        if !info.is_closed {
            return Err(RaffleError::RaffleClosed);
        }
        let is_winner = match info.winner {
            Some(w) => w.same_as(&caller),
            None => false,
        };
        if !is_winner {
            return Err(RaffleError::NotWinner);
        }
        let prize_amount = info.total_stake;
        if prize_amount == 0 {
            proof {
                let pre = old(self)@;
                assert(pre.raffles =~= pre.after_claim(raffle_id).raffles);
            }
            return Ok(0);
        }
        info.total_stake = 0;
        self.raffles.set(idx, info);
        proof {
            let pre = old(self)@;
            let post = pre.after_claim(raffle_id);
            assert(self@.raffles =~= post.raffles);
            assert forall|i: int| 0 <= i < self@.raffles.len() implies record_wf(
                #[trigger] self@.raffles[i],
                self@.participants[i],
            ) by {
                if i != idx {
                    assert(self@.raffles[i] == pre.raffles[i]);
                }
            }
        }
        Ok(prize_amount)
    }

    /// The record of raffle `raffle_id`, if there is one.
    pub fn get_raffle_info(&self, raffle_id: u32) -> (r: Option<RaffleInfo>)
        requires
            self.wf(),
        ensures
            r == (if self@.has_raffle(raffle_id) {
                Some(self@.info(raffle_id))
            } else {
                None
            }),
    {
        if raffle_id == 0 || raffle_id >= self.next_raffle_id {
            return None;
        }
        Some(self.raffles[(raffle_id - 1) as usize])
    }

    /// The participants of raffle `raffle_id` in order of purchase; empty if
    /// there is no such raffle.
    pub fn get_participants(&self, raffle_id: u32) -> (r: Vec<AccountId>)
        requires
            self.wf(),
        ensures
            r@ == (if self@.has_raffle(raffle_id) {
                self@.parts(raffle_id)
            } else {
                Seq::empty()
            }),
    {
        if raffle_id == 0 || raffle_id >= self.next_raffle_id {
            return Vec::new();
        }
        let parts = &self.raffle_participants[(raffle_id - 1) as usize];
        let mut out: Vec<AccountId> = Vec::new();
        let mut i: usize = 0;
        while i < parts.len()
            invariant
                0 <= i <= parts.len(),
                out@ == parts@.subrange(0, i as int),
            decreases parts.len() - i,
        {
            out.push(parts[i]);
            i = i + 1;
            assert(out@ =~= parts@.subrange(0, i as int));
        }
        assert(parts@.subrange(0, parts@.len() as int) =~= parts@);
        out
    }

    /// The account that administers the platform.
    pub fn platform_authority(&self) -> (r: AccountId)
        ensures
            r == self@.platform_authority,
    {
        self.platform_authority
    }

    /// The account that receives the platform fees.
    pub fn platform_fee_account(&self) -> (r: AccountId)
        ensures
            r == self@.platform_fee_account,
    {
        self.platform_fee_account
    }

    /// The identifier the next raffle will get.
    pub fn next_raffle_id(&self) -> (r: u32)
        ensures
            r == self@.next_raffle_id,
    {
        self.next_raffle_id
    }
}

} // verus!
