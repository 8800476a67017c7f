//! Commit-reveal lottery.
//!
//! Players buy tickets while the lottery is open; the admin commits to a
//! hashed secret, then reveals it to draw verifiable random winners, who share
//! the prize pool by configured basis-point splits. If the admin never draws
//! before the reveal deadline, ticket buyers reclaim their ticket price.
//!
//! [`LotteryContract`] holds the contract's instance storage; the per-buyer
//! ticket count, kept in persistent storage, is passed in and handed back.
use vstd::prelude::*;
use soroban_sdk::Env;
use crate::address::Addr;
use crate::bytes::{append_bytes, be_bytes, be_value, u32_to_be_bytes};
use crate::common::{apply_bps_fee, bps_fee, entropy_index, BPS_DENOMINATOR};
use crate::crypto::{commit_hash, entropy_hash, sha256_digest};
use crate::errors::LotteryError;
use crate::seqs::{copy_addrs, distinct_count, lemma_distinct_nonempty, lemma_without_contains, lemma_without_distinct, lemma_without_len, lemma_without_removes_all, occurrences, remove_all, without};

verus! {

broadcast use {vstd::set::group_set_axioms, vstd::seq_lib::seq_to_set_is_finite};

/// Phase of the lottery.
#[derive(Clone, Copy, Debug, PartialEq, Eq, Structural)]
pub enum LotteryState {
    /// Tickets are on sale.
    Open,
    /// The admin has committed to a secret; sales are closed.
    Committed,
    /// Winners have been drawn and paid.
    Drawn,
}

/// A token transfer from the contract to `to`.
#[derive(Clone, Copy, Debug, PartialEq, Eq)]
pub struct Payout {
    pub to: Addr,
    pub amount: i128,
}

/// Lottery details returned by `get_info`.
#[derive(Debug)]
pub struct LotteryInfo {
    pub admin: Addr,
    pub token: Addr,
    pub ticket_price: i128,
    pub state: LotteryState,
    pub participants: Vec<Addr>,
}

/// The lottery's stored state.
#[derive(Debug)]
pub struct Lottery {
    pub admin: Addr,
    pub token: Addr,
    pub ticket_price: i128,
    /// One entry per ticket sold, in purchase order.
    pub participants: Vec<Addr>,
    pub state: LotteryState,
    pub winner_count: u32,
    /// Each winner's share of the prize pool, in basis points.
    pub prize_splits: Vec<u32>,
    pub max_tickets_per_address: Option<u32>,
    /// The committed hash of `secret || salt`.
    pub commit: Option<[u8; 32]>,
    pub reveal_deadline: Option<u32>,
    pub winners: Vec<Addr>,
}

/// The lottery contract's instance storage: `None` until initialised.
#[derive(Debug)]
pub struct LotteryContract {
    pub lottery: Option<Lottery>,
}

/// Sum of the basis-point splits.
pub open spec fn split_sum(s: Seq<u32>) -> int
    decreases s.len(),
{
    if s.len() == 0 {
        0
    } else {
        split_sum(s.drop_last()) + s.last()
    }
}

proof fn lemma_split_sum_prefix(s: Seq<u32>, k: int, n: int)
    requires
        0 <= k <= n <= s.len(),
    ensures
        split_sum(s.take(k)) <= split_sum(s.take(n)),
    decreases n - k,
{
    if k < n {
        lemma_split_sum_prefix(s, k, n - 1);
        assert(s.take(n).drop_last() =~= s.take(n - 1));
    }
}

/// The entropy of draw round `round`: the last 8 bytes of
/// `SHA-256(secret || salt || ledger_be || round_be)`, as a big-endian number.
pub open spec fn draw_entropy(secret: [u8; 32], salt: [u8; 32], ledger: u32, round: u32) -> nat {
    be_value(
        sha256_digest(
            secret@ + salt@ + be_bytes(ledger as nat, 4) + be_bytes(round as nat, 4),
        ).subrange(24, 32),
    )
}

/// The entropy of each round of a draw revealing `secret` and `salt` at `ledger`.
pub open spec fn round_entropy(secret: [u8; 32], salt: [u8; 32], ledger: u32) -> spec_fn(nat) -> nat {
    |round: nat| draw_entropy(secret, salt, ledger, round as u32)
}

/// Winners drawn from `pool` in `rounds` rounds numbered from `round`: each
/// round takes the ticket at that round's `entropy` modulo the pool size and
/// removes all of that holder's tickets.
pub open spec fn draw_winners(pool: Seq<Addr>, entropy: spec_fn(nat) -> nat, round: nat, rounds: nat) -> Seq<Addr>
    decreases rounds,
{
    if rounds == 0 || pool.len() == 0 {
        Seq::empty()
    } else {
        let w = pool[(entropy(round) % pool.len()) as int];
        seq![w] + draw_winners(without(pool, w), entropy, round + 1, (rounds - 1) as nat)
    }
}

/// A winner's share: `total * split / 10_000`, or nothing when the product
/// does not fit in an `i128`.
pub open spec fn prize_share(total: int, split: u32) -> int {
    match bps_fee(total, split as int) {
        Some(f) => f,
        None => 0,
    }
}

/// What the draw pays out in total for the given splits.
pub open spec fn payout_total(total: int, splits: Seq<u32>) -> int
    decreases splits.len(),
{
    if splits.len() == 0 {
        0
    } else {
        payout_total(total, splits.drop_last()) + prize_share(total, splits.last())
    }
}

/// The winners of a draw are distinct, each of them held a ticket, and
/// there are at most as many as rounds, whatever each round's entropy.
pub proof fn lemma_winners_distinct_ticket_holders(
    pool: Seq<Addr>,
    entropy: spec_fn(nat) -> nat,
    round: nat,
    rounds: nat,
)
    ensures
        draw_winners(pool, entropy, round, rounds).no_duplicates(),
        draw_winners(pool, entropy, round, rounds).len() <= rounds,
        forall|i: int|
            0 <= i < draw_winners(pool, entropy, round, rounds).len() ==> pool.contains(
                #[trigger] draw_winners(pool, entropy, round, rounds)[i],
            ),
    decreases rounds,
{
    if rounds > 0 && pool.len() > 0 {
        let w = pool[(entropy(round) % pool.len()) as int];
        let rest_pool = without(pool, w);
        let rest = draw_winners(rest_pool, entropy, round + 1, (rounds - 1) as nat);
        lemma_winners_distinct_ticket_holders(rest_pool, entropy, round + 1, (rounds - 1) as nat);
        let all = draw_winners(pool, entropy, round, rounds);
        assert(all == seq![w] + rest);
        assert forall|i: int| 0 <= i < rest.len() implies rest[i] != w && pool.contains(rest[i]) by {
            lemma_without_contains(pool, w, rest[i]);
        }
        assert forall|i: int| 0 <= i < all.len() implies pool.contains(#[trigger] all[i]) by {
            if i > 0 {
                assert(all[i] == rest[i - 1]);
            }
        }
        assert forall|i: int, j: int| 0 <= i < all.len() && 0 <= j < all.len() && i != j implies all[i]
            != all[j] by {
            if i > 0 && j > 0 {
                assert(all[i] == rest[i - 1] && all[j] == rest[j - 1]);
            } else if i == 0 {
                assert(all[j] == rest[j - 1]);
            } else {
                assert(all[i] == rest[i - 1]);
            }
        }
    }
}

proof fn lemma_payout_total_scaled(total: int, splits: Seq<u32>)
    requires
        0 <= total,
    ensures
        0 <= payout_total(total, splits),
        BPS_DENOMINATOR * payout_total(total, splits) <= total * split_sum(splits),
    decreases splits.len(),
{
    if splits.len() > 0 {
        lemma_payout_total_scaled(total, splits.drop_last());
        let s = splits.last() as int;
        assert(total * s >= 0) by (nonlinear_arith)
            requires
                total >= 0,
                s >= 0,
        ;
        let x = total * s;
        assert(10_000 * (x / 10_000) <= x && x / 10_000 >= 0) by (nonlinear_arith)
            requires
                x >= 0,
        ;
        assert(total * split_sum(splits) == total * split_sum(splits.drop_last()) + x) by (nonlinear_arith)
            requires
                split_sum(splits) == split_sum(splits.drop_last()) + s,
                x == total * s,
        ;
    }
}

/// The draw never pays out more than the prize pool: the winners' shares,
/// each rounded down, add up to at most the pool when the splits sum to
/// 10 000 basis points.
pub proof fn lemma_payouts_within_pool(total: int, splits: Seq<u32>)
    requires
        0 <= total,
        split_sum(splits) == BPS_DENOMINATOR,
    ensures
        0 <= payout_total(total, splits) <= total,
{
    lemma_payout_total_scaled(total, splits);
}

/// The reveal matches, there are enough distinct ticket holders, and the
/// prize pool to split does not fit in an `i128`.
pub open spec fn pool_overflows(l: Lottery, secret: [u8; 32], salt: [u8; 32]) -> bool {
    &&& l.state == LotteryState::Committed
    &&& sha256_digest(secret@ + salt@) == l.commit->Some_0@
    &&& l.participants@.to_set().len() >= l.winner_count
    &&& l.total_prize() > i128::MAX
}

/// `r` and `new` are what `draw` answers and leaves when revealing `secret`
/// and `salt` at `ledger` on the lottery `old`.
pub open spec fn drawn(
    old: Option<Lottery>,
    new: Option<Lottery>,
    secret: [u8; 32],
    salt: [u8; 32],
    ledger: u32,
    r: Result<Vec<Payout>, LotteryError>,
) -> bool {
    &&& (match old {
        None => r is Err && r->Err_0 == LotteryError::NotInitialized,
        Some(l) => if l.state == LotteryState::Open {
            r is Err && r->Err_0 == LotteryError::DrawNotDone
        } else if l.state == LotteryState::Drawn {
            r is Err && r->Err_0 == LotteryError::DrawAlreadyDone
        } else if sha256_digest(secret@ + salt@) != l.commit->Some_0@ {
            r is Err && r->Err_0 == LotteryError::RevealMismatch
        } else if l.participants@.to_set().len() < l.winner_count {
            r is Err && r->Err_0 == LotteryError::InsufficientParticipants
        } else {
            r is Ok
        },
    })
    &&& r is Err ==> new == old
    &&& r is Ok ==> new is Some
    &&& r is Ok ==> ({
        let l = old->Some_0;
        let nl = new->Some_0;
        let payouts = r->Ok_0;
        &&& nl.wf()
        &&& nl.same_config(&l)
        &&& nl.state == LotteryState::Drawn
        &&& nl.commit == l.commit
        &&& nl.reveal_deadline == l.reveal_deadline
        &&& nl.participants@ == l.participants@
        &&& nl.winners@ == draw_winners(
            l.participants@,
            round_entropy(secret, salt, ledger),
            0,
            l.winner_count as nat,
        )
        &&& payouts@.len() == l.winner_count
        &&& forall|i: int|
            0 <= i < payouts@.len() ==> #[trigger] payouts@[i] == (Payout {
                to: nl.winners@[i],
                amount: prize_share(l.total_prize(), l.prize_splits@[i]) as i128,
            })
    })
}

/// What `claim_refund` answers for `buyer` at `ledger`: every ticket the
/// buyer holds is refunded at the ticket price, once the reveal deadline has
/// passed without a draw.
pub open spec fn refund_outcome(lottery: Option<Lottery>, buyer: Addr, ledger: u32) -> Result<i128, LotteryError> {
    match lottery {
        None => Err(LotteryError::NotInitialized),
        Some(l) => if l.state == LotteryState::Open {
            Err(LotteryError::RefundNotAvailable)
        } else if l.state == LotteryState::Drawn {
            Err(LotteryError::DrawAlreadyDone)
        } else if ledger <= l.reveal_deadline->Some_0 {
            Err(LotteryError::RefundNotAvailable)
        } else if occurrences(l.participants@, buyer) == 0 {
            Err(LotteryError::NothingToRefund)
        } else {
            Ok((l.ticket_price * occurrences(l.participants@, buyer)) as i128)
        },
    }
}

/// `nl` is `l` with `buyer`'s tickets taken out of the pool, all else kept.
pub open spec fn refunded_from(l: Lottery, nl: Lottery, buyer: Addr) -> bool {
    &&& nl.participants@ == without(l.participants@, buyer)
    &&& nl.wf()
    &&& nl.same_config(&l)
    &&& nl.state == l.state
    &&& nl.commit == l.commit
    &&& nl.reveal_deadline == l.reveal_deadline
    &&& nl.winners@ == l.winners@
}

/// A buyer is refunded at most once: after a successful refund, every later
/// refund to the same buyer is refused.
pub proof fn lemma_refund_once(l: Lottery, nl: Lottery, buyer: Addr, ledger: u32, later: u32)
    requires
        refund_outcome(Some(l), buyer, ledger) is Ok,
        refunded_from(l, nl, buyer),
    ensures
        refund_outcome(Some(nl), buyer, later) is Err,
{
    lemma_without_removes_all(l.participants@, buyer);
}

/// Once the winners are drawn, refunds are refused: the pool goes to the
/// winners or back to the buyers, never both.
pub proof fn lemma_no_refund_after_draw(nl: Lottery, buyer: Addr, ledger: u32)
    requires
        nl.state == LotteryState::Drawn,
    ensures
        refund_outcome(Some(nl), buyer, ledger) == Err::<i128, LotteryError>(LotteryError::DrawAlreadyDone),
{
}

impl Lottery {
    /// The invariants that `initialize` establishes and every call keeps.
    pub open spec fn wf(&self) -> bool {
        &&& self.ticket_price > 0
        &&& self.winner_count >= 1
        &&& self.prize_splits@.len() == self.winner_count
        &&& split_sum(self.prize_splits@) == BPS_DENOMINATOR
        &&& self.participants@.len() <= u32::MAX
        &&& self.state == LotteryState::Drawn ==> self.winners@.len() == self.winner_count
        &&& self.state != LotteryState::Open ==> self.commit is Some && self.reveal_deadline is Some
    }

    /// Everything but the ticket pool, the phase and the winners is as in `other`.
    pub open spec fn same_config(&self, other: &Lottery) -> bool {
        &&& self.admin == other.admin
        &&& self.token == other.token
        &&& self.ticket_price == other.ticket_price
        &&& self.winner_count == other.winner_count
        &&& self.prize_splits@ == other.prize_splits@
        &&& self.max_tickets_per_address == other.max_tickets_per_address
    }

    /// The prize pool: every ticket sold.
    pub open spec fn total_prize(&self) -> int {
        self.ticket_price * self.participants@.len()
    }
}

fn copy_splits(s: &Vec<u32>) -> (r: Vec<u32>)
    ensures
        r@ == s@,
{
    let mut r: Vec<u32> = Vec::new();
    let mut i: usize = 0;
    while i < s.len()
        invariant
            i <= s@.len(),
            r@ == s@.take(i as int),
        decreases s@.len() - i,
    {
        r.push(s[i]);
        i = i + 1;
        assert(r@ =~= s@.take(i as int));
    }
    assert(s@.take(s@.len() as int) =~= s@);
    r
}

impl LotteryContract {
    /// A contract that has not been initialised.
    pub fn new() -> (c: Self)
        ensures
            c.lottery is None,
    {
        LotteryContract { lottery: None }
    }

    /// Initialise the lottery: `winner_count` distinct winners share the prize
    /// pool by `prize_splits` (basis points summing to 10 000);
    /// `max_tickets_per_address`, if set, caps the tickets of one address.
    pub fn initialize(
        &mut self,
        admin: Addr,
        token: Addr,
        ticket_price: i128,
        winner_count: u32,
        prize_splits: Vec<u32>,
        max_tickets_per_address: Option<u32>,
    ) -> (r: Result<(), LotteryError>)
        ensures
            r == (if old(self).lottery is Some {
                Err(LotteryError::AlreadyInitialized)
            } else if ticket_price <= 0 {
                Err(LotteryError::InvalidTicketPrice)
            } else if winner_count == 0 || prize_splits@.len() != winner_count || split_sum(
                prize_splits@,
            ) != BPS_DENOMINATOR {
                Err(LotteryError::InvalidWinnerConfig)
            } else if max_tickets_per_address == Some(0u32) {
                Err(LotteryError::InvalidTicketCap)
            } else {
                Ok(())
            }),
            r is Err ==> *final(self) == *old(self),
            r is Ok ==> final(self).lottery is Some,
            r is Ok ==> ({
                let l = final(self).lottery->Some_0;
                &&& l.wf()
                &&& l.admin == admin
                &&& l.token == token
                &&& l.ticket_price == ticket_price
                &&& l.participants@.len() == 0
                &&& l.state == LotteryState::Open
                &&& l.winner_count == winner_count
                &&& l.prize_splits@ == prize_splits@
                &&& l.max_tickets_per_address == max_tickets_per_address
                &&& l.commit is None
                &&& l.reveal_deadline is None
                &&& l.winners@.len() == 0
            }),
    {
        if self.lottery.is_some() {
            return Err(LotteryError::AlreadyInitialized);
        }
        if ticket_price <= 0 {
            return Err(LotteryError::InvalidTicketPrice);
        }
        if winner_count == 0 || prize_splits.len() != winner_count as usize {
            return Err(LotteryError::InvalidWinnerConfig);
        }
        let mut total: u32 = 0;
        let mut i: usize = 0;
        assert(prize_splits@.take(0) =~= Seq::<u32>::empty());
        while i < prize_splits.len()
            invariant
                self.lottery is None,
                *self == *old(self),
                ticket_price > 0,
                winner_count != 0,
                prize_splits@.len() == winner_count,
                i <= prize_splits@.len(),
                total == split_sum(prize_splits@.take(i as int)),
            decreases prize_splits@.len() - i,
        {
            assert(prize_splits@.take(i + 1).drop_last() =~= prize_splits@.take(i as int));
            match total.checked_add(prize_splits[i]) {
                Some(t) => {
                    total = t;
                },
                None => {
                    proof {
                        assert(prize_splits@.take(i + 1).last() == prize_splits@[i as int]);
                        assert(split_sum(prize_splits@.take(i + 1)) == total + prize_splits@[i as int]);
                        lemma_split_sum_prefix(prize_splits@, i + 1, prize_splits@.len() as int);
                        assert(prize_splits@.take(prize_splits@.len() as int) =~= prize_splits@);
                        assert(split_sum(prize_splits@) > u32::MAX);
                        assert(split_sum(prize_splits@) != BPS_DENOMINATOR);
                    }
                    return Err(LotteryError::InvalidWinnerConfig);
                },
            }
            i = i + 1;
        }
        assert(prize_splits@.take(prize_splits@.len() as int) =~= prize_splits@);
        if total != 10_000u32 {
            return Err(LotteryError::InvalidWinnerConfig);
        }
        if let Some(cap) = max_tickets_per_address {
            if cap == 0 {
                return Err(LotteryError::InvalidTicketCap);
            }
        }
        self.lottery = Some(
            Lottery {
                admin,
                token,
                ticket_price,
                participants: Vec::new(),
                state: LotteryState::Open,
                winner_count,
                prize_splits,
                max_tickets_per_address,
                commit: None,
                reveal_deadline: None,
                winners: Vec::new(),
            },
        );
        Ok(())
    }

    /// Purchase one ticket for `buyer`, who already holds `ticket_count`
    /// tickets. Returns the buyer's new ticket count; the caller collects
    /// `ticket_price` tokens from the buyer.
    pub fn buy_ticket(&mut self, buyer: Addr, ticket_count: u32) -> (r: Result<u32, LotteryError>)
        requires
            old(self).lottery is Some ==> old(self).lottery->Some_0.wf(),
            old(self).lottery is Some ==> ({
                let l = old(self).lottery->Some_0;
                l.state == LotteryState::Open && !(l.max_tickets_per_address is Some && ticket_count
                    >= l.max_tickets_per_address->Some_0) ==> ticket_count < u32::MAX
                    && l.participants@.len() < u32::MAX
            }),
        ensures
            r == (match old(self).lottery {
                None => Err(LotteryError::NotInitialized),
                Some(l) => if l.state != LotteryState::Open {
                    Err(LotteryError::LotteryClosed)
                } else if l.max_tickets_per_address is Some && ticket_count
                    >= l.max_tickets_per_address->Some_0 {
                    Err(LotteryError::TicketCapExceeded)
                } else {
                    Ok((ticket_count + 1) as u32)
                },
            }),
            r is Err ==> *final(self) == *old(self),
            r is Ok ==> final(self).lottery is Some,
            r is Ok ==> ({
                let l = old(self).lottery->Some_0;
                let nl = final(self).lottery->Some_0;
                &&& l.max_tickets_per_address is Some ==> r->Ok_0 <= l.max_tickets_per_address->Some_0
                &&& nl.wf()
                &&& nl.same_config(&l)
                &&& nl.state == l.state
                &&& nl.commit == l.commit
                &&& nl.reveal_deadline == l.reveal_deadline
                &&& nl.winners@ == l.winners@
                &&& nl.participants@ == l.participants@.push(buyer)
            }),
    {
        match &mut self.lottery {
            None => Err(LotteryError::NotInitialized),
            Some(l) => {
                if l.state != LotteryState::Open {
                    return Err(LotteryError::LotteryClosed);
                }
                if let Some(cap) = l.max_tickets_per_address {
                    if ticket_count >= cap {
                        return Err(LotteryError::TicketCapExceeded);
                    }
                }
                l.participants.push(buyer);
                Ok(ticket_count + 1)
            },
        }
    }

    /// The admin commits to `hash = SHA-256(secret || salt)` and to the ledger
    /// by which `draw` must be called; ticket sales close.
    pub fn commit(&mut self, hash: [u8; 32], reveal_deadline: u32, current_ledger: u32) -> (r: Result<(), LotteryError>)
        requires
            old(self).lottery is Some ==> old(self).lottery->Some_0.wf(),
        ensures
            r == (match old(self).lottery {
                None => Err(LotteryError::NotInitialized),
                Some(l) => if l.state == LotteryState::Committed {
                    Err(LotteryError::CommitAlreadySubmitted)
                } else if l.state == LotteryState::Drawn {
                    Err(LotteryError::LotteryClosed)
                } else if l.participants@.len() == 0 {
                    Err(LotteryError::NoTickets)
                } else if reveal_deadline <= current_ledger {
                    Err(LotteryError::InvalidRevealDeadline)
                } else {
                    Ok(())
                },
            }),
            r is Err ==> *final(self) == *old(self),
            r is Ok ==> final(self).lottery is Some,
            r is Ok ==> ({
                let l = old(self).lottery->Some_0;
                let nl = final(self).lottery->Some_0;
                &&& nl.wf()
                &&& nl.same_config(&l)
                &&& nl.state == LotteryState::Committed
                &&& nl.commit == Some(hash)
                &&& nl.reveal_deadline == Some(reveal_deadline)
                &&& nl.participants@ == l.participants@
                &&& nl.winners@ == l.winners@
            }),
    {
        match &mut self.lottery {
            None => Err(LotteryError::NotInitialized),
            Some(l) => {
                if l.state != LotteryState::Open {
                    return Err(
                        if l.state == LotteryState::Committed {
                            LotteryError::CommitAlreadySubmitted
                        } else {
                            LotteryError::LotteryClosed
                        },
                    );
                }
                if l.participants.len() == 0 {
                    return Err(LotteryError::NoTickets);
                }
                if reveal_deadline <= current_ledger {
                    return Err(LotteryError::InvalidRevealDeadline);
                }
                l.commit = Some(hash);
                l.reveal_deadline = Some(reveal_deadline);
                l.state = LotteryState::Committed;
                Ok(())
            },
        }
    }

    /// The admin reveals `secret` and `salt`. Once the preimage matches the
    /// commitment, `winner_count` distinct winners are drawn, round `r` using
    /// `SHA-256(secret || salt || ledger_be || r_be)`, and the prize pool is
    /// split among them. Returns the payouts, one per winner in draw order.
    pub fn draw(&mut self, env: &Env, secret: [u8; 32], salt: [u8; 32], current_ledger: u32) -> (r: Result<Vec<Payout>, LotteryError>)
        requires
            old(self).lottery is Some ==> old(self).lottery->Some_0.wf(),
            old(self).lottery is Some ==> !pool_overflows(old(self).lottery->Some_0, secret, salt),
        ensures
            drawn(old(self).lottery, final(self).lottery, secret, salt, current_ledger, r),
    {
        match &mut self.lottery {
            None => Err(LotteryError::NotInitialized),
            Some(l) => {
                match l.state {
                    LotteryState::Open => {
                        return Err(LotteryError::DrawNotDone);
                    },
                    LotteryState::Drawn => {
                        return Err(LotteryError::DrawAlreadyDone);
                    },
                    LotteryState::Committed => {},
                }
                let computed = commit_hash(env, &secret, &salt);
                let stored = match l.commit {
                    Some(h) => h,
                    None => {
                        return Err(LotteryError::NotInitialized);
                    },
                };
                if !crate::bytes::bytes_eq(&computed, &stored) {
                    return Err(LotteryError::RevealMismatch);
                }
                let distinct = distinct_count(&l.participants);
                if distinct < l.winner_count as usize {
                    return Err(LotteryError::InsufficientParticipants);
                }
                let ghost e = round_entropy(secret, salt, current_ledger);
                let ghost wc = l.winner_count as nat;
                let mut pool = copy_addrs(&l.participants);
                let mut winners: Vec<Addr> = Vec::new();
                let mut round: u32 = 0;
                while round < l.winner_count
                    invariant
                        round <= l.winner_count,
                        wc == l.winner_count,
                        l.participants@.len() <= u32::MAX,
                        pool@.len() <= l.participants@.len(),
                        pool@.to_set().len() + round >= l.winner_count,
                        winners@.len() == round,
                        e == round_entropy(secret, salt, current_ledger),
                        winners@ + draw_winners(pool@, e, round as nat, (wc - round) as nat)
                            == draw_winners(l.participants@, e, 0, wc),
                    decreases l.winner_count - round,
                {
                    proof {
                        lemma_distinct_nonempty(pool@);
                    }
                    let mut extra = u32_to_be_bytes(current_ledger);
                    let round_bytes = u32_to_be_bytes(round);
                    append_bytes(&mut extra, &round_bytes);
                    let entropy = entropy_hash(env, &secret, &salt, &extra);
                    proof {
                        assert(secret@ + salt@ + extra@ =~= secret@ + salt@ + be_bytes(
                            current_ledger as nat,
                            4,
                        ) + be_bytes(round as nat, 4));
                        assert(be_value(entropy@.subrange(24, 32)) == e(round as nat));
                    }
                    let idx = entropy_index(&entropy, pool.len() as u32);
                    let w = pool[idx as usize];
                    let ghost old_pool = pool@;
                    winners.push(w);
                    let (rest, _removed) = remove_all(&pool, &w);
                    pool = rest;
                    proof {
                        assert(old_pool.contains(w));
                        lemma_without_distinct(old_pool, w);
                        lemma_without_len(old_pool, w);
                        let m = (wc - round) as nat;
                        assert(draw_winners(old_pool, e, round as nat, m) == seq![w] + draw_winners(
                            pool@,
                            e,
                            (round + 1) as nat,
                            (m - 1) as nat,
                        ));
                        assert(winners@ + draw_winners(pool@, e, (round + 1) as nat, (wc - (round + 1)) as nat)
                            =~= (winners@.drop_last()) + draw_winners(old_pool, e, round as nat, m));
                    }
                    round = round + 1;
                }
                proof {
                    assert(draw_winners(pool@, e, round as nat, 0) =~= Seq::<Addr>::empty());
                    assert(winners@ =~= draw_winners(l.participants@, e, 0, wc));
                }
                let total_prize = l.ticket_price * (l.participants.len() as i128);
                let mut payouts: Vec<Payout> = Vec::new();
                let mut i: usize = 0;
                while i < l.winner_count as usize
                    invariant
                        i <= l.winner_count,
                        l.prize_splits@.len() == l.winner_count,
                        winners@.len() == l.winner_count,
                        total_prize == l.ticket_price * l.participants@.len(),
                        payouts@.len() == i,
                        forall|j: int| 0 <= j < i ==> #[trigger] payouts@[j] == (Payout {
                            to: winners@[j],
                            amount: prize_share(total_prize as int, l.prize_splits@[j]) as i128,
                        }),
                    decreases l.winner_count - i,
                {
                    let amount = match apply_bps_fee(total_prize, l.prize_splits[i]) {
                        Some(f) => f,
                        None => 0,
                    };
                    payouts.push(Payout { to: winners[i], amount });
                    i = i + 1;
                }
                l.state = LotteryState::Drawn;
                l.winners = winners;
                Ok(payouts)
            },
        }
    }

    /// `draw`, except where it cannot proceed: when the reveal matches, there
    /// are enough distinct ticket holders, and the prize pool does not fit in
    /// an `i128`, this answers `None` and changes nothing.
    pub fn draw_checked(
        &mut self,
        env: &Env,
        secret: [u8; 32],
        salt: [u8; 32],
        current_ledger: u32,
    ) -> (r: Option<Result<Vec<Payout>, LotteryError>>)
        requires
            old(self).lottery is Some ==> old(self).lottery->Some_0.wf(),
        ensures
            r is None <==> old(self).lottery is Some && pool_overflows(
                old(self).lottery->Some_0,
                secret,
                salt,
            ),
            r is None ==> *final(self) == *old(self),
            r matches Some(d) ==> drawn(old(self).lottery, final(self).lottery, secret, salt, current_ledger, d),
    {
        if let Some(l) = &self.lottery {
            if l.state == LotteryState::Committed {
                if let Some(stored) = l.commit {
                    let computed = commit_hash(env, &secret, &salt);
                    if crate::bytes::bytes_eq(&computed, &stored) && distinct_count(&l.participants)
                        >= l.winner_count as usize && l.ticket_price.checked_mul(
                        l.participants.len() as i128,
                    ).is_none() {
                        return None;
                    }
                }
            }
        }
        Some(self.draw(env, secret, salt, current_ledger))
    }

    /// Refund every ticket `buyer` holds, once the reveal deadline has passed
    /// without a draw. Returns the refund (ticket price times tickets held);
    /// the buyer's tickets leave the pool.
    pub fn claim_refund(&mut self, buyer: Addr, current_ledger: u32) -> (r: Result<i128, LotteryError>)
        requires
            old(self).lottery is Some ==> old(self).lottery->Some_0.wf(),
            old(self).lottery is Some ==> ({
                let l = old(self).lottery->Some_0;
                l.state == LotteryState::Committed && current_ledger > l.reveal_deadline->Some_0
                    ==> l.ticket_price * occurrences(l.participants@, buyer) <= i128::MAX
            }),
        ensures
            r == refund_outcome(old(self).lottery, buyer, current_ledger),
            r is Err ==> *final(self) == *old(self),
            r is Ok ==> final(self).lottery is Some,
            r is Ok ==> refunded_from(old(self).lottery->Some_0, final(self).lottery->Some_0, buyer),
    {
        match &mut self.lottery {
            None => Err(LotteryError::NotInitialized),
            Some(l) => {
                match l.state {
                    LotteryState::Open => {
                        return Err(LotteryError::RefundNotAvailable);
                    },
                    LotteryState::Drawn => {
                        return Err(LotteryError::DrawAlreadyDone);
                    },
                    LotteryState::Committed => {},
                }
                let deadline = match l.reveal_deadline {
                    Some(d) => d,
                    None => {
                        return Err(LotteryError::NotInitialized);
                    },
                };
                if current_ledger <= deadline {
                    return Err(LotteryError::RefundNotAvailable);
                }
                let (remaining, count) = remove_all(&l.participants, &buyer);
                proof {
                    lemma_without_len(l.participants@, buyer);
                }
                if count == 0 {
                    return Err(LotteryError::NothingToRefund);
                }
                l.participants = remaining;
                Ok(l.ticket_price * (count as i128))
            },
        }
    }

    /// Lottery details.
    pub fn get_info(&self) -> (r: Result<LotteryInfo, LotteryError>)
        ensures
            self.lottery is None ==> r is Err && r->Err_0 == LotteryError::NotInitialized,
            self.lottery is Some ==> r is Ok && ({
                let l = self.lottery->Some_0;
                let info = r->Ok_0;
                &&& info.admin == l.admin
                &&& info.token == l.token
                &&& info.ticket_price == l.ticket_price
                &&& info.state == l.state
                &&& info.participants@ == l.participants@
            }),
    {
        match &self.lottery {
            None => Err(LotteryError::NotInitialized),
            Some(l) => Ok(
                LotteryInfo {
                    admin: l.admin,
                    token: l.token,
                    ticket_price: l.ticket_price,
                    state: l.state,
                    participants: copy_addrs(&l.participants),
                },
            ),
        }
    }

    /// The first winner (only available after the draw).
    pub fn get_winner(&self) -> (r: Result<Addr, LotteryError>)
        requires
            self.lottery is Some ==> self.lottery->Some_0.wf(),
        ensures
            r == (match self.lottery {
                None => Err(LotteryError::NotInitialized),
                Some(l) => if l.state != LotteryState::Drawn {
                    Err(LotteryError::DrawNotDone)
                } else {
                    Ok(l.winners@[0])
                },
            }),
    {
        match &self.lottery {
            None => Err(LotteryError::NotInitialized),
            Some(l) => {
                if l.state != LotteryState::Drawn {
                    return Err(LotteryError::DrawNotDone);
                }
                Ok(l.winners[0])
            },
        }
    }

    /// All winners, in draw order (only available after the draw).
    pub fn get_winners(&self) -> (r: Result<Vec<Addr>, LotteryError>)
        ensures
            self.lottery is None ==> r is Err && r->Err_0 == LotteryError::NotInitialized,
            self.lottery is Some && self.lottery->Some_0.state != LotteryState::Drawn ==> r is Err
                && r->Err_0 == LotteryError::DrawNotDone,
            self.lottery is Some && self.lottery->Some_0.state == LotteryState::Drawn ==> r is Ok
                && r->Ok_0@ == self.lottery->Some_0.winners@,
    {
        match &self.lottery {
            None => Err(LotteryError::NotInitialized),
            Some(l) => {
                if l.state != LotteryState::Drawn {
                    return Err(LotteryError::DrawNotDone);
                }
                Ok(copy_addrs(&l.winners))
            },
        }
    }
}

} // verus!
