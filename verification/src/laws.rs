//! The protocol-level theorems: what the fee policy, the settlement
//! accounting and the burn rule guarantee for every input, stated over the
//! same spec functions the operations' own contracts use.

use crate::contract::Contract;
use crate::fee::lemma_fee_amount_bounds;
use crate::ledger::{lemma_balance_at, lemma_balance_le_sum, sum_balances};
use crate::pending::{NotificationOutcome, PendingTransfer};
use vstd::prelude::*;

verus! {

/// Conservation: in every well-formed state the recorded total supply is
/// exactly the sum of all balances. Every operation of the coordinator
/// promises to preserve well-formedness, so this holds in every reachable
/// state.
pub proof fn lemma_supply_is_sum(c: Contract)
    requires
        c.wf(),
    ensures
        sum_balances(c.ledger.entries()) == c.spec_total_supply() as int,
{
}

/// A consequence of conservation: no single balance ever exceeds the total
/// supply.
pub proof fn lemma_balance_le_supply(c: Contract, party: u64)
    requires
        c.wf(),
    ensures
        c.spec_balance(party) <= c.spec_total_supply(),
{
    if c.ledger.spec_registered(party) {
        let s = c.ledger.entries();
        let w = choose|i: int| 0 <= i < s.len() && s[i].id == party;
        lemma_balance_at(s, w);
        lemma_balance_le_sum(s, w);
    }
}

/// Fee additivity: for every gross amount between parties that are not the
/// fee receiver, the fee is reported and `net + fee == gross` exactly —
/// rounding never loses a unit.
pub proof fn lemma_fee_additivity(c: Contract, sender_id: u64, receiver_id: u64, gross_amount: u128)
    requires
        sender_id != c.fee_receiver,
        receiver_id != c.fee_receiver,
    ensures
        c.spec_fee_of(sender_id, receiver_id, gross_amount) matches Some(f) && c.spec_net_of(
            sender_id,
            receiver_id,
            gross_amount,
        ) + f == gross_amount,
{
    lemma_fee_amount_bounds(gross_amount);
}

/// Fee exemption: every transfer into or out of the fee receiver reports no
/// fee and passes the gross amount through whole.
pub proof fn lemma_fee_exemption(c: Contract, sender_id: u64, receiver_id: u64, gross_amount: u128)
    requires
        sender_id == c.fee_receiver || receiver_id == c.fee_receiver,
    ensures
        c.spec_fee_of(sender_id, receiver_id, gross_amount) is None,
        c.spec_net_of(sender_id, receiver_id, gross_amount) == gross_amount,
{
}

/// Full acceptance: when the receiver declines nothing, the whole gross
/// amount counts as used and nothing is recovered or burned; the fee —
/// whenever the sender can still pay it to a registered fee receiver — is
/// charged in full.
pub proof fn lemma_full_acceptance(c: Contract, p: PendingTransfer)
    ensures
        c.spec_resolve_refund_total(p, NotificationOutcome::Responded(0)) == 0,
        c.spec_resolve_refunded(p, NotificationOutcome::Responded(0)) == 0,
        c.spec_resolve_burned(p, NotificationOutcome::Responded(0)) == 0,
        c.spec_resolve_used(p, NotificationOutcome::Responded(0)) == p.gross_amount,
        c.spec_registered(p.sender_id) && c.spec_registered(c.fee_receiver) && c.spec_fee_value(
            p.sender_id,
            p.receiver_id,
            p.gross_amount,
        ) <= c.spec_balance(p.sender_id) ==> c.spec_resolve_fee_charged(
            p,
            NotificationOutcome::Responded(0),
        ) == c.spec_fee_value(p.sender_id, p.receiver_id, p.gross_amount),
{
}

/// Full decline through a failed notification: no fee is charged, and with
/// the receiver still holding the net amount and the sender still
/// registered, the sender regains the whole net amount; only the fee-sized
/// remainder of the gross amount counts as used.
pub proof fn lemma_full_decline_failed(c: Contract, p: PendingTransfer)
    requires
        c.spec_registered(p.sender_id),
        c.spec_balance(p.receiver_id) >= c.spec_net_of(p.sender_id, p.receiver_id, p.gross_amount),
    ensures
        c.spec_resolve_fee_charged(p, NotificationOutcome::Failed) == 0,
        c.spec_resolve_refunded(p, NotificationOutcome::Failed) == c.spec_net_of(
            p.sender_id,
            p.receiver_id,
            p.gross_amount,
        ),
        c.spec_resolve_burned(p, NotificationOutcome::Failed) == 0,
        c.spec_resolve_used(p, NotificationOutcome::Failed) as int == p.gross_amount
            - c.spec_net_of(p.sender_id, p.receiver_id, p.gross_amount),
{
    lemma_fee_amount_bounds(p.gross_amount);
}

/// Full decline through a successful notification: declining the value does
/// not waive the fee. With the fee payable and the receiver still covering
/// the net amount, the fee is charged in full while the whole net amount
/// returns to the sender — the asymmetry against a failed notification.
pub proof fn lemma_full_decline_responded(c: Contract, p: PendingTransfer)
    requires
        c.spec_registered(p.sender_id),
        c.spec_registered(c.fee_receiver),
        c.spec_fee_value(p.sender_id, p.receiver_id, p.gross_amount) <= c.spec_balance(p.sender_id),
        c.spec_balance_after_fee(
            p,
            NotificationOutcome::Responded(
                c.spec_net_of(p.sender_id, p.receiver_id, p.gross_amount),
            ),
            p.receiver_id,
        ) >= c.spec_net_of(p.sender_id, p.receiver_id, p.gross_amount),
    ensures
        ({
            let net = c.spec_net_of(p.sender_id, p.receiver_id, p.gross_amount);
            let outcome = NotificationOutcome::Responded(net);
            &&& c.spec_resolve_fee_charged(p, outcome) == c.spec_fee_value(
                p.sender_id,
                p.receiver_id,
                p.gross_amount,
            )
            &&& c.spec_resolve_refunded(p, outcome) == net
            &&& c.spec_resolve_burned(p, outcome) == 0
            &&& c.spec_resolve_used(p, outcome) as int == p.gross_amount - net
        }),
{
    lemma_fee_amount_bounds(p.gross_amount);
}

/// Capped recovery: when the receiver's remaining balance no longer covers
/// the declined amount, only that balance is recovered — the sender is not
/// made whole for the shortfall, which stays wherever the receiver moved it.
pub proof fn lemma_decline_shortfall(c: Contract, p: PendingTransfer, outcome: NotificationOutcome)
    requires
        c.spec_balance_after_fee(p, outcome, p.receiver_id) < c.spec_resolve_unused(p, outcome),
    ensures
        c.spec_resolve_refund_total(p, outcome) as int == c.spec_balance_after_fee(
            p,
            outcome,
            p.receiver_id,
        ),
        c.spec_resolve_refunded(p, outcome) as int <= c.spec_balance_after_fee(
            p,
            outcome,
            p.receiver_id,
        ),
        c.spec_resolve_used(p, outcome) as int >= p.gross_amount - c.spec_balance_after_fee(
            p,
            outcome,
            p.receiver_id,
        ),
{
}

/// The burn rule: when the sender's entry is gone at resolution, nothing can
/// be returned — the whole recovered amount is burned out of the supply and
/// the whole gross amount counts as used.
pub proof fn lemma_burn_when_sender_unregistered(
    c: Contract,
    p: PendingTransfer,
    outcome: NotificationOutcome,
)
    requires
        !c.spec_registered(p.sender_id),
    ensures
        c.spec_resolve_refunded(p, outcome) == 0,
        c.spec_resolve_burned(p, outcome) == c.spec_resolve_refund_total(p, outcome),
        c.spec_resolve_used(p, outcome) == p.gross_amount,
{
}

/// Replay protection: a handle that is no longer outstanding resolves to
/// [`crate::error::Error::ReplayedIntent`], and the resolution contract
/// promises that a rejected resolution changes nothing — balances cannot be
/// refunded or burned twice for one intent.
pub proof fn lemma_replay_rejected(c: Contract, handle: u64, outcome: NotificationOutcome)
    requires
        !c.spec_has_pending(handle),
    ensures
        c.spec_resolve_result(handle, outcome) == Err::<u128, crate::error::Error>(
            crate::error::Error::ReplayedIntent,
        ),
{
}

} // verus!
