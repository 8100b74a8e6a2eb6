//! The transfer coordinator: a ledger, the fee policy bound to a designated
//! fee receiver, and the two-phase notified-transfer protocol with its
//! resolution step.

use crate::error::Error;
use crate::fee::{fee_amount, lemma_fee_amount_bounds, spec_fee_amount};
use crate::ledger::Ledger;
use crate::metadata::{default_metadata, TokenMetadata};
use crate::pending::{
    entry_for, has_handle, lemma_entry_at, lemma_pending_push, lemma_pending_swap_remove,
    unique_handles, NotificationOutcome, PendingTransfer,
};
use vstd::prelude::*;

verus! {

/// The total supply the default configuration mints at genesis:
/// six billion whole units of an asset with eighteen decimals.
pub const DEFAULT_TOTAL_SUPPLY: u128 = 6_000_000_000 * 1_000_000_000_000_000_000;

/// The execution budget the resolution step must be able to spend.
pub const GAS_FOR_RESOLVE_TRANSFER: u64 = 5_000_000_000_000;

/// The execution budget a notified transfer must have prepaid: enough for the
/// notification itself and for the guaranteed resolution step after it.
pub const GAS_FOR_FT_TRANSFER_CALL: u64 = 25_000_000_000_000 + GAS_FOR_RESOLVE_TRANSFER;

/// The coordinator: the authoritative ledger, the fee receiver the fee
/// policy is bound to, the asset metadata, and the set of outstanding
/// notified transfers awaiting resolution.
pub struct Contract {
    /// The authoritative balance store.
    pub ledger: Ledger,
    /// The party fees are paid to; transfers into or out of it are exempt.
    pub fee_receiver: u64,
    /// The asset's display record.
    pub metadata: TokenMetadata,
    /// The in-flight notified transfers, one record per outstanding handle.
    pub pending: Vec<PendingTransfer>,
    /// The next handle to issue; every outstanding handle is below it.
    pub next_handle: u64,
}

impl Contract {
    /// Well-formedness: the ledger's books balance, no handle is outstanding
    /// twice, and every outstanding handle is below the issue counter.
    pub open spec fn wf(self) -> bool {
        &&& self.ledger.wf()
        &&& unique_handles(self.pending@)
        &&& forall|h: u64| has_handle(self.pending@, h) ==> h < self.next_handle
    }

    /// Whether `id` has a ledger entry.
    pub open spec fn spec_registered(self, id: u64) -> bool {
        self.ledger.spec_registered(id)
    }

    /// The balance of `id`, zero when unregistered.
    pub open spec fn spec_balance(self, id: u64) -> u128 {
        self.ledger.spec_balance(id)
    }

    /// The recorded total supply.
    pub open spec fn spec_total_supply(self) -> u128 {
        self.ledger.spec_total_supply()
    }

    /// Whether `handle` is outstanding.
    pub open spec fn spec_has_pending(self, handle: u64) -> bool {
        has_handle(self.pending@, handle)
    }

    /// The record outstanding for `handle`; meaningful only when
    /// [`Contract::spec_has_pending`].
    pub open spec fn spec_pending_entry(self, handle: u64) -> PendingTransfer {
        entry_for(self.pending@, handle)
    }

    /// Whether a transfer between these parties is charged a fee at all:
    /// transfers into or out of the fee receiver are exempt, preventing
    /// fee-on-fee recursion.
    pub open spec fn spec_fee_applies(self, sender_id: u64, receiver_id: u64) -> bool {
        sender_id != self.fee_receiver && receiver_id != self.fee_receiver
    }

    /// The fee split the policy reports: `Some(fee)` for a taxed transfer,
    /// `None` for an exempt one.
    pub open spec fn spec_fee_of(self, sender_id: u64, receiver_id: u64, amount: u128) -> Option<
        u128,
    > {
        if self.spec_fee_applies(sender_id, receiver_id) {
            Some(spec_fee_amount(amount) as u128)
        } else {
            None
        }
    }

    /// The fee as a plain number: zero when the transfer is exempt.
    pub open spec fn spec_fee_value(self, sender_id: u64, receiver_id: u64, amount: u128) -> u128 {
        if self.spec_fee_applies(sender_id, receiver_id) {
            spec_fee_amount(amount) as u128
        } else {
            0
        }
    }

    /// The net amount the receiver is credited: the gross amount less the
    /// fee, or the whole gross amount when exempt.
    pub open spec fn spec_net_of(self, sender_id: u64, receiver_id: u64, amount: u128) -> u128 {
        if self.spec_fee_applies(sender_id, receiver_id) {
            (amount - spec_fee_amount(amount)) as u128
        } else {
            amount
        }
    }

    /// Creates a ledger with `total_supply` minted to `owner_id`, the fee
    /// receiver registered, and no transfer in flight.
    pub fn new(owner_id: u64, fee_receiver: u64, total_supply: u128, metadata: TokenMetadata) -> (r:
        Contract)
        requires
            metadata.spec_valid(),
        ensures
            r.wf(),
            r.fee_receiver == fee_receiver,
            r.metadata == metadata,
            r.spec_total_supply() == total_supply,
            r.spec_balance(owner_id) == total_supply,
            forall|p: u64| r.spec_registered(p) == (p == owner_id || p == fee_receiver),
            forall|p: u64| p != owner_id ==> r.spec_balance(p) == 0,
            forall|h: u64| !r.spec_has_pending(h),
            r.next_handle == 0,
    {
        let mut ledger = Ledger::new();
        let _ = ledger.register(owner_id);
        if fee_receiver != owner_id {
            let _ = ledger.register(fee_receiver);
        }
        let _ = ledger.mint(owner_id, total_supply);
        Contract { ledger, fee_receiver, metadata, pending: Vec::new(), next_handle: 0 }
    }

    /// [`Contract::new`] with the default supply and metadata.
    pub fn new_default_config(owner_id: u64, fee_receiver: u64) -> (r: Contract)
        ensures
            r.wf(),
            r.fee_receiver == fee_receiver,
            r.metadata.spec_valid(),
            r.spec_total_supply() == DEFAULT_TOTAL_SUPPLY,
            r.spec_balance(owner_id) == DEFAULT_TOTAL_SUPPLY,
            forall|p: u64| r.spec_registered(p) == (p == owner_id || p == fee_receiver),
            forall|p: u64| p != owner_id ==> r.spec_balance(p) == 0,
            forall|h: u64| !r.spec_has_pending(h),
            r.next_handle == 0,
    {
        Contract::new(owner_id, fee_receiver, DEFAULT_TOTAL_SUPPLY, default_metadata())
    }

    /// The fee split for a transfer of `amount` from `sender_id` to
    /// `receiver_id`: the net amount and, for a taxed transfer, the fee
    /// beside it. Net and fee always add back up to the gross amount.
    pub fn calculate_fee(&self, sender_id: u64, receiver_id: u64, amount: u128) -> (r: (
        u128,
        Option<u128>,
    ))
        ensures
            r.0 == self.spec_net_of(sender_id, receiver_id, amount),
            r.1 == self.spec_fee_of(sender_id, receiver_id, amount),
            r.0 + self.spec_fee_value(sender_id, receiver_id, amount) == amount,
            sender_id == self.fee_receiver || receiver_id == self.fee_receiver ==> r == (
                amount,
                None::<u128>,
            ),
    {
        if sender_id != self.fee_receiver && receiver_id != self.fee_receiver {
            let fee = fee_amount(amount);
            (amount - fee, Some(fee))
        } else {
            (amount, None)
        }
    }

    /// The recorded total supply.
    pub fn ft_total_supply(&self) -> (r: u128)
        ensures
            r == self.spec_total_supply(),
    {
        self.ledger.total_supply()
    }

    /// The balance of `account_id`; an unregistered party reads as zero.
    pub fn ft_balance_of(&self, account_id: u64) -> (r: u128)
        requires
            self.wf(),
        ensures
            r == self.spec_balance(account_id),
    {
        self.ledger.balance_of(account_id)
    }

    /// The asset's display record.
    pub fn ft_metadata(&self) -> (r: &TokenMetadata)
        ensures
            *r == self.metadata,
    {
        &self.metadata
    }

    /// Whether `account_id` has a ledger entry.
    pub fn is_registered(&self, account_id: u64) -> (r: bool)
        ensures
            r == self.spec_registered(account_id),
    {
        self.ledger.is_registered(account_id)
    }

    /// Creates a zero-balance entry for `account_id`.
    pub fn register(&mut self, account_id: u64) -> (r: Result<(), Error>)
        requires
            old(self).wf(),
        ensures
            final(self).wf(),
            r == (if old(self).spec_registered(account_id) {
                Err::<(), Error>(Error::AlreadyRegistered)
            } else {
                Ok::<(), Error>(())
            }),
            r is Err ==> *final(self) == *old(self),
            r is Ok ==> {
                &&& final(self).spec_registered(account_id)
                &&& final(self).spec_balance(account_id) == 0
                &&& forall|p: u64|
                    p != account_id ==> final(self).spec_registered(p) == old(self).spec_registered(
                        p,
                    )
                &&& forall|p: u64|
                    p != account_id ==> final(self).spec_balance(p) == old(self).spec_balance(p)
                &&& final(self).spec_total_supply() == old(self).spec_total_supply()
            },
            final(self).fee_receiver == old(self).fee_receiver,
            final(self).metadata == old(self).metadata,
            final(self).pending == old(self).pending,
            final(self).next_handle == old(self).next_handle,
    {
        self.ledger.register(account_id)
    }

    /// Removes the entry of `account_id`. A nonzero remaining balance is
    /// removed only under `force`, and is then burned out of the supply — an
    /// auditable closure event. Returns whether an entry was removed.
    pub fn unregister(&mut self, account_id: u64, force: bool) -> (r: bool)
        requires
            old(self).wf(),
            force || old(self).spec_balance(account_id) == 0,
        ensures
            final(self).wf(),
            r == old(self).spec_registered(account_id),
            !r ==> *final(self) == *old(self),
            r ==> {
                &&& !final(self).spec_registered(account_id)
                &&& final(self).spec_balance(account_id) == 0
                &&& forall|p: u64|
                    p != account_id ==> final(self).spec_registered(p) == old(self).spec_registered(
                        p,
                    )
                &&& forall|p: u64|
                    p != account_id ==> final(self).spec_balance(p) == old(self).spec_balance(p)
                &&& final(self).spec_total_supply() == old(self).spec_total_supply() - old(self).spec_balance(
                    account_id,
                )
            },
            final(self).fee_receiver == old(self).fee_receiver,
            final(self).metadata == old(self).metadata,
            final(self).pending == old(self).pending,
            final(self).next_handle == old(self).next_handle,
    {
        self.ledger.unregister(account_id, force)
    }

    /// The outcome a direct transfer is owed: `Ok` exactly when the sender
    /// and receiver are registered, the sender covers the gross amount, and —
    /// for a taxed transfer with a nonzero fee — the fee receiver is
    /// registered too.
    pub open spec fn spec_direct_transfer_result(
        self,
        sender_id: u64,
        receiver_id: u64,
        amount: u128,
    ) -> Result<(), Error> {
        let feev = self.spec_fee_value(sender_id, receiver_id, amount);
        if !self.spec_registered(sender_id) {
            Err(Error::NotRegistered)
        } else if amount > self.spec_balance(sender_id) {
            Err(Error::InsufficientBalance)
        } else if !self.spec_registered(receiver_id) {
            Err(Error::NotRegistered)
        } else if feev > 0 && !self.spec_registered(self.fee_receiver) {
            Err(Error::NotRegistered)
        } else {
            Ok(())
        }
    }

    /// A direct, single-phase transfer: the fee leg and the net leg settle
    /// together, behind one combined sufficiency check, so a partially
    /// applied fee never occurs. On success the sender loses exactly the
    /// gross amount, the receiver gains the net, and the fee receiver gains
    /// the fee.
    pub fn ft_transfer(
        &mut self,
        sender_id: u64,
        receiver_id: u64,
        amount: u128,
        _memo: Option<String>,
    ) -> (r: Result<(), Error>)
        requires
            old(self).wf(),
        ensures
            final(self).wf(),
            r == old(self).spec_direct_transfer_result(sender_id, receiver_id, amount),
            r is Err ==> *final(self) == *old(self),
            r is Ok ==> {
                &&& forall|p: u64|
                    final(self).spec_balance(p) as int == old(self).spec_balance(p) - (if p
                        == sender_id {
                        amount as int
                    } else {
                        0
                    }) + (if p == receiver_id {
                        old(self).spec_net_of(sender_id, receiver_id, amount) as int
                    } else {
                        0
                    }) + (if p == old(self).fee_receiver {
                        old(self).spec_fee_value(sender_id, receiver_id, amount) as int
                    } else {
                        0
                    })
                &&& forall|p: u64| final(self).spec_registered(p) == old(self).spec_registered(p)
                &&& final(self).spec_total_supply() == old(self).spec_total_supply()
            },
            final(self).fee_receiver == old(self).fee_receiver,
            final(self).metadata == old(self).metadata,
            final(self).pending == old(self).pending,
            final(self).next_handle == old(self).next_handle,
    {
        let (net, fee) = self.calculate_fee(sender_id, receiver_id, amount);
        let feev = match fee {
            Some(f) => f,
            None => 0,
        };
        proof {
            lemma_fee_amount_bounds(amount);
        }
        if !self.ledger.is_registered(sender_id) {
            return Err(Error::NotRegistered);
        }
        if amount > self.ledger.balance_of(sender_id) {
            return Err(Error::InsufficientBalance);
        }
        if !self.ledger.is_registered(receiver_id) {
            return Err(Error::NotRegistered);
        }
        if feev > 0 && !self.ledger.is_registered(self.fee_receiver) {
            return Err(Error::NotRegistered);
        }
        let ghost ledger0 = self.ledger;
        if feev > 0 {
            let _ = self.ledger.transfer(sender_id, self.fee_receiver, feev);
        }
        let _ = self.ledger.transfer(sender_id, receiver_id, net);
        proof {
            assert forall|p: u64|
                self.ledger.spec_balance(p) as int == ledger0.spec_balance(p) - (if p == sender_id {
                    amount as int
                } else {
                    0
                }) + (if p == receiver_id {
                    net as int
                } else {
                    0
                }) + (if p == self.fee_receiver {
                    feev as int
                } else {
                    0
                }) by {}
        }
        Ok(())
    }

    /// The outcome initiating a notified transfer is owed: `Ok` with the
    /// handle that will be issued exactly when the prepaid budget covers the
    /// guaranteed resolution step, both parties are registered, and the
    /// sender covers the net amount that is optimistically moved.
    pub open spec fn spec_transfer_call_result(
        self,
        sender_id: u64,
        receiver_id: u64,
        amount: u128,
        prepaid_gas: u64,
    ) -> Result<u64, Error> {
        let net = self.spec_net_of(sender_id, receiver_id, amount);
        if prepaid_gas <= GAS_FOR_FT_TRANSFER_CALL {
            Err(Error::InsufficientBudget)
        } else if !self.spec_registered(sender_id) {
            Err(Error::NotRegistered)
        } else if net > self.spec_balance(sender_id) {
            Err(Error::InsufficientBalance)
        } else if !self.spec_registered(receiver_id) {
            Err(Error::NotRegistered)
        } else {
            Ok(self.next_handle)
        }
    }

    /// Initiates a notified transfer: moves the net amount to the receiver
    /// optimistically — before the receiver has been asked — and records the
    /// original gross amount under a fresh single-use handle for the later
    /// resolution. The fee is not collected here: it falls due at resolution,
    /// and only if the notification did not fail outright.
    ///
    /// The host delivers the notification, carrying the sender, the net
    /// amount and `msg`, to the receiver, and later feeds its outcome into
    /// [`Contract::ft_resolve_transfer`] under the returned handle.
    pub fn ft_transfer_call(
        &mut self,
        sender_id: u64,
        receiver_id: u64,
        amount: u128,
        _memo: Option<String>,
        _msg: String,
        prepaid_gas: u64,
    ) -> (r: Result<u64, Error>)
        requires
            old(self).wf(),
            old(self).next_handle < u64::MAX,
        ensures
            final(self).wf(),
            r == old(self).spec_transfer_call_result(sender_id, receiver_id, amount, prepaid_gas),
            r is Err ==> *final(self) == *old(self),
            r matches Ok(h) ==> {
                &&& h == old(self).next_handle
                &&& final(self).next_handle == old(self).next_handle + 1
                &&& final(self).pending@ == old(self).pending@.push(
                    PendingTransfer { handle: h, sender_id, receiver_id, gross_amount: amount },
                )
                &&& final(self).spec_has_pending(h)
                &&& final(self).spec_pending_entry(h) == (PendingTransfer {
                    handle: h,
                    sender_id,
                    receiver_id,
                    gross_amount: amount,
                })
                &&& forall|h2: u64|
                    h2 != h ==> final(self).spec_has_pending(h2) == old(self).spec_has_pending(h2)
                &&& forall|h2: u64|
                    h2 != h && old(self).spec_has_pending(h2) ==> final(self).spec_pending_entry(h2)
                        == old(self).spec_pending_entry(h2)
                &&& forall|p: u64|
                    final(self).spec_balance(p) as int == old(self).spec_balance(p) - (if p
                        == sender_id {
                        old(self).spec_net_of(sender_id, receiver_id, amount) as int
                    } else {
                        0
                    }) + (if p == receiver_id {
                        old(self).spec_net_of(sender_id, receiver_id, amount) as int
                    } else {
                        0
                    })
                &&& forall|p: u64| final(self).spec_registered(p) == old(self).spec_registered(p)
                &&& final(self).spec_total_supply() == old(self).spec_total_supply()
            },
            final(self).fee_receiver == old(self).fee_receiver,
            final(self).metadata == old(self).metadata,
    {
        if prepaid_gas <= GAS_FOR_FT_TRANSFER_CALL {
            return Err(Error::InsufficientBudget);
        }
        let (net, _fee) = self.calculate_fee(sender_id, receiver_id, amount);
        if !self.ledger.is_registered(sender_id) {
            return Err(Error::NotRegistered);
        }
        if net > self.ledger.balance_of(sender_id) {
            return Err(Error::InsufficientBalance);
        }
        if !self.ledger.is_registered(receiver_id) {
            return Err(Error::NotRegistered);
        }
        let _ = self.ledger.transfer(sender_id, receiver_id, net);
        let handle = self.next_handle;
        let entry = PendingTransfer { handle, sender_id, receiver_id, gross_amount: amount };
        proof {
            if has_handle(self.pending@, handle) {
                assert(handle < self.next_handle);
            }
            lemma_pending_push(self.pending@, entry);
        }
        self.pending.push(entry);
        self.next_handle = handle + 1;
        Ok(handle)
    }

    /// The fee the resolution step collects: the full computed fee when the
    /// notification succeeded, the fee is nonzero, and the sender can still
    /// pay it to a registered fee receiver — and nothing in every other
    /// case. A failed notification is never charged.
    pub open spec fn spec_resolve_fee_charged(
        self,
        p: PendingTransfer,
        outcome: NotificationOutcome,
    ) -> u128 {
        let feev = self.spec_fee_value(p.sender_id, p.receiver_id, p.gross_amount);
        if (outcome matches NotificationOutcome::Responded(_)) && feev > 0 && self.spec_registered(
            p.sender_id,
        ) && self.spec_registered(self.fee_receiver) && feev <= self.spec_balance(p.sender_id) {
            feev
        } else {
            0
        }
    }

    /// The balance of `party` after the resolution's fee leg and before its
    /// refund leg.
    pub open spec fn spec_balance_after_fee(
        self,
        p: PendingTransfer,
        outcome: NotificationOutcome,
        party: u64,
    ) -> int {
        let c = self.spec_resolve_fee_charged(p, outcome);
        self.spec_balance(party) - (if party == p.sender_id {
            c as int
        } else {
            0
        }) + (if party == self.fee_receiver {
            c as int
        } else {
            0
        })
    }

    /// How much of the notified net amount the receiver declines to keep: a
    /// reported value clamped to the net amount, or all of it when the
    /// notification failed.
    pub open spec fn spec_resolve_unused(
        self,
        p: PendingTransfer,
        outcome: NotificationOutcome,
    ) -> u128 {
        let net = self.spec_net_of(p.sender_id, p.receiver_id, p.gross_amount);
        match outcome {
            NotificationOutcome::Responded(u) => if u > net {
                net
            } else {
                u
            },
            NotificationOutcome::Failed => net,
        }
    }

    /// How much the resolution takes back from the receiver: the declined
    /// amount, capped at what the receiver still holds — funds the receiver
    /// has already moved away cannot be recovered.
    pub open spec fn spec_resolve_refund_total(
        self,
        p: PendingTransfer,
        outcome: NotificationOutcome,
    ) -> u128 {
        let unused = self.spec_resolve_unused(p, outcome);
        let rb = self.spec_balance_after_fee(p, outcome, p.receiver_id);
        if unused as int > rb {
            rb as u128
        } else {
            unused
        }
    }

    /// The part of the recovered amount that reaches the sender: all of it
    /// while the sender still has a ledger entry, none otherwise.
    pub open spec fn spec_resolve_refunded(
        self,
        p: PendingTransfer,
        outcome: NotificationOutcome,
    ) -> u128 {
        if self.spec_registered(p.sender_id) {
            self.spec_resolve_refund_total(p, outcome)
        } else {
            0
        }
    }

    /// The part of the recovered amount that is burned instead of refunded:
    /// everything recovered, when the sender's entry is gone.
    pub open spec fn spec_resolve_burned(
        self,
        p: PendingTransfer,
        outcome: NotificationOutcome,
    ) -> u128 {
        if self.spec_registered(p.sender_id) {
            0
        } else {
            self.spec_resolve_refund_total(p, outcome)
        }
    }

    /// The settlement result reported to the original caller: the gross
    /// amount less what was returned to the sender.
    pub open spec fn spec_resolve_used(
        self,
        p: PendingTransfer,
        outcome: NotificationOutcome,
    ) -> u128 {
        (p.gross_amount - self.spec_resolve_refunded(p, outcome)) as u128
    }

    /// The result a resolution call is owed: the used amount of the
    /// outstanding record, or a replay rejection when the handle is not
    /// outstanding.
    pub open spec fn spec_resolve_result(self, handle: u64, outcome: NotificationOutcome) -> Result<
        u128,
        Error,
    > {
        if self.spec_has_pending(handle) {
            Ok(self.spec_resolve_used(self.spec_pending_entry(handle), outcome))
        } else {
            Err(Error::ReplayedIntent)
        }
    }

    /// The index of the record of `handle`, when one is outstanding.
    fn find_pending(&self, handle: u64) -> (r: Option<usize>)
        ensures
            match r {
                Some(i) => i < self.pending@.len() && self.pending@[i as int].handle == handle,
                None => !self.spec_has_pending(handle),
            },
    {
        let n = self.pending.len();
        let mut i: usize = 0;
        while i < n
            invariant
                n == self.pending@.len(),
                i <= n,
                forall|j: int| 0 <= j < i ==> self.pending@[j].handle != handle,
            decreases n - i,
        {
            if self.pending[i].handle == handle {
                return Some(i);
            }
            i = i + 1;
        }
        None
    }

    /// Resolves the notified transfer outstanding under `handle`, consuming
    /// the handle: a second resolution for the same handle is rejected with
    /// [`Error::ReplayedIntent`] and changes nothing.
    ///
    /// The fee split is recomputed from the recorded gross amount — the fee
    /// receiver does not change mid-flight, so it is identical to the split
    /// at initiation. The fee is collected only for a notification that did
    /// not fail outright; the declined amount (clamped to the net) is taken
    /// back from the receiver as far as its current balance reaches, and is
    /// credited back to the sender — or burned out of the supply when the
    /// sender's entry has meanwhile been closed. Returns the used amount:
    /// the gross amount less what the sender got back.
    pub fn ft_resolve_transfer(&mut self, handle: u64, outcome: NotificationOutcome) -> (r: Result<
        u128,
        Error,
    >)
        requires
            old(self).wf(),
        ensures
            final(self).wf(),
            r == old(self).spec_resolve_result(handle, outcome),
            r is Err ==> *final(self) == *old(self),
            r is Ok ==> ({
                let p = old(self).spec_pending_entry(handle);
                &&& !final(self).spec_has_pending(handle)
                &&& forall|h2: u64|
                    h2 != handle ==> final(self).spec_has_pending(h2) == old(self).spec_has_pending(
                        h2,
                    )
                &&& forall|h2: u64|
                    h2 != handle && old(self).spec_has_pending(h2) ==> final(self).spec_pending_entry(
                        h2,
                    ) == old(self).spec_pending_entry(h2)
                &&& forall|q: u64|
                    final(self).spec_balance(q) as int == old(self).spec_balance_after_fee(
                        p,
                        outcome,
                        q,
                    ) - (if q == p.receiver_id {
                        old(self).spec_resolve_refund_total(p, outcome) as int
                    } else {
                        0
                    }) + (if q == p.sender_id {
                        old(self).spec_resolve_refunded(p, outcome) as int
                    } else {
                        0
                    })
                &&& forall|q: u64| final(self).spec_registered(q) == old(self).spec_registered(q)
                &&& final(self).spec_total_supply() == old(self).spec_total_supply() - old(self).spec_resolve_burned(
                    p,
                    outcome,
                )
            }),
            final(self).fee_receiver == old(self).fee_receiver,
            final(self).metadata == old(self).metadata,
            final(self).next_handle == old(self).next_handle,
    {
        let i = match self.find_pending(handle) {
            None => {
                return Err(Error::ReplayedIntent);
            },
            Some(i) => i,
        };
        let p = self.pending[i];
        proof {
            lemma_entry_at(self.pending@, i as int);
            lemma_pending_swap_remove(self.pending@, i as int);
        }
        let _ = self.pending.swap_remove(i);
        let ghost c0 = *old(self);
        let (net, fee) = self.calculate_fee(p.sender_id, p.receiver_id, p.gross_amount);
        let feev = match fee {
            Some(f) => f,
            None => 0,
        };
        let responded = match outcome {
            NotificationOutcome::Responded(_) => true,
            NotificationOutcome::Failed => false,
        };
        let ghost charged = c0.spec_resolve_fee_charged(p, outcome);
        if responded && feev > 0 {
            if self.ledger.is_registered(p.sender_id) && self.ledger.is_registered(
                self.fee_receiver,
            ) {
                let sb = self.ledger.balance_of(p.sender_id);
                if feev <= sb {
                    let _ = self.ledger.transfer(p.sender_id, self.fee_receiver, feev);
                    proof {
                        assert(charged == feev);
                    }
                }
            }
        }
        proof {
            assert forall|q: u64|
                self.ledger.spec_balance(q) as int == c0.spec_balance_after_fee(p, outcome, q) by {}
            assert forall|q: u64|
                self.ledger.spec_registered(q) == c0.spec_registered(q) by {}
        }
        let unused = match outcome {
            NotificationOutcome::Responded(u) => if u > net {
                net
            } else {
                u
            },
            NotificationOutcome::Failed => net,
        };
        let ghost refund_total = c0.spec_resolve_refund_total(p, outcome);
        let ghost refunded = c0.spec_resolve_refunded(p, outcome);
        let ghost burned = c0.spec_resolve_burned(p, outcome);
        let mut used = p.gross_amount;
        if unused > 0 {
            let rb = self.ledger.balance_of(p.receiver_id);
            let refund = if unused > rb {
                rb
            } else {
                unused
            };
            proof {
                assert(refund == refund_total);
            }
            if refund > 0 {
                if self.ledger.is_registered(p.sender_id) {
                    let _ = self.ledger.transfer(p.receiver_id, p.sender_id, refund);
                    proof {
                        lemma_fee_amount_bounds(p.gross_amount);
                    }
                    used = p.gross_amount - refund;
                } else {
                    let _ = self.ledger.burn(p.receiver_id, refund);
                }
            }
        }
        Ok(used)
    }
}

} // verus!

