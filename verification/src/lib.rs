//! A fee-charging fungible-token ledger with a two-phase, notified transfer
//! protocol.
//!
//! The crate is organised leaf-first:
//!
//! * [`error`] — the failure taxonomy shared by every operation.
//! * [`fee`] — the fee policy: a basis-points fee, floor-divided, with the
//!   proof that `net + fee == gross`.
//! * [`ledger`] — the authoritative party → balance store and its
//!   supply-consistency invariant (`sum of balances == total supply`).
//! * [`metadata`] — the asset's self-description record.
//! * [`pending`] — the ephemeral correlation state of an in-flight notified
//!   transfer, and the outcome a notification can have.
//! * [`contract`] — the coordinator: direct transfers, the optimistic
//!   two-phase protocol, and its resolution (refund / burn accounting).
//! * [`laws`] — the protocol-level theorems: fee additivity and exemption,
//!   settlement accounting of acceptance and decline, and the burn rule.
//!
//! The host that performs the actual remote notification sits outside this
//! crate: it calls [`contract::Contract::ft_transfer_call`], delivers the
//! notification itself, and feeds the outcome back into
//! [`contract::Contract::ft_resolve_transfer`].

pub mod contract;
pub mod error;
pub mod fee;
pub mod laws;
pub mod ledger;
pub mod metadata;
pub mod pending;
