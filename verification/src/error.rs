use vstd::prelude::*;

verus! {

/// The failures that a ledger or coordinator operation can report.
///
/// Every operation that returns one of these aborts without any balance
/// change: partial application never occurs.
#[derive(Clone, Copy, Debug, PartialEq, Eq, Structural)]
pub enum Error {
    /// An operation referenced a party that has no ledger entry.
    NotRegistered,
    /// `register` was asked to create an entry that already exists.
    AlreadyRegistered,
    /// A debit or transfer asked for more than the party holds.
    InsufficientBalance,
    /// A notified transfer was initiated without enough reserved execution
    /// budget to guarantee that its resolution step can run.
    InsufficientBudget,
    /// A resolution was invoked for a handle that is not outstanding, either
    /// because it was never issued or because it was already consumed.
    ReplayedIntent,
}

} // verus!
