//! The ephemeral correlation state of a notified transfer: the record that
//! ties a notification to its later resolution, and the outcome the
//! notification can report.

use vstd::prelude::*;

verus! {

/// The record of one in-flight notified transfer. It is created when the
/// optimistic transfer commits, survives exactly until the matching
/// resolution, and is consumed by it.
#[derive(Clone, Copy, Debug, PartialEq, Eq, Structural)]
pub struct PendingTransfer {
    /// The single-use identifier the resolution step must present.
    pub handle: u64,
    /// The party the gross amount was taken from.
    pub sender_id: u64,
    /// The party the net amount was optimistically credited to.
    pub receiver_id: u64,
    /// The gross amount as originally requested, before the fee split.
    pub gross_amount: u128,
}

/// What the remote notification came back with.
#[derive(Clone, Copy, Debug, PartialEq, Eq, Structural)]
pub enum NotificationOutcome {
    /// The receiver's handler ran and reported how much of the notified
    /// amount it declines to keep. A value above the notified amount is
    /// clamped by the resolution step.
    Responded(u128),
    /// The notification call failed or aborted; the receiver is treated as
    /// having declined everything.
    Failed,
}

/// Whether no two records of `s` carry the same handle.
pub open spec fn unique_handles(s: Seq<PendingTransfer>) -> bool {
    forall|i: int, j: int| 0 <= i < j < s.len() ==> s[i].handle != s[j].handle
}

/// Whether `s` holds a record for `handle`.
pub open spec fn has_handle(s: Seq<PendingTransfer>, handle: u64) -> bool {
    exists|i: int| 0 <= i < s.len() && s[i].handle == handle
}

/// The record `s` holds for `handle`; meaningful only when `has_handle`.
pub open spec fn entry_for(s: Seq<PendingTransfer>, handle: u64) -> PendingTransfer {
    s[choose|i: int| 0 <= i < s.len() && s[i].handle == handle]
}

/// With unique handles, the record found at any index is the record of its
/// handle.
pub proof fn lemma_entry_at(s: Seq<PendingTransfer>, k: int)
    requires
        unique_handles(s),
        0 <= k < s.len(),
    ensures
        has_handle(s, s[k].handle),
        entry_for(s, s[k].handle) == s[k],
{
    let h = s[k].handle;
    assert(has_handle(s, h));
    let c = choose|i: int| 0 <= i < s.len() && s[i].handle == h;
    if c < k {
        assert(s[c].handle != s[k].handle);
    } else if k < c {
        assert(s[k].handle != s[c].handle);
    }
}

/// What appending a record with a fresh handle does: the new handle becomes
/// outstanding with exactly that record, and every other handle is untouched.
pub proof fn lemma_pending_push(s: Seq<PendingTransfer>, e: PendingTransfer)
    requires
        unique_handles(s),
        !has_handle(s, e.handle),
    ensures
        ({
            let s2 = s.push(e);
            &&& unique_handles(s2)
            &&& has_handle(s2, e.handle)
            &&& entry_for(s2, e.handle) == e
            &&& forall|h: u64| h != e.handle ==> has_handle(s2, h) == has_handle(s, h)
            &&& forall|h: u64|
                h != e.handle && has_handle(s, h) ==> entry_for(s2, h) == entry_for(s, h)
        }),
{
    let s2 = s.push(e);
    let n = s.len() as int;
    assert(s2[n] == e);
    assert forall|i: int, j: int| 0 <= i < j < s2.len() implies s2[i].handle != s2[j].handle by {
        if j == n {
            if s[i].handle == e.handle {
                assert(has_handle(s, e.handle));
            }
        } else {
            assert(s[i].handle != s[j].handle);
        }
    }
    lemma_entry_at(s2, n);
    assert forall|h: u64| h != e.handle implies has_handle(s2, h) == has_handle(s, h) by {
        if has_handle(s, h) {
            let w = choose|i: int| 0 <= i < s.len() && s[i].handle == h;
            assert(s2[w].handle == h);
        }
        if has_handle(s2, h) {
            let w = choose|i: int| 0 <= i < s2.len() && s2[i].handle == h;
            assert(w < n);
            assert(s[w].handle == h);
        }
    }
    assert forall|h: u64| h != e.handle && has_handle(s, h) implies entry_for(s2, h) == entry_for(
        s,
        h,
    ) by {
        let w = choose|i: int| 0 <= i < s.len() && s[i].handle == h;
        assert(s2[w] == s[w]);
        lemma_entry_at(s, w);
        lemma_entry_at(s2, w);
    }
}

/// What removing the record at `k` by swapping in the last record does: its
/// handle stops being outstanding, and every other handle keeps its record.
pub proof fn lemma_pending_swap_remove(s: Seq<PendingTransfer>, k: int)
    requires
        unique_handles(s),
        0 <= k < s.len(),
    ensures
        ({
            let s2 = s.update(k, s.last()).drop_last();
            &&& unique_handles(s2)
            &&& !has_handle(s2, s[k].handle)
            &&& forall|h: u64| h != s[k].handle ==> has_handle(s2, h) == has_handle(s, h)
            &&& forall|h: u64|
                h != s[k].handle && has_handle(s, h) ==> entry_for(s2, h) == entry_for(s, h)
        }),
{
    let hk = s[k].handle;
    let n = s.len() as int;
    let su = s.update(k, s.last());
    let s2 = su.drop_last();
    assert forall|i: int, j: int| 0 <= i < j < s2.len() implies s2[i].handle != s2[j].handle by {
        let oi = if i == k { n - 1 } else { i };
        let oj = if j == k { n - 1 } else { j };
        assert(s2[i] == s[oi]);
        assert(s2[j] == s[oj]);
        if oi < oj {
            assert(s[oi].handle != s[oj].handle);
        } else {
            assert(s[oj].handle != s[oi].handle);
        }
    }
    assert(!has_handle(s2, hk)) by {
        if has_handle(s2, hk) {
            let w = choose|i: int| 0 <= i < s2.len() && s2[i].handle == hk;
            let ow = if w == k { n - 1 } else { w };
            assert(s2[w] == s[ow]);
            if ow < k {
                assert(s[ow].handle != s[k].handle);
            } else if k < ow {
                assert(s[k].handle != s[ow].handle);
            }
        }
    }
    assert forall|h: u64| h != hk implies has_handle(s2, h) == has_handle(s, h) by {
        if has_handle(s, h) {
            let w = choose|i: int| 0 <= i < s.len() && s[i].handle == h;
            let w2 = if w == n - 1 { k } else { w };
            assert(s2[w2].handle == h);
        }
        if has_handle(s2, h) {
            let w = choose|i: int| 0 <= i < s2.len() && s2[i].handle == h;
            let ow = if w == k { n - 1 } else { w };
            assert(s[ow].handle == h);
        }
    }
    assert forall|h: u64| h != hk && has_handle(s, h) implies entry_for(s2, h) == entry_for(
        s,
        h,
    ) by {
        let w = choose|i: int| 0 <= i < s.len() && s[i].handle == h;
        let w2 = if w == n - 1 { k } else { w };
        assert(s2[w2] == s[w]);
        lemma_entry_at(s, w);
        lemma_entry_at(s2, w2);
    }
}

} // verus!
