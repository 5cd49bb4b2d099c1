//! History store: the bounded, ordered record of delivery outcomes, and the
//! console line rendered for each.

use vstd::prelude::*;
use vstd::string::StringSliceAdditionalSpecFns;
use crate::forward::{ForwardOutcome, ForwardResult};
use crate::gate::{Method, RejectReason, method_bytes, dec_digits, u64_to_dec, bytes_eq};

verus! {

/// What has become of one delivery so far.
pub enum EntryOutcome {
    /// Admitted and handed to a forwarding operation still in flight.
    Pending,
    /// Turned away by the security gate; never forwarded.
    Rejected(RejectReason),
    /// The forwarding operation finished with this result.
    Completed(ForwardResult),
}

/// The recorded pairing of one delivery with its outcome. Entries are
/// ordered by receipt and updated in place when a forward completes.
pub struct HistoryEntry {
    /// Identifier of the delivery this entry records.
    pub request_id: Vec<u8>,
    pub method: Method,
    pub path: Vec<u8>,
    /// Local receipt time of the delivery, in seconds.
    pub received_at: u64,
    pub outcome: EntryOutcome,
}

/// Whether an entry is the still-pending record of the given delivery.
pub open spec fn is_pending_for(e: HistoryEntry, id: Seq<u8>) -> bool {
    e.request_id@ == id && e.outcome is Pending
}

/// The position of the first still-pending entry for the given delivery,
/// or the length when there is none.
pub open spec fn first_pending(s: Seq<HistoryEntry>, id: Seq<u8>) -> int
    decreases s.len(),
{
    if s.len() == 0 {
        0
    } else if is_pending_for(s[0], id) {
        0
    } else {
        1 + first_pending(s.drop_first(), id)
    }
}

/// `first_pending` points at the first match: everything before it does
/// not match, and it matches when it is inside the sequence.
pub proof fn lemma_first_pending(s: Seq<HistoryEntry>, id: Seq<u8>)
    ensures
        0 <= first_pending(s, id) <= s.len(),
        first_pending(s, id) < s.len() ==> is_pending_for(s[first_pending(s, id)], id),
        forall|j: int| 0 <= j < first_pending(s, id) ==> !is_pending_for(s[j], id),
    decreases s.len(),
{
    if s.len() > 0 && !is_pending_for(s[0], id) {
        lemma_first_pending(s.drop_first(), id);
        assert forall|j: int| 0 <= j < first_pending(s, id) implies !is_pending_for(
            s[j],
            id,
        ) by {
            if j > 0 {
                assert(s[j] == s.drop_first()[j - 1]);
            }
        }
    }
}

/// The bounded, ordered collection of history entries. When retention is
/// disabled the collection is never added to; each entry is still rendered
/// once for the console.
pub struct HistoryStore {
    pub entries: Vec<HistoryEntry>,
    /// The most entries ever kept; beyond it the oldest entry is evicted.
    pub capacity: usize,
    /// Whether entries are retained at all.
    pub retention: bool,
}

impl View for HistoryStore {
    type V = Seq<HistoryEntry>;

    open spec fn view(&self) -> Seq<HistoryEntry> {
        self.entries@
    }
}

impl HistoryStore {
    /// The store never holds more than its capacity, and holds nothing at
    /// all when retention is disabled.
    pub open spec fn wf(&self) -> bool {
        &&& self@.len() <= self.capacity
        &&& !self.retention ==> self@.len() == 0
    }

    /// An empty store with the given bounds.
    pub fn new(capacity: usize, retention: bool) -> (r: HistoryStore)
        ensures
            r.wf(),
            r@ == Seq::<HistoryEntry>::empty(),
            r.capacity == capacity,
            r.retention == retention,
    {
        let r = HistoryStore { entries: Vec::new(), capacity, retention };
        proof {
            assert(r@ =~= Seq::<HistoryEntry>::empty());
        }
        r
    }

    /// Appends one entry. Within capacity the entry goes at the end; at
    /// capacity the oldest entry is evicted first; with retention disabled
    /// (or no capacity at all) nothing is kept.
    pub fn record(&mut self, e: HistoryEntry)
        requires
            old(self).wf(),
        ensures
            final(self).wf(),
            final(self).capacity == old(self).capacity,
            final(self).retention == old(self).retention,
            !old(self).retention || old(self).capacity == 0 ==> final(self)@ == old(self)@,
            old(self).retention && 0 < old(self).capacity && old(self)@.len() < old(
                self,
            ).capacity ==> final(self)@ == old(self)@.push(e),
            old(self).retention && 0 < old(self).capacity && old(self)@.len() == old(
                self,
            ).capacity ==> final(self)@ == old(self)@.subrange(1, old(self)@.len() as int).push(
                e,
            ),
    {
        if !self.retention || self.capacity == 0 {
            return;
        }
        if self.entries.len() == self.capacity {
            self.entries.remove(0);
        }
        self.entries.push(e);
    }

    /// Marks the first still-pending entry for the given delivery as
    /// completed with this result, in place; every other entry, and the
    /// order, stay untouched. Returns the entry's position, when one
    /// existed.
    pub fn complete(&mut self, id: &Vec<u8>, result: ForwardResult) -> (found: Option<usize>)
        requires
            old(self).wf(),
        ensures
            final(self).wf(),
            final(self).capacity == old(self).capacity,
            final(self).retention == old(self).retention,
            (found is Some) == (first_pending(old(self)@, id@) < old(self)@.len()),
            found matches Some(ix) ==> ix == first_pending(old(self)@, id@),
            found is None ==> final(self)@ == old(self)@,
            found is Some ==> {
                let ix = first_pending(old(self)@, id@);
                final(self)@ == old(self)@.update(
                    ix,
                    HistoryEntry {
                        request_id: old(self)@[ix].request_id,
                        method: old(self)@[ix].method,
                        path: old(self)@[ix].path,
                        received_at: old(self)@[ix].received_at,
                        outcome: EntryOutcome::Completed(result),
                    },
                )
            },
    {
        proof {
            lemma_first_pending(self@, id@);
        }
        let ghost pre = *self;
        let ghost orig = self@;
        let mut i: usize = 0;
        while i < self.entries.len()
            invariant
                *self == pre,
                pre == *old(self),
                self@ == orig,
                pre.wf(),
                i <= orig.len(),
                forall|j: int| 0 <= j < i ==> !is_pending_for(orig[j], id@),
                0 <= first_pending(orig, id@) <= orig.len(),
                first_pending(orig, id@) < orig.len() ==> is_pending_for(
                    orig[first_pending(orig, id@)],
                    id@,
                ),
                forall|j: int| 0 <= j < first_pending(orig, id@) ==> !is_pending_for(
                    orig[j],
                    id@,
                ),
            decreases orig.len() - i,
        {
            let matches_here = {
                let e = &self.entries[i];
                match e.outcome {
                    EntryOutcome::Pending => bytes_eq(e.request_id.as_slice(), id.as_slice()),
                    _ => false,
                }
            };
            if matches_here {
                proof {
                    assert(is_pending_for(orig[i as int], id@));
                    assert(first_pending(orig, id@) == i as int);
                }
                let old_entry = self.entries.remove(i);
                let updated = HistoryEntry {
                    request_id: old_entry.request_id,
                    method: old_entry.method,
                    path: old_entry.path,
                    received_at: old_entry.received_at,
                    outcome: EntryOutcome::Completed(result),
                };
                self.entries.insert(i, updated);
                proof {
                    assert(self@ =~= orig.update(
                        i as int,
                        HistoryEntry {
                            request_id: orig[i as int].request_id,
                            method: orig[i as int].method,
                            path: orig[i as int].path,
                            received_at: orig[i as int].received_at,
                            outcome: EntryOutcome::Completed(result),
                        },
                    ));
                }
                return Some(i);
            }
            proof {
                assert(!is_pending_for(orig[i as int], id@));
            }
            i = i + 1;
        }
        proof {
            assert(first_pending(orig, id@) == orig.len());
        }
        None
    }

    /// How many entries are currently retained.
    pub fn len(&self) -> (r: usize)
        ensures
            r == self@.len(),
    {
        self.entries.len()
    }

    /// The entry at a position, oldest first.
    pub fn entry_at(&self, i: usize) -> (r: &HistoryEntry)
        requires
            i < self@.len(),
        ensures
            *r == self@[i as int],
    {
        &self.entries[i]
    }
}

/// The store never exceeds its configured capacity.
pub proof fn lemma_size_never_exceeds_capacity(h: HistoryStore)
    requires
        h.wf(),
    ensures
        h@.len() <= h.capacity,
{
}

/// With retention disabled the retained collection stays empty, whatever
/// was recorded; rendering is unaffected.
pub proof fn lemma_retention_disabled_stays_empty(h: HistoryStore)
    requires
        h.wf(),
        !h.retention,
    ensures
        h@.len() == 0,
{
}

/// Completing an entry in place never reorders the record: every
/// position keeps its delivery and its receipt time, so the log reflects
/// receipt order even when forwards finish out of order.
pub proof fn lemma_completion_keeps_receipt_order(
    before: Seq<HistoryEntry>,
    after: Seq<HistoryEntry>,
    ix: int,
    result: ForwardResult,
)
    requires
        0 <= ix < before.len(),
        after == before.update(
            ix,
            HistoryEntry {
                request_id: before[ix].request_id,
                method: before[ix].method,
                path: before[ix].path,
                received_at: before[ix].received_at,
                outcome: EntryOutcome::Completed(result),
            },
        ),
    ensures
        after.len() == before.len(),
        forall|i: int|
            0 <= i < before.len() ==> (#[trigger] after[i]).request_id == before[i].request_id
                && after[i].received_at == before[i].received_at,
{
}

/// The console text for an entry's outcome.
pub open spec fn outcome_bytes(o: EntryOutcome) -> Seq<u8> {
    match o {
        EntryOutcome::Pending => "pending".spec_bytes(),
        EntryOutcome::Rejected(RejectReason::StaleTimestamp) => "rejected: stale timestamp".spec_bytes(),
        EntryOutcome::Rejected(RejectReason::MissingSignature) => "rejected: missing signature".spec_bytes(),
        EntryOutcome::Rejected(RejectReason::BadSignature) => "rejected: bad signature".spec_bytes(),
        EntryOutcome::Completed(r) => match r.outcome {
            ForwardOutcome::Status(s) => dec_digits(s as nat) + " (".spec_bytes() + dec_digits(
                r.latency_ms as nat,
            ) + "ms)".spec_bytes(),
            ForwardOutcome::Timeout => "timeout".spec_bytes(),
            ForwardOutcome::NetworkError => "network error".spec_bytes(),
        },
    }
}

/// The console line for one entry: method, path, and outcome.
pub open spec fn line_of(e: HistoryEntry) -> Seq<u8> {
    method_bytes(e.method) + " ".spec_bytes() + e.path@ + " -> ".spec_bytes() + outcome_bytes(
        e.outcome,
    )
}

/// Renders the console line for one entry. Every delivery gets its line,
/// whether or not the entry is retained.
pub fn render_line(e: &HistoryEntry) -> (out: Vec<u8>)
    ensures
        out@ == line_of(*e),
{
    let mut out: Vec<u8> = Vec::new();
    crate::forward::append_bytes(&mut out, e.method.name().as_bytes());
    crate::forward::append_bytes(&mut out, " ".as_bytes());
    crate::forward::append_bytes(&mut out, e.path.as_slice());
    crate::forward::append_bytes(&mut out, " -> ".as_bytes());
    match &e.outcome {
        EntryOutcome::Pending => {
            crate::forward::append_bytes(&mut out, "pending".as_bytes());
        },
        EntryOutcome::Rejected(RejectReason::StaleTimestamp) => {
            crate::forward::append_bytes(&mut out, "rejected: stale timestamp".as_bytes());
        },
        EntryOutcome::Rejected(RejectReason::MissingSignature) => {
            crate::forward::append_bytes(&mut out, "rejected: missing signature".as_bytes());
        },
        EntryOutcome::Rejected(RejectReason::BadSignature) => {
            crate::forward::append_bytes(&mut out, "rejected: bad signature".as_bytes());
        },
        EntryOutcome::Completed(r) => {
            match r.outcome {
                ForwardOutcome::Status(s) => {
                    let d = u64_to_dec(s as u64);
                    crate::forward::append_bytes(&mut out, d.as_slice());
                    crate::forward::append_bytes(&mut out, " (".as_bytes());
                    let l = u64_to_dec(r.latency_ms);
                    crate::forward::append_bytes(&mut out, l.as_slice());
                    crate::forward::append_bytes(&mut out, "ms)".as_bytes());
                },
                ForwardOutcome::Timeout => {
                    crate::forward::append_bytes(&mut out, "timeout".as_bytes());
                },
                ForwardOutcome::NetworkError => {
                    crate::forward::append_bytes(&mut out, "network error".as_bytes());
                },
            }
        },
    }
    proof {
        assert(out@ =~= line_of(*e));
    }
    out
}

} // verus!
