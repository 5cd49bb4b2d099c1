//! The verify → forward → record pipeline: every inbound delivery passes
//! the security gate, is replayed when it passes, and leaves a rendered
//! console line and (when retention is on) a history record.
//!
//! Completions are applied by a single writer: the entry created at
//! receipt is updated in place, so the log keeps receipt order even when
//! forwards finish out of order.

use vstd::prelude::*;
use crate::forward::{ForwardResult, OutboundRequest, build_outbound, header_views,
    kept_header_views};
use crate::gate::{RejectReason, RelayedRequest, Verdict, verdict_spec, verify};
use crate::history::{EntryOutcome, HistoryEntry, HistoryStore, first_pending, is_pending_for,
    lemma_first_pending, line_of, render_line};
use crate::token::RelayToken;

verus! {

/// Whether an entry records the given delivery with the given outcome.
pub open spec fn entry_matches(e: HistoryEntry, req: RelayedRequest, oc: EntryOutcome) -> bool {
    &&& e.request_id@ == req.id@
    &&& e.method == req.method
    &&& e.path@ == req.path@
    &&& e.received_at == req.received_at
    &&& e.outcome == oc
}

/// How a bounded FIFO store changes when one entry is recorded: appended
/// within capacity, oldest evicted at capacity, dropped when nothing is
/// retained.
pub open spec fn push_bounded(
    old_s: Seq<HistoryEntry>,
    new_s: Seq<HistoryEntry>,
    cap: usize,
    retention: bool,
    e: HistoryEntry,
) -> bool {
    if !retention || cap == 0 {
        new_s == old_s
    } else if old_s.len() < cap {
        new_s == old_s.push(e)
    } else {
        new_s == old_s.subrange(1, old_s.len() as int).push(e)
    }
}

/// What the pipeline decides for one inbound delivery.
pub enum AdmitDecision {
    /// The security gate passed it: replay this outbound request locally.
    Forward(OutboundRequest),
    /// The security gate turned it away for this reason; the rendered console line
    /// is carried along. Nothing is forwarded.
    Reject(RejectReason, Vec<u8>),
}

/// The single consumer that owns the history store and the rendering of
/// console lines. The tunnel hands deliveries in and completions back;
/// nothing here calls back into the connection.
pub struct Pipeline {
    pub history: HistoryStore,
    /// Pending records kept only while retention is off, just long enough
    /// to render each delivery's line at completion.
    pub inflight: Vec<HistoryEntry>,
    /// The freshness window handed to verification, in seconds.
    pub window_secs: u64,
    /// Whether the security gate verifies at all (the explicit opt-out).
    pub security_enabled: bool,
}

impl Pipeline {
    pub open spec fn wf(&self) -> bool {
        &&& self.history.wf()
        &&& self.history.retention ==> self.inflight@.len() == 0
    }

    pub fn new(capacity: usize, retention: bool, window_secs: u64, security_enabled: bool) -> (r:
        Pipeline)
        ensures
            r.wf(),
            r.history@ == Seq::<HistoryEntry>::empty(),
            r.inflight@ == Seq::<HistoryEntry>::empty(),
            r.history.capacity == capacity,
            r.history.retention == retention,
            r.window_secs == window_secs,
            r.security_enabled == security_enabled,
    {
        let r = Pipeline {
            history: HistoryStore::new(capacity, retention),
            inflight: Vec::new(),
            window_secs,
            security_enabled,
        };
        proof {
            assert(r.inflight@ =~= Seq::<HistoryEntry>::empty());
        }
        r
    }

    /// Runs the security gate on one delivery. A passed delivery gets a pending
    /// record and comes back as the outbound request to replay; a rejected
    /// one gets a rejection record, its console line, and is never
    /// forwarded.
    pub fn accept(&mut self, req: &RelayedRequest, token: &RelayToken, now: u64) -> (d:
        AdmitDecision)
        requires
            old(self).wf(),
        ensures
            final(self).wf(),
            final(self).history.capacity == old(self).history.capacity,
            final(self).history.retention == old(self).history.retention,
            final(self).window_secs == old(self).window_secs,
            final(self).security_enabled == old(self).security_enabled,
            (d is Forward) == (verdict_spec(
                *req,
                token@,
                now,
                old(self).window_secs,
                old(self).security_enabled,
            ) is Passed),
            d matches AdmitDecision::Forward(ob) ==> {
                &&& ob.method == req.method
                &&& ob.path@ == req.path@
                &&& ob.body@ == req.body@
                &&& header_views(ob.headers@) == kept_header_views(header_views(req.headers@))
                &&& (exists|e: HistoryEntry|
                    entry_matches(e, *req, EntryOutcome::Pending) && if old(self).history.retention {
                        push_bounded(
                            old(self).history@,
                            final(self).history@,
                            old(self).history.capacity,
                            true,
                            e,
                        ) && final(self).inflight@ == old(self).inflight@
                    } else {
                        final(self).inflight@ == old(self).inflight@.push(e) && final(self).history@ == old(self).history@
                    })
            },
            d matches AdmitDecision::Reject(reason, line) ==> {
                &&& verdict_spec(
                    *req,
                    token@,
                    now,
                    old(self).window_secs,
                    old(self).security_enabled,
                ) == Verdict::Rejected(reason)
                &&& final(self).inflight@ == old(self).inflight@
                &&& (exists|e: HistoryEntry|
                    entry_matches(e, *req, EntryOutcome::Rejected(reason)) && line@ == line_of(e)
                        && push_bounded(
                        old(self).history@,
                        final(self).history@,
                        old(self).history.capacity,
                        old(self).history.retention,
                        e,
                    ))
            },
    {
        let verdict = verify(req, token, now, self.window_secs, self.security_enabled);
        match verdict {
            Verdict::Passed => {
                let entry = HistoryEntry {
                    request_id: crate::forward::copy_bytes(&req.id),
                    method: req.method,
                    path: crate::forward::copy_bytes(&req.path),
                    received_at: req.received_at,
                    outcome: EntryOutcome::Pending,
                };
                proof {
                    assert(entry_matches(entry, *req, EntryOutcome::Pending));
                }
                let ghost witness = entry;
                if self.history.retention {
                    self.history.record(entry);
                } else {
                    self.inflight.push(entry);
                }
                let ob = build_outbound(req);
                proof {
                    assert(entry_matches(witness, *req, EntryOutcome::Pending) && if old(self).history.retention {
                        push_bounded(
                            old(self).history@,
                            self.history@,
                            old(self).history.capacity,
                            true,
                            witness,
                        ) && self.inflight@ == old(self).inflight@
                    } else {
                        self.inflight@ == old(self).inflight@.push(witness) && self.history@
                            == old(self).history@
                    });
                }
                AdmitDecision::Forward(ob)
            },
            Verdict::Rejected(reason) => {
                let entry = HistoryEntry {
                    request_id: crate::forward::copy_bytes(&req.id),
                    method: req.method,
                    path: crate::forward::copy_bytes(&req.path),
                    received_at: req.received_at,
                    outcome: EntryOutcome::Rejected(reason),
                };
                let line = render_line(&entry);
                proof {
                    assert(entry_matches(entry, *req, EntryOutcome::Rejected(reason)));
                }
                let ghost witness = entry;
                self.history.record(entry);
                proof {
                    assert(entry_matches(witness, *req, EntryOutcome::Rejected(reason)) && line@
                        == line_of(witness) && push_bounded(
                        old(self).history@,
                        self.history@,
                        old(self).history.capacity,
                        old(self).history.retention,
                        witness,
                    ));
                }
                AdmitDecision::Reject(reason, line)
            },
        }
    }

    /// Applies one forward completion: the pending record for the delivery
    /// is completed in place and its console line comes back. With
    /// retention off the transient record is dropped once rendered. `None`
    /// when no pending record for the delivery remains.
    pub fn complete(&mut self, id: &Vec<u8>, result: ForwardResult) -> (line: Option<Vec<u8>>)
        requires
            old(self).wf(),
        ensures
            final(self).wf(),
            final(self).history.capacity == old(self).history.capacity,
            final(self).history.retention == old(self).history.retention,
            final(self).window_secs == old(self).window_secs,
            final(self).security_enabled == old(self).security_enabled,
            old(self).history.retention ==> {
                let ix = first_pending(old(self).history@, id@);
                &&& final(self).inflight@ == old(self).inflight@
                &&& (line is Some) == (ix < old(self).history@.len())
                &&& (ix < old(self).history@.len() ==> {
                    let updated = HistoryEntry {
                        request_id: old(self).history@[ix].request_id,
                        method: old(self).history@[ix].method,
                        path: old(self).history@[ix].path,
                        received_at: old(self).history@[ix].received_at,
                        outcome: EntryOutcome::Completed(result),
                    };
                    final(self).history@ == old(self).history@.update(ix, updated) && (line
                        matches Some(l) && l@ == line_of(updated))
                })
                &&& (ix >= old(self).history@.len() ==> final(self).history@ == old(self).history@)
            },
            !old(self).history.retention ==> {
                let ix = first_pending(old(self).inflight@, id@);
                &&& final(self).history@ == old(self).history@
                &&& (line is Some) == (ix < old(self).inflight@.len())
                &&& (ix < old(self).inflight@.len() ==> {
                    let done = HistoryEntry {
                        request_id: old(self).inflight@[ix].request_id,
                        method: old(self).inflight@[ix].method,
                        path: old(self).inflight@[ix].path,
                        received_at: old(self).inflight@[ix].received_at,
                        outcome: EntryOutcome::Completed(result),
                    };
                    final(self).inflight@ == old(self).inflight@.remove(ix) && (line matches
                        Some(l) && l@ == line_of(done))
                })
                &&& (ix >= old(self).inflight@.len() ==> final(self).inflight@ == old(self).inflight@)
            },
    {
        if self.history.retention {
            match self.history.complete(id, result) {
                Some(ix) => {
                    let line = render_line(self.history.entry_at(ix));
                    Some(line)
                },
                None => None,
            }
        } else {
            proof {
                lemma_first_pending(self.inflight@, id@);
            }
            let ghost pre = *self;
            let ghost orig = self.inflight@;
            let mut i: usize = 0;
            while i < self.inflight.len()
                invariant
                    *self == pre,
                    pre == *old(self),
                    self.inflight@ == orig,
                    pre.wf(),
                    !pre.history.retention,
                    i <= orig.len(),
                    forall|j: int| 0 <= j < i ==> !is_pending_for(orig[j], id@),
                    0 <= first_pending(orig, id@) <= orig.len(),
                    first_pending(orig, id@) < orig.len() ==> is_pending_for(
                        orig[first_pending(orig, id@)],
                        id@,
                    ),
                    forall|j: int| 0 <= j < first_pending(orig, id@) ==> !is_pending_for(
                        orig[j],
                        id@,
                    ),
                decreases orig.len() - i,
            {
                let matches_here = {
                    let e = &self.inflight[i];
                    match e.outcome {
                        EntryOutcome::Pending => crate::gate::bytes_eq(
                            e.request_id.as_slice(),
                            id.as_slice(),
                        ),
                        _ => false,
                    }
                };
                if matches_here {
                    proof {
                        assert(is_pending_for(orig[i as int], id@));
                        assert(first_pending(orig, id@) == i as int);
                    }
                    let e = self.inflight.remove(i);
                    let done = HistoryEntry {
                        request_id: e.request_id,
                        method: e.method,
                        path: e.path,
                        received_at: e.received_at,
                        outcome: EntryOutcome::Completed(result),
                    };
                    let line = render_line(&done);
                    return Some(line);
                }
                proof {
                    assert(!is_pending_for(orig[i as int], id@));
                }
                i = i + 1;
            }
            proof {
                assert(first_pending(orig, id@) == orig.len());
            }
            None
        }
    }
}

} // verus!
