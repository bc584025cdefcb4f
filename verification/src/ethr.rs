//! Folding an ordered log stream into the accumulator, and the decisions of
//! the `previousChange` back-pointer walk.  Fetching logs over JSON-RPC and
//! ABI-decoding them happen outside; this module is handed plain records.

use vstd::prelude::*;

use crate::did::{DidDoc, StateV};
use crate::error::Error;
use crate::events::{event_ok, spec_apply_event, Event, EventV};

verus! {

/// One fetched registry log: the emitting contract address, the block it was
/// mined in, and the decoded event (`None` when its topics match no known
/// event signature).
pub struct LogRecord {
    pub address: Vec<u8>,
    pub block_number: Option<u64>,
    pub event: Option<Event>,
}

/// Spec-level image of a [`LogRecord`].
#[verifier::ext_equal]
pub struct LogRecordV {
    pub address: Seq<u8>,
    pub block_number: Option<u64>,
    pub event: Option<EventV>,
}

impl DeepView for LogRecord {
    type V = LogRecordV;

    open spec fn deep_view(&self) -> LogRecordV {
        LogRecordV {
            address: self.address@,
            block_number: self.block_number,
            event: self.event.deep_view(),
        }
    }
}

/// Folding an ordered log stream: logs from other contracts are skipped;
/// every applied log first stamps its block number as the version; a log
/// without a recognized event aborts with `UnknownTopic`; a log whose event
/// fails to fold aborts with that error.  Returns the reached state and the
/// error that stopped the run, if one did.
pub open spec fn spec_apply_logs(s: StateV, logs: Seq<LogRecordV>, registry: Seq<u8>) -> (
    StateV,
    Option<Error>,
)
    decreases logs.len(),
{
    if logs.len() == 0 {
        (s, None)
    } else {
        let l = logs[0];
        if l.address != registry {
            spec_apply_logs(s, logs.skip(1), registry)
        } else {
            let s1 = StateV { version_id: l.block_number, ..s };
            match l.event {
                None => (s1, Some(Error::UnknownTopic)),
                Some(ev) => {
                    if event_ok(ev) {
                        spec_apply_logs(spec_apply_event(s1, ev), logs.skip(1), registry)
                    } else {
                        (spec_apply_event(s1, ev), Some(Error::DecodeFailure))
                    }
                },
            }
        }
    }
}

/// Byte-vector equality.
fn addr_eq(a: &Vec<u8>, b: &Vec<u8>) -> (r: bool)
    ensures
        r == (a@ == b@),
{
    if a.len() != b.len() {
        return false;
    }
    let mut i: usize = 0;
    while i < a.len()
        invariant
            i <= a.len(),
            a@.len() == b@.len(),
            forall|j: int| 0 <= j < i ==> a@[j] == b@[j],
        decreases a.len() - i,
    {
        if a[i] != b[i] {
            return false;
        }
        i = i + 1;
    }
    proof {
        assert(a@ =~= b@);
    }
    true
}

/// Fold an ordered log stream into the accumulator.  The chain id must be
/// installed first, and the counters must have room for one advance per log.
pub fn apply_logs(did: &mut DidDoc, logs: &Vec<LogRecord>, registry: &Vec<u8>) -> (r: Result<
    (),
    Error,
>)
    requires
        old(did).chain_id is Some,
        old(did).delegate_count + logs@.len() <= u32::MAX,
        old(did).service_count + logs@.len() <= u32::MAX,
    ensures
        final(did).deep_view() == spec_apply_logs(
            old(did).deep_view(),
            logs.deep_view(),
            registry@,
        ).0,
        r is Ok <==> spec_apply_logs(old(did).deep_view(), logs.deep_view(), registry@).1 is None,
        r is Err ==> r == Result::<(), Error>::Err(
            spec_apply_logs(old(did).deep_view(), logs.deep_view(), registry@).1.unwrap(),
        ),
{
    let ghost start = old(did).deep_view();
    let ghost logsv = logs.deep_view();
    proof {
        assert(logsv.skip(0) =~= logsv);
    }
    let mut i: usize = 0;
    while i < logs.len()
        invariant
            i <= logs.len(),
            start == old(did).deep_view(),
            logsv == logs.deep_view(),
            logsv.len() == logs@.len(),
            did.chain_id is Some,
            did.delegate_count + (logs@.len() - i) <= u32::MAX,
            did.service_count + (logs@.len() - i) <= u32::MAX,
            spec_apply_logs(start, logsv, registry@) == spec_apply_logs(
                did.deep_view(),
                logsv.skip(i as int),
                registry@,
            ),
        decreases logs.len() - i,
    {
        proof {
            assert(logsv.skip(i as int)[0] == logsv[i as int]);
            assert(logsv[i as int] == logs@[i as int].deep_view());
            assert(logsv.skip(i as int).skip(1) =~= logsv.skip(i + 1));
        }
        let ghost q = did.deep_view();
        let l = &logs[i];
        if addr_eq(&l.address, registry) {
            did.version_id = l.block_number;
            proof {
                assert(did.deep_view() =~~= (StateV {
                    version_id: logsv[i as int].block_number,
                    ..q
                }));
            }
            match &l.event {
                None => {
                    proof {
                        let tl = logsv.skip(i as int);
                        assert(tl.len() > 0);
                        assert(tl[0].address == registry@);
                        assert(tl[0].event is None);
                        assert(spec_apply_logs(q, tl, registry@) == (
                            StateV { version_id: tl[0].block_number, ..q },
                            Some(Error::UnknownTopic),
                        ));
                        assert(did.deep_view() == (StateV {
                            version_id: tl[0].block_number,
                            ..q
                        }));
                    }
                    return Err(Error::UnknownTopic);
                },
                Some(ev) => {
                    let ghost pre = did.deep_view();
                    match ev.apply(did) {
                        Ok(_) => {
                            proof {
                                assert(did.deep_view() == spec_apply_event(pre, ev.deep_view()));
                                lemma_event_counts(pre, ev.deep_view());
                            }
                        },
                        Err(e) => {
                            proof {
                                assert(spec_apply_logs(q, logsv.skip(i as int), registry@) == (
                                    spec_apply_event(pre, ev.deep_view()),
                                    Some(Error::DecodeFailure),
                                ));
                            }
                            return Err(e);
                        },
                    }
                },
            }
        }
        i = i + 1;
    }
    proof {
        assert(logsv.skip(logsv.len() as int) =~= Seq::<LogRecordV>::empty());
    }
    Ok(())
}

/// Folding one event advances each counter by at most one and leaves the
/// chain id alone.
proof fn lemma_event_counts(s: StateV, ev: EventV)
    ensures
        spec_apply_event(s, ev).delegate_count <= s.delegate_count + 1,
        spec_apply_event(s, ev).service_count <= s.service_count + 1,
        spec_apply_event(s, ev).chain_id == s.chain_id,
{
}

/// The smallest block number strictly below `prev` among the fetched logs;
/// `None` when no log qualifies, which ends the back-pointer walk.
pub open spec fn min_prior_block(ls: Seq<LogRecordV>, prev: u64) -> Option<u64>
    decreases ls.len(),
{
    if ls.len() == 0 {
        None
    } else {
        let rest = min_prior_block(ls.skip(1), prev);
        match ls[0].block_number {
            Some(b) => if b < prev {
                match rest {
                    Some(m) => Some(if b < m {
                        b
                    } else {
                        m
                    }),
                    None => Some(b),
                }
            } else {
                rest
            },
            None => rest,
        }
    }
}

/// One round of the back-pointer walk: put the logs fetched at the current
/// block in front of the ordered log list (so that older blocks end up
/// first), and pick the next `previousChange` as the smallest fetched block
/// number strictly below the current one.
pub fn collect_step(event_log: Vec<LogRecord>, fetched: Vec<LogRecord>, previous_change: u64) -> (r:
    (Vec<LogRecord>, Option<u64>))
    ensures
        r.0.deep_view() == fetched.deep_view() + event_log.deep_view(),
        r.1 == min_prior_block(fetched.deep_view(), previous_change),
{
    let ghost fv = fetched.deep_view();
    let mut next: Option<u64> = None;
    let mut i: usize = fetched.len();
    while i > 0
        invariant
            i <= fetched.len(),
            fv == fetched.deep_view(),
            fv.len() == fetched@.len(),
            next == min_prior_block(fv.skip(i as int), previous_change),
        decreases i,
    {
        i = i - 1;
        proof {
            assert(fv.skip(i as int)[0] == fv[i as int]);
            assert(fv[i as int] == fetched@[i as int].deep_view());
            assert(fv.skip(i as int).skip(1) =~= fv.skip(i + 1));
        }
        match fetched[i].block_number {
            Some(b) => {
                if b < previous_change {
                    next = match next {
                        Some(m) => Some(if b < m {
                            b
                        } else {
                            m
                        }),
                        None => Some(b),
                    };
                }
            },
            None => {},
        }
    }
    proof {
        assert(fv.skip(0) =~= fv);
    }
    let mut out = fetched;
    let mut tail = event_log;
    let ghost outpre = out.deep_view();
    let ghost tailpre = tail.deep_view();
    out.append(&mut tail);
    proof {
        assert(out.deep_view() =~= outpre + tailpre);
    }
    (out, next)
}

} // verus!
