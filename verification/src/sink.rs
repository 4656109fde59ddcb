//! The two sinks, as the library models them.
//!
//! The redirect sink writes each record's payload to the output stream
//! back-to-back, so a whole run's output is the concatenation of the
//! payloads in arrival order; [`concat_payloads`] computes that output
//! and [`lemma_redirect_chunked`] states that writing it record by
//! record produces the same bytes.
//!
//! The store sink persists one session row and then one packet row per
//! record; [`plan_store_run`] builds exactly what a run persists.

use vstd::prelude::*;

use crate::capture::{run_capture, rtp_matches, spec_capture, CaptureEvent};
use crate::model::{session_name_of, TestCase, RTP};
use crate::rtp::DecodeError;
use crate::workers::FuncOpts;

verus! {

/// The payload sequences of a record sequence, in order.
pub open spec fn payloads_of(records: Seq<RTP>) -> Seq<Seq<u8>> {
    records.map(|i: int, r: RTP| r.payload@)
}

/// The concatenation of byte sequences, in order, with no separators.
pub open spec fn concat_of(chunks: Seq<Seq<u8>>) -> Seq<u8>
    decreases chunks.len(),
{
    if chunks.len() == 0 {
        Seq::empty()
    } else {
        concat_of(chunks.drop_last()) + chunks.last()
    }
}

/// Writing one more payload after the output so far extends the
/// concatenation by exactly that payload: the redirect sink's loop,
/// which writes each record's payload as it arrives, therefore emits
/// exactly the concatenation of all payloads in arrival order.
pub proof fn lemma_redirect_chunked(chunks: Seq<Seq<u8>>, next: Seq<u8>)
    ensures
        concat_of(chunks.push(next)) == concat_of(chunks) + next,
{
    assert(chunks.push(next).drop_last() =~= chunks);
}

/// The redirect-mode output for a sequence of records: the byte-for-byte
/// concatenation of every record's payload, header stripped, in arrival
/// order, with no delimiter, length prefix or metadata.
pub fn concat_payloads(records: &Vec<RTP>) -> (out: Vec<u8>)
    ensures
        out@ == concat_of(payloads_of(records@)),
{
    let mut out: Vec<u8> = Vec::new();
    let n = records.len();
    let mut i: usize = 0;
    while i < n
        invariant
            i <= n,
            n == records@.len(),
            out@ == concat_of(payloads_of(records@.take(i as int))),
        decreases n - i,
    {
        let ghost before = payloads_of(records@.take(i as int));
        let payload = &records[i].payload;
        let mut j: usize = 0;
        let m = payload.len();
        while j < m
            invariant
                j <= m,
                m == payload@.len(),
                payload@ == records@[i as int].payload@,
                i < n,
                n == records@.len(),
                out@ == concat_of(before) + payload@.subrange(0, j as int),
            decreases m - j,
        {
            out.push(payload[j]);
            assert(payload@.subrange(0, j + 1 as int) =~= payload@.subrange(0, j as int).push(
                payload@[j as int],
            ));
            j = j + 1;
        }
        proof {
            assert(payload@.subrange(0, m as int) =~= payload@);
            let after = payloads_of(records@.take(i as int + 1));
            assert(after.drop_last() =~= before);
            assert(after.last() == records@[i as int].payload@);
            assert(out@ == concat_of(after));
        }
        i = i + 1;
    }
    proof {
        assert(records@.take(n as int) =~= records@);
    }
    out
}

/// Everything one store-mode run persists: the single session row,
/// created once at session start, and one packet row per accepted,
/// decoded datagram, each referencing that session.
pub struct StorePlan {
    pub test_case: TestCase,
    pub rows: Vec<RTP>,
    pub fatal: Option<DecodeError>,
}

/// Builds the store-mode outcome of a whole run: exactly one session
/// record, and exactly as many packet rows as the capture publishes for
/// these events — each row carrying the decoded fields of its datagram
/// and the session's identifier. A decode failure aborts the run and is
/// reported; the rows before it stand.
pub fn plan_store_run(opts: FuncOpts, events: &Vec<CaptureEvent>) -> (plan: StorePlan)
    requires
        events@.len() < i64::MAX,
    ensures
        plan.test_case.inserted_at == plan.test_case.updated_at,
        plan.test_case.name@ == session_name_of(plan.test_case.inserted_at),
        plan.rows@.len() == spec_capture(opts, plan.test_case.id, events@, 0).0.len(),
        forall|j: int|
            0 <= j < plan.rows@.len() ==> rtp_matches(
                #[trigger] plan.rows@[j],
                spec_capture(opts, plan.test_case.id, events@, 0).0[j],
            ),
        forall|j: int|
            0 <= j < plan.rows@.len() ==> (#[trigger] plan.rows@[j]).test_case_id
                == plan.test_case.id,
        plan.fatal == spec_capture(opts, plan.test_case.id, events@, 0).1,
{
    let test_case = TestCase::create();
    let outcome = run_capture(opts, test_case.id, events);
    proof {
        crate::capture::lemma_session_reference(opts, test_case.id, events@, 0);
    }
    StorePlan { test_case, rows: outcome.records, fatal: outcome.fatal }
}

} // verus!
