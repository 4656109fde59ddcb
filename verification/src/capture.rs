//! The capture loop as a state machine: one step consumes one receive
//! event (a datagram with its source and arrival stamp, or a transient
//! receive failure) and decides what the pipeline does with it — discard
//! it, publish a numbered packet record, or stop the run on a fatal
//! decode failure or on the packet limit.
//!
//! The socket itself lives outside the library; the loop that owns it
//! feeds each event into [`CaptureLoop::step`] and performs the returned
//! action. [`run_capture`] plays a whole sequence of events through the
//! machine, and is what the run-level statements and tests are about.

use vstd::prelude::*;

use crate::model::RTP;
use crate::rtp::{decode, spec_decode, DecodeError, RtpView};
use crate::workers::{FuncOpts, PeerAddr};

verus! {

/// One thing the socket loop observed: a datagram with its source
/// address and its arrival stamp (microseconds within the second, from
/// the monotonic clock), or a transient receive failure.
pub enum CaptureEvent {
    Datagram { src: PeerAddr, data: Vec<u8>, received_at: i32 },
    RecvFailed,
}

/// What one step decides: publish a record to the channel, discard the
/// event, or abort the run on a decode failure.
pub enum CaptureAction {
    Published(RTP),
    Discarded,
    Fatal(DecodeError),
}

/// The deterministic image of one published record: every field that the
/// capture step pins down. The record's identifier and audit timestamps
/// come from outside sources and are not part of it.
#[verifier::ext_equal]
pub struct PacketView {
    pub serial: i64,
    pub test_case_id: u128,
    pub version: u8,
    pub padding: bool,
    pub extension: bool,
    pub csrc_count: u8,
    pub marker: bool,
    pub payload_type: u8,
    pub timestamp: u32,
    pub ssrc: u32,
    pub payload: Seq<u8>,
    pub received_at: i32,
}

/// Whether the filter lets this event through to the decoder: a datagram
/// whose source matches the configured address, or any datagram when no
/// filter is configured. A transient receive failure produces nothing.
pub open spec fn accepts(opts: FuncOpts, e: CaptureEvent) -> bool {
    match e {
        CaptureEvent::Datagram { src, .. } => match opts.opponent_addr {
            Some(addr) => src == addr,
            None => true,
        },
        CaptureEvent::RecvFailed => false,
    }
}

/// The bytes a datagram event carries.
pub open spec fn event_data(e: CaptureEvent) -> Seq<u8> {
    match e {
        CaptureEvent::Datagram { data, .. } => data@,
        CaptureEvent::RecvFailed => Seq::empty(),
    }
}

/// The arrival stamp a datagram event carries.
pub open spec fn event_stamp(e: CaptureEvent) -> i32 {
    match e {
        CaptureEvent::Datagram { received_at, .. } => received_at,
        CaptureEvent::RecvFailed => 0,
    }
}

/// Whether a serial count has reached the configured packet limit.
pub open spec fn limit_reached(opts: FuncOpts, serial: int) -> bool {
    match opts.packet_limit {
        Some(n) => serial >= n,
        None => false,
    }
}

/// The image of the record published for a decoded packet.
pub open spec fn packet_view_of(serial: int, test_case_id: u128, p: RtpView, received_at: i32) -> PacketView {
    PacketView {
        serial: serial as i64,
        test_case_id,
        version: p.version,
        padding: p.padding,
        extension: p.extension,
        csrc_count: p.csrc_count,
        marker: p.marker,
        payload_type: p.payload_type,
        timestamp: p.timestamp,
        ssrc: p.ssrc,
        payload: p.payload,
        received_at,
    }
}

/// Whether a built record agrees with its deterministic image: every
/// pinned field equal, and the two audit timestamps equal to each other.
pub open spec fn rtp_matches(r: RTP, pv: PacketView) -> bool {
    &&& r.serial == pv.serial
    &&& r.test_case_id == pv.test_case_id
    &&& r.version == pv.version
    &&& r.padding == pv.padding
    &&& r.extension == pv.extension
    &&& r.csrc_count == pv.csrc_count
    &&& r.marker == pv.marker
    &&& r.payload_type == pv.payload_type
    &&& r.timestamp == pv.timestamp
    &&& r.ssrc == pv.ssrc
    &&& r.payload@ == pv.payload
    &&& r.received_at == pv.received_at
    &&& r.inserted_at == r.updated_at
}

/// What a whole capture run publishes, for a given event sequence: the
/// images of the published records in order, and the decode failure that
/// aborted the run, if one did. Filtered events and receive failures
/// contribute nothing; each accepted datagram is decoded and published
/// with the next serial; a decode failure ends the run at once; reaching
/// the packet limit ends it after the packet that reached it.
pub open spec fn spec_capture(
    opts: FuncOpts,
    test_case_id: u128,
    events: Seq<CaptureEvent>,
    serial: int,
) -> (Seq<PacketView>, Option<DecodeError>)
    decreases events.len(),
{
    if events.len() == 0 {
        (Seq::empty(), None)
    } else {
        let e = events[0];
        let rest = events.drop_first();
        if !accepts(opts, e) {
            spec_capture(opts, test_case_id, rest, serial)
        } else {
            match spec_decode(event_data(e)) {
                Err(err) => (Seq::empty(), Some(err)),
                Ok(p) => {
                    let pv = packet_view_of(serial, test_case_id, p, event_stamp(e));
                    if limit_reached(opts, serial + 1) {
                        (seq![pv], None)
                    } else {
                        let sub = spec_capture(opts, test_case_id, rest, serial + 1);
                        (seq![pv] + sub.0, sub.1)
                    }
                },
            }
        }
    }
}

/// The capture loop's mutable state: the immutable options and session
/// reference, the next serial to assign, and whether the loop is still
/// running (it stops on a fatal decode failure or on the packet limit).
pub struct CaptureLoop {
    pub opts: FuncOpts,
    pub test_case_id: u128,
    pub serial: i64,
    pub active: bool,
}

impl CaptureLoop {
    /// A fresh capture loop: serial 0, running.
    pub fn new(opts: FuncOpts, test_case_id: u128) -> (c: CaptureLoop)
        ensures
            c.opts == opts,
            c.test_case_id == test_case_id,
            c.serial == 0,
            c.active,
    {
        CaptureLoop { opts, test_case_id, serial: 0, active: true }
    }

    /// Consumes one receive event. A filtered or failed receive changes
    /// nothing and is discarded; an accepted datagram that fails to
    /// decode is fatal and stops the loop without advancing the serial;
    /// an accepted datagram that decodes is published as a record
    /// carrying the current serial, the serial advances, and the loop
    /// stops exactly when the advanced serial reaches the limit.
    pub fn step(&mut self, e: &CaptureEvent) -> (act: CaptureAction)
        requires
            old(self).active,
            0 <= old(self).serial < i64::MAX,
        ensures
            final(self).opts == old(self).opts,
            final(self).test_case_id == old(self).test_case_id,
            !accepts(old(self).opts, *e) ==> *final(self) == *old(self) && act == CaptureAction::Discarded,
            accepts(old(self).opts, *e) ==> match spec_decode(event_data(*e)) {
                Err(err) => {
                    &&& act == CaptureAction::Fatal(err)
                    &&& final(self).serial == old(self).serial
                    &&& !final(self).active
                },
                Ok(p) => {
                    &&& act matches CaptureAction::Published(r) && rtp_matches(
                        r,
                        packet_view_of(
                            old(self).serial as int,
                            old(self).test_case_id,
                            p,
                            event_stamp(*e),
                        ),
                    )
                    &&& final(self).serial == old(self).serial + 1
                    &&& final(self).active == !limit_reached(old(self).opts, old(self).serial + 1)
                },
            },
    {
        match e {
            CaptureEvent::RecvFailed => CaptureAction::Discarded,
            CaptureEvent::Datagram { src, data, received_at } => {
                if let Some(addr) = self.opts.opponent_addr {
                    if !(*src == addr) {
                        return CaptureAction::Discarded;
                    }
                }
                match decode(data) {
                    Err(err) => {
                        self.active = false;
                        CaptureAction::Fatal(err)
                    },
                    Ok(p) => {
                        let record = RTP::from_packet(
                            self.serial,
                            self.test_case_id,
                            p,
                            *received_at,
                        );
                        self.serial = self.serial + 1;
                        let still_running = match self.opts.packet_limit {
                            Some(n) => (self.serial as u128) < (n as u128),
                            None => true,
                        };
                        self.active = still_running;
                        CaptureAction::Published(record)
                    },
                }
            },
        }
    }
}

/// What a whole run produced: the published records in order, and the
/// decode failure that aborted the run, if one did.
pub struct CaptureOutcome {
    pub records: Vec<RTP>,
    pub fatal: Option<DecodeError>,
}

/// Plays a whole sequence of receive events through the capture loop,
/// collecting every published record, and stopping early on a fatal
/// decode failure or on the packet limit. The records and the outcome
/// are exactly what [`spec_capture`] states for the events.
pub fn run_capture(opts: FuncOpts, test_case_id: u128, events: &Vec<CaptureEvent>) -> (out:
    CaptureOutcome)
    requires
        events@.len() < i64::MAX,
    ensures
        out.records@.len() == spec_capture(opts, test_case_id, events@, 0).0.len(),
        forall|j: int|
            0 <= j < out.records@.len() ==> rtp_matches(
                #[trigger] out.records@[j],
                spec_capture(opts, test_case_id, events@, 0).0[j],
            ),
        out.fatal == spec_capture(opts, test_case_id, events@, 0).1,
{
    let mut cap = CaptureLoop::new(opts, test_case_id);
    let mut records: Vec<RTP> = Vec::new();
    let mut fatal: Option<DecodeError> = None;
    let ghost mut views: Seq<PacketView> = Seq::empty();
    let n = events.len();
    let mut i: usize = 0;
    proof {
        assert(events@.skip(0) =~= events@);
        assert(Seq::<PacketView>::empty() + spec_capture(opts, test_case_id, events@, 0).0
            =~= spec_capture(opts, test_case_id, events@, 0).0);
    }
    while i < n && cap.active
        invariant
            i <= n,
            n == events@.len(),
            n < i64::MAX,
            cap.opts == opts,
            cap.test_case_id == test_case_id,
            0 <= cap.serial,
            cap.serial == views.len(),
            views.len() <= i,
            records@.len() == views.len(),
            forall|j: int|
                0 <= j < views.len() ==> rtp_matches(#[trigger] records@[j], views[j]),
            cap.active ==> fatal is None && spec_capture(opts, test_case_id, events@, 0) == (
                views + spec_capture(opts, test_case_id, events@.skip(i as int), views.len() as int).0,
                spec_capture(opts, test_case_id, events@.skip(i as int), views.len() as int).1,
            ),
            !cap.active ==> spec_capture(opts, test_case_id, events@, 0) == (views, fatal),
        decreases n - i,
    {
        let ghost pre_serial = cap.serial as int;
        let ghost tail = events@.skip(i as int);
        proof {
            assert(tail.len() > 0);
            assert(tail[0] == events@[i as int]);
            assert(tail.drop_first() =~= events@.skip(i as int + 1));
        }
        let act = cap.step(&events[i]);
        match act {
            CaptureAction::Discarded => {},
            CaptureAction::Published(_) => {},
            CaptureAction::Fatal(err) => {
                fatal = Some(err);
            },
        }
        proof {
            let e = events@[i as int];
            if accepts(opts, e) && spec_decode(event_data(e)) is Ok {
                let p = spec_decode(event_data(e))->Ok_0;
                let pv = packet_view_of(pre_serial, test_case_id, p, event_stamp(e));
                if !limit_reached(opts, pre_serial + 1) {
                    let sub = spec_capture(opts, test_case_id, tail.drop_first(), pre_serial + 1);
                    assert(views + (seq![pv] + sub.0) =~= views.push(pv) + sub.0);
                } else {
                    assert(views + seq![pv] =~= views.push(pv));
                }
                views = views.push(pv);
            } else if accepts(opts, e) {
                assert(views + Seq::<PacketView>::empty() =~= views);
            } else {
                assert(spec_capture(opts, test_case_id, tail, pre_serial) == spec_capture(
                    opts,
                    test_case_id,
                    tail.drop_first(),
                    pre_serial,
                ));
            }
        }
        match act {
            CaptureAction::Published(r) => {
                records.push(r);
            },
            CaptureAction::Discarded => {},
            CaptureAction::Fatal(_) => {},
        }
        i = i + 1;
    }
    proof {
        if cap.active {
            assert(events@.skip(n as int) =~= Seq::<CaptureEvent>::empty());
            assert(views + Seq::<PacketView>::empty() =~= views);
        }
    }
    CaptureOutcome { records, fatal }
}

proof fn lemma_serials_from(opts: FuncOpts, test_case_id: u128, events: Seq<CaptureEvent>, serial: int)
    requires
        0 <= serial,
        serial + events.len() <= i64::MAX,
    ensures
        forall|j: int|
            0 <= j < spec_capture(opts, test_case_id, events, serial).0.len() ==> (
            #[trigger] spec_capture(opts, test_case_id, events, serial).0[j]).serial == serial + j,
    decreases events.len(),
{
    if events.len() == 0 {
    } else {
        let e = events[0];
        let rest = events.drop_first();
        if !accepts(opts, e) {
            lemma_serials_from(opts, test_case_id, rest, serial);
            assert(spec_capture(opts, test_case_id, events, serial) == spec_capture(
                opts,
                test_case_id,
                rest,
                serial,
            ));
        } else {
            match spec_decode(event_data(e)) {
                Err(_) => {
                    assert(spec_capture(opts, test_case_id, events, serial).0.len() == 0);
                },
                Ok(p) => {
                    let pv = packet_view_of(serial, test_case_id, p, event_stamp(e));
                    if limit_reached(opts, serial + 1) {
                        assert(spec_capture(opts, test_case_id, events, serial).0 == seq![pv]);
                        assert(spec_capture(opts, test_case_id, events, serial).0[0].serial
                            == serial);
                    } else {
                        lemma_serials_from(opts, test_case_id, rest, serial + 1);
                        let sub = spec_capture(opts, test_case_id, rest, serial + 1);
                        let whole = spec_capture(opts, test_case_id, events, serial);
                        assert forall|j: int| 0 <= j < whole.0.len() implies (#[trigger] whole.0[j]).serial
                            == serial + j by {
                            if j > 0 {
                                assert(whole.0[j] == sub.0[j - 1]);
                            }
                        }
                    }
                },
            }
        }
    }
}

/// Within one session, the serial values of the published records are
/// exactly 0, 1, 2, … in order: no gaps and no repeats, whatever mix of
/// accepted, filtered and failing events arrived.
pub proof fn lemma_serials_consecutive(
    opts: FuncOpts,
    test_case_id: u128,
    events: Seq<CaptureEvent>,
)
    requires
        events.len() <= i64::MAX,
    ensures
        forall|j: int|
            0 <= j < spec_capture(opts, test_case_id, events, 0).0.len() ==> (
            #[trigger] spec_capture(opts, test_case_id, events, 0).0[j]).serial == j,
{
    lemma_serials_from(opts, test_case_id, events, 0);
}

/// Every record a run publishes references the session the run was
/// started for.
pub proof fn lemma_session_reference(
    opts: FuncOpts,
    test_case_id: u128,
    events: Seq<CaptureEvent>,
    serial: int,
)
    ensures
        forall|j: int|
            0 <= j < spec_capture(opts, test_case_id, events, serial).0.len() ==> (
            #[trigger] spec_capture(opts, test_case_id, events, serial).0[j]).test_case_id
                == test_case_id,
    decreases events.len(),
{
    if events.len() == 0 {
    } else {
        let e = events[0];
        let rest = events.drop_first();
        if !accepts(opts, e) {
            lemma_session_reference(opts, test_case_id, rest, serial);
            assert(spec_capture(opts, test_case_id, events, serial) == spec_capture(
                opts,
                test_case_id,
                rest,
                serial,
            ));
        } else {
            match spec_decode(event_data(e)) {
                Err(_) => {},
                Ok(p) => {
                    let pv = packet_view_of(serial, test_case_id, p, event_stamp(e));
                    if limit_reached(opts, serial + 1) {
                        assert(spec_capture(opts, test_case_id, events, serial).0 == seq![pv]);
                    } else {
                        lemma_session_reference(opts, test_case_id, rest, serial + 1);
                        let sub = spec_capture(opts, test_case_id, rest, serial + 1);
                        let whole = spec_capture(opts, test_case_id, events, serial);
                        assert forall|j: int| 0 <= j < whole.0.len() implies (
                        #[trigger] whole.0[j]).test_case_id == test_case_id by {
                            if j > 0 {
                                assert(whole.0[j] == sub.0[j - 1]);
                            }
                        }
                    }
                },
            }
        }
    }
}

proof fn lemma_limit_bound_from(
    opts: FuncOpts,
    test_case_id: u128,
    events: Seq<CaptureEvent>,
    serial: int,
    n: usize,
)
    requires
        opts.packet_limit == Some(n),
        serial < n,
    ensures
        spec_capture(opts, test_case_id, events, serial).0.len() <= n - serial,
    decreases events.len(),
{
    if events.len() == 0 {
    } else {
        let e = events[0];
        let rest = events.drop_first();
        if !accepts(opts, e) {
            lemma_limit_bound_from(opts, test_case_id, rest, serial, n);
        } else {
            match spec_decode(event_data(e)) {
                Err(_) => {},
                Ok(_) => {
                    if !limit_reached(opts, serial + 1) {
                        lemma_limit_bound_from(opts, test_case_id, rest, serial + 1, n);
                    }
                },
            }
        }
    }
}

proof fn lemma_limit_exact_from(
    opts: FuncOpts,
    test_case_id: u128,
    events: Seq<CaptureEvent>,
    serial: int,
    n: usize,
)
    requires
        opts.packet_limit == Some(n),
        serial < n,
        n - serial <= events.len(),
        forall|j: int|
            0 <= j < events.len() ==> accepts(opts, #[trigger] events[j]) && spec_decode(
                event_data(events[j]),
            ) is Ok,
    ensures
        spec_capture(opts, test_case_id, events, serial).0.len() == n - serial,
        spec_capture(opts, test_case_id, events, serial).1 is None,
    decreases events.len(),
{
    let e = events[0];
    let rest = events.drop_first();
    if limit_reached(opts, serial + 1) {
    } else {
        assert forall|j: int| 0 <= j < rest.len() implies accepts(opts, #[trigger] rest[j])
            && spec_decode(event_data(rest[j])) is Ok by {
            assert(rest[j] == events[j + 1]);
        }
        lemma_limit_exact_from(opts, test_case_id, rest, serial + 1, n);
    }
}

/// With `packet_limit` set to `n` (at least 1), a run never publishes
/// more than `n` records; and when at least `n` events arrive, all of
/// them accepted and decodable, it publishes exactly `n` records and
/// ends without a failure — the events past the limit are never reached.
pub proof fn lemma_packet_limit(
    opts: FuncOpts,
    test_case_id: u128,
    events: Seq<CaptureEvent>,
    n: usize,
)
    requires
        opts.packet_limit == Some(n),
        n >= 1,
    ensures
        spec_capture(opts, test_case_id, events, 0).0.len() <= n,
        (events.len() >= n && forall|j: int|
            0 <= j < events.len() ==> accepts(opts, #[trigger] events[j]) && spec_decode(
                event_data(events[j]),
            ) is Ok) ==> spec_capture(opts, test_case_id, events, 0).0.len() == n
            && spec_capture(opts, test_case_id, events, 0).1 is None,
{
    lemma_limit_bound_from(opts, test_case_id, events, 0, n);
    if events.len() >= n && forall|j: int|
        0 <= j < events.len() ==> accepts(opts, #[trigger] events[j]) && spec_decode(
            event_data(events[j]),
        ) is Ok {
        lemma_limit_exact_from(opts, test_case_id, events, 0, n);
    }
}

/// The accepted subsequence of an event sequence: the datagrams that
/// pass the source filter, in their arrival order.
pub open spec fn accepted_of(opts: FuncOpts, events: Seq<CaptureEvent>) -> Seq<CaptureEvent>
    decreases events.len(),
{
    if events.len() == 0 {
        Seq::empty()
    } else if accepts(opts, events[0]) {
        seq![events[0]] + accepted_of(opts, events.drop_first())
    } else {
        accepted_of(opts, events.drop_first())
    }
}

/// Datagrams from non-matching sources and failed receives leave no
/// trace: a run over the full event sequence publishes exactly the
/// records of a run over the accepted events alone — same records, same
/// serials, same outcome.
pub proof fn lemma_source_filter(
    opts: FuncOpts,
    test_case_id: u128,
    events: Seq<CaptureEvent>,
    serial: int,
)
    ensures
        spec_capture(opts, test_case_id, events, serial) == spec_capture(
            opts,
            test_case_id,
            accepted_of(opts, events),
            serial,
        ),
    decreases events.len(),
{
    if events.len() == 0 {
    } else {
        let e = events[0];
        let rest = events.drop_first();
        if !accepts(opts, e) {
            lemma_source_filter(opts, test_case_id, rest, serial);
        } else {
            let acc = accepted_of(opts, events);
            assert(acc == seq![e] + accepted_of(opts, rest));
            assert(acc[0] == e);
            assert(acc.drop_first() =~= accepted_of(opts, rest));
            match spec_decode(event_data(e)) {
                Err(_) => {},
                Ok(_) => {
                    if !limit_reached(opts, serial + 1) {
                        lemma_source_filter(opts, test_case_id, rest, serial + 1);
                    }
                },
            }
        }
    }
}

} // verus!
