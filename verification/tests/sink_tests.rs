use aes67_capture::capture::{run_capture, CaptureEvent};
use aes67_capture::model::TestCase;
use aes67_capture::rtp::DecodeError;
use aes67_capture::sink::{concat_payloads, plan_store_run};
use aes67_capture::workers::{FuncOpts, PeerAddr};

fn addr(ip: u32, port: u16) -> PeerAddr {
    PeerAddr { is_v6: false, ip: ip as u128, port }
}

fn datagram(payload: &[u8], src: PeerAddr, received_at: i32) -> CaptureEvent {
    let mut data = vec![0x80u8, 0x60, 0, 1, 0, 0, 0, 0, 0, 0, 0, 42];
    data.extend_from_slice(payload);
    CaptureEvent::Datagram { src, data, received_at }
}

#[test]
fn redirect_output_is_payload_concatenation() {
    // two datagrams with payloads "AA" and "BB": the redirect output is
    // exactly the four bytes "AABB", with no separators
    let opts = FuncOpts { packet_limit: None, opponent_addr: None };
    let src = addr(1, 1);
    let events = vec![datagram(b"AA", src, 1), datagram(b"BB", src, 2)];
    let out = run_capture(opts, 0, &events);
    assert_eq!(out.records.len(), 2);
    let bytes = concat_payloads(&out.records);
    assert_eq!(bytes, b"AABB".to_vec());
}

#[test]
fn redirect_output_of_no_records_is_empty() {
    let bytes = concat_payloads(&Vec::new());
    assert!(bytes.is_empty());
}

#[test]
fn redirect_output_keeps_arrival_order() {
    let opts = FuncOpts { packet_limit: None, opponent_addr: None };
    let src = addr(1, 1);
    let events = vec![
        datagram(b"one-", src, 1),
        datagram(b"", src, 2),
        datagram(b"two-", src, 3),
        datagram(b"three", src, 4),
    ];
    let out = run_capture(opts, 0, &events);
    let bytes = concat_payloads(&out.records);
    assert_eq!(bytes, b"one-two-three".to_vec());
}

#[test]
fn session_record_has_equal_audit_timestamps() {
    let t = TestCase::create();
    assert_eq!(t.inserted_at, t.updated_at);
    let other = TestCase::create();
    // fresh identifiers: two sessions never share one
    assert_ne!(t.id, other.id);
}

#[test]
fn store_plan_links_every_row_to_the_one_session() {
    let opts = FuncOpts { packet_limit: None, opponent_addr: None };
    let src = addr(3, 3);
    let events = vec![
        datagram(b"a", src, 1),
        datagram(b"b", src, 2),
        datagram(b"c", src, 3),
    ];
    let plan = plan_store_run(opts, &events);
    assert!(plan.fatal.is_none());
    assert_eq!(plan.rows.len(), 3);
    for (k, row) in plan.rows.iter().enumerate() {
        assert_eq!(row.test_case_id, plan.test_case.id);
        assert_eq!(row.serial, k as i64);
    }
}

#[test]
fn store_plan_respects_packet_limit() {
    let opts = FuncOpts { packet_limit: Some(2), opponent_addr: None };
    let src = addr(3, 3);
    let events: Vec<CaptureEvent> =
        (0..4).map(|k| datagram(&[k as u8], src, k)).collect();
    let plan = plan_store_run(opts, &events);
    assert!(plan.fatal.is_none());
    assert_eq!(plan.rows.len(), 2);
}

#[test]
fn store_plan_reports_fatal_decode() {
    let opts = FuncOpts { packet_limit: None, opponent_addr: None };
    let src = addr(3, 3);
    let events = vec![
        datagram(b"a", src, 1),
        CaptureEvent::Datagram { src, data: vec![0u8; 4], received_at: 2 },
        datagram(b"c", src, 3),
    ];
    let plan = plan_store_run(opts, &events);
    assert_eq!(plan.fatal, Some(DecodeError::TooShort));
    // the row accepted before the failure stands; nothing follows it
    assert_eq!(plan.rows.len(), 1);
    assert_eq!(plan.rows[0].serial, 0);
}
