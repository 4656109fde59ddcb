use aes67_capture::rtp::{decode, DecodeError};

/// Builds an RTP datagram byte by byte from the RFC 3550 header layout.
fn build_packet(
    version: u8,
    padding: bool,
    extension: bool,
    csrc: &[u32],
    marker: bool,
    payload_type: u8,
    sequence: u16,
    timestamp: u32,
    ssrc: u32,
    ext_words: &[u32],
    payload: &[u8],
) -> Vec<u8> {
    let mut d = Vec::new();
    let mut b0 = (version << 6) | (csrc.len() as u8);
    if padding {
        b0 |= 0x20;
    }
    if extension {
        b0 |= 0x10;
    }
    d.push(b0);
    let mut b1 = payload_type & 0x7f;
    if marker {
        b1 |= 0x80;
    }
    d.push(b1);
    d.extend_from_slice(&sequence.to_be_bytes());
    d.extend_from_slice(&timestamp.to_be_bytes());
    d.extend_from_slice(&ssrc.to_be_bytes());
    for c in csrc {
        d.extend_from_slice(&c.to_be_bytes());
    }
    if extension {
        d.extend_from_slice(&0xbedeu16.to_be_bytes());
        d.extend_from_slice(&(ext_words.len() as u16).to_be_bytes());
        for w in ext_words {
            d.extend_from_slice(&w.to_be_bytes());
        }
    }
    d.extend_from_slice(payload);
    d
}

#[test]
fn decode_reads_every_header_field() {
    let payload: Vec<u8> = (0u8..160).collect();
    let data = build_packet(
        2, false, false, &[], true, 96, 10040, 1_692_665_255, 0xa242_af01, &[], &payload,
    );
    assert_eq!(data.len(), 172);
    let p = decode(&data).unwrap();
    assert_eq!(p.version, 2);
    assert!(!p.padding);
    assert!(!p.extension);
    assert_eq!(p.csrc_count, 0);
    assert!(p.marker);
    assert_eq!(p.payload_type, 96);
    assert_eq!(p.timestamp, 1_692_665_255);
    assert_eq!(p.ssrc, 0xa242_af01);
    assert_eq!(p.payload, payload);
}

#[test]
fn decode_payload_starts_after_csrc_list() {
    let payload = b"audio".to_vec();
    let data = build_packet(
        2, false, false, &[0x11111111, 0x22222222], false, 10, 7, 99, 1234, &[], &payload,
    );
    // payload begins at byte offset 12 + 4 * 2
    assert_eq!(data.len(), 20 + payload.len());
    let p = decode(&data).unwrap();
    assert_eq!(p.csrc_count, 2);
    assert_eq!(p.payload, payload);
    assert_eq!(p.payload.len(), data.len() - 20);
}

#[test]
fn decode_payload_starts_after_extension() {
    let payload = b"xyz".to_vec();
    let data = build_packet(
        2, false, true, &[0x01020304], false, 33, 1, 2, 3, &[0xaabbccdd, 0x55667788], &payload,
    );
    // payload begins at 12 + 4 (csrc) + 4 (extension header) + 8 (extension data)
    assert_eq!(data.len(), 28 + payload.len());
    let p = decode(&data).unwrap();
    assert!(p.extension);
    assert_eq!(p.csrc_count, 1);
    assert_eq!(p.payload, payload);
}

#[test]
fn decode_keeps_padding_bytes_in_payload() {
    let payload = [1u8, 2, 3, 4];
    let data = build_packet(2, true, false, &[], false, 0, 0, 0, 0, &[], &payload);
    let p = decode(&data).unwrap();
    assert!(p.padding);
    assert_eq!(p.payload, payload.to_vec());
}

#[test]
fn decode_empty_payload() {
    let data = build_packet(2, false, false, &[], false, 0, 0, 0, 0, &[], &[]);
    assert_eq!(data.len(), 12);
    let p = decode(&data).unwrap();
    assert_eq!(p.payload.len(), 0);
}

#[test]
fn decode_rejects_short_datagram() {
    let data = vec![0x80u8; 11];
    assert_eq!(decode(&data).unwrap_err(), DecodeError::TooShort);
    assert_eq!(decode(&Vec::new()).unwrap_err(), DecodeError::TooShort);
}

#[test]
fn decode_rejects_version_one() {
    let mut data = build_packet(2, false, false, &[], false, 0, 0, 0, 0, &[], b"x");
    data[0] = (data[0] & 0x3f) | (1 << 6);
    assert_eq!(decode(&data).unwrap_err(), DecodeError::UnsupportedVersion);
}

#[test]
fn decode_rejects_truncated_csrc_list() {
    // csrc_count claims 3 sources, but no CSRC bytes follow the header
    let data = build_packet(2, false, false, &[], false, 0, 0, 0, 0, &[], b"")
        .iter()
        .enumerate()
        .map(|(i, b)| if i == 0 { (b & 0xf0) | 3 } else { *b })
        .collect();
    assert_eq!(decode(&data).unwrap_err(), DecodeError::HeadersTruncated);
}

#[test]
fn decode_rejects_truncated_extension() {
    // extension flag set, but the four-byte extension header is missing
    let mut data = build_packet(2, false, false, &[], false, 0, 0, 0, 0, &[], b"");
    data[0] |= 0x10;
    assert_eq!(decode(&data).unwrap_err(), DecodeError::HeadersTruncated);

    // extension header present but declares more words than remain:
    // the length field sits at bytes 14 and 15 when the CSRC list is empty
    let mut data = build_packet(2, false, true, &[], false, 0, 0, 0, 0, &[0x01010101], b"");
    data[14] = 0;
    data[15] = 9;
    assert_eq!(decode(&data).unwrap_err(), DecodeError::HeadersTruncated);
}

#[test]
fn decode_agrees_with_rtp_rs_reader() {
    let payload: Vec<u8> = (0u8..64).map(|b| b.wrapping_mul(7)) .collect();
    let data = build_packet(
        2, false, true, &[0xdeadbeef], true, 111, 20475, 3_765_987_531, 509_004_991,
        &[0x22afb958, 0x31_00ab40], &payload,
    );
    let ours = decode(&data).unwrap();
    let theirs = rtp_rs::RtpReader::new(&data).unwrap();
    assert_eq!(ours.version, theirs.version());
    assert_eq!(ours.csrc_count, theirs.csrc_count());
    assert_eq!(ours.marker, theirs.mark());
    assert_eq!(ours.payload_type, theirs.payload_type());
    assert_eq!(ours.timestamp, theirs.timestamp());
    assert_eq!(ours.ssrc, theirs.ssrc());
    assert_eq!(ours.extension, theirs.extension().is_some());
    assert_eq!(ours.payload, theirs.payload().to_vec());
}
