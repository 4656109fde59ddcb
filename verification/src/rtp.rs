//! RTP datagram decoding: a pure bit-field extraction from raw bytes,
//! following the RFC 3550 header layout.

use vstd::prelude::*;

verus! {

/// Why decoding a datagram failed.
#[derive(Clone, Copy, Debug, PartialEq, Eq, Structural)]
pub enum DecodeError {
    /// The datagram has fewer than the 12 bytes of a fixed RTP header.
    TooShort,
    /// The version field does not hold 2, the only supported version.
    UnsupportedVersion,
    /// The CSRC list or the extension header runs past the end of the datagram.
    HeadersTruncated,
}

/// A decoded RTP packet: the header fields and the payload bytes that
/// follow the fixed header, the CSRC list and any extension header.
#[derive(Debug)]
pub struct RtpPacket {
    pub version: u8,
    pub padding: bool,
    pub extension: bool,
    pub csrc_count: u8,
    pub marker: bool,
    pub payload_type: u8,
    pub timestamp: u32,
    pub ssrc: u32,
    pub payload: Vec<u8>,
}

/// Mathematical image of a decoded packet.
#[verifier::ext_equal]
pub struct RtpView {
    pub version: u8,
    pub padding: bool,
    pub extension: bool,
    pub csrc_count: u8,
    pub marker: bool,
    pub payload_type: u8,
    pub timestamp: u32,
    pub ssrc: u32,
    pub payload: Seq<u8>,
}

impl View for RtpPacket {
    type V = RtpView;

    open spec fn view(&self) -> RtpView {
        RtpView {
            version: self.version,
            padding: self.padding,
            extension: self.extension,
            csrc_count: self.csrc_count,
            marker: self.marker,
            payload_type: self.payload_type,
            timestamp: self.timestamp,
            ssrc: self.ssrc,
            payload: self.payload@,
        }
    }
}

/// The version field: the top two bits of byte 0.
pub open spec fn version_of(d: Seq<u8>) -> u8 {
    d[0] >> 6
}

/// The padding flag: bit 5 of byte 0.
pub open spec fn padding_of(d: Seq<u8>) -> bool {
    d[0] & 0x20 != 0
}

/// The extension flag: bit 4 of byte 0.
pub open spec fn extension_of(d: Seq<u8>) -> bool {
    d[0] & 0x10 != 0
}

/// The CSRC count: the low four bits of byte 0.
pub open spec fn csrc_count_of(d: Seq<u8>) -> u8 {
    d[0] & 0x0f
}

/// The marker flag: the top bit of byte 1.
pub open spec fn marker_of(d: Seq<u8>) -> bool {
    d[1] & 0x80 != 0
}

/// The payload type: the low seven bits of byte 1.
pub open spec fn payload_type_of(d: Seq<u8>) -> u8 {
    d[1] & 0x7f
}

/// A big-endian 16-bit value read at byte offset `i`.
pub open spec fn be16_at(d: Seq<u8>, i: int) -> u16 {
    ((d[i] as u16) << 8) | (d[i + 1] as u16)
}

/// A big-endian 32-bit value read at byte offset `i`.
pub open spec fn be32_at(d: Seq<u8>, i: int) -> u32 {
    ((d[i] as u32) << 24) | ((d[i + 1] as u32) << 16) | ((d[i + 2] as u32) << 8) | (d[i
        + 3] as u32)
}

/// The RTP media-clock timestamp: bytes 4 to 7, big-endian.
pub open spec fn timestamp_of(d: Seq<u8>) -> u32 {
    be32_at(d, 4)
}

/// The synchronization source identifier: bytes 8 to 11, big-endian.
pub open spec fn ssrc_of(d: Seq<u8>) -> u32 {
    be32_at(d, 8)
}

/// The byte offset just past the CSRC list: 12 plus four bytes per CSRC.
pub open spec fn csrc_end_of(d: Seq<u8>) -> int {
    12 + 4 * (csrc_count_of(d) as int)
}

/// The length in 32-bit words of the extension data, read from the
/// extension header that follows the CSRC list.
pub open spec fn extension_words_of(d: Seq<u8>) -> int {
    be16_at(d, csrc_end_of(d) + 2) as int
}

/// The byte offset at which the payload begins: past the fixed header,
/// the CSRC list, and (when the extension flag is set) the four-byte
/// extension header and its data.
pub open spec fn payload_offset_of(d: Seq<u8>) -> int {
    if extension_of(d) {
        csrc_end_of(d) + 4 + 4 * extension_words_of(d)
    } else {
        csrc_end_of(d)
    }
}

/// Whether the declared headers all lie within the datagram.
pub open spec fn header_fits(d: Seq<u8>) -> bool {
    if extension_of(d) {
        csrc_end_of(d) + 4 <= d.len() && payload_offset_of(d) <= d.len()
    } else {
        csrc_end_of(d) <= d.len()
    }
}

/// What decoding a datagram returns, stated over the raw bytes: the
/// exact failure for each malformed shape, and otherwise every header
/// field read from its place in the RFC 3550 layout, with the payload
/// being all bytes from the payload offset to the end.
pub open spec fn spec_decode(d: Seq<u8>) -> Result<RtpView, DecodeError> {
    if d.len() < 12 {
        Err(DecodeError::TooShort)
    } else if version_of(d) != 2 {
        Err(DecodeError::UnsupportedVersion)
    } else if !header_fits(d) {
        Err(DecodeError::HeadersTruncated)
    } else {
        Ok(
            RtpView {
                version: version_of(d),
                padding: padding_of(d),
                extension: extension_of(d),
                csrc_count: csrc_count_of(d),
                marker: marker_of(d),
                payload_type: payload_type_of(d),
                timestamp: timestamp_of(d),
                ssrc: ssrc_of(d),
                payload: d.subrange(payload_offset_of(d), d.len() as int),
            },
        )
    }
}

/// Decodes one datagram. One call decodes exactly one datagram; there is
/// no buffering across calls. Succeeds if and only if the datagram holds
/// at least the 12-byte fixed header, carries version 2, and its declared
/// CSRC list and extension header fit inside it; on success the header
/// fields and the payload are exactly the bit-layout decomposition of the
/// input bytes, the payload beginning at the payload offset and running
/// to the end of the datagram.
pub fn decode(data: &Vec<u8>) -> (r: Result<RtpPacket, DecodeError>)
    ensures
        match r {
            Ok(p) => spec_decode(data@) == Ok::<RtpView, DecodeError>(p@),
            Err(e) => spec_decode(data@) == Err::<RtpView, DecodeError>(e),
        },
        r matches Ok(p) ==> p.payload@ == data@.subrange(payload_offset_of(data@), data@.len() as int)
            && p.payload@.len() == data@.len() - payload_offset_of(data@),
{
    let n = data.len();
    if n < 12 {
        return Err(DecodeError::TooShort);
    }
    let b0 = data[0];
    let version = b0 >> 6;
    if version != 2 {
        return Err(DecodeError::UnsupportedVersion);
    }
    let b1 = data[1];
    let padding = b0 & 0x20 != 0;
    let extension = b0 & 0x10 != 0;
    let csrc_count = b0 & 0x0f;
    let marker = b1 & 0x80 != 0;
    let payload_type = b1 & 0x7f;
    assert(b0 & 0x0f <= 0x0f) by (bit_vector);
    let csrc_end: usize = 12 + 4 * (csrc_count as usize);
    let offset: usize;
    if extension {
        if csrc_end + 4 > n {
            return Err(DecodeError::HeadersTruncated);
        }
        let words: u16 = ((data[csrc_end + 2] as u16) << 8) | (data[csrc_end + 3] as u16);
        offset = csrc_end + 4 + 4 * (words as usize);
        if offset > n {
            return Err(DecodeError::HeadersTruncated);
        }
    } else {
        if csrc_end > n {
            return Err(DecodeError::HeadersTruncated);
        }
        offset = csrc_end;
    }
    let timestamp: u32 = ((data[4] as u32) << 24) | ((data[5] as u32) << 16) | ((data[6]
        as u32) << 8) | (data[7] as u32);
    let ssrc: u32 = ((data[8] as u32) << 24) | ((data[9] as u32) << 16) | ((data[10] as u32)
        << 8) | (data[11] as u32);
    let mut payload: Vec<u8> = Vec::new();
    let mut i: usize = offset;
    while i < n
        invariant
            offset <= i <= n,
            n == data@.len(),
            payload@ == data@.subrange(offset as int, i as int),
        decreases n - i,
    {
        payload.push(data[i]);
        assert(data@.subrange(offset as int, i + 1 as int) =~= data@.subrange(
            offset as int,
            i as int,
        ).push(data@[i as int]));
        i = i + 1;
    }
    let p = RtpPacket {
        version,
        padding,
        extension,
        csrc_count,
        marker,
        payload_type,
        timestamp,
        ssrc,
        payload,
    };
    assert(spec_decode(data@) matches Ok(v) && v =~= p@);
    Ok(p)
}

} // verus!
