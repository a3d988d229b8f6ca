use vstd::prelude::*;

use crate::cursor::{rc_rem, spec_u16_be, spec_u16_from_bytes};
use crate::types::UnitId;

verus! {

/// Why a byte stream failed to frame or deframe an ADU.
#[derive(Clone, Copy, Debug, PartialEq, Eq, Structural)]
pub enum FrameError {
    /// Fewer bytes than the header, or than the announced ADU, are available.
    IncompleteHeader,
    /// The protocol identifier field was not zero.
    UnknownProtocolId(u16),
    /// A length field outside 1..=254, or the byte count of a payload that
    /// cannot be framed.
    BadLength(usize),
}

/// The Modbus Application Protocol header that precedes every PDU on TCP.
#[derive(Clone, Copy, Debug, PartialEq, Eq, Structural)]
pub struct MbapHeader {
    pub tx_id: u16,
    pub protocol_id: u16,
    pub length: u16,
    pub unit_id: UnitId,
}

/// One deframed ADU: the transaction id, the addressed unit, and the PDU
/// bytes.
#[derive(Debug)]
pub struct Frame {
    pub tx_id: u16,
    pub unit_id: UnitId,
    pub payload: Vec<u8>,
}

/// The seven header bytes of an MBAP header.
pub open spec fn spec_header_bytes(header: MbapHeader) -> Seq<u8> {
    spec_u16_be(header.tx_id) + spec_u16_be(header.protocol_id) + spec_u16_be(header.length)
        + seq![header.unit_id.value]
}

/// The whole ADU that frames a PDU: header with `length = payload + 1`, then
/// the payload.
pub open spec fn spec_frame_bytes(tx_id: u16, unit_id: u8, payload: Seq<u8>) -> Seq<u8> {
    spec_header_bytes(
        MbapHeader {
            tx_id,
            protocol_id: 0,
            length: (payload.len() + 1) as u16,
            unit_id: UnitId { value: unit_id },
        },
    ) + payload
}

/// The deframing of a byte sequence: the transaction id, unit id, payload and
/// count of bytes consumed, or the exact error.
pub open spec fn spec_parse_frame(bytes: Seq<u8>) -> Result<(u16, u8, Seq<u8>, nat), FrameError> {
    if bytes.len() < 7 {
        Err(FrameError::IncompleteHeader)
    } else {
        let protocol_id = spec_u16_from_bytes(bytes[2], bytes[3]);
        let length = spec_u16_from_bytes(bytes[4], bytes[5]);
        if protocol_id != 0 {
            Err(FrameError::UnknownProtocolId(protocol_id))
        } else if length < 1 || length > 254 {
            Err(FrameError::BadLength(length as usize))
        } else if bytes.len() < 6 + length {
            Err(FrameError::IncompleteHeader)
        } else {
            Ok(
                (
                    spec_u16_from_bytes(bytes[0], bytes[1]),
                    bytes[6],
                    bytes.subrange(7, 6 + length),
                    (6 + length) as nat,
                ),
            )
        }
    }
}

/// Frames a PDU for the wire: the payload must hold between 1 and 253 bytes,
/// and the emitted ADU is the MBAP header followed by the payload.
pub fn format_frame(tx_id: u16, unit_id: UnitId, payload: &Vec<u8>) -> (r: Result<
    Vec<u8>,
    FrameError,
>)
    ensures
        1 <= payload@.len() <= 253 ==> (r matches Ok(adu) && adu@ == spec_frame_bytes(
            tx_id,
            unit_id.value,
            payload@,
        )),
        !(1 <= payload@.len() <= 253) ==> r == Err::<Vec<u8>, FrameError>(
            FrameError::BadLength(payload@.len() as usize),
        ),
{
    if payload.len() < 1 || payload.len() > 253 {
        return Err(FrameError::BadLength(payload.len()));
    }
    let length = (payload.len() + 1) as u16;
    let mut adu: Vec<u8> = Vec::new();
    adu.push((tx_id / 0x100) as u8);
    adu.push((tx_id % 0x100) as u8);
    adu.push(0);
    adu.push(0);
    adu.push((length / 0x100) as u8);
    adu.push((length % 0x100) as u8);
    adu.push(unit_id.value);
    let ghost header = adu@;
    assert(header =~= spec_header_bytes(
        MbapHeader { tx_id, protocol_id: 0, length, unit_id },
    ));
    let mut i: usize = 0;
    while i < payload.len()
        invariant
            i <= payload@.len(),
            adu@ == header + payload@.take(i as int),
        decreases payload@.len() - i,
    {
        adu.push(payload[i]);
        proof {
            assert(adu@ =~= header + payload@.take(i as int + 1));
        }
        i = i + 1;
    }
    proof {
        assert(payload@.take(payload@.len() as int) =~= payload@);
    }
    Ok(adu)
}

/// Deframes one ADU from the cursor: seven header bytes, a zero protocol id,
/// a length between 1 and 254, then the announced payload; on success exactly
/// the ADU's bytes are gone from the cursor.
pub fn parse_frame(cursor: &mut scursor::ReadCursor) -> (r: Result<Frame, FrameError>)
    ensures
        match spec_parse_frame(rc_rem(*old(cursor))) {
            Ok((tx_id, unit_id, payload, n)) => r matches Ok(frame) && frame.tx_id == tx_id
                && frame.unit_id.value == unit_id && frame.payload@ == payload && rc_rem(
                *final(cursor),
            ) == rc_rem(*old(cursor)).skip(n as int),
            Err(e) => r matches Err(got) && got == e,
        },
{
    let ghost bytes = rc_rem(*old(cursor));
    let tx_id = match cursor.read_u16_be() {
        Ok(v) => v,
        Err(_) => {
            return Err(FrameError::IncompleteHeader);
        },
    };
    let protocol_id = match cursor.read_u16_be() {
        Ok(v) => v,
        Err(_) => {
            return Err(FrameError::IncompleteHeader);
        },
    };
    let length = match cursor.read_u16_be() {
        Ok(v) => v,
        Err(_) => {
            return Err(FrameError::IncompleteHeader);
        },
    };
    let unit_id = match cursor.read_u8() {
        Ok(v) => v,
        Err(_) => {
            return Err(FrameError::IncompleteHeader);
        },
    };
    proof {
        assert(rc_rem(*cursor) =~= bytes.skip(7));
    }
    if protocol_id != 0 {
        return Err(FrameError::UnknownProtocolId(protocol_id));
    }
    if length < 1 || length > 254 {
        return Err(FrameError::BadLength(length as usize));
    }
    let payload = match crate::cursor::read_bytes_to_vec(cursor, (length - 1) as usize) {
        Ok(v) => v,
        Err(_) => {
            return Err(FrameError::IncompleteHeader);
        },
    };
    proof {
        assert(payload@ =~= bytes.subrange(7, 6 + length as int));
        assert(rc_rem(*cursor) =~= bytes.skip(6 + length as int));
    }
    Ok(Frame { tx_id, unit_id: UnitId { value: unit_id }, payload })
}

/// Law: for any PDU of 1 to 253 bytes, framing then deframing yields the
/// original transaction id, unit id and payload, consuming the whole ADU.
pub proof fn lemma_frame_roundtrip(tx_id: u16, unit_id: u8, payload: Seq<u8>)
    requires
        1 <= payload.len() <= 253,
    ensures
        spec_parse_frame(spec_frame_bytes(tx_id, unit_id, payload)) == Ok::<
            (u16, u8, Seq<u8>, nat),
            FrameError,
        >((tx_id, unit_id, payload, (payload.len() + 7) as nat)),
{
    let length = (payload.len() + 1) as u16;
    let bytes = spec_frame_bytes(tx_id, unit_id, payload);
    crate::cursor::lemma_u16_be_roundtrip(tx_id, 0, 0);
    crate::cursor::lemma_u16_be_roundtrip(0, 0, 0);
    crate::cursor::lemma_u16_be_roundtrip(length, 0, 0);
    assert(spec_u16_from_bytes(bytes[0], bytes[1]) == tx_id);
    assert(spec_u16_from_bytes(bytes[2], bytes[3]) == 0);
    assert(spec_u16_from_bytes(bytes[4], bytes[5]) == length);
    assert(bytes.subrange(7, 6 + length as int) =~= payload);
}

} // verus!
