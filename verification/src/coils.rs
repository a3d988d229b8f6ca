use vstd::prelude::*;

use crate::bits::{decode_bits, encode_bits, spec_bit_at, spec_packed};
use crate::cursor::{rc_rem, spec_u16_be, spec_u16_from_bytes, wc_space, wc_written};
use crate::error::{BadRequestError, InternalError, RequestError};
use crate::traits::{ParseRequest, ParseResponse, Serialize};
use crate::types::{AddressRange, Indexed, WriteMultiple};

verus! {

/// The request body of a multiple coil write: start, count, byte count
/// (ceil(count / 8)), then the packed bits.
impl Serialize for WriteMultiple<bool> {
    open spec fn encoding(&self) -> Seq<u8> {
        spec_u16_be(self.spec_start()) + spec_u16_be(self.spec_values().len() as u16) + seq![
            ((self.spec_values().len() + 7) / 8) as u8,
        ] + spec_packed(self.spec_values())
    }

    open spec fn encodable(&self) -> bool {
        true
    }

    fn serialize(&self, cursor: &mut scursor::WriteCursor) -> (r: Result<(), RequestError>) {
        let values = self.values();
        let count = values.len();
        let packed = encode_bits(values);
        match cursor.write_u16_be(self.start()) {
            Ok(_) => {},
            Err(_) => {
                return Err(RequestError::Internal(InternalError::InsufficientSpace));
            },
        }
        match cursor.write_u16_be(count as u16) {
            Ok(_) => {},
            Err(_) => {
                return Err(RequestError::Internal(InternalError::InsufficientSpace));
            },
        }
        match cursor.write_u8(packed.len() as u8) {
            Ok(_) => {},
            Err(_) => {
                return Err(RequestError::Internal(InternalError::InsufficientSpace));
            },
        }
        let ghost head = spec_u16_be(self.spec_start()) + spec_u16_be(
            self.spec_values().len() as u16,
        ) + seq![((self.spec_values().len() + 7) / 8) as u8];
        proof {
            assert(wc_written(*cursor) =~= wc_written(*old(cursor)) + head);
            assert(self.encoding() =~= head + packed@);
        }
        let mut i: usize = 0;
        let byte_count = packed.len();
        while i < byte_count
            invariant
                i <= byte_count,
                byte_count == packed@.len(),
                packed@ == spec_packed(self.spec_values()),
                head + packed@ == self.encoding(),
                wc_written(*cursor) == wc_written(*old(cursor)) + head + packed@.take(i as int),
                wc_space(*cursor) == wc_space(*old(cursor)) - 5 - i,
                wc_space(*old(cursor)) >= 5 + i,
            decreases byte_count - i,
        {
            match cursor.write_u8(packed[i]) {
                Ok(_) => {
                    proof {
                        assert(wc_written(*cursor) =~= wc_written(*old(cursor)) + head
                            + packed@.take(i as int + 1));
                    }
                },
                Err(_) => {
                    return Err(RequestError::Internal(InternalError::InsufficientSpace));
                },
            }
            i = i + 1;
        }
        proof {
            assert(packed@.take(byte_count as int) =~= packed@);
            assert(wc_written(*cursor) =~= wc_written(*old(cursor)) + self.encoding());
        }
        Ok(())
    }
}

impl ParseRequest for WriteMultiple<bool> {
    open spec fn parse_spec(bytes: Seq<u8>) -> Result<((u16, Seq<bool>), nat), RequestError> {
        if bytes.len() < 5 {
            Err(RequestError::Internal(InternalError::InsufficientBytes))
        } else {
            let start = spec_u16_from_bytes(bytes[0], bytes[1]);
            let count = spec_u16_from_bytes(bytes[2], bytes[3]) as int;
            let byte_count = (count + 7) / 8;
            if bytes[4] as int != byte_count {
                Err(RequestError::Internal(InternalError::BadByteCount))
            } else if bytes.len() < 5 + byte_count {
                Err(RequestError::Internal(InternalError::InsufficientBytes))
            } else if count > 2000 {
                Err(RequestError::BadRequest(BadRequestError::CountTooBigForType))
            } else if count == 0 || start + count > 0x10000 {
                Err(RequestError::BadRequest(BadRequestError::InvalidRange))
            } else {
                Ok(
                    (
                        (start, Seq::new(count as nat, |i: int| spec_bit_at(bytes.skip(5), i))),
                        (5 + byte_count) as nat,
                    ),
                )
            }
        }
    }

    fn parse(cursor: &mut scursor::ReadCursor) -> (r: Result<Self, RequestError>) {
        let ghost bytes = rc_rem(*old(cursor));
        let start = match cursor.read_u16_be() {
            Ok(v) => v,
            Err(_) => {
                return Err(RequestError::Internal(InternalError::InsufficientBytes));
            },
        };
        let count = match cursor.read_u16_be() {
            Ok(v) => v,
            Err(_) => {
                return Err(RequestError::Internal(InternalError::InsufficientBytes));
            },
        };
        let byte_count = match cursor.read_u8() {
            Ok(v) => v,
            Err(_) => {
                return Err(RequestError::Internal(InternalError::InsufficientBytes));
            },
        };
        proof {
            assert(rc_rem(*cursor) =~= bytes.skip(5));
        }
        if byte_count as u32 != ((count as u32) + 7) / 8 {
            return Err(RequestError::Internal(InternalError::BadByteCount));
        }
        let payload = match crate::cursor::read_bytes_to_vec(cursor, byte_count as usize) {
            Ok(v) => v,
            Err(_) => {
                return Err(RequestError::Internal(InternalError::InsufficientBytes));
            },
        };
        proof {
            assert(rc_rem(*cursor) =~= bytes.skip(5 + byte_count as int));
        }
        if count > 2000 {
            return Err(RequestError::BadRequest(BadRequestError::CountTooBigForType));
        }
        let decoded = decode_bits(&payload, count as usize);
        proof {
            assert forall|i: int| 0 <= i < count implies spec_bit_at(payload@, i) == spec_bit_at(
                bytes.skip(5),
                i,
            ) by {
                assert(payload@[i / 8] == bytes.skip(5)[i / 8]);
            }
            assert(decoded@ =~= Seq::new(count as nat, |i: int| spec_bit_at(bytes.skip(5), i)));
        }
        WriteMultiple::<bool>::from(start, decoded)
    }
}

/// The values of a coil or discrete input read response, each at its
/// address.
#[derive(Debug)]
pub struct BitResults {
    pub values: Vec<Indexed<bool>>,
}

impl View for BitResults {
    type V = Seq<Indexed<bool>>;

    open spec fn view(&self) -> Seq<Indexed<bool>> {
        self.values@
    }
}

/// The response body of a range bit read: a byte count that must equal
/// ceil(count / 8), then the packed bits, addressed from the request's
/// start; only the first `count` bits are meaningful.
impl ParseResponse<AddressRange> for BitResults {
    open spec fn response_spec(bytes: Seq<u8>, request: AddressRange) -> Result<
        (Seq<Indexed<bool>>, nat),
        RequestError,
    > {
        let start = request.spec_start();
        let count = request.spec_count() as int;
        let byte_count = (count + 7) / 8;
        if bytes.len() < 1 {
            Err(RequestError::Internal(InternalError::InsufficientBytes))
        } else if bytes[0] as int != byte_count {
            Err(RequestError::Internal(InternalError::BadByteCount))
        } else if bytes.len() < 1 + byte_count {
            Err(RequestError::Internal(InternalError::InsufficientBytes))
        } else {
            Ok(
                (
                    Seq::new(
                        count as nat,
                        |i: int|
                            Indexed {
                                index: (start + i) as u16,
                                value: spec_bit_at(bytes.skip(1), i),
                            },
                    ),
                    (1 + byte_count) as nat,
                ),
            )
        }
    }

    fn parse(cursor: &mut scursor::ReadCursor, request: &AddressRange) -> (r: Result<
        Self,
        RequestError,
    >) {
        let ghost bytes = rc_rem(*old(cursor));
        let start = request.start();
        let count = request.count();
        let byte_count = match cursor.read_u8() {
            Ok(v) => v,
            Err(_) => {
                return Err(RequestError::Internal(InternalError::InsufficientBytes));
            },
        };
        if byte_count as u32 != ((count as u32) + 7) / 8 {
            return Err(RequestError::Internal(InternalError::BadByteCount));
        }
        let payload = match crate::cursor::read_bytes_to_vec(cursor, byte_count as usize) {
            Ok(v) => v,
            Err(_) => {
                return Err(RequestError::Internal(InternalError::InsufficientBytes));
            },
        };
        let decoded = decode_bits(&payload, count as usize);
        proof {
            assert(rc_rem(*cursor) =~= bytes.skip(1 + byte_count as int));
            assert forall|i: int| 0 <= i < count implies spec_bit_at(payload@, i) == spec_bit_at(
                bytes.skip(1),
                i,
            ) by {
                assert(payload@[i / 8] == bytes.skip(1)[i / 8]);
            }
        }
        let mut values: Vec<Indexed<bool>> = Vec::new();
        let mut i: u16 = 0;
        while i < count
            invariant
                start == request.spec_start(),
                count == request.spec_count(),
                AddressRange::valid(start, count),
                decoded@.len() == count,
                forall|j: int| 0 <= j < count ==> #[trigger] decoded@[j] == spec_bit_at(
                    bytes.skip(1),
                    j,
                ),
                i <= count,
                values@.len() == i,
                forall|j: int|
                    0 <= j < i ==> #[trigger] values@[j] == (Indexed {
                        index: (start + j) as u16,
                        value: spec_bit_at(bytes.skip(1), j),
                    }),
            decreases count - i,
        {
            values.push(Indexed::new(start + i, decoded[i as usize]));
            i = i + 1;
        }
        proof {
            assert(values@ =~= Seq::new(
                count as nat,
                |i: int|
                    Indexed { index: (start + i) as u16, value: spec_bit_at(bytes.skip(1), i) },
            ));
        }
        Ok(BitResults { values })
    }
}

/// Law: for any count of coils from 1 to 2000, parsing a serialized
/// multiple-coil write gives its start and coils back and consumes the whole
/// encoding; in particular decoding an encoded packed-bit payload gives the
/// bits back.
pub proof fn lemma_roundtrip_write_coils(w: WriteMultiple<bool>)
    requires
        1 <= w.spec_values().len() <= 2000,
        w.spec_start() + w.spec_values().len() <= 0x10000,
    ensures
        <WriteMultiple<bool> as ParseRequest>::parse_spec(w.encoding()) == Ok::<
            ((u16, Seq<bool>), nat),
            RequestError,
        >((w@, (5 + (w.spec_values().len() + 7) / 8) as nat)),
{
    let values = w.spec_values();
    let n = values.len() as u16;
    let bytes = w.encoding();
    crate::cursor::lemma_u16_be_roundtrip(w.spec_start(), 0, 0);
    crate::cursor::lemma_u16_be_roundtrip(n, 0, 0);
    assert(spec_u16_from_bytes(bytes[0], bytes[1]) == w.spec_start());
    assert(spec_u16_from_bytes(bytes[2], bytes[3]) == n);
    assert(bytes[4] == ((values.len() + 7) / 8) as u8);
    assert(bytes.skip(5) =~= spec_packed(values));
    let parsed = Seq::new(n as nat, |i: int| spec_bit_at(bytes.skip(5), i));
    assert forall|i: int| 0 <= i < values.len() implies parsed[i] == values[i] by {
        crate::bits::lemma_packed_bit_at(values, i);
    }
    assert(parsed =~= values);
}

} // verus!
