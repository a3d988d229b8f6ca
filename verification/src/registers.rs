use vstd::prelude::*;

use crate::cursor::{rc_rem, spec_u16_be, spec_u16_from_bytes, wc_space, wc_written};
use crate::error::{InternalError, RequestError};
use crate::traits::{
    lemma_u16_seq_be_step, spec_parse_u16s, spec_u16_seq_be, ParseRequest, ParseResponse, Serialize,
};
use crate::types::{AddressRange, Indexed, WriteMultiple};

verus! {

impl View for AddressRange {
    type V = (u16, u16);

    open spec fn view(&self) -> (u16, u16) {
        (self.spec_start(), self.spec_count())
    }
}

/// The request body of every range read, and the echoed response body of a
/// multiple write: start and count, big-endian.
impl Serialize for AddressRange {
    open spec fn encoding(&self) -> Seq<u8> {
        spec_u16_be(self.spec_start()) + spec_u16_be(self.spec_count())
    }

    open spec fn encodable(&self) -> bool {
        true
    }

    fn serialize(&self, cursor: &mut scursor::WriteCursor) -> (r: Result<(), RequestError>) {
        match cursor.write_u16_be(self.start()) {
            Ok(_) => {},
            Err(_) => {
                return Err(RequestError::Internal(InternalError::InsufficientSpace));
            },
        }
        match cursor.write_u16_be(self.count()) {
            Ok(_) => {},
            Err(_) => {
                return Err(RequestError::Internal(InternalError::InsufficientSpace));
            },
        }
        proof {
            assert(wc_written(*cursor) =~= wc_written(*old(cursor)) + self.encoding());
        }
        Ok(())
    }
}

impl ParseRequest for AddressRange {
    open spec fn parse_spec(bytes: Seq<u8>) -> Result<((u16, u16), nat), RequestError> {
        if bytes.len() < 4 {
            Err(RequestError::Internal(InternalError::InsufficientBytes))
        } else {
            let start = spec_u16_from_bytes(bytes[0], bytes[1]);
            let count = spec_u16_from_bytes(bytes[2], bytes[3]);
            if AddressRange::valid(start, count) {
                Ok(((start, count), 4nat))
            } else {
                Err(RequestError::BadRequest(crate::error::BadRequestError::InvalidRange))
            }
        }
    }

    fn parse(cursor: &mut scursor::ReadCursor) -> (r: Result<Self, RequestError>) {
        let start = match cursor.read_u16_be() {
            Ok(v) => v,
            Err(_) => {
                return Err(RequestError::Internal(InternalError::InsufficientBytes));
            },
        };
        let count = match cursor.read_u16_be() {
            Ok(v) => v,
            Err(_) => {
                return Err(RequestError::Internal(InternalError::InsufficientBytes));
            },
        };
        proof {
            assert(rc_rem(*cursor) =~= rc_rem(*old(cursor)).skip(4));
        }
        AddressRange::try_from(start, count)
    }
}

/// An echoed range body also serves as the response body of a multiple
/// write, parsed without looking at the request.
impl<T> ParseResponse<T> for AddressRange {
    open spec fn response_spec(bytes: Seq<u8>, request: T) -> Result<
        ((u16, u16), nat),
        RequestError,
    > {
        <AddressRange as ParseRequest>::parse_spec(bytes)
    }

    fn parse(cursor: &mut scursor::ReadCursor, request: &T) -> (r: Result<Self, RequestError>) {
        <AddressRange as ParseRequest>::parse(cursor)
    }
}

/// The values of a register read response, each at its address.
#[derive(Debug)]
pub struct RegisterResults {
    pub values: Vec<Indexed<u16>>,
}

impl View for RegisterResults {
    type V = Seq<Indexed<u16>>;

    open spec fn view(&self) -> Seq<Indexed<u16>> {
        self.values@
    }
}

/// The response body of a range register read: a byte count that must equal
/// twice the requested count, then that many big-endian words, addressed
/// from the request's start.
impl ParseResponse<AddressRange> for RegisterResults {
    open spec fn response_spec(bytes: Seq<u8>, request: AddressRange) -> Result<
        (Seq<Indexed<u16>>, nat),
        RequestError,
    > {
        let start = request.spec_start();
        let count = request.spec_count() as int;
        if bytes.len() < 1 {
            Err(RequestError::Internal(InternalError::InsufficientBytes))
        } else if bytes[0] as int != 2 * count {
            Err(RequestError::Internal(InternalError::BadByteCount))
        } else if bytes.len() < 1 + 2 * count {
            Err(RequestError::Internal(InternalError::InsufficientBytes))
        } else {
            Ok(
                (
                    Seq::new(
                        count as nat,
                        |i: int|
                            Indexed {
                                index: (start + i) as u16,
                                value: spec_parse_u16s(bytes.skip(1), count as nat)[i],
                            },
                    ),
                    (1 + 2 * count) as nat,
                ),
            )
        }
    }

    fn parse(cursor: &mut scursor::ReadCursor, request: &AddressRange) -> (r: Result<
        Self,
        RequestError,
    >) {
        let ghost bytes = rc_rem(*old(cursor));
        let start = request.start();
        let count = request.count();
        let byte_count = match cursor.read_u8() {
            Ok(v) => v,
            Err(_) => {
                return Err(RequestError::Internal(InternalError::InsufficientBytes));
            },
        };
        if byte_count as u32 != 2 * (count as u32) {
            return Err(RequestError::Internal(InternalError::BadByteCount));
        }
        let mut values: Vec<Indexed<u16>> = Vec::new();
        let mut i: u16 = 0;
        while i < count
            invariant
                bytes == rc_rem(*old(cursor)),
                start == request.spec_start(),
                count == request.spec_count(),
                AddressRange::valid(start, count),
                bytes.len() >= 1 + 2 * i,
                bytes[0] as int == 2 * count,
                i <= count,
                values@.len() == i,
                forall|j: int|
                    0 <= j < i ==> #[trigger] values@[j] == (Indexed {
                        index: (start + j) as u16,
                        value: spec_u16_from_bytes(bytes[1 + 2 * j], bytes[2 + 2 * j]),
                    }),
                rc_rem(*cursor) == bytes.skip(1 + 2 * i),
            decreases count - i,
        {
            let value = match cursor.read_u16_be() {
                Ok(v) => v,
                Err(_) => {
                    proof {
                        assert(bytes.len() < 1 + 2 * (i as int) + 2);
                    }
                    return Err(RequestError::Internal(InternalError::InsufficientBytes));
                },
            };
            values.push(Indexed::new(start + i, value));
            proof {
                assert(rc_rem(*cursor) =~= bytes.skip(1 + 2 * (i + 1)));
            }
            i = i + 1;
        }
        proof {
            let count_i = count as int;
            assert forall|j: int| 0 <= j < count_i implies spec_parse_u16s(bytes.skip(1), count as nat)[j]
                == spec_u16_from_bytes(bytes[1 + 2 * j], bytes[2 + 2 * j]) by {
                assert(bytes.skip(1)[2 * j] == bytes[1 + 2 * j]);
                assert(bytes.skip(1)[2 * j + 1] == bytes[2 + 2 * j]);
            }
            assert(values@ =~= Seq::new(
                count as nat,
                |i: int|
                    Indexed {
                        index: (start + i) as u16,
                        value: spec_parse_u16s(bytes.skip(1), count as nat)[i],
                    },
            ));
        }
        Ok(RegisterResults { values })
    }
}

impl<T> View for WriteMultiple<T> {
    type V = (u16, Seq<T>);

    open spec fn view(&self) -> (u16, Seq<T>) {
        (self.spec_start(), self.spec_values())
    }
}

/// The request body of a multiple register write: start, count, byte count
/// (twice the count), then the values, big-endian.
impl Serialize for WriteMultiple<u16> {
    open spec fn encoding(&self) -> Seq<u8> {
        spec_u16_be(self.spec_start()) + spec_u16_be(self.spec_values().len() as u16) + seq![
            (2 * self.spec_values().len()) as u8,
        ] + spec_u16_seq_be(self.spec_values())
    }

    open spec fn encodable(&self) -> bool {
        self.spec_values().len() <= 123
    }

    fn serialize(&self, cursor: &mut scursor::WriteCursor) -> (r: Result<(), RequestError>) {
        let values = self.values();
        let count = values.len();
        match cursor.write_u16_be(self.start()) {
            Ok(_) => {},
            Err(_) => {
                return Err(RequestError::Internal(InternalError::InsufficientSpace));
            },
        }
        match cursor.write_u16_be(count as u16) {
            Ok(_) => {},
            Err(_) => {
                return Err(RequestError::Internal(InternalError::InsufficientSpace));
            },
        }
        match cursor.write_u8((2 * count) as u8) {
            Ok(_) => {},
            Err(_) => {
                return Err(RequestError::Internal(InternalError::InsufficientSpace));
            },
        }
        let ghost head = spec_u16_be(self.spec_start()) + spec_u16_be(
            self.spec_values().len() as u16,
        ) + seq![(2 * self.spec_values().len()) as u8];
        proof {
            assert(wc_written(*cursor) =~= wc_written(*old(cursor)) + head);
        }
        let mut i: usize = 0;
        while i < count
            invariant
                i <= count,
                count == self.spec_values().len() <= 123,
                values@ == self.spec_values(),
                head == spec_u16_be(self.spec_start()) + spec_u16_be(
                    self.spec_values().len() as u16,
                ) + seq![(2 * self.spec_values().len()) as u8],
                self.encoding() == head + spec_u16_seq_be(self.spec_values()),
                wc_written(*cursor) == wc_written(*old(cursor)) + head + spec_u16_seq_be(
                    self.spec_values().take(i as int),
                ),
                wc_space(*cursor) == wc_space(*old(cursor)) - 5 - 2 * i,
                wc_space(*old(cursor)) >= 5 + 2 * i,
            decreases count - i,
        {
            match cursor.write_u16_be(values[i]) {
                Ok(_) => {
                    proof {
                        lemma_u16_seq_be_step(self.spec_values(), i as int);
                        assert(wc_written(*cursor) =~= wc_written(*old(cursor)) + head
                            + spec_u16_seq_be(self.spec_values().take(i as int + 1)));
                    }
                },
                Err(_) => {
                    return Err(RequestError::Internal(InternalError::InsufficientSpace));
                },
            }
            i = i + 1;
        }
        proof {
            assert(self.spec_values().take(count as int) =~= self.spec_values());
            assert(wc_written(*cursor) =~= wc_written(*old(cursor)) + self.encoding());
        }
        Ok(())
    }
}

impl ParseRequest for WriteMultiple<u16> {
    open spec fn parse_spec(bytes: Seq<u8>) -> Result<((u16, Seq<u16>), nat), RequestError> {
        if bytes.len() < 5 {
            Err(RequestError::Internal(InternalError::InsufficientBytes))
        } else {
            let start = spec_u16_from_bytes(bytes[0], bytes[1]);
            let count = spec_u16_from_bytes(bytes[2], bytes[3]) as int;
            if bytes[4] as int != 2 * count {
                Err(RequestError::Internal(InternalError::BadByteCount))
            } else if bytes.len() < 5 + 2 * count {
                Err(RequestError::Internal(InternalError::InsufficientBytes))
            } else if count > 123 {
                Err(RequestError::BadRequest(crate::error::BadRequestError::CountTooBigForType))
            } else if count == 0 || start + count > 0x10000 {
                Err(RequestError::BadRequest(crate::error::BadRequestError::InvalidRange))
            } else {
                Ok(((start, spec_parse_u16s(bytes.skip(5), count as nat)), (5 + 2 * count) as nat))
            }
        }
    }

    fn parse(cursor: &mut scursor::ReadCursor) -> (r: Result<Self, RequestError>) {
        let ghost bytes = rc_rem(*old(cursor));
        let start = match cursor.read_u16_be() {
            Ok(v) => v,
            Err(_) => {
                return Err(RequestError::Internal(InternalError::InsufficientBytes));
            },
        };
        let count = match cursor.read_u16_be() {
            Ok(v) => v,
            Err(_) => {
                return Err(RequestError::Internal(InternalError::InsufficientBytes));
            },
        };
        let byte_count = match cursor.read_u8() {
            Ok(v) => v,
            Err(_) => {
                return Err(RequestError::Internal(InternalError::InsufficientBytes));
            },
        };
        proof {
            assert(rc_rem(*cursor) =~= bytes.skip(5));
        }
        if byte_count as u32 != 2 * (count as u32) {
            return Err(RequestError::Internal(InternalError::BadByteCount));
        }
        let mut values: Vec<u16> = Vec::new();
        let mut i: u16 = 0;
        while i < count
            invariant
                bytes == rc_rem(*old(cursor)),
                bytes.len() >= 5 + 2 * i,
                i <= count,
                count == spec_u16_from_bytes(bytes[2], bytes[3]),
                bytes[4] as int == 2 * count,
                values@ == spec_parse_u16s(bytes.skip(5), i as nat),
                rc_rem(*cursor) == bytes.skip(5 + 2 * i),
            decreases count - i,
        {
            let value = match cursor.read_u16_be() {
                Ok(v) => v,
                Err(_) => {
                    proof {
                        assert(bytes.len() < 5 + 2 * (i as int) + 2);
                    }
                    return Err(RequestError::Internal(InternalError::InsufficientBytes));
                },
            };
            values.push(value);
            proof {
                assert(values@ =~= spec_parse_u16s(bytes.skip(5), (i + 1) as nat));
                assert(rc_rem(*cursor) =~= bytes.skip(5 + 2 * (i + 1)));
            }
            i = i + 1;
        }
        WriteMultiple::<u16>::from(start, values)
    }
}

/// Law: parsing a serialized range body gives the range back and consumes
/// all four of its bytes.
pub proof fn lemma_roundtrip_address_range(range: AddressRange)
    requires
        AddressRange::valid(range.spec_start(), range.spec_count()),
    ensures
        <AddressRange as ParseRequest>::parse_spec(range.encoding()) == Ok::<
            ((u16, u16), nat),
            RequestError,
        >((range@, 4nat)),
{
    crate::cursor::lemma_u16_be_roundtrip(range.spec_start(), 0, 0);
    crate::cursor::lemma_u16_be_roundtrip(range.spec_count(), 0, 0);
}

/// Law: parsing a serialized multiple-register write gives its start and
/// values back and consumes the whole encoding.
pub proof fn lemma_roundtrip_write_registers(w: WriteMultiple<u16>)
    requires
        1 <= w.spec_values().len() <= 123,
        w.spec_start() + w.spec_values().len() <= 0x10000,
    ensures
        <WriteMultiple<u16> as ParseRequest>::parse_spec(w.encoding()) == Ok::<
            ((u16, Seq<u16>), nat),
            RequestError,
        >((w@, (5 + 2 * w.spec_values().len()) as nat)),
{
    let values = w.spec_values();
    let n = values.len() as u16;
    let bytes = w.encoding();
    crate::cursor::lemma_u16_be_roundtrip(w.spec_start(), 0, 0);
    crate::cursor::lemma_u16_be_roundtrip(n, 0, 0);
    assert(spec_u16_from_bytes(bytes[0], bytes[1]) == w.spec_start());
    assert(spec_u16_from_bytes(bytes[2], bytes[3]) == n);
    assert(bytes[4] == (2 * values.len()) as u8);
    let parsed = spec_parse_u16s(bytes.skip(5), n as nat);
    assert forall|i: int| 0 <= i < values.len() implies parsed[i] == values[i] by {
        assert(bytes.skip(5)[2 * i] == spec_u16_seq_be(values)[2 * i]);
        assert(bytes.skip(5)[2 * i + 1] == spec_u16_seq_be(values)[2 * i + 1]);
        assert((2 * i) % 2 == 0 && (2 * i) / 2 == i);
        assert((2 * i + 1) % 2 == 1 && (2 * i + 1) / 2 == i);
        crate::cursor::lemma_u16_be_roundtrip(
            values[i],
            crate::cursor::spec_u16_hi(values[i]),
            crate::cursor::spec_u16_lo(values[i]),
        );
    }
    assert(parsed =~= values);
}

} // verus!
