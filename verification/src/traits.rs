use vstd::prelude::*;

use crate::cursor::{
    rc_rem, spec_u16_be, spec_u16_from_bytes, spec_u16_hi, spec_u16_lo, wc_space, wc_written,
};
use crate::error::{InternalError, RequestError};
use crate::types::{spec_coil_from_u16, spec_coil_to_u16, Indexed, U16Vec};

verus! {

/// The flat big-endian encoding of a sequence of 16-bit words.
pub open spec fn spec_u16_seq_be(values: Seq<u16>) -> Seq<u8> {
    Seq::new(
        2 * values.len(),
        |i: int|
            if i % 2 == 0 {
                spec_u16_hi(values[i / 2])
            } else {
                spec_u16_lo(values[i / 2])
            },
    )
}

/// The first `count` big-endian words read from a byte sequence.
pub open spec fn spec_parse_u16s(bytes: Seq<u8>, count: nat) -> Seq<u16> {
    Seq::new(count, |i: int| spec_u16_from_bytes(bytes[2 * i], bytes[2 * i + 1]))
}

/// Appending one word to a flat encoding appends its two bytes.
pub proof fn lemma_u16_seq_be_step(values: Seq<u16>, i: int)
    requires
        0 <= i < values.len(),
    ensures
        spec_u16_seq_be(values.take(i + 1)) == spec_u16_seq_be(values.take(i)) + spec_u16_be(
            values[i],
        ),
{
    let left = spec_u16_seq_be(values.take(i + 1));
    let right = spec_u16_seq_be(values.take(i)) + spec_u16_be(values[i]);
    assert forall|k: int| 0 <= k < left.len() implies left[k] == right[k] by {
        if k < 2 * i {
            assert(values.take(i + 1)[k / 2] == values.take(i)[k / 2]);
        } else if k == 2 * i {
            assert(k % 2 == 0 && k / 2 == i);
        } else {
            assert(k == 2 * i + 1 && k % 2 == 1 && k / 2 == i);
        }
    }
    assert(left =~= right);
}

/// A value that can be written to a send window.
pub trait Serialize {
    /// The wire bytes of this value.
    spec fn encoding(&self) -> Seq<u8>;

    /// The machine bound under which the value can be written at all.
    spec fn encodable(&self) -> bool;

    /// Writes the value's wire bytes; fails with InsufficientSpace exactly
    /// when the window is too small for all of them.
    fn serialize(&self, cursor: &mut scursor::WriteCursor) -> (r: Result<(), RequestError>)
        requires
            self.encodable(),
        ensures
            wc_space(*old(cursor)) >= self.encoding().len() ==> r is Ok && wc_written(
                *final(cursor),
            ) == wc_written(*old(cursor)) + self.encoding() && wc_space(*final(cursor)) == wc_space(
                *old(cursor),
            ) - self.encoding().len(),
            wc_space(*old(cursor)) < self.encoding().len() ==> r == Err::<(), RequestError>(
                RequestError::Internal(InternalError::InsufficientSpace),
            ),
    ;
}

/// A request body parsed from a cursor with no request context.
pub trait ParseRequest: View + Sized {
    /// The parse of a byte sequence: the value read and the count of bytes it
    /// consumes, or the exact error.
    spec fn parse_spec(bytes: Seq<u8>) -> Result<(<Self as View>::V, nat), RequestError>;

    /// Reads one value from the front of the cursor; on success exactly the
    /// consumed bytes are gone from the cursor.
    fn parse(cursor: &mut scursor::ReadCursor) -> (r: Result<Self, RequestError>)
        ensures
            match Self::parse_spec(rc_rem(*old(cursor))) {
                Ok((v, n)) => r matches Ok(got) && got@ == v && n <= rc_rem(*old(cursor)).len()
                    && rc_rem(*final(cursor)) == rc_rem(*old(cursor)).skip(n as int),
                Err(e) => r matches Err(got) && got == e,
            },
    ;
}

/// A response body parsed from a cursor against the request it answers.
pub trait ParseResponse<T>: View + Sized {
    /// The parse of a byte sequence against a request: the value read and the
    /// count of bytes it consumes, or the exact error.
    spec fn response_spec(bytes: Seq<u8>, request: T) -> Result<
        (<Self as View>::V, nat),
        RequestError,
    >;

    /// Reads one response from the front of the cursor; on success exactly
    /// the consumed bytes are gone from the cursor.
    fn parse(cursor: &mut scursor::ReadCursor, request: &T) -> (r: Result<Self, RequestError>)
        ensures
            match Self::response_spec(rc_rem(*old(cursor)), *request) {
                Ok((v, n)) => r matches Ok(got) && got@ == v && n <= rc_rem(*old(cursor)).len()
                    && rc_rem(*final(cursor)) == rc_rem(*old(cursor)).skip(n as int),
                Err(e) => r matches Err(got) && got == e,
            },
    ;
}

/// An echoed single-coil body also serves as the response body, parsed
/// without looking at the request.
impl<T> ParseResponse<T> for Indexed<bool> {
    open spec fn response_spec(bytes: Seq<u8>, request: T) -> Result<
        (<Self as View>::V, nat),
        RequestError,
    > {
        <Indexed<bool> as ParseRequest>::parse_spec(bytes)
    }

    fn parse(cursor: &mut scursor::ReadCursor, request: &T) -> (r: Result<Self, RequestError>) {
        <Indexed<bool> as ParseRequest>::parse(cursor)
    }
}

/// An echoed single-register body also serves as the response body, parsed
/// without looking at the request.
impl<T> ParseResponse<T> for Indexed<u16> {
    open spec fn response_spec(bytes: Seq<u8>, request: T) -> Result<
        (<Self as View>::V, nat),
        RequestError,
    > {
        <Indexed<u16> as ParseRequest>::parse_spec(bytes)
    }

    fn parse(cursor: &mut scursor::ReadCursor, request: &T) -> (r: Result<Self, RequestError>) {
        <Indexed<u16> as ParseRequest>::parse(cursor)
    }
}

/// An echoed word-sequence body also serves as the response body, parsed
/// without looking at the request.
impl<T> ParseResponse<T> for U16Vec {
    open spec fn response_spec(bytes: Seq<u8>, request: T) -> Result<
        (<Self as View>::V, nat),
        RequestError,
    > {
        <U16Vec as ParseRequest>::parse_spec(bytes)
    }

    fn parse(cursor: &mut scursor::ReadCursor, request: &T) -> (r: Result<Self, RequestError>) {
        <U16Vec as ParseRequest>::parse(cursor)
    }
}

impl<T> View for Indexed<T> {
    type V = Indexed<T>;

    open spec fn view(&self) -> Indexed<T> {
        *self
    }
}

impl Serialize for Indexed<bool> {
    open spec fn encoding(&self) -> Seq<u8> {
        spec_u16_be(self.index) + spec_u16_be(spec_coil_to_u16(self.value))
    }

    open spec fn encodable(&self) -> bool {
        true
    }

    fn serialize(&self, cursor: &mut scursor::WriteCursor) -> (r: Result<(), RequestError>) {
        match cursor.write_u16_be(self.index) {
            Ok(_) => {},
            Err(_) => {
                return Err(RequestError::Internal(InternalError::InsufficientSpace));
            },
        }
        match cursor.write_u16_be(crate::types::coil_to_u16(self.value)) {
            Ok(_) => {},
            Err(_) => {
                return Err(RequestError::Internal(InternalError::InsufficientSpace));
            },
        }
        proof {
            assert(wc_written(*cursor) =~= wc_written(*old(cursor)) + self.encoding());
        }
        Ok(())
    }
}

impl ParseRequest for Indexed<bool> {
    open spec fn parse_spec(bytes: Seq<u8>) -> Result<(Indexed<bool>, nat), RequestError> {
        if bytes.len() < 4 {
            Err(RequestError::Internal(InternalError::InsufficientBytes))
        } else {
            match spec_coil_from_u16(spec_u16_from_bytes(bytes[2], bytes[3])) {
                Ok(b) => Ok(
                    (Indexed { index: spec_u16_from_bytes(bytes[0], bytes[1]), value: b }, 4nat),
                ),
                Err(e) => Err(e),
            }
        }
    }

    fn parse(cursor: &mut scursor::ReadCursor) -> (r: Result<Self, RequestError>) {
        let index = match cursor.read_u16_be() {
            Ok(v) => v,
            Err(_) => {
                return Err(RequestError::Internal(InternalError::InsufficientBytes));
            },
        };
        let word = match cursor.read_u16_be() {
            Ok(v) => v,
            Err(_) => {
                return Err(RequestError::Internal(InternalError::InsufficientBytes));
            },
        };
        proof {
            assert(rc_rem(*cursor) =~= rc_rem(*old(cursor)).skip(4));
        }
        match crate::types::coil_from_u16(word) {
            Ok(value) => Ok(Indexed::new(index, value)),
            Err(e) => Err(e),
        }
    }
}

impl Serialize for Indexed<u16> {
    open spec fn encoding(&self) -> Seq<u8> {
        spec_u16_be(self.index) + spec_u16_be(self.value)
    }

    open spec fn encodable(&self) -> bool {
        true
    }

    fn serialize(&self, cursor: &mut scursor::WriteCursor) -> (r: Result<(), RequestError>) {
        match cursor.write_u16_be(self.index) {
            Ok(_) => {},
            Err(_) => {
                return Err(RequestError::Internal(InternalError::InsufficientSpace));
            },
        }
        match cursor.write_u16_be(self.value) {
            Ok(_) => {},
            Err(_) => {
                return Err(RequestError::Internal(InternalError::InsufficientSpace));
            },
        }
        proof {
            assert(wc_written(*cursor) =~= wc_written(*old(cursor)) + self.encoding());
        }
        Ok(())
    }
}

impl ParseRequest for Indexed<u16> {
    open spec fn parse_spec(bytes: Seq<u8>) -> Result<(Indexed<u16>, nat), RequestError> {
        if bytes.len() < 4 {
            Err(RequestError::Internal(InternalError::InsufficientBytes))
        } else {
            Ok(
                (
                    Indexed {
                        index: spec_u16_from_bytes(bytes[0], bytes[1]),
                        value: spec_u16_from_bytes(bytes[2], bytes[3]),
                    },
                    4nat,
                ),
            )
        }
    }

    fn parse(cursor: &mut scursor::ReadCursor) -> (r: Result<Self, RequestError>) {
        let index = match cursor.read_u16_be() {
            Ok(v) => v,
            Err(_) => {
                return Err(RequestError::Internal(InternalError::InsufficientBytes));
            },
        };
        let value = match cursor.read_u16_be() {
            Ok(v) => v,
            Err(_) => {
                return Err(RequestError::Internal(InternalError::InsufficientBytes));
            },
        };
        proof {
            assert(rc_rem(*cursor) =~= rc_rem(*old(cursor)).skip(4));
        }
        Ok(Indexed::new(index, value))
    }
}

impl View for U16Vec {
    type V = Seq<u16>;

    open spec fn view(&self) -> Seq<u16> {
        self.spec_values()
    }
}

impl Serialize for U16Vec {
    open spec fn encoding(&self) -> Seq<u8> {
        spec_u16_be(self.spec_values().len() as u16) + spec_u16_seq_be(self.spec_values())
    }

    open spec fn encodable(&self) -> bool {
        self.spec_values().len() <= 0xFFFF
    }

    fn serialize(&self, cursor: &mut scursor::WriteCursor) -> (r: Result<(), RequestError>) {
        let values = self.values();
        let count = values.len();
        match cursor.write_u16_be(count as u16) {
            Ok(_) => {},
            Err(_) => {
                return Err(RequestError::Internal(InternalError::InsufficientSpace));
            },
        }
        let mut i: usize = 0;
        while i < count
            invariant
                i <= count,
                count == self.spec_values().len() <= 0xFFFF,
                values@ == self.spec_values(),
                wc_written(*cursor) == wc_written(*old(cursor)) + spec_u16_be(count as u16)
                    + spec_u16_seq_be(self.spec_values().take(i as int)),
                wc_space(*cursor) == wc_space(*old(cursor)) - 2 - 2 * i,
                wc_space(*old(cursor)) >= 2 + 2 * i,
            decreases count - i,
        {
            match cursor.write_u16_be(values[i]) {
                Ok(_) => {
                    proof {
                        lemma_u16_seq_be_step(self.spec_values(), i as int);
                        assert(wc_written(*cursor) =~= wc_written(*old(cursor)) + spec_u16_be(
                            count as u16,
                        ) + spec_u16_seq_be(self.spec_values().take(i as int + 1)));
                    }
                },
                Err(_) => {
                    return Err(RequestError::Internal(InternalError::InsufficientSpace));
                },
            }
            i = i + 1;
        }
        proof {
            assert(self.spec_values().take(count as int) =~= self.spec_values());
            assert(wc_written(*cursor) =~= wc_written(*old(cursor)) + self.encoding());
        }
        Ok(())
    }
}

impl ParseRequest for U16Vec {
    open spec fn parse_spec(bytes: Seq<u8>) -> Result<(Seq<u16>, nat), RequestError> {
        if bytes.len() < 2 {
            Err(RequestError::Internal(InternalError::InsufficientBytes))
        } else {
            let count = spec_u16_from_bytes(bytes[0], bytes[1]) as nat;
            if bytes.len() < 2 + 2 * count {
                Err(RequestError::Internal(InternalError::InsufficientBytes))
            } else {
                Ok((spec_parse_u16s(bytes.skip(2), count), 2 + 2 * count))
            }
        }
    }

    fn parse(cursor: &mut scursor::ReadCursor) -> (r: Result<Self, RequestError>) {
        let ghost bytes = rc_rem(*old(cursor));
        let count = match cursor.read_u16_be() {
            Ok(v) => v,
            Err(_) => {
                return Err(RequestError::Internal(InternalError::InsufficientBytes));
            },
        };
        let mut values: Vec<u16> = Vec::new();
        let mut i: u16 = 0;
        while i < count
            invariant
                bytes == rc_rem(*old(cursor)),
                i <= count,
                bytes.len() >= 2 + 2 * i,
                count == spec_u16_from_bytes(bytes[0], bytes[1]),
                values@ == spec_parse_u16s(bytes.skip(2), i as nat),
                rc_rem(*cursor) == bytes.skip(2 + 2 * i),
            decreases count - i,
        {
            let item = match cursor.read_u16_be() {
                Ok(v) => v,
                Err(_) => {
                    proof {
                        assert(bytes.len() < 2 + 2 * (count as int));
                    }
                    return Err(RequestError::Internal(InternalError::InsufficientBytes));
                },
            };
            values.push(item);
            proof {
                assert(values@ =~= spec_parse_u16s(bytes.skip(2), (i + 1) as nat));
                assert(rc_rem(*cursor) =~= bytes.skip(2 + 2 * (i + 1)));
            }
            i = i + 1;
        }
        Ok(U16Vec::new(values))
    }
}

/// Law: parsing a serialized single-coil body gives it back and consumes all
/// four of its bytes.
pub proof fn lemma_roundtrip_indexed_bool(x: Indexed<bool>)
    ensures
        <Indexed<bool> as ParseRequest>::parse_spec(x.encoding()) == Ok::<
            (Indexed<bool>, nat),
            RequestError,
        >((x, 4nat)),
{
    crate::cursor::lemma_u16_be_roundtrip(x.index, 0, 0);
    crate::cursor::lemma_u16_be_roundtrip(spec_coil_to_u16(x.value), 0, 0);
}

/// Law: parsing a serialized single-register body gives it back and consumes
/// all four of its bytes.
pub proof fn lemma_roundtrip_indexed_u16(x: Indexed<u16>)
    ensures
        <Indexed<u16> as ParseRequest>::parse_spec(x.encoding()) == Ok::<
            (Indexed<u16>, nat),
            RequestError,
        >((x, 4nat)),
{
    crate::cursor::lemma_u16_be_roundtrip(x.index, 0, 0);
    crate::cursor::lemma_u16_be_roundtrip(x.value, 0, 0);
}

/// Law: parsing a serialized word sequence gives its words back and consumes
/// the whole encoding.
pub proof fn lemma_roundtrip_u16_vec(x: U16Vec)
    requires
        x.encodable(),
    ensures
        <U16Vec as ParseRequest>::parse_spec(x.encoding()) == Ok::<(Seq<u16>, nat), RequestError>(
            (x@, x.encoding().len() as nat),
        ),
{
    let values = x.spec_values();
    let n = values.len() as u16;
    let bytes = x.encoding();
    crate::cursor::lemma_u16_be_roundtrip(n, 0, 0);
    assert(spec_u16_from_bytes(bytes[0], bytes[1]) == n);
    let parsed = spec_parse_u16s(bytes.skip(2), n as nat);
    assert forall|i: int| 0 <= i < values.len() implies parsed[i] == values[i] by {
        assert(bytes.skip(2)[2 * i] == spec_u16_seq_be(values)[2 * i]);
        assert(bytes.skip(2)[2 * i + 1] == spec_u16_seq_be(values)[2 * i + 1]);
        assert((2 * i) % 2 == 0 && (2 * i) / 2 == i);
        assert((2 * i + 1) % 2 == 1 && (2 * i + 1) / 2 == i);
        crate::cursor::lemma_u16_be_roundtrip(values[i], spec_u16_hi(values[i]), spec_u16_lo(values[i]));
    }
    assert(parsed =~= values);
}

} // verus!
