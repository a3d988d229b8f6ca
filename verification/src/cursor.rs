use vstd::prelude::*;

verus! {

// Big-endian byte views of a 16-bit word, the only multi-byte layout Modbus
// uses on the wire.
/// High byte of a 16-bit word.
pub open spec fn spec_u16_hi(value: u16) -> u8 {
    (value / 0x100) as u8
}

/// Low byte of a 16-bit word.
pub open spec fn spec_u16_lo(value: u16) -> u8 {
    (value % 0x100) as u8
}

/// The two big-endian bytes of a 16-bit word.
pub open spec fn spec_u16_be(value: u16) -> Seq<u8> {
    seq![spec_u16_hi(value), spec_u16_lo(value)]
}

/// The 16-bit word read big-endian from two bytes.
pub open spec fn spec_u16_from_bytes(hi: u8, lo: u8) -> u16 {
    (hi * 0x100 + lo) as u16
}

/// Law: reading back the two big-endian bytes of a word gives the word, and
/// the bytes of a read word are the bytes it was read from.
pub proof fn lemma_u16_be_roundtrip(value: u16, hi: u8, lo: u8)
    ensures
        spec_u16_from_bytes(spec_u16_hi(value), spec_u16_lo(value)) == value,
        spec_u16_hi(spec_u16_from_bytes(hi, lo)) == hi,
        spec_u16_lo(spec_u16_from_bytes(hi, lo)) == lo,
{
    vstd::arithmetic::div_mod::lemma_fundamental_div_mod(value as int, 0x100);
    vstd::arithmetic::div_mod::lemma_fundamental_div_mod((hi * 0x100 + lo) as int, 0x100);
}

#[verifier::external_type_specification]
#[verifier::external_body]
pub struct ExReadCursor<'a>(scursor::ReadCursor<'a>);

#[verifier::external_type_specification]
#[verifier::external_body]
pub struct ExReadError(scursor::ReadError);

/// The bytes of a read cursor that remain to be read.
pub uninterp spec fn rc_rem(cursor: scursor::ReadCursor) -> Seq<u8>;

/// Relies on scursor::ReadCursor::new: a fresh cursor has the whole input
/// ahead of it.
pub assume_specification<'a>[ scursor::ReadCursor::<'a>::new ](input: &'a [u8]) -> (c:
    scursor::ReadCursor<'a>)
    ensures
        rc_rem(c) == input@,
;

/// Relies on scursor::ReadCursor::read_u8: yields the next remaining byte and
/// advances past it, or fails leaving the cursor unchanged when none is left.
pub assume_specification<'a>[ scursor::ReadCursor::<'a>::read_u8 ](
    cursor: &mut scursor::ReadCursor<'a>,
) -> (r: Result<u8, scursor::ReadError>)
    ensures
        rc_rem(*old(cursor)).len() >= 1 ==> r == Ok::<u8, scursor::ReadError>(
            rc_rem(*old(cursor))[0],
        ) && rc_rem(*final(cursor)) == rc_rem(*old(cursor)).skip(1),
        rc_rem(*old(cursor)).len() == 0 ==> r is Err && rc_rem(*final(cursor)) == rc_rem(
            *old(cursor),
        ),
;

/// Relies on scursor::ReadCursor::read_u16_be: yields the next two remaining
/// bytes as a big-endian word, or fails leaving the cursor unchanged when
/// fewer than two are left.
pub assume_specification<'a>[ scursor::ReadCursor::<'a>::read_u16_be ](
    cursor: &mut scursor::ReadCursor<'a>,
) -> (r: Result<u16, scursor::ReadError>)
    ensures
        rc_rem(*old(cursor)).len() >= 2 ==> r == Ok::<u16, scursor::ReadError>(
            spec_u16_from_bytes(rc_rem(*old(cursor))[0], rc_rem(*old(cursor))[1]),
        ) && rc_rem(*final(cursor)) == rc_rem(*old(cursor)).skip(2),
        rc_rem(*old(cursor)).len() < 2 ==> r is Err && rc_rem(*final(cursor)) == rc_rem(
            *old(cursor),
        ),
;

/// Relies on scursor::ReadCursor::remaining: the count of bytes left.
pub assume_specification<'a>[ scursor::ReadCursor::<'a>::remaining ](
    cursor: &scursor::ReadCursor<'a>,
) -> (r: usize)
    ensures
        r == rc_rem(*cursor).len(),
;

/// Relies on scursor::ReadCursor::is_empty: true exactly when nothing is left.
pub assume_specification<'a>[ scursor::ReadCursor::<'a>::is_empty ](
    cursor: &scursor::ReadCursor<'a>,
) -> (r: bool)
    ensures
        r == (rc_rem(*cursor).len() == 0),
;

/// Relies on scursor::ReadCursor::read_bytes: the next `count` remaining
/// bytes, copied out; on failure the cursor is unchanged.
#[verifier::external_body]
pub fn read_bytes_to_vec(cursor: &mut scursor::ReadCursor, count: usize) -> (r: Result<
    Vec<u8>,
    scursor::ReadError,
>)
    ensures
        rc_rem(*old(cursor)).len() >= count ==> (r matches Ok(v) && v@ == rc_rem(
            *old(cursor),
        ).take(count as int) && rc_rem(*final(cursor)) == rc_rem(*old(cursor)).skip(count as int)),
        rc_rem(*old(cursor)).len() < count ==> r is Err && rc_rem(*final(cursor)) == rc_rem(
            *old(cursor),
        ),
{
    match cursor.read_bytes(count) {
        Ok(bytes) => Ok(bytes.to_vec()),
        Err(e) => Err(e),
    }
}

#[verifier::external_type_specification]
#[verifier::external_body]
pub struct ExWriteCursor<'a>(scursor::WriteCursor<'a>);

#[verifier::external_type_specification]
#[verifier::external_body]
pub struct ExWriteError(scursor::WriteError);

/// The bytes written through a write cursor so far, in order.
pub uninterp spec fn wc_written(cursor: scursor::WriteCursor) -> Seq<u8>;

/// The space left in the window behind a write cursor, in bytes.
pub uninterp spec fn wc_space(cursor: scursor::WriteCursor) -> nat;

/// Relies on scursor::WriteCursor::new: a fresh cursor has written nothing
/// and has the whole window ahead of it.
pub assume_specification<'a>[ scursor::WriteCursor::<'a>::new ](dest: &'a mut [u8]) -> (c:
    scursor::WriteCursor<'a>)
    ensures
        wc_written(c) == Seq::<u8>::empty(),
        wc_space(c) == old(dest)@.len(),
;

/// Relies on scursor::WriteCursor::write_u8: appends one byte, or fails
/// changing nothing when the window is full.
pub assume_specification<'a>[ scursor::WriteCursor::<'a>::write_u8 ](
    cursor: &mut scursor::WriteCursor<'a>,
    value: u8,
) -> (r: Result<(), scursor::WriteError>)
    ensures
        wc_space(*old(cursor)) >= 1 ==> r is Ok && wc_written(*final(cursor)) == wc_written(
            *old(cursor),
        ).push(value) && wc_space(*final(cursor)) == wc_space(*old(cursor)) - 1,
        wc_space(*old(cursor)) == 0 ==> r is Err && wc_written(*final(cursor)) == wc_written(
            *old(cursor),
        ) && wc_space(*final(cursor)) == wc_space(*old(cursor)),
;

/// Relies on scursor::WriteCursor::write_u16_be: appends the two big-endian
/// bytes of the word, or fails changing nothing when fewer than two bytes of
/// window are left.
pub assume_specification<'a>[ scursor::WriteCursor::<'a>::write_u16_be ](
    cursor: &mut scursor::WriteCursor<'a>,
    value: u16,
) -> (r: Result<(), scursor::WriteError>)
    ensures
        wc_space(*old(cursor)) >= 2 ==> r is Ok && wc_written(*final(cursor)) == wc_written(
            *old(cursor),
        ) + spec_u16_be(value) && wc_space(*final(cursor)) == wc_space(*old(cursor)) - 2,
        wc_space(*old(cursor)) < 2 ==> r is Err && wc_written(*final(cursor)) == wc_written(
            *old(cursor),
        ) && wc_space(*final(cursor)) == wc_space(*old(cursor)),
;

/// Relies on scursor::WriteCursor::written: the bytes written so far, copied
/// out as an owned vector.
#[verifier::external_body]
pub fn written_to_vec(cursor: &scursor::WriteCursor) -> (r: Vec<u8>)
    ensures
        r@ == wc_written(*cursor),
{
    cursor.written().to_vec()
}

} // verus!
