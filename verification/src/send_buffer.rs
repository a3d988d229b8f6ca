use vstd::prelude::*;

use crate::cursor::rc_rem;
use crate::error::{InternalError, RequestError};
use crate::traits::{ParseRequest, Serialize};

verus! {

/// The complete parse of a response body: the whole byte sequence must be
/// consumed, else the parse fails with the count of trailing bytes.
pub open spec fn spec_parse_all<T: ParseRequest>(bytes: Seq<u8>) -> Result<
    <T as View>::V,
    RequestError,
> {
    match <T as ParseRequest>::parse_spec(bytes) {
        Ok((v, n)) => if n == bytes.len() {
            Ok(v)
        } else {
            Err(RequestError::Internal(InternalError::TrailingBytes((bytes.len() - n) as usize)))
        },
        Err(e) => Err(e),
    }
}

/// A one-shot completion handle: resolved at most once, with either the
/// response value or the error that ended the request.
pub struct Promise<T> {
    state: Option<Result<T, RequestError>>,
}

impl<T> Promise<T> {
    pub closed spec fn spec_state(self) -> Option<Result<T, RequestError>> {
        self.state
    }

    /// Whether the promise has been resolved.
    pub open spec fn is_resolved(self) -> bool {
        self.spec_state() is Some
    }

    pub fn new() -> (r: Promise<T>)
        ensures
            !r.is_resolved(),
    {
        Promise { state: None }
    }

    /// Resolves the promise with a response value; a promise resolves exactly
    /// once.
    pub fn success(&mut self, value: T)
        requires
            !old(self).is_resolved(),
        ensures
            final(self).spec_state() == Some(Ok::<T, RequestError>(value)),
    {
        self.state = Some(Ok(value));
    }

    /// Resolves the promise with the error that ended the request; a promise
    /// resolves exactly once.
    pub fn failure(&mut self, err: RequestError)
        requires
            !old(self).is_resolved(),
        ensures
            final(self).spec_state() == Some(Err::<T, RequestError>(err)),
    {
        self.state = Some(Err(err));
    }

    /// The outcome observed by the single waiter: nothing until resolution.
    pub fn result(&self) -> (r: &Option<Result<T, RequestError>>)
        ensures
            *r == self.spec_state(),
    {
        &self.state
    }
}

/// An in-flight request: the value to put on the wire and the promise its
/// caller awaits.
pub struct SendBuffer<T: Serialize + ParseRequest> {
    pub request: T,
    pub promise: Promise<T>,
}

impl<T: Serialize + ParseRequest> SendBuffer<T> {
    pub fn new(request: T, promise: Promise<T>) -> (r: SendBuffer<T>)
        ensures
            r.request == request,
            r.promise == promise,
    {
        SendBuffer { request, promise }
    }

    /// Writes the request's wire bytes; fails with InsufficientSpace exactly
    /// when the window is too small for all of them.
    pub fn serialize(&self, cursor: &mut scursor::WriteCursor) -> (r: Result<(), RequestError>)
        requires
            self.request.encodable(),
        ensures
            crate::cursor::wc_space(*old(cursor)) >= self.request.encoding().len() ==> r is Ok
                && crate::cursor::wc_written(*final(cursor)) == crate::cursor::wc_written(
                *old(cursor),
            ) + self.request.encoding() && crate::cursor::wc_space(*final(cursor))
                == crate::cursor::wc_space(*old(cursor)) - self.request.encoding().len(),
            crate::cursor::wc_space(*old(cursor)) < self.request.encoding().len() ==> r == Err::<
                (),
                RequestError,
            >(RequestError::Internal(InternalError::InsufficientSpace)),
    {
        self.request.serialize(cursor)
    }

    /// Resolves the promise with the error that ended the request.
    pub fn failure(&mut self, err: RequestError)
        requires
            !old(self).promise.is_resolved(),
        ensures
            final(self).request == old(self).request,
            final(self).promise.spec_state() == Some(Err::<T, RequestError>(err)),
    {
        self.promise.failure(err)
    }

    /// Parses a complete response body and resolves the promise with it; a
    /// parse failure is returned to the session, which then fails the
    /// promise itself.
    pub fn handle_response(&mut self, cursor: scursor::ReadCursor) -> (r: Result<(), RequestError>)
        requires
            !old(self).promise.is_resolved(),
        ensures
            final(self).request == old(self).request,
            match spec_parse_all::<T>(rc_rem(cursor)) {
                Ok(v) => r is Ok && (final(self).promise.spec_state() matches Some(
                    Ok(t),
                ) && t@ == v),
                Err(e) => r matches Err(got) && got == e && final(self).promise == old(self).promise,
            },
    {
        let response = match self.parse_all(cursor) {
            Ok(v) => v,
            Err(e) => {
                return Err(e);
            },
        };
        self.promise.success(response);
        Ok(())
    }

    /// Parses one response value and requires the cursor to end empty.
    pub fn parse_all(&self, cursor: scursor::ReadCursor) -> (r: Result<T, RequestError>)
        ensures
            match spec_parse_all::<T>(rc_rem(cursor)) {
                Ok(v) => r matches Ok(got) && got@ == v,
                Err(e) => r matches Err(got) && got == e,
            },
    {
        let mut cursor = cursor;
        let response = match T::parse(&mut cursor) {
            Ok(v) => v,
            Err(e) => {
                return Err(e);
            },
        };
        if !cursor.is_empty() {
            return Err(RequestError::Internal(InternalError::TrailingBytes(cursor.remaining())));
        }
        Ok(response)
    }
}

} // verus!
