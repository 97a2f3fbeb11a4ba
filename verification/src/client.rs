//! The body types a transport client consumes: a request body is empty,
//! fixed, or produced incrementally by a resettable writer. The transport
//! itself — sending requests, receiving responses — lives outside this
//! library; these types only describe what crosses the boundary.

use vstd::prelude::*;

use crate::serializable_error::SerializableError;

verus! {

/// A trait implemented by streaming bodies.
pub trait WriteBody {
    /// Writes the body out, in its entirety, by appending it to the sink.
    ///
    /// Behavior is unspecified if this method is called twice without a
    /// successful call to `reset` in between.
    fn write_body(&mut self, w: &mut Vec<u8>) -> Result<(), SerializableError>;

    /// Attempts to reset the body so that it can be written out again.
    ///
    /// Returns `true` if successful.
    fn reset(&mut self) -> bool;
}

impl<'a> WriteBody for &'a [u8] {
    /// A byte slice streams by appending its bytes; it always succeeds.
    fn write_body(&mut self, w: &mut Vec<u8>) -> (r: Result<(), SerializableError>)
        ensures
            r is Ok,
            final(w)@ == old(w)@ + old(self)@,
    {
        let mut i: usize = 0;
        while i < self.len()
            invariant
                i <= self@.len(),
                *self == *old(self),
                w@ == old(w)@ + old(self)@.take(i as int),
            decreases self@.len() - i,
        {
            w.push(self[i]);
            proof {
                assert(old(w)@ + self@.take(i + 1) =~= (old(w)@ + self@.take(i as int)).push(
                    self@[i as int],
                ));
            }
            i += 1;
        }
        proof {
            assert(self@.take(self@.len() as int) =~= self@);
        }
        Ok(())
    }

    /// A byte slice can always be written again.
    fn reset(&mut self) -> (r: bool)
        ensures
            r,
    {
        true
    }
}

/// Converts a type into a [`WriteBody`] implementation.
pub trait IntoWriteBody {
    /// The `WriteBody` implementation for this type.
    type WriteBody: WriteBody;

    /// Converts this value into a `WriteBody` implementation.
    fn into_write_body(self) -> Self::WriteBody;
}

impl<'a> IntoWriteBody for &'a [u8] {
    type WriteBody = &'a [u8];

    /// A byte slice is already a streaming body.
    fn into_write_body(self) -> (r: &'a [u8])
        ensures
            r@ == self@,
    {
        self
    }
}

/// The body type used by a request, generic over the streaming writer a
/// caller supplies.
pub enum Body<'a, W: WriteBody> {
    /// An empty body.
    Empty,
    /// A fixed-size body.
    Fixed(Vec<u8>),
    /// An indeterminate-size, streaming body.
    Streaming(&'a mut W),
}

} // verus!
