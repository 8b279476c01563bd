//! Message streams that carry JSON text, and values that turn into bytes.
use vstd::prelude::*;

verus! {

/// Values that can be written as bytes.
pub trait ToBytes {
    fn to_bytes(self) -> Vec<u8>;
}

/// A stream that carries each message as JSON text over the stream it
/// wraps.
pub struct JsonMessageStream<T>(pub T);

impl<T> JsonMessageStream<T> {
    /// Wraps `inner`.
    pub fn from(inner: T) -> (r: JsonMessageStream<T>)
        ensures
            r.0 == inner,
    {
        JsonMessageStream(inner)
    }

    /// The wrapped stream.
    pub fn into_inner(self) -> (r: T)
        ensures
            r == self.0,
    {
        self.0
    }
}

/// A write to a record this server owns, passed on to its siblings.
pub struct OwnedWriteRequest {
    pub namespace: String,
    pub name: String,
    pub data: Vec<u8>,
}

} // verus!
