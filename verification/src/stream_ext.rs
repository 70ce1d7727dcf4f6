//! The capability every stream transport has to offer.

use std::time::Duration;
use vstd::prelude::*;

verus! {

/// `std::io::Error`, the error of a failed stream operation. It is carried
/// through; nothing of its inside is known here.
#[verifier::external_type_specification]
#[verifier::external_body]
pub struct ExIoError(std::io::Error);

/// The span of time of `secs` whole seconds.
pub uninterp spec fn seconds(secs: u64) -> Duration;

/// `Duration::from_secs`: the span of that many whole seconds.
pub assume_specification[ Duration::from_secs ](secs: u64) -> (d: Duration)
    ensures
        d == seconds(secs),
;

/// A bidirectional byte stream whose handle can be duplicated and whose
/// reads can be given a deadline.
pub trait StreamExt: Sized + Send + 'static {
    /// A second handle on the same underlying stream.
    fn try_clone(&self) -> Result<Self, std::io::Error>;

    /// Makes every later read fail once `timeout` has passed without data.
    fn set_read_timeout(&mut self, timeout: Duration) -> Result<(), std::io::Error>;
}

/// The two halves of a stream once it was asked for a second handle and
/// answered `cloned`: the new handle for reading, the stream itself for
/// writing.
pub fn halves<S: StreamExt>(stream: S, cloned: Result<S, std::io::Error>) -> (r: Result<
    (S, S),
    std::io::Error,
>)
    ensures
        match r {
            Ok(pair) => cloned == Ok::<S, std::io::Error>(pair.0) && pair.1 == stream,
            Err(e) => cloned == Err::<S, std::io::Error>(e),
        },
{
    match cloned {
        Ok(reader) => Ok((reader, stream)),
        Err(e) => Err(e),
    }
}

/// Splits a stream into the half that is read and the half that is written.
/// Fails where the stream cannot be duplicated.
pub fn split<S: StreamExt>(stream: S) -> (r: Result<(S, S), std::io::Error>)
    ensures
        r matches Ok(pair) ==> pair.1 == stream,
{
    let cloned = stream.try_clone();
    halves(stream, cloned)
}

} // verus!
