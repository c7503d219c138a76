use vstd::prelude::*;

verus! {

/// Failure taxonomy of the image transform pipeline. Each step that can fail
/// has a variant of its own, carrying the underlying codec's message, so that
/// callers can tell the failures apart.
#[derive(Debug, Clone, PartialEq, Eq)]
pub enum ImageError {
    /// Encoding the image to the requested target format failed.
    ImageEncodingError(String),
    /// The decode step rejected the input bytes.
    ImageLoadingError(String),
    /// Reading a property of the decoded image (such as its size) failed.
    GeneralImageError(String),
    /// Allocating the destination buffer for a resize failed.
    ImageCreationError(String),
    /// The resize operation itself failed.
    ImageResizingError(String),
}

/// Top-level error surfaced to a submitter awaiting a job's completion.
#[derive(Debug, Clone, PartialEq, Eq)]
pub enum Error {
    /// The completion channel closed without carrying a value: the worker
    /// died mid-job or the pool was torn down before the job ran.
    OneshotReceiveError,
    /// The transform failed; the worker delivered the failure itself.
    ImageError(ImageError),
}

impl From<ImageError> for Error {
    fn from(err: ImageError) -> Self {
        Error::ImageError(err)
    }
}

impl vstd::std_specs::convert::FromSpecImpl<ImageError> for Error {
    open spec fn obeys_from_spec() -> bool {
        true
    }

    open spec fn from_spec(err: ImageError) -> Self {
        Error::ImageError(err)
    }
}

/// Folds what came out of a job's one-shot completion channel into the
/// submitter-facing result: a closed channel (`None`) is never swallowed but
/// becomes the explicit delivery-failure error, and a delivered transform
/// result passes through unchanged.
pub fn resolve_completion(received: Option<Result<Vec<u8>, ImageError>>) -> (r: Result<
    Vec<u8>,
    Error,
>)
    ensures
        match received {
            None => r == Result::<Vec<u8>, Error>::Err(Error::OneshotReceiveError),
            Some(Ok(bytes)) => r == Result::<Vec<u8>, Error>::Ok(bytes),
            Some(Err(e)) => r == Result::<Vec<u8>, Error>::Err(Error::ImageError(e)),
        },
{
    match received {
        None => Err(Error::OneshotReceiveError),
        Some(Ok(bytes)) => Ok(bytes),
        Some(Err(e)) => Err(Error::ImageError(e)),
    }
}

} // verus!
