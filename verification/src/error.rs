use vstd::prelude::*;

verus! {

/// The failure taxonomy of the download pipeline. Every error is fatal to the
/// run: nothing is retried, nothing is downgraded to a warning.
#[derive(Clone, Copy, Debug, PartialEq, Eq, Structural)]
pub enum Error {
    /// Non-200 status, or a missing anti-forgery token, on the profile fetch.
    SessionError,
    /// Non-200 status or malformed JSON on a load-more call.
    PaginationError,
    /// A missing or short candidate list, a missing video tag or source, a
    /// failed detail fetch, or an unusable media URL.
    ExtractionError,
    /// A feed item whose discriminant is none of photo, video, carousel.
    UnsupportedMediaTypeError,
    /// A directory or file write failed, or a media download came back non-200.
    IoError,
}

} // verus!
