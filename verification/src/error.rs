use vstd::prelude::*;

verus! {

/// A failure while merging: an optional byte position in the input at which the
/// problem was detected (present for parsing failures found while scanning a
/// specific input, absent for generic stream failures), and a fixed description
/// drawn from a closed set of messages.
#[derive(Debug)]
pub struct Error {
    pub position: Option<u64>,
    pub description: &'static str,
}

impl Error {
    pub fn new(position: Option<u64>, description: &'static str) -> (e: Error)
        ensures
            e.position == position,
            e.description@ == description@,
    {
        Error { position, description }
    }

    /// A positional parsing error: the scan of an input failed at byte `pos`.
    pub fn parsing(pos: u64, description: &'static str) -> (e: Error)
        ensures
            e.position == Some(pos),
            e.description@ == description@,
    {
        Error::new(Some(pos), description)
    }

    /// A non-positional error: a stream operation failed with no offset to report.
    pub fn describe(description: &'static str) -> (e: Error)
        ensures
            e.position is None,
            e.description@ == description@,
    {
        Error::new(None, description)
    }
}

pub fn err_parsing<T>(pos: u64, description: &'static str) -> (r: Result<T, Error>)
    ensures
        r matches Err(e) && e.position == Some(pos) && e.description@ == description@,
{
    Err(Error::parsing(pos, description))
}

pub fn err_describe<T>(description: &'static str) -> (r: Result<T, Error>)
    ensures
        r matches Err(e) && e.position is None && e.description@ == description@,
{
    Err(Error::describe(description))
}

} // verus!
