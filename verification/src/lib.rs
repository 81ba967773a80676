pub mod crawler;
pub mod extract;
pub mod text;

use vstd::prelude::*;

verus! {

/// Error taxonomy of the crawler: an invalid selector pattern is fatal at
/// configuration time; fetch and decode failures are transient and skip one
/// frontier entry.
#[derive(Clone, Copy, Debug, PartialEq, Eq, Structural)]
pub enum CrawlError {
    ConfigurationError,
    FetchError,
    DecodeError,
}

impl CrawlError {
    /// Whether this error aborts the whole run (configuration errors do;
    /// fetch and decode errors only skip the current frontier entry).
    pub fn is_fatal(&self) -> (r: bool)
        ensures
            r == (*self == CrawlError::ConfigurationError),
    {
        match self {
            CrawlError::ConfigurationError => true,
            CrawlError::FetchError => false,
            CrawlError::DecodeError => false,
        }
    }
}

} // verus!
