use vstd::prelude::*;

verus! {

/// The errors a watch reports.
///
/// A `WatchError` comes from the OS-level subscription layer (watching or
/// unwatching a directory failed); it never tears the watch down.  A
/// `LoadError` comes from the loader itself (for example an unreadable or
/// unparsable file); the previously published value stays in force.
#[derive(Debug, PartialEq, Eq)]
pub enum Error {
    WatchError(String),
    LoadError(String),
}

impl Error {
    /// True when this error came from the subscription layer.
    pub fn is_watch_error(&self) -> (r: bool)
        ensures
            r == (self is WatchError),
    {
        match self {
            Error::WatchError(_) => true,
            Error::LoadError(_) => false,
        }
    }

    /// The description carried by the error.
    pub fn message(&self) -> (r: &String)
        ensures
            r@ == self.spec_message(),
    {
        match self {
            Error::WatchError(m) => m,
            Error::LoadError(m) => m,
        }
    }

    /// The description carried by the error, as a sequence of characters.
    pub open spec fn spec_message(&self) -> Seq<char> {
        match self {
            Error::WatchError(m) => m@,
            Error::LoadError(m) => m@,
        }
    }
}

} // verus!
