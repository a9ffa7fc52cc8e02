use vstd::prelude::*;

use crate::error::Error;

verus! {

/// What parsing a JSON text yields: a value, or the description of the
/// first fault in the text.  The outcome is a function of the text alone.
pub uninterp spec fn json_parse(text: Seq<char>) -> Result<serde_json::Value, Seq<char>>;

/// Relies on serde_json::from_str::<Value>: whether a text parses as JSON
/// and what it parses to depend on the text alone; a failure is returned
/// as its description.
#[verifier::external_body]
fn parse_value(text: &String) -> (r: Result<serde_json::Value, String>)
    ensures
        match json_parse(text@) {
            Ok(v) => r == Ok::<serde_json::Value, String>(v),
            Err(m) => (r matches Err(e) && e@ == m),
        },
{
    serde_json::from_str::<serde_json::Value>(text.as_str()).map_err(|e| e.to_string())
}

/// The state of a watched file as its reader found it.
pub enum FileContent {
    /// The file exists and holds this text.
    Data(String),
    /// There is no file at the path.
    Missing,
    /// Reading failed for another reason, described here.
    Unreadable(String),
}

/// Loads watched files as JSON.
///
/// A missing file yields no value — the watch then falls back to the
/// default — and an unparsable or unreadable one is a load error, which
/// leaves the previously published value in force.
pub struct JsonLoader;

impl JsonLoader {
    /// The value owed for one state of the watched file.
    pub fn load_content(content: FileContent) -> (r: Result<Option<serde_json::Value>, Error>)
        ensures
            match content {
                FileContent::Data(s) => match json_parse(s@) {
                    Ok(v) => r == Ok::<Option<serde_json::Value>, Error>(Some(v)),
                    Err(m) => (r matches Err(e) && e is LoadError && e.spec_message() == m),
                },
                FileContent::Missing => r == Ok::<Option<serde_json::Value>, Error>(None),
                FileContent::Unreadable(m) => (r matches Err(e) && e is LoadError
                    && e.spec_message() == m@),
            },
    {
        match content {
            FileContent::Data(text) => match parse_value(&text) {
                Ok(value) => Ok(Some(value)),
                Err(message) => Err(Error::LoadError(message)),
            },
            FileContent::Missing => Ok(None),
            FileContent::Unreadable(message) => Err(Error::LoadError(message)),
        }
    }
}

} // verus!
