//! Declarations of the outside types that appear in signatures and fields
//! of this crate.  Each is opaque: nothing is assumed of its contents.

use vstd::prelude::*;

verus! {

#[verifier::external_type_specification]
#[verifier::external_body]
pub struct ExPathBuf(std::path::PathBuf);

#[verifier::external_type_specification]
#[verifier::external_body]
pub struct ExRecommendedWatcher(notify::RecommendedWatcher);

/// Holds a debouncing watcher.  Verus refuses a declaration of the
/// debouncer type itself — its generic parameter is bound by an outside
/// trait — so the value is held opaquely in this struct instead.
#[verifier::external_body]
pub(crate) struct DebouncedWatcher {
    pub(crate) inner: notify_debouncer_mini::Debouncer<notify::RecommendedWatcher>,
}

#[verifier::external_type_specification]
#[verifier::external_body]
pub struct ExJsonValue(serde_json::Value);

} // verus!
