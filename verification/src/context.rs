use vstd::prelude::*;

use crate::error::Error;

verus! {

/// Where a request to change the watched paths goes.  Before the watcher
/// exists, the pending path list is replaced directly; once the watch is
/// live, the request is recorded and the reload pipeline forwards it to
/// the watcher after the load completes.
enum PathsTarget {
    Direct(Vec<String>),
    Deferred(Option<Vec<String>>),
}

/// The handle passed to the loader for one reload cycle: which paths
/// triggered it, and the way to request a change of the watched set.
pub struct Context {
    modified: Vec<String>,
    target: PathsTarget,
}

impl Context {
    /// The paths that triggered this cycle.
    pub closed spec fn spec_modified(self) -> Seq<String> {
        self.modified@
    }

    /// True before the watcher exists, when path changes apply directly.
    pub closed spec fn is_direct(self) -> bool {
        self.target is Direct
    }

    /// The path list a direct-phase context holds.
    pub closed spec fn direct_paths(self) -> Seq<String> {
        match self.target {
            PathsTarget::Direct(v) => v@,
            PathsTarget::Deferred(_) => Seq::empty(),
        }
    }

    /// The recorded path-change request of a live-phase context.
    pub closed spec fn spec_pending(self) -> Option<Vec<String>> {
        match self.target {
            PathsTarget::Direct(_) => None,
            PathsTarget::Deferred(p) => p,
        }
    }

    /// A context for the initial, synchronous load: path changes replace
    /// `watch_paths` itself.
    pub fn for_paths(modified_paths: Vec<String>, watch_paths: Vec<String>) -> (r: Context)
        ensures
            r.spec_modified() == modified_paths@,
            r.is_direct(),
            r.direct_paths() == watch_paths@,
    {
        Context { modified: modified_paths, target: PathsTarget::Direct(watch_paths) }
    }

    /// A context for a reload on the live watch: path changes are recorded
    /// and forwarded to the watcher when the load completes.
    pub fn for_watch(modified_paths: Vec<String>) -> (r: Context)
        ensures
            r.spec_modified() == modified_paths@,
            !r.is_direct(),
            r.spec_pending() is None,
    {
        Context { modified: modified_paths, target: PathsTarget::Deferred(None) }
    }

    /// The paths that triggered this cycle.
    pub fn modified_paths(&self) -> (r: &Vec<String>)
        ensures
            r@ == self.spec_modified(),
    {
        &self.modified
    }

    /// The first triggering path, if the cycle has one.  The initial load
    /// of a watch with no files has none: a loader must treat that as
    /// "produce the default value".
    pub fn path(&self) -> (r: Option<&String>)
        ensures
            r is None <==> self.spec_modified().len() == 0,
            r matches Some(p) ==> *p == self.spec_modified()[0],
    {
        if self.modified.len() == 0 {
            None
        } else {
            Some(&self.modified[0])
        }
    }

    /// Replace the set of files to watch for changes.
    ///
    /// In the direct phase the list is replaced at once; in the live phase
    /// the request is recorded, and the pipeline forwards it to the
    /// watcher after the load completes — reporting a failure there
    /// through the error handler rather than here.  The call itself
    /// always succeeds.
    pub fn update_watched_files(&mut self, files: Vec<String>) -> (r: Result<(), Error>)
        ensures
            r is Ok,
            final(self).spec_modified() == old(self).spec_modified(),
            final(self).is_direct() == old(self).is_direct(),
            old(self).is_direct() ==> final(self).direct_paths() == files@,
            !old(self).is_direct() ==> final(self).spec_pending() == Some(files),
    {
        match &mut self.target {
            PathsTarget::Direct(paths) => {
                *paths = files;
            }
            PathsTarget::Deferred(pending) => {
                *pending = Some(files);
            }
        }
        Ok(())
    }

    /// The path list of a direct-phase context, with any replacement the
    /// loader made.
    pub fn into_paths(self) -> (r: Vec<String>)
        requires
            self.is_direct(),
        ensures
            r@ == self.direct_paths(),
    {
        match self.target {
            PathsTarget::Direct(paths) => paths,
            PathsTarget::Deferred(_) => Vec::new(),
        }
    }

    /// The recorded path-change request, leaving none behind.
    pub fn take_pending(&mut self) -> (r: Option<Vec<String>>)
        ensures
            r == old(self).spec_pending(),
            final(self).spec_pending() is None,
            final(self).spec_modified() == old(self).spec_modified(),
            final(self).is_direct() == old(self).is_direct(),
            final(self).direct_paths() == old(self).direct_paths(),
    {
        match &mut self.target {
            PathsTarget::Direct(_) => None,
            PathsTarget::Deferred(pending) => pending.take(),
        }
    }
}

} // verus!
