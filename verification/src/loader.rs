use vstd::prelude::*;

use crate::error::Error;

verus! {

/// The result of one load: a value, and optionally the set of files the
/// value was derived from.  When dependencies are present they replace the
/// watched-file set, so that edits to any of them trigger a reload.
pub struct Loaded<T> {
    pub value: T,
    pub dependencies: Option<Vec<String>>,
}

impl<T> Loaded<T> {
    /// The dependency list as a sequence; empty when none was recorded.
    pub open spec fn deps(self) -> Seq<String> {
        match self.dependencies {
            Some(v) => v@,
            None => Seq::empty(),
        }
    }

    /// Wrap a freshly loaded value, with no dependencies recorded.
    pub fn new(value: T) -> (r: Self)
        ensures
            r.value == value,
            r.dependencies is None,
    {
        Self { value, dependencies: None }
    }

    /// Record one more file the loaded value depends on.
    pub fn add_dependency(&mut self, dependency: String)
        ensures
            final(self).value == old(self).value,
            final(self).dependencies is Some,
            final(self).deps() == old(self).deps().push(dependency),
    {
        match &mut self.dependencies {
            Some(deps) => {
                deps.push(dependency);
            }
            None => {
                let mut deps: Vec<String> = Vec::new();
                deps.push(dependency);
                self.dependencies = Some(deps);
            }
        }
    }

    /// Record several more files the loaded value depends on.
    pub fn add_dependencies(&mut self, dependencies: Vec<String>)
        ensures
            final(self).value == old(self).value,
            final(self).dependencies is Some,
            final(self).deps() == old(self).deps() + dependencies@,
    {
        match &mut self.dependencies {
            Some(deps) => {
                let mut rest = dependencies;
                deps.append(&mut rest);
            }
            None => {
                self.dependencies = Some(dependencies);
            }
        }
        proof {
            assert(final(self).deps() =~= old(self).deps() + dependencies@);
        }
    }

    /// `add_dependency`, in builder style.
    pub fn with_dependency(self, dependency: String) -> (r: Self)
        ensures
            r.value == self.value,
            r.dependencies is Some,
            r.deps() == self.deps().push(dependency),
    {
        let mut this = self;
        this.add_dependency(dependency);
        this
    }

    /// `add_dependencies`, in builder style.
    pub fn with_dependencies(self, dependencies: Vec<String>) -> (r: Self)
        ensures
            r.value == self.value,
            r.dependencies is Some,
            r.deps() == self.deps() + dependencies@,
    {
        let mut this = self;
        this.add_dependencies(dependencies);
        this
    }
}

/// A loader in the batch style: it is told which files changed and answers
/// with a value, optionally carrying the files that value depends on.
pub trait Loader<T> {
    /// Called with the files that changed.  An `Err` leaves the previously
    /// published value and the watched set untouched.
    fn files_changed(&mut self, paths: &Vec<String>) -> Result<Loaded<T>, String>;

    /// Called when the subscription layer reports an error.
    fn on_error(&mut self, _error: Error) {
    }
}

} // verus!
