use vstd::prelude::*;

use crate::context::Context;
use crate::error::Error;
use crate::types::ErrorHandler;
use crate::types::Loader;
use crate::types::UpdatedHandler;
use crate::value_cell::ValueCell;

verus! {

/// What one delivery from the watcher came to.
pub enum ReloadOutcome {
    /// The loader produced a value and it was published.
    Published,
    /// The loader failed; the published value and the watched set stand
    /// unchanged.
    Kept,
    /// The subscription layer reported an error; nothing changed.
    SubscriptionError,
}

/// The reload half of a watch: it owns the loader, the hooks, and the
/// writer handle of the value cell, and runs one reload per delivered
/// change batch, on the thread of the event source.
///
/// At most one reload is in flight at a time: the pipeline is driven by
/// the single event-delivery thread, and it is the cell's only writer.
#[verifier::reject_recursive_types(T)]
pub struct ReloadPipeline<T, L, U, E> {
    value: ValueCell<T>,
    loader: L,
    after_update: U,
    error_handler: E,
    last_published: Ghost<T>,
}

impl<T, L: Loader<T>, U: UpdatedHandler<T>, E: ErrorHandler> ReloadPipeline<T, L, U, E> {
    /// The value this pipeline last stored into its cell.
    pub closed spec fn last(self) -> T {
        self.last_published@
    }

    /// Assemble the pipeline around a cell already seeded with the value
    /// named by `seeded`.
    pub(crate) fn from_parts(
        value: ValueCell<T>,
        Ghost(seeded): Ghost<T>,
        loader: L,
        after_update: U,
        error_handler: E,
    ) -> (r: Self)
        ensures
            r.last() == seeded,
    {
        ReloadPipeline {
            value,
            loader,
            after_update,
            error_handler,
            last_published: Ghost(seeded),
        }
    }

    /// Finish one reload, given what the loader answered.
    ///
    /// A loaded value is published — the update hook receives a snapshot
    /// of exactly that value — and the watched-path replacement recorded
    /// in the context comes back for the caller to forward.  A failure
    /// goes to the error handler, the published value stands, and no
    /// path replacement is forwarded, whatever the loader asked for
    /// before it failed.
    pub fn apply_load_result(&mut self, context: &mut Context, loaded: Result<T, String>) -> (r: (
        ReloadOutcome,
        Option<Vec<String>>,
    ))
        ensures
            loaded matches Ok(v) ==> (r.0 is Published && final(self).last() == v),
            loaded is Err ==> (r.0 is Kept && final(self).last() == old(self).last() && r.1
                is None),
            !(r.0 is SubscriptionError),
            final(context).spec_modified() == old(context).spec_modified(),
    {
        match loaded {
            Ok(value) => {
                let ghost loaded_value = value;
                let snapshot = self.value.store_with_snapshot(value);
                self.last_published = Ghost(loaded_value);
                self.after_update.after_update(context, snapshot);
                let pending = context.take_pending();
                (ReloadOutcome::Published, pending)
            }
            Err(message) => {
                self.error_handler.on_error(context, Error::LoadError(message));
                (ReloadOutcome::Kept, None)
            }
        }
    }

    /// Run one delivery from the watcher.
    ///
    /// A batch of changed paths is handed to the loader and its answer is
    /// applied by `apply_load_result`: published on success, reported and
    /// kept on failure.  A subscription error goes to the error handler
    /// with nothing changed.  The second component is the watched-path
    /// replacement the loader requested, for the caller to forward to the
    /// watcher: it is `Some` only after a successful load, so a failed
    /// reload never changes the watched set either.
    pub fn handle(&mut self, changes: Result<Vec<String>, Error>) -> (r: (
        ReloadOutcome,
        Option<Vec<String>>,
    ))
        ensures
            !(r.0 is Published) ==> final(self).last() == old(self).last(),
            !(r.0 is Published) ==> r.1 is None,
            changes is Err <==> r.0 is SubscriptionError,
    {
        match changes {
            Ok(paths) => {
                let mut context = Context::for_watch(paths);
                let loaded = self.loader.load(&mut context);
                self.apply_load_result(&mut context, loaded)
            }
            Err(error) => {
                let mut context = Context::for_watch(Vec::new());
                self.error_handler.on_error(&mut context, error);
                (ReloadOutcome::SubscriptionError, None)
            }
        }
    }

    /// Report an error to the error handler outside a reload cycle, as
    /// when forwarding a watched-path replacement to the watcher fails.
    pub fn report_error(&mut self, error: Error)
        ensures
            final(self).last() == old(self).last(),
    {
        let mut context = Context::for_watch(Vec::new());
        self.error_handler.on_error(&mut context, error);
    }
}

} // verus!
