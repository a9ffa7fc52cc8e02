use vstd::prelude::*;

use crate::context::Context;
use crate::error::Error;
use crate::file_watcher::clone_paths;
use crate::pipeline::ReloadPipeline;
use crate::types::DefaultErrorHandler;
use crate::types::DefaultLoader;
use crate::types::DefaultUpdatedHandler;
use crate::types::ErrorHandler;
use crate::types::Loader;
use crate::types::UpdatedHandler;
use crate::value_cell::ValueCell;

verus! {

/// The debounce window a new builder starts with, in milliseconds.
pub const DEFAULT_DEBOUNCE_MS: u64 = 100;

/// Accumulates the configuration of a watch: the initial files, the
/// debounce window, the loader, and the hooks.  `prepare` then performs
/// the one synchronous initial load.
pub struct Builder<Load, Updated, ErrHandler> {
    /// The initial set of files to watch for changes.
    files: Vec<String>,
    /// The window, in milliseconds, to debounce changes before calling
    /// the loader; `None` delivers every change at once.
    debounce: Option<u64>,
    /// The loader that turns changed files into a value.
    loader: Load,
    /// The handler called when an error occurs.
    error_handler: ErrHandler,
    /// The handler called after the value is updated.
    after_update: Updated,
}

impl Builder<DefaultLoader, DefaultUpdatedHandler, DefaultErrorHandler> {
    /// A builder with no files, the default debounce window, and the
    /// default loader and handlers.
    pub fn new() -> (r: Self)
        ensures
            r.spec_files() == Seq::<String>::empty(),
            r.spec_debounce() == Some(DEFAULT_DEBOUNCE_MS),
    {
        Builder {
            files: Vec::new(),
            debounce: Some(DEFAULT_DEBOUNCE_MS),
            loader: DefaultLoader,
            error_handler: DefaultErrorHandler,
            after_update: DefaultUpdatedHandler,
        }
    }
}

impl Default for Builder<DefaultLoader, DefaultUpdatedHandler, DefaultErrorHandler> {
    fn default() -> (r: Self)
        ensures
            r.spec_files() == Seq::<String>::empty(),
            r.spec_debounce() == Some(DEFAULT_DEBOUNCE_MS),
    {
        Builder::new()
    }
}

impl<Load, Updated, ErrHandler> Builder<Load, Updated, ErrHandler> {
    /// The files accumulated so far.
    pub closed spec fn spec_files(self) -> Seq<String> {
        self.files@
    }

    /// The debounce window, in milliseconds.
    pub closed spec fn spec_debounce(self) -> Option<u64> {
        self.debounce
    }

    /// The loader.
    pub closed spec fn spec_loader(self) -> Load {
        self.loader
    }

    /// The error handler.
    pub closed spec fn spec_error_handler(self) -> ErrHandler {
        self.error_handler
    }

    /// The update handler.
    pub closed spec fn spec_after_update(self) -> Updated {
        self.after_update
    }

    /// Add one file to the initial watched set.
    pub fn watch_file(self, file: String) -> (r: Self)
        ensures
            r.spec_files() == self.spec_files().push(file),
            r.spec_debounce() == self.spec_debounce(),
            r.spec_loader() == self.spec_loader(),
            r.spec_error_handler() == self.spec_error_handler(),
            r.spec_after_update() == self.spec_after_update(),
    {
        let mut this = self;
        this.files.push(file);
        this
    }

    /// Add several files to the initial watched set.
    pub fn watch_files(self, files: Vec<String>) -> (r: Self)
        ensures
            r.spec_files() == self.spec_files() + files@,
            r.spec_debounce() == self.spec_debounce(),
            r.spec_loader() == self.spec_loader(),
            r.spec_error_handler() == self.spec_error_handler(),
            r.spec_after_update() == self.spec_after_update(),
    {
        let mut this = self;
        let mut rest = files;
        this.files.append(&mut rest);
        proof {
            assert(this.spec_files() =~= self.spec_files() + files@);
        }
        this
    }

    /// Set the window to wait after a change before calling the loader.
    pub fn debounce(self, duration_ms: u64) -> (r: Self)
        ensures
            r.spec_files() == self.spec_files(),
            r.spec_debounce() == Some(duration_ms),
            r.spec_loader() == self.spec_loader(),
            r.spec_error_handler() == self.spec_error_handler(),
            r.spec_after_update() == self.spec_after_update(),
    {
        let mut this = self;
        this.debounce = Some(duration_ms);
        this
    }

    /// Deliver every change at once, with no debouncing.
    pub fn no_debounce(self) -> (r: Self)
        ensures
            r.spec_files() == self.spec_files(),
            r.spec_debounce() is None,
            r.spec_loader() == self.spec_loader(),
            r.spec_error_handler() == self.spec_error_handler(),
            r.spec_after_update() == self.spec_after_update(),
    {
        let mut this = self;
        this.debounce = None;
        this
    }

    /// Set the loader that turns changed files into a value.
    pub fn load<Load2>(self, loader: Load2) -> (r: Builder<Load2, Updated, ErrHandler>)
        ensures
            r.spec_files() == self.spec_files(),
            r.spec_debounce() == self.spec_debounce(),
            r.spec_loader() == loader,
            r.spec_error_handler() == self.spec_error_handler(),
            r.spec_after_update() == self.spec_after_update(),
    {
        Builder {
            files: self.files,
            debounce: self.debounce,
            loader,
            error_handler: self.error_handler,
            after_update: self.after_update,
        }
    }

    /// Set the handler called when an error occurs.
    pub fn on_error<ErrHandler2>(self, error_handler: ErrHandler2) -> (r: Builder<
        Load,
        Updated,
        ErrHandler2,
    >)
        ensures
            r.spec_files() == self.spec_files(),
            r.spec_debounce() == self.spec_debounce(),
            r.spec_loader() == self.spec_loader(),
            r.spec_error_handler() == error_handler,
            r.spec_after_update() == self.spec_after_update(),
    {
        Builder {
            files: self.files,
            debounce: self.debounce,
            loader: self.loader,
            error_handler,
            after_update: self.after_update,
        }
    }

    /// Set the handler called after the loaded value changes.
    pub fn after_update<Updated2>(self, after_update: Updated2) -> (r: Builder<
        Load,
        Updated2,
        ErrHandler,
    >)
        ensures
            r.spec_files() == self.spec_files(),
            r.spec_debounce() == self.spec_debounce(),
            r.spec_loader() == self.spec_loader(),
            r.spec_error_handler() == self.spec_error_handler(),
            r.spec_after_update() == after_update,
    {
        Builder {
            files: self.files,
            debounce: self.debounce,
            loader: self.loader,
            error_handler: self.error_handler,
            after_update,
        }
    }

    /// Load the watched files as JSON.
    ///
    /// A removed file leaves the watch on the default value; a file that
    /// cannot be parsed leaves the current value unchanged.
    pub fn load_json(self) -> (r: Builder<crate::loaders::JsonLoader, Updated, ErrHandler>)
        ensures
            r.spec_files() == self.spec_files(),
            r.spec_debounce() == self.spec_debounce(),
            r.spec_error_handler() == self.spec_error_handler(),
            r.spec_after_update() == self.spec_after_update(),
    {
        self.load(crate::loaders::JsonLoader)
    }

    /// Perform the one synchronous initial load.
    ///
    /// The loader runs once with the initial files as the change batch —
    /// possibly none, which a loader must answer with its default — and
    /// its value, or the type's default after a failure reported to the
    /// error handler, seeds the value cell.  The update handler then runs
    /// once, as it does after every later publication.  The parts come
    /// back ready for the live watch to be assembled around them.
    pub fn prepare<T: Default>(self) -> (r: Prepared<T, Load, Updated, ErrHandler>) where
        Load: Loader<T>,
        Updated: UpdatedHandler<T>,
        ErrHandler: ErrorHandler,

        ensures
            r.debounce == self.spec_debounce(),
    {
        let mut loader = self.loader;
        let mut error_handler = self.error_handler;
        let mut after_update = self.after_update;

        let changed = clone_paths(&self.files);
        let mut context = Context::for_paths(changed, self.files);
        let loaded = loader.load(&mut context);
        let value: T = initial_value(loaded, &mut error_handler, &mut context);
        let ghost seeded = value;
        let (cell, snapshot) = ValueCell::new_with_snapshot(value);
        let reader = cell.reader();
        after_update.after_update(&mut context, snapshot);
        let files = context.into_paths();
        let pipeline = ReloadPipeline::from_parts(
            cell,
            Ghost(seeded),
            loader,
            after_update,
            error_handler,
        );
        Prepared { pipeline, value: reader, files, debounce: self.debounce }
    }
}

/// The value that seeds a fresh watch, given what the initial load
/// answered: the loaded value itself, or — after the failure is reported
/// to the error handler — the type's default.
pub fn initial_value<T: Default, ErrHandler: ErrorHandler>(
    loaded: Result<T, String>,
    error_handler: &mut ErrHandler,
    context: &mut Context,
) -> (r: T)
    ensures
        loaded matches Ok(v) ==> r == v,
        final(context).is_direct() == old(context).is_direct(),
        final(context).spec_modified() == old(context).spec_modified(),
{
    match loaded {
        Ok(v) => v,
        Err(message) => {
            error_handler.on_error(context, Error::LoadError(message));
            T::default()
        }
    }
}

/// The outcome of the initial synchronous load: everything a live watch
/// is assembled from.
#[verifier::reject_recursive_types(T)]
pub struct Prepared<T, Load, Updated, ErrHandler> {
    /// The reload pipeline, seeded with the initial value.
    pub pipeline: ReloadPipeline<T, Load, Updated, ErrHandler>,
    /// A reader handle on the value cell the pipeline publishes into.
    pub value: ValueCell<T>,
    /// The files to watch, with any replacement the loader requested
    /// during the initial load.
    pub files: Vec<String>,
    /// The debounce window, in milliseconds.
    pub debounce: Option<u64>,
}

} // verus!
