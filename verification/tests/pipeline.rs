use std::sync::Arc;
use std::sync::Mutex;

use filewatch::Builder;
use filewatch::ChangeHandler;
use filewatch::Context;
use filewatch::Error;
use filewatch::ErrorHandler;
use filewatch::FileWatcher;
use filewatch::Guard;
use filewatch::Loader;
use filewatch::ReloadOutcome;
use filewatch::UpdatedHandler;

fn s(text: &str) -> String {
    text.to_string()
}

/// Answers each load with the next scripted result.
struct ScriptedLoader {
    results: Vec<Result<i64, String>>,
}

impl Loader<i64> for ScriptedLoader {
    fn load(&mut self, _context: &mut Context) -> Result<i64, String> {
        self.results.remove(0)
    }
}

/// Records every error it is handed.
struct ErrorLog {
    log: Arc<Mutex<Vec<Error>>>,
}

impl ErrorHandler for ErrorLog {
    fn on_error(&mut self, _context: &mut Context, error: Error) {
        self.log.lock().unwrap().push(error);
    }
}

/// Records every published value it is shown.
struct UpdateLog {
    log: Arc<Mutex<Vec<i64>>>,
}

impl UpdatedHandler<i64> for UpdateLog {
    fn after_update(&mut self, _context: &mut Context, value: Guard<i64>) {
        self.log.lock().unwrap().push(*value);
    }
}

#[test]
fn initial_load_seeds_the_value() {
    let loader = ScriptedLoader { results: vec![Ok(1)] };
    let prepared = Builder::new().watch_file(s("/tmp/pipe-f")).load(loader).prepare::<i64>();
    assert_eq!(*prepared.value.load(), 1);
    assert_eq!(prepared.files, vec![s("/tmp/pipe-f")]);
    assert_eq!(prepared.debounce, Some(100));
}

#[test]
fn no_debounce_carries_through() {
    let loader = ScriptedLoader { results: vec![Ok(1)] };
    let prepared =
        Builder::new().watch_file(s("/tmp/pipe-f")).no_debounce().load(loader).prepare::<i64>();
    assert_eq!(prepared.debounce, None);
}

#[test]
fn failed_initial_load_falls_back_to_the_default() {
    let errors = Arc::new(Mutex::new(Vec::new()));
    let loader = ScriptedLoader { results: vec![Err(s("no good"))] };
    let prepared = Builder::new()
        .watch_file(s("/tmp/pipe-f"))
        .load(loader)
        .on_error(ErrorLog { log: errors.clone() })
        .prepare::<i64>();
    assert_eq!(*prepared.value.load(), 0);
    let seen = errors.lock().unwrap();
    assert_eq!(seen.len(), 1);
    assert!(matches!(seen[0], Error::LoadError(_)));
}

#[test]
fn reloads_publish_and_failures_keep_the_value() {
    // The sequence of an end-to-end session, without the disk: an initial
    // value, a clean reload, a failing reload, and a reload after the
    // file vanished — the published value survives both failures.
    let updates = Arc::new(Mutex::new(Vec::new()));
    let loader = ScriptedLoader {
        results: vec![Ok(1), Ok(2), Err(s("not a number")), Err(s("file is gone"))],
    };
    let prepared = Builder::new()
        .watch_file(s("/tmp/pipe-f"))
        .load(loader)
        .after_update(UpdateLog { log: updates.clone() })
        .prepare::<i64>();
    let reader = &prepared.value;
    let mut pipeline = prepared.pipeline;
    assert_eq!(*reader.load(), 1);

    let (outcome, pending) = pipeline.handle(Ok(vec![s("/tmp/pipe-f")]));
    assert!(matches!(outcome, ReloadOutcome::Published));
    assert!(pending.is_none());
    assert_eq!(*reader.load(), 2);

    let (outcome, pending) = pipeline.handle(Ok(vec![s("/tmp/pipe-f")]));
    assert!(matches!(outcome, ReloadOutcome::Kept));
    assert!(pending.is_none());
    assert_eq!(*reader.load(), 2);

    let (outcome, _) = pipeline.handle(Ok(vec![s("/tmp/pipe-f")]));
    assert!(matches!(outcome, ReloadOutcome::Kept));
    assert_eq!(*reader.load(), 2);

    assert_eq!(*updates.lock().unwrap(), vec![1, 2]);
}

#[test]
fn subscription_errors_reach_the_error_handler_unchanged() {
    let errors = Arc::new(Mutex::new(Vec::new()));
    let loader = ScriptedLoader { results: vec![Ok(1)] };
    let prepared = Builder::new()
        .load(loader)
        .on_error(ErrorLog { log: errors.clone() })
        .prepare::<i64>();
    let reader = &prepared.value;
    let mut pipeline = prepared.pipeline;

    let (outcome, pending) = pipeline.handle(Err(Error::WatchError(s("queue overflowed"))));
    assert!(matches!(outcome, ReloadOutcome::SubscriptionError));
    assert!(pending.is_none());
    assert_eq!(*reader.load(), 1);
    assert_eq!(
        *errors.lock().unwrap(),
        vec![Error::WatchError(s("queue overflowed"))]
    );
}

/// Reads its includes from a shared cell, asks for them to be watched,
/// and answers with the configured aggregate.
struct AggregateLoader {
    config: Arc<Mutex<(Vec<String>, i64)>>,
}

impl Loader<i64> for AggregateLoader {
    fn load(&mut self, context: &mut Context) -> Result<i64, String> {
        let (includes, value) = self.config.lock().unwrap().clone();
        let mut files = vec![s("/tmp/dep-main")];
        files.extend(includes);
        context.update_watched_files(files).unwrap();
        Ok(value)
    }
}

/// Feeds deliveries straight into nothing; the tests drive the pipeline
/// by hand.
struct SilentHandler;

impl ChangeHandler for SilentHandler {
    fn on_change(&mut self, _changes: Result<Vec<String>, Error>) {}
}

#[test]
fn dependencies_grow_and_shrink_the_watched_set() {
    // A main file pulls in two includes; the aggregate covers all three.
    let config = Arc::new(Mutex::new((
        vec![s("/tmp/dep-inc-1"), s("/tmp/dep-inc-2")],
        6i64,
    )));
    let prepared = Builder::new()
        .watch_file(s("/tmp/dep-main"))
        .load(AggregateLoader { config: config.clone() })
        .prepare::<i64>();
    // The initial load already replaced the watched list through the
    // context, directly: the watcher starts on all three files.
    assert_eq!(
        prepared.files,
        vec![s("/tmp/dep-main"), s("/tmp/dep-inc-1"), s("/tmp/dep-inc-2")]
    );
    assert_eq!(*prepared.value.load(), 6);

    let mut watcher =
        FileWatcher::create(prepared.files, prepared.debounce, SilentHandler).unwrap();
    let mut pipeline = prepared.pipeline;

    // The main file drops one include: the aggregate and the watched set
    // both shrink.
    *config.lock().unwrap() = (vec![s("/tmp/dep-inc-2")], 5);
    let (outcome, pending) = pipeline.handle(Ok(vec![s("/tmp/dep-main")]));
    assert!(matches!(outcome, ReloadOutcome::Published));
    let requested = pending.unwrap();
    assert_eq!(requested, vec![s("/tmp/dep-main"), s("/tmp/dep-inc-2")]);
    watcher.update_files(requested).unwrap();
    assert_eq!(
        watcher.watched_files(),
        vec![s("/tmp/dep-main"), s("/tmp/dep-inc-2")]
    );
    assert_eq!(*prepared.value.load(), 5);
}

/// Asks for a new watched set and then fails.
struct FailingUpdater;

impl Loader<i64> for FailingUpdater {
    fn load(&mut self, context: &mut Context) -> Result<i64, String> {
        context.update_watched_files(vec![s("/tmp/should-not-stick")]).unwrap();
        Err(s("broken after asking"))
    }
}

#[test]
fn failed_reload_discards_the_requested_path_change() {
    // On the live watch the loader asks for a new watched set and then
    // fails: the request is discarded along with the rest of the reload,
    // so the watched set stays what it was.
    let prepared =
        Builder::new().watch_file(s("/tmp/keep-me")).load(FailingUpdater).prepare::<i64>();
    let mut pipeline = prepared.pipeline;
    let (outcome, pending) = pipeline.handle(Ok(vec![s("/tmp/keep-me")]));
    assert!(matches!(outcome, ReloadOutcome::Kept));
    assert!(pending.is_none());
    assert_eq!(*prepared.value.load(), 0);
}

#[test]
fn applying_a_load_result_publishes_or_keeps() {
    let updates = Arc::new(Mutex::new(Vec::new()));
    let loader = ScriptedLoader { results: vec![Ok(1)] };
    let prepared = Builder::new()
        .watch_file(s("/tmp/apply-f"))
        .load(loader)
        .after_update(UpdateLog { log: updates.clone() })
        .prepare::<i64>();
    let reader = &prepared.value;
    let mut pipeline = prepared.pipeline;

    let mut context = Context::for_watch(vec![s("/tmp/apply-f")]);
    let (outcome, pending) = pipeline.apply_load_result(&mut context, Ok(7));
    assert!(matches!(outcome, ReloadOutcome::Published));
    assert!(pending.is_none());
    assert_eq!(*reader.load(), 7);

    let mut context = Context::for_watch(vec![s("/tmp/apply-f")]);
    let (outcome, pending) = pipeline.apply_load_result(&mut context, Err(s("went wrong")));
    assert!(matches!(outcome, ReloadOutcome::Kept));
    assert!(pending.is_none());
    assert_eq!(*reader.load(), 7);

    // The update hook saw the initial value and the applied one, each
    // exactly as published.
    assert_eq!(*updates.lock().unwrap(), vec![1, 7]);
}

#[test]
fn initial_value_takes_the_loaded_answer() {
    let errors = Arc::new(Mutex::new(Vec::new()));
    let mut handler = ErrorLog { log: errors.clone() };

    let mut context = Context::for_watch(Vec::new());
    let seeded: i64 = filewatch::initial_value(Ok(42), &mut handler, &mut context);
    assert_eq!(seeded, 42);
    assert!(errors.lock().unwrap().is_empty());

    let mut context = Context::for_watch(Vec::new());
    let seeded: i64 = filewatch::initial_value(Err(s("bad input")), &mut handler, &mut context);
    assert_eq!(seeded, 0);
    assert_eq!(*errors.lock().unwrap(), vec![Error::LoadError(s("bad input"))]);
}

#[test]
fn live_phase_context_records_instead_of_failing() {
    let mut context = Context::for_watch(vec![s("/tmp/changed")]);
    assert_eq!(context.path(), Some(&s("/tmp/changed")));
    assert_eq!(context.modified_paths(), &vec![s("/tmp/changed")]);
    assert!(context.update_watched_files(vec![s("/tmp/other")]).is_ok());
    assert_eq!(context.take_pending(), Some(vec![s("/tmp/other")]));
    assert_eq!(context.take_pending(), None);
}

#[test]
fn context_with_no_paths_has_no_first_path() {
    let context = Context::for_watch(Vec::new());
    assert_eq!(context.path(), None);
}

#[test]
fn direct_phase_context_replaces_the_list() {
    let mut context = Context::for_paths(vec![s("a")], vec![s("a")]);
    assert!(context.update_watched_files(vec![s("b"), s("c")]).is_ok());
    assert_eq!(context.into_paths(), vec![s("b"), s("c")]);
}

#[test]
fn default_builder_loads_the_unit_value() {
    let prepared = Builder::new().prepare::<()>();
    assert_eq!(*prepared.value.load(), ());
    assert_eq!(prepared.files, Vec::<String>::new());
}
