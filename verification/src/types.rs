use vstd::prelude::*;

use crate::context::Context;
use crate::error::Error;
use crate::value_cell::Guard;

verus! {

/// Loads the watched value.  Implemented by users of the library; the
/// watch calls it once for the initial synchronous load and then once per
/// delivered change batch.
pub trait Loader<T> {
    /// Produce the value.  The context tells which paths changed and
    /// accepts a replacement watched-path set; an `Err` carries a
    /// description and leaves the previously published value in force.
    fn load(&mut self, context: &mut Context) -> (r: Result<T, String>)
        ensures
            final(context).is_direct() == old(context).is_direct(),
            final(context).spec_modified() == old(context).spec_modified(),
    ;
}

/// Receives the errors a watch funnels to its owner: subscription
/// failures and load failures alike.
pub trait ErrorHandler {
    fn on_error(&mut self, context: &mut Context, error: Error)
        ensures
            final(context).is_direct() == old(context).is_direct(),
            final(context).spec_modified() == old(context).spec_modified(),
    ;
}

/// Called after each successful load, with a snapshot of the value just
/// published.
pub trait UpdatedHandler<T> {
    fn after_update(&mut self, context: &mut Context, value: Guard<T>)
        ensures
            final(context).is_direct() == old(context).is_direct(),
            final(context).spec_modified() == old(context).spec_modified(),
    ;
}

/// The loader a builder starts with: it produces the unit value, so a
/// watch can be assembled before a real loader is chosen.
pub struct DefaultLoader;

impl Loader<()> for DefaultLoader {
    fn load(&mut self, _context: &mut Context) -> (r: Result<(), String>)
        ensures
            r == Ok::<(), String>(()),
            *final(_context) == *old(_context),
    {
        Ok(())
    }
}

/// The error handler a builder starts with: it swallows the error.
pub struct DefaultErrorHandler;

impl ErrorHandler for DefaultErrorHandler {
    fn on_error(&mut self, _context: &mut Context, _error: Error)
        ensures
            *final(_context) == *old(_context),
    {
    }
}

/// The update handler a builder starts with: it does nothing.
pub struct DefaultUpdatedHandler;

impl<T> UpdatedHandler<T> for DefaultUpdatedHandler {
    fn after_update(&mut self, _context: &mut Context, _value: Guard<T>)
        ensures
            *final(_context) == *old(_context),
    {
    }
}

} // verus!
