//! No-op logging handles for platforms whose system logger is unavailable.
//!
//! Every method intentionally does nothing: the handles exist so that
//! platform setup code can be written uniformly.

use vstd::prelude::*;

verus! {

/// A logger handle that discards everything sent to it.
#[derive(Clone, Copy, PartialEq, Eq, Structural, Debug)]
pub struct OsLogger;

impl OsLogger {
    pub fn new() -> (r: OsLogger)
        ensures
            r == OsLogger,
    {
        OsLogger
    }

    /// Returns the logger unchanged; the subsystem label is discarded.
    pub fn with_subsystem(self, _subsystem: &str) -> (r: OsLogger)
        ensures
            r == self,
    {
        self
    }

    /// Returns the logger unchanged; the category label is discarded.
    pub fn with_category(self, _category: &str) -> (r: OsLogger)
        ensures
            r == self,
    {
        self
    }
}

impl Default for OsLogger {
    fn default() -> (r: Self)
        ensures
            r == OsLogger,
    {
        OsLogger::new()
    }
}

/// A subscriber layer that ignores every event handed to it.
#[derive(Clone, Copy, PartialEq, Eq, Structural, Debug)]
pub struct OsLayer;

impl OsLayer {
    pub fn new() -> (r: OsLayer)
        ensures
            r == OsLayer,
    {
        OsLayer
    }
}

impl Default for OsLayer {
    fn default() -> (r: Self)
        ensures
            r == OsLayer,
    {
        OsLayer::new()
    }
}

/// Initializes the system logger; this build has none, so nothing happens.
pub fn init() {
}

/// Creates a default layer for the system logger.
pub fn layer() -> (r: OsLayer)
    ensures
        r == OsLayer,
{
    OsLayer::new()
}

} // verus!
