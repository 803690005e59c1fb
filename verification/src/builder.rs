//! Building a sink, option by option.

use vstd::prelude::*;

use crate::cache::FilterCache;
use crate::filter::FilterPredicate;
use crate::filter::LoggerFilter;
use crate::severity::Severity;

verus! {

/// Collects the sink's options — colors, timestamps, the threshold, the
/// predicates with their dependency keys — and builds the sink.
pub struct Builder<P> {
    pub colorized: bool,
    pub timestamp: bool,
    pub level: Option<Severity>,
    pub filter: LoggerFilter<P>,
}

impl<P> Builder<P> {
    /// The predicate list is in shape.
    pub open spec fn wf(self) -> bool {
        self.filter.wf()
    }

    /// No options set: no colors, no timestamps, no threshold, no filters.
    pub fn new() -> (r: Builder<P>)
        ensures
            r.wf(),
            r.colorized == false,
            r.timestamp == false,
            r.level is None,
            r.filter.callbacks@.len() == 0,
    {
        Builder { colorized: false, timestamp: false, level: None, filter: LoggerFilter::new() }
    }

    /// Registers a predicate under its dependency key.
    pub fn filter(self, predicate: P, dependency: &str) -> (r: Builder<P>)
        requires
            self.wf(),
        ensures
            r.wf(),
            r.colorized == self.colorized,
            r.timestamp == self.timestamp,
            r.level == self.level,
            r.filter.callbacks@ == self.filter.callbacks@.push(predicate),
            r.filter.dependencies@.len() == self.filter.dependencies@.len() + 1,
            r.filter.dependencies@.last()@ == dependency@,
            forall|i: int|
                0 <= i < self.filter.dependencies@.len() ==> r.filter.dependencies@[i]
                    == self.filter.dependencies@[i],
    {
        let mut f = self.filter;
        f.push_callback(predicate);
        f.add_dependency(dependency);
        Builder { colorized: self.colorized, timestamp: self.timestamp, level: self.level, filter: f }
    }

    /// Switches colorized output on or off.
    pub fn with_color(self, colorized: bool) -> (r: Builder<P>)
        ensures
            r == (Builder { colorized, ..self }),
    {
        Builder { colorized, ..self }
    }

    /// Switches the timestamp cell on or off.
    pub fn with_timestamp(self, timestamp: bool) -> (r: Builder<P>)
        ensures
            r == (Builder { timestamp, ..self }),
    {
        Builder { timestamp, ..self }
    }

    /// Sets the severity threshold the sink reports.
    pub fn with_level(self, level: Severity) -> (r: Builder<P>)
        ensures
            r == (Builder { level: Some(level), ..self }),
    {
        Builder { level: Some(level), ..self }
    }

    /// The configured sink, with an empty decision cache.
    pub fn build(self) -> (r: crate::stdout::Logger<P>)
        requires
            self.wf(),
        ensures
            r.wf(),
            r.colorized == self.colorized,
            r.timestamp == self.timestamp,
            r.level == self.level,
            r.filter == self.filter,
            r.cache@ == Map::<Seq<char>, bool>::empty(),
    {
        crate::stdout::Logger {
            colorized: self.colorized,
            timestamp: self.timestamp,
            level: self.level,
            filter: self.filter,
            cache: FilterCache::new(),
        }
    }
}

impl<P> Default for Builder<P> {
    /// The same empty builder [`Builder::new`] gives.
    fn default() -> (r: Builder<P>)
        ensures
            r.wf(),
            r.colorized == false,
            r.timestamp == false,
            r.level is None,
            r.filter.callbacks@.len() == 0,
    {
        Builder::new()
    }
}

/// The entry point for presets: its constructors hand out builders with a
/// house style already applied.
pub struct Logger;

impl Logger {
    /// A standard-stream sink builder with colors and timestamps on.
    pub fn stdout<P: FilterPredicate>() -> (r: Builder<P>)
        ensures
            r.wf(),
            r.colorized == true,
            r.timestamp == true,
            r.level is None,
            r.filter.callbacks@.len() == 0,
    {
        Builder::new().with_color(true).with_timestamp(true)
    }
}

} // verus!
