//! The process-wide logging target, modeled as an explicit value.
//!
//! A process has at most one active logging target.  Instead of hidden
//! global state, the facade is a caller-owned value: installing a sink into
//! it fails when a target is already present, never silently replacing it,
//! and a threshold of `Off` installs a no-op target so that nothing is paid
//! per event.

use vstd::prelude::*;

use crate::filter::FilterPredicate;
use crate::severity::Event;
use crate::severity::Severity;
use crate::stdout::blank;
use crate::stdout::eligible_in;
use crate::stdout::line_spec;
use crate::stdout::Echo;
use crate::stdout::EchoStream;
use crate::stdout::Logger;
use crate::clock::timestamp_spec;
use crate::clock::Timestamp;

verus! {

/// Why installing a sink failed.
#[derive(Clone, Copy, Debug, PartialEq, Eq, Structural)]
pub enum InstallError {
    AlreadyInstalled,
}

/// What stands behind the facade: a real sink, or the no-op target that a
/// threshold of `Off` installs.
pub enum LoggerTarget<P> {
    Sink(Logger<P>),
    Nop,
}

impl<P> LoggerTarget<P> {
    /// The installed sink, if any, is in shape.
    pub open spec fn wf(self) -> bool {
        match self {
            LoggerTarget::Sink(l) => l.wf(),
            LoggerTarget::Nop => true,
        }
    }
}

/// The facade: at most one installed target, and the maximum severity it
/// reports to callers.
pub struct LoggerFacade<P> {
    pub target: Option<LoggerTarget<P>>,
    pub max_level: Severity,
}

impl<P> LoggerFacade<P> {
    /// The installed target, if any, is in shape.
    pub open spec fn wf(self) -> bool {
        match self.target {
            Option::Some(t) => t.wf(),
            Option::None => true,
        }
    }

    /// No target installed; nothing is let through.
    pub fn new() -> (r: LoggerFacade<P>)
        ensures
            r.wf(),
            r.target is None,
            r.max_level == Severity::Off,
    {
        LoggerFacade { target: None, max_level: Severity::Off }
    }
}

impl<P> Logger<P> {
    /// Installs the sink as the facade's target, exactly once: a second
    /// installation is refused and changes nothing.  The facade reports the
    /// sink's threshold; a threshold of `Off` installs the no-op target
    /// instead of the sink.
    pub fn apply(self, facade: &mut LoggerFacade<P>) -> (r: Result<(), InstallError>)
        requires
            self.wf(),
            old(facade).wf(),
        ensures
            final(facade).wf(),
            r is Err <==> old(facade).target is Some,
            r is Err ==> r == Result::<(), InstallError>::Err(InstallError::AlreadyInstalled)
                && *final(facade) == *old(facade),
            r is Ok ==> final(facade).max_level == self.max_level(),
            r is Ok && self.max_level() == Severity::Off ==> final(facade).target == Some(
                LoggerTarget::<P>::Nop,
            ),
            r is Ok && self.max_level() != Severity::Off ==> final(facade).target == Some(
                LoggerTarget::Sink(self),
            ),
    {
        if facade.target.is_some() {
            return Err(InstallError::AlreadyInstalled);
        }
        let level = match self.level {
            Option::Some(l) => l,
            Option::None => Severity::Off,
        };
        facade.max_level = level;
        if level == Severity::Off {
            facade.target = Some(LoggerTarget::Nop);
        } else {
            facade.target = Some(LoggerTarget::Sink(self));
        }
        Ok(())
    }
}

impl<P: FilterPredicate> LoggerFacade<P> {
    /// Hands one event to the installed target, filtering by the reported
    /// threshold first, as the facade in front of a sink does.  Nothing
    /// comes of an event above the threshold, of an empty facade, or of the
    /// no-op target; otherwise the sink decides and renders, and the line
    /// and its stream come back.
    pub fn log(&mut self, event: &Event) -> (r: Option<Echo>)
        requires
            old(self).wf(),
            event.metadata.source@.len() + event.message@.len() + 200 <= usize::MAX,
        ensures
            final(self).wf(),
            final(self).max_level == old(self).max_level,
            !(old(self).target matches Some(LoggerTarget::Sink(_))) ==> r is None && *final(self)
                == *old(self),
            event.metadata.severity.rank_spec() > old(self).max_level.rank_spec() ==> r is None
                && *final(self) == *old(self),
            old(self).target matches Some(LoggerTarget::Sink(l)) ==> (
            event.metadata.severity.rank_spec() <= old(self).max_level.rank_spec() ==> (
            final(self).target matches Some(LoggerTarget::Sink(l2)) && {
                &&& l2.colorized == l.colorized
                &&& l2.timestamp == l.timestamp
                &&& l2.level == l.level
                &&& l2.filter.dependencies == l.filter.dependencies
                &&& forall|k: Seq<char>|
                    #[trigger] l.cache@.contains_key(k) ==> l2.cache@.contains_key(k)
                        && l2.cache@[k] == l.cache@[k]
                &&& (r is Some <==> (event.metadata.severity != Severity::Off && eligible_in(
                    l2.cache@,
                    l.filter.dependencies@,
                    l.filter.callbacks@.len() as nat,
                    event.metadata.source@,
                ) && !blank(event.message@)))
                &&& (r matches Some(echo) ==> echo.stream == (
                if event.metadata.severity == Severity::Error {
                    EchoStream::StdErr
                } else {
                    EchoStream::StdOut
                }))
                &&& (r is Some && !l.colorized && !l.timestamp ==> r->0.text@ == line_spec(
                    event.metadata.severity,
                    None,
                    event.metadata.source@,
                    event.message@,
                ))
                &&& (r is Some && !l.colorized && l.timestamp ==> (exists|t: Timestamp|
                    t.wf() && r->0.text@ == line_spec(
                        event.metadata.severity,
                        Some(timestamp_spec(t)),
                        event.metadata.source@,
                        event.message@,
                    )))
            })),
    {
        if event.metadata.severity.rank() > self.max_level.rank() {
            return None;
        }
        match &mut self.target {
            Option::None => None,
            Option::Some(LoggerTarget::Nop) => None,
            Option::Some(LoggerTarget::Sink(l)) => l.log(event),
        }
    }
}

} // verus!
