//! Initializing the logging facade from a builder in one step.

use vstd::prelude::*;

use crate::builder::Builder;
use crate::facade::InstallError;
use crate::facade::LoggerFacade;
use crate::facade::LoggerTarget;
use crate::severity::Severity;

verus! {

/// Builds sinks from builders and installs them behind a facade.
pub struct LoggerInitiator;

impl LoggerInitiator {
    /// Builds the standard-stream sink the builder describes and installs
    /// it, exactly once: with a target already present nothing changes and
    /// the conflict is reported.  A threshold of `Off` (or none configured)
    /// installs the no-op target.
    pub fn stdout<P>(builder: Builder<P>, facade: &mut LoggerFacade<P>) -> (r: Result<
        (),
        InstallError,
    >)
        requires
            builder.wf(),
            old(facade).wf(),
        ensures
            final(facade).wf(),
            r is Err <==> old(facade).target is Some,
            r is Err ==> r == Result::<(), InstallError>::Err(InstallError::AlreadyInstalled)
                && *final(facade) == *old(facade),
            r is Ok ==> final(facade).max_level == (match builder.level {
                Option::Some(l) => l,
                Option::None => Severity::Off,
            }),
            r is Ok && final(facade).max_level == Severity::Off ==> final(facade).target == Some(
                LoggerTarget::<P>::Nop,
            ),
            r is Ok && final(facade).max_level != Severity::Off ==> (final(facade).target matches
                Some(LoggerTarget::Sink(l)) && l.colorized == builder.colorized && l.timestamp
                == builder.timestamp && l.level == builder.level && l.filter == builder.filter
                && l.cache@ == Map::<Seq<char>, bool>::empty()),
    {
        builder.build().apply(facade)
    }
}

} // verus!
