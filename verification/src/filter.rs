//! User-supplied eligibility predicates.

use vstd::prelude::*;

use crate::severity::Metadata;

verus! {

/// An eligibility test over event metadata.  Implementations are supplied by
/// the user of the sink; nothing is assumed of the verdict, and `evaluate`
/// may keep state of its own (a counter, say), which is how the decision
/// cache's promise not to re-invoke a memoized predicate becomes observable.
pub trait FilterPredicate {
    /// Whether an event with this metadata is eligible by this predicate.
    fn evaluate(&mut self, metadata: &Metadata) -> bool;
}

/// The registered predicates, each alongside the dependency key its cache
/// entries are partitioned by: `callbacks[i]` belongs to `dependencies[i]`.
pub struct LoggerFilter<P> {
    pub callbacks: Vec<P>,
    pub dependencies: Vec<String>,
}

impl<P> LoggerFilter<P> {
    /// One dependency key per predicate, in registration order.
    pub open spec fn wf(self) -> bool {
        self.callbacks@.len() == self.dependencies@.len()
    }

    /// No predicates registered yet.
    pub fn new() -> (r: LoggerFilter<P>)
        ensures
            r.wf(),
            r.callbacks@.len() == 0,
    {
        LoggerFilter { callbacks: Vec::new(), dependencies: Vec::new() }
    }

    /// Appends a predicate to the callback list.
    pub fn push_callback(&mut self, predicate: P)
        ensures
            final(self).callbacks@ == old(self).callbacks@.push(predicate),
            final(self).dependencies == old(self).dependencies,
    {
        self.callbacks.push(predicate);
    }

    /// Appends a dependency key to the dependency list.
    pub fn add_dependency(&mut self, dependency: &str)
        ensures
            final(self).dependencies@.len() == old(self).dependencies@.len() + 1,
            final(self).dependencies@.last()@ == dependency@,
            forall|i: int|
                0 <= i < old(self).dependencies@.len() ==> final(self).dependencies@[i]
                    == old(self).dependencies@[i],
            final(self).callbacks == old(self).callbacks,
    {
        self.dependencies.push(dependency.to_owned());
    }
}

} // verus!
