//! Containers with nested scopes.

use vstd::prelude::*;

verus! {

/// A container whose content is held in nested contexts. What is added goes
/// to the innermost context, and releasing that context drops it. The first
/// context is never released.
pub trait ContextualData {
    /// The invariant of the container.
    spec fn contextual_wf(&self) -> bool;

    /// The number of contexts.
    spec fn context_depth(&self) -> nat;

    /// Opens a new, empty context inside the current one.
    fn mark_context(&mut self)
        requires
            old(self).contextual_wf(),
        ensures
            final(self).contextual_wf(),
            final(self).context_depth() == old(self).context_depth() + 1,
    ;

    /// Closes the innermost context and drops what it holds.
    fn release_context(&mut self)
        requires
            old(self).contextual_wf(),
            old(self).context_depth() > 1,
        ensures
            final(self).contextual_wf(),
            final(self).context_depth() == old(self).context_depth() - 1,
    ;
}

} // verus!
