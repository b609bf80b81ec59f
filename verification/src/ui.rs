//! The contract a front end implements: it owns the interaction loop and
//! calls back into the orchestrator for searching and selecting.
use vstd::prelude::*;

verus! {

/// A front end around the orchestrator.
pub trait UI {
    /// Run the interaction loop until the session ends.
    fn run(&mut self);
}

} // verus!
