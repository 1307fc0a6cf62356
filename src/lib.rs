// A stack of application states that is never empty, and the transitions that
// change it: each pops some states off the top and pushes others, all or nothing.

pub mod machine;
pub mod transition;

pub use machine::StateMachine;
pub use transition::{Transition, TransitionError, TransitionOutcome};
