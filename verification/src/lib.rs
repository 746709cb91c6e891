//! A simulator for single-tape pushdown automata.
//!
//! An automaton is described by an immutable [`pda::PushdownAutomata`] value:
//! an ordered transition table, a start state, a start stack symbol and a set
//! of accepting states.  [`pda::PushdownAutomata::test`] runs the engine over
//! an input string in a single greedy pass — the first eligible,
//! prefix-consistent transition wins at every step, and no earlier commitment
//! is ever reconsidered — and returns the accept/reject verdict.
//!
//! The meaning of a run is pinned down by the mathematical model in
//! [`semantics`]; the engine is verified to return exactly
//! [`semantics::spec_accepts`] on every input.

pub mod pda;
pub mod semantics;
