//! The mathematical model of a pushdown-automaton run.
//!
//! Everything here is ghost code: a mirror of the executable types over
//! `Seq<char>`, a step-by-step definition of the engine's single greedy pass
//! ([`run_from`]), and the acceptance predicate [`spec_accepts`] that the
//! executable engine is proved to implement exactly.

use vstd::prelude::*;

verus! {

/// The distinguished input symbol that marks an epsilon transition: a row
/// whose input symbol is this marker is eligible for any offered symbol and
/// does not consume input when applied.
pub const EPSILON: char = 'e';

/// Ghost image of a single transition: the input symbol it consumes (or the
/// epsilon marker), the stack symbol it requires on top, the destination
/// state, and the symbols it pushes after the top is popped (pushed in listed
/// order, so the last listed symbol ends up on top).
pub struct TransitionModel {
    pub input: char,
    pub top: char,
    pub next_state: Seq<char>,
    pub give: Seq<char>,
}

/// Ghost image of an automaton definition.  The two alphabets are
/// informational only: nothing in the run semantics reads them.  The order of
/// `transitions` is semantically significant — the first eligible,
/// prefix-consistent row wins at every step.
pub struct PdaModel {
    pub input_alphabet: Seq<Seq<char>>,
    pub stack_alphabet: Seq<Seq<char>>,
    pub start_stack_symbol: char,
    pub transitions: Seq<(Seq<char>, TransitionModel)>,
    pub start_state: char,
    pub end_states: Seq<Seq<char>>,
}

/// What a finished run leaves behind: the stack as the failing loop guard
/// left it, the state the engine stopped in, and the accumulator of symbols
/// committed as genuinely consumed.
pub struct Halted {
    pub stack: Seq<char>,
    pub state: Seq<char>,
    pub built: Seq<char>,
}

/// A table row is eligible for the current configuration when its source
/// state matches the current state, its required top symbol matches the
/// popped top, and its input symbol is the offered symbol or the epsilon
/// marker.
pub open spec fn eligible(row: (Seq<char>, TransitionModel), state: Seq<char>, top: char, c: char) -> bool {
    &&& row.0 == state
    &&& row.1.input == c || row.1.input == EPSILON
    &&& row.1.top == top
}

/// The scan's tentative prefix check: appending the offered symbol to the
/// accumulator must keep it a prefix of the whole input.  The check does not
/// depend on the candidate row, only on the accumulator and the offered
/// symbol, so within one scan every candidate sees the same verdict.
pub open spec fn extension_fits(built: Seq<char>, c: char, input: Seq<char>) -> bool {
    built.push(c).is_prefix_of(input)
}

/// A row passes the scan's per-candidate test: it is eligible and the
/// tentative append of the offered symbol leaves the accumulator a prefix of
/// the input.
pub open spec fn candidate_ok(
    row: (Seq<char>, TransitionModel),
    state: Seq<char>,
    top: char,
    c: char,
    built: Seq<char>,
    input: Seq<char>,
) -> bool {
    eligible(row, state, top, c) && extension_fits(built, c, input)
}

/// Index of the first eligible row at or after position `i`, or `None` when
/// no row from `i` on is eligible.
pub open spec fn first_eligible_from(
    ts: Seq<(Seq<char>, TransitionModel)>,
    i: int,
    state: Seq<char>,
    top: char,
    c: char,
) -> Option<int>
    decreases ts.len() - i,
{
    if i < 0 || i >= ts.len() {
        None
    } else if eligible(ts[i], state, top, c) {
        Some(i)
    } else {
        first_eligible_from(ts, i + 1, state, top, c)
    }
}

/// The row one scan of the table applies, if any.  Because the tentative
/// prefix check is the same for every candidate, the scan applies the first
/// eligible row when the extension fits and no row at all otherwise;
/// [`lemma_chosen_characterization`] restates this in terms of the
/// per-candidate test [`candidate_ok`].
pub open spec fn chosen(
    ts: Seq<(Seq<char>, TransitionModel)>,
    state: Seq<char>,
    top: char,
    c: char,
    built: Seq<char>,
    input: Seq<char>,
) -> Option<int> {
    if extension_fits(built, c, input) {
        first_eligible_from(ts, 0, state, top, c)
    } else {
        None
    }
}

/// Upper bound on how many more transitions any continuation of the run can
/// apply: every applied transition grows the accumulator by one symbol while
/// keeping it a prefix of the input.
pub open spec fn unconsumed(input: Seq<char>, built: Seq<char>) -> nat {
    if built.len() <= input.len() {
        (input.len() - built.len()) as nat
    } else {
        0
    }
}

/// One greedy pass of the engine from an arbitrary configuration.
///
/// Each iteration pops the stack top and the front of the remaining input —
/// including the final, failing evaluation of the guard, which still pops
/// once from each side — then applies the chosen row, if any: its give-list
/// is pushed in order, the state moves on, the offered symbol is committed to
/// the accumulator, and an epsilon row re-inserts the offered symbol at the
/// front so that it is offered again.  When no row is chosen the iteration
/// has still consumed one stack symbol and one input symbol for good.
///
/// The run always terminates: applied transitions are bounded by
/// [`unconsumed`] and every other iteration shortens the remaining input.
pub open spec fn run_from(
    ts: Seq<(Seq<char>, TransitionModel)>,
    input: Seq<char>,
    stack: Seq<char>,
    rem: Seq<char>,
    state: Seq<char>,
    built: Seq<char>,
) -> Halted
    decreases unconsumed(input, built), rem.len(),
{
    if stack.len() == 0 || rem.len() == 0 {
        Halted { stack: if stack.len() > 0 { stack.drop_last() } else { stack }, state, built }
    } else {
        let top = stack.last();
        let c = rem.first();
        let popped = stack.drop_last();
        let advanced = rem.drop_first();
        match chosen(ts, state, top, c, built, input) {
            None => run_from(ts, input, popped, advanced, state, built),
            Some(i) => {
                let t = ts[i].1;
                let rem2 = if t.input == EPSILON {
                    seq![c] + advanced
                } else {
                    advanced
                };
                run_from(ts, input, popped + t.give, rem2, t.next_state, built.push(c))
            },
        }
    }
}

/// Acceptance: start with exactly the start stack symbol on the stack, the
/// whole input remaining, the start state and an empty accumulator; run the
/// single greedy pass; accept iff the stack ended empty, the final state is
/// an accepting state, and every input symbol was genuinely consumed.
pub open spec fn spec_accepts(d: PdaModel, input: Seq<char>) -> bool {
    let h = run_from(
        d.transitions,
        input,
        seq![d.start_stack_symbol],
        input,
        seq![d.start_state],
        Seq::<char>::empty(),
    );
    h.stack.len() == 0 && d.end_states.contains(h.state) && h.built == input
}

/// Characterizes [`first_eligible_from`]: the index it returns is eligible
/// and nothing between `i` and it is, and a `None` means nothing from `i` on
/// is eligible.
pub proof fn lemma_first_eligible_from_spec(
    ts: Seq<(Seq<char>, TransitionModel)>,
    i: int,
    state: Seq<char>,
    top: char,
    c: char,
)
    requires
        0 <= i,
    ensures
        match first_eligible_from(ts, i, state, top, c) {
            Some(k) => i <= k < ts.len() && eligible(ts[k], state, top, c) && (forall|j: int|
                i <= j < k ==> !eligible(ts[j], state, top, c)),
            None => forall|j: int| i <= j < ts.len() ==> !eligible(ts[j], state, top, c),
        },
    decreases ts.len() - i,
{
    if i < ts.len() && !eligible(ts[i], state, top, c) {
        lemma_first_eligible_from_spec(ts, i + 1, state, top, c);
    }
}

/// The scan over the table with a tentative append-then-undo per candidate
/// behaves exactly as [`chosen`] says: the applied row is the first row that
/// passes the per-candidate test [`candidate_ok`], and when no row passes it,
/// no row is applied.  In particular a candidate whose tentative append fails
/// the prefix check leaves the accumulator untouched for every candidate
/// after it.
pub proof fn lemma_chosen_characterization(
    ts: Seq<(Seq<char>, TransitionModel)>,
    state: Seq<char>,
    top: char,
    c: char,
    built: Seq<char>,
    input: Seq<char>,
)
    ensures
        match chosen(ts, state, top, c, built, input) {
            Some(k) => 0 <= k < ts.len() && candidate_ok(ts[k], state, top, c, built, input)
                && (forall|j: int| 0 <= j < k ==> !candidate_ok(ts[j], state, top, c, built, input)),
            None => forall|j: int| 0 <= j < ts.len() ==> !candidate_ok(ts[j], state, top, c, built, input),
        },
{
    lemma_first_eligible_from_spec(ts, 0, state, top, c);
}

/// Transition precedence: when two rows are both applicable for the same
/// (state, top, offered symbol) configuration, the scan applies the earlier
/// row — the later one is never the one chosen.
pub proof fn lemma_transition_precedence(
    ts: Seq<(Seq<char>, TransitionModel)>,
    state: Seq<char>,
    top: char,
    c: char,
    built: Seq<char>,
    input: Seq<char>,
    i: int,
    j: int,
)
    requires
        0 <= i < j < ts.len(),
        candidate_ok(ts[i], state, top, c, built, input),
        candidate_ok(ts[j], state, top, c, built, input),
    ensures
        match chosen(ts, state, top, c, built, input) {
            Some(k) => k <= i,
            None => false,
        },
{
    lemma_chosen_characterization(ts, state, top, c, built, input);
}

/// Idempotence: the verdict is a function of the automaton definition and the
/// input alone.  Together with the fact that the engine borrows the
/// definition read-only, two calls with the same unmutated definition and the
/// same input return the same boolean.
pub proof fn lemma_accepts_idempotent(d1: PdaModel, d2: PdaModel, input1: Seq<char>, input2: Seq<char>)
    requires
        d1 == d2,
        input1 == input2,
    ensures
        spec_accepts(d1, input1) == spec_accepts(d2, input2),
{
}

/// Prefix consistency of the whole run: starting from an accumulator that is
/// a prefix of the input — as the engine does, with an empty one — the
/// accumulator the run leaves behind is still a prefix of the input, however
/// many tentative appends were undone along the way.
pub proof fn lemma_run_keeps_prefix(
    ts: Seq<(Seq<char>, TransitionModel)>,
    input: Seq<char>,
    stack: Seq<char>,
    rem: Seq<char>,
    state: Seq<char>,
    built: Seq<char>,
)
    requires
        built.is_prefix_of(input),
    ensures
        run_from(ts, input, stack, rem, state, built).built.is_prefix_of(input),
    decreases unconsumed(input, built), rem.len(),
{
    if stack.len() == 0 || rem.len() == 0 {
    } else {
        let top = stack.last();
        let c = rem.first();
        let popped = stack.drop_last();
        let advanced = rem.drop_first();
        match chosen(ts, state, top, c, built, input) {
            None => {
                lemma_run_keeps_prefix(ts, input, popped, advanced, state, built);
            },
            Some(i) => {
                let t = ts[i].1;
                let rem2 = if t.input == EPSILON {
                    seq![c] + advanced
                } else {
                    advanced
                };
                lemma_run_keeps_prefix(ts, input, popped + t.give, rem2, t.next_state, built.push(c));
            },
        }
    }
}

} // verus!
