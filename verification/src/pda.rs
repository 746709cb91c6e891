//! The executable automaton definition and the simulation engine.
//!
//! [`PushdownAutomata`] is a pure data holder: no validation is performed on
//! the alphabets or the transition table.  [`PushdownAutomata::test`] runs
//! the single greedy pass described by [`crate::semantics::run_from`] and is
//! proved to return exactly [`crate::semantics::spec_accepts`].

use vstd::prelude::*;
use vstd::string::StrSliceExecFns;

use crate::semantics::{
    chosen, eligible, extension_fits, first_eligible_from, run_from, spec_accepts, PdaModel,
    TransitionModel, EPSILON,
};
use crate::semantics::lemma_first_eligible_from_spec;

verus! {

/// A single transition: the input symbol it consumes (or [`EPSILON`]), the
/// stack symbol it requires on top, the destination state, and the give-list
/// of symbols to push after the popped top (pushed in listed order, so the
/// last listed symbol ends up on top).  Immutable once constructed.
pub struct Transition {
    pub input: char,
    pub top: char,
    pub next_state: String,
    pub give: Vec<char>,
}

impl View for Transition {
    type V = TransitionModel;

    open spec fn view(&self) -> TransitionModel {
        TransitionModel {
            input: self.input,
            top: self.top,
            next_state: self.next_state@,
            give: self.give@,
        }
    }
}

impl From<(char, char, String, Vec<char>)> for Transition {
    fn from(parts: (char, char, String, Vec<char>)) -> Transition {
        let (input, top, next_state, give) = parts;
        Transition { input, top, next_state, give }
    }
}

impl vstd::std_specs::convert::FromSpecImpl<(char, char, String, Vec<char>)> for Transition {
    open spec fn obeys_from_spec() -> bool {
        true
    }

    open spec fn from_spec(parts: (char, char, String, Vec<char>)) -> Transition {
        Transition { input: parts.0, top: parts.1, next_state: parts.2, give: parts.3 }
    }
}

/// An immutable automaton definition.  The two alphabets are informational
/// only: the engine never reads them, and symbols outside them simply fail to
/// match any transition.  The order of `transitions` is fixed at construction
/// and semantically significant — the first eligible, prefix-consistent row
/// wins at every step.
pub struct PushdownAutomata {
    pub input_alphabet: Vec<String>,
    pub stack_alphabet: Vec<String>,
    pub start_stack_symbol: char,
    pub transitions: Vec<(String, Transition)>,
    pub start_state: char,
    pub end_states: Vec<String>,
}

impl View for PushdownAutomata {
    type V = PdaModel;

    open spec fn view(&self) -> PdaModel {
        PdaModel {
            input_alphabet: self.input_alphabet@.map_values(|s: String| s@),
            stack_alphabet: self.stack_alphabet@.map_values(|s: String| s@),
            start_stack_symbol: self.start_stack_symbol,
            transitions: self.transitions@.map_values(
                |row: (String, Transition)| (row.0@, row.1@),
            ),
            start_state: self.start_state,
            end_states: self.end_states@.map_values(|s: String| s@),
        }
    }
}

/// Relies on `char`'s `Display` implementation (reached through
/// `ToString::to_string`): formatting a `char` yields the string holding
/// exactly that one character.
#[verifier::external_body]
fn char_to_string(c: char) -> (s: String)
    ensures
        s@ == seq![c],
{
    c.to_string()
}

/// Compares the accumulator against the input's prefix of the same length,
/// symbol by symbol — the engine's prefix-consistency check.
fn is_input_prefix(built: &Vec<char>, input: &str) -> (fits: bool)
    ensures
        fits == built@.is_prefix_of(input@),
{
    let n = input.unicode_len();
    if built.len() > n {
        return false;
    }
    let mut i: usize = 0;
    while i < built.len()
        invariant
            i <= built@.len() <= n,
            n == input@.len(),
            forall|j: int| 0 <= j < i ==> built@[j] == input@[j],
        decreases built@.len() - i,
    {
        if built[i] != input.get_char(i) {
            return false;
        }
        i = i + 1;
    }
    proof {
        assert(built@ =~= input@.subrange(0, built@.len() as int));
    }
    true
}

/// Whether `names` holds a string whose characters equal `wanted`'s.
fn contains_string(names: &Vec<String>, wanted: &String) -> (found: bool)
    ensures
        found == names@.map_values(|s: String| s@).contains(wanted@),
{
    let ghost viewed = names@.map_values(|s: String| s@);
    let mut i: usize = 0;
    while i < names.len()
        invariant
            i <= names@.len(),
            viewed == names@.map_values(|s: String| s@),
            forall|j: int| 0 <= j < i ==> viewed[j] != wanted@,
        decreases names@.len() - i,
    {
        if names[i] == *wanted {
            proof {
                assert(viewed[i as int] == wanted@);
            }
            return true;
        }
        i = i + 1;
    }
    proof {
        assert(forall|j: int| 0 <= j < viewed.len() ==> viewed[j] != wanted@);
    }
    false
}

impl PushdownAutomata {
    /// One scan of the transition table for a single (popped top, offered
    /// symbol) pair, exactly as the engine performs it: each row is examined
    /// in table order; for an eligible row the offered symbol is tentatively
    /// appended to the accumulator, and when the extended accumulator is not
    /// a prefix of the input the append is undone and the scan continues with
    /// the next row, so a failed tentative append never corrupts the
    /// accumulator for a row that follows it.
    ///
    /// Returns `None` when no row is applied — the accumulator, stack and
    /// state are then exactly as they were — and `Some(eps)` when the row
    /// [`chosen`] names is applied, where `eps` says whether that row is an
    /// epsilon row: its give-list has been pushed in order, the state has
    /// moved to its destination, and the offered symbol has been committed to
    /// the accumulator.
    pub fn scan_step(
        &self,
        top: char,
        c: char,
        input: &str,
        stack: &mut Vec<char>,
        state: &mut String,
        built: &mut Vec<char>,
    ) -> (applied: Option<bool>)
        ensures
            chosen(self@.transitions, old(state)@, top, c, old(built)@, input@) is None ==> ({
                &&& applied is None
                &&& final(stack)@ == old(stack)@
                &&& final(state)@ == old(state)@
                &&& final(built)@ == old(built)@
            }),
            chosen(self@.transitions, old(state)@, top, c, old(built)@, input@) matches Some(k)
                ==> ({
                let t = self@.transitions[k].1;
                &&& applied == Some(t.input == EPSILON)
                &&& final(stack)@ == old(stack)@ + t.give
                &&& final(state)@ == t.next_state
                &&& final(built)@ == old(built)@.push(c)
            }),
    {
        let ghost ts = self@.transitions;
        let ghost stack0 = stack@;
        let ghost state0 = state@;
        let ghost built0 = built@;
        let ghost fits0 = extension_fits(built0, c, input@);
        let mut j: usize = 0;
        loop
            invariant_except_break
                j <= self.transitions@.len(),
                ts == self@.transitions,
                stack0 == old(stack)@,
                state0 == old(state)@,
                built0 == old(built)@,
                stack@ == stack0,
                state@ == state0,
                built@ == built0,
                fits0 == extension_fits(built0, c, input@),
                fits0 ==> first_eligible_from(ts, 0, state0, top, c) == first_eligible_from(
                    ts,
                    j as int,
                    state0,
                    top,
                    c,
                ),
            ensures
                chosen(ts, state0, top, c, built0, input@) is None,
                stack@ == stack0,
                state@ == state0,
                built@ == built0,
            decreases self.transitions@.len() - j,
        {
            if j >= self.transitions.len() {
                proof {
                    if fits0 {
                        assert(first_eligible_from(ts, j as int, state0, top, c) is None);
                    }
                }
                break;
            }
            let row = &self.transitions[j];
            let matches_state = *state == row.0;
            let matches_input = c == row.1.input;
            let epsilon = row.1.input == EPSILON;
            let matches_top = top == row.1.top;
            proof {
                assert(ts[j as int] == (row.0@, row.1@));
            }
            if matches_state && (matches_input || epsilon) && matches_top {
                built.push(c);
                let fits = is_input_prefix(built, input);
                proof {
                    assert(built@ == built0.push(c));
                    assert(fits == fits0);
                }
                if fits {
                    let mut k: usize = 0;
                    let give_len = row.1.give.len();
                    while k < give_len
                        invariant
                            k <= give_len,
                            give_len == row.1.give@.len(),
                            stack@ == stack0 + row.1.give@.take(k as int),
                        decreases give_len - k,
                    {
                        stack.push(row.1.give[k]);
                        proof {
                            assert(stack@ =~= stack0 + row.1.give@.take(k + 1));
                        }
                        k = k + 1;
                    }
                    *state = row.1.next_state.clone();
                    proof {
                        assert(stack@ =~= stack0 + row.1.give@);
                        assert(eligible(ts[j as int], state0, top, c));
                        lemma_first_eligible_from_spec(ts, j as int, state0, top, c);
                        assert(chosen(ts, state0, top, c, built0, input@) == Some(j as int));
                    }
                    return Some(epsilon);
                } else {
                    let _undone = built.pop();
                    proof {
                        assert(built@ =~= built0);
                    }
                }
            }
            proof {
                if fits0 {
                    // an eligible row whose extension fits would have been
                    // applied above, so this row is not eligible and the scan
                    // position can advance
                    assert(!eligible(ts[j as int], state0, top, c));
                    assert(first_eligible_from(ts, j as int, state0, top, c)
                        == first_eligible_from(ts, j + 1, state0, top, c));
                }
            }
            j = j + 1;
        }
        None
    }

    /// Runs the automaton over `input` in a single greedy pass and returns
    /// whether the automaton accepts it: [`spec_accepts`] on the models of
    /// the definition and the input.
    ///
    /// The loop mirrors the run described by [`run_from`]: every evaluation
    /// of the guard pops the stack top and takes the front of the remaining
    /// input — the final, failing evaluation still pops once from each side —
    /// and each iteration applies the first eligible, prefix-consistent row,
    /// re-offering the taken symbol after an epsilon row.  The definition is
    /// borrowed read-only, so the call never mutates it; the run state lives
    /// and dies inside this call.  The loop's `decreases` clause shows that
    /// every run terminates: the prefix check bounds how many transitions can
    /// ever be applied, and every other iteration consumes input for good.
    pub fn test(&self, input: &str) -> (accepted: bool)
        ensures
            accepted == spec_accepts(self@, input@),
    {
        let ghost ts = self@.transitions;
        let n = input.unicode_len();
        let mut stack: Vec<char> = Vec::new();
        stack.push(self.start_stack_symbol);
        let mut state: String = char_to_string(self.start_state);
        let mut built: Vec<char> = Vec::new();
        let mut pos: usize = 0;
        let ghost target = run_from(
            ts,
            input@,
            seq![self@.start_stack_symbol],
            input@,
            seq![self@.start_state],
            Seq::<char>::empty(),
        );
        proof {
            assert(stack@ =~= seq![self@.start_stack_symbol]);
            assert(input@.skip(0) =~= input@);
            assert(built@ =~= Seq::<char>::empty());
        }
        loop
            invariant_except_break
                n == input@.len(),
                pos <= n,
                ts == self@.transitions,
                target == run_from(
                    ts,
                    input@,
                    seq![self@.start_stack_symbol],
                    input@,
                    seq![self@.start_state],
                    Seq::<char>::empty(),
                ),
                built@.is_prefix_of(input@),
                run_from(ts, input@, stack@, input@.skip(pos as int), state@, built@) == target,
            ensures
                n == input@.len(),
                target == run_from(
                    ts,
                    input@,
                    seq![self@.start_stack_symbol],
                    input@,
                    seq![self@.start_state],
                    Seq::<char>::empty(),
                ),
                built@.is_prefix_of(input@),
                target.stack == stack@,
                target.state == state@,
                target.built == built@,
            decreases n - built@.len(), n - pos,
        {
            let ghost stack_h = stack@;
            let ghost state_h = state@;
            let ghost built_h = built@;
            let ghost pos_h = pos;
            let top_opt = stack.pop();
            match top_opt {
                None => {
                    // the guard's pop found the stack already empty
                    break;
                },
                Some(top) => {
                    if pos >= n {
                        // no input left: the guard's pop still cost one stack
                        // symbol
                        proof {
                            assert(input@.skip(pos as int) =~= Seq::<char>::empty());
                            assert(stack@ =~= stack_h.drop_last());
                        }
                        break;
                    }
                    let c = input.get_char(pos);
                    pos = pos + 1;
                    let applied = self.scan_step(top, c, input, &mut stack, &mut state, &mut built);
                    if let Some(eps) = applied {
                        if eps {
                            // an epsilon row must not consume input: re-offer
                            // the taken symbol next iteration
                            pos = pos - 1;
                        }
                    }
                    proof {
                        let rem_h = input@.skip(pos_h as int);
                        assert(rem_h.len() == n - pos_h);
                        assert(stack_h.last() == top);
                        assert(rem_h.first() == input@[pos_h as int]);
                        let popped = stack_h.drop_last();
                        let advanced = rem_h.drop_first();
                        assert(advanced =~= input@.skip(pos_h + 1));
                        match chosen(ts, state_h, top, c, built_h, input@) {
                            None => {
                                assert(stack@ =~= popped);
                            },
                            Some(k) => {
                                let t = ts[k].1;
                                if t.input == EPSILON {
                                    assert(seq![c] + advanced =~= rem_h);
                                }
                            },
                        }
                    }
                },
            }
        }
        let in_end = contains_string(&self.end_states, &state);
        let accepted = stack.len() == 0 && in_end && built.len() == n;
        proof {
            if built@.len() == input@.len() {
                assert(built@ =~= input@);
            }
        }
        accepted
    }
}

} // verus!
