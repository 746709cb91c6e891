use pushdown::pda::{PushdownAutomata, Transition};

// The canonical equal-count automaton: push a marker per `0`, pop one per
// `1`, with epsilon rows to switch phases.
fn sample() -> PushdownAutomata {
    PushdownAutomata {
        input_alphabet: vec![String::from("0"), String::from("1"), String::from("e")],
        stack_alphabet: vec![String::from("A"), String::from("Z")],
        start_stack_symbol: 'Z',
        transitions: vec![
            (
                String::from("p"),
                Transition::from(('0', 'Z', String::from("p"), vec!['A', 'Z'])),
            ),
            (
                String::from("p"),
                Transition::from(('0', 'A', String::from("p"), vec!['A', 'A'])),
            ),
            (
                String::from("p"),
                Transition::from(('e', 'Z', String::from("q"), vec!['Z'])),
            ),
            (
                String::from("p"),
                Transition::from(('e', 'A', String::from("q"), vec!['A'])),
            ),
            (
                String::from("q"),
                Transition::from(('1', 'A', String::from("q"), vec![])),
            ),
            (
                String::from("q"),
                Transition::from(('e', 'Z', String::from("r"), vec!['Z'])),
            ),
        ],
        start_state: 'p',
        end_states: vec![String::from("r")],
    }
}

#[test]
fn test_accepts_same_number_of_zeros_and_ones() {
    let pda = sample();
    assert_eq!(true, pda.test("0011"));
}

#[test]
fn test_rejects_diff_number_of_zeros_and_ones() {
    let pda = sample();
    assert_eq!(false, pda.test("00111"));
}

#[test]
fn test_rejects_empty_input_when_bottom_marker_must_be_popped() {
    // On empty input the loop body never runs; the start state `p` is not
    // accepting, so the verdict is reject.
    let pda = sample();
    assert_eq!(false, pda.test(""));
}

#[test]
fn test_rejects_one_before_any_zero() {
    let pda = sample();
    assert_eq!(false, pda.test("10"));
}

#[test]
fn test_zero_one_rejected_by_greedy_commitment() {
    // After reading the single `0` the engine greedily takes the epsilon row
    // to `q` (the give-list `['A', 'Z']` leaves `Z` on top), and from `q`
    // with `Z` on top the only eligible row would push the accumulator past
    // the end of the input, so the run dead-ends in `q`: the greedy engine
    // never reconsiders the committed choice.
    let pda = sample();
    assert_eq!(false, pda.test("01"));
}

#[test]
fn test_same_input_twice_yields_same_verdict() {
    let pda = sample();
    let first = pda.test("0011");
    let second = pda.test("0011");
    assert_eq!(first, second);
    assert_eq!(true, first);
    let first_reject = pda.test("00111");
    let second_reject = pda.test("00111");
    assert_eq!(first_reject, second_reject);
    assert_eq!(false, first_reject);
}

// Two rows competing for the same (state, top, symbol): the one listed
// earlier is the one applied.
fn racing(winner_first: bool) -> PushdownAutomata {
    let to_win = (
        String::from("s"),
        Transition::from(('a', 'Z', String::from("w"), vec![])),
    );
    let to_lose = (
        String::from("s"),
        Transition::from(('a', 'Z', String::from("l"), vec![])),
    );
    let transitions = if winner_first {
        vec![to_win, to_lose]
    } else {
        vec![to_lose, to_win]
    };
    PushdownAutomata {
        input_alphabet: vec![String::from("a")],
        stack_alphabet: vec![String::from("Z")],
        start_stack_symbol: 'Z',
        transitions,
        start_state: 's',
        end_states: vec![String::from("w")],
    }
}

#[test]
fn test_earlier_of_two_competing_transitions_wins() {
    let pda = racing(true);
    assert_eq!(true, pda.test("a"));
}

#[test]
fn test_later_of_two_competing_transitions_never_applies() {
    let pda = racing(false);
    assert_eq!(false, pda.test("a"));
}

#[test]
fn test_epsilon_self_loop_terminates() {
    // An epsilon row that restores the stack and the input could cycle
    // forever; the prefix check stops it after one application, the next
    // iteration finds no applicable row, and the run halts with the whole
    // input consumed.
    let pda = PushdownAutomata {
        input_alphabet: vec![String::from("x")],
        stack_alphabet: vec![String::from("Z")],
        start_stack_symbol: 'Z',
        transitions: vec![(
            String::from("s"),
            Transition::from(('e', 'Z', String::from("s"), vec!['Z'])),
        )],
        start_state: 's',
        end_states: vec![String::from("s")],
    };
    assert_eq!(true, pda.test("x"));
}

#[test]
fn test_empty_input_accepted_when_start_state_accepts() {
    // The loop never runs on empty input, but the failing guard still pops
    // the start stack symbol, so acceptance turns solely on the start state.
    let pda = PushdownAutomata {
        input_alphabet: vec![],
        stack_alphabet: vec![String::from("Z")],
        start_stack_symbol: 'Z',
        transitions: vec![],
        start_state: 'p',
        end_states: vec![String::from("p")],
    };
    assert_eq!(true, pda.test(""));
}

#[test]
fn test_failed_tentative_append_leaves_accumulator_untouched() {
    // The epsilon row is eligible, but extending the empty accumulator with
    // `x` is not a prefix of the input "y": the append is undone completely
    // and nothing is applied.  Offering the right symbol afterwards succeeds
    // from the unchanged accumulator.
    let pda = PushdownAutomata {
        input_alphabet: vec![String::from("y")],
        stack_alphabet: vec![String::from("Z")],
        start_stack_symbol: 'Z',
        transitions: vec![(
            String::from("s"),
            Transition::from(('e', 'Z', String::from("t"), vec!['Z'])),
        )],
        start_state: 's',
        end_states: vec![String::from("t")],
    };
    let mut stack: Vec<char> = vec![];
    let mut state = String::from("s");
    let mut built: Vec<char> = vec![];
    let refused = pda.scan_step('Z', 'x', "y", &mut stack, &mut state, &mut built);
    assert!(refused.is_none());
    assert_eq!(built.len(), 0);
    assert_eq!(stack.len(), 0);
    assert_eq!(state, String::from("s"));
    let applied = pda.scan_step('Z', 'y', "y", &mut stack, &mut state, &mut built);
    assert_eq!(applied, Some(true));
    assert_eq!(built, vec!['y']);
    assert_eq!(stack, vec!['Z']);
    assert_eq!(state, String::from("t"));
}
