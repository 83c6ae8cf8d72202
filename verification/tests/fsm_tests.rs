use tinycalc::fsm::{FSMInput, FSM};
use tinycalc::lexer::matchers::{
    new_number_matcher, new_operator_matcher, new_parenthesis_matcher,
};

#[test]
fn empty_automaton_rejects() {
    let fsm = FSM::new();
    let (accepted, states) = fsm.matches(String::from("a"));
    assert!(!accepted);
    assert_eq!(states, vec![0]);
}

#[test]
fn empty_input_acceptance_depends_on_initial_state() {
    let mut fsm = FSM::new();
    fsm.set_initial_state(7);
    fsm.add_accept_state(7);
    let (accepted, states) = fsm.matches(String::from(""));
    assert!(accepted);
    assert_eq!(states, vec![7]);

    let fsm2 = FSM::new();
    let (accepted2, states2) = fsm2.matches(String::from(""));
    assert!(!accepted2);
    assert_eq!(states2, vec![0]);
}

#[test]
fn exact_transition_is_preferred_over_fallback() {
    let mut fsm = FSM::new();
    fsm.set_initial_state(0);
    fsm.add_accept_state(1);
    fsm.add_transition(FSMInput::Char('a'), 0, 1);
    fsm.add_transition(FSMInput::Epsilon, 0, 2);
    let (accepted, states) = fsm.matches(String::from("a"));
    assert!(accepted);
    assert_eq!(states, vec![0, 1]);
}

#[test]
fn fallback_consumes_a_symbol_without_exact_match() {
    let mut fsm = FSM::new();
    fsm.set_initial_state(0);
    fsm.add_accept_state(1);
    fsm.add_transition(FSMInput::Epsilon, 0, 1);
    let (accepted, states) = fsm.matches(String::from("x"));
    assert!(accepted);
    assert_eq!(states, vec![0, 1]);
}

#[test]
fn stuck_run_reports_states_so_far() {
    let mut fsm = FSM::new();
    fsm.set_initial_state(0);
    fsm.add_accept_state(1);
    fsm.add_transition(FSMInput::Char('a'), 0, 1);
    let (accepted, states) = fsm.matches(String::from("ab"));
    assert!(!accepted);
    assert_eq!(states, vec![0, 1]);
}

#[test]
fn later_transition_overwrites_earlier_one() {
    let mut fsm = FSM::new();
    fsm.set_initial_state(0);
    fsm.add_accept_state(2);
    fsm.add_transition(FSMInput::Char('a'), 0, 1);
    fsm.add_transition(FSMInput::Char('a'), 0, 2);
    let (accepted, states) = fsm.matches(String::from("a"));
    assert!(accepted);
    assert_eq!(states, vec![0, 2]);
}

#[test]
fn matches_is_pure_and_leaves_the_table_unchanged() {
    let fsm = new_number_matcher();
    let first = fsm.matches(String::from("12.5"));
    let second = fsm.matches(String::from("12.5"));
    assert_eq!(first.0, second.0);
    assert_eq!(first.1, second.1);
    let third = fsm.matches(String::from("01"));
    let fourth = fsm.matches(String::from("01"));
    assert_eq!(third.0, fourth.0);
    assert_eq!(third.1, fourth.1);
}

#[test]
fn building_a_matcher_twice_accepts_alike() {
    let inputs = [
        "0", "7", "10", "3.14", "7.", "0.", "01", ".5", "", "1.2.3", "+", "-", "*", "/", "(",
        ")", "a", "12a",
    ];
    let n1 = new_number_matcher();
    let n2 = new_number_matcher();
    let o1 = new_operator_matcher();
    let o2 = new_operator_matcher();
    let p1 = new_parenthesis_matcher();
    let p2 = new_parenthesis_matcher();
    for input in inputs.iter() {
        assert_eq!(
            n1.matches(String::from(*input)).0,
            n2.matches(String::from(*input)).0
        );
        assert_eq!(
            o1.matches(String::from(*input)).0,
            o2.matches(String::from(*input)).0
        );
        assert_eq!(
            p1.matches(String::from(*input)).0,
            p2.matches(String::from(*input)).0
        );
    }
}

#[test]
fn number_matcher_grammar() {
    let m = new_number_matcher();
    assert!(m.matches(String::from("0")).0);
    assert!(m.matches(String::from("7")).0);
    assert!(m.matches(String::from("42")).0);
    assert!(m.matches(String::from("3.14")).0);
    assert!(m.matches(String::from("0.5")).0);
    // the bare trailing decimal point is accepted by design
    assert!(m.matches(String::from("7.")).0);
    assert!(m.matches(String::from("0.")).0);
    assert!(!m.matches(String::from("")).0);
    assert!(!m.matches(String::from("01")).0);
    assert!(!m.matches(String::from("00")).0);
    assert!(!m.matches(String::from(".5")).0);
    assert!(!m.matches(String::from("1.2.3")).0);
    assert!(!m.matches(String::from("1a")).0);
}

#[test]
fn number_matcher_trace() {
    let m = new_number_matcher();
    let (accepted, states) = m.matches(String::from("12.3"));
    assert!(accepted);
    assert_eq!(states, vec![0, 1, 2, 4, 5]);
}

#[test]
fn operator_and_parenthesis_matchers_take_one_symbol() {
    let o = new_operator_matcher();
    for c in ["+", "-", "*", "/"] {
        assert!(o.matches(String::from(c)).0);
    }
    assert!(!o.matches(String::from("++")).0);
    assert!(!o.matches(String::from("(")).0);
    let p = new_parenthesis_matcher();
    assert!(p.matches(String::from("(")).0);
    assert!(p.matches(String::from(")")).0);
    assert!(!p.matches(String::from("()")).0);
    assert!(!p.matches(String::from("+")).0);
}
