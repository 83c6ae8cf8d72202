//! The three matcher automatons, one per token class, built once when the
//! tokenizer is created.

use vstd::prelude::*;

use crate::fsm::fsm_accepts;
use crate::fsm::lemma_same_lookup_same_acceptance;
use crate::fsm::table_lookup;
use crate::fsm::FsmModel;
use crate::fsm::FSMInput;
use crate::fsm::FSM;

verus! {

/// Matcher construction is idempotent: any two automatons that meet one
/// builder's contract - the same initial state, the same accept states, and
/// lookups that agree with the same step function - accept exactly the same
/// inputs, so building a matcher twice yields behaviorally identical
/// acceptance.
pub proof fn lemma_matcher_construction_idempotent(
    m1: FsmModel,
    m2: FsmModel,
    step: spec_fn(u32, FSMInput) -> Option<u32>,
    s: Seq<char>,
)
    requires
        m1.initial == m2.initial,
        m1.accepts == m2.accepts,
        forall|st: u32, inp: FSMInput|
            #![trigger table_lookup(m1.table, st, inp)]
            table_lookup(m1.table, st, inp) == step(st, inp),
        forall|st: u32, inp: FSMInput|
            #![trigger table_lookup(m2.table, st, inp)]
            table_lookup(m2.table, st, inp) == step(st, inp),
    ensures
        fsm_accepts(m1, s) == fsm_accepts(m2, s),
{
    assert forall|st: u32, inp: FSMInput|
        #![trigger table_lookup(m1.table, st, inp)]
        table_lookup(m1.table, st, inp) == table_lookup(m2.table, st, inp) by {
        assert(table_lookup(m2.table, st, inp) == step(st, inp));
    }
    lemma_same_lookup_same_acceptance(m1, m2, s);
}

/// The one-step transition function of the parenthesis matcher: either
/// parenthesis symbol moves the initial state to the single accept state,
/// so the matcher accepts exactly one character.
pub open spec fn paren_step(state: u32, input: FSMInput) -> Option<u32> {
    match input {
        FSMInput::Char(c) => {
            if state == 0 && (c == '(' || c == ')') {
                Some(1u32)
            } else {
                None
            }
        }
        FSMInput::Epsilon => None,
    }
}

pub open spec fn operator_char(c: char) -> bool {
    c == '+' || c == '-' || c == '*' || c == '/'
}

/// The one-step transition function of the operator matcher: any of the four
/// operator symbols moves the initial state to the single accept state.
pub open spec fn operator_step(state: u32, input: FSMInput) -> Option<u32> {
    match input {
        FSMInput::Char(c) => {
            if state == 0 && operator_char(c) {
                Some(1u32)
            } else {
                None
            }
        }
        FSMInput::Epsilon => None,
    }
}

pub open spec fn digit_char(c: char) -> bool {
    c == '0' || c == '1' || c == '2' || c == '3' || c == '4' || c == '5' || c == '6' || c == '7'
        || c == '8' || c == '9'
}

pub open spec fn nonzero_digit_char(c: char) -> bool {
    digit_char(c) && c != '0'
}

/// The one-step transition function of the number matcher. State 0 is the
/// start; 1 holds a leading nonzero digit, 2 further integer digits, 3 a
/// lone zero, 4 a decimal point, 5 fractional digits. Every state but the
/// start accepts, so a bare trailing decimal point is itself accepted.
pub open spec fn number_step(state: u32, input: FSMInput) -> Option<u32> {
    match input {
        FSMInput::Char(c) => {
            if state == 0 && c == '0' {
                Some(3u32)
            } else if state == 0 && nonzero_digit_char(c) {
                Some(1u32)
            } else if (state == 1 || state == 2 || state == 3) && c == '.' {
                Some(4u32)
            } else if (state == 1 || state == 2) && digit_char(c) {
                Some(2u32)
            } else if (state == 4 || state == 5) && digit_char(c) {
                Some(5u32)
            } else {
                None
            }
        }
        FSMInput::Epsilon => None,
    }
}

/// Matches exactly one `(` or `)`.
pub fn new_parenthesis_matcher() -> (r: FSM)
    ensures
        r@.initial == 0,
        r@.accepts == seq![1u32],
        forall|st: u32, inp: FSMInput| #[trigger] table_lookup(r@.table, st, inp) == paren_step(
            st,
            inp,
        ),
{
    let mut fsm = FSM::new();

    fsm.set_initial_state(0);
    fsm.add_accept_state(1);

    fsm.add_transition(FSMInput::Char('('), 0, 1);
    fsm.add_transition(FSMInput::Char(')'), 0, 1);
    proof {
        assert(fsm@.accepts =~= seq![1u32]);
    }
    fsm
}

/// Matches exactly one of the four operator symbols.
pub fn new_operator_matcher() -> (r: FSM)
    ensures
        r@.initial == 0,
        r@.accepts == seq![1u32],
        forall|st: u32, inp: FSMInput| #[trigger] table_lookup(r@.table, st, inp) == operator_step(
            st,
            inp,
        ),
{
    let mut fsm = FSM::new();

    fsm.set_initial_state(0);
    fsm.add_accept_state(1);

    fsm.add_transition(FSMInput::Char('+'), 0, 1);
    fsm.add_transition(FSMInput::Char('-'), 0, 1);
    fsm.add_transition(FSMInput::Char('*'), 0, 1);
    fsm.add_transition(FSMInput::Char('/'), 0, 1);
    proof {
        assert(fsm@.accepts =~= seq![1u32]);
    }
    fsm
}

/// Matches `(0 | nonzero-digit digit*) (. digit+)?`, every intermediate
/// state accepting, the bare trailing decimal point included.
pub fn new_number_matcher() -> (r: FSM)
    ensures
        r@.initial == 0,
        r@.accepts == seq![1u32, 2u32, 3u32, 4u32, 5u32],
        forall|st: u32, inp: FSMInput| #[trigger] table_lookup(r@.table, st, inp) == number_step(
            st,
            inp,
        ),
{
    let mut fsm = FSM::new();

    fsm.set_initial_state(0);
    fsm.add_accept_state(1);
    fsm.add_accept_state(2);
    fsm.add_accept_state(3);
    fsm.add_accept_state(4);
    fsm.add_accept_state(5);

    fsm.add_transition(FSMInput::Char('0'), 0, 3);
    fsm.add_transition(FSMInput::Char('.'), 3, 4);
    fsm.add_transition(FSMInput::Char('.'), 1, 4);
    fsm.add_transition(FSMInput::Char('.'), 2, 4);

    fsm.add_transition(FSMInput::Char('1'), 0, 1);
    fsm.add_transition(FSMInput::Char('2'), 0, 1);
    fsm.add_transition(FSMInput::Char('3'), 0, 1);
    fsm.add_transition(FSMInput::Char('4'), 0, 1);
    fsm.add_transition(FSMInput::Char('5'), 0, 1);
    fsm.add_transition(FSMInput::Char('6'), 0, 1);
    fsm.add_transition(FSMInput::Char('7'), 0, 1);
    fsm.add_transition(FSMInput::Char('8'), 0, 1);
    fsm.add_transition(FSMInput::Char('9'), 0, 1);

    fsm.add_transition(FSMInput::Char('0'), 1, 2);
    fsm.add_transition(FSMInput::Char('1'), 1, 2);
    fsm.add_transition(FSMInput::Char('2'), 1, 2);
    fsm.add_transition(FSMInput::Char('3'), 1, 2);
    fsm.add_transition(FSMInput::Char('4'), 1, 2);
    fsm.add_transition(FSMInput::Char('5'), 1, 2);
    fsm.add_transition(FSMInput::Char('6'), 1, 2);
    fsm.add_transition(FSMInput::Char('7'), 1, 2);
    fsm.add_transition(FSMInput::Char('8'), 1, 2);
    fsm.add_transition(FSMInput::Char('9'), 1, 2);

    fsm.add_transition(FSMInput::Char('0'), 2, 2);
    fsm.add_transition(FSMInput::Char('1'), 2, 2);
    fsm.add_transition(FSMInput::Char('2'), 2, 2);
    fsm.add_transition(FSMInput::Char('3'), 2, 2);
    fsm.add_transition(FSMInput::Char('4'), 2, 2);
    fsm.add_transition(FSMInput::Char('5'), 2, 2);
    fsm.add_transition(FSMInput::Char('6'), 2, 2);
    fsm.add_transition(FSMInput::Char('7'), 2, 2);
    fsm.add_transition(FSMInput::Char('8'), 2, 2);
    fsm.add_transition(FSMInput::Char('9'), 2, 2);

    fsm.add_transition(FSMInput::Char('0'), 4, 5);
    fsm.add_transition(FSMInput::Char('1'), 4, 5);
    fsm.add_transition(FSMInput::Char('2'), 4, 5);
    fsm.add_transition(FSMInput::Char('3'), 4, 5);
    fsm.add_transition(FSMInput::Char('4'), 4, 5);
    fsm.add_transition(FSMInput::Char('5'), 4, 5);
    fsm.add_transition(FSMInput::Char('6'), 4, 5);
    fsm.add_transition(FSMInput::Char('7'), 4, 5);
    fsm.add_transition(FSMInput::Char('8'), 4, 5);
    fsm.add_transition(FSMInput::Char('9'), 4, 5);

    fsm.add_transition(FSMInput::Char('0'), 5, 5);
    fsm.add_transition(FSMInput::Char('1'), 5, 5);
    fsm.add_transition(FSMInput::Char('2'), 5, 5);
    fsm.add_transition(FSMInput::Char('3'), 5, 5);
    fsm.add_transition(FSMInput::Char('4'), 5, 5);
    fsm.add_transition(FSMInput::Char('5'), 5, 5);
    fsm.add_transition(FSMInput::Char('6'), 5, 5);
    fsm.add_transition(FSMInput::Char('7'), 5, 5);
    fsm.add_transition(FSMInput::Char('8'), 5, 5);
    fsm.add_transition(FSMInput::Char('9'), 5, 5);

    proof {
        assert(fsm@.accepts =~= seq![1u32, 2u32, 3u32, 4u32, 5u32]);
    }
    fsm
}

} // verus!
