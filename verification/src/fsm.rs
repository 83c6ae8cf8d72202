//! A deterministic finite-state machine with per-state exact-symbol
//! transitions and an optional per-state fallback transition, used for
//! incremental acceptance testing.

use vstd::prelude::*;

verus! {

/// A transition input: an exact symbol, or the fallback consulted only when
/// no exact symbol matches in the current state.
#[derive(Debug, Clone, Copy, Hash, PartialEq, Eq, Structural)]
pub enum FSMInput {
    Char(char),
    Epsilon,
}

/// The mathematical model of an automaton: an initial state, the accepting
/// states, and the transition table as a map from (state, input) to state.
#[verifier::ext_equal]
pub struct FsmModel {
    pub initial: u32,
    pub accepts: Seq<u32>,
    pub table: Map<(u32, FSMInput), u32>,
}

/// The transition map that a sequence of `add_transition` calls builds: a
/// later entry for the same (state, input) key silently overwrites an
/// earlier one.
pub open spec fn table_of(entries: Seq<(u32, FSMInput, u32)>) -> Map<(u32, FSMInput), u32>
    decreases entries.len(),
{
    if entries.len() == 0 {
        Map::empty()
    } else {
        table_of(entries.drop_last()).insert(
            (entries.last().0, entries.last().1),
            entries.last().2,
        )
    }
}

/// Looking a (state, input) key up in a transition map.
pub open spec fn table_lookup(
    table: Map<(u32, FSMInput), u32>,
    from: u32,
    input: FSMInput,
) -> Option<u32> {
    if table.contains_key((from, input)) {
        Some(table[(from, input)])
    } else {
        None
    }
}

/// One step of the automaton on symbol `c`: the exact transition when there
/// is one, else the fallback transition, else stuck.
pub open spec fn fsm_step(m: FsmModel, state: u32, c: char) -> Option<u32> {
    match table_lookup(m.table, state, FSMInput::Char(c)) {
        Some(to) => Some(to),
        None => table_lookup(m.table, state, FSMInput::Epsilon),
    }
}

/// The state reached after consuming all of `s` from `state`, or `None` when
/// the automaton gets stuck first.
pub open spec fn fsm_final(m: FsmModel, state: u32, s: Seq<char>) -> Option<u32>
    decreases s.len(),
{
    if s.len() == 0 {
        Some(state)
    } else {
        match fsm_step(m, state, s[0]) {
            Some(next) => fsm_final(m, next, s.skip(1)),
            None => None,
        }
    }
}

/// The states visited while consuming `s` from `state`, the start state
/// included; the sequence ends early where the automaton gets stuck.
pub open spec fn fsm_trace(m: FsmModel, state: u32, s: Seq<char>) -> Seq<u32>
    decreases s.len(),
{
    if s.len() == 0 {
        seq![state]
    } else {
        match fsm_step(m, state, s[0]) {
            Some(next) => seq![state] + fsm_trace(m, next, s.skip(1)),
            None => seq![state],
        }
    }
}

/// Acceptance: the whole input is consumed and the state reached accepts.
pub open spec fn fsm_accepts(m: FsmModel, s: Seq<char>) -> bool {
    match fsm_final(m, m.initial, s) {
        Some(f) => m.accepts.contains(f),
        None => false,
    }
}

/// The matching relation is a pure function of the automaton and the input:
/// two runs over the same table and the same text reach the same verdict and
/// visit the same states, and `matches` takes the automaton by shared
/// reference, so a run leaves the table as it was.
pub proof fn lemma_matches_pure(m1: FsmModel, m2: FsmModel, s1: Seq<char>, s2: Seq<char>)
    requires
        m1 == m2,
        s1 == s2,
    ensures
        fsm_accepts(m1, s1) == fsm_accepts(m2, s2),
        fsm_trace(m1, m1.initial, s1) == fsm_trace(m2, m2.initial, s2),
{
}

/// Automatons built alike accept alike: acceptance depends only on the
/// initial state, the accept states, and what the transition lookups return,
/// so building a matcher a second time yields identical acceptance for every
/// input.
pub proof fn lemma_same_lookup_same_acceptance(m1: FsmModel, m2: FsmModel, s: Seq<char>)
    requires
        m1.initial == m2.initial,
        m1.accepts == m2.accepts,
        forall|st: u32, inp: FSMInput|
            #![trigger table_lookup(m1.table, st, inp)]
            table_lookup(m1.table, st, inp) == table_lookup(m2.table, st, inp),
    ensures
        fsm_accepts(m1, s) == fsm_accepts(m2, s),
{
    lemma_same_lookup_same_final(m1, m2, m1.initial, s);
}

proof fn lemma_same_lookup_same_step(m1: FsmModel, m2: FsmModel, state: u32, c: char)
    requires
        forall|st: u32, inp: FSMInput|
            #![trigger table_lookup(m1.table, st, inp)]
            table_lookup(m1.table, st, inp) == table_lookup(m2.table, st, inp),
    ensures
        fsm_step(m1, state, c) == fsm_step(m2, state, c),
{
    assert(table_lookup(m1.table, state, FSMInput::Char(c)) == table_lookup(
        m2.table,
        state,
        FSMInput::Char(c),
    ));
    assert(table_lookup(m1.table, state, FSMInput::Epsilon) == table_lookup(
        m2.table,
        state,
        FSMInput::Epsilon,
    ));
}

proof fn lemma_same_lookup_same_final(m1: FsmModel, m2: FsmModel, state: u32, s: Seq<char>)
    requires
        forall|st: u32, inp: FSMInput|
            #![trigger table_lookup(m1.table, st, inp)]
            table_lookup(m1.table, st, inp) == table_lookup(m2.table, st, inp),
    ensures
        fsm_final(m1, state, s) == fsm_final(m2, state, s),
    decreases s.len(),
{
    if s.len() > 0 {
        lemma_same_lookup_same_step(m1, m2, state, s[0]);
        match fsm_step(m1, state, s[0]) {
            Some(next) => lemma_same_lookup_same_final(m1, m2, next, s.skip(1)),
            None => {}
        }
    }
}

/// A deterministic automaton. The transition list keeps every entry ever
/// added; a lookup takes the latest entry for a key, so a later
/// `add_transition` for the same (state, input) silently overwrites an
/// earlier one.
pub struct FSM {
    initial_state: u32,
    accept_states: Vec<u32>,
    transitions: Vec<(u32, FSMInput, u32)>,
}

impl View for FSM {
    type V = FsmModel;

    closed spec fn view(&self) -> FsmModel {
        FsmModel {
            initial: self.initial_state,
            accepts: self.accept_states@,
            table: table_of(self.transitions@),
        }
    }
}

impl FSM {
    pub fn new() -> (r: FSM)
        ensures
            r@.initial == 0,
            r@.accepts == Seq::<u32>::empty(),
            r@.table == Map::<(u32, FSMInput), u32>::empty(),
    {
        FSM { initial_state: 0, accept_states: Vec::new(), transitions: Vec::new() }
    }

    pub fn set_initial_state(&mut self, state: u32)
        ensures
            final(self)@.initial == state,
            final(self)@.accepts == old(self)@.accepts,
            final(self)@.table == old(self)@.table,
    {
        self.initial_state = state;
    }

    pub fn add_accept_state(&mut self, state: u32)
        ensures
            final(self)@.initial == old(self)@.initial,
            final(self)@.accepts == old(self)@.accepts.push(state),
            final(self)@.table == old(self)@.table,
    {
        self.accept_states.push(state);
    }

    pub fn add_transition(&mut self, input: FSMInput, from: u32, to: u32)
        ensures
            final(self)@.initial == old(self)@.initial,
            final(self)@.accepts == old(self)@.accepts,
            final(self)@.table == old(self)@.table.insert((from, input), to),
    {
        self.transitions.push((from, input, to));
        proof {
            assert(self.transitions@.drop_last() =~= old(self).transitions@);
            assert(self.transitions@.last() == (from, input, to));
        }
    }

    /// The latest transition added for (from, input), if any.
    fn find_transition(&self, from: u32, input: FSMInput) -> (r: Option<u32>)
        ensures
            r == table_lookup(self@.table, from, input),
    {
        let mut j: usize = self.transitions.len();
        proof {
            assert(self.transitions@.take(j as int) =~= self.transitions@);
        }
        while j > 0
            invariant
                j <= self.transitions.len(),
                table_lookup(table_of(self.transitions@), from, input) == table_lookup(
                    table_of(self.transitions@.take(j as int)),
                    from,
                    input,
                ),
            decreases j,
        {
            j = j - 1;
            let entry = self.transitions[j];
            proof {
                assert(self.transitions@.take(j as int + 1).drop_last() =~= self.transitions@.take(
                    j as int,
                ));
                assert(self.transitions@.take(j as int + 1).last() == self.transitions@[j as int]);
            }
            if entry.0 == from && entry.1 == input {
                return Some(entry.2);
            }
        }
        proof {
            assert(self.transitions@.take(0) =~= Seq::<(u32, FSMInput, u32)>::empty());
        }
        None
    }

    fn accepts_state(&self, state: u32) -> (b: bool)
        ensures
            b == self@.accepts.contains(state),
    {
        let mut k: usize = 0;
        while k < self.accept_states.len()
            invariant
                k <= self.accept_states.len(),
                forall|t: int| 0 <= t < k ==> self.accept_states@[t] != state,
            decreases self.accept_states.len() - k,
        {
            if self.accept_states[k] == state {
                return true;
            }
            k = k + 1;
        }
        false
    }

    /// Runs the automaton over `input`, starting at the initial state,
    /// consuming one symbol at a time: the exact transition when there is
    /// one, else the fallback, else the run stops and does not accept.
    /// Returns acceptance and the states visited.
    pub fn matches(&self, input: String) -> (r: (bool, Vec<u32>))
        ensures
            r.0 == fsm_accepts(self@, input@),
            r.1@ == fsm_trace(self@, self@.initial, input@),
    {
        let mut states: Vec<u32> = Vec::new();
        let mut current = self.initial_state;
        states.push(current);
        let n = input.as_str().unicode_len();
        let mut i: usize = 0;
        proof {
            assert(input@.skip(0) =~= input@);
            assert(states@.drop_last() =~= Seq::<u32>::empty());
            assert(Seq::<u32>::empty() + fsm_trace(self@, current, input@) =~= fsm_trace(
                self@,
                current,
                input@,
            ));
        }
        while i < n
            invariant
                n == input@.len(),
                i <= n,
                states@.len() >= 1,
                states@.last() == current,
                fsm_trace(self@, self@.initial, input@) == states@.drop_last() + fsm_trace(
                    self@,
                    current,
                    input@.skip(i as int),
                ),
                fsm_final(self@, self@.initial, input@) == fsm_final(
                    self@,
                    current,
                    input@.skip(i as int),
                ),
            decreases n - i,
        {
            let c = input.as_str().get_char(i);
            proof {
                assert(input@.skip(i as int)[0] == c);
                assert(input@.skip(i as int).skip(1) =~= input@.skip(i as int + 1));
            }
            let step = match self.find_transition(current, FSMInput::Char(c)) {
                Some(to) => Some(to),
                None => self.find_transition(current, FSMInput::Epsilon),
            };
            match step {
                Some(to) => {
                    proof {
                        assert(fsm_step(self@, current, c) == Some(to));
                        assert(fsm_trace(self@, current, input@.skip(i as int)) == seq![current]
                            + fsm_trace(self@, to, input@.skip(i as int + 1)));
                        assert(states@.push(to).drop_last() =~= states@);
                        assert(states@.drop_last() + (seq![current] + fsm_trace(
                            self@,
                            to,
                            input@.skip(i as int + 1),
                        )) =~= (states@.drop_last() + seq![current]) + fsm_trace(
                            self@,
                            to,
                            input@.skip(i as int + 1),
                        ));
                        assert(states@.drop_last() + seq![current] =~= states@);
                    }
                    current = to;
                    states.push(current);
                    i = i + 1;
                }
                None => {
                    proof {
                        assert(fsm_step(self@, current, c) is None);
                        assert(fsm_trace(self@, current, input@.skip(i as int)) == seq![current]);
                        assert(states@.drop_last() + seq![current] =~= states@);
                    }
                    return (false, states);
                }
            }
        }
        proof {
            assert(input@.skip(n as int) =~= Seq::<char>::empty());
            assert(fsm_trace(self@, current, input@.skip(n as int)) == seq![current]);
            assert(states@.drop_last() + seq![current] =~= states@);
        }
        let accepted = self.accepts_state(current);
        (accepted, states)
    }
}

} // verus!


