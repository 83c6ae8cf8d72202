//! The tokenizer: drives the three matchers character by character over an
//! input line, producing a sequence of classified tokens or a lex error.
//! A boundary is discovered only at the first character that breaks the
//! match, with no lookahead (longest match by extension).

pub mod matchers;

use vstd::prelude::*;

use crate::fsm::fsm_accepts;
use crate::fsm::table_lookup;
use crate::fsm::FsmModel;
use crate::fsm::FSM;
use crate::lexer::matchers::digit_char;
use crate::lexer::matchers::new_number_matcher;
use crate::lexer::matchers::new_operator_matcher;
use crate::lexer::matchers::new_parenthesis_matcher;
use crate::lexer::matchers::number_step;
use crate::lexer::matchers::operator_char;
use crate::lexer::matchers::operator_step;
use crate::lexer::matchers::paren_step;

verus! {

/// The class of a token.
#[derive(Debug, Clone, Copy, PartialEq, PartialOrd, Eq, Ord, Structural)]
pub enum TokenKind {
    Undefined,
    Number,
    Operator,
    Parenthesis,
}

/// The mathematical model of a token: its class and its accumulated text.
#[verifier::ext_equal]
pub struct TokenModel {
    pub kind: TokenKind,
    pub value: Seq<char>,
}

/// The in-progress token that each tokenizer run starts from: no class and
/// no text yet.
pub open spec fn empty_token() -> TokenModel {
    TokenModel { kind: TokenKind::Undefined, value: Seq::empty() }
}

/// A classified span of input text.
#[derive(Debug)]
pub struct Token {
    kind: TokenKind,
    value: String,
}

impl View for Token {
    type V = TokenModel;

    closed spec fn view(&self) -> TokenModel {
        TokenModel { kind: self.kind, value: self.value@ }
    }
}

impl Token {
    pub fn new() -> (t: Token)
        ensures
            t@ == empty_token(),
    {
        let t = Token { value: String::new(), kind: TokenKind::Undefined };
        proof {
            assert(t@ =~= empty_token());
        }
        t
    }

    pub fn value(&self) -> (v: String)
        ensures
            v@ == self@.value,
    {
        self.value.clone()
    }

    pub fn kind(&self) -> (k: TokenKind)
        ensures
            k == self@.kind,
    {
        self.kind
    }
}

/// The models of a token list.
pub open spec fn token_models(ts: Seq<Token>) -> Seq<TokenModel> {
    ts.map_values(|t: Token| t@)
}

/// The class that the matcher list assigns to `text`: the kind of the last
/// matcher in the list that accepts it, or `None` when none does.
pub open spec fn classify(ms: Seq<(TokenKind, FsmModel)>, text: Seq<char>) -> Option<TokenKind>
    decreases ms.len(),
{
    if ms.len() == 0 {
        None
    } else if fsm_accepts(ms.last().1, text) {
        Some(ms.last().0)
    } else {
        classify(ms.drop_last(), text)
    }
}

/// The message of a lex error naming the character that fits no token.
pub open spec fn lex_error_message(c: char) -> Seq<char> {
    "char "@ + seq![c] + " doesn't match any token"@
}

/// The tokenizer, one character of `rest` at a time. A space is dropped. Any
/// other character is appended to the in-progress token and the extension is
/// classified; if some matcher accepts it the token goes on growing under
/// the new class. Otherwise the character does not belong to the token: a
/// character that could not even start a token is a lex error; else the
/// completed token is pushed and the character is reconsidered as the start
/// of the next token. At the end an in-progress token with a defined class
/// is pushed.
pub open spec fn spec_lex(
    ms: Seq<(TokenKind, FsmModel)>,
    rest: Seq<char>,
    cur: TokenModel,
    acc: Seq<TokenModel>,
) -> Result<Seq<TokenModel>, char>
    decreases 2 * rest.len() + cur.value.len(),
{
    if rest.len() == 0 {
        if cur.kind != TokenKind::Undefined {
            Ok(acc.push(cur))
        } else {
            Ok(acc)
        }
    } else {
        let c = rest[0];
        if c == ' ' {
            spec_lex(ms, rest.skip(1), cur, acc)
        } else {
            let extended = cur.value.push(c);
            match classify(ms, extended) {
                Some(kind) => spec_lex(
                    ms,
                    rest.skip(1),
                    TokenModel { kind, value: extended },
                    acc,
                ),
                None => {
                    if extended.len() <= 1 {
                        Err(c)
                    } else {
                        spec_lex(ms, rest, empty_token(), acc.push(cur))
                    }
                }
            }
        }
    }
}

/// The matcher list that `Lexer::new` builds: the number, operator and
/// parenthesis matchers, in that fixed priority order.
pub open spec fn standard_matchers(ms: Seq<(TokenKind, FsmModel)>) -> bool {
    &&& ms.len() == 3
    &&& ms[0].0 == TokenKind::Number
    &&& ms[1].0 == TokenKind::Operator
    &&& ms[2].0 == TokenKind::Parenthesis
    &&& ms[0].1.initial == 0
    &&& ms[0].1.accepts == seq![1u32, 2u32, 3u32, 4u32, 5u32]
    &&& ms[1].1.initial == 0
    &&& ms[1].1.accepts == seq![1u32]
    &&& ms[2].1.initial == 0
    &&& ms[2].1.accepts == seq![1u32]
    &&& forall|st: u32, inp: crate::fsm::FSMInput|
        #![trigger table_lookup(ms[0].1.table, st, inp)]
        table_lookup(ms[0].1.table, st, inp) == number_step(st, inp)
    &&& forall|st: u32, inp: crate::fsm::FSMInput|
        #![trigger table_lookup(ms[1].1.table, st, inp)]
        table_lookup(ms[1].1.table, st, inp) == operator_step(st, inp)
    &&& forall|st: u32, inp: crate::fsm::FSMInput|
        #![trigger table_lookup(ms[2].1.table, st, inp)]
        table_lookup(ms[2].1.table, st, inp) == paren_step(st, inp)
}

/// Relies on String::push: appends one character at the end.
#[verifier::external_body]
fn push_char(s: &mut String, c: char)
    ensures
        final(s)@ == old(s)@.push(c),
{
    s.push(c);
}

/// Relies on String::pop: removes the last character of a non-empty string.
#[verifier::external_body]
fn pop_char(s: &mut String)
    requires
        old(s)@.len() > 0,
    ensures
        final(s)@ == old(s)@.drop_last(),
{
    s.pop();
}

/// The tokenizer: the three matchers in fixed priority order, built once and
/// read-only thereafter.
pub struct Lexer {
    matchers: Vec<(TokenKind, FSM)>,
}

impl View for Lexer {
    type V = Seq<(TokenKind, FsmModel)>;

    closed spec fn view(&self) -> Seq<(TokenKind, FsmModel)> {
        self.matchers@.map_values(|p: (TokenKind, FSM)| (p.0, p.1@))
    }
}

impl Lexer {
    pub fn new() -> (r: Lexer)
        ensures
            standard_matchers(r@),
    {
        let mut matchers: Vec<(TokenKind, FSM)> = Vec::new();

        matchers.push((TokenKind::Number, new_number_matcher()));
        matchers.push((TokenKind::Operator, new_operator_matcher()));
        matchers.push((TokenKind::Parenthesis, new_parenthesis_matcher()));

        let r = Lexer { matchers };
        proof {
            assert(r@.len() == 3);
            assert(r@[0] == (r.matchers@[0].0, r.matchers@[0].1@));
            assert(r@[1] == (r.matchers@[1].0, r.matchers@[1].1@));
            assert(r@[2] == (r.matchers@[2].0, r.matchers@[2].1@));
        }
        r
    }

    /// Tokenizes one line: the token sequence that `spec_lex` describes, or
    /// a lex error naming the first character that fits no token.
    pub fn analyze(&self, input: String) -> (r: Result<Vec<Token>, String>)
        ensures
            (match (r, spec_lex(self@, input@, empty_token(), Seq::empty())) {
                (Ok(ts), Ok(models)) => token_models(ts@) == models,
                (Err(m), Err(c)) => m@ == lex_error_message(c),
                _ => false,
            }),
    {
        let mut tokens: Vec<Token> = Vec::new();
        let mut current = Token::new();
        let n = input.as_str().unicode_len();
        let mut i: usize = 0;
        proof {
            assert(input@.skip(0) =~= input@);
            assert(token_models(tokens@) =~= Seq::<TokenModel>::empty());
        }
        while i < n
            invariant
                n == input@.len(),
                i <= n,
                spec_lex(self@, input@.skip(i as int), current@, token_models(tokens@)) == spec_lex(
                    self@,
                    input@,
                    empty_token(),
                    Seq::empty(),
                ),
            decreases 2 * (n - i) + current.value@.len(),
        {
            let ghost rest = input@.skip(i as int);
            let c = input.as_str().get_char(i);
            proof {
                assert(rest[0] == c);
                assert(rest.skip(1) =~= input@.skip(i as int + 1));
            }
            if c == ' ' {
                i = i + 1;
                continue;
            }
            let ghost value0 = current.value@;
            let ghost kind0 = current.kind;
            push_char(&mut current.value, c);
            let ghost extended = current.value@;

            let mut char_matches = false;
            let mut mi: usize = 0;
            proof {
                assert(self@.len() == self.matchers@.len());
                assert(self@.take(0) =~= Seq::<(TokenKind, FsmModel)>::empty());
            }
            while mi < self.matchers.len()
                invariant
                    mi <= self.matchers.len(),
                    self@.len() == self.matchers@.len(),
                    current.value@ == extended,
                    char_matches ==> classify(self@.take(mi as int), extended) == Some(
                        current.kind,
                    ),
                    !char_matches ==> classify(self@.take(mi as int), extended) is None
                        && current.kind == kind0,
                decreases self.matchers.len() - mi,
            {
                let (matched, _) = self.matchers[mi].1.matches(current.value.clone());
                proof {
                    assert(self@[mi as int] == (self.matchers@[mi as int].0, self.matchers@[
                        mi as int].1@));
                    assert(self@.take(mi as int + 1).drop_last() =~= self@.take(mi as int));
                    assert(self@.take(mi as int + 1).last() == self@[mi as int]);
                }
                if matched {
                    char_matches = true;
                    current.kind = self.matchers[mi].0;
                }
                mi = mi + 1;
            }
            proof {
                assert(self@.take(self.matchers@.len() as int) =~= self@);
            }

            if !char_matches {
                if current.value.as_str().unicode_len() <= 1 {
                    let mut msg = String::from_str("char ");
                    push_char(&mut msg, c);
                    msg.append(" doesn't match any token");
                    proof {
                        assert(("char "@).push(c) =~= "char "@ + seq![c]);
                        assert(msg@ =~= lex_error_message(c));
                    }
                    return Err(msg);
                }
                pop_char(&mut current.value);
                proof {
                    assert(extended.drop_last() =~= value0);
                }
                let ghost done_model = current@;
                let ghost acc0 = token_models(tokens@);
                tokens.push(current);
                current = Token::new();
                proof {
                    assert(token_models(tokens@) =~= acc0.push(done_model));
                    assert(current@ == empty_token());
                }
            } else {
                i = i + 1;
            }
        }
        proof {
            assert(input@.skip(n as int) =~= Seq::<char>::empty());
        }
        if current.kind() != TokenKind::Undefined {
            let ghost acc0 = token_models(tokens@);
            let ghost done_model = current@;
            tokens.push(current);
            proof {
                assert(token_models(tokens@) =~= acc0.push(done_model));
            }
        }
        Ok(tokens)
    }
}

/// Classifying one character alone: a digit is a number token, an operator
/// symbol an operator token, a parenthesis a parenthesis token; a space
/// yields no token at all; every other single character - the decimal point
/// included, which no matcher accepts on its own - is a lex error naming it.
pub proof fn lemma_single_char_classes(ms: Seq<(TokenKind, FsmModel)>, c: char)
    requires
        standard_matchers(ms),
    ensures
        digit_char(c) ==> spec_lex(ms, seq![c], empty_token(), Seq::empty()) == Ok::<
            Seq<TokenModel>,
            char,
        >(seq![(TokenModel { kind: TokenKind::Number, value: seq![c] })]),
        operator_char(c) ==> spec_lex(ms, seq![c], empty_token(), Seq::empty()) == Ok::<
            Seq<TokenModel>,
            char,
        >(seq![(TokenModel { kind: TokenKind::Operator, value: seq![c] })]),
        (c == '(' || c == ')') ==> spec_lex(ms, seq![c], empty_token(), Seq::empty()) == Ok::<
            Seq<TokenModel>,
            char,
        >(seq![(TokenModel { kind: TokenKind::Parenthesis, value: seq![c] })]),
        c == ' ' ==> spec_lex(ms, seq![c], empty_token(), Seq::empty()) == Ok::<
            Seq<TokenModel>,
            char,
        >(Seq::empty()),
        !digit_char(c) && !operator_char(c) && c != '(' && c != ')' && c != ' '
            ==> spec_lex(ms, seq![c], empty_token(), Seq::empty()) == Err::<
            Seq<TokenModel>,
            char,
        >(c),
{
    reveal_with_fuel(classify, 5);
    reveal_with_fuel(spec_lex, 3);
    reveal_with_fuel(crate::fsm::fsm_final, 3);
    let s1 = seq![c];
    assert(s1.len() == 1 && s1[0] == c);
    assert(s1.skip(1) =~= Seq::<char>::empty());
    let ext = empty_token().value.push(c);
    assert(ext =~= seq![c]);

    let num = ms[0].1;
    let op = ms[1].1;
    let par = ms[2].1;
    lemma_single_char_step(ms, c);

    if c == ' ' {
        assert(spec_lex(ms, s1, empty_token(), Seq::empty()) == spec_lex(
            ms,
            s1.skip(1),
            empty_token(),
            Seq::empty(),
        ));
        assert(s1.skip(1).len() == 0);
        assert(spec_lex(ms, s1.skip(1), empty_token(), Seq::empty()) == Ok::<
            Seq<TokenModel>,
            char,
        >(Seq::empty()));
    } else {
        assert(ms.drop_last() =~= ms.take(2));
        assert(ms.take(2).drop_last() =~= ms.take(1));
        assert(ms.take(1).drop_last() =~= ms.take(0));
        assert(ms.take(0).len() == 0);
        assert(ms.last() == ms[2] && ms.take(2).last() == ms[1] && ms.take(1).last() == ms[0]);

        if c == '(' || c == ')' {
            assert(crate::fsm::fsm_final(par, 0, ext) == crate::fsm::fsm_final(
                par,
                1u32,
                ext.skip(1),
            ));
            assert(ext.skip(1) =~= Seq::<char>::empty());
            assert(par.accepts[0] == 1u32);
            assert(par.accepts.contains(1u32));
            assert(fsm_accepts(par, ext));
            assert(classify(ms, ext) == Some(TokenKind::Parenthesis));
        } else {
            assert(crate::fsm::fsm_step(par, 0, c) is None);
            assert(!fsm_accepts(par, ext));
            if operator_char(c) {
                assert(crate::fsm::fsm_final(op, 0, ext) == crate::fsm::fsm_final(
                    op,
                    1u32,
                    ext.skip(1),
                ));
                assert(ext.skip(1) =~= Seq::<char>::empty());
                assert(op.accepts[0] == 1u32);
                assert(op.accepts.contains(1u32));
                assert(fsm_accepts(op, ext));
                assert(!fsm_accepts(num, ext) ==> classify(ms, ext) == Some(TokenKind::Operator));
                assert(fsm_accepts(num, ext) ==> classify(ms, ext) == Some(TokenKind::Number));
                assert(crate::fsm::fsm_step(num, 0, c) is None);
                assert(crate::fsm::fsm_final(num, 0u32, ext) is None);
                assert(!fsm_accepts(num, ext));
                assert(classify(ms, ext) == Some(TokenKind::Operator));
            } else {
                assert(crate::fsm::fsm_step(op, 0, c) is None);
                assert(crate::fsm::fsm_final(op, 0u32, ext) is None);
                assert(!fsm_accepts(op, ext));
                if digit_char(c) {
                    if c == '0' {
                        assert(crate::fsm::fsm_final(num, 0, ext) == crate::fsm::fsm_final(
                            num,
                            3u32,
                            ext.skip(1),
                        ));
                        assert(ext.skip(1) =~= Seq::<char>::empty());
                        assert(num.accepts[2] == 3u32);
                        assert(num.accepts.contains(3u32));
                    } else {
                        assert(crate::fsm::fsm_final(num, 0, ext) == crate::fsm::fsm_final(
                            num,
                            1u32,
                            ext.skip(1),
                        ));
                        assert(ext.skip(1) =~= Seq::<char>::empty());
                        assert(num.accepts[0] == 1u32);
                        assert(num.accepts.contains(1u32));
                    }
                    assert(fsm_accepts(num, ext));
                    assert(classify(ms, ext) == Some(TokenKind::Number));
                } else {
                    assert(crate::fsm::fsm_step(num, 0, c) is None);
                    assert(crate::fsm::fsm_final(num, 0u32, ext) is None);
                    assert(!fsm_accepts(num, ext));
                    assert(classify(ms, ext) is None);
                    assert(ext.len() == 1);
                }
            }
        }
        match classify(ms, ext) {
            Some(kind) => {
                assert(spec_lex(ms, s1, empty_token(), Seq::empty()) == spec_lex(
                    ms,
                    s1.skip(1),
                    TokenModel { kind, value: ext },
                    Seq::empty(),
                ));
                assert(Seq::<TokenModel>::empty().push(TokenModel { kind, value: ext })
                    =~= seq![(TokenModel { kind, value: ext })]);
                assert(TokenModel { kind, value: ext } =~= TokenModel { kind, value: seq![c] });
            }
            None => {}
        }
    }
}

proof fn lemma_classify_defined(ms: Seq<(TokenKind, FsmModel)>, text: Seq<char>)
    requires
        forall|i: int| 0 <= i < ms.len() ==> (#[trigger] ms[i].0) != TokenKind::Undefined,
    ensures
        classify(ms, text) != Some(TokenKind::Undefined),
    decreases ms.len(),
{
    if ms.len() > 0 {
        assert(ms.last() == ms[ms.len() - 1]);
        if !fsm_accepts(ms.last().1, text) {
            assert forall|i: int| 0 <= i < ms.drop_last().len() implies (#[trigger] ms.drop_last()[
                i].0) != TokenKind::Undefined by {
                assert(ms.drop_last()[i] == ms[i]);
            }
            lemma_classify_defined(ms.drop_last(), text);
        }
    }
}

/// The token invariant: every token that the tokenizer pushes into its
/// output has a defined class and non-empty text, provided each matcher
/// carries a defined class, the in-progress token has a class exactly when
/// it has text, and the tokens accumulated so far are well formed. A whole
/// run starts from the empty token and the empty accumulator, which satisfy
/// both.
pub proof fn lemma_lex_tokens_well_formed(
    ms: Seq<(TokenKind, FsmModel)>,
    rest: Seq<char>,
    cur: TokenModel,
    acc: Seq<TokenModel>,
)
    requires
        forall|i: int| 0 <= i < ms.len() ==> (#[trigger] ms[i].0) != TokenKind::Undefined,
        (cur.kind != TokenKind::Undefined) <==> cur.value.len() > 0,
        forall|i: int| 0 <= i < acc.len() ==> (#[trigger] acc[i]).kind != TokenKind::Undefined
            && acc[i].value.len() > 0,
    ensures
        (match spec_lex(ms, rest, cur, acc) {
            Ok(toks) => forall|i: int|
                0 <= i < toks.len() ==> (#[trigger] toks[i]).kind != TokenKind::Undefined
                    && toks[i].value.len() > 0,
            Err(_) => true,
        }),
    decreases 2 * rest.len() + cur.value.len(),
{
    if rest.len() == 0 {
    } else {
        let c = rest[0];
        if c == ' ' {
            lemma_lex_tokens_well_formed(ms, rest.skip(1), cur, acc);
        } else {
            let extended = cur.value.push(c);
            lemma_classify_defined(ms, extended);
            match classify(ms, extended) {
                Some(kind) => {
                    lemma_lex_tokens_well_formed(
                        ms,
                        rest.skip(1),
                        TokenModel { kind, value: extended },
                        acc,
                    );
                }
                None => {
                    if extended.len() > 1 {
                        lemma_lex_tokens_well_formed(ms, rest, empty_token(), acc.push(cur));
                    }
                }
            }
        }
    }
}


proof fn lemma_single_char_step(ms: Seq<(TokenKind, FsmModel)>, c: char)
    requires
        standard_matchers(ms),
    ensures
        crate::fsm::fsm_step(ms[0].1, 0u32, c) == number_step(0u32, crate::fsm::FSMInput::Char(c)),
        crate::fsm::fsm_step(ms[1].1, 0u32, c) == operator_step(
            0u32,
            crate::fsm::FSMInput::Char(c),
        ),
        crate::fsm::fsm_step(ms[2].1, 0u32, c) == paren_step(0u32, crate::fsm::FSMInput::Char(c)),
{
    assert(table_lookup(ms[0].1.table, 0u32, crate::fsm::FSMInput::Char(c)) == number_step(
        0u32,
        crate::fsm::FSMInput::Char(c),
    ));
    assert(table_lookup(ms[0].1.table, 0u32, crate::fsm::FSMInput::Epsilon) == number_step(
        0u32,
        crate::fsm::FSMInput::Epsilon,
    ));
    assert(table_lookup(ms[1].1.table, 0u32, crate::fsm::FSMInput::Char(c)) == operator_step(
        0u32,
        crate::fsm::FSMInput::Char(c),
    ));
    assert(table_lookup(ms[1].1.table, 0u32, crate::fsm::FSMInput::Epsilon) == operator_step(
        0u32,
        crate::fsm::FSMInput::Epsilon,
    ));
    assert(table_lookup(ms[2].1.table, 0u32, crate::fsm::FSMInput::Char(c)) == paren_step(
        0u32,
        crate::fsm::FSMInput::Char(c),
    ));
    assert(table_lookup(ms[2].1.table, 0u32, crate::fsm::FSMInput::Epsilon) == paren_step(
        0u32,
        crate::fsm::FSMInput::Epsilon,
    ));
}

} // verus!
