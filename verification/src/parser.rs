//! The recursive-descent parser: consumes the token sequence, builds an
//! owned expression tree by eager right-recursion, and applies a single
//! precedence-rotation pass after the top-level loop.

use vstd::prelude::*;

use crate::lexer::token_models;
use crate::lexer::Token;
use crate::lexer::TokenKind;
use crate::lexer::TokenModel;

verus! {

/// An arithmetic operator.
#[derive(Debug, Clone, Copy, PartialEq, Eq, Structural)]
pub enum Operator {
    Undefined,
    Mul,
    Div,
    Plus,
    Minus,
}

/// The two parenthesis directions.
#[derive(Debug)]
pub enum Parentheses {
    Opening,
    Closing,
}

/// The owned expression tree. `Finished` is the sentinel meaning that a
/// closing parenthesis was just consumed.
#[derive(Debug)]
pub enum Expression {
    Undefined,
    Finished,
    Number(String),
    Binary { op: Operator, lhs: Box<Expression>, rhs: Box<Expression> },
    Unary { op: Operator, child: Box<Expression> },
    Group { child: Box<Expression> },
}

/// The mathematical model of an expression tree, with number text as a
/// character sequence.
#[verifier::ext_equal]
pub enum ExprModel {
    Undefined,
    Finished,
    Number(Seq<char>),
    Binary { op: Operator, lhs: Box<ExprModel>, rhs: Box<ExprModel> },
    Unary { op: Operator, child: Box<ExprModel> },
    Group { child: Box<ExprModel> },
}

pub open spec fn expr_model(e: Expression) -> ExprModel
    decreases e,
{
    match e {
        Expression::Undefined => ExprModel::Undefined,
        Expression::Finished => ExprModel::Finished,
        Expression::Number(s) => ExprModel::Number(s@),
        Expression::Binary { op, lhs, rhs } => ExprModel::Binary {
            op,
            lhs: Box::new(expr_model(*lhs)),
            rhs: Box::new(expr_model(*rhs)),
        },
        Expression::Unary { op, child } => ExprModel::Unary {
            op,
            child: Box::new(expr_model(*child)),
        },
        Expression::Group { child } => ExprModel::Group { child: Box::new(expr_model(*child)) },
    }
}

impl View for Expression {
    type V = ExprModel;

    open spec fn view(&self) -> ExprModel {
        expr_model(*self)
    }
}

pub open spec fn spec_operator_string(op: Operator) -> Seq<char> {
    match op {
        Operator::Mul => "Mul"@,
        Operator::Div => "Div"@,
        Operator::Plus => "Plus"@,
        Operator::Minus => "Minus"@,
        Operator::Undefined => "?"@,
    }
}

/// The diagnostic rendering of an expression tree.
pub open spec fn spec_expr_string(e: ExprModel) -> Seq<char>
    decreases e,
{
    match e {
        ExprModel::Number(num) => num,
        ExprModel::Binary { op, lhs, rhs } => spec_operator_string(op) + "( "@ + spec_expr_string(
            *lhs,
        ) + ", "@ + spec_expr_string(*rhs) + " )"@,
        ExprModel::Unary { op, child } => spec_operator_string(op) + "( "@ + spec_expr_string(
            *child,
        ) + " )"@,
        ExprModel::Group { child } => "GROUP( "@ + spec_expr_string(*child) + " )"@,
        ExprModel::Undefined => "???"@,
        ExprModel::Finished => "FF"@,
    }
}

impl Clone for Expression {
    /// A deep copy with the same model.
    fn clone(&self) -> (r: Self)
        ensures
            r@ == self@,
        decreases self,
    {
        match self {
            Expression::Undefined => Expression::Undefined,
            Expression::Finished => Expression::Finished,
            Expression::Number(s) => Expression::Number(s.clone()),
            Expression::Binary { op, lhs, rhs } => Expression::Binary {
                op: *op,
                lhs: Box::new((**lhs).clone()),
                rhs: Box::new((**rhs).clone()),
            },
            Expression::Unary { op, child } => Expression::Unary {
                op: *op,
                child: Box::new((**child).clone()),
            },
            Expression::Group { child } => Expression::Group {
                child: Box::new((**child).clone()),
            },
        }
    }
}

impl Operator {
    fn to_string(&self) -> (r: String)
        ensures
            r@ == spec_operator_string(*self),
    {
        match self {
            Operator::Mul => String::from_str("Mul"),
            Operator::Div => String::from_str("Div"),
            Operator::Plus => String::from_str("Plus"),
            Operator::Minus => String::from_str("Minus"),
            Operator::Undefined => String::from_str("?"),
        }
    }
}

impl Expression {
    pub fn to_string(&self) -> (r: String)
        ensures
            r@ == spec_expr_string(self@),
        decreases self,
    {
        match self {
            Expression::Number(num) => num.clone(),
            Expression::Binary { op, lhs, rhs } => {
                let mut s = op.to_string();
                s.append("( ");
                let ls = lhs.to_string();
                s.append(ls.as_str());
                s.append(", ");
                let rs = rhs.to_string();
                s.append(rs.as_str());
                s.append(" )");
                s
            }
            Expression::Unary { op, child } => {
                let mut s = op.to_string();
                s.append("( ");
                let cs = child.to_string();
                s.append(cs.as_str());
                s.append(" )");
                s
            }
            Expression::Group { child } => {
                let mut s = String::from_str("GROUP( ");
                let cs = child.to_string();
                s.append(cs.as_str());
                s.append(" )");
                s
            }
            Expression::Undefined => String::from_str("???"),
            Expression::Finished => String::from_str("FF"),
        }
    }
}

pub open spec fn mul_like(op: Operator) -> bool {
    op == Operator::Mul || op == Operator::Div
}

pub open spec fn add_like(op: Operator) -> bool {
    op == Operator::Plus || op == Operator::Minus
}

/// The single precedence-correction pass, applied exactly once after the
/// top-level loop: a multiplicative node whose right child is an additive
/// node is rotated so that the multiplication binds the two inner operands.
/// It corrects exactly one level and nothing deeper.
pub open spec fn spec_rotate(e: ExprModel) -> ExprModel {
    match e {
        ExprModel::Binary { op, lhs, rhs } => {
            if mul_like(op) {
                match *rhs {
                    ExprModel::Binary { op: rop, lhs: rlhs, rhs: rrhs } => {
                        if add_like(rop) {
                            ExprModel::Binary {
                                op: rop,
                                lhs: Box::new(ExprModel::Binary { op, lhs, rhs: rlhs }),
                                rhs: rrhs,
                            }
                        } else {
                            e
                        }
                    }
                    _ => e,
                }
            } else {
                e
            }
        }
        _ => e,
    }
}

/// What the parser makes of a token value in operator position.
pub open spec fn spec_binary_operator(v: Seq<char>) -> Option<Operator> {
    if v == "-"@ {
        Some(Operator::Minus)
    } else if v == "+"@ {
        Some(Operator::Plus)
    } else if v == "*"@ {
        Some(Operator::Mul)
    } else if v == "/"@ {
        Some(Operator::Div)
    } else {
        None
    }
}

/// What the parser makes of a token value in unary-operator position.
pub open spec fn spec_unary_operator(v: Seq<char>) -> Option<Operator> {
    if v == "-"@ {
        Some(Operator::Minus)
    } else if v == "+"@ {
        Some(Operator::Plus)
    } else {
        None
    }
}

pub open spec fn msg_no_instruction() -> Seq<char> {
    "there's no parsing instruction for token kind Undefined"@
}

pub open spec fn msg_operator_not_defined(v: Seq<char>) -> Seq<char> {
    "operator "@ + v + " not defined"@
}

pub open spec fn msg_cannot_be_unary(v: Seq<char>) -> Seq<char> {
    v + " cannot be unary operator"@
}

pub open spec fn msg_invalid_unary_child(e: ExprModel) -> Seq<char> {
    "child "@ + spec_expr_string(e) + " cannot be child of unary operator"@
}

pub open spec fn msg_child_failed(err: Seq<char>) -> Seq<char> {
    "parsing child failed with error: "@ + err
}

pub open spec fn msg_missing_unary_child() -> Seq<char> {
    "unary operator without operand"@
}

pub open spec fn msg_undefined_group_child() -> Seq<char> {
    "undefined child of group node"@
}

pub open spec fn msg_parenthesis_not_defined(v: Seq<char>) -> Seq<char> {
    "parenthesis "@ + v + " is not defined"@
}

pub open spec fn msg_failed_node(e: ExprModel) -> Seq<char> {
    "failed to parse node "@ + spec_expr_string(e)
}

/// What one parsing step leaves behind: the produced tree or error message,
/// the cursor, and the pending-group flag.
#[verifier::ext_equal]
pub struct ParseOutcome {
    pub result: Result<ExprModel, Seq<char>>,
    pub pos: int,
    pub group: bool,
}

/// How many tokens are still unread; the termination measure of the parser.
pub open spec fn remaining(toks: Seq<TokenModel>, pos: int) -> int {
    if 0 <= pos <= toks.len() {
        toks.len() - pos
    } else {
        0
    }
}

pub open spec fn group_rank(group: bool) -> int {
    if group {
        1
    } else {
        0
    }
}

/// Parsing a number token: a leaf with the token's text; the cursor
/// advances one token.
pub open spec fn spec_parse_number(toks: Seq<TokenModel>, pos: int, group: bool) -> ParseOutcome {
    let e = if toks[pos].kind == TokenKind::Number {
        ExprModel::Number(toks[pos].value)
    } else {
        ExprModel::Undefined
    };
    ParseOutcome { result: Ok(e), pos: pos + 1, group }
}

/// Parsing a binary operator: the whole right-hand side is parsed eagerly
/// by the top-level routine, and the produced node carries a placeholder
/// left operand for the caller to fill in.
pub open spec fn spec_parse_binary(toks: Seq<TokenModel>, pos: int, group: bool) -> ParseOutcome
    decreases remaining(toks, pos), group_rank(group), 1int,
{
    if !(0 <= pos < toks.len()) {
        ParseOutcome { result: Err(Seq::empty()), pos, group }
    } else {
        match spec_binary_operator(toks[pos].value) {
            None => ParseOutcome {
                result: Err(msg_operator_not_defined(toks[pos].value)),
                pos,
                group,
            },
            Some(op) => {
                let inner = spec_parse(toks, pos + 1, group);
                match inner.result {
                    Ok(rhs) => ParseOutcome {
                        result: Ok(
                            ExprModel::Binary {
                                op,
                                lhs: Box::new(ExprModel::Undefined),
                                rhs: Box::new(rhs),
                            },
                        ),
                        pos: inner.pos,
                        group: inner.group,
                    },
                    Err(e) => ParseOutcome { result: Err(e), pos: inner.pos, group: inner.group },
                }
            }
        }
    }
}

/// Parsing a unary operator: only `-` and `+` may be unary, and only a
/// number or a group may stand under one.
pub open spec fn spec_parse_unary(toks: Seq<TokenModel>, pos: int, group: bool) -> ParseOutcome
    decreases remaining(toks, pos), group_rank(group), 1int,
{
    if !(0 <= pos < toks.len()) {
        ParseOutcome { result: Err(Seq::empty()), pos, group }
    } else {
        match spec_unary_operator(toks[pos].value) {
            None => ParseOutcome { result: Err(msg_cannot_be_unary(toks[pos].value)), pos, group },
            Some(op) => {
                if pos + 1 >= toks.len() {
                    ParseOutcome { result: Err(msg_missing_unary_child()), pos: pos + 1, group }
                } else {
                    let step = spec_parse_one(toks, pos + 1, group);
                    match step.result {
                        Err(e) => ParseOutcome {
                            result: Err(msg_child_failed(e)),
                            pos: step.pos,
                            group: step.group,
                        },
                        Ok(child) => {
                            if child is Number {
                                ParseOutcome {
                                    result: Ok(ExprModel::Unary { op, child: Box::new(child) }),
                                    pos: step.pos,
                                    group: step.group,
                                }
                            } else if child is Group {
                                ParseOutcome {
                                    result: Ok(ExprModel::Unary { op, child: Box::new(child) }),
                                    pos: step.pos,
                                    group: false,
                                }
                            } else {
                                ParseOutcome {
                                    result: Err(msg_invalid_unary_child(child)),
                                    pos: step.pos,
                                    group: step.group,
                                }
                            }
                        }
                    }
                }
            }
        }
    }
}

/// Parsing a parenthesis token: an opening one wraps a recursive top-level
/// parse in a group and rejects an empty group; a closing one sets the
/// pending-group flag and yields the `Finished` sentinel.
pub open spec fn spec_parse_parenthesis(
    toks: Seq<TokenModel>,
    pos: int,
    group: bool,
) -> ParseOutcome
    decreases remaining(toks, pos), group_rank(group), 1int,
{
    if !(0 <= pos < toks.len()) {
        ParseOutcome { result: Err(Seq::empty()), pos, group }
    } else if toks[pos].kind == TokenKind::Parenthesis {
        if toks[pos].value == "("@ {
            let inner = spec_parse(toks, pos + 1, group);
            match inner.result {
                Ok(node) => {
                    if node is Undefined {
                        ParseOutcome {
                            result: Err(msg_undefined_group_child()),
                            pos: inner.pos,
                            group: inner.group,
                        }
                    } else {
                        ParseOutcome {
                            result: Ok(ExprModel::Group { child: Box::new(node) }),
                            pos: inner.pos,
                            group: inner.group,
                        }
                    }
                }
                Err(e) => ParseOutcome { result: Err(e), pos: inner.pos, group: inner.group },
            }
        } else if toks[pos].value == ")"@ {
            ParseOutcome { result: Ok(ExprModel::Finished), pos: pos + 1, group: true }
        } else {
            ParseOutcome {
                result: Err(msg_parenthesis_not_defined(toks[pos].value)),
                pos,
                group,
            }
        }
    } else {
        ParseOutcome { result: Ok(ExprModel::Undefined), pos, group }
    }
}

/// One parsing step, dispatched on the class of the current token. An
/// operator is binary after a number or a closing parenthesis and unary
/// otherwise.
pub open spec fn spec_parse_one(toks: Seq<TokenModel>, pos: int, group: bool) -> ParseOutcome
    decreases remaining(toks, pos), group_rank(group), 2int,
{
    if !(0 <= pos < toks.len()) {
        ParseOutcome { result: Err(Seq::empty()), pos, group }
    } else {
        match toks[pos].kind {
            TokenKind::Number => spec_parse_number(toks, pos, group),
            TokenKind::Operator => {
                let prev = toks[if pos > 0 {
                    pos - 1
                } else {
                    0
                }];
                if (prev.kind == TokenKind::Parenthesis && prev.value == ")"@) || prev.kind
                    == TokenKind::Number {
                    spec_parse_binary(toks, pos, group)
                } else {
                    spec_parse_unary(toks, pos, group)
                }
            }
            TokenKind::Parenthesis => spec_parse_parenthesis(toks, pos, group),
            TokenKind::Undefined => ParseOutcome {
                result: Err(msg_no_instruction()),
                pos,
                group,
            },
        }
    }
}

/// The top-level parsing loop with its accumulator. With the pending-group
/// flag set, a completed group clears the flag, an empty accumulator parses
/// on, and anything else returns at once, without the rotation pass. The
/// loop otherwise folds one step into the accumulator: a binary node takes
/// the accumulator as its left operand, any other completed node replaces
/// the accumulator outright, and the `Finished` sentinel ends the loop. The
/// rotation pass runs only where the loop ends by `Finished` or by running
/// out of tokens.
pub open spec fn spec_parse_loop(
    toks: Seq<TokenModel>,
    pos: int,
    group: bool,
    current: ExprModel,
) -> ParseOutcome
    decreases remaining(toks, pos), group_rank(group), 3int,
{
    if !(0 <= pos < toks.len()) {
        ParseOutcome { result: Ok(spec_rotate(current)), pos, group }
    } else if group && current is Group {
        spec_parse_loop(toks, pos, false, current)
    } else if group && !(current is Undefined) {
        ParseOutcome { result: Ok(current), pos, group }
    } else {
        let step = spec_parse_one(toks, pos, group);
        match step.result {
            Err(e) => ParseOutcome { result: Err(e), pos: step.pos, group: step.group },
            Ok(node) => {
                if node is Finished {
                    ParseOutcome {
                        result: Ok(spec_rotate(current)),
                        pos: step.pos,
                        group: step.group,
                    }
                } else if node is Undefined {
                    ParseOutcome {
                        result: Err(msg_failed_node(node)),
                        pos: step.pos,
                        group: step.group,
                    }
                } else {
                    let folded = match node {
                        ExprModel::Binary { op, lhs: _, rhs } => ExprModel::Binary {
                            op,
                            lhs: Box::new(current),
                            rhs,
                        },
                        _ => node,
                    };
                    if step.pos > pos {
                        spec_parse_loop(toks, step.pos, step.group, folded)
                    } else {
                        ParseOutcome { result: Err(Seq::empty()), pos: step.pos, group: step.group }
                    }
                }
            }
        }
    }
}

/// A whole top-level parse: the loop from an empty accumulator.
pub open spec fn spec_parse(toks: Seq<TokenModel>, pos: int, group: bool) -> ParseOutcome
    decreases remaining(toks, pos), group_rank(group), 4int,
{
    spec_parse_loop(toks, pos, group, ExprModel::Undefined)
}

/// The mathematical model of a parser: the token models, the cursor, and
/// the pending-group flag.
#[verifier::ext_equal]
pub struct ParserModel {
    pub tokens: Seq<TokenModel>,
    pub group: bool,
    pub pos: int,
}

/// The cursor-based recursive-descent parser.
pub struct Parser {
    tokens: Vec<Token>,
    group: bool,
    pos: usize,
}

impl View for Parser {
    type V = ParserModel;

    closed spec fn view(&self) -> ParserModel {
        ParserModel { tokens: token_models(self.tokens@), group: self.group, pos: self.pos as int }
    }
}

fn str_is(v: &String, w: &str) -> (b: bool)
    ensures
        b == (v@ == w@),
{
    let ws = String::from_str(w);
    v.eq(&ws)
}

/// Applies the precedence rotation exactly once, at the root.
fn rotate_once(e: Expression) -> (r: Expression)
    ensures
        r@ == spec_rotate(e@),
{
    let ghost em = e@;
    match e {
        Expression::Binary { op, lhs, rhs } => {
            let is_mul = matches!(op, Operator::Mul | Operator::Div);
            if is_mul {
                let ghost lm = lhs@;
                let ghost rm = rhs@;
                proof {
                    assert(em == (ExprModel::Binary {
                        op,
                        lhs: Box::new(lm),
                        rhs: Box::new(rm),
                    }));
                }
                match *rhs {
                    Expression::Binary { op: rop, lhs: rlhs, rhs: rrhs } => {
                        let is_add = matches!(rop, Operator::Plus | Operator::Minus);
                        proof {
                            assert(rm == (ExprModel::Binary {
                                op: rop,
                                lhs: Box::new(rlhs@),
                                rhs: Box::new(rrhs@),
                            }));
                        }
                        if is_add {
                            let ghost rlm = rlhs@;
                            let ghost rrm = rrhs@;
                            let new_lhs = Expression::Binary { op, lhs, rhs: rlhs };
                            let ghost nlm = new_lhs@;
                            proof {
                                assert(nlm == (ExprModel::Binary {
                                    op,
                                    lhs: Box::new(lm),
                                    rhs: Box::new(rlm),
                                }));
                            }
                            let r = Expression::Binary {
                                op: rop,
                                lhs: Box::new(new_lhs),
                                rhs: rrhs,
                            };
                            proof {
                                assert(r@ == (ExprModel::Binary {
                                    op: rop,
                                    lhs: Box::new(nlm),
                                    rhs: Box::new(rrm),
                                }));
                                assert(r@ =~~= spec_rotate(em));
                            }
                            r
                        } else {
                            let r = Expression::Binary {
                                op,
                                lhs,
                                rhs: Box::new(
                                    Expression::Binary { op: rop, lhs: rlhs, rhs: rrhs },
                                ),
                            };
                            proof {
                                assert(r@ =~~= spec_rotate(em));
                            }
                            r
                        }
                    }
                    other => {
                        let r = Expression::Binary { op, lhs, rhs: Box::new(other) };
                        proof {
                            assert(r@ =~~= spec_rotate(em));
                        }
                        r
                    }
                }
            } else {
                let r = Expression::Binary { op, lhs, rhs };
                proof {
                    assert(r@ =~~= spec_rotate(em));
                }
                r
            }
        }
        other => other,
    }
}

impl Parser {
    pub fn new(tokens: Vec<Token>) -> (r: Parser)
        ensures
            r@.tokens == token_models(tokens@),
            r@.group == false,
            r@.pos == 0,
    {
        Parser { tokens, group: false, pos: 0 }
    }

    /// The top-level parse: loops over `parse_one`, folding each node into
    /// the accumulator, then applies the precedence rotation once; exactly
    /// what `spec_parse` says of the starting state.
    #[verifier::loop_isolation(false)]
    pub fn parse(&mut self) -> (r: Result<Expression, String>)
        ensures
            final(self)@.tokens == old(self)@.tokens,
            old(self)@.pos <= final(self)@.pos,
            old(self)@.pos <= old(self)@.tokens.len() ==> final(self)@.pos <= old(
                self,
            )@.tokens.len(),
            old(self)@.pos > old(self)@.tokens.len() ==> final(self)@.pos == old(self)@.pos,
            ({
                let o = spec_parse(old(self)@.tokens, old(self)@.pos, old(self)@.group);
                &&& final(self)@.pos == o.pos
                &&& final(self)@.group == o.group
                &&& match (r, o.result) {
                    (Ok(e), Ok(v)) => e@ == v,
                    (Err(m), Err(v)) => m@ == v,
                    _ => false,
                }
            }),
        decreases remaining(self@.tokens, self@.pos), group_rank(self@.group), 4int,
    {
        let ghost toks = self@.tokens;
        let ghost pos0 = self@.pos;
        let ghost group0 = self@.group;
        let mut current = Expression::Undefined;
        let mut finished = false;

        while !finished && self.pos < self.tokens.len()
            invariant
                self@.tokens == toks,
                pos0 <= self@.pos,
                self@.pos <= toks.len() || self@.pos == pos0,
                self@.pos > pos0 || (self@.pos == pos0 && group_rank(self@.group) <= group_rank(
                    group0,
                )),
                !finished ==> spec_parse_loop(toks, pos0, group0, ExprModel::Undefined)
                    == spec_parse_loop(toks, self@.pos, self@.group, current@),
                finished ==> spec_parse_loop(toks, pos0, group0, ExprModel::Undefined) == (
                ParseOutcome {
                    result: Ok(spec_rotate(current@)),
                    pos: self@.pos,
                    group: self@.group,
                }),
            decreases remaining(toks, self@.pos), group_rank(self@.group),
        {
            if self.group && matches!(current, Expression::Group { .. }) {
                self.group = false;
            } else if self.group && !matches!(current, Expression::Undefined) {
                return Ok(current);
            } else {
                let ghost prev_pos = self@.pos;
                let ghost prev_group = self@.group;
                let step = self.parse_one();
                match step {
                    Err(e) => {
                        return Err(e);
                    }
                    Ok(node) => {
                        let ghost node_model = node@;
                        if matches!(node, Expression::Finished) {
                            finished = true;
                        } else if matches!(node, Expression::Undefined) {
                            let mut m = String::from_str("failed to parse node ");
                            let ns = node.to_string();
                            m.append(ns.as_str());
                            return Err(m);
                        } else {
                            match node {
                                Expression::Binary { op, lhs: _, rhs } => {
                                    let prev = current;
                                    current = Expression::Binary {
                                        op,
                                        lhs: Box::new(prev),
                                        rhs,
                                    };
                                }
                                other => {
                                    current = other;
                                }
                            }
                        }
                    }
                }
            }
        }
        let rotated = rotate_once(current);
        Ok(rotated)
    }

    /// One parsing step at the cursor, dispatched on the token's class;
    /// exactly what `spec_parse_one` says of the starting state.
    pub fn parse_one(&mut self) -> (r: Result<Expression, String>)
        requires
            old(self)@.pos < old(self)@.tokens.len(),
        ensures
            final(self)@.tokens == old(self)@.tokens,
            old(self)@.pos <= final(self)@.pos,
            final(self)@.pos <= old(self)@.tokens.len(),
            r is Ok ==> final(self)@.pos > old(self)@.pos,
            ({
                let o = spec_parse_one(old(self)@.tokens, old(self)@.pos, old(self)@.group);
                &&& final(self)@.pos == o.pos
                &&& final(self)@.group == o.group
                &&& match (r, o.result) {
                    (Ok(e), Ok(v)) => e@ == v,
                    (Err(m), Err(v)) => m@ == v,
                    _ => false,
                }
            }),
        decreases remaining(self@.tokens, self@.pos), group_rank(self@.group), 2int,
    {
        proof {
            assert(self@.tokens.len() == self.tokens@.len());
            assert(self@.tokens[self@.pos] == self.tokens@[self@.pos]@);
        }
        let kind = self.tokens[self.pos].kind();
        match kind {
            TokenKind::Number => self.parse_number(),
            TokenKind::Operator => {
                let prev_token_pos: usize = if self.pos > 0 {
                    self.pos - 1
                } else {
                    0
                };
                proof {
                    assert(self@.tokens[prev_token_pos as int] == self.tokens@[
                    prev_token_pos as int]@);
                }
                let prev_kind = self.tokens[prev_token_pos].kind();
                let binary = match prev_kind {
                    TokenKind::Parenthesis => {
                        let pv = self.tokens[prev_token_pos].value();
                        str_is(&pv, ")")
                    }
                    TokenKind::Number => true,
                    _ => false,
                };
                if binary {
                    self.parse_binary_expr()
                } else {
                    self.parse_unary_expr()
                }
            }
            TokenKind::Parenthesis => self.parse_parenthesis(),
            TokenKind::Undefined => Err(
                String::from_str("there's no parsing instruction for token kind Undefined"),
            ),
        }
    }

    /// Parses the number token at the cursor into a leaf; exactly what
    /// `spec_parse_number` says.
    pub fn parse_number(&mut self) -> (r: Result<Expression, String>)
        requires
            old(self)@.pos < old(self)@.tokens.len(),
        ensures
            final(self)@.tokens == old(self)@.tokens,
            final(self)@.pos == old(self)@.pos + 1,
            final(self)@.group == old(self)@.group,
            ({
                let o = spec_parse_number(old(self)@.tokens, old(self)@.pos, old(self)@.group);
                &&& final(self)@.pos == o.pos
                &&& final(self)@.group == o.group
                &&& match (r, o.result) {
                    (Ok(e), Ok(v)) => e@ == v,
                    _ => false,
                }
            }),
    {
        proof {
            assert(self@.tokens.len() == self.tokens@.len());
            assert(self@.tokens[self@.pos] == self.tokens@[self@.pos]@);
        }
        let end: usize = self.tokens.len();
        assert(self.pos < end);
        let new_expr: Expression;
        if matches!(self.tokens[self.pos].kind(), TokenKind::Number) {
            new_expr = Expression::Number(self.tokens[self.pos].value());
        } else {
            new_expr = Expression::Undefined;
        }
        self.pos = self.pos + 1;
        Ok(new_expr)
    }

    /// Parses the operator token at the cursor as a binary operator whose
    /// right-hand side is parsed eagerly; exactly what `spec_parse_binary`
    /// says.
    pub fn parse_binary_expr(&mut self) -> (r: Result<Expression, String>)
        requires
            old(self)@.pos < old(self)@.tokens.len(),
        ensures
            final(self)@.tokens == old(self)@.tokens,
            old(self)@.pos <= final(self)@.pos,
            final(self)@.pos <= old(self)@.tokens.len(),
            r is Ok ==> final(self)@.pos > old(self)@.pos,
            ({
                let o = spec_parse_binary(old(self)@.tokens, old(self)@.pos, old(self)@.group);
                &&& final(self)@.pos == o.pos
                &&& final(self)@.group == o.group
                &&& match (r, o.result) {
                    (Ok(e), Ok(v)) => e@ == v,
                    (Err(m), Err(v)) => m@ == v,
                    _ => false,
                }
            }),
        decreases remaining(self@.tokens, self@.pos), group_rank(self@.group), 1int,
    {
        proof {
            assert(self@.tokens.len() == self.tokens@.len());
            assert(self@.tokens[self@.pos] == self.tokens@[self@.pos]@);
        }
        let end: usize = self.tokens.len();
        assert(self.pos < end);
        let v = self.tokens[self.pos].value();
        let operator: Operator;
        if str_is(&v, "-") {
            operator = Operator::Minus;
        } else if str_is(&v, "+") {
            operator = Operator::Plus;
        } else if str_is(&v, "*") {
            operator = Operator::Mul;
        } else if str_is(&v, "/") {
            operator = Operator::Div;
        } else {
            let mut m = String::from_str("operator ");
            m.append(v.as_str());
            m.append(" not defined");
            return Err(m);
        }
        self.pos = self.pos + 1;
        match self.parse() {
            Ok(rhs) => {
                proof {
                    assert(expr_model(Expression::Undefined) == ExprModel::Undefined);
                }
                Ok(
                    Expression::Binary {
                        op: operator,
                        lhs: Box::new(Expression::Undefined),
                        rhs: Box::new(rhs),
                    },
                )
            }
            Err(err) => Err(err),
        }
    }

    /// Parses the operator token at the cursor as a unary operator over the
    /// next parsed node; exactly what `spec_parse_unary` says.
    pub fn parse_unary_expr(&mut self) -> (r: Result<Expression, String>)
        requires
            old(self)@.pos < old(self)@.tokens.len(),
        ensures
            final(self)@.tokens == old(self)@.tokens,
            old(self)@.pos <= final(self)@.pos,
            final(self)@.pos <= old(self)@.tokens.len(),
            r is Ok ==> final(self)@.pos > old(self)@.pos,
            ({
                let o = spec_parse_unary(old(self)@.tokens, old(self)@.pos, old(self)@.group);
                &&& final(self)@.pos == o.pos
                &&& final(self)@.group == o.group
                &&& match (r, o.result) {
                    (Ok(e), Ok(v)) => e@ == v,
                    (Err(m), Err(v)) => m@ == v,
                    _ => false,
                }
            }),
        decreases remaining(self@.tokens, self@.pos), group_rank(self@.group), 1int,
    {
        proof {
            assert(self@.tokens.len() == self.tokens@.len());
            assert(self@.tokens[self@.pos] == self.tokens@[self@.pos]@);
        }
        let end: usize = self.tokens.len();
        assert(self.pos < end);
        let v = self.tokens[self.pos].value();
        let operator: Operator;
        if str_is(&v, "-") {
            operator = Operator::Minus;
        } else if str_is(&v, "+") {
            operator = Operator::Plus;
        } else {
            let mut m = v;
            m.append(" cannot be unary operator");
            return Err(m);
        }
        self.pos = self.pos + 1;
        if self.pos >= self.tokens.len() {
            // the token stream ends at the operator; there is no child to
            // parse, so report instead of running past the end
            return Err(String::from_str("unary operator without operand"));
        }
        let child = self.parse_one();
        match child {
            Ok(child) => {
                if matches!(child, Expression::Number(_)) {
                    Ok(Expression::Unary { op: operator, child: Box::new(child) })
                } else if matches!(child, Expression::Group { .. }) {
                    self.group = false;
                    Ok(Expression::Unary { op: operator, child: Box::new(child) })
                } else {
                    let mut m = String::from_str("child ");
                    let cs = child.to_string();
                    m.append(cs.as_str());
                    m.append(" cannot be child of unary operator");
                    Err(m)
                }
            }
            Err(err) => {
                let mut m = String::from_str("parsing child failed with error: ");
                m.append(err.as_str());
                Err(m)
            }
        }
    }

    /// Parses the parenthesis token at the cursor: an opening one wraps a
    /// recursive parse in a group, a closing one yields the `Finished`
    /// sentinel and sets the pending-group flag; exactly what
    /// `spec_parse_parenthesis` says.
    pub fn parse_parenthesis(&mut self) -> (r: Result<Expression, String>)
        requires
            old(self)@.pos < old(self)@.tokens.len(),
        ensures
            final(self)@.tokens == old(self)@.tokens,
            old(self)@.pos <= final(self)@.pos,
            final(self)@.pos <= old(self)@.tokens.len(),
            (r is Ok && old(self)@.tokens[old(self)@.pos].kind == TokenKind::Parenthesis)
                ==> final(self)@.pos > old(self)@.pos,
            ({
                let o = spec_parse_parenthesis(old(self)@.tokens, old(self)@.pos, old(self)@.group);
                &&& final(self)@.pos == o.pos
                &&& final(self)@.group == o.group
                &&& match (r, o.result) {
                    (Ok(e), Ok(v)) => e@ == v,
                    (Err(m), Err(v)) => m@ == v,
                    _ => false,
                }
            }),
        decreases remaining(self@.tokens, self@.pos), group_rank(self@.group), 1int,
    {
        proof {
            assert(self@.tokens.len() == self.tokens@.len());
            assert(self@.tokens[self@.pos] == self.tokens@[self@.pos]@);
        }
        let end: usize = self.tokens.len();
        assert(self.pos < end);
        if matches!(self.tokens[self.pos].kind(), TokenKind::Parenthesis) {
            let v = self.tokens[self.pos].value();
            if str_is(&v, "(") {
                self.pos = self.pos + 1;
                match self.parse() {
                    Ok(node) => {
                        if matches!(node, Expression::Undefined) {
                            return Err(String::from_str("undefined child of group node"));
                        }
                        Ok(Expression::Group { child: Box::new(node) })
                    }
                    Err(err) => Err(err),
                }
            } else if str_is(&v, ")") {
                self.pos = self.pos + 1;
                self.group = true;
                Ok(Expression::Finished)
            } else {
                let mut m = String::from_str("parenthesis ");
                m.append(v.as_str());
                m.append(" is not defined");
                Err(m)
            }
        } else {
            Ok(Expression::Undefined)
        }
    }
}

} // verus!
