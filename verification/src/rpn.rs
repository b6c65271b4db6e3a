//! Expressions in postfix order: reading them and evaluating them.

use crate::float::Float;
use crate::lexeme::{Lexeme, LexemeView, ParseError, ParseFailure};
use crate::math::{Arithmetic, ExecError, MathOperator, Outcome, Value};
use crate::utils::characters;
use vstd::prelude::*;

verus! {

/// A token of an expression in postfix order.
#[derive(Clone, Copy, Debug, PartialEq)]
pub enum RpnItem {
    Operand(Float),
    Boolean(bool),
    Operator(MathOperator),
}

/// An evaluation that has come part of the way through its tokens.
#[derive(Clone, Debug, PartialEq)]
pub struct Evaluation {
    /// The values that have not been used yet, the latest last.
    pub stack: Vec<Value>,
    /// The number of tokens that have been applied.
    pub position: usize,
}

/// Where an evaluation has come to.
pub struct Run {
    /// The value that the tokens come to, the arithmetic that has to be
    /// carried out before the evaluation can go on, or the error.
    pub result: Result<Outcome, ExecError>,
    /// The stack then.
    pub stack: Seq<Value>,
    /// The number of tokens applied then.
    pub position: nat,
}

impl RpnItem {
    /// The token that a word is: a number where the word denotes one, else a
    /// boolean where it is `true` or `false`, else the operator whose symbol
    /// it is.
    pub open spec fn of_lexeme(lexeme: LexemeView) -> Result<RpnItem, ParseFailure> {
        if lexeme.number is Some {
            Ok(RpnItem::Operand(lexeme.number->0))
        } else if lexeme.text == seq!['t', 'r', 'u', 'e'] {
            Ok(RpnItem::Boolean(true))
        } else if lexeme.text == seq!['f', 'a', 'l', 's', 'e'] {
            Ok(RpnItem::Boolean(false))
        } else if MathOperator::of_symbol(lexeme.text) is Some {
            Ok(RpnItem::Operator(MathOperator::of_symbol(lexeme.text)->0))
        } else {
            Err(ParseFailure::of_word(lexeme.text))
        }
    }

    /// The stack after the token has been applied to it: a number or a
    /// boolean is put on it, an operator is applied.
    pub open spec fn stack_after(self, stack: Seq<Value>) -> Seq<Value> {
        match self {
            RpnItem::Operand(n) => stack.push(Value::Number(n)),
            RpnItem::Boolean(b) => stack.push(Value::Boolean(b)),
            RpnItem::Operator(op) => op.stack_after(stack),
        }
    }

    /// The arithmetic that applying the token leaves to be carried out, if
    /// any, or the reason why the token cannot be applied.
    pub open spec fn request(self, stack: Seq<Value>) -> Result<Option<Arithmetic>, ExecError> {
        match self {
            RpnItem::Operator(op) => op.request(stack),
            _ => Ok(None),
        }
    }

    /// Reads a token from a word.
    pub fn from_lexeme(lexeme: &Lexeme) -> (r: Result<RpnItem, ParseError>)
        ensures
            match r {
                Ok(item) => RpnItem::of_lexeme(lexeme@) == Ok::<RpnItem, ParseFailure>(item),
                Err(e) => RpnItem::of_lexeme(lexeme@) == Err::<RpnItem, ParseFailure>(e@),
            },
    {
        if let Some(n) = lexeme.number {
            return Ok(RpnItem::Operand(n));
        }
        let text = characters(lexeme.text.as_str());
        if text.len() == 4 && text[0] == 't' && text[1] == 'r' && text[2] == 'u' && text[3] == 'e' {
            assert(text@ == seq!['t', 'r', 'u', 'e']);
            return Ok(RpnItem::Boolean(true));
        }
        if text.len() == 5 && text[0] == 'f' && text[1] == 'a' && text[2] == 'l' && text[3] == 's'
            && text[4] == 'e' {
            assert(text@ == seq!['f', 'a', 'l', 's', 'e']);
            return Ok(RpnItem::Boolean(false));
        }
        match MathOperator::from_str(lexeme.text.as_str()) {
            Ok(op) => Ok(RpnItem::Operator(op)),
            Err(_) => Err(ParseError::of_word(lexeme.text.as_str())),
        }
    }
}

/// What a stack comes to when no token is left: its one value.
pub open spec fn final_value(stack: Seq<Value>) -> Result<Value, ExecError> {
    if stack.len() == 1 {
        Ok(stack[0])
    } else {
        Err(ExecError::TooManyOperands)
    }
}

/// An evaluation from a given stack and position up to where it stops: at
/// the first token that fails, after the first token that leaves arithmetic
/// to be carried out, or at the end of the tokens.
pub open spec fn run(tokens: Seq<RpnItem>, stack: Seq<Value>, position: nat) -> Run
    decreases tokens.len() - position,
{
    if position >= tokens.len() {
        Run {
            result: match final_value(stack) {
                Ok(v) => Ok(Outcome::Value(v)),
                Err(e) => Err(e),
            },
            stack,
            position,
        }
    } else {
        let token = tokens[position as int];
        let next = token.stack_after(stack);
        match token.request(stack) {
            Ok(None) => run(tokens, next, position + 1),
            Ok(Some(a)) => Run { result: Ok(Outcome::Pending(a)), stack: next, position: position + 1 },
            Err(e) => Run { result: Err(e), stack: next, position: position + 1 },
        }
    }
}

/// The stack with the number on it that arithmetic has come to.
pub open spec fn answered(stack: Seq<Value>, answer: Option<Float>) -> Seq<Value> {
    match answer {
        Some(x) => stack.push(Value::Number(x)),
        None => stack,
    }
}

/// The stack that a token leaves when `f` carries out the arithmetic.
pub open spec fn applied(
    token: RpnItem,
    stack: Seq<Value>,
    f: spec_fn(Arithmetic) -> Float,
) -> Result<Seq<Value>, ExecError> {
    match token.request(stack) {
        Ok(Some(a)) => Ok(token.stack_after(stack).push(Value::Number(f(a)))),
        Ok(None) => Ok(token.stack_after(stack)),
        Err(e) => Err(e),
    }
}

/// The stack that the tokens leave when they are applied from left to right
/// to an empty stack and `f` carries out the arithmetic, or the error of the
/// first token that cannot be applied.
pub open spec fn stack_of(tokens: Seq<RpnItem>, f: spec_fn(Arithmetic) -> Float) -> Result<
    Seq<Value>,
    ExecError,
>
    decreases tokens.len(),
{
    if tokens.len() == 0 {
        Ok(Seq::empty())
    } else {
        match stack_of(tokens.drop_last(), f) {
            Ok(stack) => applied(tokens.last(), stack, f),
            Err(e) => Err(e),
        }
    }
}

/// The value of an expression in postfix order when `f` carries out the
/// arithmetic: the one value that its tokens leave on the stack.
pub open spec fn value_of(tokens: Seq<RpnItem>, f: spec_fn(Arithmetic) -> Float) -> Result<
    Value,
    ExecError,
> {
    match stack_of(tokens, f) {
        Ok(stack) => final_value(stack),
        Err(e) => Err(e),
    }
}

/// Once a token has failed, the tokens after it change nothing.
pub proof fn lemma_error_stays(tokens: Seq<RpnItem>, n: int, f: spec_fn(Arithmetic) -> Float)
    requires
        0 <= n <= tokens.len(),
        stack_of(tokens.take(n), f) is Err,
    ensures
        stack_of(tokens, f) == stack_of(tokens.take(n), f),
    decreases tokens.len() - n,
{
    if n < tokens.len() {
        assert(tokens.take(n + 1).drop_last() == tokens.take(n));
        lemma_error_stays(tokens, n + 1, f);
    } else {
        assert(tokens.take(n) == tokens);
    }
}

/// An evaluation whose arithmetic is answered by `f` computes the value of
/// the expression under `f`, whatever the arithmetic is.
///
/// Let an evaluation stand where the first `position` tokens, with `f` for
/// arithmetic, have left `stack`; it does at the start, with no token applied
/// and an empty stack. Where it then stops with a value or an error, that is
/// the value or the error of the whole expression under `f`. Where it stops
/// for arithmetic `a`, it has applied at least one more token, and with the
/// number `f(a)` on its stack it stands again where the tokens applied so
/// far have left that stack.
pub proof fn lemma_run_computes_value(
    tokens: Seq<RpnItem>,
    stack: Seq<Value>,
    position: nat,
    f: spec_fn(Arithmetic) -> Float,
)
    requires
        position <= tokens.len(),
        stack_of(tokens.take(position as int), f) == Ok::<Seq<Value>, ExecError>(stack),
    ensures
        match run(tokens, stack, position).result {
            Ok(Outcome::Value(v)) => value_of(tokens, f) == Ok::<Value, ExecError>(v),
            Ok(Outcome::Pending(a)) => {
                let stop = run(tokens, stack, position);
                &&& position < stop.position <= tokens.len()
                &&& stack_of(tokens.take(stop.position as int), f) == Ok::<Seq<Value>, ExecError>(
                    stop.stack.push(Value::Number(f(a))),
                )
            },
            Err(e) => value_of(tokens, f) == Err::<Value, ExecError>(e),
        },
    decreases tokens.len() - position,
{
    if position >= tokens.len() {
        assert(tokens.take(position as int) == tokens);
    } else {
        let token = tokens[position as int];
        assert(tokens.take(position as int + 1).drop_last() == tokens.take(position as int));
        match token.request(stack) {
            Ok(None) => {
                lemma_run_computes_value(tokens, token.stack_after(stack), position + 1, f);
            },
            Ok(Some(a)) => {},
            Err(e) => {
                lemma_error_stays(tokens, position as int + 1, f);
            },
        }
    }
}

impl Evaluation {
    /// An evaluation that has not begun.
    pub fn new() -> (state: Evaluation)
        ensures
            state.stack@ == Seq::<Value>::empty(),
            state.position == 0,
    {
        Evaluation { stack: Vec::new(), position: 0 }
    }
}

/// Reads the tokens of an expression in postfix order from its words. The
/// first word that is no token gives the error.
pub fn parse_rpn(lexemes: &[Lexeme]) -> (r: Result<Vec<RpnItem>, ParseError>)
    ensures
        match r {
            Ok(items) => {
                &&& items@.len() == lexemes@.len()
                &&& forall|i: int|
                    0 <= i < lexemes@.len() ==> RpnItem::of_lexeme(#[trigger] lexemes@[i]@) == Ok::<
                        RpnItem,
                        ParseFailure,
                    >(items@[i])
            },
            Err(e) => exists|i: int|
                {
                    &&& 0 <= i < lexemes@.len()
                    &&& RpnItem::of_lexeme(#[trigger] lexemes@[i]@) == Err::<RpnItem, ParseFailure>(
                        e@,
                    )
                    &&& forall|j: int|
                        0 <= j < i ==> RpnItem::of_lexeme(#[trigger] lexemes@[j]@) is Ok
                },
        },
{
    let mut items: Vec<RpnItem> = Vec::new();
    let mut i: usize = 0;
    while i < lexemes.len()
        invariant
            i <= lexemes@.len(),
            items@.len() == i,
            forall|j: int|
                0 <= j < i ==> RpnItem::of_lexeme(#[trigger] lexemes@[j]@) == Ok::<
                    RpnItem,
                    ParseFailure,
                >(items@[j]),
        decreases lexemes@.len() - i,
    {
        match RpnItem::from_lexeme(&lexemes[i]) {
            Ok(item) => items.push(item),
            Err(e) => {
                return Err(e);
            },
        }
        i += 1;
    }
    Ok(items)
}

/// Evaluates an expression in postfix order as far as that takes no
/// arithmetic.
///
/// The evaluation goes on from `state`, at first with the number `answer` on
/// the stack, if one is given: the result of the arithmetic that the call
/// before asked for. It stops with the value of the expression when the
/// tokens are used up, with an error at the token that cannot be applied, or
/// with the arithmetic that the caller is to carry out before the next call.
pub fn execute_rpn(tokens: &[RpnItem], state: &mut Evaluation, answer: Option<Float>) -> (r: Result<
    Outcome,
    ExecError,
>)
    ensures
        r == run(tokens@, answered(old(state).stack@, answer), old(state).position as nat).result,
        final(state).stack@ == run(
            tokens@,
            answered(old(state).stack@, answer),
            old(state).position as nat,
        ).stack,
        final(state).position == run(
            tokens@,
            answered(old(state).stack@, answer),
            old(state).position as nat,
        ).position,
{
    if let Some(x) = answer {
        state.stack.push(Value::Number(x));
    }
    let ghost goal = run(tokens@, answered(old(state).stack@, answer), old(state).position as nat);
    while state.position < tokens.len()
        invariant
            goal == run(
                tokens@,
                answered(old(state).stack@, answer),
                old(state).position as nat,
            ),
            run(tokens@, state.stack@, state.position as nat) == goal,
        decreases tokens@.len() - state.position,
    {
        let request = match tokens[state.position] {
            RpnItem::Operand(n) => {
                state.stack.push(Value::Number(n));
                Ok(None)
            },
            RpnItem::Boolean(b) => {
                state.stack.push(Value::Boolean(b));
                Ok(None)
            },
            RpnItem::Operator(op) => op.rpn_exec(&mut state.stack),
        };
        state.position += 1;
        match request {
            Ok(None) => {},
            Ok(Some(a)) => {
                return Ok(Outcome::Pending(a));
            },
            Err(e) => {
                return Err(e);
            },
        }
    }
    if state.stack.len() == 1 {
        Ok(Outcome::Value(state.stack[0]))
    } else {
        Err(ExecError::TooManyOperands)
    }
}

} // verus!
