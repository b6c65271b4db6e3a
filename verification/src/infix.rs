//! Expressions in infix order: reading them, and converting them to postfix
//! order by the shunting-yard method.

use crate::lexeme::{Lexeme, LexemeView, ParseError, ParseFailure};
use crate::float::Float;
use crate::math::{Associativity, MathOperator};
use crate::rpn::RpnItem;
use crate::utils::characters;
use vstd::prelude::*;
use vstd::string::StringExecFns;

verus! {

/// A token of an expression in infix order.
#[derive(Clone, Copy, Debug, PartialEq)]
pub enum InfixItem {
    Operand(Float),
    Boolean(bool),
    Operator(MathOperator),
    OpenParen,
    CloseParen,
}

/// What waits on the stack of the conversion until its place in the output
/// is known.
#[derive(Clone, Copy, Debug, PartialEq, Eq, Structural)]
pub enum Held {
    Operator(MathOperator),
    OpenParen,
}

/// The state of a conversion.
pub struct Yard {
    /// The operators and opening parentheses that wait, the latest last.
    pub stack: Seq<Held>,
    /// The tokens in postfix order that have been given out.
    pub output: Seq<RpnItem>,
}

/// Why an expression in infix order cannot be converted.
#[derive(Clone, Copy, Debug, PartialEq, Eq, Structural)]
pub enum ConversionError {
    /// A parenthesis is closed that was not opened, or one is left open.
    MismatchedParentheses,
}

impl ConversionError {
    /// The error in words.
    pub fn message(&self) -> (m: String)
        ensures
            m@ == "Mismatched Parentheses"@,
    {
        String::from_str("Mismatched Parentheses")
    }
}

impl InfixItem {
    /// The same token in an expression in postfix order; of a parenthesis,
    /// whether it opens.
    pub open spec fn as_rpn_item(self) -> Result<RpnItem, bool> {
        match self {
            InfixItem::Operand(n) => Ok(RpnItem::Operand(n)),
            InfixItem::Boolean(b) => Ok(RpnItem::Boolean(b)),
            InfixItem::Operator(op) => Ok(RpnItem::Operator(op)),
            InfixItem::OpenParen => Err(true),
            InfixItem::CloseParen => Err(false),
        }
    }

    /// The same token in an expression in infix order.
    pub open spec fn of_rpn_item(item: RpnItem) -> InfixItem {
        match item {
            RpnItem::Operand(n) => InfixItem::Operand(n),
            RpnItem::Boolean(b) => InfixItem::Boolean(b),
            RpnItem::Operator(op) => InfixItem::Operator(op),
        }
    }

    /// The token that a word is: a parenthesis where the word is `(` or `)`,
    /// else what it is in postfix order.
    pub open spec fn of_lexeme(lexeme: LexemeView) -> Result<InfixItem, ParseFailure> {
        if lexeme.text == seq!['('] {
            Ok(InfixItem::OpenParen)
        } else if lexeme.text == seq![')'] {
            Ok(InfixItem::CloseParen)
        } else {
            match RpnItem::of_lexeme(lexeme) {
                Ok(item) => Ok(InfixItem::of_rpn_item(item)),
                Err(e) => Err(e),
            }
        }
    }

    /// Reads a token from a word.
    pub fn from_lexeme(lexeme: &Lexeme) -> (r: Result<InfixItem, ParseError>)
        ensures
            match r {
                Ok(item) => InfixItem::of_lexeme(lexeme@) == Ok::<InfixItem, ParseFailure>(item),
                Err(e) => InfixItem::of_lexeme(lexeme@) == Err::<InfixItem, ParseFailure>(e@),
            },
    {
        let text = characters(lexeme.text.as_str());
        if text.len() == 1 && text[0] == '(' {
            assert(text@ == seq!['(']);
            return Ok(InfixItem::OpenParen);
        }
        if text.len() == 1 && text[0] == ')' {
            assert(text@ == seq![')']);
            return Ok(InfixItem::CloseParen);
        }
        match RpnItem::from_lexeme(lexeme) {
            Ok(RpnItem::Operand(n)) => Ok(InfixItem::Operand(n)),
            Ok(RpnItem::Boolean(b)) => Ok(InfixItem::Boolean(b)),
            Ok(RpnItem::Operator(op)) => Ok(InfixItem::Operator(op)),
            Err(e) => Err(e),
        }
    }

    /// The token as one of an expression in postfix order, or, for a
    /// parenthesis, whether it opens.
    pub fn to_rpn_item(&self) -> (r: Result<RpnItem, bool>)
        ensures
            r == self.as_rpn_item(),
    {
        match *self {
            InfixItem::Operand(num) => Ok(RpnItem::Operand(num)),
            InfixItem::Boolean(b) => Ok(RpnItem::Boolean(b)),
            InfixItem::Operator(op) => Ok(RpnItem::Operator(op)),
            InfixItem::OpenParen => Err(true),
            InfixItem::CloseParen => Err(false),
        }
    }
}

/// The tokens with each minus sign that stands for a negative number made
/// part of that number.
///
/// A minus sign is folded into the number that follows it unless a number
/// stands before it: the two tokens become one, the negated number.
/// `after_operand` says whether a number stands before the first token.
pub open spec fn signs_fixed(items: Seq<InfixItem>, after_operand: bool) -> Seq<InfixItem>
    decreases items.len(),
{
    if items.len() == 0 {
        items
    } else if !after_operand && items[0] == InfixItem::Operator(MathOperator::Sub) && items.len()
        >= 2 && items[1] is Operand {
        seq![InfixItem::Operand(items[1]->Operand_0.negated())] + signs_fixed(items.skip(2), true)
    } else {
        seq![items[0]] + signs_fixed(items.skip(1), items[0] is Operand)
    }
}

/// Replaces each minus sign that stands for a negative number, together with
/// the number after it, by the negated number.
pub fn fix_negative_numbers(vec: &mut Vec<InfixItem>)
    ensures
        final(vec)@ == signs_fixed(old(vec)@, false),
{
    let mut fixed: Vec<InfixItem> = Vec::new();
    let mut after_operand = false;
    let mut i: usize = 0;
    proof {
        assert(vec@.skip(0) == vec@);
        assert(fixed@ + signs_fixed(vec@, false) == signs_fixed(vec@, false));
    }
    while i < vec.len()
        invariant
            i <= vec@.len(),
            vec@ == old(vec)@,
            fixed@ + signs_fixed(vec@.skip(i as int), after_operand) == signs_fixed(vec@, false),
        decreases vec@.len() - i,
    {
        let ghost rest = vec@.skip(i as int);
        let ghost before = fixed@;
        let mut item = vec[i];
        let mut used: usize = 1;
        if let InfixItem::Operator(MathOperator::Sub) = item {
            if !after_operand && i + 1 < vec.len() {
                if let InfixItem::Operand(num) = vec[i + 1] {
                    item = InfixItem::Operand(num.neg());
                    used = 2;
                }
            }
        }
        fixed.push(item);
        after_operand = match item {
            InfixItem::Operand(_) => true,
            _ => false,
        };
        i += used;
        proof {
            assert(rest.skip(used as int) == vec@.skip(i as int));
            assert(before + (seq![item] + signs_fixed(vec@.skip(i as int), after_operand))
                == before.push(item) + signs_fixed(vec@.skip(i as int), after_operand));
        }
    }
    assert(fixed@ + Seq::<InfixItem>::empty() == fixed@);
    *vec = fixed;
}

/// The tokens that the words are, where each word is a token.
pub open spec fn items_of(lexemes: Seq<Lexeme>) -> Seq<InfixItem> {
    Seq::new(lexemes.len(), |i: int| InfixItem::of_lexeme(lexemes[i]@)->Ok_0)
}

/// Reads the tokens of an expression in infix order from its words, and
/// makes the minus signs of negative numbers part of the numbers. The first
/// word that is no token gives the error.
pub fn parse_infix(lexemes: &[Lexeme]) -> (r: Result<Vec<InfixItem>, ParseError>)
    ensures
        match r {
            Ok(items) => {
                &&& forall|i: int|
                    0 <= i < lexemes@.len() ==> InfixItem::of_lexeme(#[trigger] lexemes@[i]@) is Ok
                &&& items@ == signs_fixed(items_of(lexemes@), false)
            },
            Err(e) => exists|i: int|
                {
                    &&& 0 <= i < lexemes@.len()
                    &&& InfixItem::of_lexeme(#[trigger] lexemes@[i]@) == Err::<
                        InfixItem,
                        ParseFailure,
                    >(e@)
                    &&& forall|j: int|
                        0 <= j < i ==> InfixItem::of_lexeme(#[trigger] lexemes@[j]@) is Ok
                },
        },
{
    let mut items: Vec<InfixItem> = Vec::new();
    let mut i: usize = 0;
    while i < lexemes.len()
        invariant
            i <= lexemes@.len(),
            items@.len() == i,
            forall|j: int|
                0 <= j < i ==> InfixItem::of_lexeme(#[trigger] lexemes@[j]@) == Ok::<
                    InfixItem,
                    ParseFailure,
                >(items@[j]),
        decreases lexemes@.len() - i,
    {
        match InfixItem::from_lexeme(&lexemes[i]) {
            Ok(item) => items.push(item),
            Err(e) => {
                return Err(e);
            },
        }
        i += 1;
    }
    assert(items@ == items_of(lexemes@));
    fix_negative_numbers(&mut items);
    Ok(items)
}

/// Whether the operator `top`, topmost on the stack, goes to the output
/// before `op` is put on the stack: it does where it binds tighter than `op`,
/// and where it binds as tightly and `op` groups to the left.
pub open spec fn gives_way(op: MathOperator, top: MathOperator) -> bool {
    ||| op.associativity() == Associativity::Left && op.precedence() <= top.precedence()
    ||| op.associativity() == Associativity::Right && op.precedence() < top.precedence()
}

impl Yard {
    /// The state with the topmost entry of the stack taken off.
    pub open spec fn popped(self) -> Yard {
        Yard { stack: self.stack.drop_last(), output: self.output }
    }

    /// The state with one more token given out.
    pub open spec fn emitted(self, item: RpnItem) -> Yard {
        Yard { stack: self.stack, output: self.output.push(item) }
    }

    /// The state with one more entry on the stack.
    pub open spec fn pushed(self, held: Held) -> Yard {
        Yard { stack: self.stack.push(held), output: self.output }
    }

    /// The state after the operators on top of the stack that give way to
    /// `op` have gone to the output, the topmost first.
    pub open spec fn made_way(self, op: MathOperator) -> Yard
        decreases self.stack.len(),
    {
        if self.stack.len() > 0 && self.stack.last() is Operator && gives_way(
            op,
            self.stack.last()->Operator_0,
        ) {
            self.popped().emitted(RpnItem::Operator(self.stack.last()->Operator_0)).made_way(op)
        } else {
            self
        }
    }

    /// The state after a closing parenthesis: the operators above the
    /// topmost opening parenthesis have gone to the output, the topmost
    /// first, and that parenthesis has left the stack. `None` where the stack
    /// holds no opening parenthesis.
    pub open spec fn closed(self) -> Option<Yard>
        decreases self.stack.len(),
    {
        if self.stack.len() == 0 {
            None
        } else {
            match self.stack.last() {
                Held::OpenParen => Some(self.popped()),
                Held::Operator(top) => self.popped().emitted(RpnItem::Operator(top)).closed(),
            }
        }
    }

    /// The output after the last token: the operators on the stack have gone
    /// to it, the topmost first. `None` where the stack holds an opening
    /// parenthesis.
    pub open spec fn drained(self) -> Option<Seq<RpnItem>>
        decreases self.stack.len(),
    {
        if self.stack.len() == 0 {
            Some(self.output)
        } else {
            match self.stack.last() {
                Held::OpenParen => None,
                Held::Operator(top) => self.popped().emitted(RpnItem::Operator(top)).drained(),
            }
        }
    }

    /// The state after one more token.
    ///
    /// A number or a boolean goes to the output. An operator goes on the
    /// stack, after the operators that give way to it have left it. An
    /// opening parenthesis goes on the stack; a closing one clears the stack
    /// down to the opening one that it matches.
    pub open spec fn after(self, token: InfixItem) -> Option<Yard> {
        match token {
            InfixItem::Operand(n) => Some(self.emitted(RpnItem::Operand(n))),
            InfixItem::Boolean(b) => Some(self.emitted(RpnItem::Boolean(b))),
            InfixItem::Operator(op) => Some(self.made_way(op).pushed(Held::Operator(op))),
            InfixItem::OpenParen => Some(self.pushed(Held::OpenParen)),
            InfixItem::CloseParen => self.closed(),
        }
    }

    /// The state after the given tokens, from an empty stack and an empty
    /// output. `None` where a closing parenthesis matches no opening one.
    pub open spec fn after_all(tokens: Seq<InfixItem>) -> Option<Yard>
        decreases tokens.len(),
    {
        if tokens.len() == 0 {
            Some(Yard { stack: Seq::empty(), output: Seq::empty() })
        } else {
            match Yard::after_all(tokens.drop_last()) {
                Some(yard) => yard.after(tokens.last()),
                None => None,
            }
        }
    }
}

/// The expression in postfix order that the shunting-yard method gives for
/// an expression in infix order. `None` where the parentheses do not match.
pub open spec fn postfix_of(tokens: Seq<InfixItem>) -> Option<Seq<RpnItem>> {
    match Yard::after_all(tokens) {
        Some(yard) => yard.drained(),
        None => None,
    }
}

/// The number of parentheses that the tokens leave open. `None` where one
/// of them closes a parenthesis that is not open.
pub open spec fn open_parens(tokens: Seq<InfixItem>) -> Option<nat>
    decreases tokens.len(),
{
    if tokens.len() == 0 {
        Some(0)
    } else {
        match (open_parens(tokens.drop_last()), tokens.last()) {
            (None, _) => None,
            (Some(n), InfixItem::OpenParen) => Some(n + 1),
            (Some(n), InfixItem::CloseParen) => if n == 0 {
                None
            } else {
                Some((n - 1) as nat)
            },
            (Some(n), _) => Some(n),
        }
    }
}

/// Whether each closing parenthesis closes an open one and none is left
/// open.
pub open spec fn balanced(tokens: Seq<InfixItem>) -> bool {
    open_parens(tokens) == Some(0nat)
}

/// The number of opening parentheses on a stack.
pub open spec fn held_parens(stack: Seq<Held>) -> nat
    decreases stack.len(),
{
    if stack.len() == 0 {
        0
    } else if stack.last() is OpenParen {
        held_parens(stack.drop_last()) + 1
    } else {
        held_parens(stack.drop_last())
    }
}

/// The number of tokens that are no parentheses.
pub open spec fn plain_tokens(tokens: Seq<InfixItem>) -> nat
    decreases tokens.len(),
{
    if tokens.len() == 0 {
        0
    } else if tokens.last() is OpenParen || tokens.last() is CloseParen {
        plain_tokens(tokens.drop_last())
    } else {
        plain_tokens(tokens.drop_last()) + 1
    }
}

/// The numbers and booleans of an expression in infix order, in order.
pub open spec fn infix_values(tokens: Seq<InfixItem>) -> Seq<RpnItem>
    decreases tokens.len(),
{
    if tokens.len() == 0 {
        Seq::empty()
    } else {
        match tokens.last() {
            InfixItem::Operand(n) => infix_values(tokens.drop_last()).push(RpnItem::Operand(n)),
            InfixItem::Boolean(b) => infix_values(tokens.drop_last()).push(RpnItem::Boolean(b)),
            _ => infix_values(tokens.drop_last()),
        }
    }
}

/// The numbers and booleans of an expression in postfix order, in order.
pub open spec fn postfix_values(items: Seq<RpnItem>) -> Seq<RpnItem>
    decreases items.len(),
{
    if items.len() == 0 {
        Seq::empty()
    } else if items.last() is Operator {
        postfix_values(items.drop_last())
    } else {
        postfix_values(items.drop_last()).push(items.last())
    }
}

impl Yard {
    /// The number of tokens that the state holds: those given out and the
    /// operators on the stack.
    pub open spec fn plain_tokens(self) -> nat {
        (self.output.len() + self.stack.len() - held_parens(self.stack)) as nat
    }
}

/// A stack holds no more parentheses than entries.
proof fn lemma_held_parens_bound(stack: Seq<Held>)
    ensures
        held_parens(stack) <= stack.len(),
    decreases stack.len(),
{
    if stack.len() > 0 {
        lemma_held_parens_bound(stack.drop_last());
    }
}

/// An operator that goes from the stack to the output changes neither the
/// parentheses on the stack, nor the number of tokens that the state holds,
/// nor the numbers and booleans given out.
proof fn lemma_operator_moves(yard: Yard, top: MathOperator)
    requires
        yard.stack.len() > 0,
        yard.stack.last() == Held::Operator(top),
    ensures
        held_parens(yard.popped().emitted(RpnItem::Operator(top)).stack) == held_parens(
            yard.stack,
        ),
        yard.popped().emitted(RpnItem::Operator(top)).plain_tokens() == yard.plain_tokens(),
        postfix_values(yard.popped().emitted(RpnItem::Operator(top)).output) == postfix_values(
            yard.output,
        ),
{
    lemma_held_parens_bound(yard.stack.drop_last());
    assert(yard.output.push(RpnItem::Operator(top)).drop_last() == yard.output);
}

/// Making way for an operator takes no parenthesis off the stack and keeps
/// what the state holds.
proof fn lemma_made_way_keeps(yard: Yard, op: MathOperator)
    ensures
        held_parens(yard.made_way(op).stack) == held_parens(yard.stack),
        yard.made_way(op).plain_tokens() == yard.plain_tokens(),
        postfix_values(yard.made_way(op).output) == postfix_values(yard.output),
    decreases yard.stack.len(),
{
    if yard.stack.len() > 0 && yard.stack.last() is Operator && gives_way(
        op,
        yard.stack.last()->Operator_0,
    ) {
        let top = yard.stack.last()->Operator_0;
        lemma_operator_moves(yard, top);
        lemma_made_way_keeps(yard.popped().emitted(RpnItem::Operator(top)), op);
    }
}

/// A closing parenthesis finds its match exactly where the stack holds an
/// opening one; it takes one off and keeps what the state holds.
proof fn lemma_closed_takes_one_paren(yard: Yard)
    ensures
        yard.closed() is Some <==> held_parens(yard.stack) > 0,
        yard.closed() is Some ==> {
            &&& held_parens(yard.closed()->0.stack) + 1 == held_parens(yard.stack)
            &&& yard.closed()->0.plain_tokens() == yard.plain_tokens()
            &&& postfix_values(yard.closed()->0.output) == postfix_values(yard.output)
        },
    decreases yard.stack.len(),
{
    if yard.stack.len() > 0 {
        match yard.stack.last() {
            Held::OpenParen => {
                lemma_held_parens_bound(yard.stack.drop_last());
            },
            Held::Operator(top) => {
                lemma_operator_moves(yard, top);
                lemma_closed_takes_one_paren(yard.popped().emitted(RpnItem::Operator(top)));
            },
        }
    }
}

/// The stack can be cleared at the end exactly where it holds no opening
/// parenthesis; the output then is what the state held.
proof fn lemma_drained_without_parens(yard: Yard)
    ensures
        yard.drained() is Some <==> held_parens(yard.stack) == 0,
        yard.drained() is Some ==> {
            &&& yard.drained()->0.len() == yard.plain_tokens()
            &&& postfix_values(yard.drained()->0) == postfix_values(yard.output)
        },
    decreases yard.stack.len(),
{
    if yard.stack.len() > 0 {
        match yard.stack.last() {
            Held::OpenParen => {},
            Held::Operator(top) => {
                lemma_operator_moves(yard, top);
                lemma_drained_without_parens(yard.popped().emitted(RpnItem::Operator(top)));
            },
        }
    }
}

/// The stack holds the parentheses that the tokens have left open, and the
/// state holds the tokens that are no parentheses.
proof fn lemma_state_holds_tokens(tokens: Seq<InfixItem>)
    ensures
        Yard::after_all(tokens) is Some <==> open_parens(tokens) is Some,
        Yard::after_all(tokens) is Some ==> {
            &&& held_parens(Yard::after_all(tokens)->0.stack) == open_parens(tokens)->0
            &&& Yard::after_all(tokens)->0.plain_tokens() == plain_tokens(tokens)
            &&& postfix_values(Yard::after_all(tokens)->0.output) == infix_values(tokens)
        },
    decreases tokens.len(),
{
    if tokens.len() > 0 {
        lemma_state_holds_tokens(tokens.drop_last());
        if let Some(yard) = Yard::after_all(tokens.drop_last()) {
            lemma_held_parens_bound(yard.stack);
            match tokens.last() {
                InfixItem::Operand(n) => {
                    assert(yard.output.push(RpnItem::Operand(n)).drop_last() == yard.output);
                },
                InfixItem::Boolean(b) => {
                    assert(yard.output.push(RpnItem::Boolean(b)).drop_last() == yard.output);
                },
                InfixItem::Operator(op) => {
                    lemma_made_way_keeps(yard, op);
                    lemma_held_parens_bound(yard.made_way(op).stack);
                    assert(yard.made_way(op).pushed(Held::Operator(op)).stack.drop_last()
                        == yard.made_way(op).stack);
                },
                InfixItem::OpenParen => {
                    assert(yard.pushed(Held::OpenParen).stack.drop_last() == yard.stack);
                },
                InfixItem::CloseParen => {
                    lemma_closed_takes_one_paren(yard);
                },
            }
        }
    }
}

/// An expression can be converted if and only if its parentheses are
/// balanced.
pub proof fn lemma_converts_iff_balanced(tokens: Seq<InfixItem>)
    ensures
        postfix_of(tokens) is Some <==> balanced(tokens),
{
    lemma_state_holds_tokens(tokens);
    if let Some(yard) = Yard::after_all(tokens) {
        lemma_drained_without_parens(yard);
    }
}

/// A conversion keeps every token but the parentheses, and keeps the numbers
/// and booleans in their order.
pub proof fn lemma_conversion_keeps_tokens(tokens: Seq<InfixItem>)
    requires
        postfix_of(tokens) is Some,
    ensures
        postfix_of(tokens)->0.len() == plain_tokens(tokens),
        postfix_values(postfix_of(tokens)->0) == infix_values(tokens),
{
    lemma_state_holds_tokens(tokens);
    lemma_drained_without_parens(Yard::after_all(tokens)->0);
}

/// Once a closing parenthesis has found no opening one, the tokens after it
/// change nothing.
proof fn lemma_mismatch_stays(tokens: Seq<InfixItem>, n: int)
    requires
        0 <= n <= tokens.len(),
        Yard::after_all(tokens.take(n)) is None,
    ensures
        Yard::after_all(tokens) is None,
    decreases tokens.len() - n,
{
    if n < tokens.len() {
        assert(tokens.take(n + 1).drop_last() == tokens.take(n));
        lemma_mismatch_stays(tokens, n + 1);
    } else {
        assert(tokens.take(n) == tokens);
    }
}

/// Converts an expression from infix order to postfix order.
pub fn infix_to_rpn(tokens: &[InfixItem]) -> (r: Result<Vec<RpnItem>, ConversionError>)
    ensures
        match r {
            Ok(output) => postfix_of(tokens@) == Some(output@),
            Err(_) => postfix_of(tokens@) is None,
        },
        r is Ok <==> balanced(tokens@),
{
    let mut stack: Vec<Held> = Vec::new();
    let mut output: Vec<RpnItem> = Vec::new();
    let mut i: usize = 0;
    assert(tokens@.take(0) == Seq::<InfixItem>::empty());
    while i < tokens.len()
        invariant
            i <= tokens@.len(),
            Yard::after_all(tokens@.take(i as int)) == Some(
                Yard { stack: stack@, output: output@ },
            ),
        decreases tokens@.len() - i,
    {
        let ghost entry = Yard { stack: stack@, output: output@ };
        assert(tokens@.take(i + 1).drop_last() == tokens@.take(i as int));
        match tokens[i].to_rpn_item() {
            Ok(RpnItem::Operator(op)) => {
                while stack.len() > 0
                    invariant
                        (Yard { stack: stack@, output: output@ }).made_way(op) == entry.made_way(
                            op,
                        ),
                    ensures
                        (Yard { stack: stack@, output: output@ }) == entry.made_way(op),
                    decreases stack@.len(),
                {
                    match stack[stack.len() - 1] {
                        Held::Operator(top) => {
                            if (op.associativity() == Associativity::Left && op.precedence()
                                <= top.precedence()) || (op.associativity() == Associativity::Right
                                && op.precedence() < top.precedence()) {
                                output.push(RpnItem::Operator(top));
                                stack.pop();
                            } else {
                                break ;
                            }
                        },
                        Held::OpenParen => {
                            break ;
                        },
                    }
                }
                stack.push(Held::Operator(op));
            },
            Ok(item) => {
                output.push(item);
            },
            Err(true) => {
                stack.push(Held::OpenParen);
            },
            Err(false) => {
                loop
                    invariant_except_break
                        (Yard { stack: stack@, output: output@ }).closed() == entry.closed(),
                    invariant
                        Yard::after_all(tokens@.take(i + 1)) == entry.closed(),
                        i < tokens@.len(),
                    ensures
                        Some(Yard { stack: stack@, output: output@ }) == entry.closed(),
                    decreases stack@.len(),
                {
                    if stack.len() == 0 {
                        proof {
                            lemma_mismatch_stays(tokens@, i + 1);
                            lemma_converts_iff_balanced(tokens@);
                        }
                        return Err(ConversionError::MismatchedParentheses);
                    }
                    match stack[stack.len() - 1] {
                        Held::OpenParen => {
                            stack.pop();
                            break ;
                        },
                        Held::Operator(top) => {
                            output.push(RpnItem::Operator(top));
                            stack.pop();
                        },
                    }
                }
            },
        }
        i += 1;
    }
    assert(tokens@.take(i as int) == tokens@);
    let ghost end = Yard { stack: stack@, output: output@ };
    while stack.len() > 0
        invariant
            (Yard { stack: stack@, output: output@ }).drained() == end.drained(),
            postfix_of(tokens@) == end.drained(),
        decreases stack@.len(),
    {
        match stack[stack.len() - 1] {
            Held::OpenParen => {
                proof {
                    lemma_converts_iff_balanced(tokens@);
                }
                return Err(ConversionError::MismatchedParentheses);
            },
            Held::Operator(top) => {
                output.push(RpnItem::Operator(top));
                stack.pop();
            },
        }
    }
    proof {
        lemma_converts_iff_balanced(tokens@);
    }
    Ok(output)
}

} // verus!
