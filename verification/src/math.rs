//! Values, operators and the rules by which an operator is applied.

use crate::float::Float;
use crate::utils::characters;
use vstd::prelude::*;
use vstd::string::StringExecFns;

verus! {

/// What an expression evaluates to.
#[derive(Clone, Copy, Debug, PartialEq)]
pub enum Value {
    Number(Float),
    Boolean(bool),
}

/// How operators of equal precedence group.
#[derive(Clone, Copy, Debug, PartialEq, Eq, Structural)]
pub enum Associativity {
    Left,
    Right,
}

/// The operators of expressions.
#[derive(Clone, Copy, Debug, PartialEq, Eq, Structural)]
pub enum MathOperator {
    Add,
    Sub,
    Mul,
    Div,
    Pow,
    Sqrt,
    Eq,
    Ne,
    Gt,
    Ge,
    Lt,
    Le,
    And,
    Or,
    Not,
}

/// An operation on numbers that only a floating-point unit can carry out.
/// Its result is a number.
#[derive(Clone, Copy, Debug, PartialEq)]
pub enum Arithmetic {
    /// The sum of the two numbers.
    Add(Float, Float),
    /// The first number less the second.
    Sub(Float, Float),
    /// The product of the two numbers.
    Mul(Float, Float),
    /// The first number divided by the second.
    Div(Float, Float),
    /// The first number raised to the power of the second.
    Pow(Float, Float),
    /// The square root of the number.
    Sqrt(Float),
}

/// What applying an operator comes to: a value, or arithmetic that is still
/// to be carried out and whose result, as a number, is the value.
#[derive(Clone, Copy, Debug, PartialEq)]
pub enum Outcome {
    Value(Value),
    Pending(Arithmetic),
}

/// Why a sequence of tokens in postfix order cannot be evaluated.
#[derive(Clone, Copy, Debug, PartialEq, Eq, Structural)]
pub enum ExecError {
    /// An operator found fewer values than it takes.
    TooFewOperands,
    /// The tokens do not reduce to exactly one value.
    TooManyOperands,
    /// The operator does not take values of the types it found.
    InvalidType(MathOperator),
}

impl ExecError {
    /// The error in words.
    pub open spec fn spec_message(self) -> Seq<char> {
        match self {
            ExecError::TooFewOperands => "invalid syntax: too few operands"@,
            ExecError::TooManyOperands => "invalid syntax: too many operands"@,
            ExecError::InvalidType(op) => "invalid type: "@ + op.spec_name(),
        }
    }

    /// The error in words; a type error names the operator.
    pub fn message(&self) -> (m: String)
        ensures
            m@ == self.spec_message(),
    {
        match self {
            ExecError::TooFewOperands => String::from_str("invalid syntax: too few operands"),
            ExecError::TooManyOperands => String::from_str("invalid syntax: too many operands"),
            ExecError::InvalidType(op) => {
                let mut m = String::from_str("invalid type: ");
                m.append(op.name());
                m
            },
        }
    }
}

impl MathOperator {
    /// The operator that a symbol stands for.
    pub open spec fn of_symbol(s: Seq<char>) -> Option<MathOperator> {
        if s == seq!['+'] {
            Some(MathOperator::Add)
        } else if s == seq!['-'] {
            Some(MathOperator::Sub)
        } else if s == seq!['*'] {
            Some(MathOperator::Mul)
        } else if s == seq!['/'] {
            Some(MathOperator::Div)
        } else if s == seq!['^'] {
            Some(MathOperator::Pow)
        } else if s == seq!['s', 'q', 'r', 't'] {
            Some(MathOperator::Sqrt)
        } else if s == seq!['='] {
            Some(MathOperator::Eq)
        } else if s == seq!['!', '='] {
            Some(MathOperator::Ne)
        } else if s == seq!['>'] {
            Some(MathOperator::Gt)
        } else if s == seq!['>', '='] {
            Some(MathOperator::Ge)
        } else if s == seq!['<'] {
            Some(MathOperator::Lt)
        } else if s == seq!['<', '='] {
            Some(MathOperator::Le)
        } else if s == seq!['&'] {
            Some(MathOperator::And)
        } else if s == seq!['|'] {
            Some(MathOperator::Or)
        } else if s == seq!['!'] {
            Some(MathOperator::Not)
        } else {
            None
        }
    }

    /// The name by which errors speak of the operator.
    pub open spec fn spec_name(self) -> Seq<char> {
        match self {
            MathOperator::Add => "+"@,
            MathOperator::Sub => "-"@,
            MathOperator::Mul => "*"@,
            MathOperator::Div => "/"@,
            MathOperator::Pow => "^"@,
            MathOperator::Sqrt => "sqrt"@,
            MathOperator::Eq => "="@,
            MathOperator::Ne => "!="@,
            MathOperator::Gt => ">"@,
            MathOperator::Ge => ">="@,
            MathOperator::Lt => "<"@,
            MathOperator::Le => "<="@,
            MathOperator::And => "&&"@,
            MathOperator::Or => "||"@,
            MathOperator::Not => "not"@,
        }
    }

    /// How tightly the operator binds: the connectives least, then the
    /// comparisons, sum and difference, product and quotient, power and
    /// root, and the negation most.
    pub open spec fn spec_precedence(self) -> u8 {
        match self {
            MathOperator::Or | MathOperator::And => 0,
            MathOperator::Eq
            | MathOperator::Ne
            | MathOperator::Gt
            | MathOperator::Ge
            | MathOperator::Lt
            | MathOperator::Le => 1,
            MathOperator::Add | MathOperator::Sub => 2,
            MathOperator::Mul | MathOperator::Div => 3,
            MathOperator::Pow | MathOperator::Sqrt => 4,
            MathOperator::Not => 5,
        }
    }

    /// How the operator groups with operators of its own precedence: power
    /// and root to the right, every other to the left.
    pub open spec fn spec_associativity(self) -> Associativity {
        match self {
            MathOperator::Pow | MathOperator::Sqrt => Associativity::Right,
            _ => Associativity::Left,
        }
    }

    /// Whether the operator takes one operand; every other takes two.
    pub open spec fn is_unary(self) -> bool {
        self == MathOperator::Sqrt || self == MathOperator::Not
    }

    /// The number of operands that the operator takes.
    pub open spec fn arity(self) -> nat {
        if self.is_unary() {
            1
        } else {
            2
        }
    }

    /// The rule of a unary operator: the square root is taken of a number,
    /// which is arithmetic; a boolean is negated.
    pub open spec fn unary_rule(self, x: Value) -> Result<Outcome, ExecError> {
        match (self, x) {
            (MathOperator::Sqrt, Value::Number(a)) => Ok(Outcome::Pending(Arithmetic::Sqrt(a))),
            (MathOperator::Not, Value::Boolean(a)) => Ok(Outcome::Value(Value::Boolean(!a))),
            _ => Err(ExecError::InvalidType(self)),
        }
    }

    /// The rule of a binary operator with `x` as left and `y` as right
    /// operand.
    ///
    /// The five arithmetic operators take two numbers and give arithmetic.
    /// Equality and inequality take two numbers or two booleans, the four
    /// orderings two numbers, and the two connectives two booleans; all
    /// these give a boolean.
    pub open spec fn binary_rule(self, x: Value, y: Value) -> Result<Outcome, ExecError> {
        match (self, x, y) {
            (MathOperator::Add, Value::Number(a), Value::Number(b)) => Ok(
                Outcome::Pending(Arithmetic::Add(a, b)),
            ),
            (MathOperator::Sub, Value::Number(a), Value::Number(b)) => Ok(
                Outcome::Pending(Arithmetic::Sub(a, b)),
            ),
            (MathOperator::Mul, Value::Number(a), Value::Number(b)) => Ok(
                Outcome::Pending(Arithmetic::Mul(a, b)),
            ),
            (MathOperator::Div, Value::Number(a), Value::Number(b)) => Ok(
                Outcome::Pending(Arithmetic::Div(a, b)),
            ),
            (MathOperator::Pow, Value::Number(a), Value::Number(b)) => Ok(
                Outcome::Pending(Arithmetic::Pow(a, b)),
            ),
            (MathOperator::Eq, Value::Number(a), Value::Number(b)) => Ok(
                Outcome::Value(Value::Boolean(a.equals(b))),
            ),
            (MathOperator::Eq, Value::Boolean(a), Value::Boolean(b)) => Ok(
                Outcome::Value(Value::Boolean(a == b)),
            ),
            (MathOperator::Ne, Value::Number(a), Value::Number(b)) => Ok(
                Outcome::Value(Value::Boolean(!a.equals(b))),
            ),
            (MathOperator::Ne, Value::Boolean(a), Value::Boolean(b)) => Ok(
                Outcome::Value(Value::Boolean(a != b)),
            ),
            (MathOperator::Gt, Value::Number(a), Value::Number(b)) => Ok(
                Outcome::Value(Value::Boolean(b.less(a))),
            ),
            (MathOperator::Ge, Value::Number(a), Value::Number(b)) => Ok(
                Outcome::Value(Value::Boolean(b.at_most(a))),
            ),
            (MathOperator::Lt, Value::Number(a), Value::Number(b)) => Ok(
                Outcome::Value(Value::Boolean(a.less(b))),
            ),
            (MathOperator::Le, Value::Number(a), Value::Number(b)) => Ok(
                Outcome::Value(Value::Boolean(a.at_most(b))),
            ),
            (MathOperator::And, Value::Boolean(a), Value::Boolean(b)) => Ok(
                Outcome::Value(Value::Boolean(a && b)),
            ),
            (MathOperator::Or, Value::Boolean(a), Value::Boolean(b)) => Ok(
                Outcome::Value(Value::Boolean(a || b)),
            ),
            _ => Err(ExecError::InvalidType(self)),
        }
    }

    /// The rule of the operator on the topmost values of a stack that holds
    /// at least as many values as the operator takes.
    pub open spec fn rule(self, stack: Seq<Value>) -> Result<Outcome, ExecError> {
        if self.is_unary() {
            self.unary_rule(stack[stack.len() - 1])
        } else {
            self.binary_rule(stack[stack.len() - 2], stack[stack.len() - 1])
        }
    }

    /// The stack after the operator has been applied to it.
    ///
    /// The operands leave the stack, also where their types are wrong; where
    /// there are too few of them, nothing stays. The value that the rule
    /// gives takes their place. A number that is still to be computed is not
    /// put there.
    pub open spec fn stack_after(self, stack: Seq<Value>) -> Seq<Value> {
        if stack.len() < self.arity() {
            Seq::empty()
        } else {
            let rest = stack.take(stack.len() - self.arity());
            match self.rule(stack) {
                Ok(Outcome::Value(v)) => rest.push(v),
                _ => rest,
            }
        }
    }

    /// What applying the operator to a stack returns: the arithmetic that is
    /// still to be carried out, if any, or the reason of the failure.
    pub open spec fn request(self, stack: Seq<Value>) -> Result<Option<Arithmetic>, ExecError> {
        if stack.len() < self.arity() {
            Err(ExecError::TooFewOperands)
        } else {
            match self.rule(stack) {
                Ok(Outcome::Value(_)) => Ok(None),
                Ok(Outcome::Pending(a)) => Ok(Some(a)),
                Err(e) => Err(e),
            }
        }
    }

    /// Reads an operator from its symbol.
    pub fn from_str(op: &str) -> (r: Result<MathOperator, ()>)
        ensures
            r == match MathOperator::of_symbol(op@) {
                Some(o) => Ok::<MathOperator, ()>(o),
                None => Err(()),
            },
    {
        let s = characters(op);
        if s.len() == 1 {
            let c = s[0];
            assert(s@ == seq![c]);
            if c == '+' {
                Ok(MathOperator::Add)
            } else if c == '-' {
                Ok(MathOperator::Sub)
            } else if c == '*' {
                Ok(MathOperator::Mul)
            } else if c == '/' {
                Ok(MathOperator::Div)
            } else if c == '^' {
                Ok(MathOperator::Pow)
            } else if c == '=' {
                Ok(MathOperator::Eq)
            } else if c == '>' {
                Ok(MathOperator::Gt)
            } else if c == '<' {
                Ok(MathOperator::Lt)
            } else if c == '&' {
                Ok(MathOperator::And)
            } else if c == '|' {
                Ok(MathOperator::Or)
            } else if c == '!' {
                Ok(MathOperator::Not)
            } else {
                Err(())
            }
        } else if s.len() == 2 {
            assert(s@ == seq![s@[0], s@[1]]);
            if s[1] != '=' {
                Err(())
            } else if s[0] == '!' {
                Ok(MathOperator::Ne)
            } else if s[0] == '>' {
                Ok(MathOperator::Ge)
            } else if s[0] == '<' {
                Ok(MathOperator::Le)
            } else {
                Err(())
            }
        } else if s.len() == 4 {
            assert(s@ == seq![s@[0], s@[1], s@[2], s@[3]]);
            if s[0] == 's' && s[1] == 'q' && s[2] == 'r' && s[3] == 't' {
                Ok(MathOperator::Sqrt)
            } else {
                Err(())
            }
        } else {
            Err(())
        }
    }

    /// The name by which errors speak of the operator.
    pub fn name(self) -> (name: &'static str)
        ensures
            name@ == self.spec_name(),
    {
        match self {
            MathOperator::Add => "+",
            MathOperator::Sub => "-",
            MathOperator::Mul => "*",
            MathOperator::Div => "/",
            MathOperator::Pow => "^",
            MathOperator::Sqrt => "sqrt",
            MathOperator::Eq => "=",
            MathOperator::Ne => "!=",
            MathOperator::Gt => ">",
            MathOperator::Ge => ">=",
            MathOperator::Lt => "<",
            MathOperator::Le => "<=",
            MathOperator::And => "&&",
            MathOperator::Or => "||",
            MathOperator::Not => "not",
        }
    }

    /// How tightly the operator binds: the higher, the tighter.
    #[verifier::when_used_as_spec(spec_precedence)]
    pub fn precedence(self) -> (p: u8)
        ensures
            p == self.spec_precedence(),
    {
        match self {
            MathOperator::Pow | MathOperator::Sqrt => 4,
            MathOperator::Mul | MathOperator::Div => 3,
            MathOperator::Add | MathOperator::Sub => 2,
            MathOperator::Eq
            | MathOperator::Ne
            | MathOperator::Gt
            | MathOperator::Ge
            | MathOperator::Lt
            | MathOperator::Le => 1,
            MathOperator::And | MathOperator::Or => 0,
            MathOperator::Not => 5,
        }
    }

    /// How the operator groups with operators of its own precedence.
    #[verifier::when_used_as_spec(spec_associativity)]
    pub fn associativity(self) -> (a: Associativity)
        ensures
            a == self.spec_associativity(),
    {
        match self {
            MathOperator::Pow | MathOperator::Sqrt => Associativity::Right,
            _ => Associativity::Left,
        }
    }

    /// Applies the operator to a stack of values: takes its operands off the
    /// stack and puts the resulting value there. Where the result is a number
    /// that takes arithmetic, the arithmetic is returned instead, and the
    /// stack is left without a result.
    pub fn rpn_exec(self, stack: &mut Vec<Value>) -> (r: Result<Option<Arithmetic>, ExecError>)
        ensures
            r == self.request(old(stack)@),
            final(stack)@ == self.stack_after(old(stack)@),
    {
        match self {
            MathOperator::Sqrt | MathOperator::Not => self.unary_op(stack),
            _ => self.binary_op(stack),
        }
    }

    /// Applies an operator that takes one operand.
    fn unary_op(self, stack: &mut Vec<Value>) -> (r: Result<Option<Arithmetic>, ExecError>)
        requires
            self.is_unary(),
        ensures
            r == self.request(old(stack)@),
            final(stack)@ == self.stack_after(old(stack)@),
    {
        let x = match stack.pop() {
            Some(x) => x,
            None => {
                assert(stack@ == Seq::<Value>::empty());
                return Err(ExecError::TooFewOperands);
            },
        };
        assert(stack@ == old(stack)@.take(old(stack)@.len() - 1));
        let result = match self {
            MathOperator::Sqrt => match x {
                Value::Number(a) => return Ok(Some(Arithmetic::Sqrt(a))),
                _ => return Err(ExecError::InvalidType(self)),
            },
            _ => match x {
                Value::Boolean(a) => Value::Boolean(!a),
                _ => return Err(ExecError::InvalidType(self)),
            },
        };
        stack.push(result);
        Ok(None)
    }

    /// Applies an operator that takes two operands: the topmost value is the
    /// right operand, the one below it the left.
    fn binary_op(self, stack: &mut Vec<Value>) -> (r: Result<Option<Arithmetic>, ExecError>)
        requires
            !self.is_unary(),
        ensures
            r == self.request(old(stack)@),
            final(stack)@ == self.stack_after(old(stack)@),
    {
        let y = match stack.pop() {
            Some(y) => y,
            None => {
                assert(stack@ == Seq::<Value>::empty());
                return Err(ExecError::TooFewOperands);
            },
        };
        let x = match stack.pop() {
            Some(x) => x,
            None => {
                assert(stack@ == Seq::<Value>::empty());
                return Err(ExecError::TooFewOperands);
            },
        };
        assert(stack@ == old(stack)@.take(old(stack)@.len() - 2));
        let result = match self {
            MathOperator::Add => match (x, y) {
                (Value::Number(a), Value::Number(b)) => return Ok(Some(Arithmetic::Add(a, b))),
                _ => return Err(ExecError::InvalidType(self)),
            },
            MathOperator::Sub => match (x, y) {
                (Value::Number(a), Value::Number(b)) => return Ok(Some(Arithmetic::Sub(a, b))),
                _ => return Err(ExecError::InvalidType(self)),
            },
            MathOperator::Mul => match (x, y) {
                (Value::Number(a), Value::Number(b)) => return Ok(Some(Arithmetic::Mul(a, b))),
                _ => return Err(ExecError::InvalidType(self)),
            },
            MathOperator::Div => match (x, y) {
                (Value::Number(a), Value::Number(b)) => return Ok(Some(Arithmetic::Div(a, b))),
                _ => return Err(ExecError::InvalidType(self)),
            },
            MathOperator::Pow => match (x, y) {
                (Value::Number(a), Value::Number(b)) => return Ok(Some(Arithmetic::Pow(a, b))),
                _ => return Err(ExecError::InvalidType(self)),
            },
            MathOperator::Eq => match (x, y) {
                (Value::Number(a), Value::Number(b)) => Value::Boolean(a == b),
                (Value::Boolean(a), Value::Boolean(b)) => Value::Boolean(a == b),
                _ => return Err(ExecError::InvalidType(self)),
            },
            MathOperator::Ne => match (x, y) {
                (Value::Number(a), Value::Number(b)) => Value::Boolean(a != b),
                (Value::Boolean(a), Value::Boolean(b)) => Value::Boolean(a != b),
                _ => return Err(ExecError::InvalidType(self)),
            },
            MathOperator::Gt => match (x, y) {
                (Value::Number(a), Value::Number(b)) => Value::Boolean(b.lt(a)),
                _ => return Err(ExecError::InvalidType(self)),
            },
            MathOperator::Ge => match (x, y) {
                (Value::Number(a), Value::Number(b)) => Value::Boolean(b.le(a)),
                _ => return Err(ExecError::InvalidType(self)),
            },
            MathOperator::Lt => match (x, y) {
                (Value::Number(a), Value::Number(b)) => Value::Boolean(a.lt(b)),
                _ => return Err(ExecError::InvalidType(self)),
            },
            MathOperator::Le => match (x, y) {
                (Value::Number(a), Value::Number(b)) => Value::Boolean(a.le(b)),
                _ => return Err(ExecError::InvalidType(self)),
            },
            MathOperator::And => match (x, y) {
                (Value::Boolean(a), Value::Boolean(b)) => Value::Boolean(a && b),
                _ => return Err(ExecError::InvalidType(self)),
            },
            _ => match (x, y) {
                (Value::Boolean(a), Value::Boolean(b)) => Value::Boolean(a || b),
                _ => return Err(ExecError::InvalidType(self)),
            },
        };
        stack.push(result);
        Ok(None)
    }
}

} // verus!
