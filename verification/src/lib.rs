//! An evaluator for arithmetic and logical expressions, written in infix
//! order or in postfix order, over numbers and booleans.
//!
//! Text is normalized and split into words (`utils`), the words are read as
//! tokens (`lexeme`, `rpn`, `infix`), an expression in infix order is
//! converted to postfix order by the shunting-yard method (`infix`), and an
//! expression in postfix order is evaluated on a stack (`rpn`, `math`).
//!
//! Numbers are double-precision numbers held by their encoding (`float`).
//! The library decides everything about an expression that can be read off
//! the encodings; the arithmetic itself, and what number a text denotes, it
//! takes from its caller.

pub mod float;
pub mod infix;
pub mod lexeme;
pub mod math;
pub mod rpn;
pub mod utils;
