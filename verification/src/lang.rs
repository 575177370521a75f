//! Front-ends: the token vocabulary and the rule table of each notation.
pub mod bnf;
pub mod ebnf;
pub mod golang;
