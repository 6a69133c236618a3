//! A language of assignments over the multivectors of the projective
//! geometric algebra of the plane: its lexer, its parser, the evaluation of
//! its scripts, and the algebra that its operators stand for.
//!
//! The library holds no numbers. The evaluation of an expression gives the
//! steps that compute its value, and the algebra gives, for each product and
//! map, the table that says which components meet, with which sign, and
//! where the result goes. What the steps and the tables mean is stated over
//! the real numbers.
pub mod evaluation;
pub mod lexer;
pub mod meaning;
pub mod multivector;
pub mod parameter;
pub mod parsing;
pub mod tables;
pub mod text;
pub mod tokens;
