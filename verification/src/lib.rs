//! Composition of algebraic constraint systems over execution traces.
//!
//! A component states polynomial identities over the cells of a trace and
//! fills that trace from a witness. Components are placed side by side with
//! [`horizontal::Horizontal`], which renumbers the columns of its right child.

pub mod field;
pub mod table;
pub mod expression;
pub mod writer;
pub mod component;
pub mod horizontal;
pub mod seeded;
