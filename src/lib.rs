//! A scanner for a tiny eight-instruction language: each recognised
//! character becomes a token carrying its 1-based line and column, and every
//! other character is skipped.

pub mod instruction;
pub mod scanner;
pub mod token;
