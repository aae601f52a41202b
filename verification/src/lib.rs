//! A small schema-definition language: a scanner, a recursive-descent parser
//! and the rules by which parsed statements change JSON catalog documents.
//!
//! The crate performs no input or output. A shell reads a line, runs it
//! through [`tokenizer::Tokenizer`] and [`parser::Parser`], and asks
//! [`generator::Generator`] what each statement requires. What is asked for it
//! carries out with the functions of [`catalog`] and [`report`], which turn
//! the bytes of a catalog file into the text to write or the lines to show.

pub mod text;
pub mod tokenizer;
pub mod grammar;
pub mod notation;
pub mod parser;
pub mod sorted;
pub mod json;
pub mod generator;
pub mod catalog;
pub mod report;
