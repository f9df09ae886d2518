//! Compile-time assertions that a type implements a trait.
//!
//! An assertion such as `Vec<u8>: Clone` states that a type meets a bound;
//! groups such as `for<T: Clone> where T: Send { Vec<T>: Clone }` state it
//! under generic parameters and premises. This crate turns the tokens of a
//! list of assertions into code that the compiler accepts if and only if
//! every assertion holds:
//!
//! - [`token`] and [`token_iter`] hold the tokens and the cursor that reads
//!   them;
//! - [`types`] holds the tree of assertions;
//! - [`grammar`] says what a sequence of tokens parses to, and [`parse`] is
//!   the parser, proved to do that;
//! - [`expansion`] says what code a tree expands to, and [`assert_impl`] is
//!   the generator, proved to write that;
//! - [`laws`] proves what holds of both on every input.
//!
//! The values that contracts speak of are the views of the data: a token is
//! seen as a [`token::TokenView`], a sequence of tokens as a sequence of
//! views. Spans are those of `proc_macro2`; they are carried, never looked
//! into.

pub mod assert_impl;
pub mod expansion;
pub mod grammar;
pub mod laws;
pub mod parse;
pub mod token;
pub mod token_iter;
pub mod types;
