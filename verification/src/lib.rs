//! A handful of small, independently usable components, each verified.
//!
//! - [`linked_list`]: a singly linked, last-in-first-out list of owned nodes,
//!   with the laws that its operations obey.
//! - [`minigrep`]: the lines of a text that contain a query.
//! - [`text`]: lines, occurrences and positions in strings, which the search
//!   and the readings build on.
//! - [`traits`]: things that can be summed up in a line of text.
//! - [`convert`]: the written form of a temperature reading.
//! - [`statistics`]: sum, middle and most frequent value of whole numbers.
//! - [`random`]: a number drawn at random, and the sentence that reports it.
//! - [`vector`]: a named piece of text.

pub mod convert;
pub mod linked_list;
pub mod minigrep;
pub mod random;
pub mod statistics;
pub mod text;
pub mod traits;
pub mod vector;
