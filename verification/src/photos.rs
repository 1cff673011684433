//! Copying photos into a library without copying what the library has
//! already: the results that the operations count, and the decisions they
//! take on what they find.

pub mod cleaner;
pub mod copier;
pub mod db;
pub mod existence_checker;
pub mod progress;
pub mod scanner;
pub mod types;
