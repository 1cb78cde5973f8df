//! Core of a vocabulary-learning backend: statement building over an
//! allow-listed table schema, the collection/word association diff, the
//! assembly of joined rows into collections, and the quiz request body.

pub mod error;
pub mod value;
pub mod model;
pub mod store;
pub mod assoc;
pub mod assemble;
pub mod controllers;
pub mod quiz;
