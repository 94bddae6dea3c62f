//! Completion for Starlark sources.
//!
//! A language server asks what can stand at a place in a document. This library answers:
//!
//! - [`dot`] recognises a member access to the left of the cursor, and [`member`] offers the
//!   fields of the loaded struct in front of the dot;
//! - [`default`] offers the symbols in sight, those of other documents, the global ones and the
//!   keywords;
//! - [`exported`] offers the names that a `load` can take from a module;
//! - [`parameter`] offers the parameters of the function that is called;
//! - [`string_literal`] offers what the host knows to stand in a string;
//! - [`provider`] holds what is the same everywhere.
//!
//! A document is a [`module`], made of what [`syntax`] takes from a syntax tree. [`item`],
//! [`symbol`] and [`definition`] hold the values that go in and out. Whatever needs a disk or
//! other documents comes in as a function, and each contract holds for every answer that such a
//! function may give; [`loading`] says what that means for a module that is to be loaded. What is
//! asked of other crates, and believed of their answers, stands in [`docs`] and [`syntax`].
//! [`laws`] says what holds of the completions as a whole.

pub mod default;
pub mod definition;
pub mod docs;
pub mod dot;
pub mod exported;
pub mod item;
pub mod laws;
pub mod loading;
pub mod member;
pub mod module;
pub mod parameter;
pub mod provider;
pub mod string_literal;
pub mod symbol;
pub mod syntax;
