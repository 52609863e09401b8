//! Visual scripting: variables, the elements of a document, and the order
//! in which a document's elements run.
pub mod variable;
pub mod element;
pub mod stream;
pub mod action_tracker;
pub mod process;
pub mod builders;
pub mod document;
