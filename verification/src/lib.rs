//! Decision logic of a small task shell.

pub mod args;
pub mod arithmetic;
pub mod branches;
pub mod command;
pub mod condition;
pub mod expand;
pub mod list;
pub mod loops;
pub mod modifier;
pub mod pattern;
pub mod redirect;
pub mod run;
pub mod sequence;
pub mod set;
pub mod state;
pub mod syntax;
pub mod text;
pub mod types;
pub mod word_run;
pub mod words;
