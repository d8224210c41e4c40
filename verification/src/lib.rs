//! A minimal interactive fiction engine: a story is a set of named scenes,
//! each with a description and a set of describable items. Player input is
//! tokenized into actions, and each action is resolved against the current
//! scene to produce a line of output text.

pub mod actions;
pub mod repl;
pub mod story;
pub mod text;
