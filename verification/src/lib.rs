//! A personal developer toolbox: the logic of its tools (text conversion,
//! hashing, identifier and password generation, diffing, notes, tasks and
//! finances), with contracts proved by Verus.
pub mod app;
pub mod text;
pub mod tools;
pub mod clock;
