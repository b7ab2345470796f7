//! Type-state builder generation: classifies a record's fields, derives the
//! construction phases, and plans the operations offered on each phase.

pub mod classify;
pub mod machine;
pub mod phases;
