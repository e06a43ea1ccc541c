//! An actor runtime: units exchange typed messages through bounded mailboxes, each unit
//! driven by a hierarchical state machine, under one supervisor that mints mailboxes and
//! launches new units.
pub mod components;
pub mod counter;
pub mod merge;
pub mod messaging;
pub mod pool;
pub mod root;
pub mod runtime;
pub mod state_machine;
pub mod supervisor;
