//! Publishing mods to a workshop-style distribution service: manifest
//! parsing, identifier resolution, and the create/submit state machine.

pub mod manifest;
pub mod numbers;
pub mod orchestrate;
