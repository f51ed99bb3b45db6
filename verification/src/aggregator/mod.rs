//! The aggregator: the register of applications and of the directives
//! posted for their locations.

pub mod application;
pub mod application_register;
