//! The planner: it finds what is wrong in an application's topology, decides
//! how to remedy it, and makes the orders for the executor.

pub mod build_order;
pub mod make_request;
pub mod memory;
pub mod planner;
pub mod problem;
pub mod schedule;
