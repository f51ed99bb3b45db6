//! Aggregator and planner of a small application orchestration control plane.
//!
//! The crate keeps the declared objective and last reported state of every
//! managed application in an in-memory register, and reconciles the two by
//! planning corrective orders for a downstream executor.
//!
//! - [`topology`] and [`orders`] hold the data: applications and their trees
//!   of locations, and the orders and directives.
//! - [`aggregator`] holds the register, and [`endpoints`] what each request
//!   of the ingress surface does to it.
//! - [`planner`] holds the classifier, the order builder, the endpoint map
//!   and the reconciliation loop as a machine of states and events.
//! - [`text`], [`keyed`] and [`text_map`] are the tools the others share.
//!
//! Contracts are stated over views: every executable type has a view, written
//! `@`, in which strings are sequences of characters and vectors are
//! sequences. The crate neither sleeps nor touches the network: the program
//! that drives it does, as the planner's commands ask.

pub mod aggregator;
pub mod endpoints;
pub mod keyed;
pub mod orders;
pub mod planner;
pub mod text;
pub mod text_map;
pub mod topology;
