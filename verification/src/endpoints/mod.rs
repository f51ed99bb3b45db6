//! The ingress surface: what each request does to the register, and the
//! response it gets. Parsing requests and writing responses is left to the
//! program that serves them.

pub mod contexter;
pub mod receptor;
pub mod reply;
