//! The client call pipeline of each transport: building the request data
//! unit, and resolving the reply against the request it answers.

pub mod rtu;
pub mod tcp;
