//! Adaptive scheduling of periodic polling calls spread over independently
//! configured regions that share one global rate budget.

pub mod alert;
pub mod boot;
pub mod event;
pub mod region;
pub mod sink;
