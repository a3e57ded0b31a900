//! Core of a two-machine script runtime: values, register files, activations,
//! scope chains and the object model of the first machine, and the event
//! dispatcher and class descriptors of the second.

pub mod value;
pub mod registers;
pub mod names;
pub mod heap;
pub mod activation;
pub mod dispatch;
pub mod event_flow;
pub mod class;
pub mod coerce;
pub mod event_dispatcher;
pub mod ops;
pub mod avm;
pub mod storage;
