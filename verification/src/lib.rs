//! A small runtime for linear pipelines: services composed into a chain
//! that runs them in order, fails fast, and shares one typed key-value
//! store between the stages.
//!
//! - [`ServiceContext`] is the store. Values go in with their static type
//!   erased and come out only as the type they went in as.
//! - [`BasicService`] is one stage, and [`ServiceChainExecutor`] a chain of
//!   them: a single service, or a pair of a head and a tail.
//! - [`ServiceProcessor`] binds a chain to the store that its runs share.
//!
//! The functions carry contracts that Verus proves, and `laws` states what
//! holds between them. Two facts about std are taken on trust, each where
//! it is used: that a cloned `Arc` points to the same value, and that the
//! conversion of a type into itself changes nothing.

pub mod chain;
pub mod context;
pub mod error;
pub mod laws;
pub mod processor;
pub mod service;
pub mod value;

pub use chain::ServiceChainExecutor;
pub use context::ServiceContext;
pub use error::ServiceError;
pub use processor::ServiceProcessor;
pub use service::BasicService;
pub use value::{ContextValue, StoredValue, ValueKind};
