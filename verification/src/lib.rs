//! Vea's verified core: canonical authorization of model-proposed actions
//! and the pure state machines of the durable event store.

pub mod bytes;
pub mod json;
pub mod canonical;
pub mod action;
pub mod order;
pub mod engine;
pub mod approval;
pub mod error;
pub mod model;
pub mod projects;
pub mod side_effects;
pub mod keyed;
pub mod ledger;
pub mod replay;
pub mod migrations;
pub mod host;
pub mod paths;
