//! Block import, validator duties and aggregation.
pub mod aggregation;
pub mod aggregation_laws;
pub mod beacon;
pub mod beacon_laws;
pub mod duties;
pub mod duty_laws;
pub mod events;
pub mod import;
pub mod import_laws;
pub mod pending;
pub mod pending_laws;
pub mod proposal;
pub mod proposal_laws;
pub mod server;
