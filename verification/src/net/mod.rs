//! Peers, requests and discovery.
pub mod address;
pub mod bootnode;
pub mod catch_up_laws;
pub mod discovery;
pub mod exchange_laws;
pub mod fetch;
pub mod identity;
pub mod message_id;
pub mod peer_laws;
pub mod range_sync;
pub mod req_resp;
pub mod req_resp_laws;
pub mod server;
pub mod settings;
pub mod startup;
pub mod startup_laws;
pub mod state_laws;
pub mod subnets;
pub mod swarm;
