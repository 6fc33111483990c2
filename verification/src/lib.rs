//! Client-side logic of the Avalon SDK: wire vocabularies, signed-message
//! construction, error classification, network-trust decisions, the
//! overlay-walk and submission state machines.

pub mod account;
pub mod client;
pub mod achievements;
pub mod cross_node_login;
pub mod crypto;
pub mod error;
pub mod guild_admin;
pub mod http;
pub mod integrators;
pub mod issuer_registration;
pub mod network;
pub mod registry;
pub mod signed_actions;
pub mod submission;
pub mod text;
pub mod topology_walk;
pub mod types;
