//! What the daemon decides: whom to sync with, what to take in, what to send
//! and when.

pub mod accounts;
pub mod announces;
pub mod backchannel;
pub mod control;
pub mod delivery;
pub mod identities;
pub mod ingress;
pub mod intake;
pub mod laws;
pub mod outbound;
pub mod peering;
pub mod queues;
pub mod registrations;
pub mod resources;
pub mod schedule;
pub mod sending;
pub mod settings;
pub mod turns;
