//! Store-and-forward propagation for LXMF: the message store of a propagation
//! node, the peer sync task, and the decisions of the daemon around them.

pub mod constants;
pub mod daemon;
pub mod ids;
pub mod msgpack;
pub mod node;
pub mod offer;
pub mod peer;
pub mod stamper;
pub mod store;
pub mod sync;
pub mod sync_task;
pub mod tables;
pub mod text;
pub mod transport;
