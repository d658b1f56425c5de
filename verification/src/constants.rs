//! Limits and timings of the propagation protocol.

use vstd::prelude::*;

verus! {

/// Bytes in a kilobyte, as limits are configured and announced.
pub const BYTES_PER_KILOBYTE: usize = 1000;

/// Largest propagation transfer, in kilobytes.
pub const PROPAGATION_LIMIT: usize = 256;

/// Largest direct delivery, in kilobytes.
pub const DELIVERY_LIMIT: usize = 1000;

/// Largest sync with a peer, in kilobytes.
pub const SYNC_LIMIT: usize = 10_240;

/// Storage of a node that is not configured otherwise, in bytes.
pub const DEFAULT_MAX_STORAGE: usize = 268_435_456;

/// Seconds that a stored message lives.
pub const MESSAGE_EXPIRY: u64 = 2_592_000;

/// Work that a peering key has to show.
pub const PEERING_COST: u8 = 18;

/// Seconds between two offers of one peer.
pub const PN_STAMP_THROTTLE: u64 = 180;

/// Length of a destination hash.
pub const DESTINATION_LENGTH: usize = 16;

/// Bytes that the structure of a sync or download takes.
pub const INITIAL_STRUCTURE_OVERHEAD: usize = 24;

/// Bytes that each message adds to a sync or download beside its data.
pub const PER_MESSAGE_OVERHEAD: usize = 16;

/// Seconds of age up to which all messages weigh by size alone.
pub const WEIGHT_AGE_FLOOR: u64 = 345_600;

/// Path of the offer request.
pub const OFFER_REQUEST_PATH: &'static str = "/offer";

/// Path of the request for messages.
pub const MESSAGE_GET_PATH: &'static str = "/get";

/// Path of the request for figures.
pub const STATS_GET_PATH: &'static str = "/pn/get/stats";

/// Path of the request to sync with a peer.
pub const SYNC_REQUEST_PATH: &'static str = "/pn/peer/sync";

/// Path of the request to break a peering.
pub const UNPEER_REQUEST_PATH: &'static str = "/pn/peer/unpeer";

} // verus!
