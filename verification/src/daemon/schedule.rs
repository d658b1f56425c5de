//! What the daemon does now and then.

use vstd::prelude::*;
use crate::daemon::delivery::{queue_unknown_propagation_node_path_request, PathMailbox, PathQuery};
#[allow(unused_imports)]
use crate::daemon::delivery::tried;
use crate::ids::DestinationHash;
use crate::sync_task::events::KnownIdentities;
use crate::tables::PeerMap;

verus! {

/// Milliseconds between two downloads.
pub const DOWNLOAD_INTERVAL_MS: u64 = 90_000;

/// Milliseconds between two rounds of throwing out what is old.
pub const CULL_INTERVAL_MS: u64 = 300_000;

/// Milliseconds between two times that the daemon's state is written.
pub const SAVE_INTERVAL_MS: u64 = 300_000;

/// Milliseconds between two rounds of forgetting keys.
pub const CLEAN_INTERVAL_MS: u64 = 900_000;

/// Milliseconds between two readings of all paths.
pub const ROUTE_REFRESH_INTERVAL_MS: u64 = 300_000;

/// When things were last done, in milliseconds.
#[derive(Debug, Clone, Copy, PartialEq, Eq, Structural)]
pub struct DaemonClock {
    pub last_peer_announce: u64,
    pub last_node_announce: u64,
    pub last_propagation_check: u64,
    pub last_crypto_save: u64,
    pub last_cull: u64,
    pub last_ratchet_clean: u64,
    pub last_route_refresh: u64,
}

/// More than an interval went by.
pub open spec fn is_past(now: u64, last: u64, interval: u64) -> bool {
    last + interval < now
}

/// Tells whether more than an interval went by.
pub fn has_passed(now: u64, last: u64, interval: u64) -> (passed: bool)
    ensures
        passed == is_past(now, last, interval),
{
    now > last && now - last > interval
}

/// What is to be done in this tick.
#[derive(Debug, Clone, Copy, PartialEq, Eq, Structural)]
pub struct UpkeepJobs {
    /// Throw out what is old.
    pub cull: bool,
    /// Write the daemon's state.
    pub save: bool,
    /// Forget keys that are of no use.
    pub clean: bool,
}

/// What is to be done about a download.
#[derive(Debug, Clone, Copy, PartialEq, Eq, Structural)]
pub enum DownloadStep {
    Nothing,
    /// Start one.
    Start,
    /// The node's identity is not known: a path to it was asked for.
    PathRequested,
    /// As above, but nobody could be asked.
    PathRefused,
}

impl DaemonClock {
    /// A daemon that starts now: announces and downloads are due at once.
    pub fn new(now: u64) -> (clock: Self)
        ensures
            clock == (DaemonClock {
                last_peer_announce: 0,
                last_node_announce: 0,
                last_propagation_check: 0,
                last_crypto_save: now,
                last_cull: now,
                last_ratchet_clean: now,
                last_route_refresh: 0,
            }),
    {
        DaemonClock {
            last_peer_announce: 0,
            last_node_announce: 0,
            last_propagation_check: 0,
            last_crypto_save: now,
            last_cull: now,
            last_ratchet_clean: now,
            last_route_refresh: 0,
        }
    }

    /// The upkeep that is due.
    pub open spec fn due(self, now: u64) -> UpkeepJobs {
        UpkeepJobs {
            cull: is_past(now, self.last_cull, CULL_INTERVAL_MS),
            save: is_past(now, self.last_crypto_save, SAVE_INTERVAL_MS),
            clean: is_past(now, self.last_ratchet_clean, CLEAN_INTERVAL_MS),
        }
    }

    /// Picks the upkeep that is due, and notes that it is done.
    pub fn take_due_jobs(&mut self, now: u64) -> (jobs: UpkeepJobs)
        ensures
            jobs == old(self).due(now),
            *final(self) == (DaemonClock {
                last_cull: if jobs.cull {
                    now
                } else {
                    old(self).last_cull
                },
                last_crypto_save: if jobs.save {
                    now
                } else {
                    old(self).last_crypto_save
                },
                last_ratchet_clean: if jobs.clean {
                    now
                } else {
                    old(self).last_ratchet_clean
                },
                ..*old(self)
            }),
    {
        let jobs = UpkeepJobs {
            cull: has_passed(now, self.last_cull, CULL_INTERVAL_MS),
            save: has_passed(now, self.last_crypto_save, SAVE_INTERVAL_MS),
            clean: has_passed(now, self.last_ratchet_clean, CLEAN_INTERVAL_MS),
        };
        if jobs.cull {
            self.last_cull = now;
        }
        if jobs.save {
            self.last_crypto_save = now;
        }
        if jobs.clean {
            self.last_ratchet_clean = now;
        }
        jobs
    }

    /// Starts a download when one is due and none is under way. From a node
    /// whose identity is not known nothing can be downloaded; a path to it is
    /// asked for.
    pub fn download_due(
        &mut self,
        paths: &mut PathMailbox,
        idle: bool,
        node: Option<DestinationHash>,
        known: &KnownIdentities,
        now: u64,
    ) -> (step: DownloadStep)
        ensures
            ({
                let due = is_past(now, old(self).last_propagation_check, DOWNLOAD_INTERVAL_MS)
                    && idle;
                match node {
                    Some(node) => if !due {
                        step is Nothing && *final(self) == *old(self) && final(paths)@ == old(paths)@
                    } else {
                        &&& *final(self) == (DaemonClock {
                            last_propagation_check: now,
                            ..*old(self)
                        })
                        &&& if known@.contains_key(node) {
                            step is Start && final(paths)@ == old(paths)@
                        } else {
                            step == (if old(paths)@.closed || old(paths)@.free == 0 {
                                DownloadStep::PathRefused
                            } else {
                                DownloadStep::PathRequested
                            }) && final(paths)@ == tried(
                                old(paths)@,
                                PathQuery::RequestPath(node),
                            )
                        }
                    },
                    None => step is Nothing && *final(self) == *old(self) && final(paths)@ == old(paths)@,
                }
            }),
    {
        let due: bool = idle && has_passed(now, self.last_propagation_check, DOWNLOAD_INTERVAL_MS);
        match node {
            Some(node) => {
                if !due {
                    return DownloadStep::Nothing;
                }
                if known.contains_key(&node) {
                    self.last_propagation_check = now;
                    return DownloadStep::Start;
                }
                if queue_unknown_propagation_node_path_request(
                    paths,
                    node,
                    &mut self.last_propagation_check,
                    now,
                ) {
                    DownloadStep::PathRequested
                } else {
                    DownloadStep::PathRefused
                }
            },
            None => DownloadStep::Nothing,
        }
    }

    /// Tells whether the delivery destination is to be announced.
    pub fn peer_announce_due(&self, interval: Option<u64>, now: u64) -> (due: bool)
        ensures
            due == (interval matches Some(interval) && is_past(
                now,
                self.last_peer_announce,
                interval,
            )),
    {
        match interval {
            Some(interval) => has_passed(now, self.last_peer_announce, interval),
            None => false,
        }
    }

    /// Notes that the delivery destination was announced; where the announce was
    /// not kept, it stays due.
    pub fn peer_announced(&mut self, kept: bool, now: u64)
        ensures
            *final(self) == (if kept {
                DaemonClock { last_peer_announce: now, ..*old(self) }
            } else {
                *old(self)
            }),
    {
        if kept {
            self.last_peer_announce = now;
        }
    }

    /// Tells whether the node is to be announced.
    pub fn node_announce_due(&self, enabled: bool, interval: Option<u64>, now: u64) -> (due: bool)
        ensures
            due == (enabled && (interval matches Some(interval) && is_past(
                now,
                self.last_node_announce,
                interval,
            ))),
    {
        match interval {
            Some(interval) => enabled && has_passed(now, self.last_node_announce, interval),
            None => false,
        }
    }

    /// Notes that the node was announced, with its control destination where
    /// that was to be announced too; where either was not kept, both stay due.
    pub fn node_announced(&mut self, node_kept: bool, control_kept: Option<bool>, now: u64)
        ensures
            *final(self) == (if node_kept && control_kept != Some(false) {
                DaemonClock { last_node_announce: now, ..*old(self) }
            } else {
                *old(self)
            }),
    {
        let control: bool = match control_kept {
            Some(kept) => kept,
            None => true,
        };
        if node_kept && control {
            self.last_node_announce = now;
        }
    }

    /// Tells whether all paths are to be read again: they were not for a while,
    /// or none is known.
    pub fn route_refresh_due(&self, routes_known: bool, now: u64) -> (due: bool)
        ensures
            due == !(routes_known && now < self.last_route_refresh + ROUTE_REFRESH_INTERVAL_MS),
    {
        !(routes_known && (now <= self.last_route_refresh || now - self.last_route_refresh
            < ROUTE_REFRESH_INTERVAL_MS))
    }

    /// Takes the paths that the transport knows in place of those known before.
    /// Paths that expired are left out.
    pub fn routes_refreshed(&mut self, entries: &[RouteEntry], now: u64) -> (routes: PeerMap<u8>)
        ensures
            routes@ == routes_from(entries@, now),
            *final(self) == (DaemonClock { last_route_refresh: now, ..*old(self) }),
    {
        let mut routes: PeerMap<u8> = PeerMap::new();
        let mut i: usize = 0;
        while i < entries.len()
            invariant
                i <= entries@.len(),
                routes@ == routes_from(entries@.take(i as int), now),
            decreases entries@.len() - i,
        {
            let entry: RouteEntry = entries[i];
            proof {
                assert(entries@.take(i + 1).drop_last() =~= entries@.take(i as int));
                assert(entries@.take(i + 1).last() == entry);
            }
            if entry.expires > now {
                routes.insert(
                    entry.hash,
                    if entry.hops > 1 {
                        entry.hops
                    } else {
                        1
                    },
                );
            }
            i = i + 1;
        }
        assert(entries@.take(i as int) =~= entries@);
        self.last_route_refresh = now;
        routes
    }
}

/// A path that the transport knows.
#[derive(Debug, Clone, Copy)]
pub struct RouteEntry {
    pub hash: DestinationHash,
    /// When it expires, in milliseconds.
    pub expires: u64,
    pub hops: u8,
}

/// Hops by the paths that have not expired, at least one each.
pub open spec fn routes_from(entries: Seq<RouteEntry>, now: u64) -> Map<DestinationHash, u8>
    decreases entries.len(),
{
    if entries.len() == 0 {
        Map::empty()
    } else {
        let rest = routes_from(entries.drop_last(), now);
        let entry = entries.last();
        if entry.expires > now {
            rest.insert(
                entry.hash,
                if entry.hops > 1 {
                    entry.hops
                } else {
                    1
                },
            )
        } else {
            rest
        }
    }
}

/// A destination whose paths have all expired is not routed to.
pub proof fn law_expired_routes_are_gone(
    entries: Seq<RouteEntry>,
    now: u64,
    dest_hash: DestinationHash,
)
    requires
        forall|i: int|
            0 <= i < entries.len() && (#[trigger] entries[i]).hash == dest_hash
                ==> entries[i].expires <= now,
    ensures
        !routes_from(entries, now).contains_key(dest_hash),
    decreases entries.len(),
{
    if entries.len() > 0 {
        assert forall|i: int|
            0 <= i < entries.drop_last().len() && (#[trigger] entries.drop_last()[i]).hash
                == dest_hash implies entries.drop_last()[i].expires <= now by {
            assert(entries.drop_last()[i] == entries[i]);
        }
        law_expired_routes_are_gone(entries.drop_last(), now, dest_hash);
        assert(entries.last() == entries[entries.len() - 1]);
    }
}

/// What was done is not due again until its interval went by.
pub proof fn law_done_is_not_due(now: u64, later: u64, interval: u64)
    requires
        later <= now + interval,
    ensures
        !is_past(later, now, interval),
{
}

} // verus!
