//! The process-wide cache of merge-request snapshots and project policies.
//!
//! Instants handed to the cache are milliseconds of a monotonic clock.

use vstd::prelude::*;
use std::collections::HashMap;
use crate::config::{is_default_config, RepoConfig};
use crate::snapshot::FullMergeRequest;
use crate::types::MergeRequest;

verus! {

broadcast use vstd::std_specs::hash::group_hash_axioms;

/// How long a project policy stays valid after it was stored: 30 minutes.
pub const CONFIG_TTL_MS: u64 = 1_800_000;

/// A stored project policy and the instant from which it is stale.
pub struct ConfigEntry {
    pub config: RepoConfig,
    pub valid_until: u64,
}

/// Snapshots keyed by merge-request id, and policies keyed by project id.
pub struct Cache {
    merge_requests: HashMap<u64, FullMergeRequest>,
    project_configs: HashMap<u64, ConfigEntry>,
}

/// The stored snapshot of `mr` is current: it was taken at the same
/// `updated_at`.
pub open spec fn snapshot_current(snapshots: Map<u64, FullMergeRequest>, mr: MergeRequest) -> bool {
    snapshots.contains_key(mr.id) && snapshots[mr.id].request.updated_at == mr.updated_at
}

/// A policy is stored for `project_id` and has not expired at `now`.
pub open spec fn config_live(configs: Map<u64, ConfigEntry>, project_id: u64, now: u64) -> bool {
    configs.contains_key(project_id) && now < configs[project_id].valid_until
}

impl Cache {
    /// The stored snapshots.
    pub closed spec fn snapshots(&self) -> Map<u64, FullMergeRequest> {
        self.merge_requests@
    }

    /// The stored policies with their expiry.
    pub closed spec fn configs(&self) -> Map<u64, ConfigEntry> {
        self.project_configs@
    }

    /// An empty cache.
    pub fn new() -> (r: Cache)
        ensures
            r.snapshots() == Map::<u64, FullMergeRequest>::empty(),
            r.configs() == Map::<u64, ConfigEntry>::empty(),
    {
        Cache { merge_requests: HashMap::new(), project_configs: HashMap::new() }
    }

    /// True unless a snapshot of `mr` taken at its current `updated_at` is stored.
    pub fn merge_request_changed(&self, mr: &MergeRequest) -> (r: bool)
        ensures
            r == !snapshot_current(self.snapshots(), *mr),
    {
        match self.merge_requests.get(&mr.id) {
            Some(x) => x.request.updated_at != mr.updated_at,
            None => true,
        }
    }

    /// The stored snapshot of `mr`, when it is current.
    pub fn get_merge_request(&self, mr: &MergeRequest) -> (r: Option<&FullMergeRequest>)
        ensures
            r is Some <==> snapshot_current(self.snapshots(), *mr),
            r matches Some(x) ==> *x == self.snapshots()[mr.id],
    {
        match self.merge_requests.get(&mr.id) {
            Some(x) => {
                if x.request.updated_at == mr.updated_at {
                    Some(x)
                } else {
                    None
                }
            },
            None => None,
        }
    }

    /// Stores `mr`, replacing any earlier snapshot of the same merge request.
    pub fn set_merge_request(&mut self, mr: FullMergeRequest)
        ensures
            final(self).snapshots() == old(self).snapshots().insert(mr.request.id, mr),
            final(self).configs() == old(self).configs(),
    {
        let id = mr.request.id;
        self.merge_requests.insert(id, mr);
    }

    /// The stored policy of `project_id`, unless it is missing or expired at
    /// `now`; an expired policy is dropped from the cache.
    pub fn get_project_config(&mut self, project_id: u64, now: u64) -> (r: Option<&RepoConfig>)
        ensures
            r is Some <==> config_live(old(self).configs(), project_id, now),
            r matches Some(c) ==> *c == old(self).configs()[project_id].config,
            config_live(old(self).configs(), project_id, now) ==> final(self).configs() == old(self).configs(),
            !config_live(old(self).configs(), project_id, now) ==> final(self).configs() == old(self).configs().remove(
                project_id,
            ),
            final(self).snapshots() == old(self).snapshots(),
    {
        let live = match self.project_configs.get(&project_id) {
            Some(e) => now < e.valid_until,
            None => false,
        };
        if live {
            match self.project_configs.get(&project_id) {
                Some(e) => Some(&e.config),
                None => None,
            }
        } else {
            self.project_configs.remove(&project_id);
            None
        }
    }

    /// Stores `conf` for `project_id`, valid for `CONFIG_TTL_MS` from `now`.
    pub fn set_project_config(&mut self, project_id: u64, conf: RepoConfig, now: u64)
        requires
            now <= u64::MAX - CONFIG_TTL_MS,
        ensures
            final(self).configs() == old(self).configs().insert(
                project_id,
                ConfigEntry { config: conf, valid_until: (now + CONFIG_TTL_MS) as u64 },
            ),
            final(self).snapshots() == old(self).snapshots(),
    {
        let entry = ConfigEntry { config: conf, valid_until: now + CONFIG_TTL_MS };
        self.project_configs.insert(project_id, entry);
    }

    /// Stores the policy read for `project_id`, or the default policy when
    /// none could be read, valid for `CONFIG_TTL_MS` from `now`.
    pub fn store_loaded_config(&mut self, project_id: u64, loaded: Option<RepoConfig>, now: u64)
        requires
            now <= u64::MAX - CONFIG_TTL_MS,
        ensures
            final(self).configs().dom() == old(self).configs().dom().insert(project_id),
            forall|k: u64| k != project_id && old(self).configs().contains_key(k)
                ==> #[trigger] final(self).configs()[k] == old(self).configs()[k],
            final(self).configs()[project_id].valid_until == now + CONFIG_TTL_MS,
            loaded matches Some(c) ==> final(self).configs()[project_id].config == c,
            loaded is None ==> is_default_config(final(self).configs()[project_id].config),
            final(self).snapshots() == old(self).snapshots(),
    {
        self.set_project_config(project_id, RepoConfig::or_default(loaded), now);
    }
}

/// A policy stored at `set_at` is served, unchanged, by every lookup
/// before `set_at + CONFIG_TTL_MS`, and by none from then on.
pub proof fn lemma_config_ttl(
    configs: Map<u64, ConfigEntry>,
    project_id: u64,
    conf: RepoConfig,
    set_at: u64,
    now: u64,
)
    requires
        set_at <= u64::MAX - CONFIG_TTL_MS,
    ensures
        ({
            let stored = configs.insert(
                project_id,
                ConfigEntry { config: conf, valid_until: (set_at + CONFIG_TTL_MS) as u64 },
            );
            &&& config_live(stored, project_id, now) <==> now < set_at + CONFIG_TTL_MS
            &&& config_live(stored, project_id, now) ==> stored[project_id].config == conf
        }),
{
}

} // verus!
