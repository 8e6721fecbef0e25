//! The process-wide resource manager: the map from worker-host address to the
//! host's latest resource snapshot, the wait-list correlating a synchronous
//! invocation's identifier with the channel that will carry its result back,
//! and the configured total memory budget. All mutation goes through the
//! methods here; in the running system one lock serializes them, held never
//! across a blocking wait. The manager records and serves reports; allocation
//! decisions against the budget belong to its callers.

use vstd::prelude::*;

use std::collections::HashMap;

use crate::protocol::{ResourceInfo, TaskReturn};

verus! {

broadcast use vstd::std_specs::hash::group_hash_axioms;

pub struct ResourceManager {
    /// The latest snapshot each worker host reported, keyed by the host's
    /// network address.
    pub hosts: HashMap<u64, ResourceInfo>,
    /// For each synchronous invocation still in flight, the sending end of
    /// its one-shot reply channel, keyed by task identifier.
    pub wait_list: HashMap<u128, std::sync::mpsc::Sender<TaskReturn>>,
    /// The total memory budget the process was configured with.
    pub total_mem: u64,
}

impl ResourceManager {
    /// The stored snapshots as a map.
    pub open spec fn hosts_map(self) -> Map<u64, ResourceInfo> {
        self.hosts@
    }

    /// The wait-list as a map.
    pub open spec fn waiters(self) -> Map<u128, std::sync::mpsc::Sender<TaskReturn>> {
        self.wait_list@
    }

    /// The configured total memory budget.
    pub open spec fn budget(self) -> u64 {
        self.total_mem
    }

    /// A fresh manager: no hosts, no waiters, the given budget.
    pub fn new(total_mem: u64) -> (r: ResourceManager)
        ensures
            r.hosts_map() == Map::<u64, ResourceInfo>::empty(),
            r.waiters() == Map::<u128, std::sync::mpsc::Sender<TaskReturn>>::empty(),
            r.budget() == total_mem,
    {
        ResourceManager { hosts: HashMap::new(), wait_list: HashMap::new(), total_mem }
    }

    /// Unconditionally overwrites the stored snapshot for `host`.
    pub fn update(&mut self, host: u64, info: ResourceInfo)
        ensures
            final(self).hosts_map() == old(self).hosts_map().insert(host, info),
            final(self).waiters() == old(self).waiters(),
            final(self).budget() == old(self).budget(),
    {
        self.hosts.insert(host, info);
    }

    /// Deletes the stored snapshot for `host`, if any.
    pub fn remove(&mut self, host: u64)
        ensures
            final(self).hosts_map() == old(self).hosts_map().remove(host),
            final(self).waiters() == old(self).waiters(),
            final(self).budget() == old(self).budget(),
    {
        self.hosts.remove(&host);
    }

    /// The stored snapshot for `host`, if any.
    pub fn get(&self, host: u64) -> (r: Option<&ResourceInfo>)
        ensures
            match r {
                Some(info) => self.hosts_map().contains_key(host) && *info
                    == self.hosts_map()[host],
                None => !self.hosts_map().contains_key(host),
            },
    {
        self.hosts.get(&host)
    }

    /// Registers the reply channel for a synchronous invocation under its
    /// task identifier.
    pub fn wait_list_insert(&mut self, id: u128, tx: std::sync::mpsc::Sender<TaskReturn>)
        ensures
            final(self).waiters() == old(self).waiters().insert(id, tx),
            final(self).hosts_map() == old(self).hosts_map(),
            final(self).budget() == old(self).budget(),
    {
        self.wait_list.insert(id, tx);
    }

    /// Retrieves and removes the reply channel registered under `id`, if any.
    pub fn wait_list_remove(&mut self, id: u128) -> (r: Option<
        std::sync::mpsc::Sender<TaskReturn>,
    >)
        ensures
            final(self).waiters() == old(self).waiters().remove(id),
            match r {
                Some(tx) => old(self).waiters().contains_key(id) && tx == old(self).waiters()[id],
                None => !old(self).waiters().contains_key(id),
            },
            final(self).hosts_map() == old(self).hosts_map(),
            final(self).budget() == old(self).budget(),
    {
        self.wait_list.remove(&id)
    }

    /// The configured total memory budget.
    pub fn total_mem(&self) -> (r: u64)
        ensures
            r == self.budget(),
    {
        self.total_mem
    }
}

/// Law (resource round trip): storing a snapshot for a host and then reading
/// that host yields the snapshot just stored; dropping the host and then
/// reading yields absence.
pub proof fn lemma_resource_round_trip(m: Map<u64, ResourceInfo>, host: u64, info: ResourceInfo)
    ensures
        m.insert(host, info).contains_key(host),
        m.insert(host, info)[host] == info,
        !m.remove(host).contains_key(host),
{
}

} // verus!
