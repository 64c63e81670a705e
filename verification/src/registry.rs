//! The shared resource registry: a map from guard process id to the sandbox
//! configuration that owns the guard's resources. A worker inserts an entry
//! exactly once per successfully built sandbox; the reaper removes it when
//! the guard exits and then releases what it owned.

use vstd::prelude::*;
use std::collections::HashMap;
use crate::errors::RockerErr;
use crate::master::RockerCfg;

verus! {

broadcast use vstd::std_specs::hash::group_hash_axioms;

/// The registry of live guards, keyed by guard process id.
pub struct ResourceRegistry {
    map: HashMap<i32, RockerCfg>,
}

impl View for ResourceRegistry {
    type V = Map<i32, RockerCfg>;

    closed spec fn view(&self) -> Map<i32, RockerCfg> {
        self.map@
    }
}

/// What registering a guard does to the registry: a duplicate process id is
/// refused and the map kept as it was; otherwise the entry is added.
pub open spec fn spec_register(m: Map<i32, RockerCfg>, guard_pid: i32, cfg: RockerCfg) -> (
    Map<i32, RockerCfg>,
    Result<(), RockerErr>,
) {
    if m.contains_key(guard_pid) {
        (m, Err(RockerErr::GuardDup))
    } else {
        (m.insert(guard_pid, cfg), Ok(()))
    }
}

impl ResourceRegistry {
    /// Creates an empty registry.
    pub fn new() -> (r: ResourceRegistry)
        ensures
            r@ == Map::<i32, RockerCfg>::empty(),
    {
        ResourceRegistry { map: HashMap::new() }
    }

    /// Inserts `cfg` under `guard_pid`; a duplicate id is refused, the
    /// existing entry left untouched, and the configuration handed back so
    /// the caller still owns the guard's resources.
    pub fn register(&mut self, guard_pid: i32, cfg: RockerCfg) -> (r: Result<(), RockerCfg>)
        ensures
            final(self)@ == spec_register(old(self)@, guard_pid, cfg).0,
            r is Ok <==> spec_register(old(self)@, guard_pid, cfg).1 is Ok,
            r matches Err(c) ==> c == cfg,
    {
        if self.map.contains_key(&guard_pid) {
            Err(cfg)
        } else {
            self.map.insert(guard_pid, cfg);
            Ok(())
        }
    }

    /// Removes and returns the entry of `guard_pid`, if one exists.
    pub fn remove(&mut self, guard_pid: i32) -> (r: Option<RockerCfg>)
        ensures
            final(self)@ == old(self)@.remove(guard_pid),
            r matches Some(cfg) ==> old(self)@.contains_key(guard_pid) && cfg == old(
                self,
            )@[guard_pid],
            r is None ==> !old(self)@.contains_key(guard_pid),
    {
        self.map.remove(&guard_pid)
    }

    /// Whether an entry exists for `guard_pid`.
    pub fn contains(&self, guard_pid: i32) -> (r: bool)
        ensures
            r == self@.contains_key(guard_pid),
    {
        self.map.contains_key(&guard_pid)
    }

    /// Number of registered guards.
    pub fn len(&self) -> (n: usize)
        ensures
            n == self@.len(),
    {
        self.map.len()
    }
}

/// What the reaper does when a guard process has exited: its registry
/// entry, if any, is removed, and the entry's resources are released,
/// yielding the kernel-side cleanup plan for its loop device.
pub fn release_exited(reg: &mut ResourceRegistry, guard_pid: i32) -> (r: Option<
    crate::master::ReleasePlan,
>)
    ensures
        final(reg)@ == old(reg)@.remove(guard_pid),
        r is Some <==> old(reg)@.contains_key(guard_pid),
        r matches Some(plan) ==> {
            &&& plan.loop_id == old(reg)@[guard_pid]@.loop_id
            &&& plan.grace_secs == crate::master::RELEASE_GRACE_SECS
            &&& (plan.unbind_path matches Some(p) ==> (old(
                reg,
            )@[guard_pid]@.loop_id matches Some(id) && p@ == crate::master::spec_loop_dev_path(
                id,
            )))
            &&& (plan.unbind_path is None <==> old(reg)@[guard_pid]@.loop_id is None)
        },
{
    match reg.remove(guard_pid) {
        Some(mut cfg) => Some(cfg.release_resource()),
        None => None,
    }
}

/// Registering the same guard process id twice fails with a duplication
/// error on the second attempt and leaves the first entry intact.
pub proof fn lemma_duplicate_registration(
    m: Map<i32, RockerCfg>,
    guard_pid: i32,
    c1: RockerCfg,
    c2: RockerCfg,
)
    requires
        !m.contains_key(guard_pid),
    ensures
        spec_register(m, guard_pid, c1).1 == Ok::<(), RockerErr>(()),
        spec_register(spec_register(m, guard_pid, c1).0, guard_pid, c2).1 == Err::<
            (),
            RockerErr,
        >(RockerErr::GuardDup),
        spec_register(spec_register(m, guard_pid, c1).0, guard_pid, c2).0 == spec_register(
            m,
            guard_pid,
            c1,
        ).0,
        spec_register(m, guard_pid, c1).0[guard_pid] == c1,
{
}

} // verus!
