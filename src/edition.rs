//! The edit engine: the decisions around applying a batch of operations to
//! an infrastructure. The store is written between `check_unlocked` and
//! `apply_edit`, by the caller.
use vstd::prelude::*;

use crate::error::EditionError;
use crate::infra_cache::{apply_steps, CacheOperation, InfraCache};
use crate::object_cache::{ObjectCache, SwitchCache, TrackSectionCache};
use crate::operation::RailjsonObject;

verus! {

/// An infrastructure: its lock and its version counters.
#[derive(Debug)]
pub struct Infra {
    pub id: i64,
    pub locked: bool,
    /// Bumped by every applied edit batch.
    pub version: u64,
    /// The version for which the generated data was last refreshed.
    pub generated_version: Option<u64>,
}

/// Fails with `InfraIsLocked` exactly when the infrastructure is locked.
pub fn check_unlocked(infra: &Infra) -> (r: Result<(), EditionError>)
    ensures
        r is Err <==> infra.locked,
        r matches Err(e) ==> e == (EditionError::InfraIsLocked { infra_id: infra.id }),
{
    if infra.locked {
        return Err(EditionError::InfraIsLocked { infra_id: infra.id });
    }
    Ok(())
}

/// Records a batch that the store has applied: checks the lock, bumps the
/// version, then applies the cache operations `ops` to the cache.
///
/// A locked infrastructure is left as it is, version and cache included. An
/// error of the cache comes after the version was bumped, as the store was
/// already written.
pub fn apply_edit(infra: &mut Infra, ops: Vec<CacheOperation>, infra_cache: &mut InfraCache) -> (r: Result<(), EditionError>)
    requires
        old(infra_cache).wf(),
        old(infra).version < u64::MAX,
    ensures
        final(infra_cache).wf(),
        final(infra).id == old(infra).id,
        final(infra).locked == old(infra).locked,
        final(infra).generated_version == old(infra).generated_version,
        old(infra).locked ==> {
            &&& r == Err::<(), EditionError>(EditionError::InfraIsLocked { infra_id: old(infra).id })
            &&& final(infra).version == old(infra).version
            &&& final(infra_cache).objects() == old(infra_cache).objects()
        },
        !old(infra).locked ==> {
            &&& final(infra).version == old(infra).version + 1
            &&& final(infra_cache).objects() == apply_steps(old(infra_cache).objects(), ops@).0
            &&& (r is Ok <==> apply_steps(old(infra_cache).objects(), ops@).1)
        },
{
    if infra.locked {
        return Err(EditionError::InfraIsLocked { infra_id: infra.id });
    }
    infra.version = infra.version + 1;
    infra_cache.apply_operations(ops)
}

/// Records that the generated data was refreshed for the current version.
pub fn bump_generated_version(infra: &mut Infra)
    ensures
        final(infra).generated_version == Some(old(infra).version),
        final(infra).id == old(infra).id,
        final(infra).locked == old(infra).locked,
        final(infra).version == old(infra).version,
{
    infra.generated_version = Some(infra.version);
}

impl RailjsonObject {
    /// The reduced form of this object.
    pub fn to_cache(&self) -> (r: ObjectCache)
        ensures
            match self {
                RailjsonObject::TrackSection(t) => r == ObjectCache::TrackSection(TrackSectionCache { id: t.id, length: t.length }),
                RailjsonObject::Switch(s) => r matches ObjectCache::Switch(c) && c.id == s.id
                    && c.switch_type == s.switch_type && c.ports@ == s.ports@,
            },
    {
        match self {
            RailjsonObject::TrackSection(t) => ObjectCache::TrackSection(TrackSectionCache { id: t.id.clone(), length: t.length }),
            RailjsonObject::Switch(s) => ObjectCache::Switch(SwitchCache {
                id: s.id.clone(),
                switch_type: s.switch_type.clone(),
                ports: s.ports.clone(),
            }),
        }
    }
}

} // verus!
