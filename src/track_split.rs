//! Splitting a track section at a distance from its beginning: the two new
//! track sections, the switch that links them, and the batch of operations
//! that replaces the track section being split.
use vstd::prelude::*;

use crate::error::EditionError;
use crate::identifier::new_identifier;
use crate::infra_cache::{lemma_pop_reversed, reversed, InfraCache};
use crate::object_cache::{ObjectCache, ObjectRef};
use crate::operation::{Operation, RailjsonObject, UpdateOperation};
use crate::schema::{Endpoint, ObjectType, Ranged, Switch, SwitchPort, TrackEndpoint, TrackSection};
use crate::split::{enumerates_refs, get_splitted_operations_for_impacted, impacted_updates, updates_of};

verus! {

broadcast use vstd::string::to_string_from_display_ensures_for_str;

/// What stays on the left of a split at `d`: an interval that ends at or
/// before `d` as it is, one across `d` cut to `[begin, d]`.
pub open spec fn left_part<R: Ranged>(s: Seq<R>, d: i64) -> Seq<R>
    decreases s.len(),
{
    if s.len() == 0 {
        seq![]
    } else {
        let x = s.last();
        let rest = left_part(s.drop_last(), d);
        if x.end_of() <= d {
            rest.push(x)
        } else if x.begin_of() >= d {
            rest
        } else {
            rest.push(x.with_bounds_spec(x.begin_of(), d))
        }
    }
}

/// What goes to the right of a split at `d`: an interval that begins at or
/// after `d` shifted by `-d`, one across `d` cut to `[0, end - d]`.
pub open spec fn right_part<R: Ranged>(s: Seq<R>, d: i64) -> Seq<R>
    decreases s.len(),
{
    if s.len() == 0 {
        seq![]
    } else {
        let x = s.last();
        let rest = right_part(s.drop_last(), d);
        if x.end_of() <= d {
            rest
        } else if x.begin_of() >= d {
            rest.push(x.with_bounds_spec((x.begin_of() - d) as i64, (x.end_of() - d) as i64))
        } else {
            rest.push(x.with_bounds_spec(0, (x.end_of() - d) as i64))
        }
    }
}

/// Where an interval of a track section goes when it is split at `d`: one
/// that ends at or before `d` stays on the left as it is; one that begins at
/// or after `d` and ends after it goes to the right as `[b - d, e - d]`; one
/// across `d` is cut into `[b, d]` on the left and `[0, e - d]` on the right.
pub proof fn lemma_ranged_partition<R: Ranged>(s: Seq<R>, d: i64, i: int)
    requires
        0 < d,
        0 <= i < s.len(),
    ensures
        s[i].end_of() <= d ==> left_part(s, d).contains(s[i]),
        s[i].begin_of() >= d && s[i].end_of() > d ==> right_part(s, d).contains(
            s[i].with_bounds_spec((s[i].begin_of() - d) as i64, (s[i].end_of() - d) as i64),
        ),
        s[i].begin_of() < d < s[i].end_of() ==> left_part(s, d).contains(s[i].with_bounds_spec(s[i].begin_of(), d))
            && right_part(s, d).contains(s[i].with_bounds_spec(0, (s[i].end_of() - d) as i64)),
    decreases s.len(),
{
    let x = s[i];
    let l = left_part(s, d);
    let r = right_part(s, d);
    if i == s.len() - 1 {
        if x.end_of() <= d {
            assert(l[l.len() - 1] == x);
        } else if x.begin_of() >= d {
            assert(r[r.len() - 1] == x.with_bounds_spec((x.begin_of() - d) as i64, (x.end_of() - d) as i64));
        } else {
            assert(l[l.len() - 1] == x.with_bounds_spec(x.begin_of(), d));
            assert(r[r.len() - 1] == x.with_bounds_spec(0, (x.end_of() - d) as i64));
        }
    } else {
        let s0 = s.drop_last();
        assert(s0[i] == x);
        lemma_ranged_partition(s0, d, i);
        let l0 = left_part(s0, d);
        let r0 = right_part(s0, d);
        assert forall|y: R| l0.contains(y) implies l.contains(y) by {
            let j = choose|j: int| 0 <= j < l0.len() && l0[j] == y;
            assert(l[j] == y);
        }
        assert forall|y: R| r0.contains(y) implies r.contains(y) by {
            let j = choose|j: int| 0 <= j < r0.len() && r0[j] == y;
            assert(r[j] == y);
        }
    }
}

/// Splitting a track section of length `L` at `d`, with `0 < d < L`, gives
/// a left part of length `d` and a right part of length `L - d`, which add
/// up to `L`.
pub proof fn lemma_split_lengths(
    t: TrackSection,
    d: i64,
    g: SplitGeometry,
    left: TrackSection,
    right: TrackSection,
    left_id: String,
    right_id: String,
)
    requires
        0 < d < t.length,
        is_left_track(left, t, d, left_id, g),
        is_right_track(right, t, d, right_id, g),
    ensures
        left.length == d,
        right.length == t.length - d,
        left.length + right.length == t.length,
        0 < left.length && 0 < right.length,
{
}

/// Partitions the intervals `v` between the two sides of a split at `d`.
pub fn split_ranged<R: Ranged>(v: &Vec<R>, d: i64) -> (r: (Vec<R>, Vec<R>))
    requires
        0 < d,
    ensures
        r.0@ == left_part(v@, d),
        r.1@ == right_part(v@, d),
{
    let mut left: Vec<R> = Vec::new();
    let mut right: Vec<R> = Vec::new();
    let mut i: usize = 0;
    while i < v.len()
        invariant
            0 < d,
            i <= v@.len(),
            left@ == left_part(v@.subrange(0, i as int), d),
            right@ == right_part(v@.subrange(0, i as int), d),
        decreases v@.len() - i,
    {
        let x = &v[i];
        let b = x.begin();
        let e = x.end();
        if e <= d {
            left.push(x.with_bounds(b, e));
            proof {
                x.lemma_with_bounds(b, e);
            }
        } else if b >= d {
            right.push(x.with_bounds(b - d, e - d));
        } else {
            left.push(x.with_bounds(b, d));
            right.push(x.with_bounds(0, e - d));
        }
        proof {
            let s1 = v@.subrange(0, i + 1);
            assert(s1.drop_last() =~= v@.subrange(0, i as int));
            assert(s1.last() == v@[i as int]);
        }
        i = i + 1;
    }
    assert(v@.subrange(0, v@.len() as int) =~= v@);
    (left, right)
}

/// The two halves of a track section's line strings, cut at the split.
#[derive(Debug)]
pub struct SplitGeometry {
    pub left_geo: String,
    pub left_sch: String,
    pub right_geo: String,
    pub right_sch: String,
}

/// `l` is the left part of `t` split at `d`, with identifier `id`.
pub open spec fn is_left_track(l: TrackSection, t: TrackSection, d: i64, id: String, g: SplitGeometry) -> bool {
    &&& l.id == id
    &&& l.length == d
    &&& l.slopes@ == left_part(t.slopes@, d)
    &&& l.curves@ == left_part(t.curves@, d)
    &&& l.loading_gauge_limits@ == left_part(t.loading_gauge_limits@, d)
    &&& l.geo == g.left_geo
    &&& l.sch == g.left_sch
    &&& l.extensions == t.extensions
}

/// `r` is the right part of `t` split at `d`, with identifier `id`.
pub open spec fn is_right_track(r: TrackSection, t: TrackSection, d: i64, id: String, g: SplitGeometry) -> bool {
    &&& r.id == id
    &&& r.length == t.length - d
    &&& r.slopes@ == right_part(t.slopes@, d)
    &&& r.curves@ == right_part(t.curves@, d)
    &&& r.loading_gauge_limits@ == right_part(t.loading_gauge_limits@, d)
    &&& r.geo == g.right_geo
    &&& r.sch == g.right_sch
    &&& r.extensions == t.extensions
}

/// `s` is the switch of type `link`, with identifier `id`, whose port `A`
/// holds the end of `left` and port `B` the beginning of `right`.
pub open spec fn is_link_switch(s: Switch, id: String, left: String, right: String) -> bool {
    &&& s.id == id
    &&& s.switch_type@ == "link"@
    &&& s.group_change_delay == 0
    &&& s.ports@.len() == 2
    &&& s.ports@[0].name@ == "A"@
    &&& s.ports@[0].endpoint == TrackEndpoint { track: left, endpoint: Endpoint::End }
    &&& s.ports@[1].name@ == "B"@
    &&& s.ports@[1].endpoint == TrackEndpoint { track: right, endpoint: Endpoint::Begin }
}

/// Splits track section `track` at `distance` into a left part `left_id`
/// and a right part `right_id`.
pub fn split_track(
    track: &TrackSection,
    distance: i64,
    geometry: SplitGeometry,
    left_id: String,
    right_id: String,
) -> (r: (TrackSection, TrackSection))
    requires
        0 < distance < track.length,
    ensures
        is_left_track(r.0, *track, distance, left_id, geometry),
        is_right_track(r.1, *track, distance, right_id, geometry),
{
    let (left_slopes, right_slopes) = split_ranged(&track.slopes, distance);
    let (left_curves, right_curves) = split_ranged(&track.curves, distance);
    let (left_limits, right_limits) = split_ranged(&track.loading_gauge_limits, distance);
    let SplitGeometry { left_geo, left_sch, right_geo, right_sch } = geometry;
    let left = TrackSection {
        id: left_id,
        length: distance,
        slopes: left_slopes,
        curves: left_curves,
        loading_gauge_limits: left_limits,
        geo: left_geo,
        sch: left_sch,
        extensions: track.extensions.clone(),
    };
    let right = TrackSection {
        id: right_id,
        length: track.length - distance,
        slopes: right_slopes,
        curves: right_curves,
        loading_gauge_limits: right_limits,
        geo: right_geo,
        sch: right_sch,
        extensions: track.extensions.clone(),
    };
    (left, right)
}

/// The switch of type `link` that joins the end of `left` to the beginning
/// of `right`.
pub fn link_switch(id: String, left: &String, right: &String) -> (r: Switch)
    ensures
        is_link_switch(r, id, *left, *right),
{
    let mut ports: Vec<SwitchPort> = Vec::new();
    ports.push(SwitchPort { name: "A".to_string(), endpoint: TrackEndpoint { track: left.clone(), endpoint: Endpoint::End } });
    ports.push(SwitchPort { name: "B".to_string(), endpoint: TrackEndpoint { track: right.clone(), endpoint: Endpoint::Begin } });
    Switch { id, switch_type: "link".to_string(), group_change_delay: 0, ports }
}

/// `ops` is the batch that splits `track` at `d`: create the left part, the
/// right part and the link switch, update every object that references
/// `track`, then delete `track`.
pub open spec fn is_split_batch(
    ops: Seq<Operation>,
    infra_cache: InfraCache,
    track: TrackSection,
    d: i64,
    geometry: SplitGeometry,
    left_id: String,
    right_id: String,
    switch_id: String,
) -> bool {
    &&& ops.len() >= 4
    &&& ops[0] matches Operation::Create(RailjsonObject::TrackSection(l)) && is_left_track(l, track, d, left_id, geometry)
    &&& ops[1] matches Operation::Create(RailjsonObject::TrackSection(r)) && is_right_track(r, track, d, right_id, geometry)
    &&& ops[2] matches Operation::Create(RailjsonObject::Switch(s)) && is_link_switch(s, switch_id, left_id, right_id)
    &&& ops.last() == Operation::Delete(ObjectRef { obj_type: ObjectType::TrackSection, obj_id: track.id })
    &&& exists|refs: Seq<ObjectRef>, us: Seq<UpdateOperation>|
        enumerates_refs(refs, infra_cache.objects(), track.id@)
        && updates_of(us) == impacted_updates(infra_cache.objects(), refs, track.id@, d, left_id, right_id)
        && ops.len() == us.len() + 4
        && forall|i: int| 0 <= i < us.len() ==> ops[3 + i] == Operation::Update(#[trigger] us[i])
}

/// The batch of operations that splits `track` at `distance`, with the
/// identifiers given for the two new track sections and the link switch.
pub fn split_track_section_operations(
    infra_cache: &InfraCache,
    track: &TrackSection,
    distance: i64,
    geometry: SplitGeometry,
    left_id: String,
    right_id: String,
    switch_id: String,
) -> (r: Vec<Operation>)
    requires
        infra_cache.wf(),
        0 < distance < track.length,
    ensures
        is_split_batch(r@, *infra_cache, *track, distance, geometry, left_id, right_id, switch_id),
{
    let updates = get_splitted_operations_for_impacted(infra_cache, &track.id, distance, &left_id, &right_id);
    let switch = link_switch(switch_id, &left_id, &right_id);
    let ghost l_id = left_id;
    let ghost r_id = right_id;
    let (left, right) = split_track(track, distance, geometry, left_id, right_id);
    let mut ops: Vec<Operation> = Vec::new();
    ops.push(Operation::Create(RailjsonObject::TrackSection(left)));
    ops.push(Operation::Create(RailjsonObject::TrackSection(right)));
    ops.push(Operation::Create(RailjsonObject::Switch(switch)));
    let ghost us = updates@;
    let ghost total = us.len();
    let ghost head = ops@;
    let mut rest = reversed(updates);
    assert(rest@.reverse() =~= us.subrange(0, total as int)) by {
        assert(us.reverse().reverse() =~= us);
    }
    while rest.len() > 0
        invariant
            head.len() == 3,
            total == us.len(),
            rest@.len() <= total,
            ops@.len() == 3 + total - rest@.len(),
            ops@.subrange(0, 3) == head,
            rest@.reverse() =~= us.subrange(total - rest@.len(), total as int),
            forall|i: int| 0 <= i < total - rest@.len() ==> ops@[3 + i] == Operation::Update(#[trigger] us[i]),
        decreases rest@.len(),
    {
        let ghost n = total - rest@.len();
        let u = rest.pop().unwrap();
        proof {
            lemma_pop_reversed(us, rest@, u, n);
        }
        ops.push(Operation::Update(u));
        proof {
            assert(ops@.subrange(0, 3) =~= head);
        }
    }
    ops.push(Operation::Delete(ObjectRef { obj_type: ObjectType::TrackSection, obj_id: track.id.clone() }));
    proof {
        assert(ops@[0] == head[0]);
        assert(ops@[1] == head[1]);
        assert(ops@[2] == head[2]);
        assert(ops@.len() == us.len() + 4);
        assert(forall|i: int| 0 <= i < us.len() ==> ops@[3 + i] == Operation::Update(#[trigger] us[i]));
    }
    ops
}

/// A split ready to be applied: the identifiers of the two new track
/// sections and of the link switch, and the batch that performs it.
#[derive(Debug)]
pub struct SplitPlan {
    pub left_id: String,
    pub right_id: String,
    pub switch_id: String,
    pub operations: Vec<Operation>,
}

/// The length of track section `id` in the cache, if it is there.
pub open spec fn cached_length(infra_cache: &InfraCache, id: Seq<char>) -> Option<i64> {
    let k = (ObjectType::TrackSection, id);
    if infra_cache.objects().contains_key(k) {
        match infra_cache.objects()[k] {
            ObjectCache::TrackSection(t) => Some(t.length),
            _ => None,
        }
    } else {
        None
    }
}

/// Checks a split of track section `track_id` at `offset` millimetres
/// against the cache, and returns the distance of the split.
pub fn check_split(infra_id: i64, infra_cache: &InfraCache, track_id: &String, offset: i64) -> (r: Result<i64, EditionError>)
    requires
        infra_cache.wf(),
    ensures
        match r {
            Ok(d) => d == offset && (cached_length(infra_cache, track_id@) matches Some(len) && 0 < offset < len),
            Err(EditionError::ObjectNotFound { obj_type, obj_id }) => obj_type == ObjectType::TrackSection
                && obj_id == *track_id && cached_length(infra_cache, track_id@) is None,
            Err(EditionError::SplitTrackSectionBadOffset { infra_id: i, tracksection_id, tracksection_length }) =>
                i == infra_id && tracksection_id == *track_id && cached_length(infra_cache, track_id@) == Some(tracksection_length)
                && (offset <= 0 || offset >= tracksection_length),
            Err(EditionError::InfraIsLocked { .. }) => false,
        },
{
    let cached = infra_cache.get_track_section(track_id)?;
    if offset <= 0 || offset >= cached.length {
        return Err(EditionError::SplitTrackSectionBadOffset {
            infra_id,
            tracksection_id: track_id.clone(),
            tracksection_length: cached.length,
        });
    }
    Ok(offset)
}

/// Plans the split of `track`, as read from the store, at `offset`
/// millimetres: the two new track sections and the link switch get fresh
/// identifiers.
pub fn plan_split(
    infra_id: i64,
    infra_cache: &InfraCache,
    track: &TrackSection,
    offset: i64,
    geometry: SplitGeometry,
) -> (r: Result<SplitPlan, EditionError>)
    requires
        infra_cache.wf(),
    ensures
        match r {
            Ok(p) => 0 < offset < track.length
                && is_split_batch(p.operations@, *infra_cache, *track, offset, geometry, p.left_id, p.right_id, p.switch_id),
            Err(e) => (offset <= 0 || offset >= track.length) && e == (EditionError::SplitTrackSectionBadOffset {
                infra_id,
                tracksection_id: track.id,
                tracksection_length: track.length,
            }),
        },
{
    if offset <= 0 || offset >= track.length {
        return Err(EditionError::SplitTrackSectionBadOffset {
            infra_id,
            tracksection_id: track.id.clone(),
            tracksection_length: track.length,
        });
    }
    let left_id = new_identifier();
    let right_id = new_identifier();
    let switch_id = new_identifier();
    let operations = split_track_section_operations(
        infra_cache,
        track,
        offset,
        geometry,
        left_id.clone(),
        right_id.clone(),
        switch_id.clone(),
    );
    Ok(SplitPlan { left_id, right_id, switch_id, operations })
}

} // verus!
