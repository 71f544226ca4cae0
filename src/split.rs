//! Splitting a track section in two: the patches that move every object
//! referencing it onto the two new track sections.
use vstd::prelude::*;

use crate::infra_cache::InfraCache;
use crate::object_cache::{ObjectCache, ObjectKey, ObjectRef, PointCache};
use crate::operation::{
    add_op, add_step, append_patch, path2, path3, path_then, remove_op, remove_step, replace_op, replace_step, steps_of,
    PatchOperation, PatchStep, PatchValue, PathToken, UpdateOperation, UpdateStep,
};
use crate::schema::{
    ApplicableDirectionsTrackRange, DirectionalTrackRange, Endpoint, OperationalPointPart, Sign,
    SwitchPort,
};

verus! {

/// The patch of a sign at `prefix`, for a split of track `t` at `d`.
pub open spec fn sign_steps(
    t: Seq<char>,
    d: i64,
    left: String,
    right: String,
    prefix: Seq<PathToken>,
    s: Sign,
) -> Seq<PatchStep> {
    if s.track@ != t {
        seq![]
    } else if s.position <= d {
        seq![replace_step(prefix.push(PathToken::Track), PatchValue::Identifier(left))]
    } else {
        seq![
            replace_step(prefix.push(PathToken::Track), PatchValue::Identifier(right)),
            replace_step(prefix.push(PathToken::Position), PatchValue::Distance((s.position - d) as i64)),
        ]
    }
}

/// The patch of the list of signs at `prefix`.
pub open spec fn signs_steps(
    t: Seq<char>,
    d: i64,
    left: String,
    right: String,
    prefix: Seq<PathToken>,
    signs: Seq<Sign>,
) -> Seq<PatchStep>
    decreases signs.len(),
{
    if signs.len() == 0 {
        seq![]
    } else {
        let i = (signs.len() - 1) as usize;
        signs_steps(t, d, left, right, prefix, signs.drop_last()) + sign_steps(
            t,
            d,
            left,
            right,
            prefix.push(PathToken::Index(i)),
            signs.last(),
        )
    }
}

/// The patch of the range at `/track_ranges/i`.
pub open spec fn applicable_range_steps(
    t: Seq<char>,
    d: i64,
    left: String,
    right: String,
    i: usize,
    rg: ApplicableDirectionsTrackRange,
) -> Seq<PatchStep> {
    if rg.track@ != t {
        seq![]
    } else if rg.end <= d {
        seq![replace_step(seq![PathToken::TrackRanges, PathToken::Index(i), PathToken::Track], PatchValue::Identifier(left))]
    } else if rg.begin >= d {
        seq![
            replace_step(seq![PathToken::TrackRanges, PathToken::Index(i), PathToken::Track], PatchValue::Identifier(right)),
            replace_step(seq![PathToken::TrackRanges, PathToken::Index(i), PathToken::Begin], PatchValue::Distance((rg.begin - d) as i64)),
            replace_step(seq![PathToken::TrackRanges, PathToken::Index(i), PathToken::End], PatchValue::Distance((rg.end - d) as i64)),
        ]
    } else {
        seq![
            remove_step(seq![PathToken::TrackRanges, PathToken::Index(i)]),
            add_step(seq![PathToken::TrackRanges, PathToken::Append], PatchValue::ApplicableRange(ApplicableDirectionsTrackRange {
                track: left, begin: rg.begin, end: d, applicable_directions: rg.applicable_directions,
            })),
            add_step(seq![PathToken::TrackRanges, PathToken::Append], PatchValue::ApplicableRange(ApplicableDirectionsTrackRange {
                track: right, begin: 0, end: (rg.end - d) as i64, applicable_directions: rg.applicable_directions,
            })),
        ]
    }
}

/// The patch of the list at `/track_ranges`.
pub open spec fn applicable_ranges_steps(
    t: Seq<char>,
    d: i64,
    left: String,
    right: String,
    ranges: Seq<ApplicableDirectionsTrackRange>,
) -> Seq<PatchStep>
    decreases ranges.len(),
{
    if ranges.len() == 0 {
        seq![]
    } else {
        applicable_ranges_steps(t, d, left, right, ranges.drop_last()) + applicable_range_steps(
            t,
            d,
            left,
            right,
            (ranges.len() - 1) as usize,
            ranges.last(),
        )
    }
}

/// The patch of the range at `/track_ranges/i`.
pub open spec fn directional_range_steps(
    t: Seq<char>,
    d: i64,
    left: String,
    right: String,
    i: usize,
    rg: DirectionalTrackRange,
) -> Seq<PatchStep> {
    if rg.track@ != t {
        seq![]
    } else if rg.end <= d {
        seq![replace_step(seq![PathToken::TrackRanges, PathToken::Index(i), PathToken::Track], PatchValue::Identifier(left))]
    } else if rg.begin >= d {
        seq![
            replace_step(seq![PathToken::TrackRanges, PathToken::Index(i), PathToken::Track], PatchValue::Identifier(right)),
            replace_step(seq![PathToken::TrackRanges, PathToken::Index(i), PathToken::Begin], PatchValue::Distance((rg.begin - d) as i64)),
            replace_step(seq![PathToken::TrackRanges, PathToken::Index(i), PathToken::End], PatchValue::Distance((rg.end - d) as i64)),
        ]
    } else {
        seq![
            remove_step(seq![PathToken::TrackRanges, PathToken::Index(i)]),
            add_step(seq![PathToken::TrackRanges, PathToken::Append], PatchValue::DirectionalRange(DirectionalTrackRange {
                track: left, begin: rg.begin, end: d, direction: rg.direction,
            })),
            add_step(seq![PathToken::TrackRanges, PathToken::Append], PatchValue::DirectionalRange(DirectionalTrackRange {
                track: right, begin: 0, end: (rg.end - d) as i64, direction: rg.direction,
            })),
        ]
    }
}

/// The patch of the list at `/track_ranges`.
pub open spec fn directional_ranges_steps(
    t: Seq<char>,
    d: i64,
    left: String,
    right: String,
    ranges: Seq<DirectionalTrackRange>,
) -> Seq<PatchStep>
    decreases ranges.len(),
{
    if ranges.len() == 0 {
        seq![]
    } else {
        directional_ranges_steps(t, d, left, right, ranges.drop_last()) + directional_range_steps(
            t,
            d,
            left,
            right,
            (ranges.len() - 1) as usize,
            ranges.last(),
        )
    }
}

/// The patch of the ports of a switch: a port on track `t` moves to `left`
/// when it connects the beginning of `t`, and to `right` when it connects its
/// end.
pub open spec fn ports_steps(t: Seq<char>, left: String, right: String, ports: Seq<SwitchPort>) -> Seq<PatchStep>
    decreases ports.len(),
{
    if ports.len() == 0 {
        seq![]
    } else {
        let p = ports.last();
        let rest = ports_steps(t, left, right, ports.drop_last());
        if p.endpoint.track@ == t {
            rest.push(replace_step(
                seq![PathToken::Ports, PathToken::Name(p.name), PathToken::Track],
                PatchValue::Identifier(if p.endpoint.endpoint == Endpoint::Begin { left } else { right }),
            ))
        } else {
            rest
        }
    }
}

/// The patch of the parts of an operational point.
pub open spec fn parts_steps(t: Seq<char>, d: i64, left: String, right: String, parts: Seq<OperationalPointPart>) -> Seq<PatchStep>
    decreases parts.len(),
{
    if parts.len() == 0 {
        seq![]
    } else {
        let p = parts.last();
        let i = (parts.len() - 1) as usize;
        let rest = parts_steps(t, d, left, right, parts.drop_last());
        if p.track@ != t {
            rest
        } else if p.position <= d {
            rest.push(replace_step(
                seq![PathToken::Parts, PathToken::Index(i), PathToken::Track],
                PatchValue::Identifier(left),
            ))
        } else {
            rest.push(replace_step(
                seq![PathToken::Parts, PathToken::Index(i)],
                PatchValue::OperationalPointPart(OperationalPointPart { track: right, position: (p.position - d) as i64 }),
            ))
        }
    }
}

/// The patch of an object placed at one position: it moves to `left` at the
/// same position, or to `right` at `position - d`.
pub open spec fn point_steps(d: i64, left: String, right: String, p: PointCache) -> Seq<PatchStep> {
    if p.position <= d {
        seq![
            replace_step(seq![PathToken::Track], PatchValue::Identifier(left)),
            replace_step(seq![PathToken::Position], PatchValue::Distance(p.position)),
        ]
    } else {
        seq![
            replace_step(seq![PathToken::Track], PatchValue::Identifier(right)),
            replace_step(seq![PathToken::Position], PatchValue::Distance((p.position - d) as i64)),
        ]
    }
}

/// An object placed at position `p` of the split track moves to exactly one
/// of the two new track sections: to `left` at `p` when `p <= d`, else to
/// `right` at `p - d`.
pub proof fn lemma_point_moves(o: ObjectCache, t: Seq<char>, d: i64, left: String, right: String)
    requires
        0 < d,
        o is Signal || o is Detector || o is BufferStop,
    ensures
        ({
            let p = match o {
                ObjectCache::Signal(p) => p,
                ObjectCache::Detector(p) => p,
                ObjectCache::BufferStop(p) => p,
                _ => arbitrary(),
            };
            impacted_update(o, t, d, left, right) == Some((o.key(), seq![
                replace_step(seq![PathToken::Track], PatchValue::Identifier(if p.position <= d { left } else { right })),
                replace_step(seq![PathToken::Position], PatchValue::Distance(if p.position <= d { p.position } else { (p.position - d) as i64 })),
            ]))
        }),
{
}

/// A sign on the split track moves to exactly one of the two new track
/// sections: its track becomes `left` and its position stays when it is at
/// or before `d`; else its track becomes `right` and its position `p - d`.
pub proof fn lemma_sign_moves(t: Seq<char>, d: i64, left: String, right: String, prefix: Seq<PathToken>, s: Sign)
    requires
        0 < d,
        s.track@ == t,
    ensures
        s.position <= d ==> sign_steps(t, d, left, right, prefix, s) == seq![
            replace_step(prefix.push(PathToken::Track), PatchValue::Identifier(left)),
        ],
        s.position > d ==> sign_steps(t, d, left, right, prefix, s) == seq![
            replace_step(prefix.push(PathToken::Track), PatchValue::Identifier(right)),
            replace_step(prefix.push(PathToken::Position), PatchValue::Distance((s.position - d) as i64)),
        ],
{
}

/// The update that a split of track `t` at `d` makes to object `o`, if any.
/// Track sections and switch types reference no track; routes are left as
/// they are.
pub open spec fn impacted_update(o: ObjectCache, t: Seq<char>, d: i64, left: String, right: String) -> Option<UpdateStep> {
    let steps = match o {
        ObjectCache::Signal(p) => Some(point_steps(d, left, right, p)),
        ObjectCache::Detector(p) => Some(point_steps(d, left, right, p)),
        ObjectCache::BufferStop(p) => Some(point_steps(d, left, right, p)),
        ObjectCache::Switch(s) => Some(ports_steps(t, left, right, s.ports@)),
        ObjectCache::Electrification(e) => Some(applicable_ranges_steps(t, d, left, right, e.track_ranges@)),
        ObjectCache::SpeedSection(s) => Some(applicable_ranges_steps(t, d, left, right, s.track_ranges@) + match s.psl_sncf {
            Some(p) => {
                let ext = seq![PathToken::Extensions, PathToken::PslSncf];
                sign_steps(t, d, left, right, ext.push(PathToken::Z), p.z)
                    + signs_steps(t, d, left, right, ext.push(PathToken::Announcement), p.announcement@)
                    + signs_steps(t, d, left, right, ext.push(PathToken::R), p.r@)
            },
            None => seq![],
        }),
        ObjectCache::NeutralSection(n) => Some(directional_ranges_steps(t, d, left, right, n.track_ranges@) + match n.neutral_sncf {
            Some(x) => {
                let ext = seq![PathToken::Extensions, PathToken::NeutralSncf];
                sign_steps(t, d, left, right, ext.push(PathToken::Exe), x.exe)
                    + signs_steps(t, d, left, right, ext.push(PathToken::Announcement), x.announcement@)
                    + signs_steps(t, d, left, right, ext.push(PathToken::End), x.end@)
                    + signs_steps(t, d, left, right, ext.push(PathToken::Rev), x.rev@)
            },
            None => seq![],
        }),
        ObjectCache::OperationalPoint(op) => Some(parts_steps(t, d, left, right, op.parts@)),
        _ => None,
    };
    match steps {
        Some(s) => Some((o.key(), s)),
        None => None,
    }
}

/// The updates that a split of track `t` at `d` makes to the objects `refs`
/// of `m`, in the order of `refs`.
pub open spec fn impacted_updates(
    m: Map<ObjectKey, ObjectCache>,
    refs: Seq<ObjectRef>,
    t: Seq<char>,
    d: i64,
    left: String,
    right: String,
) -> Seq<UpdateStep>
    decreases refs.len(),
{
    if refs.len() == 0 {
        seq![]
    } else {
        let rest = impacted_updates(m, refs.drop_last(), t, d, left, right);
        let k = refs.last().key();
        if m.contains_key(k) {
            match impacted_update(m[k], t, d, left, right) {
                Some(u) => rest.push(u),
                None => rest,
            }
        } else {
            rest
        }
    }
}

/// The patch of a sign at `path`, for a split of track `tracksection_id` at
/// `distance`.
pub fn get_splitted_patch_operations_for_sign(
    tracksection_id: &String,
    distance: i64,
    left_tracksection_id: &String,
    right_tracksection_id: &String,
    path: &Vec<PathToken>,
    sign: &Sign,
) -> (r: Vec<PatchOperation>)
    requires
        0 < distance,
    ensures
        steps_of(r@) == sign_steps(tracksection_id@, distance, *left_tracksection_id, *right_tracksection_id, path@, *sign),
{
    let mut out: Vec<PatchOperation> = Vec::new();
    if sign.track.eq(tracksection_id) {
        if sign.position <= distance {
            out.push(replace_op(path_then(path, PathToken::Track), PatchValue::Identifier(left_tracksection_id.clone())));
        } else {
            out.push(replace_op(path_then(path, PathToken::Track), PatchValue::Identifier(right_tracksection_id.clone())));
            out.push(replace_op(path_then(path, PathToken::Position), PatchValue::Distance(sign.position - distance)));
        }
    }
    assert(steps_of(out@) =~= sign_steps(tracksection_id@, distance, *left_tracksection_id, *right_tracksection_id, path@, *sign));
    out
}

/// The patch of the list of signs at `path`.
fn signs_patch(
    tracksection_id: &String,
    distance: i64,
    left: &String,
    right: &String,
    path: &Vec<PathToken>,
    signs: &Vec<Sign>,
) -> (r: Vec<PatchOperation>)
    requires
        0 < distance,
    ensures
        steps_of(r@) == signs_steps(tracksection_id@, distance, *left, *right, path@, signs@),
{
    let mut out: Vec<PatchOperation> = Vec::new();
    let mut i: usize = 0;
    while i < signs.len()
        invariant
            0 < distance,
            i <= signs@.len(),
            steps_of(out@) == signs_steps(tracksection_id@, distance, *left, *right, path@, signs@.subrange(0, i as int)),
        decreases signs@.len() - i,
    {
        let at = path_then(path, PathToken::Index(i));
        let ops = get_splitted_patch_operations_for_sign(tracksection_id, distance, left, right, &at, &signs[i]);
        append_patch(&mut out, ops);
        proof {
            let s1 = signs@.subrange(0, i + 1);
            assert(s1.drop_last() =~= signs@.subrange(0, i as int));
        }
        i = i + 1;
    }
    assert(signs@.subrange(0, signs@.len() as int) =~= signs@);
    out
}

/// The patch of a list of ranges at `/track_ranges`, for a split of track
/// `tracksection_id` at `distance`: a range on the left keeps its bounds, a
/// range on the right is shifted by `-distance`, and a range across the split
/// is removed and replaced by its two halves, appended.
pub fn get_splitted_patch_operations_for_applicable_ranges(
    tracksection_id: &String,
    distance: i64,
    left_tracksection_id: &String,
    right_tracksection_id: &String,
    ranges: &Vec<ApplicableDirectionsTrackRange>,
) -> (r: Vec<PatchOperation>)
    requires
        0 < distance,
    ensures
        steps_of(r@) == applicable_ranges_steps(tracksection_id@, distance, *left_tracksection_id, *right_tracksection_id, ranges@),
{
    let left = left_tracksection_id;
    let right = right_tracksection_id;
    let mut out: Vec<PatchOperation> = Vec::new();
    let mut i: usize = 0;
    while i < ranges.len()
        invariant
            0 < distance,
            i <= ranges@.len(),
            steps_of(out@) == applicable_ranges_steps(tracksection_id@, distance, *left, *right, ranges@.subrange(0, i as int)),
        decreases ranges@.len() - i,
    {
        let rg = &ranges[i];
        let mut ops: Vec<PatchOperation> = Vec::new();
        if rg.track.eq(tracksection_id) {
            if rg.end <= distance {
                ops.push(replace_op(path3(PathToken::TrackRanges, PathToken::Index(i), PathToken::Track), PatchValue::Identifier(left.clone())));
            } else if rg.begin >= distance {
                ops.push(replace_op(path3(PathToken::TrackRanges, PathToken::Index(i), PathToken::Track), PatchValue::Identifier(right.clone())));
                ops.push(replace_op(path3(PathToken::TrackRanges, PathToken::Index(i), PathToken::Begin), PatchValue::Distance(rg.begin - distance)));
                ops.push(replace_op(path3(PathToken::TrackRanges, PathToken::Index(i), PathToken::End), PatchValue::Distance(rg.end - distance)));
            } else {
                ops.push(remove_op(path2(PathToken::TrackRanges, PathToken::Index(i))));
                ops.push(add_op(path2(PathToken::TrackRanges, PathToken::Append), PatchValue::ApplicableRange(ApplicableDirectionsTrackRange {
                    track: left.clone(), begin: rg.begin, end: distance, applicable_directions: rg.applicable_directions,
                })));
                ops.push(add_op(path2(PathToken::TrackRanges, PathToken::Append), PatchValue::ApplicableRange(ApplicableDirectionsTrackRange {
                    track: right.clone(), begin: 0, end: rg.end - distance, applicable_directions: rg.applicable_directions,
                })));
            }
        }
        assert(steps_of(ops@) =~= applicable_range_steps(tracksection_id@, distance, *left, *right, i, ranges@[i as int]));
        append_patch(&mut out, ops);
        proof {
            let s1 = ranges@.subrange(0, i + 1);
            assert(s1.drop_last() =~= ranges@.subrange(0, i as int));
        }
        i = i + 1;
    }
    assert(ranges@.subrange(0, ranges@.len() as int) =~= ranges@);
    out
}

/// The same patch as
/// [`get_splitted_patch_operations_for_applicable_ranges`], for ranges with a
/// direction.
pub fn get_splitted_patch_operations_for_ranges(
    tracksection_id: &String,
    distance: i64,
    left_tracksection_id: &String,
    right_tracksection_id: &String,
    ranges: &Vec<DirectionalTrackRange>,
) -> (r: Vec<PatchOperation>)
    requires
        0 < distance,
    ensures
        steps_of(r@) == directional_ranges_steps(tracksection_id@, distance, *left_tracksection_id, *right_tracksection_id, ranges@),
{
    let left = left_tracksection_id;
    let right = right_tracksection_id;
    let mut out: Vec<PatchOperation> = Vec::new();
    let mut i: usize = 0;
    while i < ranges.len()
        invariant
            0 < distance,
            i <= ranges@.len(),
            steps_of(out@) == directional_ranges_steps(tracksection_id@, distance, *left, *right, ranges@.subrange(0, i as int)),
        decreases ranges@.len() - i,
    {
        let rg = &ranges[i];
        let mut ops: Vec<PatchOperation> = Vec::new();
        if rg.track.eq(tracksection_id) {
            if rg.end <= distance {
                ops.push(replace_op(path3(PathToken::TrackRanges, PathToken::Index(i), PathToken::Track), PatchValue::Identifier(left.clone())));
            } else if rg.begin >= distance {
                ops.push(replace_op(path3(PathToken::TrackRanges, PathToken::Index(i), PathToken::Track), PatchValue::Identifier(right.clone())));
                ops.push(replace_op(path3(PathToken::TrackRanges, PathToken::Index(i), PathToken::Begin), PatchValue::Distance(rg.begin - distance)));
                ops.push(replace_op(path3(PathToken::TrackRanges, PathToken::Index(i), PathToken::End), PatchValue::Distance(rg.end - distance)));
            } else {
                ops.push(remove_op(path2(PathToken::TrackRanges, PathToken::Index(i))));
                ops.push(add_op(path2(PathToken::TrackRanges, PathToken::Append), PatchValue::DirectionalRange(DirectionalTrackRange {
                    track: left.clone(), begin: rg.begin, end: distance, direction: rg.direction,
                })));
                ops.push(add_op(path2(PathToken::TrackRanges, PathToken::Append), PatchValue::DirectionalRange(DirectionalTrackRange {
                    track: right.clone(), begin: 0, end: rg.end - distance, direction: rg.direction,
                })));
            }
        }
        assert(steps_of(ops@) =~= directional_range_steps(tracksection_id@, distance, *left, *right, i, ranges@[i as int]));
        append_patch(&mut out, ops);
        proof {
            let s1 = ranges@.subrange(0, i + 1);
            assert(s1.drop_last() =~= ranges@.subrange(0, i as int));
        }
        i = i + 1;
    }
    assert(ranges@.subrange(0, ranges@.len() as int) =~= ranges@);
    out
}

/// The patch of the ports of a switch.
fn ports_patch(tracksection_id: &String, left: &String, right: &String, ports: &Vec<SwitchPort>) -> (r: Vec<PatchOperation>)
    ensures
        steps_of(r@) == ports_steps(tracksection_id@, *left, *right, ports@),
{
    let mut out: Vec<PatchOperation> = Vec::new();
    let mut i: usize = 0;
    while i < ports.len()
        invariant
            i <= ports@.len(),
            steps_of(out@) == ports_steps(tracksection_id@, *left, *right, ports@.subrange(0, i as int)),
        decreases ports@.len() - i,
    {
        let p = &ports[i];
        if p.endpoint.track.eq(tracksection_id) {
            let target = match p.endpoint.endpoint {
                Endpoint::Begin => left.clone(),
                Endpoint::End => right.clone(),
            };
            out.push(replace_op(path3(PathToken::Ports, PathToken::Name(p.name.clone()), PathToken::Track), PatchValue::Identifier(target)));
        }
        proof {
            let s1 = ports@.subrange(0, i + 1);
            assert(s1.drop_last() =~= ports@.subrange(0, i as int));
            assert(steps_of(out@) =~= ports_steps(tracksection_id@, *left, *right, s1));
        }
        i = i + 1;
    }
    assert(ports@.subrange(0, ports@.len() as int) =~= ports@);
    out
}

/// The patch of the parts of an operational point.
fn parts_patch(
    tracksection_id: &String,
    distance: i64,
    left: &String,
    right: &String,
    parts: &Vec<OperationalPointPart>,
) -> (r: Vec<PatchOperation>)
    requires
        0 < distance,
    ensures
        steps_of(r@) == parts_steps(tracksection_id@, distance, *left, *right, parts@),
{
    let mut out: Vec<PatchOperation> = Vec::new();
    let mut i: usize = 0;
    while i < parts.len()
        invariant
            0 < distance,
            i <= parts@.len(),
            steps_of(out@) == parts_steps(tracksection_id@, distance, *left, *right, parts@.subrange(0, i as int)),
        decreases parts@.len() - i,
    {
        let p = &parts[i];
        if p.track.eq(tracksection_id) {
            if p.position <= distance {
                out.push(replace_op(path3(PathToken::Parts, PathToken::Index(i), PathToken::Track), PatchValue::Identifier(left.clone())));
            } else {
                out.push(replace_op(
                    path2(PathToken::Parts, PathToken::Index(i)),
                    PatchValue::OperationalPointPart(OperationalPointPart { track: right.clone(), position: p.position - distance }),
                ));
            }
        }
        proof {
            let s1 = parts@.subrange(0, i + 1);
            assert(s1.drop_last() =~= parts@.subrange(0, i as int));
            assert(steps_of(out@) =~= parts_steps(tracksection_id@, distance, *left, *right, s1));
        }
        i = i + 1;
    }
    assert(parts@.subrange(0, parts@.len() as int) =~= parts@);
    out
}

/// The patch of an object placed at one position.
fn point_patch(distance: i64, left: &String, right: &String, p: &PointCache) -> (r: Vec<PatchOperation>)
    requires
        0 < distance,
    ensures
        steps_of(r@) == point_steps(distance, *left, *right, *p),
{
    let mut out: Vec<PatchOperation> = Vec::new();
    let mut track: Vec<PathToken> = Vec::new();
    track.push(PathToken::Track);
    let mut position: Vec<PathToken> = Vec::new();
    position.push(PathToken::Position);
    assert(track@ =~= seq![PathToken::Track]);
    assert(position@ =~= seq![PathToken::Position]);
    if p.position <= distance {
        out.push(replace_op(track, PatchValue::Identifier(left.clone())));
        out.push(replace_op(position, PatchValue::Distance(p.position)));
    } else {
        out.push(replace_op(track, PatchValue::Identifier(right.clone())));
        out.push(replace_op(position, PatchValue::Distance(p.position - distance)));
    }
    assert(steps_of(out@) =~= point_steps(distance, *left, *right, *p));
    out
}

/// The path `/extensions/<ext>/<field>`.
fn extension_path(ext: PathToken, field: PathToken) -> (r: Vec<PathToken>)
    ensures
        r@ == seq![PathToken::Extensions, ext].push(field),
{
    let r = path3(PathToken::Extensions, ext, field);
    assert(r@ =~= seq![PathToken::Extensions, ext].push(field));
    r
}

/// The update that the split makes to object `o`, if any.
fn impacted_operation(
    o: &ObjectCache,
    tracksection_id: &String,
    distance: i64,
    left: &String,
    right: &String,
) -> (r: Option<UpdateOperation>)
    requires
        0 < distance,
    ensures
        match r {
            Some(u) => impacted_update(*o, tracksection_id@, distance, *left, *right) == Some(u@),
            None => impacted_update(*o, tracksection_id@, distance, *left, *right) is None,
        },
{
    let t = tracksection_id;
    let patch = match o {
        ObjectCache::Signal(p) => point_patch(distance, left, right, p),
        ObjectCache::Detector(p) => point_patch(distance, left, right, p),
        ObjectCache::BufferStop(p) => point_patch(distance, left, right, p),
        ObjectCache::Switch(sw) => ports_patch(t, left, right, &sw.ports),
        ObjectCache::Electrification(e) => get_splitted_patch_operations_for_applicable_ranges(t, distance, left, right, &e.track_ranges),
        ObjectCache::SpeedSection(sp) => {
            let mut out = get_splitted_patch_operations_for_applicable_ranges(t, distance, left, right, &sp.track_ranges);
            let ghost a = steps_of(out@);
            match &sp.psl_sncf {
                Some(psl) => {
                    let z = get_splitted_patch_operations_for_sign(t, distance, left, right, &extension_path(PathToken::PslSncf, PathToken::Z), &psl.z);
                    let ghost b = steps_of(z@);
                    append_patch(&mut out, z);
                    let ann = signs_patch(t, distance, left, right, &extension_path(PathToken::PslSncf, PathToken::Announcement), &psl.announcement);
                    let ghost c = steps_of(ann@);
                    append_patch(&mut out, ann);
                    let rs = signs_patch(t, distance, left, right, &extension_path(PathToken::PslSncf, PathToken::R), &psl.r);
                    let ghost e = steps_of(rs@);
                    append_patch(&mut out, rs);
                    assert(steps_of(out@) =~= a + (b + c + e));
                },
                None => {
                    assert(steps_of(out@) =~= a + seq![]);
                },
            }
            out
        },
        ObjectCache::NeutralSection(ns) => {
            let mut out = get_splitted_patch_operations_for_ranges(t, distance, left, right, &ns.track_ranges);
            let ghost a = steps_of(out@);
            match &ns.neutral_sncf {
                Some(x) => {
                    let exe = get_splitted_patch_operations_for_sign(t, distance, left, right, &extension_path(PathToken::NeutralSncf, PathToken::Exe), &x.exe);
                    let ghost b = steps_of(exe@);
                    append_patch(&mut out, exe);
                    let ann = signs_patch(t, distance, left, right, &extension_path(PathToken::NeutralSncf, PathToken::Announcement), &x.announcement);
                    let ghost c = steps_of(ann@);
                    append_patch(&mut out, ann);
                    let end = signs_patch(t, distance, left, right, &extension_path(PathToken::NeutralSncf, PathToken::End), &x.end);
                    let ghost e = steps_of(end@);
                    append_patch(&mut out, end);
                    let rev = signs_patch(t, distance, left, right, &extension_path(PathToken::NeutralSncf, PathToken::Rev), &x.rev);
                    let ghost f = steps_of(rev@);
                    append_patch(&mut out, rev);
                    assert(steps_of(out@) =~= a + (b + c + e + f));
                },
                None => {
                    assert(steps_of(out@) =~= a + seq![]);
                },
            }
            out
        },
        ObjectCache::OperationalPoint(op) => parts_patch(t, distance, left, right, &op.parts),
        _ => {
            return None;
        },
    };
    Some(UpdateOperation { obj_type: o.get_type(), obj_id: o.get_id().clone(), railjson_patch: patch })
}

/// `refs` lists, each once, the objects of `m` that reference track `t`.
pub open spec fn enumerates_refs(refs: Seq<ObjectRef>, m: Map<ObjectKey, ObjectCache>, t: Seq<char>) -> bool {
    &&& forall|k: ObjectKey| (exists|j: int| 0 <= j < refs.len() && (#[trigger] refs[j].key()) == k)
        <==> (m.contains_key(k) && m[k].references(t))
    &&& forall|a: int, b: int| 0 <= a < b < refs.len() ==> (#[trigger] refs[a].key()) != (#[trigger] refs[b].key())
}

/// The views of some updates.
pub open spec fn updates_of(ops: Seq<UpdateOperation>) -> Seq<UpdateStep> {
    ops.map_values(|u: UpdateOperation| u@)
}

/// The updates that splitting track section `tracksection_id` at `distance`
/// makes to the objects that reference it: one per object of the index, in
/// some order, none for routes.
pub fn get_splitted_operations_for_impacted(
    infra_cache: &InfraCache,
    tracksection_id: &String,
    distance: i64,
    left_tracksection_id: &String,
    right_tracksection_id: &String,
) -> (r: Vec<UpdateOperation>)
    requires
        infra_cache.wf(),
        0 < distance,
    ensures
        exists|refs: Seq<ObjectRef>|
            enumerates_refs(refs, infra_cache.objects(), tracksection_id@)
                && updates_of(r@) == impacted_updates(
                infra_cache.objects(),
                refs,
                tracksection_id@,
                distance,
                *left_tracksection_id,
                *right_tracksection_id,
            ),
{
    let left = left_tracksection_id;
    let right = right_tracksection_id;
    let refs = infra_cache.track_sections_refs(tracksection_id);
    let mut out: Vec<UpdateOperation> = Vec::new();
    let mut i: usize = 0;
    while i < refs.len()
        invariant
            infra_cache.wf(),
            0 < distance,
            i <= refs@.len(),
            updates_of(out@) == impacted_updates(infra_cache.objects(), refs@.subrange(0, i as int), tracksection_id@, distance, *left, *right),
        decreases refs@.len() - i,
    {
        let r = &refs[i];
        let ghost before = out@;
        proof {
            let s1 = refs@.subrange(0, i + 1);
            assert(s1.drop_last() =~= refs@.subrange(0, i as int));
            assert(s1.last() == refs@[i as int]);
        }
        match infra_cache.get(r.obj_type, &r.obj_id) {
            Some(o) => {
                match impacted_operation(o, tracksection_id, distance, left, right) {
                    Some(u) => {
                        out.push(u);
                        assert(updates_of(out@) =~= updates_of(before).push(out@[out@.len() - 1]@));
                    },
                    None => {},
                }
            },
            None => {},
        }
        i = i + 1;
    }
    assert(refs@.subrange(0, refs@.len() as int) =~= refs@);
    assert(enumerates_refs(refs@, infra_cache.objects(), tracksection_id@));
    out
}

} // verus!
