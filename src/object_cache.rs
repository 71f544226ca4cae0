//! The reduced form of each object that the infrastructure cache keeps: its
//! identity and every reference it holds to a track section.
use vstd::prelude::*;

use crate::schema::{
    ApplicableDirectionsTrackRange, DirectionalTrackRange, ObjectType, OperationalPointPart, Sign,
    SwitchPort,
};

verus! {

/// The key of an object within one infrastructure.
pub type ObjectKey = (ObjectType, Seq<char>);

/// A reference to an object by type and identifier.
#[derive(Debug)]
pub struct ObjectRef {
    pub obj_type: ObjectType,
    pub obj_id: String,
}

impl ObjectRef {
    pub open spec fn key(&self) -> ObjectKey {
        (self.obj_type, self.obj_id@)
    }
}

impl Clone for ObjectRef {
    fn clone(&self) -> (r: Self)
        ensures
            r == *self,
    {
        ObjectRef { obj_type: self.obj_type, obj_id: self.obj_id.clone() }
    }
}

/// An object placed at one position of one track section.
#[derive(Clone, Debug)]
pub struct PointCache {
    pub id: String,
    pub track: String,
    pub position: i64,
}

/// A track section, reduced to its length.
#[derive(Clone, Debug)]
pub struct TrackSectionCache {
    pub id: String,
    pub length: i64,
}

/// A switch and the track ends its ports connect.
#[derive(Clone, Debug)]
pub struct SwitchCache {
    pub id: String,
    pub switch_type: String,
    pub ports: Vec<SwitchPort>,
}

/// The signs of a speed section's `psl_sncf` extension.
#[derive(Clone, Debug)]
pub struct PslSigns {
    pub z: Sign,
    pub announcement: Vec<Sign>,
    pub r: Vec<Sign>,
}

/// A speed section: its track ranges and the signs of its extension.
#[derive(Clone, Debug)]
pub struct SpeedSectionCache {
    pub id: String,
    pub track_ranges: Vec<ApplicableDirectionsTrackRange>,
    pub psl_sncf: Option<PslSigns>,
}

/// An electrification and the track ranges it covers.
#[derive(Clone, Debug)]
pub struct ElectrificationCache {
    pub id: String,
    pub track_ranges: Vec<ApplicableDirectionsTrackRange>,
}

/// The signs of a neutral section's `neutral_sncf` extension.
#[derive(Clone, Debug)]
pub struct NeutralSigns {
    pub exe: Sign,
    pub announcement: Vec<Sign>,
    pub end: Vec<Sign>,
    pub rev: Vec<Sign>,
}

/// A neutral section: its track ranges and the signs of its extension.
#[derive(Clone, Debug)]
pub struct NeutralSectionCache {
    pub id: String,
    pub track_ranges: Vec<DirectionalTrackRange>,
    pub neutral_sncf: Option<NeutralSigns>,
}

/// An operational point and its parts.
#[derive(Clone, Debug)]
pub struct OperationalPointCache {
    pub id: String,
    pub parts: Vec<OperationalPointPart>,
}

/// The reduced form of one object of an infrastructure.
///
/// Switch types and routes hold no reference to a track section.
#[derive(Clone, Debug)]
pub enum ObjectCache {
    TrackSection(TrackSectionCache),
    Signal(PointCache),
    Detector(PointCache),
    BufferStop(PointCache),
    Switch(SwitchCache),
    SwitchType(String),
    SpeedSection(SpeedSectionCache),
    Electrification(ElectrificationCache),
    NeutralSection(NeutralSectionCache),
    OperationalPoint(OperationalPointCache),
    Route(String),
}

/// Whether some sign of `signs` stands on track `t`.
pub open spec fn signs_on(signs: Seq<Sign>, t: Seq<char>) -> bool {
    exists|i: int| 0 <= i < signs.len() && (#[trigger] signs[i]).track@ == t
}

/// Whether some range of `ranges` lies on track `t`.
pub open spec fn applicable_ranges_on(ranges: Seq<ApplicableDirectionsTrackRange>, t: Seq<char>) -> bool {
    exists|i: int| 0 <= i < ranges.len() && (#[trigger] ranges[i]).track@ == t
}

/// Whether some range of `ranges` lies on track `t`.
pub open spec fn directional_ranges_on(ranges: Seq<DirectionalTrackRange>, t: Seq<char>) -> bool {
    exists|i: int| 0 <= i < ranges.len() && (#[trigger] ranges[i]).track@ == t
}

impl ObjectCache {
    pub open spec fn obj_type(&self) -> ObjectType {
        match self {
            ObjectCache::TrackSection(_) => ObjectType::TrackSection,
            ObjectCache::Signal(_) => ObjectType::Signal,
            ObjectCache::Detector(_) => ObjectType::Detector,
            ObjectCache::BufferStop(_) => ObjectType::BufferStop,
            ObjectCache::Switch(_) => ObjectType::Switch,
            ObjectCache::SwitchType(_) => ObjectType::SwitchType,
            ObjectCache::SpeedSection(_) => ObjectType::SpeedSection,
            ObjectCache::Electrification(_) => ObjectType::Electrification,
            ObjectCache::NeutralSection(_) => ObjectType::NeutralSection,
            ObjectCache::OperationalPoint(_) => ObjectType::OperationalPoint,
            ObjectCache::Route(_) => ObjectType::Route,
        }
    }

    pub open spec fn id(&self) -> Seq<char> {
        match self {
            ObjectCache::TrackSection(o) => o.id@,
            ObjectCache::Signal(o) => o.id@,
            ObjectCache::Detector(o) => o.id@,
            ObjectCache::BufferStop(o) => o.id@,
            ObjectCache::Switch(o) => o.id@,
            ObjectCache::SwitchType(id) => id@,
            ObjectCache::SpeedSection(o) => o.id@,
            ObjectCache::Electrification(o) => o.id@,
            ObjectCache::NeutralSection(o) => o.id@,
            ObjectCache::OperationalPoint(o) => o.id@,
            ObjectCache::Route(id) => id@,
        }
    }

    pub open spec fn key(&self) -> ObjectKey {
        (self.obj_type(), self.id())
    }

    /// Whether this object holds a reference to track section `t`.
    pub open spec fn references(&self, t: Seq<char>) -> bool {
        match self {
            ObjectCache::Signal(o) => o.track@ == t,
            ObjectCache::Detector(o) => o.track@ == t,
            ObjectCache::BufferStop(o) => o.track@ == t,
            ObjectCache::Switch(o) => exists|i: int|
                0 <= i < o.ports@.len() && (#[trigger] o.ports@[i]).endpoint.track@ == t,
            ObjectCache::SpeedSection(o) => applicable_ranges_on(o.track_ranges@, t) || match o.psl_sncf {
                Some(p) => p.z.track@ == t || signs_on(p.announcement@, t) || signs_on(p.r@, t),
                None => false,
            },
            ObjectCache::Electrification(o) => applicable_ranges_on(o.track_ranges@, t),
            ObjectCache::NeutralSection(o) => directional_ranges_on(o.track_ranges@, t) || match o.neutral_sncf {
                Some(n) => n.exe.track@ == t || signs_on(n.announcement@, t) || signs_on(n.end@, t)
                    || signs_on(n.rev@, t),
                None => false,
            },
            ObjectCache::OperationalPoint(o) => exists|i: int|
                0 <= i < o.parts@.len() && (#[trigger] o.parts@[i]).track@ == t,
            _ => false,
        }
    }

    pub fn get_type(&self) -> (r: ObjectType)
        ensures
            r == self.obj_type(),
    {
        match self {
            ObjectCache::TrackSection(_) => ObjectType::TrackSection,
            ObjectCache::Signal(_) => ObjectType::Signal,
            ObjectCache::Detector(_) => ObjectType::Detector,
            ObjectCache::BufferStop(_) => ObjectType::BufferStop,
            ObjectCache::Switch(_) => ObjectType::Switch,
            ObjectCache::SwitchType(_) => ObjectType::SwitchType,
            ObjectCache::SpeedSection(_) => ObjectType::SpeedSection,
            ObjectCache::Electrification(_) => ObjectType::Electrification,
            ObjectCache::NeutralSection(_) => ObjectType::NeutralSection,
            ObjectCache::OperationalPoint(_) => ObjectType::OperationalPoint,
            ObjectCache::Route(_) => ObjectType::Route,
        }
    }

    pub fn get_id(&self) -> (r: &String)
        ensures
            r@ == self.id(),
    {
        match self {
            ObjectCache::TrackSection(o) => &o.id,
            ObjectCache::Signal(o) => &o.id,
            ObjectCache::Detector(o) => &o.id,
            ObjectCache::BufferStop(o) => &o.id,
            ObjectCache::Switch(o) => &o.id,
            ObjectCache::SwitchType(id) => id,
            ObjectCache::SpeedSection(o) => &o.id,
            ObjectCache::Electrification(o) => &o.id,
            ObjectCache::NeutralSection(o) => &o.id,
            ObjectCache::OperationalPoint(o) => &o.id,
            ObjectCache::Route(id) => id,
        }
    }

    /// The reference to this object.
    pub fn get_ref(&self) -> (r: ObjectRef)
        ensures
            r.key() == self.key(),
    {
        ObjectRef { obj_type: self.get_type(), obj_id: self.get_id().clone() }
    }

    /// Every track section this object references, possibly more than once.
    pub fn get_track_referenced_id(&self) -> (r: Vec<String>)
        ensures
            forall|t: Seq<char>|
                self.references(t) <==> exists|i: int| 0 <= i < r@.len() && (#[trigger] r@[i])@ == t,
    {
        let mut out: Vec<String> = Vec::new();
        match self {
            ObjectCache::Signal(o) => {
                assert(forall|t: Seq<char>| !found(out@, t));
                push_track(&mut out, &o.track);
                assert(forall|t: Seq<char>| self.references(t) <==> found(out@, t));
            },
            ObjectCache::Detector(o) => {
                assert(forall|t: Seq<char>| !found(out@, t));
                push_track(&mut out, &o.track);
                assert(forall|t: Seq<char>| self.references(t) <==> found(out@, t));
            },
            ObjectCache::BufferStop(o) => {
                assert(forall|t: Seq<char>| !found(out@, t));
                push_track(&mut out, &o.track);
                assert(forall|t: Seq<char>| self.references(t) <==> found(out@, t));
            },
            ObjectCache::Switch(o) => {
                let mut i: usize = 0;
                while i < o.ports.len()
                    invariant
                        i <= o.ports@.len(),
                        out@.len() == i,
                        forall|k: int| 0 <= k < i ==> (#[trigger] out@[k])@ == o.ports@[k].endpoint.track@,
                    decreases o.ports@.len() - i,
                {
                    out.push(o.ports[i].endpoint.track.clone());
                    i = i + 1;
                }
                assert forall|t: Seq<char>|
                    self.references(t) <==> exists|k: int| 0 <= k < out@.len() && (#[trigger] out@[k])@ == t by {
                    if self.references(t) {
                        let k = choose|k: int| 0 <= k < o.ports@.len() && (#[trigger] o.ports@[k]).endpoint.track@ == t;
                        assert(out@[k]@ == t);
                    }
                    if exists|k: int| 0 <= k < out@.len() && (#[trigger] out@[k])@ == t {
                        let k = choose|k: int| 0 <= k < out@.len() && (#[trigger] out@[k])@ == t;
                        assert(o.ports@[k].endpoint.track@ == t);
                    }
                }
            },
            ObjectCache::SpeedSection(o) => {
                assert(forall|t: Seq<char>| !found(out@, t));
                push_applicable_range_tracks(&mut out, &o.track_ranges);
                let ghost s0 = out@;
                match &o.psl_sncf {
                    Some(psl) => {
                        push_track(&mut out, &psl.z.track);
                        let ghost s1 = out@;
                        push_sign_tracks(&mut out, &psl.announcement);
                        let ghost s2 = out@;
                        push_sign_tracks(&mut out, &psl.r);
                        assert forall|t: Seq<char>|
                            found(out@, t) <==> (found(s0, t) || psl.z.track@ == t || signs_on(psl.announcement@, t)
                                || signs_on(psl.r@, t)) by {
                            assert(found(out@, t) <==> (found(s2, t) || signs_on(psl.r@, t)));
                            assert(found(s2, t) <==> (found(s1, t) || signs_on(psl.announcement@, t)));
                            assert(found(s1, t) <==> (found(s0, t) || psl.z.track@ == t));
                        }
                    },
                    None => {},
                }
                assert(forall|t: Seq<char>| self.references(t) <==> found(out@, t));
            },
            ObjectCache::Electrification(o) => {
                assert(forall|t: Seq<char>| !found(out@, t));
                push_applicable_range_tracks(&mut out, &o.track_ranges);
                assert(forall|t: Seq<char>| self.references(t) <==> found(out@, t));
            },
            ObjectCache::NeutralSection(o) => {
                assert(forall|t: Seq<char>| !found(out@, t));
                push_directional_range_tracks(&mut out, &o.track_ranges);
                let ghost s0 = out@;
                match &o.neutral_sncf {
                    Some(n) => {
                        push_track(&mut out, &n.exe.track);
                        let ghost s1 = out@;
                        push_sign_tracks(&mut out, &n.announcement);
                        let ghost s2 = out@;
                        push_sign_tracks(&mut out, &n.end);
                        let ghost s3 = out@;
                        push_sign_tracks(&mut out, &n.rev);
                        assert forall|t: Seq<char>|
                            found(out@, t) <==> (found(s0, t) || n.exe.track@ == t || signs_on(n.announcement@, t)
                                || signs_on(n.end@, t) || signs_on(n.rev@, t)) by {
                            assert(found(out@, t) <==> (found(s3, t) || signs_on(n.rev@, t)));
                            assert(found(s3, t) <==> (found(s2, t) || signs_on(n.end@, t)));
                            assert(found(s2, t) <==> (found(s1, t) || signs_on(n.announcement@, t)));
                            assert(found(s1, t) <==> (found(s0, t) || n.exe.track@ == t));
                        }
                    },
                    None => {},
                }
                assert(forall|t: Seq<char>| self.references(t) <==> found(out@, t));
            },
            ObjectCache::OperationalPoint(o) => {
                let mut i: usize = 0;
                while i < o.parts.len()
                    invariant
                        i <= o.parts@.len(),
                        out@.len() == i,
                        forall|k: int| 0 <= k < i ==> (#[trigger] out@[k])@ == o.parts@[k].track@,
                    decreases o.parts@.len() - i,
                {
                    out.push(o.parts[i].track.clone());
                    i = i + 1;
                }
                assert forall|t: Seq<char>|
                    self.references(t) <==> exists|k: int| 0 <= k < out@.len() && (#[trigger] out@[k])@ == t by {
                    if self.references(t) {
                        let k = choose|k: int| 0 <= k < o.parts@.len() && (#[trigger] o.parts@[k]).track@ == t;
                        assert(out@[k]@ == t);
                    }
                    if exists|k: int| 0 <= k < out@.len() && (#[trigger] out@[k])@ == t {
                        let k = choose|k: int| 0 <= k < out@.len() && (#[trigger] out@[k])@ == t;
                        assert(o.parts@[k].track@ == t);
                    }
                }
            },
            _ => {
                assert(forall|t: Seq<char>| !found(out@, t));
            },
        }
        proof {
            lemma_found_tracks(out@);
        }
        out
    }
}

/// Whether some identifier of `s` has the view `t`.
pub open spec fn found(s: Seq<String>, t: Seq<char>) -> bool {
    exists|i: int| 0 <= i < s.len() && (#[trigger] s[i])@ == t
}

proof fn lemma_found_tracks(s: Seq<String>)
    ensures
        forall|t: Seq<char>| found(s, t) <==> exists|i: int| 0 <= i < s.len() && (#[trigger] s[i])@ == t,
{
}

fn push_track(out: &mut Vec<String>, track: &String)
    ensures
        forall|t: Seq<char>| #[trigger] found(final(out)@, t) <==> (found(old(out)@, t) || track@ == t),
{
    let ghost start = out@;
    out.push(track.clone());
    assert forall|t: Seq<char>| found(out@, t) <==> (found(start, t) || track@ == t) by {
        if found(out@, t) {
            let k = choose|k: int| 0 <= k < out@.len() && (#[trigger] out@[k])@ == t;
            if k < start.len() {
                assert(start[k]@ == t);
            }
        }
        if found(start, t) {
            let k = choose|k: int| 0 <= k < start.len() && (#[trigger] start[k])@ == t;
            assert(out@[k]@ == t);
        }
        if track@ == t {
            assert(out@[start.len() as int]@ == t);
        }
    }
}

fn push_sign_tracks(out: &mut Vec<String>, signs: &Vec<Sign>)
    ensures
        forall|t: Seq<char>| #[trigger] found(final(out)@, t) <==> (found(old(out)@, t) || signs_on(signs@, t)),
{
    let ghost start = out@;
    let mut i: usize = 0;
    while i < signs.len()
        invariant
            i <= signs@.len(),
            out@.len() == start.len() + i,
            forall|k: int| 0 <= k < start.len() ==> out@[k] == start[k],
            forall|k: int|
                start.len() <= k < start.len() + i ==> (#[trigger] out@[k])@ == signs@[k - start.len()].track@,
        decreases signs@.len() - i,
    {
        out.push(signs[i].track.clone());
        i = i + 1;
    }
    assert forall|t: Seq<char>| found(out@, t) <==> (found(start, t) || signs_on(signs@, t)) by {
        if found(out@, t) {
            let k = choose|k: int| 0 <= k < out@.len() && (#[trigger] out@[k])@ == t;
            if k < start.len() {
                assert(start[k]@ == t);
            } else {
                assert(signs@[k - start.len()].track@ == t);
            }
        }
        if found(start, t) {
            let k = choose|k: int| 0 <= k < start.len() && (#[trigger] start[k])@ == t;
            assert(out@[k]@ == t);
        }
        if signs_on(signs@, t) {
            let k = choose|k: int| 0 <= k < signs@.len() && (#[trigger] signs@[k]).track@ == t;
            assert(out@[start.len() + k]@ == t);
        }
    }
}

fn push_applicable_range_tracks(out: &mut Vec<String>, ranges: &Vec<ApplicableDirectionsTrackRange>)
    ensures
        forall|t: Seq<char>|
            #[trigger] found(final(out)@, t) <==> (found(old(out)@, t) || applicable_ranges_on(ranges@, t)),
{
    let ghost start = out@;
    let mut i: usize = 0;
    while i < ranges.len()
        invariant
            i <= ranges@.len(),
            out@.len() == start.len() + i,
            forall|k: int| 0 <= k < start.len() ==> out@[k] == start[k],
            forall|k: int|
                start.len() <= k < start.len() + i ==> (#[trigger] out@[k])@ == ranges@[k - start.len()].track@,
        decreases ranges@.len() - i,
    {
        out.push(ranges[i].track.clone());
        i = i + 1;
    }
    assert forall|t: Seq<char>| found(out@, t) <==> (found(start, t) || applicable_ranges_on(ranges@, t)) by {
        if found(out@, t) {
            let k = choose|k: int| 0 <= k < out@.len() && (#[trigger] out@[k])@ == t;
            if k < start.len() {
                assert(start[k]@ == t);
            } else {
                assert(ranges@[k - start.len()].track@ == t);
            }
        }
        if found(start, t) {
            let k = choose|k: int| 0 <= k < start.len() && (#[trigger] start[k])@ == t;
            assert(out@[k]@ == t);
        }
        if applicable_ranges_on(ranges@, t) {
            let k = choose|k: int| 0 <= k < ranges@.len() && (#[trigger] ranges@[k]).track@ == t;
            assert(out@[start.len() + k]@ == t);
        }
    }
}

fn push_directional_range_tracks(out: &mut Vec<String>, ranges: &Vec<DirectionalTrackRange>)
    ensures
        forall|t: Seq<char>|
            #[trigger] found(final(out)@, t) <==> (found(old(out)@, t) || directional_ranges_on(ranges@, t)),
{
    let ghost start = out@;
    let mut i: usize = 0;
    while i < ranges.len()
        invariant
            i <= ranges@.len(),
            out@.len() == start.len() + i,
            forall|k: int| 0 <= k < start.len() ==> out@[k] == start[k],
            forall|k: int|
                start.len() <= k < start.len() + i ==> (#[trigger] out@[k])@ == ranges@[k - start.len()].track@,
        decreases ranges@.len() - i,
    {
        out.push(ranges[i].track.clone());
        i = i + 1;
    }
    assert forall|t: Seq<char>| found(out@, t) <==> (found(start, t) || directional_ranges_on(ranges@, t)) by {
        if found(out@, t) {
            let k = choose|k: int| 0 <= k < out@.len() && (#[trigger] out@[k])@ == t;
            if k < start.len() {
                assert(start[k]@ == t);
            } else {
                assert(ranges@[k - start.len()].track@ == t);
            }
        }
        if found(start, t) {
            let k = choose|k: int| 0 <= k < start.len() && (#[trigger] start[k])@ == t;
            assert(out@[k]@ == t);
        }
        if directional_ranges_on(ranges@, t) {
            let k = choose|k: int| 0 <= k < ranges@.len() && (#[trigger] ranges@[k]).track@ == t;
            assert(out@[start.len() + k]@ == t);
        }
    }
}

} // verus!
