//! The infrastructure objects that the edition engine reads and builds.
use vstd::prelude::*;

verus! {

/// The kinds of object an infrastructure holds.
#[derive(Clone, Copy, Debug, PartialEq, Eq, Structural)]
pub enum ObjectType {
    TrackSection,
    Signal,
    Detector,
    BufferStop,
    Switch,
    SwitchType,
    SpeedSection,
    Electrification,
    NeutralSection,
    OperationalPoint,
    Route,
}

/// One end of a track section.
#[derive(Clone, Copy, Debug, PartialEq, Eq, Structural)]
pub enum Endpoint {
    Begin,
    End,
}

/// The directions in which a track range applies.
#[derive(Clone, Copy, Debug, PartialEq, Eq, Structural)]
pub enum ApplicableDirections {
    StartToStop,
    StopToStart,
    Both,
}

/// A direction of travel along a track section.
#[derive(Clone, Copy, Debug, PartialEq, Eq, Structural)]
pub enum Direction {
    StartToStop,
    StopToStart,
}

/// An end of a given track section.
#[derive(Debug)]
pub struct TrackEndpoint {
    pub track: String,
    pub endpoint: Endpoint,
}

impl Clone for TrackEndpoint {
    fn clone(&self) -> (r: Self)
        ensures
            r == *self,
    {
        TrackEndpoint { track: self.track.clone(), endpoint: self.endpoint }
    }
}

/// A sign placed at a position on a track section.
#[derive(Debug)]
pub struct Sign {
    pub track: String,
    pub position: i64,
}

impl Clone for Sign {
    fn clone(&self) -> (r: Self)
        ensures
            r == *self,
    {
        Sign { track: self.track.clone(), position: self.position }
    }
}

/// A part of a track section, with the directions it applies to.
#[derive(Debug)]
pub struct ApplicableDirectionsTrackRange {
    pub track: String,
    pub begin: i64,
    pub end: i64,
    pub applicable_directions: ApplicableDirections,
}

impl Clone for ApplicableDirectionsTrackRange {
    fn clone(&self) -> (r: Self)
        ensures
            r == *self,
    {
        ApplicableDirectionsTrackRange {
            track: self.track.clone(),
            begin: self.begin,
            end: self.end,
            applicable_directions: self.applicable_directions,
        }
    }
}

/// A part of a track section travelled in one direction.
#[derive(Debug)]
pub struct DirectionalTrackRange {
    pub track: String,
    pub begin: i64,
    pub end: i64,
    pub direction: Direction,
}

impl Clone for DirectionalTrackRange {
    fn clone(&self) -> (r: Self)
        ensures
            r == *self,
    {
        DirectionalTrackRange {
            track: self.track.clone(),
            begin: self.begin,
            end: self.end,
            direction: self.direction,
        }
    }
}

/// A point of an operational point, on one track section.
#[derive(Debug)]
pub struct OperationalPointPart {
    pub track: String,
    pub position: i64,
}

impl Clone for OperationalPointPart {
    fn clone(&self) -> (r: Self)
        ensures
            r == *self,
    {
        OperationalPointPart { track: self.track.clone(), position: self.position }
    }
}

/// A value that holds over an interval `[begin, end]` of a track section.
pub trait Ranged: Sized {
    spec fn begin_of(&self) -> i64;

    spec fn end_of(&self) -> i64;

    /// The same value over the interval `[b, e]`, every other field kept.
    spec fn with_bounds_spec(&self, b: i64, e: i64) -> Self;

    proof fn lemma_with_bounds(&self, b: i64, e: i64)
        ensures
            self.with_bounds_spec(b, e).begin_of() == b,
            self.with_bounds_spec(b, e).end_of() == e,
            self.with_bounds_spec(self.begin_of(), self.end_of()) == *self,
    ;

    fn begin(&self) -> (r: i64)
        ensures
            r == self.begin_of(),
    ;

    fn end(&self) -> (r: i64)
        ensures
            r == self.end_of(),
    ;

    fn with_bounds(&self, b: i64, e: i64) -> (r: Self)
        ensures
            r == self.with_bounds_spec(b, e),
    ;
}

/// A slope, in thousandths of a per mille.
#[derive(Clone, Copy, Debug, PartialEq, Eq, Structural)]
pub struct Slope {
    pub begin: i64,
    pub end: i64,
    pub gradient: i64,
}

/// A curve, with its radius in millimetres.
#[derive(Clone, Copy, Debug, PartialEq, Eq, Structural)]
pub struct Curve {
    pub begin: i64,
    pub end: i64,
    pub radius: i64,
}

/// A limit on the loading gauge, named by its category.
#[derive(Debug)]
pub struct LoadingGaugeLimit {
    pub begin: i64,
    pub end: i64,
    pub category: String,
}

impl Clone for LoadingGaugeLimit {
    fn clone(&self) -> (r: Self)
        ensures
            r == *self,
    {
        LoadingGaugeLimit { begin: self.begin, end: self.end, category: self.category.clone() }
    }
}

impl Ranged for Slope {
    open spec fn begin_of(&self) -> i64 {
        self.begin
    }

    open spec fn end_of(&self) -> i64 {
        self.end
    }

    open spec fn with_bounds_spec(&self, b: i64, e: i64) -> Self {
        Slope { begin: b, end: e, gradient: self.gradient }
    }

    proof fn lemma_with_bounds(&self, b: i64, e: i64) {
    }

    fn begin(&self) -> (r: i64) {
        self.begin
    }

    fn end(&self) -> (r: i64) {
        self.end
    }

    fn with_bounds(&self, b: i64, e: i64) -> (r: Self) {
        Slope { begin: b, end: e, gradient: self.gradient }
    }
}

impl Ranged for Curve {
    open spec fn begin_of(&self) -> i64 {
        self.begin
    }

    open spec fn end_of(&self) -> i64 {
        self.end
    }

    open spec fn with_bounds_spec(&self, b: i64, e: i64) -> Self {
        Curve { begin: b, end: e, radius: self.radius }
    }

    proof fn lemma_with_bounds(&self, b: i64, e: i64) {
    }

    fn begin(&self) -> (r: i64) {
        self.begin
    }

    fn end(&self) -> (r: i64) {
        self.end
    }

    fn with_bounds(&self, b: i64, e: i64) -> (r: Self) {
        Curve { begin: b, end: e, radius: self.radius }
    }
}

impl Ranged for LoadingGaugeLimit {
    open spec fn begin_of(&self) -> i64 {
        self.begin
    }

    open spec fn end_of(&self) -> i64 {
        self.end
    }

    open spec fn with_bounds_spec(&self, b: i64, e: i64) -> Self {
        LoadingGaugeLimit { begin: b, end: e, category: self.category }
    }

    proof fn lemma_with_bounds(&self, b: i64, e: i64) {
    }

    fn begin(&self) -> (r: i64) {
        self.begin
    }

    fn end(&self) -> (r: i64) {
        self.end
    }

    fn with_bounds(&self, b: i64, e: i64) -> (r: Self) {
        LoadingGaugeLimit { begin: b, end: e, category: self.category.clone() }
    }
}

/// The full description of a track section.
///
/// `geo` and `sch` hold the geographic and schematic line strings as GeoJSON
/// text, and `extensions` the extension object as JSON text: the engine
/// carries them and never reads them.
#[derive(Debug)]
pub struct TrackSection {
    pub id: String,
    pub length: i64,
    pub slopes: Vec<Slope>,
    pub curves: Vec<Curve>,
    pub loading_gauge_limits: Vec<LoadingGaugeLimit>,
    pub geo: String,
    pub sch: String,
    pub extensions: String,
}

/// A named port of a switch and the track end it connects.
#[derive(Debug)]
pub struct SwitchPort {
    pub name: String,
    pub endpoint: TrackEndpoint,
}

impl Clone for SwitchPort {
    fn clone(&self) -> (r: Self)
        ensures
            r == *self,
    {
        SwitchPort { name: self.name.clone(), endpoint: self.endpoint.clone() }
    }
}

/// The full description of a switch. `group_change_delay` is in
/// milliseconds.
#[derive(Debug)]
pub struct Switch {
    pub id: String,
    pub switch_type: String,
    pub group_change_delay: i64,
    pub ports: Vec<SwitchPort>,
}

} // verus!
