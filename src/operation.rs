//! Edit operations: JSON patches addressed by JSON pointers, and the
//! create / update / delete operations that carry them.
use vstd::prelude::*;

use crate::object_cache::{ObjectKey, ObjectRef};
use crate::schema::{
    ApplicableDirectionsTrackRange, DirectionalTrackRange, ObjectType, OperationalPointPart, Switch,
    TrackSection,
};

verus! {

/// One token of a JSON pointer.
#[derive(Debug)]
pub enum PathToken {
    Track,
    Position,
    Begin,
    End,
    Ports,
    TrackRanges,
    Parts,
    Extensions,
    PslSncf,
    NeutralSncf,
    Z,
    Announcement,
    R,
    Exe,
    Rev,
    /// A key chosen by the data, such as a port name.
    Name(String),
    /// An index into an array.
    Index(usize),
    /// The end of an array, where `add` appends (`-`).
    Append,
}

impl Clone for PathToken {
    fn clone(&self) -> (r: Self)
        ensures
            r == *self,
    {
        match self {
            PathToken::Track => PathToken::Track,
            PathToken::Position => PathToken::Position,
            PathToken::Begin => PathToken::Begin,
            PathToken::End => PathToken::End,
            PathToken::Ports => PathToken::Ports,
            PathToken::TrackRanges => PathToken::TrackRanges,
            PathToken::Parts => PathToken::Parts,
            PathToken::Extensions => PathToken::Extensions,
            PathToken::PslSncf => PathToken::PslSncf,
            PathToken::NeutralSncf => PathToken::NeutralSncf,
            PathToken::Z => PathToken::Z,
            PathToken::Announcement => PathToken::Announcement,
            PathToken::R => PathToken::R,
            PathToken::Exe => PathToken::Exe,
            PathToken::Rev => PathToken::Rev,
            PathToken::Name(n) => PathToken::Name(n.clone()),
            PathToken::Index(i) => PathToken::Index(*i),
            PathToken::Append => PathToken::Append,
        }
    }
}

/// A value written by a patch.
#[derive(Debug)]
pub enum PatchValue {
    /// The identifier of an object.
    Identifier(String),
    /// A distance along a track section, in millimetres.
    Distance(i64),
    ApplicableRange(ApplicableDirectionsTrackRange),
    DirectionalRange(DirectionalTrackRange),
    OperationalPointPart(OperationalPointPart),
}

/// The three operations of JSON patch that the engine uses.
#[derive(Clone, Copy, Debug, PartialEq, Eq, Structural)]
pub enum PatchKind {
    Add,
    Remove,
    Replace,
}

/// What a patch operation is: its kind, its path, and the value it writes.
pub type PatchStep = (PatchKind, Seq<PathToken>, Option<PatchValue>);

/// One operation of a JSON patch. `value` is `None` exactly for a removal.
#[derive(Debug)]
pub struct PatchOperation {
    pub kind: PatchKind,
    pub path: Vec<PathToken>,
    pub value: Option<PatchValue>,
}

impl View for PatchOperation {
    type V = PatchStep;

    open spec fn view(&self) -> PatchStep {
        (self.kind, self.path@, self.value)
    }
}

pub open spec fn replace_step(path: Seq<PathToken>, v: PatchValue) -> PatchStep {
    (PatchKind::Replace, path, Some(v))
}

pub open spec fn add_step(path: Seq<PathToken>, v: PatchValue) -> PatchStep {
    (PatchKind::Add, path, Some(v))
}

pub open spec fn remove_step(path: Seq<PathToken>) -> PatchStep {
    (PatchKind::Remove, path, None)
}

/// The steps of a patch.
pub open spec fn steps_of(ops: Seq<PatchOperation>) -> Seq<PatchStep> {
    ops.map_values(|o: PatchOperation| o@)
}

/// What an update is: the key of its object and the steps of its patch.
pub type UpdateStep = (ObjectKey, Seq<PatchStep>);

/// A patch of one object.
#[derive(Debug)]
pub struct UpdateOperation {
    pub obj_type: ObjectType,
    pub obj_id: String,
    pub railjson_patch: Vec<PatchOperation>,
}

impl View for UpdateOperation {
    type V = UpdateStep;

    open spec fn view(&self) -> UpdateStep {
        ((self.obj_type, self.obj_id@), steps_of(self.railjson_patch@))
    }
}

/// An object in full, as the engine creates it.
#[derive(Debug)]
pub enum RailjsonObject {
    TrackSection(TrackSection),
    Switch(Switch),
}

/// One edit of an infrastructure.
#[derive(Debug)]
pub enum Operation {
    Create(RailjsonObject),
    Update(UpdateOperation),
    Delete(ObjectRef),
}

/// Appends `ops` to `out`.
pub fn append_patch(out: &mut Vec<PatchOperation>, ops: Vec<PatchOperation>)
    ensures
        steps_of(final(out)@) == steps_of(old(out)@) + steps_of(ops@),
{
    let mut ops = ops;
    let ghost start = out@;
    let ghost added = ops@;
    out.append(&mut ops);
    assert(steps_of(out@) =~= steps_of(start) + steps_of(added));
}

/// A replacement of the value at `path` by `value`.
pub fn replace_op(path: Vec<PathToken>, value: PatchValue) -> (r: PatchOperation)
    ensures
        r@ == replace_step(path@, value),
{
    PatchOperation { kind: PatchKind::Replace, path, value: Some(value) }
}

/// An addition of `value` at `path`.
pub fn add_op(path: Vec<PathToken>, value: PatchValue) -> (r: PatchOperation)
    ensures
        r@ == add_step(path@, value),
{
    PatchOperation { kind: PatchKind::Add, path, value: Some(value) }
}

/// A removal of the value at `path`.
pub fn remove_op(path: Vec<PathToken>) -> (r: PatchOperation)
    ensures
        r@ == remove_step(path@),
{
    PatchOperation { kind: PatchKind::Remove, path, value: None }
}

/// The path `/a/b`.
pub fn path2(a: PathToken, b: PathToken) -> (r: Vec<PathToken>)
    ensures
        r@ == seq![a, b],
{
    let mut r: Vec<PathToken> = Vec::new();
    r.push(a);
    r.push(b);
    assert(r@ =~= seq![a, b]);
    r
}

/// The path `/a/b/c`.
pub fn path3(a: PathToken, b: PathToken, c: PathToken) -> (r: Vec<PathToken>)
    ensures
        r@ == seq![a, b, c],
{
    let mut r = path2(a, b);
    r.push(c);
    assert(r@ =~= seq![a, b, c]);
    r
}

/// `prefix` followed by `token`.
pub fn path_then(prefix: &Vec<PathToken>, token: PathToken) -> (r: Vec<PathToken>)
    ensures
        r@ == prefix@.push(token),
{
    let mut r = prefix.clone();
    assert(r@ =~= prefix@);
    r.push(token);
    r
}

} // verus!
