//! The cache of one infrastructure: its objects, keyed by type and
//! identifier, and the index from each track section to the objects that
//! reference it.
use vstd::prelude::*;

use crate::error::EditionError;
use crate::object_cache::{ObjectCache, ObjectKey, ObjectRef, TrackSectionCache};
use crate::schema::ObjectType;

verus! {

/// An edge of the reference index: `obj` references track section `track`.
#[derive(Debug)]
pub struct ReferenceEdge {
    pub track: String,
    pub obj: ObjectRef,
}

impl ReferenceEdge {
    pub open spec fn edge(&self) -> (Seq<char>, ObjectKey) {
        (self.track@, self.obj.key())
    }
}

impl Clone for ReferenceEdge {
    fn clone(&self) -> (r: Self)
        ensures
            r == *self,
    {
        ReferenceEdge { track: self.track.clone(), obj: self.obj.clone() }
    }
}

/// A change of the cache, derived from a change of the store.
#[derive(Clone, Debug)]
pub enum CacheOperation {
    Create(ObjectCache),
    Update(ObjectCache),
    Delete(ObjectRef),
}

/// The objects of `objs` are those of `m`, each key once.
pub open spec fn objects_exact(objs: Seq<ObjectCache>, m: Map<ObjectKey, ObjectCache>) -> bool {
    &&& forall|i: int| 0 <= i < objs.len() ==> m.contains_key(#[trigger] objs[i].key()) && m[objs[i].key()] == objs[i]
    &&& forall|k: ObjectKey| #[trigger] m.contains_key(k) ==> exists|i: int| 0 <= i < objs.len() && (#[trigger] objs[i].key()) == k
    &&& forall|i: int, j: int| 0 <= i < j < objs.len() ==> (#[trigger] objs[i].key()) != (#[trigger] objs[j].key())
}

/// The edges of `es` are exactly the references held by the objects of `m`,
/// each once.
pub open spec fn edges_exact(es: Seq<ReferenceEdge>, m: Map<ObjectKey, ObjectCache>) -> bool {
    &&& forall|i: int| 0 <= i < es.len() ==> m.contains_key((#[trigger] es[i].edge()).1) && m[es[i].edge().1].references(es[i].edge().0)
    &&& forall|k: ObjectKey, t: Seq<char>| m.contains_key(k) && #[trigger] m[k].references(t) ==>
        exists|i: int| 0 <= i < es.len() && (#[trigger] es[i].edge()) == (t, k)
    &&& forall|i: int, j: int| 0 <= i < j < es.len() ==> (#[trigger] es[i].edge()) != (#[trigger] es[j].edge())
}

/// The reference index that the objects of `m` determine.
pub open spec fn index_of(m: Map<ObjectKey, ObjectCache>) -> Set<(Seq<char>, ObjectKey)> {
    Set::new(|e: (Seq<char>, ObjectKey)| m.contains_key(e.1) && m[e.1].references(e.0))
}

/// One change applied to the objects `m`: the objects after it, and whether
/// it found the object it targets.
pub open spec fn apply_step(m: Map<ObjectKey, ObjectCache>, op: CacheOperation) -> (Map<ObjectKey, ObjectCache>, bool) {
    match op {
        CacheOperation::Create(o) => (m.insert(o.key(), o), true),
        CacheOperation::Update(o) => if m.contains_key(o.key()) {
            (m.insert(o.key(), o), true)
        } else {
            (m, false)
        },
        CacheOperation::Delete(r) => if m.contains_key(r.key()) {
            (m.remove(r.key()), true)
        } else {
            (m, false)
        },
    }
}

/// The changes `ops` applied in order to the objects `m`, stopping at the
/// first that targets an absent object: the objects reached, and whether
/// every change was applied.
pub open spec fn apply_steps(m: Map<ObjectKey, ObjectCache>, ops: Seq<CacheOperation>) -> (Map<ObjectKey, ObjectCache>, bool)
    decreases ops.len(),
{
    if ops.len() == 0 {
        (m, true)
    } else {
        let (m1, ok) = apply_steps(m, ops.drop_last());
        if ok {
            apply_step(m1, ops.last())
        } else {
            (m1, false)
        }
    }
}

/// The objects that loading `objs` in order gives: a later object replaces
/// an earlier one of the same key.
pub open spec fn load_map(objs: Seq<ObjectCache>) -> Map<ObjectKey, ObjectCache>
    decreases objs.len(),
{
    if objs.len() == 0 {
        Map::empty()
    } else {
        load_map(objs.drop_last()).insert(objs.last().key(), objs.last())
    }
}

/// The cache of one infrastructure.
pub struct InfraCache {
    objects: Vec<ObjectCache>,
    track_sections_refs: Vec<ReferenceEdge>,
    model: Ghost<Map<ObjectKey, ObjectCache>>,
}

impl InfraCache {
    /// The cached objects, by key.
    pub closed spec fn objects(&self) -> Map<ObjectKey, ObjectCache> {
        self.model@
    }

    /// The reference index: `(t, k)` is in it when object `k` references
    /// track section `t`.
    pub closed spec fn refs(&self) -> Set<(Seq<char>, ObjectKey)> {
        Set::new(|e: (Seq<char>, ObjectKey)| exists|i: int| 0 <= i < self.track_sections_refs@.len()
            && (#[trigger] self.track_sections_refs@[i].edge()) == e)
    }

    pub closed spec fn wf(&self) -> bool {
        objects_exact(self.objects@, self.model@) && edges_exact(self.track_sections_refs@, self.model@)
    }

    /// In a well-formed cache the index is the one its objects determine.
    pub proof fn lemma_refs_exact(&self)
        requires
            self.wf(),
        ensures
            self.refs() == index_of(self.objects()),
    {
        assert(self.refs() =~= index_of(self.objects()));
    }

    /// After a successful batch, a cache kept up to date by applying the
    /// batch's cache operations holds the same objects, and so answers every
    /// lookup and every reference query alike, as a cache loaded afresh from
    /// the store that the batch changed the same way.
    pub proof fn lemma_incremental_matches_reload(
        before: Seq<ObjectCache>,
        ops: Seq<CacheOperation>,
        after: Seq<ObjectCache>,
        updated: InfraCache,
        reloaded: InfraCache,
    )
        requires
            apply_steps(load_map(before), ops).1,
            load_map(after) == apply_steps(load_map(before), ops).0,
            updated.wf(),
            updated.objects() == apply_steps(load_map(before), ops).0,
            reloaded.wf(),
            reloaded.objects() == load_map(after),
        ensures
            updated.objects() == reloaded.objects(),
            updated.refs() == reloaded.refs(),
            updated.refs() == index_of(load_map(after)),
    {
        updated.lemma_refs_exact();
        reloaded.lemma_refs_exact();
    }

    /// An empty cache.
    pub fn new() -> (r: Self)
        ensures
            r.wf(),
            r.objects() == Map::<ObjectKey, ObjectCache>::empty(),
    {
        InfraCache { objects: Vec::new(), track_sections_refs: Vec::new(), model: Ghost(Map::empty()) }
    }

    fn find(&self, obj_type: ObjectType, obj_id: &String) -> (r: Option<usize>)
        requires
            self.wf(),
        ensures
            match r {
                Some(i) => i < self.objects@.len() && self.objects@[i as int].key() == (obj_type, obj_id@),
                None => !self.objects().contains_key((obj_type, obj_id@)),
            },
    {
        let mut i: usize = 0;
        while i < self.objects.len()
            invariant
                self.wf(),
                i <= self.objects@.len(),
                forall|j: int| 0 <= j < i ==> (#[trigger] self.objects@[j].key()) != (obj_type, obj_id@),
            decreases self.objects@.len() - i,
        {
            let o = &self.objects[i];
            if o.get_type() == obj_type && o.get_id().eq(obj_id) {
                return Some(i);
            }
            i = i + 1;
        }
        None
    }

    /// The cached object of key `(obj_type, obj_id)`.
    pub fn get(&self, obj_type: ObjectType, obj_id: &String) -> (r: Option<&ObjectCache>)
        requires
            self.wf(),
        ensures
            match r {
                Some(o) => self.objects().contains_key((obj_type, obj_id@)) && *o == self.objects()[(obj_type, obj_id@)],
                None => !self.objects().contains_key((obj_type, obj_id@)),
            },
    {
        match self.find(obj_type, obj_id) {
            Some(i) => Some(&self.objects[i]),
            None => None,
        }
    }

    /// Inserts `o`, replacing the cached object of the same key if any, and
    /// indexes its references.
    pub fn insert(&mut self, o: ObjectCache)
        requires
            old(self).wf(),
        ensures
            final(self).wf(),
            final(self).objects() == old(self).objects().insert(o.key(), o),
    {
        let ghost m = self.model@;
        let ghost k = o.key();
        let r = o.get_ref();
        let tracks = o.get_track_referenced_id();
        let mut es = without_edges_of(&self.track_sections_refs, &r, self.model);
        let ghost m2 = m.insert(k, o);
        assert(m2.remove(k) =~= m.remove(k));
        match self.find(r.obj_type, &r.obj_id) {
            Some(i) => {
                let ghost objs = self.objects@;
                self.objects.set(i, o);
                proof {
                    assert forall|j: int| 0 <= j < self.objects@.len() && j != i implies
                        (#[trigger] self.objects@[j]) == objs[j] && objs[j].key() != k by {
                        if j < i {
                            assert(objs[j].key() != objs[i as int].key());
                        } else {
                            assert(objs[i as int].key() != objs[j].key());
                        }
                    }
                    assert forall|kk: ObjectKey| #[trigger] m2.contains_key(kk) implies
                        exists|j: int| 0 <= j < self.objects@.len() && (#[trigger] self.objects@[j].key()) == kk by {
                        if kk == k {
                            assert(self.objects@[i as int].key() == kk);
                        } else {
                            let j = choose|j: int| 0 <= j < objs.len() && (#[trigger] objs[j].key()) == kk;
                            assert(self.objects@[j] == objs[j]);
                        }
                    }
                }
            },
            None => {
                let ghost objs = self.objects@;
                self.objects.push(o);
                proof {
                    assert forall|j: int| 0 <= j < objs.len() implies (#[trigger] objs[j].key()) != k by {
                        assert(m.contains_key(objs[j].key()));
                    }
                    assert forall|kk: ObjectKey| #[trigger] m2.contains_key(kk) implies
                        exists|j: int| 0 <= j < self.objects@.len() && (#[trigger] self.objects@[j].key()) == kk by {
                        if kk == k {
                            assert(self.objects@[objs.len() as int].key() == kk);
                        } else {
                            let j = choose|j: int| 0 <= j < objs.len() && (#[trigger] objs[j].key()) == kk;
                            assert(self.objects@[j] == objs[j]);
                        }
                    }
                }
            },
        }
        self.model = Ghost(m2);
        add_edges_of(&mut es, &r, &tracks, self.model);
        self.track_sections_refs = es;
    }

    /// Removes the cached object of key `(obj_type, obj_id)` and its edges.
    pub fn remove(&mut self, obj_type: ObjectType, obj_id: &String) -> (r: Result<(), EditionError>)
        requires
            old(self).wf(),
        ensures
            final(self).wf(),
            match r {
                Ok(()) => old(self).objects().contains_key((obj_type, obj_id@))
                    && final(self).objects() == old(self).objects().remove((obj_type, obj_id@)),
                Err(e) => !old(self).objects().contains_key((obj_type, obj_id@))
                    && final(self).objects() == old(self).objects()
                    && e == (EditionError::ObjectNotFound { obj_type, obj_id: *obj_id }),
            },
    {
        match self.find(obj_type, obj_id) {
            None => Err(EditionError::ObjectNotFound { obj_type, obj_id: obj_id.clone() }),
            Some(i) => {
                let ghost m = self.model@;
                let ghost k = (obj_type, obj_id@);
                let ghost objs = self.objects@;
                let r = ObjectRef { obj_type, obj_id: obj_id.clone() };
                let es = without_edges_of(&self.track_sections_refs, &r, self.model);
                self.objects.remove(i);
                let ghost m2 = m.remove(k);
                proof {
                    assert forall|j: int| 0 <= j < self.objects@.len() implies
                        (#[trigger] self.objects@[j]) == objs[if j < i { j } else { j + 1 }] by {}
                    assert forall|j: int| 0 <= j < self.objects@.len() implies
                        m2.contains_key(#[trigger] self.objects@[j].key()) && m2[self.objects@[j].key()] == self.objects@[j] by {
                        let jj = if j < i { j } else { j + 1 };
                        assert(self.objects@[j] == objs[jj]);
                        assert(objs[jj].key() != objs[i as int].key());
                    }
                    assert forall|kk: ObjectKey| #[trigger] m2.contains_key(kk) implies
                        exists|j: int| 0 <= j < self.objects@.len() && (#[trigger] self.objects@[j].key()) == kk by {
                        let jj = choose|jj: int| 0 <= jj < objs.len() && (#[trigger] objs[jj].key()) == kk;
                        assert(jj != i);
                        let j = if jj < i { jj } else { jj - 1 };
                        assert(self.objects@[j] == objs[jj]);
                    }
                    assert forall|a: int, b: int| 0 <= a < b < self.objects@.len() implies
                        (#[trigger] self.objects@[a].key()) != (#[trigger] self.objects@[b].key()) by {
                        let aa = if a < i { a } else { a + 1 };
                        let bb = if b < i { b } else { b + 1 };
                        assert(self.objects@[a] == objs[aa]);
                        assert(self.objects@[b] == objs[bb]);
                    }
                }
                self.model = Ghost(m2);
                self.track_sections_refs = es;
                Ok(())
            },
        }
    }

    /// Applies `ops` in order, and stops at the first update or deletion
    /// whose object is absent from the cache.
    pub fn apply_operations(&mut self, ops: Vec<CacheOperation>) -> (r: Result<(), EditionError>)
        requires
            old(self).wf(),
        ensures
            final(self).wf(),
            final(self).objects() == apply_steps(old(self).objects(), ops@).0,
            r is Ok <==> apply_steps(old(self).objects(), ops@).1,
    {
        let ghost m0 = self.objects();
        let ghost all = ops@;
        let mut rest = reversed(ops);
        let ghost total = all.len();
        while rest.len() > 0
            invariant
                self.wf(),
                all == ops@,
                m0 == old(self).objects(),
                rest@.len() <= total,
                total == all.len(),
                rest@.reverse() =~= all.subrange(total - rest@.len(), total as int),
                apply_steps(m0, all.subrange(0, total - rest@.len())) == (self.objects(), true),
            decreases rest@.len(),
        {
            let ghost n = total - rest@.len();
            let op = rest.pop().unwrap();
            proof {
                lemma_pop_reversed(all, rest@, op, n);
                assert(all.subrange(0, n + 1).drop_last() =~= all.subrange(0, n));
            }
            match op {
                CacheOperation::Create(o) => {
                    self.insert(o);
                },
                CacheOperation::Update(o) => {
                    let present = self.get(o.get_type(), o.get_id()).is_some();
                    if !present {
                        let err = EditionError::ObjectNotFound { obj_type: o.get_type(), obj_id: o.get_id().clone() };
                        proof {
                            let s1 = all.subrange(0, n + 1);
                            assert(all[n] == CacheOperation::Update(o));
                            assert(apply_step(self.objects(), all[n]) == (self.objects(), false));
                            assert(s1.drop_last() =~= all.subrange(0, n));
                            assert(apply_steps(m0, s1) == (self.objects(), false));
                            lemma_apply_steps_stops(m0, all, n);
                            assert(apply_steps(m0, all) == (self.objects(), false));
                        }
                        return Err(err);
                    }
                    self.insert(o);
                },
                CacheOperation::Delete(d) => {
                    let res = self.remove(d.obj_type, &d.obj_id);
                    if res.is_err() {
                        proof {
                            lemma_apply_steps_stops(m0, all, n);
                        }
                        return res;
                    }
                },
            }
        }
        proof {
            assert(all.subrange(0, total as int) =~= all);
        }
        Ok(())
    }

    /// Builds the cache of the objects `objs`, as loaded from the store.
    pub fn load(objs: Vec<ObjectCache>) -> (r: Self)
        ensures
            r.wf(),
            r.objects() == load_map(objs@),
    {
        let mut cache = InfraCache::new();
        let ghost all = objs@;
        let mut rest = reversed(objs);
        let ghost total = all.len();
        while rest.len() > 0
            invariant
                cache.wf(),
                rest@.len() <= total,
                total == all.len(),
                rest@.reverse() =~= all.subrange(total - rest@.len(), total as int),
                cache.objects() == load_map(all.subrange(0, total - rest@.len())),
            decreases rest@.len(),
        {
            let ghost n = total - rest@.len();
            let o = rest.pop().unwrap();
            proof {
                lemma_pop_reversed(all, rest@, o, n);
                assert(all.subrange(0, n + 1).drop_last() =~= all.subrange(0, n));
            }
            cache.insert(o);
        }
        proof {
            assert(all.subrange(0, total as int) =~= all);
        }
        cache
    }

    /// The objects that reference track section `track`, each once.
    pub fn track_sections_refs(&self, track: &String) -> (r: Vec<ObjectRef>)
        requires
            self.wf(),
        ensures
            forall|k: ObjectKey|
                (exists|j: int| 0 <= j < r@.len() && (#[trigger] r@[j].key()) == k)
                    <==> (self.objects().contains_key(k) && self.objects()[k].references(track@)),
            forall|a: int, b: int| 0 <= a < b < r@.len() ==> (#[trigger] r@[a].key()) != (#[trigger] r@[b].key()),
    {
        let es = &self.track_sections_refs;
        let mut out: Vec<ObjectRef> = Vec::new();
        let ghost mut src: Seq<int> = Seq::empty();
        let mut i: usize = 0;
        while i < es.len()
            invariant
                self.wf(),
                es == &self.track_sections_refs,
                i <= es@.len(),
                src.len() == out@.len(),
                forall|j: int| 0 <= j < out@.len() ==> 0 <= #[trigger] src[j] < i
                    && es@[src[j]].edge() == (track@, out@[j].key()),
                forall|a: int, b: int| 0 <= a < b < out@.len() ==> #[trigger] src[a] < #[trigger] src[b],
                forall|l: int| 0 <= l < i && (#[trigger] es@[l].edge()).0 == track@ ==>
                    exists|j: int| 0 <= j < out@.len() && src[j] == l,
            decreases es@.len() - i,
        {
            let e = &es[i];
            let ghost src_prev = src;
            if e.track.eq(track) {
                out.push(e.obj.clone());
                proof {
                    src = src.push(i as int);
                    assert(src[src.len() - 1] == i);
                }
            }
            proof {
                assert forall|l: int| 0 <= l < i + 1 && (#[trigger] es@[l].edge()).0 == track@ implies
                    exists|j: int| 0 <= j < out@.len() && src[j] == l by {
                    if l < i {
                        let j = choose|j: int| 0 <= j < src_prev.len() && src_prev[j] == l;
                        assert(src[j] == l);
                    } else {
                        assert(src[src.len() - 1] == l);
                    }
                }
            }
            i = i + 1;
        }
        proof {
            let m = self.objects();
            assert forall|k: ObjectKey|
                (exists|j: int| 0 <= j < out@.len() && (#[trigger] out@[j].key()) == k)
                    <==> (m.contains_key(k) && m[k].references(track@)) by {
                if exists|j: int| 0 <= j < out@.len() && (#[trigger] out@[j].key()) == k {
                    let j = choose|j: int| 0 <= j < out@.len() && (#[trigger] out@[j].key()) == k;
                    assert(es@[src[j]].edge() == (track@, k));
                }
                if m.contains_key(k) && m[k].references(track@) {
                    let l = choose|l: int| 0 <= l < es@.len() && (#[trigger] es@[l].edge()) == (track@, k);
                    let j = choose|j: int| 0 <= j < out@.len() && src[j] == l;
                    assert(out@[j].key() == k);
                }
            }
            assert forall|a: int, b: int| 0 <= a < b < out@.len() implies (#[trigger] out@[a].key()) != (#[trigger] out@[b].key()) by {
                assert(src[a] < src[b]);
                assert(es@[src[a]].edge() != es@[src[b]].edge());
            }
        }
        out
    }

    /// The cached object of key `(obj_type, obj_id)`, or `ObjectNotFound`.
    pub fn get_object(&self, obj_type: ObjectType, obj_id: &String) -> (r: Result<&ObjectCache, EditionError>)
        requires
            self.wf(),
        ensures
            match r {
                Ok(o) => self.objects().contains_key((obj_type, obj_id@)) && *o == self.objects()[(obj_type, obj_id@)],
                Err(e) => !self.objects().contains_key((obj_type, obj_id@))
                    && e == (EditionError::ObjectNotFound { obj_type, obj_id: *obj_id }),
            },
    {
        match self.get(obj_type, obj_id) {
            Some(o) => Ok(o),
            None => Err(EditionError::ObjectNotFound { obj_type, obj_id: obj_id.clone() }),
        }
    }

    /// The cached track section `id`.
    pub fn get_track_section(&self, id: &String) -> (r: Result<&TrackSectionCache, EditionError>)
        requires
            self.wf(),
        ensures
            match r {
                Ok(t) => self.objects().contains_key((ObjectType::TrackSection, id@))
                    && self.objects()[(ObjectType::TrackSection, id@)] == ObjectCache::TrackSection(*t),
                Err(e) => !self.objects().contains_key((ObjectType::TrackSection, id@))
                    && e == (EditionError::ObjectNotFound { obj_type: ObjectType::TrackSection, obj_id: *id }),
            },
    {
        match self.find(ObjectType::TrackSection, id) {
            Some(i) => match &self.objects[i] {
                ObjectCache::TrackSection(t) => Ok(t),
                _ => Err(EditionError::ObjectNotFound { obj_type: ObjectType::TrackSection, obj_id: id.clone() }),
            },
            None => Err(EditionError::ObjectNotFound { obj_type: ObjectType::TrackSection, obj_id: id.clone() }),
        }
    }
}

/// The items of `v` in reverse order.
pub(crate) fn reversed<T>(v: Vec<T>) -> (r: Vec<T>)
    ensures
        r@ =~= v@.reverse(),
{
    let mut v = v;
    let ghost all = v@;
    let mut out: Vec<T> = Vec::new();
    while v.len() > 0
        invariant
            v@ + out@.reverse() =~= all,
        decreases v@.len(),
    {
        let x = v.pop().unwrap();
        proof {
            assert(out@.push(x).reverse() =~= seq![x] + out@.reverse());
        }
        out.push(x);
    }
    proof {
        assert(out@.reverse().reverse() =~= out@);
    }
    out
}

pub(crate) proof fn lemma_pop_reversed<T>(all: Seq<T>, rest: Seq<T>, x: T, n: int)
    requires
        0 <= n,
        rest.len() + 1 + n == all.len(),
        rest.push(x).reverse() =~= all.subrange(n, all.len() as int),
    ensures
        all[n] == x,
        rest.reverse() =~= all.subrange(all.len() - rest.len(), all.len() as int),
{
    assert(rest.push(x).reverse() =~= seq![x] + rest.reverse());
    assert(all.subrange(n, all.len() as int)[0] == x);
    assert forall|j: int| 0 <= j < rest.len() implies rest.reverse()[j] == all.subrange(all.len() - rest.len(), all.len() as int)[j] by {
        assert((seq![x] + rest.reverse())[j + 1] == rest.reverse()[j]);
        assert(all.subrange(n, all.len() as int)[j + 1] == all[n + 1 + j]);
    }
}

proof fn lemma_apply_steps_stops(m: Map<ObjectKey, ObjectCache>, ops: Seq<CacheOperation>, i: int)
    requires
        0 <= i < ops.len(),
        apply_steps(m, ops.subrange(0, i + 1)).1 == false,
    ensures
        apply_steps(m, ops) == apply_steps(m, ops.subrange(0, i + 1)),
    decreases ops.len() - i,
{
    if i + 1 == ops.len() {
        assert(ops.subrange(0, i + 1) =~= ops);
    } else {
        assert(ops.drop_last().subrange(0, i + 1) =~= ops.subrange(0, i + 1));
        lemma_apply_steps_stops(m, ops.drop_last(), i);
    }
}

/// The edges of `es` but those of object `r`.
fn without_edges_of(es: &Vec<ReferenceEdge>, r: &ObjectRef, m: Ghost<Map<ObjectKey, ObjectCache>>) -> (out: Vec<ReferenceEdge>)
    requires
        edges_exact(es@, m@),
    ensures
        edges_exact(out@, m@.remove(r.key())),
{
    let ghost k = r.key();
    let mut out: Vec<ReferenceEdge> = Vec::new();
    let mut i: usize = 0;
    while i < es.len()
        invariant
            edges_exact(es@, m@),
            k == r.key(),
            i <= es@.len(),
            forall|j: int| 0 <= j < out@.len() ==> (#[trigger] out@[j].edge()).1 != k
                && exists|l: int| 0 <= l < i && es@[l].edge() == out@[j].edge(),
            forall|l: int| 0 <= l < i && (#[trigger] es@[l].edge()).1 != k ==>
                exists|j: int| 0 <= j < out@.len() && out@[j].edge() == es@[l].edge(),
            forall|a: int, b: int| 0 <= a < b < out@.len() ==> (#[trigger] out@[a].edge()) != (#[trigger] out@[b].edge()),
        decreases es@.len() - i,
    {
        let e = &es[i];
        let ghost out_prev = out@;
        if !(e.obj.obj_type == r.obj_type && e.obj.obj_id.eq(&r.obj_id)) {
            proof {
                assert forall|j: int| 0 <= j < out@.len() implies out@[j].edge() != es@[i as int].edge() by {
                    let l = choose|l: int| 0 <= l < i && es@[l].edge() == out@[j].edge();
                    assert(es@[l].edge() != es@[i as int].edge());
                }
            }
            out.push(e.clone());
            proof {
                assert(out@[out@.len() - 1].edge() == es@[i as int].edge());
            }
        }
        proof {
            assert forall|l: int| 0 <= l <= i && (#[trigger] es@[l].edge()).1 != k implies
                exists|j: int| 0 <= j < out@.len() && out@[j].edge() == es@[l].edge() by {
                if l == i {
                    assert(out@[out@.len() - 1].edge() == es@[i as int].edge());
                } else {
                    let j = choose|j: int| 0 <= j < out_prev.len() && out_prev[j].edge() == es@[l].edge();
                    assert(out@[j] == out_prev[j]);
                }
            }
        }
        i = i + 1;
    }
    proof {
        let m2 = m@.remove(k);
        assert forall|j: int| 0 <= j < out@.len() implies m2.contains_key((#[trigger] out@[j].edge()).1)
            && m2[out@[j].edge().1].references(out@[j].edge().0) by {
            let l = choose|l: int| 0 <= l < es@.len() && es@[l].edge() == out@[j].edge();
            assert(m@.contains_key(es@[l].edge().1));
        }
        assert forall|k2: ObjectKey, t: Seq<char>| m2.contains_key(k2) && #[trigger] m2[k2].references(t) implies
            exists|j: int| 0 <= j < out@.len() && (#[trigger] out@[j].edge()) == (t, k2) by {
            assert(m@[k2].references(t));
            let l = choose|l: int| 0 <= l < es@.len() && (#[trigger] es@[l].edge()) == (t, k2);
            assert(es@[l].edge().1 != k);
        }
    }
    out
}

/// Whether `es` holds the edge from `track` to `r`.
fn has_edge(es: &Vec<ReferenceEdge>, track: &String, r: &ObjectRef) -> (b: bool)
    ensures
        b <==> exists|i: int| 0 <= i < es@.len() && (#[trigger] es@[i].edge()) == (track@, r.key()),
{
    let mut i: usize = 0;
    while i < es.len()
        invariant
            i <= es@.len(),
            forall|j: int| 0 <= j < i ==> (#[trigger] es@[j].edge()) != (track@, r.key()),
        decreases es@.len() - i,
    {
        let e = &es[i];
        let same_track = e.track.eq(track);
        let same_type = e.obj.obj_type == r.obj_type;
        let same_id = e.obj.obj_id.eq(&r.obj_id);
        if same_track && same_type && same_id {
            assert(e.track@ == track@);
            assert(e.obj.obj_type == r.obj_type);
            assert(e.obj.obj_id@ == r.obj_id@);
            assert(es@[i as int].edge() == (track@, r.key()));
            return true;
        }
        i = i + 1;
    }
    false
}

/// Adds to `es` the edges of object `r`, whose tracks are `tracks`.
fn add_edges_of(
    es: &mut Vec<ReferenceEdge>,
    r: &ObjectRef,
    tracks: &Vec<String>,
    m: Ghost<Map<ObjectKey, ObjectCache>>,
)
    requires
        edges_exact(old(es)@, m@.remove(r.key())),
        m@.contains_key(r.key()),
        forall|t: Seq<char>| m@[r.key()].references(t) <==> exists|i: int| 0 <= i < tracks@.len() && (#[trigger] tracks@[i])@ == t,
    ensures
        edges_exact(final(es)@, m@),
{
    let ghost k = r.key();
    let ghost start = es@;
    let mut i: usize = 0;
    while i < tracks.len()
        invariant
            k == r.key(),
            edges_exact(start, m@.remove(k)),
            m@.contains_key(k),
            forall|t: Seq<char>| m@[k].references(t) <==> exists|i: int| 0 <= i < tracks@.len() && (#[trigger] tracks@[i])@ == t,
            i <= tracks@.len(),
            es@.len() >= start.len(),
            forall|j: int| 0 <= j < start.len() ==> (#[trigger] es@[j]) == start[j],
            forall|j: int| start.len() <= j < es@.len() ==> (#[trigger] es@[j].edge()).1 == k && m@[k].references(es@[j].edge().0),
            forall|l: int| 0 <= l < i ==> exists|j: int| 0 <= j < es@.len() && (#[trigger] es@[j].edge()) == ((#[trigger] tracks@[l])@, k),
            forall|a: int, b: int| 0 <= a < b < es@.len() ==> (#[trigger] es@[a].edge()) != (#[trigger] es@[b].edge()),
        decreases tracks@.len() - i,
    {
        let t = &tracks[i];
        assert(m@[k].references(tracks@[i as int]@));
        let ghost es_prev = es@;
        let present = has_edge(es, t, r);
        if !present {
            assert(forall|j: int| 0 <= j < es@.len() ==> (#[trigger] es@[j].edge()) != (t@, r.key()));
            let t2 = t.clone();
            let r2 = r.clone();
            assert(t2@ == t@);
            assert(r2.key() == k);
            let edge = ReferenceEdge { track: t2, obj: r2 };
            assert(edge.edge() == (t@, k));
            es.push(edge);
            proof {
                let n = es@.len() - 1;
                assert(es@[n].edge() == (t@, k));
                assert forall|j: int| 0 <= j < start.len() implies #[trigger] es@[j] == start[j] by {}
            }
        }
        proof {
            assert forall|l: int| 0 <= l <= i implies exists|j: int| 0 <= j < es@.len() && (#[trigger] es@[j].edge()) == ((#[trigger] tracks@[l])@, k) by {
                if l < i {
                    let j = choose|j: int| 0 <= j < es_prev.len() && (#[trigger] es_prev[j].edge()) == (tracks@[l]@, k);
                    assert(es@[j] == es_prev[j]);
                } else if present {
                    let j = choose|j: int| 0 <= j < es_prev.len() && (#[trigger] es_prev[j].edge()) == (tracks@[l]@, k);
                    assert(es@[j] == es_prev[j]);
                } else {
                    assert(es@[es@.len() - 1].edge() == (tracks@[l]@, k));
                }
            }
        }
        i = i + 1;
    }
    proof {
        assert forall|j: int| 0 <= j < es@.len() implies m@.contains_key((#[trigger] es@[j].edge()).1)
            && m@[es@[j].edge().1].references(es@[j].edge().0) by {
            if j < start.len() {
                assert(es@[j] == start[j]);
                assert(m@.remove(k).contains_key(start[j].edge().1));
            }
        }
        assert forall|k2: ObjectKey, t: Seq<char>| m@.contains_key(k2) && #[trigger] m@[k2].references(t) implies
            exists|j: int| 0 <= j < es@.len() && (#[trigger] es@[j].edge()) == (t, k2) by {
            if k2 == k {
                let l = choose|l: int| 0 <= l < tracks@.len() && (#[trigger] tracks@[l])@ == t;
                assert(tracks@[l]@ == t);
            } else {
                assert(m@.remove(k)[k2].references(t));
                let j = choose|j: int| 0 <= j < start.len() && (#[trigger] start[j].edge()) == (t, k2);
                assert(es@[j] == start[j]);
            }
        }
    }
}

} // verus!
