//! The errors of the edition engine.
use vstd::prelude::*;

use crate::schema::ObjectType;

verus! {

/// Why an edition was refused.
#[derive(Debug)]
pub enum EditionError {
    /// The infrastructure is locked: no edition is attempted.
    InfraIsLocked { infra_id: i64 },
    /// A split offset lies outside the open interval `(0, length)`.
    SplitTrackSectionBadOffset { infra_id: i64, tracksection_id: String, tracksection_length: i64 },
    /// An object is absent from the cache.
    ObjectNotFound { obj_type: ObjectType, obj_id: String },
}

impl EditionError {
    /// The HTTP status that reports this error.
    pub fn get_status(&self) -> (r: u16)
        ensures
            r == match self {
                EditionError::InfraIsLocked { .. } => 400u16,
                EditionError::SplitTrackSectionBadOffset { .. } => 400u16,
                EditionError::ObjectNotFound { .. } => 404u16,
            },
    {
        match self {
            EditionError::InfraIsLocked { .. } => 400,
            EditionError::SplitTrackSectionBadOffset { .. } => 400,
            EditionError::ObjectNotFound { .. } => 404,
        }
    }
}

} // verus!

verus! {

broadcast use vstd::string::to_string_from_display_ensures_for_str;

/// One entry of an error's context: a key and a JSON value, as text.
#[derive(Debug)]
pub struct ContextEntry {
    pub key: String,
    pub value: String,
}

/// An error as it is reported: an HTTP status, a type, a context whose keys
/// are distinct, and a message.
#[derive(Debug)]
pub struct InternalError {
    pub status: u16,
    pub error_type: String,
    pub context: Vec<ContextEntry>,
    pub message: String,
}

/// The context `c` as a map from key to value.
pub open spec fn context_map(c: Seq<ContextEntry>) -> Map<Seq<char>, Seq<char>>
    decreases c.len(),
{
    if c.len() == 0 {
        Map::empty()
    } else {
        context_map(c.drop_last()).insert(c.last().key@, c.last().value@)
    }
}

/// The keys of `c` are distinct.
pub open spec fn distinct_keys(c: Seq<ContextEntry>) -> bool {
    forall|i: int, j: int| 0 <= i < j < c.len() ==> (#[trigger] c[i]).key@ != (#[trigger] c[j]).key@
}

impl InternalError {
    pub fn get_type(&self) -> (r: &String)
        ensures
            r == &self.error_type,
    {
        &self.error_type
    }

    pub fn get_status(&self) -> (r: u16)
        ensures
            r == self.status,
    {
        self.status
    }

    pub fn set_status(&mut self, status: u16)
        ensures
            final(self).status == status,
            final(self).error_type == old(self).error_type,
            final(self).context == old(self).context,
            final(self).message == old(self).message,
    {
        self.status = status;
    }

    pub fn get_context(&self) -> (r: &Vec<ContextEntry>)
        ensures
            r == &self.context,
    {
        &self.context
    }

    /// The same error with `key` bound to `value` in its context, in place
    /// of any earlier binding of `key`.
    pub fn with_context(self, key: &str, value: String) -> (r: Self)
        requires
            distinct_keys(self.context@),
        ensures
            distinct_keys(r.context@),
            context_map(r.context@) == context_map(self.context@).insert(key@, value@),
            r.status == self.status,
            r.error_type == self.error_type,
            r.message == self.message,
    {
        let InternalError { status, error_type, context, message } = self;
        let ghost old_context = context@;
        let mut context = context;
        let mut i: usize = 0;
        let k = key.to_string();
        while i < context.len()
            invariant
                context@ == old_context,
                old_context == self.context@,
                status == self.status,
                error_type == self.error_type,
                message == self.message,
                distinct_keys(old_context),
                i <= context@.len(),
                k@ == key@,
                forall|j: int| 0 <= j < i ==> (#[trigger] context@[j]).key@ != key@,
            decreases context@.len() - i,
        {
            if context[i].key.eq(&k) {
                let ghost before = context@;
                let entry = ContextEntry { key: k, value };
                context.set(i, entry);
                proof {
                    lemma_context_set(before, i as int, context@);
                }
                return InternalError { status, error_type, context, message };
            }
            i = i + 1;
        }
        let ghost before = context@;
        context.push(ContextEntry { key: k, value });
        proof {
            assert(context@.drop_last() =~= before);
        }
        InternalError { status, error_type, context, message }
    }
}

proof fn lemma_context_set(before: Seq<ContextEntry>, i: int, after: Seq<ContextEntry>)
    requires
        distinct_keys(before),
        0 <= i < before.len(),
        after.len() == before.len(),
        after[i].key@ == before[i].key@,
        forall|j: int| 0 <= j < before.len() && j != i ==> after[j] == before[j],
    ensures
        distinct_keys(after),
        context_map(after) == context_map(before).insert(after[i].key@, after[i].value@),
    decreases before.len(),
{
    assert(distinct_keys(after)) by {
        assert forall|a: int, b: int| 0 <= a < b < after.len() implies (#[trigger] after[a]).key@ != (#[trigger] after[b]).key@ by {
            assert(before[a].key@ != before[b].key@);
        }
    }
    let k = after[i].key@;
    if i == before.len() - 1 {
        assert(after.drop_last() =~= before.drop_last());
        assert(context_map(after) =~= context_map(before).insert(k, after[i].value@));
    } else {
        let b0 = before.drop_last();
        let a0 = after.drop_last();
        assert forall|x: int, y: int| 0 <= x < y < b0.len() implies (#[trigger] b0[x]).key@ != (#[trigger] b0[y]).key@ by {
            assert(before[x].key@ != before[y].key@);
        }
        lemma_context_set(b0, i, a0);
        assert(after.last() == before.last());
        assert(before.last().key@ != k);
        assert(context_map(after) =~= context_map(before).insert(k, after[i].value@));
    }
}

} // verus!
