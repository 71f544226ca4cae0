//! The tags of a project.
use vstd::prelude::*;

verus! {

/// The tags of a project, in order.
#[derive(Debug, Clone, Default)]
pub struct Tags(Vec<String>);

impl View for Tags {
    type V = Seq<String>;

    closed spec fn view(&self) -> Seq<String> {
        self.0@
    }
}

/// The present values of `v`, in order.
pub open spec fn present(v: Seq<Option<String>>) -> Seq<String>
    decreases v.len(),
{
    if v.len() == 0 {
        seq![]
    } else {
        match v.last() {
            Some(s) => present(v.drop_last()).push(s),
            None => present(v.drop_last()),
        }
    }
}

impl Tags {
    pub fn new(value: Vec<String>) -> (r: Self)
        ensures
            r@ == value@,
    {
        Tags(value)
    }

    /// The tags as stored: the absent values are dropped.
    pub fn from_stored(value: Vec<Option<String>>) -> (r: Self)
        ensures
            r@ == present(value@),
    {
        let mut out: Vec<String> = Vec::new();
        let mut i: usize = 0;
        while i < value.len()
            invariant
                i <= value@.len(),
                out@ == present(value@.subrange(0, i as int)),
            decreases value@.len() - i,
        {
            proof {
                assert(value@.subrange(0, i + 1).drop_last() =~= value@.subrange(0, i as int));
            }
            match &value[i] {
                Some(s) => out.push(s.clone()),
                None => {},
            }
            i = i + 1;
        }
        assert(value@.subrange(0, value@.len() as int) =~= value@);
        Tags(out)
    }

    /// The tags in the form the store keeps, each present.
    pub fn to_stored(self) -> (r: Vec<Option<String>>)
        ensures
            r@.len() == self@.len(),
            forall|i: int| 0 <= i < r@.len() ==> r@[i] == Some(#[trigger] self@[i]),
    {
        let Tags(v) = self;
        let mut out: Vec<Option<String>> = Vec::new();
        let mut i: usize = 0;
        while i < v.len()
            invariant
                i <= v@.len(),
                out@.len() == i,
                forall|j: int| 0 <= j < i ==> out@[j] == Some(#[trigger] v@[j]),
            decreases v@.len() - i,
        {
            out.push(Some(v[i].clone()));
            i = i + 1;
        }
        out
    }
}

} // verus!
