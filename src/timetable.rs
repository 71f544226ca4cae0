//! Query parameters of the timetable requests.
use vstd::prelude::*;

verus! {

/// The query parameter that names the infrastructure to check against.
#[derive(Debug, Default, Clone, Copy)]
pub struct InfraIdQueryParam {
    pub infra_id: i64,
}

} // verus!
