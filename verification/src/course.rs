//! Courses, and the reading of a listing request's permission query: a
//! listing asked for with `edit` wants updatable entries, anything else
//! wants readable ones.

use vstd::prelude::*;

use crate::grants::PermissionQueryParam;
use crate::ops::{Operations, READ_MASK, UPDATE_MASK};

verus! {

/// A course row.
pub struct Course {
    pub course_id: i64,
    pub name: String,
    pub shortname: String,
}

/// The client-supplied part of a course.
pub struct CourseDescription {
    pub name: String,
    pub shortname: String,
}

/// The operations a listing request asks to be filtered by: update when the
/// query says `edit`, read otherwise.
pub fn ops_for_query(perm: &PermissionQueryParam) -> (r: Operations)
    ensures
        perm.edit == Some(true) ==> r.0 == UPDATE_MASK,
        perm.edit != Some(true) ==> r.0 == READ_MASK,
{
    match perm.edit {
        Some(true) => Operations::update(),
        _ => Operations::read(),
    }
}

} // verus!
