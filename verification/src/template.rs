//! Templates: courses-to-be, with the same permission model.

use vstd::prelude::*;

verus! {

/// A template row.
pub struct Template {
    pub template_id: i64,
    pub name: String,
}

/// The client-supplied part of a template.
pub struct TemplateDescription {
    pub name: String,
}

} // verus!
