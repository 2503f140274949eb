//! Content sections and elements of a course or template. A section hangs
//! off exactly one of the two; its headline may not be blank. A creation
//! request without an order index lands at index zero.

use vstd::prelude::*;

verus! {

/// A content section row: part of a course or of a template.
pub struct ContentSection {
    pub section_id: i64,
    pub course_id: Option<i64>,
    pub template_id: Option<i64>,
    pub headline: String,
    pub order_index: i32,
}

/// The client-supplied part of a content section.
pub struct ContentSectionCreationRequest {
    pub headline: String,
    pub order_index: Option<i32>,
}

/// A content element row within a section.
pub struct ContentElement {
    pub content_id: i64,
    pub section_id: i64,
    pub order_index: i32,
    pub element_type: String,
    pub content: Option<String>,
}

/// The client-supplied part of a content element.
pub struct ContentElementCreationRequest {
    pub element_type: String,
    pub content: Option<String>,
    pub order_index: Option<i32>,
}

/// An ASCII whitespace character.
pub open spec fn is_space(c: char) -> bool {
    c == ' ' || c == '\t' || c == '\n' || c == '\r'
}

/// A headline of nothing but whitespace (or nothing at all) is blank.
pub open spec fn spec_is_blank(s: Seq<char>) -> bool {
    forall|i: int| 0 <= i < s.len() ==> is_space(#[trigger] s[i])
}

/// Whether the text holds no visible character.
pub fn is_blank(text: &str) -> (r: bool)
    ensures
        r == spec_is_blank(text@),
{
    let n = text.unicode_len();
    let mut i: usize = 0;
    while i < n
        invariant
            0 <= i <= n,
            n == text@.len(),
            forall|j: int| 0 <= j < i ==> is_space(#[trigger] text@[j]),
        decreases n - i,
    {
        let c = text.get_char(i);
        if !(c == ' ' || c == '\t' || c == '\n' || c == '\r') {
            assert(!is_space(text@[i as int]));
            return false;
        }
        i += 1;
    }
    true
}

/// The order index a creation request lands at: what it asked for, or
/// zero.
pub fn requested_order_index(idx: Option<i32>) -> (r: i32)
    ensures
        r == match idx {
            Some(v) => v,
            None => 0,
        },
{
    match idx {
        Some(v) => v,
        None => 0,
    }
}

impl ContentSection {
    /// The section row a course-scoped creation request describes, once the
    /// store has handed out its id.
    pub fn for_course(section_id: i64, course_id: i64, req: ContentSectionCreationRequest) -> (r:
        ContentSection)
        ensures
            r.section_id == section_id,
            r.course_id == Some(course_id),
            r.template_id is None,
            r.headline@ == req.headline@,
            r.order_index == match req.order_index {
                Some(v) => v,
                None => 0,
            },
    {
        let order_index = requested_order_index(req.order_index);
        ContentSection {
            section_id,
            course_id: Some(course_id),
            template_id: None,
            headline: req.headline,
            order_index,
        }
    }

    /// The section row a template-scoped creation request describes.
    pub fn for_template(
        section_id: i64,
        template_id: i64,
        req: ContentSectionCreationRequest,
    ) -> (r: ContentSection)
        ensures
            r.section_id == section_id,
            r.course_id is None,
            r.template_id == Some(template_id),
            r.headline@ == req.headline@,
            r.order_index == match req.order_index {
                Some(v) => v,
                None => 0,
            },
    {
        let order_index = requested_order_index(req.order_index);
        ContentSection {
            section_id,
            course_id: None,
            template_id: Some(template_id),
            headline: req.headline,
            order_index,
        }
    }
}

impl ContentElement {
    /// The element row a creation request describes, once the store has
    /// handed out its id.
    pub fn from_request(content_id: i64, section_id: i64, req: ContentElementCreationRequest) -> (r:
        ContentElement)
        ensures
            r.content_id == content_id,
            r.section_id == section_id,
            r.element_type@ == req.element_type@,
            r.content == req.content,
            r.order_index == match req.order_index {
                Some(v) => v,
                None => 0,
            },
    {
        let order_index = requested_order_index(req.order_index);
        ContentElement {
            content_id,
            section_id,
            order_index,
            element_type: req.element_type,
            content: req.content,
        }
    }
}

} // verus!
