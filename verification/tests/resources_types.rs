use noodle::branding::{mime_for_extension, pack_color, Branding};
use noodle::content::{
    is_blank, ContentElement, ContentElementCreationRequest, ContentSection,
    ContentSectionCreationRequest,
};
use noodle::course::ops_for_query;
use noodle::grants::{PermissionQueryParam, ResourceCreateError};

#[test]
fn query_param_picks_operations() {
    let edit = PermissionQueryParam { edit: Some(true), view: None };
    assert_eq!(ops_for_query(&edit).bits(), 0b0100);
    let plain = PermissionQueryParam { edit: None, view: Some(true) };
    assert_eq!(ops_for_query(&plain).bits(), 0b0010);
    let off = PermissionQueryParam { edit: Some(false), view: None };
    assert_eq!(ops_for_query(&off).bits(), 0b0010);
}

#[test]
fn blank_headlines_are_detected() {
    assert!(is_blank(""));
    assert!(is_blank(" \t\r\n "));
    assert!(!is_blank(" a "));
}

#[test]
fn section_builders_default_order_index() {
    let req = ContentSectionCreationRequest { headline: String::from("Week 1"), order_index: None };
    let s = ContentSection::for_course(11, 3, req);
    assert_eq!(s.section_id, 11);
    assert_eq!(s.course_id, Some(3));
    assert_eq!(s.template_id, None);
    assert_eq!(s.headline, "Week 1");
    assert_eq!(s.order_index, 0);

    let req = ContentSectionCreationRequest {
        headline: String::from("Intro"),
        order_index: Some(4),
    };
    let s = ContentSection::for_template(12, 9, req);
    assert_eq!(s.course_id, None);
    assert_eq!(s.template_id, Some(9));
    assert_eq!(s.order_index, 4);
}

#[test]
fn element_builder_carries_request() {
    let req = ContentElementCreationRequest {
        element_type: String::from("text"),
        content: Some(String::from("hello")),
        order_index: Some(2),
    };
    let e = ContentElement::from_request(21, 11, req);
    assert_eq!(e.content_id, 21);
    assert_eq!(e.section_id, 11);
    assert_eq!(e.element_type, "text");
    assert_eq!(e.content.as_deref(), Some("hello"));
    assert_eq!(e.order_index, 2);
}

#[test]
fn color_packs_rgba() {
    assert_eq!(pack_color(0xff, 0x00, 0x00, 0xff), 0xff0000ff);
    assert_eq!(pack_color(0x12, 0x34, 0x56, 0x78), 0x12345678);
}

#[test]
fn logo_extensions_map_to_media_types() {
    assert_eq!(mime_for_extension("jpg"), Some("image/jpeg"));
    assert_eq!(mime_for_extension("JPEG"), Some("image/jpeg"));
    assert_eq!(mime_for_extension("png"), Some("image/png"));
    assert_eq!(mime_for_extension("SVG"), Some("image/svg+xml"));
    assert_eq!(mime_for_extension("gif"), None);
}

#[test]
fn branding_refuses_non_image_logo() {
    let b = Branding::from_request(255, 0, 0, 255, "png", 77).expect("image extension");
    assert_eq!(b.color, 0xff0000ff);
    assert_eq!(b.logo_file_uuid, 77);
    assert_eq!(
        Branding::from_request(255, 0, 0, 255, "exe", 77),
        Err(ResourceCreateError::BadParam)
    );
}
