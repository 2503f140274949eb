//! The instance's branding: an RGBA colour packed into one word, and the
//! logo file it points at. The logo's media type is read off its file
//! extension; anything but an image extension is refused.

use vstd::prelude::*;

use crate::grants::ResourceCreateError;

verus! {

/// The branding configuration: the colour and the logo file's id.
#[derive(Clone, Copy, PartialEq, Eq, Structural, Debug)]
pub struct Branding {
    pub color: u32,
    pub logo_file_uuid: u128,
}

/// The packed RGBA colour: red in the top byte, then green, blue, alpha.
pub open spec fn spec_pack_color(red: u8, green: u8, blue: u8, alpha: u8) -> int {
    (red as u32) * 0x1000000 + (green as u32) * 0x10000 + (blue as u32) * 0x100 + (alpha as u32)
}

/// Packs the four colour channels into one word.
pub fn pack_color(red: u8, green: u8, blue: u8, alpha: u8) -> (r: u32)
    ensures
        r == spec_pack_color(red, green, blue, alpha),
{
    let r32 = red as u32;
    let g32 = green as u32;
    let b32 = blue as u32;
    let a32 = alpha as u32;
    let packed = (r32 << 24) | (g32 << 16) | (b32 << 8) | a32;
    proof {
        assert((r32 << 24u32) | (g32 << 16u32) | (b32 << 8u32) | a32 == r32 * 0x1000000 + g32
            * 0x10000 + b32 * 0x100 + a32) by (bit_vector)
            requires
                r32 < 256 && g32 < 256 && b32 < 256 && a32 < 256,
        ;
    }
    packed
}

/// The media type of a logo extension, or nothing for an extension no logo
/// may have.
pub open spec fn spec_mime_for_extension(ext: Seq<char>) -> Option<Seq<char>> {
    if ext == "jpg"@ || ext == "JPG"@ || ext == "jpeg"@ || ext == "JPEG"@ {
        Some("image/jpeg"@)
    } else if ext == "png"@ || ext == "PNG"@ {
        Some("image/png"@)
    } else if ext == "svg"@ || ext == "SVG"@ {
        Some("image/svg+xml"@)
    } else {
        None
    }
}

/// Relies on str's PartialEq: character-for-character equality.
#[verifier::external_body]
fn str_eq(a: &str, b: &str) -> (r: bool)
    ensures
        r == (a@ == b@),
{
    a == b
}

/// The media type a logo file extension stands for.
pub fn mime_for_extension(ext: &str) -> (r: Option<&'static str>)
    ensures
        match r {
            Some(m) => spec_mime_for_extension(ext@) == Some(m@),
            None => spec_mime_for_extension(ext@) is None,
        },
{
    if str_eq(ext, "jpg") || str_eq(ext, "JPG") || str_eq(ext, "jpeg") || str_eq(ext, "JPEG") {
        Some("image/jpeg")
    } else if str_eq(ext, "png") || str_eq(ext, "PNG") {
        Some("image/png")
    } else if str_eq(ext, "svg") || str_eq(ext, "SVG") {
        Some("image/svg+xml")
    } else {
        None
    }
}

impl Branding {
    /// The branding a request describes: the colour packed, the media type
    /// checked off the logo's extension. A logo whose extension no image
    /// has is refused.
    pub fn from_request(red: u8, green: u8, blue: u8, alpha: u8, logo_extension: &str, logo_file_uuid: u128) -> (r:
        Result<Branding, ResourceCreateError>)
        ensures
            r matches Ok(b) ==> b.color == spec_pack_color(red, green, blue, alpha)
                && b.logo_file_uuid == logo_file_uuid && spec_mime_for_extension(logo_extension@)
                is Some,
            r is Err <==> spec_mime_for_extension(logo_extension@) is None,
            r is Err ==> r == Err::<Branding, ResourceCreateError>(ResourceCreateError::BadParam),
    {
        match mime_for_extension(logo_extension) {
            None => Err(ResourceCreateError::BadParam),
            Some(_) => Ok(Branding { color: pack_color(red, green, blue, alpha), logo_file_uuid }),
        }
    }
}

} // verus!
