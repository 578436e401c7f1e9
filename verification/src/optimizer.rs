//! Image format classification for the optimization pipeline: magic-byte
//! sniffing and extension and MIME-type tables. The re-encoding itself runs
//! outside the library, next to the codecs it needs.

use crate::strings::{all_ascii, lower_of, lowercase, spec_ascii_lower, str_eq};
use vstd::prelude::*;

verus! {

/// An image payload format.
#[derive(Debug, Clone, Copy, PartialEq, Eq, Structural)]
pub enum ImageType {
    Jpeg,
    Png,
    WebP,
    Gif,
    Unknown,
}

/// The format the payload's magic bytes announce; payloads below four bytes
/// and unknown prefixes are `Unknown`.
pub open spec fn spec_image_type(b: Seq<u8>) -> ImageType {
    if b.len() < 4 {
        ImageType::Unknown
    } else if b[0] == 0xFF && b[1] == 0xD8 {
        ImageType::Jpeg
    } else if b[0] == 0x89 && b[1] == 0x50 && b[2] == 0x4E && b[3] == 0x47 {
        ImageType::Png
    } else if b[0] == 0x52 && b[1] == 0x49 && b[2] == 0x46 && b[3] == 0x46 && b.len() >= 12 && b[8]
        == 0x57 && b[9] == 0x45 && b[10] == 0x42 && b[11] == 0x50 {
        ImageType::WebP
    } else if b[0] == 0x47 && b[1] == 0x49 && b[2] == 0x46 && b[3] == 0x38 {
        ImageType::Gif
    } else {
        ImageType::Unknown
    }
}

/// The format named by a lowercased file extension.
pub open spec fn spec_type_of_ext(l: Seq<char>) -> ImageType {
    if l == "jpg"@ || l == "jpeg"@ {
        ImageType::Jpeg
    } else if l == "png"@ {
        ImageType::Png
    } else if l == "webp"@ {
        ImageType::WebP
    } else if l == "gif"@ {
        ImageType::Gif
    } else {
        ImageType::Unknown
    }
}

impl ImageType {
    /// Sniffs the format from the payload's magic bytes.
    pub fn from_bytes(data: &[u8]) -> (r: Self)
        ensures
            r == spec_image_type(data@),
    {
        if data.len() < 4 {
            return ImageType::Unknown;
        }
        let b0 = crate::byteops::byte_at(data, 0);
        let b1 = crate::byteops::byte_at(data, 1);
        let b2 = crate::byteops::byte_at(data, 2);
        let b3 = crate::byteops::byte_at(data, 3);
        if b0 == 0xFF && b1 == 0xD8 {
            ImageType::Jpeg
        } else if b0 == 0x89 && b1 == 0x50 && b2 == 0x4E && b3 == 0x47 {
            ImageType::Png
        } else if b0 == 0x52 && b1 == 0x49 && b2 == 0x46 && b3 == 0x46 && data.len() >= 12
            && crate::byteops::byte_at(data, 8) == 0x57 && crate::byteops::byte_at(data, 9) == 0x45
            && crate::byteops::byte_at(data, 10) == 0x42 && crate::byteops::byte_at(data, 11)
            == 0x50 {
            ImageType::WebP
        } else if b0 == 0x47 && b1 == 0x49 && b2 == 0x46 && b3 == 0x38 {
            ImageType::Gif
        } else {
            ImageType::Unknown
        }
    }

    /// Classifies a file extension, case-insensitively; for an ASCII
    /// extension the result is fixed by the ASCII lowercase mapping.
    pub fn from_extension(ext: &str) -> (r: Self)
        ensures
            r == spec_type_of_ext(lower_of(ext@)),
            all_ascii(ext@) ==> r == spec_type_of_ext(spec_ascii_lower(ext@)),
    {
        let low = lowercase(ext);
        if str_eq(low.as_str(), "jpg") || str_eq(low.as_str(), "jpeg") {
            ImageType::Jpeg
        } else if str_eq(low.as_str(), "png") {
            ImageType::Png
        } else if str_eq(low.as_str(), "webp") {
            ImageType::WebP
        } else if str_eq(low.as_str(), "gif") {
            ImageType::Gif
        } else {
            ImageType::Unknown
        }
    }

    /// The file extension conventional for the format.
    pub fn extension(&self) -> (r: &'static str)
        ensures
            r@ == match *self {
                ImageType::Jpeg => "jpg"@,
                ImageType::Png => "png"@,
                ImageType::WebP => "webp"@,
                ImageType::Gif => "gif"@,
                ImageType::Unknown => "bin"@,
            },
    {
        match self {
            ImageType::Jpeg => "jpg",
            ImageType::Png => "png",
            ImageType::WebP => "webp",
            ImageType::Gif => "gif",
            ImageType::Unknown => "bin",
        }
    }

    /// The MIME type of the format.
    pub fn mime_type(&self) -> (r: &'static str)
        ensures
            r@ == match *self {
                ImageType::Jpeg => "image/jpeg"@,
                ImageType::Png => "image/png"@,
                ImageType::WebP => "image/webp"@,
                ImageType::Gif => "image/gif"@,
                ImageType::Unknown => "application/octet-stream"@,
            },
    {
        match self {
            ImageType::Jpeg => "image/jpeg",
            ImageType::Png => "image/png",
            ImageType::WebP => "image/webp",
            ImageType::Gif => "image/gif",
            ImageType::Unknown => "application/octet-stream",
        }
    }
}

/// Extension classification round trip: a format's own extension, put
/// through the ASCII lowercase mapping, classifies back to the format.
pub proof fn lemma_image_type_extension_round_trip(t: ImageType)
    requires
        t != ImageType::Unknown,
    ensures
        spec_type_of_ext(
            spec_ascii_lower(
                match t {
                    ImageType::Jpeg => "jpg"@,
                    ImageType::Png => "png"@,
                    ImageType::WebP => "webp"@,
                    ImageType::Gif => "gif"@,
                    ImageType::Unknown => Seq::<char>::empty(),
                },
            ),
        ) == t,
{
    reveal_strlit("jpg");
    reveal_strlit("jpeg");
    reveal_strlit("png");
    reveal_strlit("webp");
    reveal_strlit("gif");
    match t {
        ImageType::Jpeg => {
            assert(spec_ascii_lower("jpg"@) =~= "jpg"@);
        },
        ImageType::Png => {
            assert(spec_ascii_lower("png"@) =~= "png"@);
            assert("png"@[0] == 'p' && "jpg"@[0] == 'j');
            assert("png"@ != "jpg"@ && "png"@ != "jpeg"@);
        },
        ImageType::WebP => {
            assert(spec_ascii_lower("webp"@) =~= "webp"@);
            assert("webp"@[0] == 'w' && "jpg"@[0] == 'j' && "jpeg"@[0] == 'j' && "png"@[0]
                == 'p');
            assert("webp"@ != "jpg"@ && "webp"@ != "jpeg"@ && "webp"@ != "png"@);
        },
        ImageType::Gif => {
            assert(spec_ascii_lower("gif"@) =~= "gif"@);
            assert("gif"@[0] == 'g' && "jpg"@[0] == 'j' && "png"@[0] == 'p' && "webp"@[0]
                == 'w');
            assert("gif"@ != "jpg"@ && "gif"@ != "jpeg"@ && "gif"@ != "png"@ && "gif"@
                != "webp"@);
        },
        ImageType::Unknown => {},
    }
}

} // verus!
