//! Media types: which ones are images, and the file extension of each known type.

use crate::text::{is_prefix, starts_with, str_eq};
use vstd::prelude::*;

verus! {

/// A media type belongs to the image family when it begins with `image/`.
pub open spec fn is_image_type(content_type: Seq<char>) -> bool {
    is_prefix("image/"@, content_type)
}

/// The extension that the table gives for a media type, if it lists the type.
pub open spec fn table_extension(content_type: Seq<char>) -> Option<Seq<char>> {
    if content_type == "application/json"@ {
        Some("json"@)
    } else if content_type == "application/pdf"@ {
        Some("pdf"@)
    } else if content_type == "application/pgp-signature"@ {
        Some("asc"@)
    } else if content_type == "application/yaml"@ {
        Some("yaml"@)
    } else if content_type == "audio/flac"@ {
        Some("flac"@)
    } else if content_type == "audio/mpeg"@ {
        Some("mp3"@)
    } else if content_type == "audio/wav"@ {
        Some("wav"@)
    } else if content_type == "image/apng"@ {
        Some("apng"@)
    } else if content_type == "image/avif"@ {
        Some("avif"@)
    } else if content_type == "image/gif"@ {
        Some("gif"@)
    } else if content_type == "image/jpeg"@ {
        Some("jpg"@)
    } else if content_type == "image/png"@ {
        Some("png"@)
    } else if content_type == "image/svg+xml"@ {
        Some("svg"@)
    } else if content_type == "image/webp"@ {
        Some("webp"@)
    } else if content_type == "model/stl"@ {
        Some("stl"@)
    } else if content_type == "text/html;charset=utf-8"@ {
        Some("html"@)
    } else if content_type == "text/plain;charset=utf-8"@ {
        Some("txt"@)
    } else if content_type == "video/mp4"@ {
        Some("mp4"@)
    } else if content_type == "video/webm"@ {
        Some("webm"@)
    } else {
        None
    }
}

/// The extension of the file that holds content of a media type: the table's
/// entry, or `unk` for a type that the table does not list.
pub open spec fn extension_or_unknown(content_type: Seq<char>) -> Seq<char> {
    match table_extension(content_type) {
        Some(extension) => extension,
        None => "unk"@,
    }
}

/// The lookup table of media types and file extensions.
pub struct Media;

impl Media {
    /// Whether a media type belongs to the image family.
    pub fn is_image(content_type: &str) -> (image: bool)
        ensures
            image == is_image_type(content_type@),
    {
        starts_with(content_type, "image/")
    }

    /// Looks a media type up in the table. The whole type must match an entry:
    /// a type with parameters that the table does not list is not found.
    pub fn extension_for_content_type(content_type: &str) -> (found: Option<&'static str>)
        ensures
            match table_extension(content_type@) {
                Some(extension) => found.is_some() && found.unwrap()@ == extension,
                None => found.is_none(),
            },
    {
        if str_eq(content_type, "application/json") {
            Some("json")
        } else if str_eq(content_type, "application/pdf") {
            Some("pdf")
        } else if str_eq(content_type, "application/pgp-signature") {
            Some("asc")
        } else if str_eq(content_type, "application/yaml") {
            Some("yaml")
        } else if str_eq(content_type, "audio/flac") {
            Some("flac")
        } else if str_eq(content_type, "audio/mpeg") {
            Some("mp3")
        } else if str_eq(content_type, "audio/wav") {
            Some("wav")
        } else if str_eq(content_type, "image/apng") {
            Some("apng")
        } else if str_eq(content_type, "image/avif") {
            Some("avif")
        } else if str_eq(content_type, "image/gif") {
            Some("gif")
        } else if str_eq(content_type, "image/jpeg") {
            Some("jpg")
        } else if str_eq(content_type, "image/png") {
            Some("png")
        } else if str_eq(content_type, "image/svg+xml") {
            Some("svg")
        } else if str_eq(content_type, "image/webp") {
            Some("webp")
        } else if str_eq(content_type, "model/stl") {
            Some("stl")
        } else if str_eq(content_type, "text/html;charset=utf-8") {
            Some("html")
        } else if str_eq(content_type, "text/plain;charset=utf-8") {
            Some("txt")
        } else if str_eq(content_type, "video/mp4") {
            Some("mp4")
        } else if str_eq(content_type, "video/webm") {
            Some("webm")
        } else {
            None
        }
    }
}

} // verus!
