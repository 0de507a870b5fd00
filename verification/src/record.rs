//! What the index tells about a record, and what the exporter makes of it.

use crate::media::{extension_or_unknown, is_image_type, Media};
use crate::naming::{file_name, file_name_of};
use vstd::prelude::*;

verus! {

/// The handle by which the index addresses a record: the transaction that
/// revealed it and its position there. The exporter only passes it on.
#[derive(Clone, Copy, Debug, PartialEq, Eq, PartialOrd, Ord, Hash)]
pub struct InscriptionId {
    pub txid: [u8; 32],
    pub index: u32,
}

/// The index's entry for a record. Of its attributes only the sequence number
/// is used.
#[derive(Clone, Copy, Debug, PartialEq, Eq)]
pub struct InscriptionEntry {
    pub number: u64,
}

/// A record's payload: the media type and the length that it declares, and
/// its body. Each may be absent, and the declared length need not be the
/// body's.
#[derive(Clone, Debug, PartialEq, Eq)]
pub struct Inscription {
    pub content_type: Option<String>,
    pub content_length: Option<usize>,
    pub body: Option<Vec<u8>>,
}

/// A payload as plain values.
pub struct Content {
    pub content_type: Option<Seq<char>>,
    pub content_length: Option<usize>,
    pub body: Option<Seq<u8>>,
}

impl Content {
    /// The declared media type, empty when the record declares none.
    pub open spec fn media_type(self) -> Seq<char> {
        match self.content_type {
            Some(content_type) => content_type,
            None => Seq::empty(),
        }
    }

    /// The declared length, zero when the record declares none.
    pub open spec fn length(self) -> usize {
        match self.content_length {
            Some(length) => length,
            None => 0,
        }
    }

    /// The bytes to store, none when the record has no body.
    pub open spec fn bytes(self) -> Seq<u8> {
        match self.body {
            Some(body) => body,
            None => Seq::empty(),
        }
    }
}

impl View for Inscription {
    type V = Content;

    open spec fn view(&self) -> Content {
        Content {
            content_type: match self.content_type {
                Some(content_type) => Some(content_type@),
                None => None,
            },
            content_length: self.content_length,
            body: match self.body {
                Some(body) => Some(body@),
                None => None,
            },
        }
    }
}

impl Inscription {
    /// The declared media type.
    pub fn content_type(&self) -> (content_type: Option<&str>)
        ensures
            match self@.content_type {
                Some(declared) => content_type.is_some() && content_type.unwrap()@ == declared,
                None => content_type.is_none(),
            },
    {
        match &self.content_type {
            Some(content_type) => Some(content_type.as_str()),
            None => None,
        }
    }

    /// The declared length.
    pub fn content_length(&self) -> (length: Option<usize>)
        ensures
            length == self@.content_length,
    {
        self.content_length
    }

    /// The body.
    pub fn body(&self) -> (body: Option<&[u8]>)
        ensures
            match self@.body {
                Some(bytes) => body.is_some() && body.unwrap()@ == bytes,
                None => body.is_none(),
            },
    {
        match &self.body {
            Some(body) => Some(body.as_slice()),
            None => None,
        }
    }
}

/// The file that a record is exported to, as plain values: its name in the
/// output directory, the length that the record declares, and the bytes to
/// store.
pub struct Target {
    pub file_name: Seq<char>,
    pub length: usize,
    pub body: Seq<u8>,
}

/// The file that a record is exported to, if it is exported at all: only a
/// record that declares a media type of the image family is. The name comes
/// from the sequence number and the media type alone.
pub open spec fn target(number: u64, content: Content) -> Option<Target> {
    if is_image_type(content.media_type()) {
        Some(
            Target {
                file_name: file_name_of(
                    number as nat,
                    extension_or_unknown(content.media_type()),
                ),
                length: content.length(),
                body: content.bytes(),
            },
        )
    } else {
        None
    }
}

/// Whether the file found on disk, if any, stands for a record of the given
/// declared length: it does when it has exactly that many bytes.
pub open spec fn up_to_date(existing: Option<u64>, length: usize) -> bool {
    existing == Some(length as u64)
}

/// The file that a record is exported to.
#[derive(Debug)]
pub struct Export {
    pub file_name: String,
    pub length: usize,
    pub body: Vec<u8>,
}

impl View for Export {
    type V = Target;

    open spec fn view(&self) -> Target {
        Target { file_name: self.file_name@, length: self.length, body: self.body@ }
    }
}

impl Export {
    /// Decides whether a record is exported, and to which file.
    pub fn plan(entry: &InscriptionEntry, inscription: Inscription) -> (export: Option<Export>)
        ensures
            match target(entry.number, inscription@) {
                Some(wanted) => export.is_some() && export.unwrap()@ == wanted,
                None => export.is_none(),
            },
    {
        let length = inscription.content_length().unwrap_or(0);
        let name = {
            let content_type = inscription.content_type().unwrap_or("");
            proof {
                reveal_strlit("");
                assert(""@ =~= Seq::<char>::empty());
            }
            if !Media::is_image(content_type) {
                return None;
            }
            let extension = Media::extension_for_content_type(content_type).unwrap_or("unk");
            file_name(entry.number, extension)
        };
        let body = match inscription.body {
            Some(body) => body,
            None => Vec::new(),
        };
        Some(Export { file_name: name, length, body })
    }

    /// Whether a file that was found with `existing` bytes (`None`: no file
    /// was found) makes writing this one unnecessary.
    pub fn is_up_to_date(&self, existing: Option<u64>) -> (unchanged: bool)
        ensures
            unchanged == up_to_date(existing, self@.length),
    {
        match existing {
            Some(found) => found == self.length as u64,
            None => false,
        }
    }
}

} // verus!
