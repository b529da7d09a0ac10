//! The cover-art event sent to the GUI.

use vstd::prelude::*;
use crate::scan::{TagInfo, TagView};

verus! {

/// Name of the event that carries a file's cover art.
pub const COVER_EVENT: &'static str = "mp3_cover";

/// An event for the GUI: its name and the raw bytes it carries.
#[derive(Debug)]
pub struct CoverEvent {
    pub name: String,
    pub payload: Vec<u8>,
}

/// The cover art a tag-reading outcome holds: `None` when the tags could not
/// be parsed or embed no cover.
pub open spec fn cover_of(tag: Option<TagView>) -> Option<Seq<u8>> {
    match tag {
        Some(tag) => tag.album_cover,
        None => None,
    }
}

/// Decides what to emit for a file whose tags were read: one event carrying
/// the embedded cover art byte for byte, or nothing when the tags could not be
/// parsed (`tag` is `None`) or embed no cover.
pub fn get_mp3_cover(tag: Option<&TagInfo>) -> (event: Option<CoverEvent>)
    ensures
        event is Some <==> cover_of(tag.deep_view()) is Some,
        event matches Some(emitted) ==> {
            &&& emitted.name@ == COVER_EVENT@
            &&& Some(emitted.payload@) == cover_of(tag.deep_view())
        },
{
    match tag {
        Some(tag) => match &tag.album_cover {
            Some(cover) => Some(CoverEvent { name: COVER_EVENT.to_owned(), payload: cover.clone() }),
            None => None,
        },
        None => None,
    }
}

} // verus!
