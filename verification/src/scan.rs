//! Turning the entries of a scanned directory into the list of tracks.
//!
//! The caller enumerates the directory, reads each file's tags and measures
//! its duration; what it found is described by [`ScannedEntry`] values. The
//! functions here decide which entries become tracks and what is shown for
//! each of them.

use vstd::prelude::*;

verus! {

/// Artist shown for a track whose tags name none.
pub const UNKNOWN_ARTIST: &'static str = "Uknown Artist";

/// What the tag reader found in an audio file.
#[derive(Debug)]
pub struct TagInfo {
    pub artist: Option<String>,
    /// Raw bytes of the embedded cover art.
    pub album_cover: Option<Vec<u8>>,
}

/// Mathematical model of a [`TagInfo`].
pub struct TagView {
    pub artist: Option<Seq<char>>,
    pub album_cover: Option<Seq<u8>>,
}

impl View for TagInfo {
    type V = TagView;

    open spec fn view(&self) -> TagView {
        TagView {
            artist: match self.artist {
                Some(artist) => Some(artist@),
                None => None,
            },
            album_cover: match self.album_cover {
                Some(cover) => Some(cover@),
                None => None,
            },
        }
    }
}

impl DeepView for TagInfo {
    type V = TagView;

    open spec fn deep_view(&self) -> TagView {
        self@
    }
}

/// One directory entry together with what was learned about the file.
#[derive(Debug)]
pub struct ScannedEntry {
    /// File name of the entry, extension included.
    pub name: String,
    pub path: String,
    /// The file's tags, or `None` when they could not be parsed.
    pub tag: Option<TagInfo>,
    /// Measured playback time in nanoseconds, or `None` when measuring failed.
    pub duration: Option<u128>,
}

/// Mathematical model of a [`ScannedEntry`].
pub struct EntryView {
    pub name: Seq<char>,
    pub path: Seq<char>,
    pub tag: Option<TagView>,
    pub duration: Option<nat>,
}

impl View for ScannedEntry {
    type V = EntryView;

    open spec fn view(&self) -> EntryView {
        EntryView {
            name: self.name@,
            path: self.path@,
            tag: match self.tag {
                Some(tag) => Some(tag@),
                None => None,
            },
            duration: match self.duration {
                Some(nanos) => Some(nanos as nat),
                None => None,
            },
        }
    }
}

impl DeepView for ScannedEntry {
    type V = EntryView;

    open spec fn deep_view(&self) -> EntryView {
        self@
    }
}

/// A track as the GUI lists it.
#[derive(Debug)]
pub struct FileInfo {
    /// Playback time in nanoseconds; zero when it could not be measured.
    pub duration: u128,
    pub path: String,
    pub name: String,
    pub artist: String,
}

/// Mathematical model of a [`FileInfo`].
pub struct FileInfoView {
    pub duration: nat,
    pub path: Seq<char>,
    pub name: Seq<char>,
    pub artist: Seq<char>,
}

impl View for FileInfo {
    type V = FileInfoView;

    open spec fn view(&self) -> FileInfoView {
        FileInfoView {
            duration: self.duration as nat,
            path: self.path@,
            name: self.name@,
            artist: self.artist@,
        }
    }
}

impl DeepView for FileInfo {
    type V = FileInfoView;

    open spec fn deep_view(&self) -> FileInfoView {
        self@
    }
}

/// The stem that `std::path::Path::file_stem` reports for a path made of
/// `file_name`, on the platform the library is built for: `None` when the
/// path has no final component, else the final component without its last
/// extension.
pub uninterp spec fn file_stem_of(file_name: Seq<char>) -> Option<Seq<char>>;

/// The name shown for a file: its stem where it has one, else the whole name.
pub open spec fn name_shown(file_name: Seq<char>, stem: Option<Seq<char>>) -> Seq<char> {
    match stem {
        Some(stem) => stem,
        None => file_name,
    }
}

/// The artist shown for a track: the tagged one, else the placeholder.
pub open spec fn artist_shown(artist: Option<Seq<char>>) -> Seq<char> {
    match artist {
        Some(artist) => artist,
        None => UNKNOWN_ARTIST@,
    }
}

/// The duration shown for a track: the measured one, else zero.
pub open spec fn duration_shown(measured: Option<nat>) -> nat {
    match measured {
        Some(nanos) => nanos,
        None => 0,
    }
}

/// The track an entry stands for, if its tags were parsed.
pub open spec fn track_of(entry: EntryView) -> Option<FileInfoView> {
    match entry.tag {
        Some(tag) => Some(
            FileInfoView {
                duration: duration_shown(entry.duration),
                path: entry.path,
                name: name_shown(entry.name, file_stem_of(entry.name)),
                artist: artist_shown(tag.artist),
            },
        ),
        None => None,
    }
}

/// Whether a directory item becomes a track: the entry was readable and its
/// tags were parsed.
pub open spec fn is_track(item: Option<EntryView>) -> bool {
    item matches Some(entry) && entry.tag is Some
}

/// The tracks of a sequence of directory items, in directory order.
pub open spec fn tracks_of(items: Seq<Option<EntryView>>) -> Seq<FileInfoView>
    decreases items.len(),
{
    if items.len() == 0 {
        Seq::empty()
    } else if is_track(items.last()) {
        tracks_of(items.drop_last()).push(track_of(items.last().unwrap()).unwrap())
    } else {
        tracks_of(items.drop_last())
    }
}

/// How many of the items become tracks.
pub open spec fn track_count(items: Seq<Option<EntryView>>) -> nat
    decreases items.len(),
{
    if items.len() == 0 {
        0
    } else if is_track(items.last()) {
        track_count(items.drop_last()) + 1
    } else {
        track_count(items.drop_last())
    }
}

/// How many of the items are left out: unreadable entries and files whose
/// tags could not be parsed.
pub open spec fn skipped_count(items: Seq<Option<EntryView>>) -> nat
    decreases items.len(),
{
    if items.len() == 0 {
        0
    } else if is_track(items.last()) {
        skipped_count(items.drop_last())
    } else {
        skipped_count(items.drop_last()) + 1
    }
}

/// The tracks of a directory; an unreadable directory has none.
pub open spec fn directory_tracks(listing: Option<Seq<Option<EntryView>>>) -> Seq<FileInfoView> {
    match listing {
        Some(items) => tracks_of(items),
        None => Seq::empty(),
    }
}

/// Whether every readable entry carries a non-empty file name, as the entries
/// of a real directory do.
pub open spec fn names_present(items: Seq<Option<EntryView>>) -> bool {
    forall|i: int|
        0 <= i < items.len() ==> ((#[trigger] items[i]) matches Some(entry) ==> entry.name.len() > 0)
}

/// Calls `std::path::Path::file_stem` on a path made of `file_name` and
/// returns the stem as text.
///
/// Trusted: the result is the stem named by [`file_stem_of`], and a stem that
/// exists is never empty (it is the whole final component, or the part before
/// its last dot unless that part is empty, in which case it is again the whole
/// component).
#[verifier::external_body]
pub(crate) fn remove_extension(file_name: &str) -> (stem: Option<String>)
    ensures
        stem.deep_view() == file_stem_of(file_name@),
        stem matches Some(text) ==> text@.len() > 0,
{
    let stem = std::path::Path::new(file_name).file_stem()?.to_str()?;
    Some(stem.to_string())
}

/// The name shown for a file, given the stem found for it.
pub fn display_name(file_name: &str, stem: Option<String>) -> (name: String)
    ensures
        name@ == name_shown(file_name@, stem.deep_view()),
{
    match stem {
        Some(stem) => stem,
        None => file_name.to_owned(),
    }
}

/// The artist shown for a track, given the artist its tags name.
pub fn artist_or_placeholder(artist: Option<&String>) -> (shown: String)
    ensures
        shown@ == artist_shown(artist.deep_view()),
        artist is None ==> shown@ == UNKNOWN_ARTIST@,
{
    match artist {
        Some(artist) => artist.clone(),
        None => UNKNOWN_ARTIST.to_owned(),
    }
}

/// The duration shown for a track, given the outcome of measuring it: a
/// failed measurement counts as zero.
pub fn duration_or_zero(measured: Option<u128>) -> (nanos: u128)
    ensures
        nanos == match measured {
            Some(found) => found,
            None => 0,
        },
{
    match measured {
        Some(found) => found,
        None => 0,
    }
}

/// The track for one entry: `None` exactly when the entry's tags could not be
/// parsed. A track without an artist tag gets the placeholder artist, one
/// without a measured duration gets zero, and its name is the file name
/// without its extension.
pub fn file_info(entry: &ScannedEntry) -> (info: Option<FileInfo>)
    ensures
        info.deep_view() == track_of(entry@),
        info is Some <==> entry.tag is Some,
        info matches Some(track) ==> {
            &&& entry.tag.unwrap().artist is None ==> track.artist@ == UNKNOWN_ARTIST@
            &&& entry.name@.len() > 0 ==> track.name@.len() > 0
        },
{
    match &entry.tag {
        Some(tag) => {
            let stem = remove_extension(entry.name.as_str());
            let name = display_name(entry.name.as_str(), stem);
            let artist = artist_or_placeholder(tag.artist.as_ref());
            Some(
                FileInfo {
                    duration: duration_or_zero(entry.duration),
                    path: entry.path.clone(),
                    name,
                    artist,
                },
            )
        },
        None => None,
    }
}

/// Lists the tracks of a scanned directory, in directory order.
///
/// `listing` is `None` when the directory itself could not be read, and then
/// there are no tracks. An item is `None` when that entry could not be read.
/// Unreadable entries and entries whose tags could not be parsed are left out;
/// every other entry yields exactly one track.
pub fn read_directory(listing: Option<&Vec<Option<ScannedEntry>>>) -> (infos: Vec<FileInfo>)
    ensures
        infos.deep_view() == directory_tracks(listing.deep_view()),
        listing matches Some(items) ==> {
            &&& infos.len() == track_count(items.deep_view())
            &&& names_present(items.deep_view()) ==> forall|j: int|
                0 <= j < infos.len() ==> (#[trigger] infos[j]).name@.len() > 0
        },
        listing is None ==> infos.len() == 0,
{
    let mut infos: Vec<FileInfo> = Vec::new();
    let items = match listing {
        Some(items) => items,
        None => {
            assert(infos.deep_view() =~= Seq::empty());
            return infos;
        },
    };
    let mut i: usize = 0;
    assert(items.deep_view().take(0) =~= Seq::empty());
    assert(infos.deep_view() =~= Seq::empty());
    while i < items.len()
        invariant
            i <= items.len(),
            infos.deep_view() == tracks_of(items.deep_view().take(i as int)),
            infos.len() == track_count(items.deep_view().take(i as int)),
            names_present(items.deep_view()) ==> forall|j: int|
                0 <= j < infos.len() ==> (#[trigger] infos[j]).name@.len() > 0,
        decreases items.len() - i,
    {
        let ghost before = infos.deep_view();
        let ghost seen = items.deep_view().take(i as int + 1);
        assert(seen.drop_last() =~= items.deep_view().take(i as int));
        assert(seen.last() == items[i as int].deep_view());
        if let Some(entry) = &items[i] {
            assert(items.deep_view()[i as int] == Some(entry@));
            if let Some(track) = file_info(entry) {
                infos.push(track);
                assert(infos.deep_view() =~= before.push(track@));
            }
        }
        i += 1;
    }
    assert(items.deep_view().take(i as int) =~= items.deep_view());
    infos
}

/// Every item either becomes a track or is left out, and the list of tracks
/// is exactly as long as the number of items that become tracks.
pub proof fn lemma_track_counts(items: Seq<Option<EntryView>>)
    ensures
        tracks_of(items).len() == track_count(items),
        track_count(items) + skipped_count(items) == items.len(),
    decreases items.len(),
{
    if items.len() > 0 {
        lemma_track_counts(items.drop_last());
    }
}

/// Every listed track is the track of some item that was readable and
/// parsed: nothing is listed that the directory does not hold.
pub proof fn lemma_tracks_come_from_items(items: Seq<Option<EntryView>>, j: int)
    requires
        0 <= j < tracks_of(items).len(),
    ensures
        exists|i: int|
            0 <= i < items.len() && is_track(#[trigger] items[i]) && track_of(items[i].unwrap())
                == Some(tracks_of(items)[j]),
    decreases items.len(),
{
    if items.len() > 0 {
        let rest = items.drop_last();
        if j < tracks_of(rest).len() {
            lemma_tracks_come_from_items(rest, j);
            let i = choose|i: int|
                0 <= i < rest.len() && is_track(#[trigger] rest[i]) && track_of(rest[i].unwrap())
                    == Some(tracks_of(rest)[j]);
            assert(items[i] == rest[i]);
        } else {
            let i = items.len() - 1;
            assert(is_track(items[i]));
        }
    }
}

/// A track whose file carries no artist tag is listed under the placeholder
/// artist, whatever else the entry holds.
pub proof fn lemma_untagged_artist(items: Seq<Option<EntryView>>, j: int)
    requires
        0 <= j < tracks_of(items).len(),
        forall|i: int|
            0 <= i < items.len() && is_track(#[trigger] items[i])
                ==> items[i].unwrap().tag.unwrap().artist is None,
    ensures
        tracks_of(items)[j].artist == UNKNOWN_ARTIST@,
{
    lemma_tracks_come_from_items(items, j);
}

} // verus!
