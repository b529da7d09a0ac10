//! Measuring the playback time of MP3 data.
//!
//! The measuring itself is done by the `mp3-duration` crate. Its arithmetic
//! on two kinds of header is only safe while the numbers those headers
//! announce stay below a limit, so the data is screened first and data that
//! fails the screening counts as unmeasurable.

use vstd::prelude::*;

verus! {

/// A frame summary may announce at most this many frames, exclusive: with up
/// to 1152 samples per frame the total in nanoseconds then fits in 64 bits.
pub const MAX_ANNOUNCED_FRAMES: u64 = 16_000_000;

/// An APE tag header may announce at most this size, exclusive: the size plus
/// the length of the header then fits in 32 bits.
pub const MAX_ANNOUNCED_TAG_SIZE: u64 = 0xFFFF_FFF0;

/// Whether a frame summary (the marker `Xing` or `Info`, with the flag that
/// says a frame count follows) stands at offset `at`.
pub open spec fn frame_summary_at(data: Seq<u8>, at: int) -> bool {
    &&& 0 <= at
    &&& at + 12 <= data.len()
    &&& {
        ||| (data[at] == 0x58 && data[at + 1] == 0x69 && data[at + 2] == 0x6e && data[at + 3]
            == 0x67)
        ||| (data[at] == 0x49 && data[at + 1] == 0x6e && data[at + 2] == 0x66 && data[at + 3]
            == 0x6f)
    }
    &&& data[at + 7] % 2 == 1
}

/// The frame count of the summary at `at`: four bytes, most significant first.
pub open spec fn announced_frames(data: Seq<u8>, at: int) -> int {
    data[at + 8] * 0x100_0000 + data[at + 9] * 0x1_0000 + data[at + 10] * 0x100 + data[at + 11]
}

/// Whether an APE tag header (the marker `APETAGEX`) stands at offset `at`.
pub open spec fn ape_header_at(data: Seq<u8>, at: int) -> bool {
    &&& 0 <= at
    &&& at + 16 <= data.len()
    &&& data[at] == 0x41
    &&& data[at + 1] == 0x50
    &&& data[at + 2] == 0x45
    &&& data[at + 3] == 0x54
    &&& data[at + 4] == 0x41
    &&& data[at + 5] == 0x47
    &&& data[at + 6] == 0x45
    &&& data[at + 7] == 0x58
}

/// The tag size of the APE header at `at`: four bytes, least significant
/// first.
pub open spec fn announced_tag_size(data: Seq<u8>, at: int) -> int {
    data[at + 12] + data[at + 13] * 0x100 + data[at + 14] * 0x1_0000 + data[at + 15] * 0x100_0000
}

/// Whether whatever header stands at `at` announces numbers within the
/// limits.
pub open spec fn header_in_range_at(data: Seq<u8>, at: int) -> bool {
    &&& frame_summary_at(data, at) ==> announced_frames(data, at) < MAX_ANNOUNCED_FRAMES
    &&& ape_header_at(data, at) ==> announced_tag_size(data, at) < MAX_ANNOUNCED_TAG_SIZE
}

/// Whether every header in the data, wherever it stands, announces numbers
/// within the limits.
pub open spec fn headers_in_range(data: Seq<u8>) -> bool {
    forall|at: int| 0 <= at < data.len() ==> #[trigger] header_in_range_at(data, at)
}

/// What `mp3_duration::from_read` reports for a reader over `data`: the
/// measured playback time in nanoseconds, or `None` when it reports an error.
pub uninterp spec fn mp3_duration_of(data: Seq<u8>) -> Option<u128>;

/// Runs `mp3_duration::from_read` over the bytes of `data`.
///
/// Trusted: the outcome depends on the bytes alone and is the one named by
/// [`mp3_duration_of`], an error of any kind being reported as `None`. The
/// precondition keeps away the inputs on which the crate's own arithmetic
/// would overflow: it multiplies the frame count of a frame summary by the
/// samples per frame and by a billion in 64 bits, and adds the header length
/// to the size of an APE tag in the width of `usize`.
#[verifier::external_body]
fn measure(data: &[u8]) -> (measured: Option<u128>)
    requires
        headers_in_range(data@),
    ensures
        measured == mp3_duration_of(data@),
{
    let mut reader: &[u8] = data;
    match mp3_duration::from_read(&mut reader) {
        Ok(duration) => Some(duration.as_nanos()),
        Err(_) => None,
    }
}

/// Whether the header at `at`, if there is one, stays within the limits.
fn header_in_range(data: &[u8], at: usize) -> (ok: bool)
    requires
        at < data.len(),
    ensures
        ok == header_in_range_at(data@, at as int),
{
    let len: usize = data.len();
    if len - at >= 12 {
        let xing = data[at] == 0x58 && data[at + 1] == 0x69 && data[at + 2] == 0x6e && data[at + 3]
            == 0x67;
        let info = data[at] == 0x49 && data[at + 1] == 0x6e && data[at + 2] == 0x66 && data[at + 3]
            == 0x6f;
        if (xing || info) && data[at + 7] % 2 == 1 {
            let frames: u64 = data[at + 8] as u64 * 0x100_0000 + data[at + 9] as u64 * 0x1_0000
                + data[at + 10] as u64 * 0x100 + data[at + 11] as u64;
            if frames >= MAX_ANNOUNCED_FRAMES {
                return false;
            }
        }
    }
    if len - at >= 16 {
        let ape = data[at] == 0x41 && data[at + 1] == 0x50 && data[at + 2] == 0x45 && data[at + 3]
            == 0x54 && data[at + 4] == 0x41 && data[at + 5] == 0x47 && data[at + 6] == 0x45
            && data[at + 7] == 0x58;
        if ape {
            let size: u64 = data[at + 12] as u64 + data[at + 13] as u64 * 0x100 + data[at
                + 14] as u64 * 0x1_0000 + data[at + 15] as u64 * 0x100_0000;
            if size >= MAX_ANNOUNCED_TAG_SIZE {
                return false;
            }
        }
    }
    true
}

/// Screens MP3 data: `true` exactly when every frame summary and every APE
/// tag header in it announces numbers within the limits.
pub fn screen(data: &[u8]) -> (ok: bool)
    ensures
        ok == headers_in_range(data@),
{
    let mut at: usize = 0;
    while at < data.len()
        invariant
            at <= data.len(),
            forall|k: int| 0 <= k < at ==> #[trigger] header_in_range_at(data@, k),
        decreases data.len() - at,
    {
        if !header_in_range(data, at) {
            return false;
        }
        at += 1;
    }
    true
}

/// Measures the playback time of MP3 data, in nanoseconds.
///
/// Data that fails the screening is not measured and gives `None`; for all
/// other data the result is what the measuring crate reports, `None` standing
/// for any of its errors.
pub fn probe_duration(data: &[u8]) -> (measured: Option<u128>)
    ensures
        measured == if headers_in_range(data@) {
            mp3_duration_of(data@)
        } else {
            None
        },
{
    if screen(data) {
        measure(data)
    } else {
        None
    }
}

} // verus!
