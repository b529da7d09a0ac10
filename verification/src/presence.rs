//! The rich-presence activity that mirrors the playback state.

use vstd::prelude::*;

verus! {

/// Identifier under which the player is registered with the chat client.
pub const APP_ID: i64 = 1203039006846361762;

/// Key of the image asset shown with every activity.
pub const LARGE_IMAGE: &'static str = "galaxy";

/// The playback state to mirror, as the GUI reports it on every playback
/// event. `left` is the epoch second at which the current song ends.
#[derive(Debug)]
pub struct DiscordRichPresence {
    pub playing: bool,
    pub details: String,
    pub state: String,
    pub left: i64,
}

/// Mathematical model of a [`DiscordRichPresence`].
pub struct PresenceView {
    pub playing: bool,
    pub details: Seq<char>,
    pub state: Seq<char>,
    pub left: int,
}

impl View for DiscordRichPresence {
    type V = PresenceView;

    open spec fn view(&self) -> PresenceView {
        PresenceView {
            playing: self.playing,
            details: self.details@,
            state: self.state@,
            left: self.left as int,
        }
    }
}

/// The activity handed to the presence transport: the fields the chat client
/// is asked to display.
#[derive(Debug)]
pub struct ActivityPayload {
    pub state: String,
    pub details: String,
    pub large_image: String,
    /// End of the current song, attached only while a song is playing.
    pub end_timestamp: Option<i64>,
}

/// Mathematical model of an [`ActivityPayload`].
pub struct ActivityView {
    pub state: Seq<char>,
    pub details: Seq<char>,
    pub large_image: Seq<char>,
    pub end_timestamp: Option<int>,
}

impl View for ActivityPayload {
    type V = ActivityView;

    open spec fn view(&self) -> ActivityView {
        ActivityView {
            state: self.state@,
            details: self.details@,
            large_image: self.large_image@,
            end_timestamp: match self.end_timestamp {
                Some(end) => Some(end as int),
                None => None,
            },
        }
    }
}

/// The activity that mirrors `status`: state and details verbatim, the fixed
/// image asset, and the end of the song exactly while one is playing.
pub open spec fn activity_for(status: PresenceView) -> ActivityView {
    ActivityView {
        state: status.state,
        details: status.details,
        large_image: LARGE_IMAGE@,
        end_timestamp: if status.playing {
            Some(status.left)
        } else {
            None
        },
    }
}

/// Builds the activity to submit for a playback status.
///
/// The end timestamp is present if and only if `new_status.playing`, and then
/// it is `new_status.left`, unconverted.
pub fn change_rich_presence(new_status: &DiscordRichPresence) -> (activity: ActivityPayload)
    ensures
        activity@ == activity_for(new_status@),
        activity.end_timestamp.is_some() == new_status.playing,
        new_status.playing ==> activity.end_timestamp == Some(new_status.left),
{
    let end_timestamp = if new_status.playing {
        Some(new_status.left)
    } else {
        None
    };
    ActivityPayload {
        state: new_status.state.clone(),
        details: new_status.details.clone(),
        large_image: LARGE_IMAGE.to_owned(),
        end_timestamp,
    }
}

} // verus!
