use galaxy_player::presence::{change_rich_presence, DiscordRichPresence, APP_ID, LARGE_IMAGE};

fn status(playing: bool, left: i64) -> DiscordRichPresence {
    DiscordRichPresence {
        playing,
        details: String::from("Blue in Green"),
        state: String::from("Miles Davis"),
        left,
    }
}

#[test]
fn playing_status_carries_end_timestamp() {
    let activity = change_rich_presence(&status(true, 1_700_000_321));
    assert_eq!(activity.end_timestamp, Some(1_700_000_321));
}

#[test]
fn paused_status_carries_no_end_timestamp() {
    let activity = change_rich_presence(&status(false, 1_700_000_321));
    assert_eq!(activity.end_timestamp, None);
}

#[test]
fn end_timestamp_is_not_converted() {
    assert_eq!(change_rich_presence(&status(true, 0)).end_timestamp, Some(0));
    assert_eq!(change_rich_presence(&status(true, -5)).end_timestamp, Some(-5));
    assert_eq!(change_rich_presence(&status(true, i64::MAX)).end_timestamp, Some(i64::MAX));
    assert_eq!(change_rich_presence(&status(true, i64::MIN)).end_timestamp, Some(i64::MIN));
}

#[test]
fn state_and_details_are_copied_verbatim() {
    let activity = change_rich_presence(&status(true, 7));
    assert_eq!(activity.state, "Miles Davis");
    assert_eq!(activity.details, "Blue in Green");
    let paused = change_rich_presence(&status(false, 7));
    assert_eq!(paused.state, "Miles Davis");
    assert_eq!(paused.details, "Blue in Green");
}

#[test]
fn empty_and_unicode_texts_survive() {
    let activity = change_rich_presence(&DiscordRichPresence {
        playing: false,
        details: String::new(),
        state: String::from("Björk – Jóga ♫"),
        left: 0,
    });
    assert_eq!(activity.details, "");
    assert_eq!(activity.state, "Björk – Jóga ♫");
}

#[test]
fn every_activity_shows_the_player_icon() {
    assert_eq!(LARGE_IMAGE, "galaxy");
    assert_eq!(change_rich_presence(&status(true, 1)).large_image, "galaxy");
    assert_eq!(change_rich_presence(&status(false, 1)).large_image, "galaxy");
}

#[test]
fn status_is_left_untouched() {
    let given = status(true, 42);
    let _ = change_rich_presence(&given);
    assert!(given.playing);
    assert_eq!(given.left, 42);
    assert_eq!(given.state, "Miles Davis");
}

#[test]
fn application_id_is_the_registered_one() {
    assert_eq!(APP_ID, 1203039006846361762);
    assert_eq!(APP_ID.to_string(), "1203039006846361762");
}
