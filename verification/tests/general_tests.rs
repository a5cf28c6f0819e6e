use sylk_bot::commands::general::{
    bonk_text, command_allowed, pinned_text, renamed_text, reply_text, voice_info_text, BoopCounter,
    VideoQuality,
};
use sylk_bot::commands::mallet::mallet_text;
use sylk_bot::utils::text::decimal_string;

#[test]
fn decimal_writes_integers_as_display_does() {
    assert_eq!(decimal_string(0), "0");
    assert_eq!(decimal_string(7), "7");
    assert_eq!(decimal_string(10), "10");
    assert_eq!(decimal_string(1234567890), "1234567890");
    assert_eq!(decimal_string(u64::MAX), u64::MAX.to_string());
}

#[test]
fn boops_are_counted_one_by_one() {
    let mut c = BoopCounter::new();
    assert_eq!(c.count(), 0);
    assert_eq!(c.press(), "Boop count: 1");
    assert_eq!(c.press(), "Boop count: 2");
    assert_eq!(c.count(), 2);
}

#[test]
fn voice_info_lists_the_channel() {
    let text = voice_info_text(
        "General",
        Some(64000),
        Some(10),
        Some("europe".to_string()),
        Some(VideoQuality::Full),
    );
    assert_eq!(
        text,
        "**Name**: General\n**Bitrate**: 64000\n**User limit**: 10\n**RTC region**: europe\n**Video quality mode**: Full"
    );
}

#[test]
fn voice_info_fills_in_what_is_missing() {
    let text = voice_info_text("Quiet", None, None, None, None);
    assert_eq!(
        text,
        "**Name**: Quiet\n**Bitrate**: 0\n**User limit**: 0\n**RTC region**: \n**Video quality mode**: Unknown"
    );
    let auto = voice_info_text("A", Some(1), Some(2), None, Some(VideoQuality::Auto));
    assert!(auto.ends_with("**Video quality mode**: Auto"));
}

#[test]
fn command_replies() {
    assert_eq!(reply_text("sylk"), "Hello sylk!");
    assert_eq!(bonk_text(123456789), "Bonked <@123456789> with THE mallet");
    assert_eq!(pinned_text(42), "Pinned 42!");
    assert_eq!(renamed_text("Old", "New"), "Renamed Old to New!");
}

#[test]
fn mallet_bonks_the_first_word() {
    let args = vec!["@someone".to_string(), "extra".to_string()];
    assert_eq!(mallet_text(&args), "Bonked @someone with the mallet of loving correction");
}

#[test]
fn only_the_blocked_user_may_not_run_commands() {
    assert!(!command_allowed(123456789));
    assert!(command_allowed(1));
    assert!(command_allowed(123456790));
}
