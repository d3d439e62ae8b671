use rmb::commands::{config_gate, consent_reply, satellite_step, timeout_setting, JoinStep, SatelliteAction};
use rmb::duration::restart_delay_secs;
use rmb::image_fx::john_from_hue;
use rmb::embed::{embed_eq, panel_changed, EmbedData, EmbedField, PanelSnapshot};
use rmb::message::{decimal_digit, detect_emojis, filter_bar_emojis};
use rmb::player::{track_event_of, PlayState, PlaybackFlags, TrackEvent};
use rmb::text::is_whitespace;
use rmb::youtube::{hit_fits, journey_voices, keep_gender, silly_voices, standard_voices, SearchHit};

#[test]
fn voice_tables_hold_their_entries() {
    let v = standard_voices();
    assert_eq!(v.len(), 22);
    assert_eq!((v[0].language_code, v[0].name, v[0].gender), ("en-AU", "en-AU-Neural2-A", "FEMALE"));
    assert_eq!((v[1].language_code, v[1].name, v[1].gender), ("en-AU", "en-AU-Neural2-B", "MALE"));
    assert_eq!(v[21].name, "en-US-Neural2-J");
    let s = silly_voices();
    assert_eq!((s[0].language_code, s[0].name, s[0].gender), ("fil-PH", "fil-ph-Neural2-D", "MALE"));
    assert_eq!(s[6].name, "vi-VN-Neural2-A");
    let j = journey_voices();
    assert_eq!(j.len(), 2);
    assert_eq!(j[1].name, "en-US-Journey-F");
}

#[test]
fn keep_gender_filters_in_order() {
    let v = standard_voices();
    let f = keep_gender(&v, "FEMALE");
    assert_eq!(f.len(), 12);
    assert!(f.iter().all(|x| x.gender == "FEMALE"));
    assert_eq!(f[0].name, "en-AU-Neural2-A");
    let m = keep_gender(&v, "MALE");
    assert_eq!(m.len(), 10);
    assert_eq!(m[0].name, "en-AU-Neural2-B");
    assert_eq!(keep_gender(&v, "OTHER").len(), 0);
}

#[test]
fn track_events_by_state() {
    assert_eq!(track_event_of(false, PlayState::End), Some(TrackEvent::SongFinished));
    assert_eq!(track_event_of(true, PlayState::Stop), Some(TrackEvent::TtsFinished));
    assert_eq!(track_event_of(false, PlayState::Errored), Some(TrackEvent::SongError));
    assert_eq!(track_event_of(true, PlayState::Errored), Some(TrackEvent::TtsError));
    assert_eq!(track_event_of(true, PlayState::Play), Some(TrackEvent::TtsBegan));
    assert_eq!(track_event_of(false, PlayState::Play), Some(TrackEvent::SongBegan));
    assert_eq!(track_event_of(false, PlayState::Pause), None);
}

fn field(name: &str, value: &str) -> EmbedField {
    EmbedField { name: name.to_string(), value: value.to_string(), inline: false }
}

#[test]
fn panel_changes_only_when_something_differs() {
    let mut a = EmbedData::default_embed();
    a.fields.push(field("Now Playing", "x"));
    let mut b = EmbedData::default_embed();
    b.fields.push(field("Now Playing", "x"));
    assert!(embed_eq(&a, &b));
    let flags = PlaybackFlags::new();
    assert!(panel_changed(&None, &a, flags, false));
    let last = Some(PanelSnapshot { embed: a, flags });
    assert!(!panel_changed(&last, &b, flags, false));
    assert!(panel_changed(&last, &b, flags, true));
    let mut paused = flags;
    paused.pause = true;
    assert!(panel_changed(&last, &b, paused, false));
    let mut c = EmbedData::default_embed();
    c.fields.push(field("Now Playing", "y"));
    assert!(panel_changed(&last, &c, flags, false));
    c.body = Some("z".to_string());
    assert!(!embed_eq(&b, &c));
}

#[test]
fn satellite_replies() {
    assert!(matches!(satellite_step(SatelliteAction::SatelliteShouldJoin(5)), JoinStep::JoinFirst(5)));
    assert!(matches!(satellite_step(SatelliteAction::UserNotConnected),
        JoinStep::Refuse(t) if t == "You're not in a voice channel"));
    assert!(matches!(satellite_step(SatelliteAction::SatelliteInVcWithUser(3)),
        JoinStep::Refuse(t) if t == "A satellite is already in a voice channel with you"));
    assert!(matches!(satellite_step(SatelliteAction::NoRemaining),
        JoinStep::Refuse(t) if t.starts_with("No satellites available to join")));
    match satellite_step(SatelliteAction::InviteSatellite("https://x/y".to_string())) {
        JoinStep::Refuse(t) => assert_eq!(t, "There are no satellites available, [use this link to invite one](https://x/y)\nPlease ensure that all satellites have permission to view the voice channel you're in."),
        _ => panic!("expected a refusal"),
    }
}

#[test]
fn config_permission_and_timeout() {
    assert_eq!(config_gate(false, false), Err("This command can only be run in a guild".to_string()));
    assert_eq!(config_gate(true, false), Err("You do not have permission to run this command".to_string()));
    assert_eq!(config_gate(true, true), Ok(()));
    assert_eq!(timeout_setting(30, None), ("The current timeout is 30 seconds".to_string(), 30));
    assert_eq!(timeout_setting(30, Some(90)), ("The new timeout is 1 minute 30 seconds".to_string(), 90));
}

#[test]
fn restart_at_eight() {
    let eight = 1_000_000i64;
    assert_eq!(restart_delay_secs(eight - 3600, eight), 3600);
    assert_eq!(restart_delay_secs(eight, eight), 0);
    assert_eq!(restart_delay_secs(eight + 60, eight), 86400 - 60);
}

#[test]
fn whitespace_like_std() {
    for c in ['\t', '\n', ' ', '\u{85}', '\u{a0}', '\u{2003}', '\u{3000}', 'a', '\u{200b}', '0', '\u{1680}', '\u{180e}'] {
        assert_eq!(is_whitespace(c), c.is_whitespace(), "{:?}", c);
    }
}

#[test]
fn bar_is_filtered_away() {
    let bar = "<:LE:1038954704744480898><:CC:1038954696980824094><:CC:1038954696980824094><:RC:1038954706841649192>";
    assert_eq!(filter_bar_emojis(bar), "");
    assert_eq!(filter_bar_emojis(&format!("a{}b", bar)), "ab");
}

#[test]
fn consent_replies() {
    assert_eq!(consent_reply(false, false), ("This is already your current consent status.".to_string(), false));
    assert_eq!(consent_reply(false, true).1, true);
    assert!(consent_reply(false, true).0.starts_with("You have granted consent"));
    assert!(consent_reply(true, false).0.starts_with("You have revoked consent"));
}

#[test]
fn john_from_hue_brightens_exactly() {
    let p = vec![(10u8, 20u8, 30u8, 40u8), (250, 0, 5, 255)];
    let hue = vec![1u8, 2, 3, 99, 10, 7, 255, 0];
    assert_eq!(john_from_hue(&p, &hue), vec![(11, 22, 33, 40), (255, 7, 255, 255)]);
}

#[test]
fn emoji_ids_take_unicode_digits() {
    assert!(decimal_digit('٣'));
    assert!(decimal_digit('７'));
    assert!(!decimal_digit('x'));
    assert!(!decimal_digit('½'));
    let e = detect_emojis("<:w:١٢٣>");
    assert_eq!(e.len(), 1);
    assert_eq!(e[0].name, "w");
}

#[test]
fn hit_labels_that_can_be_cut() {
    let short = SearchHit { url: "u".to_string(), title: "t".to_string(), has_duration: true, uploader: None };
    assert!(hit_fits(&short));
    // "🎵 " is 5 bytes; then ASCII up to byte 97 ends on a character
    let long = SearchHit { url: "u".to_string(), title: "a".repeat(200), has_duration: true, uploader: None };
    assert!(hit_fits(&long));
    // "📼 " + 91 'a' = 96 bytes, then 'é' spans bytes 96..98
    let bad = SearchHit { url: "u".to_string(), title: format!("{}é{}", "a".repeat(91), "b".repeat(50)), has_duration: false, uploader: None };
    assert!(!hit_fits(&bad));
}

#[test]
fn bar_emojis_removed_from_text() {
    let t = "now <:CE:1038954710184497203>x<:CE:1038954710184497203> 3:20 <:RE:1038954703033217285>!";
    assert_eq!(filter_bar_emojis(t), "now x 3:20 !");
    assert_eq!(filter_bar_emojis("a<b:c>"), "a<b:c>");
}
