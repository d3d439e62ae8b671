use rmb::commands::{
    bitrate_option, control_rows, needs_resend, ButtonStyle, feedback_reply_text, feedback_text, find_option, join_step, media_option,
    panel_action, remove_option, require_same_channel, spoiler_option, toggle_command,
    CommandOption, JoinStep, OptionValue, PanelAction, PanelToggle, PanelVoice, VoiceAction,
};
use rmb::gemini::{
    Content, FinishReason, HarmBlockThreshold, HarmCategory, Part, Request, Response,
    ResponseCandidate, SafetySetting, UsageMetadata,
};
use rmb::media::{
    checked_search_result, download_args, download_id, first_download, is_http_url,
    max_upload_size, playlist_index_of, plan_source, retry_args, select_videos, spotify_id_of,
    BoostTier, MediaType, RawVideo, VideoError, VideoSource,
};
use rmb::message::{detect_emojis, filter_bar_emojis, message_text, message_text_with_links, MessageError};
use rmb::player::{OrAuto, OrToggle, PlaybackFlags, PlayerCommand};
use rmb::transcribe::{sorted_unique, TranscribeMap};
use rmb::youtube::{
    announcement_text, check_access_token, choice_title, choose_voice, ids_from_html,
    original_id_of, recommendations_possible, search_choices, search_page_url, silly_voices,
    standard_voices, watch_url_of, youtube_search_url, RawSpotifyAlbum, RawSpotifyArtist,
    RawSpotifyTrack, RawSpotifyTracks, SearchHit, TTSResponse, TTSVoice,
};

fn s(x: &str) -> String {
    x.to_string()
}

#[test]
fn gemini_request_shape() {
    let r = Request::new("why is the sky blue");
    assert_eq!(r.contents.len(), 1);
    assert_eq!(r.contents[0].parts[0].text, "why is the sky blue\nOne sentence response only please.");
    assert_eq!(r.safety_settings.len(), 4);
    assert_eq!(r.safety_settings[0].category, HarmCategory::Harassment);
    assert_eq!(r.safety_settings[3].category, HarmCategory::DangerousContent);
    assert!(r.safety_settings.iter().all(|s| s.threshold == HarmBlockThreshold::BlockNone));
    assert_eq!(r.generation_config.stop_sequences, vec![s("\n")]);
    assert_eq!(r.generation_config.max_output_tokens, 8192);
    let all = SafetySetting::all(HarmBlockThreshold::OnlyHigh);
    assert_eq!(all[1], SafetySetting { category: HarmCategory::HateSpeech, threshold: HarmBlockThreshold::OnlyHigh });
    assert_eq!(FinishReason::default(), FinishReason::Unspecified);
}

#[test]
fn gemini_formatted_response() {
    let cand = |parts: &[&str]| ResponseCandidate {
        content: Content { parts: parts.iter().map(|t| Part { text: s(t) }).collect() },
        finish_reason: FinishReason::Stop,
        index: 0,
        safety_ratings: vec![],
    };
    let r = Response {
        candidates: vec![cand(&["Hello ", "world"]), cand(&["again"])],
        usage_metadata: UsageMetadata { prompt_token_count: 1, candidates_token_count: 2, total_token_count: 3 },
    };
    assert_eq!(r.formatted_response(), "Hello world\nagain");
}

#[test]
fn urls_and_sources() {
    assert!(is_http_url("https://x.y"));
    assert!(is_http_url("http://x.y"));
    assert!(!is_http_url("ftp://x.y"));
    assert!(matches!(plan_source("https://a", false), Ok(VideoSource::Direct(u)) if u == "https://a"));
    assert!(matches!(plan_source("never gonna", true), Ok(VideoSource::Search(q)) if q == "never gonna"));
    assert!(matches!(plan_source("never gonna", false), Err(VideoError::InvalidUrl)));
    assert!(matches!(checked_search_result(s("nope")), Err(VideoError::InvalidUrlAfterSearch)));
    assert_eq!(VideoError::NoVideos.message(), "No videos found");
    assert_eq!(VideoError::InvalidUrl.message(), "Invalid URL found");
    assert_eq!(VideoError::InvalidUrlAfterSearch.message(), "Invalid URL found after search query");
    assert_eq!(VideoError::AlreadyDownloaded.message(), "Video already downloaded");
}

#[test]
fn select_videos_playlist_or_first() {
    let v = |t: &str| RawVideo { url: s("u"), title: s(t), duration: 3 };
    assert!(matches!(select_videos(vec![], true), Err(VideoError::NoVideos)));
    let all = select_videos(vec![v("a"), v("b")], true).unwrap_or_default();
    assert_eq!(all.len(), 2);
    let one = select_videos(vec![v("a"), v("b")], false).unwrap_or_default();
    assert_eq!(one.len(), 1);
    assert_eq!(one[0].title, "a");
}

#[test]
fn download_names_and_arguments() {
    let id = download_id(true);
    assert!(id.starts_with("SPOILER_"));
    assert_eq!(id.len(), 18);
    assert_eq!(download_id(false).len(), 10);
    let args = download_args("abc", MediaType::Audio, Some("cookies.txt"));
    let shown: Vec<(String, Option<String>)> = args.clone();
    assert_eq!(shown[2], (s("--output"), Some(s("abc_%(playlist_index)s.%(ext)s"))));
    assert_eq!(shown[4], (s("--cookies"), Some(s("cookies.txt"))));
    assert_eq!(shown[5], (s("-x"), None));
    assert_eq!(shown[6], (s("--audio-format"), Some(s("mp3"))));
    let video = download_args("abc", MediaType::Video, None);
    assert_eq!(video.len(), 6);
    assert_eq!(video[5], (s("--recode"), Some(s("mp4"))));
    let mut with_limit = args.clone();
    with_limit.push((s("-f"), Some(s("best[filesize<=8M]"))));
    let retried = retry_args(with_limit, "8M");
    assert_eq!(retried, args);
}

#[test]
fn playlist_index_and_first_download() {
    assert_eq!(playlist_index_of("abc_3.mp3"), 3);
    assert_eq!(playlist_index_of("abc_NA.mp3"), 0);
    assert_eq!(playlist_index_of("SPOILER_abc_3.mp3"), 0);
    assert_eq!(playlist_index_of("plain.mp3"), 0);
    let names = vec![s("zzz_1.mp3"), s("abc_4.mp3"), s("abc_2.mp3"), s("abc_2.webm")];
    assert_eq!(first_download(&names, "abc"), Some(2));
    assert_eq!(first_download(&names, "qqq"), None);
}

#[test]
fn spotify_ids_and_upload_sizes() {
    assert_eq!(spotify_id_of("https://open.spotify.com/track/4uLU6h?si=abc"), "4uLU6h");
    assert_eq!(spotify_id_of("plain"), "plain");
    assert_eq!(max_upload_size(Some(BoostTier::Tier3)), "100M");
    assert_eq!(max_upload_size(Some(BoostTier::Tier2)), "50M");
    assert_eq!(max_upload_size(Some(BoostTier::Tier1)), "8M");
    assert_eq!(max_upload_size(None), "8M");
}

#[test]
fn youtube_page_ids() {
    let html = r#"<a href="/watch?v=AAA&x">/watch?v=AAA"/watch?v=BBB\u0026 /watch?v=CCC> /watch?v=AAA/"#;
    let ids: Vec<String> = ids_from_html(html, 10, None).into_iter().map(|v| v.into_iter().collect()).collect();
    assert_eq!(ids, vec![s("AAA"), s("BBB"), s("CCC"), s("AAA")]);
    let ids: Vec<String> = ids_from_html(html, 2, Some("BBB")).into_iter().map(|v| v.into_iter().collect()).collect();
    assert_eq!(ids, vec![s("AAA"), s("CCC")]);
    assert_eq!(watch_url_of(&"XYZ".chars().collect()), "https://www.youtube.com/watch?v=XYZ");
}

#[test]
fn youtube_urls() {
    assert_eq!(original_id_of("https://www.youtube.com/watch?v=abc"), Some(s("abc")));
    assert_eq!(original_id_of("https://example.com"), None);
    assert!(recommendations_possible("https://www.youtube.com/watch?v=abc"));
    assert!(!recommendations_possible("https://youtu.be/abc"));
    assert_eq!(search_page_url("a b"), "https://www.youtube.com/results?search_query=a b");
    assert_eq!(
        youtube_search_url("a b&c~é"),
        "https://www.youtube.com/results?search_query=a%20b%26c~%C3%A9"
    );
}

#[test]
fn spotify_search_texts() {
    let t = RawSpotifyTrack {
        name: s("Song"),
        artists: vec![RawSpotifyArtist { name: s("A") }, RawSpotifyArtist { name: s("B") }],
    };
    assert_eq!(t.search_text(), "Song - A, B");
    let album = RawSpotifyAlbum { tracks: RawSpotifyTracks { items: vec![t] } };
    assert_eq!(album.search_texts(), vec![s("Song - A, B")]);
}

#[test]
fn voices_and_announcements() {
    assert_eq!(standard_voices().len(), 22);
    assert_eq!(silly_voices().len(), 7);
    let v = choose_voice(&standard_voices()).map(|v| v.gender);
    assert!(v == Some("MALE") || v == Some("FEMALE"));
    assert!(choose_voice(&vec![]).is_none());
    let d = TTSVoice::default();
    assert_eq!(d.name, "en-US-Wavenet-C");
    assert_eq!(announcement_text("Track", false), "Now playing... Track");
    assert_eq!(announcement_text("Track", true), "Track");
}

#[test]
fn tts_audio_and_tokens() {
    let r = TTSResponse { audio_content: s("aGk=") };
    assert_eq!(r.audio(), Some(b"hi".to_vec()));
    let bad = TTSResponse { audio_content: s("!!!") };
    assert_eq!(bad.audio(), None);
    assert_eq!(check_access_token(s("tok")), Ok(s("tok")));
    assert_eq!(check_access_token(s("an error")), Err(s("an error")));
}

#[test]
fn suggestion_titles() {
    let hit = SearchHit { url: s("u"), title: s("Title"), has_duration: true, uploader: Some(s("Up")) };
    assert_eq!(choice_title(&hit), "🎵 Up - Title");
    let long = SearchHit { url: s("u"), title: "x".repeat(200), has_duration: false, uploader: None };
    let t = choice_title(&long);
    assert_eq!(t.len(), 100);
    assert!(t.starts_with("📼 x"));
    assert!(t.ends_with("..."));
    let none = search_choices("q", Some(vec![]));
    assert_eq!(none, vec![(s("No results found"), s("q"))]);
    let err = search_choices("q", None);
    assert_eq!(err, vec![(s("Error fetching results"), s("q"))]);
    let many: Vec<SearchHit> = (0..30)
        .map(|i| SearchHit { url: format!("u{}", i), title: s("t"), has_duration: true, uploader: None })
        .collect();
    let c = search_choices("q", Some(many));
    assert_eq!(c.len(), 26);
    assert_eq!(c[25].1, "u25");
}

#[test]
fn emojis_sorted_and_deduplicated() {
    let e = detect_emojis("hi <:b:12> <a:a:3> <:b:99> <:bad:> <:c:x> <::1>");
    let names: Vec<(String, String)> = e.into_iter().map(|e| (e.name, e.raw_emoji_text)).collect();
    assert_eq!(names, vec![(s("a"), s("<a:a:3>")), (s("b"), s("<:b:12>"))]);
}

#[test]
fn message_texts() {
    assert_eq!(
        message_text_with_links("Look <:wave:123> HERE http://x.y #0000", &vec![s("http://x.y")], None),
        Ok(s("look wave here"))
    );
    assert_eq!(
        message_text_with_links("Hi", &vec![], Some("Bob")),
        Ok(s("Replying to Bob:\nhi"))
    );
    assert_eq!(message_text_with_links("   ", &vec![], None), Err(MessageError::Empty));
    assert_eq!(message_text("see https://example.com/a", None), Ok(s("see")));
    assert_eq!(message_text("https://example.com", None), Err(MessageError::Empty));
}

#[test]
fn bar_emojis_removed() {
    assert_eq!(
        filter_bar_emojis("<:LE:1038954704744480898>x<:RC:1038954706841649192>y"),
        "xy"
    );
}

#[test]
fn transcribe_map_operations() {
    let mut m = TranscribeMap::new();
    assert!(m.list_all_channels(1).is_empty());
    m.set_channel(1, 5, true);
    assert_eq!(m.list_all_channels(1), vec![1, 5]);
    m.set_channel(1, 3, true);
    m.set_channel(1, 3, true);
    assert_eq!(m.list_all_channels(1), vec![1, 3, 5]);
    m.set_channel(1, 1, false);
    assert_eq!(m.list_all_channels(1), vec![3, 5]);
    m.set_channel(2, 5, true);
    let mut with5 = m.voice_channels_with(5);
    with5.sort();
    assert_eq!(with5, vec![1, 2]);
    m.clear_channel(1);
    assert!(m.list_all_channels(1).is_empty());
    m.ensure_channel(9);
    assert_eq!(m.list_all_channels(9), vec![9]);
    assert_eq!(sorted_unique(&vec![3, 1, 3, 2]), vec![1, 2, 3]);
}

fn opt(name: &str, value: OptionValue) -> CommandOption {
    CommandOption { name: s(name), value }
}

#[test]
fn command_options() {
    let opts = vec![
        opt("video_url", OptionValue::Text(s("v"))),
        opt("audio_url", OptionValue::Text(s("a"))),
        opt("spoiler", OptionValue::Boolean(true)),
        opt("index", OptionValue::Integer(3)),
    ];
    assert_eq!(find_option(&opts, "spoiler"), Some(2));
    assert!(matches!(media_option(&opts), Some((u, MediaType::Video)) if u == "v"));
    assert!(spoiler_option(&opts));
    assert_eq!(remove_option(&opts), Some(3));
    assert_eq!(bitrate_option(&opts), Some(OrAuto::Auto));
    assert_eq!(bitrate_option(&vec![opt("bitrate", OptionValue::Integer(96000))]), Some(OrAuto::Specific(96000)));
    assert_eq!(bitrate_option(&vec![opt("bitrate", OptionValue::Other)]), None);
    assert!(media_option(&vec![opt("audio_url", OptionValue::Integer(1))]).is_none());
}

#[test]
fn voice_gates() {
    assert_eq!(require_same_channel(VoiceAction::InSame(7)), Ok(7));
    assert_eq!(require_same_channel(VoiceAction::UserNotConnected), Err(s("You're not in a voice channel")));
    assert_eq!(
        require_same_channel(VoiceAction::Join(3)),
        Err(s("I'm not in a channel, if you want me to join use /join or /play"))
    );
    assert!(matches!(join_step(VoiceAction::Join(3)), JoinStep::JoinFirst(3)));
    assert!(matches!(join_step(VoiceAction::InDifferent(3)), JoinStep::Refuse(t) if t == "I'm in a different voice channel"));
}

#[test]
fn control_panel() {
    assert!(matches!(panel_action(false, PanelVoice::WithUser(1), 1, "pause"), PanelAction::Reply(t) if t == "This can only be used in a server"));
    assert!(matches!(panel_action(true, PanelVoice::WithUser(2), 1, "pause"), PanelAction::Reply(t) if t == "Wrong control panel, silly!"));
    assert!(matches!(panel_action(true, PanelVoice::UserNotConnected, 1, "pause"), PanelAction::Reply(t) if t == "Get on in here, enjoy the tunes!"));
    assert!(matches!(panel_action(true, PanelVoice::WithUser(1), 1, "controls"), PanelAction::Acknowledge));
    assert!(matches!(panel_action(true, PanelVoice::WithUser(1), 1, "shuffle"), PanelAction::Toggle(PanelToggle::Shuffle)));
    assert!(matches!(panel_action(true, PanelVoice::WithUser(1), 1, "radiovolume"), PanelAction::VolumeForm(i, t) if i == "radiovolume" && t == "Radio Volume"));
    assert!(matches!(panel_action(true, PanelVoice::WithUser(1), 1, "bitrate"), PanelAction::BitrateForm));
    assert!(matches!(panel_action(true, PanelVoice::WithUser(1), 1, "log"), PanelAction::ShowLog));
    assert!(matches!(panel_action(true, PanelVoice::WithUser(1), 1, "remove"), PanelAction::FeedbackForm(q) if q == "How should clicking `remove` work?"));
    assert!(matches!(toggle_command::<u8>(PanelToggle::Pause), PlayerCommand::Paused(OrToggle::Toggle)));
    assert!(matches!(toggle_command::<u8>(PanelToggle::Stop), PlayerCommand::Stop(None)));
    assert_eq!(feedback_text("remove", "it should remove"), "User thinks `remove` should\n```\nit should remove```");
    assert_eq!(feedback_reply_text(true, "x"), "Thanks for the feedback!");
    assert!(feedback_reply_text(false, "x").ends_with("\nx"));
}

#[test]
fn control_buttons_follow_the_switches() {
    let mut f = PlaybackFlags::new();
    f.pause = true;
    f.shuffle = true;
    let rows = control_rows(&f, s("🔊 100%"), s("📻 33%"));
    assert_eq!(rows.len(), 4);
    assert_eq!(rows[0][0].label, "🔊 100%");
    assert_eq!(rows[0][2].label, "Auto");
    assert_eq!(rows[0][3].style, ButtonStyle::Secondary);
    assert!(rows[0][3].disabled);
    assert_eq!(rows[1][0].style, ButtonStyle::Success);
    assert_eq!(rows[1][0].label, "▶️");
    assert_eq!(rows[2][1].style, ButtonStyle::Primary);
    assert_eq!(rows[2][0].style, ButtonStyle::Secondary);
    assert_eq!(rows[3][2].id, "read_titles");
    assert!(needs_resend(5, &vec![3, 7]));
    assert!(!needs_resend(5, &vec![3, 5]));
}
