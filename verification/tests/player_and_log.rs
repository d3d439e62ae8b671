use rmb::embed::{EmbedData, EmbedTiming, Vec25};
use rmb::log::{Log, LogString};
use rmb::player::{
    Author, CommandOutcome, OptionOrFailed, OrAuto, OrToggle, PlaybackFlags, PlayerCommand,
    PlayerEffect, PlayerState, QueueItem, TrackMeta,
};
use rmb::radio::{NowPlaying, PlayingNext, Root, Song, Station};

fn item(title: &str, secs: Option<u64>) -> QueueItem<u32> {
    QueueItem {
        meta: TrackMeta { title: title.to_string(), duration: secs, author: None },
        payload: 0,
    }
}

fn reply(o: &CommandOutcome<u32>) -> Option<String> {
    o.reply.clone()
}

#[test]
fn or_toggle_values() {
    assert!(OrToggle::Toggle.get_val(false));
    assert!(!OrToggle::Toggle.get_val(true));
    assert!(OrToggle::Specific(true).get_val(false));
    // toggling twice gives the first value back
    for b in [true, false] {
        assert_eq!(OrToggle::Toggle.get_val(OrToggle::Toggle.get_val(b)), b);
    }
}

#[test]
fn bitrate_labels() {
    assert_eq!(OrAuto::Specific(96000).label(), "96kbps");
    assert_eq!(OrAuto::Specific(512).label(), "512bps");
    assert_eq!(OrAuto::Auto.label(), "Auto");
    assert_eq!(OrAuto::Specific(-3).to_text(), "-3");
}

#[test]
fn switch_commands_reply_and_toggle_back() {
    let mut p: PlayerState<u32> = PlayerState::new(PlaybackFlags::new());
    let o = p.handle_command(PlayerCommand::Loop(OrToggle::Toggle));
    assert_eq!(reply(&o), Some("Loop set to `true`".to_string()));
    assert!(p.flags.looped);
    let o = p.handle_command(PlayerCommand::Loop(OrToggle::Specific(true)));
    assert_eq!(reply(&o), Some("Loop is already `true`".to_string()));
    let o = p.handle_command(PlayerCommand::Loop(OrToggle::Toggle));
    assert_eq!(reply(&o), Some("Loop set to `false`".to_string()));
    assert_eq!(p.flags, PlaybackFlags::new());
}

#[test]
fn pause_without_track() {
    let mut p: PlayerState<u32> = PlayerState::new(PlaybackFlags::new());
    let o = p.handle_command(PlayerCommand::Paused(OrToggle::Toggle));
    assert_eq!(reply(&o), Some("Nothing is playing".to_string()));
    assert!(matches!(o.effect, PlayerEffect::Nothing));
}

#[test]
fn play_remove_and_out_of_range() {
    let mut p: PlayerState<u32> = PlayerState::new(PlaybackFlags::new());
    let o = p.handle_command(PlayerCommand::Play(vec![item("a", Some(10)), item("b", None)]));
    assert_eq!(reply(&o), Some("Added to queue".to_string()));
    assert_eq!(p.queue.len(), 2);
    assert_eq!(p.next_index, 0);
    let o = p.handle_command(PlayerCommand::Remove(5));
    assert_eq!(reply(&o), Some("Index out of range, max is `2`".to_string()));
    let o = p.handle_command(PlayerCommand::Remove(1));
    assert_eq!(reply(&o), Some("Removed `a`".to_string()));
    assert_eq!(p.queue.len(), 1);
    assert_eq!(p.queue[0].meta.title, "b");
}

#[test]
fn other_commands() {
    let mut p: PlayerState<u32> = PlayerState::new(PlaybackFlags::new());
    let o = p.handle_command(PlayerCommand::Skip);
    assert_eq!(reply(&o), Some("Nothing is playing".to_string()));
    let o = p.handle_command(PlayerCommand::SetBitrate(OrAuto::Specific(64000)));
    assert_eq!(reply(&o), Some("Bitrate set to `64000`".to_string()));
    assert_eq!(p.flags.bitrate, OrAuto::Specific(64000));
    let o = p.handle_command(PlayerCommand::UserConnect(42));
    assert_eq!(reply(&o), Some("User `42` connected".to_string()));
    let o = p.handle_command(PlayerCommand::RetrieveLog);
    assert_eq!(reply(&o), Some("Log sent!".to_string()));
    let o = p.handle_command(PlayerCommand::Stop(Some(2500)));
    assert_eq!(reply(&o), Some("Stopped".to_string()));
    assert!(matches!(o.effect, PlayerEffect::Leave { delay_ms: Some(2500) }));
}

#[test]
fn shuffled_play_picks_inside_queue() {
    let mut flags = PlaybackFlags::new();
    flags.shuffle = true;
    let mut p: PlayerState<u32> = PlayerState::new(flags);
    p.handle_command(PlayerCommand::Play(vec![item("a", None), item("b", None), item("c", None)]));
    assert!(p.next_index < 3);
}

#[test]
fn option_or_failed() {
    let mut v: OptionOrFailed<u8> = OptionOrFailed::Present(3);
    assert!(!v.is_failed());
    assert_eq!(v.take(), Some(3));
    assert_eq!(v.take(), None);
    let mut f: OptionOrFailed<u8> = OptionOrFailed::Failed;
    assert!(f.is_failed());
    assert_eq!(f.take(), None);
    assert!(!f.is_failed());
}

#[test]
fn vec25_is_capped() {
    let mut v: Vec25<u32> = Vec25::new();
    for i in 0..30 {
        v.push(i);
    }
    assert_eq!(v.as_slice().len(), 25);
    assert_eq!(v.as_slice()[24], 24);
}

fn radio() -> Root {
    Root {
        station: Station { name: "Planet".to_string() },
        now_playing: NowPlaying {
            song: Song {
                artist: "A".to_string(),
                title: "T".to_string(),
                album: "L".to_string(),
                art: "art".to_string(),
            },
        },
        playing_next: PlayingNext {
            song: Song {
                artist: "B".to_string(),
                title: "U".to_string(),
                album: "M".to_string(),
                art: "art2".to_string(),
            },
        },
    }
}

#[test]
fn idle_embed_mentions_the_station() {
    let mut p: PlayerState<u32> = PlayerState::new(PlaybackFlags::new());
    p.flags.pause = true;
    let r = radio();
    let timing = EmbedTiming { progress: None, total_remaining: 0 };
    let (e, idle) = p.refresh_embed(Some(&r), &timing);
    assert!(idle);
    assert!(!p.flags.pause);
    assert_eq!(
        e.body,
        Some(
            "Queue is empty, use `/add` to play something!\nIn the meantime, enjoy these fine tunes from `Planet`"
                .to_string()
        )
    );
    let d = EmbedData::default_embed();
    assert_eq!(d.author, Some("Invite me to your server!".to_string()));
}

#[test]
fn radio_song_lines() {
    let r = radio();
    assert_eq!(r.now_playing.song.describe(), "T - A on L");
    let a = Author { name: "n".to_string(), pfp_url: "p".to_string() };
    assert_eq!(a.name, "n");
}

#[test]
fn log_pretty_and_get() {
    let mut log = Log::new("test".to_string());
    assert!(log.is_empty());
    log.log("hello\nworld", 1, 500_000_000);
    log.log("second", 0, 250_000_000);
    assert!(!log.is_empty());
    let e = LogString { s: "a\nb".to_string(), secs: 1, nanos: 500_000_000 };
    assert_eq!(e.pretty(), "[1.5s] a[1.5s] b");
    assert_eq!(log.get(), "[1.5s] hello[1.5s] world\n[250ms] second");
}

#[test]
fn log_chunks_and_retrieval() {
    let mut log = Log::new("test".to_string());
    let line = "x".repeat(1500);
    for _ in 0..8 {
        log.log(&line, 0, 0);
    }
    let chunks = log.get_chunks_4k();
    // each shown line is "[0ns] " + 1500 x + "\n" = 1507 bytes; two fit in 4000
    assert_eq!(chunks.len(), 4);
    assert_eq!(chunks[0].end, 2);
    assert_eq!(chunks[3].end, 8);
    assert!(!chunks[0].s.ends_with('\n'));
    assert!(chunks[3].s.ends_with('\n'));
    let sent = log.take_for_retrieval();
    assert_eq!(sent.len(), 4);
    assert!(log.is_empty());
}

#[test]
fn log_retrieval_sends_at_most_five() {
    let mut log = Log::new("test".to_string());
    let line = "y".repeat(3000);
    for _ in 0..9 {
        log.log(&line, 0, 0);
    }
    let chunks = log.get_chunks_4k();
    assert_eq!(chunks.len(), 9);
    assert_eq!(chunks[4].end, 5);
    let sent = log.take_for_retrieval();
    assert_eq!(sent.len(), 5);
    // cleared up to and including entry 5
    assert_eq!(log.entries.len(), 3);
}

#[test]
fn log_clear_until() {
    let mut log = Log::new("t".to_string());
    for i in 0..5 {
        log.log(&format!("m{}", i), 0, 0);
    }
    log.clear_until(1);
    assert_eq!(log.entries.len(), 3);
    assert_eq!(log.entries[0].s, "m2");
    log.clear_until(10);
    assert!(log.is_empty());
}

#[test]
fn log_chunks_fit_in_four_thousand_bytes() {
    let mut log = Log::new("test".to_string());
    for i in 0..40usize {
        let line = "é".repeat(37 * (i % 17) + 5);
        log.log(&line, i as u64, 0);
    }
    let chunks = log.get_chunks_4k();
    assert!(chunks.len() > 1);
    for c in &chunks {
        assert!(c.s.len() <= 4000, "{}", c.s.len());
    }
    let long = "z".repeat(5000);
    let mut big = Log::new("big".to_string());
    big.log("short", 0, 0);
    big.log(&long, 0, 0);
    let chunks = big.get_chunks_4k();
    assert_eq!(chunks.len(), 2);
    assert!(chunks[1].s.len() > 4000);
}
