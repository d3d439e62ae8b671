use vstd::prelude::*;
use crate::rng::random_below;
use crate::text::{bool_text, decimal, decimal_vec, push_bool, push_str, append_chars, signed_decimal, signed_decimal_vec, to_string};

verus! {

/// A boolean request: a given value, or the opposite of the current one.
#[derive(Clone, Copy, Debug, PartialEq, Eq, Structural)]
pub enum OrToggle {
    Specific(bool),
    Toggle,
}

impl OrToggle {
    /// The value this request asks for when the setting is `current`.
    pub open spec fn value_for(self, current: bool) -> bool {
        match self {
            OrToggle::Specific(b) => b,
            OrToggle::Toggle => !current,
        }
    }

    /// The value this request asks for when the setting is `current`.
    pub fn get_val(&self, current: bool) -> (res: bool)
        ensures
            res == self.value_for(current),
    {
        match self {
            OrToggle::Specific(b) => *b,
            OrToggle::Toggle => !current,
        }
    }
}

/// A bitrate: a number of bits per second, or automatic.
#[derive(Clone, Copy, Debug, PartialEq, Eq, Structural)]
pub enum OrAuto {
    Specific(i64),
    Auto,
}

impl OrAuto {
    /// How a bitrate reads in replies: the number, or `Auto`.
    pub open spec fn text(self) -> Seq<char> {
        match self {
            OrAuto::Specific(i) => signed_decimal(i as int),
            OrAuto::Auto => "Auto"@,
        }
    }

    /// How a bitrate reads in replies: the number, or `Auto`.
    pub fn to_text(&self) -> (res: String)
        ensures
            res@ == self.text(),
    {
        match self {
            OrAuto::Specific(i) => {
                let v = signed_decimal_vec(*i);
                to_string(&v)
            },
            OrAuto::Auto => String::from_str("Auto"),
        }
    }

    /// The label of the bitrate button: `Nkbps` from a thousand bits per
    /// second up (whole kilobits, rounded toward zero), else `Nbps`; `Auto`.
    pub open spec fn button_label(self) -> Seq<char> {
        match self {
            OrAuto::Specific(i) => if i >= 1000 {
                decimal((i / 1000) as nat) + "kbps"@
            } else {
                signed_decimal(i as int) + "bps"@
            },
            OrAuto::Auto => "Auto"@,
        }
    }

    /// The label of the bitrate button.
    pub fn label(&self) -> (res: String)
        ensures
            res@ == self.button_label(),
    {
        match self {
            OrAuto::Specific(i) => {
                if *i >= 1000 {
                    let mut v = decimal_vec((*i / 1000) as u64);
                    push_str(&mut v, "kbps");
                    to_string(&v)
                } else {
                    let mut v = signed_decimal_vec(*i);
                    push_str(&mut v, "bps");
                    to_string(&v)
                }
            },
            OrAuto::Auto => String::from_str("Auto"),
        }
    }
}

/// The playback switches of one voice session (volumes are kept beside them).
#[derive(Clone, Copy, Debug, PartialEq, Eq, Structural)]
pub struct PlaybackFlags {
    pub log_empty: bool,
    pub bitrate: OrAuto,
    pub autoplay: bool,
    pub looped: bool,
    pub repeat: bool,
    pub shuffle: bool,
    pub pause: bool,
    pub read_titles: bool,
}

impl PlaybackFlags {
    /// The switches a new session starts with.
    pub fn new() -> (res: Self)
        ensures
            res == (PlaybackFlags {
                log_empty: true,
                bitrate: OrAuto::Auto,
                autoplay: false,
                looped: false,
                repeat: false,
                shuffle: false,
                pause: false,
                read_titles: false,
            }),
    {
        PlaybackFlags {
            log_empty: true,
            bitrate: OrAuto::Auto,
            autoplay: false,
            looped: false,
            repeat: false,
            shuffle: false,
            pause: false,
            read_titles: false,
        }
    }
}

/// Who asked for a track.
#[derive(Clone, Debug)]
pub struct Author {
    pub name: String,
    pub pfp_url: String,
}

/// What the player knows of a track: its title, its length in whole seconds
/// when it has one (none for a live stream), and who asked for it.
#[derive(Clone, Debug)]
pub struct TrackMeta {
    pub title: String,
    pub duration: Option<u64>,
    pub author: Option<Author>,
}

/// A queued track: its metadata and the caller's playback handle for it.
pub struct QueueItem<T> {
    pub meta: TrackMeta,
    pub payload: T,
}

/// A request to the player of a voice session.
pub enum PlayerCommand<T> {
    Play(Vec<QueueItem<T>>),
    Paused(OrToggle),
    Stop(Option<u64>),
    Loop(OrToggle),
    Repeat(OrToggle),
    Shuffle(OrToggle),
    Autoplay(OrToggle),
    ReadTitles(OrToggle),
    SetBitrate(OrAuto),
    Skip,
    Remove(usize),
    RetrieveLog,
    UserConnect(u64),
}

/// What the caller must do after a command, beyond sending the reply.
pub enum PlayerEffect<T> {
    Nothing,
    PauseTrack,
    ResumeTrack,
    /// Stop this track, and the playing handle too when `with_handle`.
    StopCurrent { item: QueueItem<T>, with_handle: bool },
    /// Leave the channel, after waiting `delay_ms` when given.
    Leave { delay_ms: Option<u64> },
    ApplyBitrate(OrAuto),
    CancelDisconnect,
    SendLog,
}

/// The reply to a command (none where the asker hears nothing back) and its effect.
pub struct CommandOutcome<T> {
    pub reply: Option<String>,
    pub effect: PlayerEffect<T>,
}

/// The player's state: switches, queue, where the next track is taken from,
/// the track now playing and whether its handle is live.
pub struct PlayerState<T> {
    pub flags: PlaybackFlags,
    pub queue: Vec<QueueItem<T>>,
    pub next_index: usize,
    pub current: Option<QueueItem<T>>,
    pub has_handle: bool,
}

/// The reply to a switch command: `<label> set to `v`` when it changed,
/// `<label> is already `v`` when it did not.
pub open spec fn toggle_reply(label: Seq<char>, changed: bool, value: bool) -> Seq<char> {
    if changed {
        label + " set to `"@ + bool_text(value) + "`"@
    } else {
        label + " is already `"@ + bool_text(value) + "`"@
    }
}

/// Where a shuffled queue may take its next track from: below the queue
/// length, or one less when the queue loops.
pub open spec fn pick_bound(looped: bool, len: nat) -> int {
    if looped {
        len - 1
    } else {
        len as int
    }
}

/// The next index after enqueueing, for a drawn `pick`.
pub open spec fn next_index_after_play(shuffle: bool, looped: bool, len: nat, pick: int) -> int {
    if shuffle && pick_bound(looped, len) > 0 {
        pick
    } else {
        0
    }
}

/// The reply to `Remove(i)` on a queue of `len` tracks.
pub open spec fn remove_reply(title: Seq<char>) -> Seq<char> {
    "Removed `"@ + title + "`"@
}

pub open spec fn out_of_range_reply(len: nat) -> Seq<char> {
    "Index out of range, max is `"@ + decimal(len) + "`"@
}

pub open spec fn option_text(o: Option<String>) -> Option<Seq<char>> {
    match o {
        Some(s) => Some(s@),
        None => None,
    }
}

fn toggle_text(label: &str, changed: bool, value: bool) -> (res: String)
    ensures
        res@ == toggle_reply(label@, changed, value),
{
    let mut v: Vec<char> = Vec::new();
    push_str(&mut v, label);
    if changed {
        push_str(&mut v, " set to `");
    } else {
        push_str(&mut v, " is already `");
    }
    push_bool(&mut v, value);
    push_str(&mut v, "`");
    assert(v@ =~= toggle_reply(label@, changed, value));
    to_string(&v)
}

/// Applies a switch request: the new value and the reply.
fn apply_toggle(current: bool, req: OrToggle, label: &str) -> (res: (bool, String))
    ensures
        res.0 == req.value_for(current),
        res.1@ == toggle_reply(label@, current != req.value_for(current), req.value_for(current)),
{
    let v = req.get_val(current);
    if current != v {
        (v, toggle_text(label, true, v))
    } else {
        (v, toggle_text(label, false, v))
    }
}

impl<T> PlayerState<T> {
    /// An idle player with an empty queue.
    pub fn new(flags: PlaybackFlags) -> (res: Self)
        ensures
            res.flags == flags,
            res.queue@.len() == 0,
            res.next_index == 0,
            res.current is None,
            !res.has_handle,
    {
        PlayerState { flags, queue: Vec::new(), next_index: 0, current: None, has_handle: false }
    }

    /// Appends `items` to the queue and sets where the next track is taken
    /// from: `pick` when shuffling (and the bound is positive), else the front.
    pub fn enqueue(&mut self, items: Vec<QueueItem<T>>, pick: usize)
        requires
            old(self).flags.shuffle && old(self).flags.looped ==> old(self).queue@.len()
                + items@.len() >= 1,
            old(self).flags.shuffle && pick_bound(
                old(self).flags.looped,
                old(self).queue@.len() + items@.len(),
            ) > 0 ==> pick < pick_bound(
                old(self).flags.looped,
                old(self).queue@.len() + items@.len(),
            ),
        ensures
            final(self).queue@ == old(self).queue@ + items@,
            final(self).next_index == next_index_after_play(
                old(self).flags.shuffle,
                old(self).flags.looped,
                old(self).queue@.len() + items@.len(),
                pick as int,
            ),
            final(self).flags == old(self).flags,
            final(self).current == old(self).current,
            final(self).has_handle == old(self).has_handle,
    {
        let mut items = items;
        self.queue.append(&mut items);
        let len = self.queue.len();
        self.next_index = if self.flags.shuffle {
            let maxnum = if self.flags.looped {
                len - 1
            } else {
                len
            };
            if maxnum > 0 {
                pick
            } else {
                0
            }
        } else {
            0
        };
    }
}


/// The reply text for each switch command.
pub open spec fn switch_label(which: nat) -> Seq<char> {
    if which == 0 {
        "Loop"@
    } else if which == 1 {
        "Repeat"@
    } else if which == 2 {
        "Shuffle"@
    } else if which == 3 {
        "Autoplay"@
    } else {
        "Read titles"@
    }
}

/// The reply to `UserConnect(id)`.
pub open spec fn user_connect_reply(id: u64) -> Seq<char> {
    "User `"@ + decimal(id as nat) + "` connected"@
}

/// The reply to `SetBitrate(b)`.
pub open spec fn bitrate_reply(b: OrAuto) -> Seq<char> {
    "Bitrate set to `"@ + b.text() + "`"@
}

/// The reply to a pause request that changed the state.
pub open spec fn paused_reply(p: bool) -> Seq<char> {
    "Paused set to `"@ + bool_text(p) + "`"@
}

/// Whether a command may be handled: removing is counted from one, a
/// shuffled, looped queue may not be left empty by a play request, and the
/// queue's length must fit in memory.
pub open spec fn command_allowed<T>(s: PlayerState<T>, cmd: PlayerCommand<T>) -> bool {
    match cmd {
        PlayerCommand::Remove(i) => i >= 1,
        PlayerCommand::Play(items) => {
            &&& s.queue@.len() + items@.len() <= usize::MAX
            &&& (s.flags.shuffle && s.flags.looped ==> s.queue@.len() + items@.len() >= 1)
        },
        _ => true,
    }
}

/// The current value of switch `which` (loop, repeat, shuffle, autoplay, read titles).
pub open spec fn switch_value(f: PlaybackFlags, which: nat) -> bool {
    if which == 0 {
        f.looped
    } else if which == 1 {
        f.repeat
    } else if which == 2 {
        f.shuffle
    } else if which == 3 {
        f.autoplay
    } else {
        f.read_titles
    }
}

/// The switches with switch `which` set to `v`.
pub open spec fn with_switch(f: PlaybackFlags, which: nat, v: bool) -> PlaybackFlags {
    if which == 0 {
        PlaybackFlags { looped: v, ..f }
    } else if which == 1 {
        PlaybackFlags { repeat: v, ..f }
    } else if which == 2 {
        PlaybackFlags { shuffle: v, ..f }
    } else if which == 3 {
        PlaybackFlags { autoplay: v, ..f }
    } else {
        PlaybackFlags { read_titles: v, ..f }
    }
}

/// What a switch command does: the state with the switch set, and the reply.
pub open spec fn switch_ensures<T>(
    old_s: PlayerState<T>,
    new_s: PlayerState<T>,
    which: nat,
    req: OrToggle,
    out: CommandOutcome<T>,
) -> bool {
    let cur = switch_value(old_s.flags, which);
    let v = req.value_for(cur);
    &&& new_s == PlayerState { flags: with_switch(old_s.flags, which, v), ..old_s }
    &&& option_text(out.reply) == Some(toggle_reply(switch_label(which), v != cur, v))
    &&& out.effect is Nothing
}

/// What a pause request does.
pub open spec fn pause_ensures<T>(
    old_s: PlayerState<T>,
    new_s: PlayerState<T>,
    req: OrToggle,
    out: CommandOutcome<T>,
) -> bool {
    let v = req.value_for(old_s.flags.pause);
    if !old_s.has_handle {
        &&& new_s == old_s
        &&& option_text(out.reply) == Some("Nothing is playing"@)
        &&& out.effect is Nothing
    } else if v == old_s.flags.pause {
        &&& new_s == old_s
        &&& out.reply is None
        &&& out.effect is Nothing
    } else {
        &&& new_s == PlayerState { flags: PlaybackFlags { pause: v, ..old_s.flags }, ..old_s }
        &&& option_text(out.reply) == Some(paused_reply(v))
        &&& (if v {
            out.effect is PauseTrack
        } else {
            out.effect is ResumeTrack
        })
    }
}

/// What a play request does (the next index is drawn when shuffling).
pub open spec fn play_ensures<T>(
    old_s: PlayerState<T>,
    new_s: PlayerState<T>,
    items: Seq<QueueItem<T>>,
    out: CommandOutcome<T>,
) -> bool {
    &&& new_s.queue@ == old_s.queue@ + items
    &&& new_s.flags == old_s.flags
    &&& new_s.current == old_s.current
    &&& new_s.has_handle == old_s.has_handle
    &&& (new_s.next_index == 0 || (old_s.flags.shuffle && new_s.next_index < pick_bound(
        old_s.flags.looped,
        new_s.queue@.len(),
    )))
    &&& (!old_s.flags.shuffle ==> new_s.next_index == 0)
    &&& option_text(out.reply) == Some("Added to queue"@)
    &&& out.effect is Nothing
}

/// What a skip request does.
pub open spec fn skip_ensures<T>(old_s: PlayerState<T>, new_s: PlayerState<T>, out: CommandOutcome<T>) -> bool {
    &&& new_s.flags == old_s.flags
    &&& new_s.queue == old_s.queue
    &&& new_s.next_index == old_s.next_index
    &&& new_s.current is None
    &&& match old_s.current {
        Some(item) => {
            &&& !new_s.has_handle
            &&& out.reply is None
            &&& out.effect == PlayerEffect::<T>::StopCurrent { item, with_handle: old_s.has_handle }
        },
        None => {
            &&& new_s.has_handle == old_s.has_handle
            &&& option_text(out.reply) == Some("Nothing is playing"@)
            &&& out.effect is Nothing
        },
    }
}

/// What removing track `i` (counted from one) does.
pub open spec fn remove_ensures<T>(old_s: PlayerState<T>, new_s: PlayerState<T>, i: usize, out: CommandOutcome<T>) -> bool {
    &&& new_s.flags == old_s.flags
    &&& new_s.next_index == old_s.next_index
    &&& new_s.current == old_s.current
    &&& new_s.has_handle == old_s.has_handle
    &&& out.effect is Nothing
    &&& if i - 1 < old_s.queue@.len() {
        &&& new_s.queue@ == old_s.queue@.remove(i - 1)
        &&& option_text(out.reply) == Some(remove_reply(old_s.queue@[i - 1].meta.title@))
    } else {
        &&& new_s.queue == old_s.queue
        &&& option_text(out.reply) == Some(out_of_range_reply(old_s.queue@.len()))
    }
}

/// What each command does to the player and what it answers.
pub open spec fn command_ensures<T>(
    old_s: PlayerState<T>,
    new_s: PlayerState<T>,
    cmd: PlayerCommand<T>,
    out: CommandOutcome<T>,
) -> bool {
    match cmd {
        PlayerCommand::Play(items) => play_ensures(old_s, new_s, items@, out),
        PlayerCommand::Stop(delay) => {
            &&& new_s == old_s
            &&& option_text(out.reply) == Some("Stopped"@)
            &&& out.effect == PlayerEffect::<T>::Leave { delay_ms: delay }
        },
        PlayerCommand::Paused(req) => pause_ensures(old_s, new_s, req, out),
        PlayerCommand::Loop(req) => switch_ensures(old_s, new_s, 0, req, out),
        PlayerCommand::Repeat(req) => switch_ensures(old_s, new_s, 1, req, out),
        PlayerCommand::Shuffle(req) => switch_ensures(old_s, new_s, 2, req, out),
        PlayerCommand::Autoplay(req) => switch_ensures(old_s, new_s, 3, req, out),
        PlayerCommand::ReadTitles(req) => switch_ensures(old_s, new_s, 4, req, out),
        PlayerCommand::SetBitrate(b) => {
            &&& new_s == PlayerState { flags: PlaybackFlags { bitrate: b, ..old_s.flags }, ..old_s }
            &&& option_text(out.reply) == Some(bitrate_reply(b))
            &&& out.effect == PlayerEffect::<T>::ApplyBitrate(b)
        },
        PlayerCommand::Skip => skip_ensures(old_s, new_s, out),
        PlayerCommand::Remove(i) => remove_ensures(old_s, new_s, i, out),
        PlayerCommand::RetrieveLog => {
            &&& new_s == old_s
            &&& option_text(out.reply) == Some("Log sent!"@)
            &&& out.effect is SendLog
        },
        PlayerCommand::UserConnect(id) => {
            &&& new_s == old_s
            &&& option_text(out.reply) == Some(user_connect_reply(id))
            &&& out.effect is CancelDisconnect
        },
    }
}

impl<T> PlayerState<T> {
    fn switch_command(&mut self, which: u8, req: OrToggle) -> (out: CommandOutcome<T>)
        requires
            which <= 4,
        ensures
            switch_ensures(*old(self), *final(self), which as nat, req, out),
    {
        let cur = if which == 0 {
            self.flags.looped
        } else if which == 1 {
            self.flags.repeat
        } else if which == 2 {
            self.flags.shuffle
        } else if which == 3 {
            self.flags.autoplay
        } else {
            self.flags.read_titles
        };
        let label = if which == 0 {
            "Loop"
        } else if which == 1 {
            "Repeat"
        } else if which == 2 {
            "Shuffle"
        } else if which == 3 {
            "Autoplay"
        } else {
            "Read titles"
        };
        let (v, r) = apply_toggle(cur, req, label);
        if which == 0 {
            self.flags.looped = v;
        } else if which == 1 {
            self.flags.repeat = v;
        } else if which == 2 {
            self.flags.shuffle = v;
        } else if which == 3 {
            self.flags.autoplay = v;
        } else {
            self.flags.read_titles = v;
        }
        CommandOutcome { reply: Some(r), effect: PlayerEffect::Nothing }
    }

    fn pause_command(&mut self, req: OrToggle) -> (out: CommandOutcome<T>)
        ensures
            pause_ensures(*old(self), *final(self), req, out),
    {
        let v = req.get_val(self.flags.pause);
        if self.has_handle {
            if self.flags.pause != v {
                self.flags.pause = v;
                let mut t: Vec<char> = Vec::new();
                push_str(&mut t, "Paused set to `");
                push_bool(&mut t, v);
                push_str(&mut t, "`");
                assert(t@ =~= paused_reply(v));
                let effect = if v {
                    PlayerEffect::PauseTrack
                } else {
                    PlayerEffect::ResumeTrack
                };
                CommandOutcome { reply: Some(to_string(&t)), effect }
            } else {
                CommandOutcome { reply: None, effect: PlayerEffect::Nothing }
            }
        } else {
            CommandOutcome {
                reply: Some(String::from_str("Nothing is playing")),
                effect: PlayerEffect::Nothing,
            }
        }
    }

    fn play_command(&mut self, items: Vec<QueueItem<T>>) -> (out: CommandOutcome<T>)
        requires
            old(self).queue@.len() + items@.len() <= usize::MAX,
            old(self).flags.shuffle && old(self).flags.looped ==> old(self).queue@.len()
                + items@.len() >= 1,
        ensures
            play_ensures(*old(self), *final(self), items@, out),
    {
        let new_len: usize = self.queue.len() + items.len();
        let mut pick: usize = 0;
        if self.flags.shuffle {
            let bound = if self.flags.looped {
                new_len - 1
            } else {
                new_len
            };
            if bound > 0 {
                pick = random_below(bound);
            }
        }
        self.enqueue(items, pick);
        CommandOutcome { reply: Some(String::from_str("Added to queue")), effect: PlayerEffect::Nothing }
    }

    fn skip_command(&mut self) -> (out: CommandOutcome<T>)
        ensures
            skip_ensures(*old(self), *final(self), out),
    {
        let cur = self.current.take();
        match cur {
            Some(item) => {
                let with_handle = self.has_handle;
                self.has_handle = false;
                CommandOutcome { reply: None, effect: PlayerEffect::StopCurrent { item, with_handle } }
            },
            None => CommandOutcome {
                reply: Some(String::from_str("Nothing is playing")),
                effect: PlayerEffect::Nothing,
            },
        }
    }

    fn remove_command(&mut self, i: usize) -> (out: CommandOutcome<T>)
        requires
            i >= 1,
        ensures
            remove_ensures(*old(self), *final(self), i, out),
    {
        let index = i - 1;
        if index < self.queue.len() {
            let v = self.queue.remove(index);
            let mut t: Vec<char> = Vec::new();
            push_str(&mut t, "Removed `");
            push_str(&mut t, v.meta.title.as_str());
            push_str(&mut t, "`");
            assert(t@ =~= remove_reply(v.meta.title@));
            CommandOutcome { reply: Some(to_string(&t)), effect: PlayerEffect::Nothing }
        } else {
            let mut t: Vec<char> = Vec::new();
            push_str(&mut t, "Index out of range, max is `");
            let d = decimal_vec(self.queue.len() as u64);
            append_chars(&mut t, &d);
            push_str(&mut t, "`");
            assert(t@ =~= out_of_range_reply(self.queue@.len()));
            CommandOutcome { reply: Some(to_string(&t)), effect: PlayerEffect::Nothing }
        }
    }

    /// Handles one command sent to the player: updates the state and says
    /// what to reply and what to do.
    pub fn handle_command(&mut self, cmd: PlayerCommand<T>) -> (out: CommandOutcome<T>)
        requires
            command_allowed(*old(self), cmd),
        ensures
            command_ensures(*old(self), *final(self), cmd, out),
    {
        match cmd {
            PlayerCommand::Play(items) => self.play_command(items),
            PlayerCommand::Stop(delay) => CommandOutcome {
                reply: Some(String::from_str("Stopped")),
                effect: PlayerEffect::Leave { delay_ms: delay },
            },
            PlayerCommand::Paused(req) => self.pause_command(req),
            PlayerCommand::Loop(req) => self.switch_command(0, req),
            PlayerCommand::Repeat(req) => self.switch_command(1, req),
            PlayerCommand::Shuffle(req) => self.switch_command(2, req),
            PlayerCommand::Autoplay(req) => self.switch_command(3, req),
            PlayerCommand::ReadTitles(req) => self.switch_command(4, req),
            PlayerCommand::SetBitrate(b) => {
                self.flags.bitrate = b;
                let mut t: Vec<char> = Vec::new();
                push_str(&mut t, "Bitrate set to `");
                let bt = b.to_text();
                push_str(&mut t, bt.as_str());
                push_str(&mut t, "`");
                assert(t@ =~= bitrate_reply(b));
                CommandOutcome { reply: Some(to_string(&t)), effect: PlayerEffect::ApplyBitrate(b) }
            },
            PlayerCommand::Skip => self.skip_command(),
            PlayerCommand::Remove(i) => self.remove_command(i),
            PlayerCommand::RetrieveLog => CommandOutcome {
                reply: Some(String::from_str("Log sent!")),
                effect: PlayerEffect::SendLog,
            },
            PlayerCommand::UserConnect(id) => {
                let mut t: Vec<char> = Vec::new();
                push_str(&mut t, "User `");
                let d = decimal_vec(id);
                append_chars(&mut t, &d);
                push_str(&mut t, "` connected");
                assert(t@ =~= user_connect_reply(id));
                CommandOutcome { reply: Some(to_string(&t)), effect: PlayerEffect::CancelDisconnect }
            },
        }
    }
}


/// Which audio of a queued track came up: its spoken title or the song.
#[derive(Clone, Copy, Debug, PartialEq, Eq, Structural)]
pub enum AudioKind {
    Song,
    Tts,
}

/// A track event reported by the voice driver.
#[derive(Clone, Copy, Debug, PartialEq, Eq, Structural)]
pub enum TrackEvent {
    SongFinished,
    SongError,
    TtsFinished,
    TtsError,
    TtsBegan,
    SongBegan,
}

/// Where a track of the voice driver stands when it reports.
#[derive(Clone, Copy, Debug, PartialEq, Eq, Structural)]
pub enum PlayState {
    Play,
    Pause,
    Stop,
    End,
    Errored,
}

/// The event a track's report gives, by whether it is a spoken title: ending
/// or being stopped is finishing, an error an error, playing a beginning;
/// a pause gives none.
pub open spec fn track_event_spec(tts: bool, state: PlayState) -> Option<TrackEvent> {
    match state {
        PlayState::End | PlayState::Stop => Some(
            if tts {
                TrackEvent::TtsFinished
            } else {
                TrackEvent::SongFinished
            },
        ),
        PlayState::Errored => Some(
            if tts {
                TrackEvent::TtsError
            } else {
                TrackEvent::SongError
            },
        ),
        PlayState::Play => Some(
            if tts {
                TrackEvent::TtsBegan
            } else {
                TrackEvent::SongBegan
            },
        ),
        PlayState::Pause => None,
    }
}

pub fn track_event_of(tts: bool, state: PlayState) -> (res: Option<TrackEvent>)
    ensures
        res == track_event_spec(tts, state),
{
    match state {
        PlayState::End | PlayState::Stop => Some(
            if tts {
                TrackEvent::TtsFinished
            } else {
                TrackEvent::SongFinished
            },
        ),
        PlayState::Errored => Some(
            if tts {
                TrackEvent::TtsError
            } else {
                TrackEvent::SongError
            },
        ),
        PlayState::Play => Some(
            if tts {
                TrackEvent::TtsBegan
            } else {
                TrackEvent::SongBegan
            },
        ),
        PlayState::Pause => None,
    }
}

/// What to do after a track event.
#[derive(Clone, Copy, Debug, PartialEq, Eq, Structural)]
pub enum TrackFollowUp {
    Nothing,
    /// Fetch the track's next audio, asking for the spoken title when `read_titles`.
    FetchNextAudio { read_titles: bool },
}

/// What fetching a track's next audio gave.
#[derive(Clone, Copy, Debug, PartialEq, Eq, Structural)]
pub enum NextAudio {
    Got(AudioKind),
    Exhausted,
    Failed,
}

/// Who else is in the voice channel.
#[derive(Clone, Copy, Debug, PartialEq, Eq, Structural)]
pub enum Presence {
    TooManyBots,
    UsersPresent,
    Alone,
}

/// Sorts the other members of the channel: any other bot, else any user, else alone.
pub fn presence(bots: usize, users: usize) -> (res: Presence)
    ensures
        res == (if bots > 0 {
            Presence::TooManyBots
        } else if users > 0 {
            Presence::UsersPresent
        } else {
            Presence::Alone
        }),
{
    if bots > 0 {
        Presence::TooManyBots
    } else if users > 0 {
        Presence::UsersPresent
    } else {
        Presence::Alone
    }
}

impl Presence {
    /// Whether the bot leaves: it stays only while users are present.
    pub fn leaves(&self) -> (res: bool)
        ensures
            res == !(*self is UsersPresent),
    {
        match self {
            Presence::UsersPresent => false,
            _ => true,
        }
    }

    /// The log line for this presence.
    pub fn log_line(&self) -> (res: &'static str)
        ensures
            res@ == (match *self {
                Presence::TooManyBots => "Too many bots, leaving immediately"@,
                Presence::UsersPresent => "Users are still here, staying"@,
                Presence::Alone => "Bot is alone, leaving"@,
            }),
    {
        match self {
            Presence::TooManyBots => "Too many bots, leaving immediately",
            Presence::UsersPresent => "Users are still here, staying",
            Presence::Alone => "Bot is alone, leaving",
        }
    }
}

/// The channel to move the queue message to after the driver connected to
/// `reported`, when that differs from `current`.
pub fn channel_update(current: u64, reported: Option<u64>) -> (res: Option<u64>)
    ensures
        res == (match reported {
            Some(c) => if c != current {
                Some(c)
            } else {
                None
            },
            None => None,
        }),
{
    match reported {
        Some(c) => if c != current {
            Some(c)
        } else {
            None
        },
        None => None,
    }
}

/// Whether audio of this kind is played when it comes up: songs always,
/// spoken titles only when titles are read.
pub fn plays_audio(kind: AudioKind, read_titles: bool) -> (res: bool)
    ensures
        res == (kind is Song || read_titles),
{
    match kind {
        AudioKind::Song => true,
        AudioKind::Tts => read_titles,
    }
}

impl<T> PlayerState<T> {
    /// Takes the track to start when nothing is playing and the queue is not
    /// empty: the one at the next index, if the index lies inside the queue.
    pub fn take_next(&mut self) -> (res: Option<QueueItem<T>>)
        ensures
            ({
                let o = *old(self);
                if o.current is None && o.queue@.len() > 0 && o.next_index < o.queue@.len() {
                    &&& res == Some(o.queue@[o.next_index as int])
                    &&& *final(self) == (PlayerState { queue: final(self).queue, ..o })
                    &&& final(self).queue@ == o.queue@.remove(o.next_index as int)
                } else {
                    &&& res is None
                    &&& *final(self) == o
                }
            }),
    {
        if self.current.is_none() && self.queue.len() > 0 && self.next_index < self.queue.len() {
            let item = self.queue.remove(self.next_index);
            Some(item)
        } else {
            None
        }
    }

    /// Whether the first audio fetched for a track that starts is its spoken
    /// title: asked for exactly when titles are not read.
    pub fn title_first_on_start(&self) -> (res: bool)
        ensures
            res == !self.flags.read_titles,
    {
        !self.flags.read_titles
    }

    /// Records that `item` started playing.
    pub fn track_playing(&mut self, item: QueueItem<T>)
        ensures
            *final(self) == (PlayerState { current: Some(item), has_handle: true, ..*old(self) }),
    {
        self.current = Some(item);
        self.has_handle = true;
    }

    /// Forgets the current track (its handle, if any, stays).
    pub fn drop_current(&mut self) -> (res: Option<QueueItem<T>>)
        ensures
            res == old(self).current,
            *final(self) == (PlayerState { current: None, ..*old(self) }),
    {
        self.current.take()
    }

    /// Reacts to a track event: a song that ended or failed is forgotten; a
    /// spoken title that ended or failed asks for the track's next audio.
    pub fn on_track_event(&mut self, ev: TrackEvent) -> (res: TrackFollowUp)
        ensures
            match ev {
                TrackEvent::SongFinished | TrackEvent::SongError => {
                    &&& *final(self) == (PlayerState { current: None, ..*old(self) })
                    &&& res == TrackFollowUp::Nothing
                },
                TrackEvent::TtsFinished | TrackEvent::TtsError => {
                    &&& *final(self) == *old(self)
                    &&& res == TrackFollowUp::FetchNextAudio { read_titles: old(self).flags.read_titles }
                },
                _ => {
                    &&& *final(self) == *old(self)
                    &&& res == TrackFollowUp::Nothing
                },
            },
    {
        match ev {
            TrackEvent::SongFinished | TrackEvent::SongError => {
                self.current = None;
                TrackFollowUp::Nothing
            },
            TrackEvent::TtsFinished | TrackEvent::TtsError => TrackFollowUp::FetchNextAudio {
                read_titles: self.flags.read_titles,
            },
            _ => TrackFollowUp::Nothing,
        }
    }

    /// After a spoken title ended and the next audio was fetched: whether to
    /// play it. When nothing came, or the fetch failed, the track is forgotten.
    pub fn after_title(&mut self, next: NextAudio) -> (res: bool)
        ensures
            match next {
                NextAudio::Got(kind) => {
                    &&& *final(self) == *old(self)
                    &&& res == (kind is Song || old(self).flags.read_titles)
                },
                _ => {
                    &&& *final(self) == (PlayerState { current: None, ..*old(self) })
                    &&& !res
                },
            },
    {
        match next {
            NextAudio::Got(kind) => plays_audio(kind, self.flags.read_titles),
            _ => {
                self.current = None;
                false
            },
        }
    }
}
/// A value that is there, not there yet, or could not be had.
pub enum OptionOrFailed<T> {
    Present(T),
    Absent,
    Failed,
}

impl<T> OptionOrFailed<T> {
    /// Whether getting the value failed.
    pub fn is_failed(&self) -> (res: bool)
        ensures
            res == (*self is Failed),
    {
        match self {
            OptionOrFailed::Failed => true,
            _ => false,
        }
    }

    /// Takes the value out, leaving `Absent` behind; a failure is forgotten too.
    pub fn take(&mut self) -> (res: Option<T>)
        ensures
            *final(self) is Absent,
            match *old(self) {
                OptionOrFailed::Present(t) => res == Some(t),
                _ => res is None,
            },
    {
        let mut val = OptionOrFailed::Absent;
        std::mem::swap(self, &mut val);
        match val {
            OptionOrFailed::Present(t) => Some(t),
            _ => None,
        }
    }
}

} // verus!
