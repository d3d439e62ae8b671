use vstd::prelude::*;
use crate::duration::{friendly_duration, friendly_text};
use crate::media::MediaType;
use crate::player::{OrAuto, OrToggle, PlaybackFlags, PlayerCommand};
use crate::numbers::same_chars;
use crate::text::{chars_of, push_str, to_string};

verus! {

/// The value a user gave for one option of a slash command.
pub enum OptionValue {
    Text(String),
    Integer(i64),
    Boolean(bool),
    /// Any other kind of value.
    Other,
}

/// One option of a slash command, by name.
pub struct CommandOption {
    pub name: String,
    pub value: OptionValue,
}

/// The index of the first option named `name`.
pub open spec fn first_named(opts: Seq<CommandOption>, name: Seq<char>) -> Option<int>
    decreases opts.len(),
{
    if opts.len() == 0 {
        None
    } else {
        match first_named(opts.drop_last(), name) {
            Some(i) => Some(i),
            None => if opts.last().name@ == name {
                Some(opts.len() - 1)
            } else {
                None
            },
        }
    }
}

proof fn lemma_first_named_bound(opts: Seq<CommandOption>, name: Seq<char>)
    ensures
        first_named(opts, name) matches Some(i) ==> 0 <= i < opts.len() && opts[i].name@ == name,
    decreases opts.len(),
{
    if opts.len() > 0 {
        lemma_first_named_bound(opts.drop_last(), name);
    }
}

fn same_name(a: &String, b: &str) -> (res: bool)
    ensures
        res == (a@ == b@),
{
    same_chars(&chars_of(a.as_str()), b)
}

/// The index of the first option named `name`.
pub fn find_option(opts: &Vec<CommandOption>, name: &str) -> (res: Option<usize>)
    ensures
        match first_named(opts@, name@) {
            Some(i) => res matches Some(r) && r as int == i,
            None => res is None,
        },
        res matches Some(r) ==> r < opts@.len(),
{
    let mut i: usize = 0;
    while i < opts.len()
        invariant
            i <= opts@.len(),
            first_named(opts@.take(i as int), name@) is None,
        decreases opts@.len() - i,
    {
        assert(opts@.take(i + 1).drop_last() =~= opts@.take(i as int));
        if same_name(&opts[i].name, name) {
            assert(first_named(opts@.take(i + 1), name@) == Some(i as int));
            proof {
                lemma_prefix_keeps_first(opts@, name@, i + 1);
            }
            return Some(i);
        }
        i += 1;
    }
    assert(opts@.take(i as int) =~= opts@);
    None
}

proof fn lemma_prefix_keeps_first(opts: Seq<CommandOption>, name: Seq<char>, n: int)
    requires
        0 <= n <= opts.len(),
        first_named(opts.take(n), name) is Some,
    ensures
        first_named(opts, name) == first_named(opts.take(n), name),
    decreases opts.len() - n,
{
    if n < opts.len() {
        assert(opts.take(n + 1).drop_last() =~= opts.take(n));
        lemma_prefix_keeps_first(opts, name, n + 1);
    } else {
        assert(opts.take(n) =~= opts);
    }
}

/// The bitrate a `/setbitrate` asks for: the given number; automatic where
/// the option is left out; an error where it is no number.
pub open spec fn bitrate_request(opts: Seq<CommandOption>) -> Option<OrAuto> {
    match first_named(opts, "bitrate"@) {
        None => Some(OrAuto::Auto),
        Some(i) => match opts[i].value {
            OptionValue::Integer(n) => Some(OrAuto::Specific(n)),
            _ => None,
        },
    }
}

pub fn bitrate_option(opts: &Vec<CommandOption>) -> (res: Option<OrAuto>)
    ensures
        res == bitrate_request(opts@),
{
    proof {
        lemma_first_named_bound(opts@, "bitrate"@);
    }
    match find_option(opts, "bitrate") {
        None => Some(OrAuto::Auto),
        Some(i) => match &opts[i].value {
            OptionValue::Integer(n) => Some(OrAuto::Specific(*n)),
            _ => None,
        },
    }
}

/// The queue position a `/remove` asks for, where the option is a number.
pub open spec fn remove_request(opts: Seq<CommandOption>) -> Option<i64> {
    match first_named(opts, "index"@) {
        None => None,
        Some(i) => match opts[i].value {
            OptionValue::Integer(n) => Some(n),
            _ => None,
        },
    }
}

pub fn remove_option(opts: &Vec<CommandOption>) -> (res: Option<i64>)
    ensures
        res == remove_request(opts@),
{
    proof {
        lemma_first_named_bound(opts@, "index"@);
    }
    match find_option(opts, "index") {
        None => None,
        Some(i) => match &opts[i].value {
            OptionValue::Integer(n) => Some(*n),
            _ => None,
        },
    }
}

/// What `/embed` is asked to fetch: the first of `audio_url` and
/// `video_url` given, as sound or film; `None` where it holds no text.
pub open spec fn media_request(opts: Seq<CommandOption>) -> Option<(Seq<char>, MediaType)> {
    let a = first_named(opts, "audio_url"@);
    let v = first_named(opts, "video_url"@);
    let pick: Option<(int, MediaType)> = match (a, v) {
        (Some(i), Some(j)) => if i < j {
            Some((i, MediaType::Audio))
        } else {
            Some((j, MediaType::Video))
        },
        (Some(i), None) => Some((i, MediaType::Audio)),
        (None, Some(j)) => Some((j, MediaType::Video)),
        (None, None) => None,
    };
    match pick {
        None => None,
        Some(p) => match opts[p.0].value {
            OptionValue::Text(s) => Some((s@, p.1)),
            _ => None,
        },
    }
}

pub fn media_option(opts: &Vec<CommandOption>) -> (res: Option<(String, MediaType)>)
    ensures
        match media_request(opts@) {
            Some(r) => res matches Some(x) && x.0@ == r.0 && x.1 == r.1,
            None => res is None,
        },
{
    proof {
        lemma_first_named_bound(opts@, "audio_url"@);
        lemma_first_named_bound(opts@, "video_url"@);
    }
    let a = find_option(opts, "audio_url");
    let v = find_option(opts, "video_url");
    let pick: Option<(usize, MediaType)> = match (a, v) {
        (Some(i), Some(j)) => if i < j {
            Some((i, MediaType::Audio))
        } else {
            Some((j, MediaType::Video))
        },
        (Some(i), None) => Some((i, MediaType::Audio)),
        (None, Some(j)) => Some((j, MediaType::Video)),
        (None, None) => None,
    };
    match pick {
        None => None,
        Some((k, m)) => match &opts[k].value {
            OptionValue::Text(s) => Some((s.clone(), m)),
            _ => None,
        },
    }
}

/// Whether `/embed` hides its result: the `spoiler` option where it is a
/// boolean, else no.
pub open spec fn spoiler_request(opts: Seq<CommandOption>) -> bool {
    match first_named(opts, "spoiler"@) {
        Some(i) => match opts[i].value {
            OptionValue::Boolean(b) => b,
            _ => false,
        },
        None => false,
    }
}

pub fn spoiler_option(opts: &Vec<CommandOption>) -> (res: bool)
    ensures
        res == spoiler_request(opts@),
{
    proof {
        lemma_first_named_bound(opts@, "spoiler"@);
    }
    match find_option(opts, "spoiler") {
        Some(i) => match &opts[i].value {
            OptionValue::Boolean(b) => *b,
            _ => false,
        },
        None => false,
    }
}

/// Where the bot and the user are, as far as voice goes.
#[derive(Clone, Copy, Debug, PartialEq, Eq, Structural)]
pub enum VoiceAction {
    /// The user is in no voice channel.
    UserNotConnected,
    /// The bot is in another voice channel.
    InDifferent(u64),
    /// The bot is in the user's voice channel.
    InSame(u64),
    /// The bot is in no voice channel; the user is in this one.
    Join(u64),
}

/// What a command that needs the bot beside the user answers otherwise.
pub open spec fn same_channel_refusal(a: VoiceAction) -> Option<Seq<char>> {
    match a {
        VoiceAction::UserNotConnected => Some("You're not in a voice channel"@),
        VoiceAction::InDifferent(_) => Some("I'm in a different voice channel"@),
        VoiceAction::Join(_) => Some("I'm not in a channel, if you want me to join use /join or /play"@),
        VoiceAction::InSame(_) => None,
    }
}

/// The channel to send a command to, or the reply that refuses it.
pub fn require_same_channel(a: VoiceAction) -> (res: Result<u64, String>)
    ensures
        match same_channel_refusal(a) {
            Some(t) => res matches Err(e) && e@ == t,
            None => a matches VoiceAction::InSame(c) && res == Ok::<u64, String>(c),
        },
{
    match a {
        VoiceAction::UserNotConnected => Err(to_string(&chars_of("You're not in a voice channel"))),
        VoiceAction::InDifferent(_) => Err(to_string(&chars_of("I'm in a different voice channel"))),
        VoiceAction::Join(_) => Err(
            to_string(&chars_of("I'm not in a channel, if you want me to join use /join or /play")),
        ),
        VoiceAction::InSame(c) => Ok(c),
    }
}

/// What a command that may bring the bot in does: refuse, join this
/// channel first, or go on in it.
pub enum JoinStep {
    Refuse(String),
    JoinFirst(u64),
    Proceed(u64),
}

pub fn join_step(a: VoiceAction) -> (res: JoinStep)
    ensures
        a == VoiceAction::UserNotConnected ==> (res matches JoinStep::Refuse(t) && t@
            == "You're not in a voice channel"@),
        a is InDifferent ==> (res matches JoinStep::Refuse(t) && t@
            == "I'm in a different voice channel"@),
        a matches VoiceAction::Join(c) ==> res == JoinStep::JoinFirst(c),
        a matches VoiceAction::InSame(c) ==> res == JoinStep::Proceed(c),
{
    match a {
        VoiceAction::UserNotConnected => JoinStep::Refuse(
            to_string(&chars_of("You're not in a voice channel")),
        ),
        VoiceAction::InDifferent(_) => JoinStep::Refuse(
            to_string(&chars_of("I'm in a different voice channel")),
        ),
        VoiceAction::Join(c) => JoinStep::JoinFirst(c),
        VoiceAction::InSame(c) => JoinStep::Proceed(c),
    }
}

/// Where `/join` finds the satellite bots, as far as voice goes.
pub enum SatelliteAction {
    /// The user is in no voice channel.
    UserNotConnected,
    /// A satellite is in the user's voice channel already.
    SatelliteInVcWithUser(u64),
    /// A free satellite is to join this channel.
    SatelliteShouldJoin(u64),
    /// No satellite is free, and none is left to invite.
    NoRemaining,
    /// No satellite is free; this link invites another.
    InviteSatellite(String),
}

pub open spec fn no_satellites_text() -> Seq<char> {
    "No satellites available to join, use /feedback to request more (and dont forget to donate if you can! :D)"@
}

pub open spec fn invite_satellite_text(link: Seq<char>) -> Seq<char> {
    "There are no satellites available, [use this link to invite one]("@ + link
        + ")\nPlease ensure that all satellites have permission to view the voice channel you're in."@
}

/// What `/join` does for each place the satellites stand: refuse with its
/// reply, or have a satellite join the channel.
pub fn satellite_step(a: SatelliteAction) -> (res: JoinStep)
    ensures
        a is UserNotConnected ==> (res matches JoinStep::Refuse(t) && t@
            == "You're not in a voice channel"@),
        a is SatelliteInVcWithUser ==> (res matches JoinStep::Refuse(t) && t@
            == "A satellite is already in a voice channel with you"@),
        a matches SatelliteAction::SatelliteShouldJoin(c) ==> res == JoinStep::JoinFirst(c),
        a is NoRemaining ==> (res matches JoinStep::Refuse(t) && t@ == no_satellites_text()),
        a matches SatelliteAction::InviteSatellite(link) ==> (res matches JoinStep::Refuse(t) && t@
            == invite_satellite_text(link@)),
{
    match a {
        SatelliteAction::UserNotConnected => JoinStep::Refuse(
            to_string(&chars_of("You're not in a voice channel")),
        ),
        SatelliteAction::SatelliteInVcWithUser(_) => JoinStep::Refuse(
            to_string(&chars_of("A satellite is already in a voice channel with you")),
        ),
        SatelliteAction::SatelliteShouldJoin(c) => JoinStep::JoinFirst(c),
        SatelliteAction::NoRemaining => JoinStep::Refuse(
            to_string(
                &chars_of(
                    "No satellites available to join, use /feedback to request more (and dont forget to donate if you can! :D)",
                ),
            ),
        ),
        SatelliteAction::InviteSatellite(link) => {
            let mut t = chars_of("There are no satellites available, [use this link to invite one](");
            push_str(&mut t, link.as_str());
            push_str(
                &mut t,
                ")\nPlease ensure that all satellites have permission to view the voice channel you're in.",
            );
            JoinStep::Refuse(to_string(&t))
        },
    }
}

/// Who may change a guild's settings: only a member of the guild who may
/// manage it.
pub open spec fn config_refusal(in_guild: bool, manages_guild: bool) -> Option<Seq<char>> {
    if !in_guild {
        Some("This command can only be run in a guild"@)
    } else if !manages_guild {
        Some("You do not have permission to run this command"@)
    } else {
        None
    }
}

/// Whether `/config` may run, or the reply that refuses it.
pub fn config_gate(in_guild: bool, manages_guild: bool) -> (res: Result<(), String>)
    ensures
        match config_refusal(in_guild, manages_guild) {
            Some(t) => res matches Err(e) && e@ == t,
            None => res is Ok,
        },
{
    if !in_guild {
        Err(to_string(&chars_of("This command can only be run in a guild")))
    } else if !manages_guild {
        Err(to_string(&chars_of("You do not have permission to run this command")))
    } else {
        Ok(())
    }
}

/// What `/config empty_channel_timeout` answers and the timeout it leaves,
/// in seconds: the current one shown when none is given, else the new one
/// set and shown.
pub fn timeout_setting(current_secs: u64, new_secs: Option<u64>) -> (res: (String, u64))
    ensures
        match new_secs {
            None => res.1 == current_secs && res.0@ == "The current timeout is "@
                + friendly_text(current_secs as nat),
            Some(t) => res.1 == t && res.0@ == "The new timeout is "@ + friendly_text(t as nat),
        },
{
    match new_secs {
        None => {
            let mut v = chars_of("The current timeout is ");
            push_str(&mut v, friendly_duration(current_secs).as_str());
            (to_string(&v), current_secs)
        },
        Some(t) => {
            let mut v = chars_of("The new timeout is ");
            push_str(&mut v, friendly_duration(t).as_str());
            (to_string(&v), t)
        },
    }
}

/// What `/consent` answers for a user whose consent stands at `current`
/// asking for `requested`.
pub open spec fn consent_text(current: bool, requested: bool) -> Seq<char> {
    if current == requested {
        "This is already your current consent status."@
    } else if requested {
        "You have granted consent for Neon Circle to process audio data sent from your microphone."@
    } else {
        "You have revoked consent for Neon Circle to process audio data sent from your microphone."@
    }
}

/// The reply to `/consent` and the consent stored afterwards: the one asked for.
pub fn consent_reply(current: bool, requested: bool) -> (res: (String, bool))
    ensures
        res.0@ == consent_text(current, requested),
        res.1 == requested,
{
    let t = if current == requested {
        "This is already your current consent status."
    } else if requested {
        "You have granted consent for Neon Circle to process audio data sent from your microphone."
    } else {
        "You have revoked consent for Neon Circle to process audio data sent from your microphone."
    };
    (to_string(&chars_of(t)), requested)
}

/// Where the bot stands towards a user pressing a control of the panel.
#[derive(Clone, Copy, Debug, PartialEq, Eq, Structural)]
pub enum PanelVoice {
    /// A bot of the fleet is in the user's voice channel, with this panel channel.
    WithUser(u64),
    /// The user is in no voice channel.
    UserNotConnected,
    /// Anything else.
    Elsewhere,
}

/// The switches of the control panel.
#[derive(Clone, Copy, Debug, PartialEq, Eq, Structural)]
pub enum PanelToggle {
    Pause,
    Skip,
    Stop,
    Looped,
    Shuffle,
    Repeat,
    Autoplay,
    ReadTitles,
}

/// What pressing a control of the panel leads to.
pub enum PanelAction {
    /// Answer privately with this text.
    Reply(String),
    /// Acknowledge and do nothing else.
    Acknowledge,
    /// Send this switch to the player, then acknowledge.
    Toggle(PanelToggle),
    /// Ask for a volume in a form with this id and title.
    VolumeForm(String, String),
    /// Ask for a bitrate in a form.
    BitrateForm,
    /// Ask the player for its log and show it.
    ShowLog,
    /// Ask the user how this unknown control should work.
    FeedbackForm(String),
}

pub open spec fn toggle_named(id: Seq<char>) -> Option<PanelToggle> {
    if id == "pause"@ {
        Some(PanelToggle::Pause)
    } else if id == "skip"@ {
        Some(PanelToggle::Skip)
    } else if id == "stop"@ {
        Some(PanelToggle::Stop)
    } else if id == "looped"@ {
        Some(PanelToggle::Looped)
    } else if id == "shuffle"@ {
        Some(PanelToggle::Shuffle)
    } else if id == "repeat"@ {
        Some(PanelToggle::Repeat)
    } else if id == "autoplay"@ {
        Some(PanelToggle::Autoplay)
    } else if id == "read_titles"@ {
        Some(PanelToggle::ReadTitles)
    } else {
        None
    }
}

/// The question a form asks about an unknown control.
pub open spec fn feedback_question(id: Seq<char>) -> Seq<char> {
    "How should clicking `"@ + id + "` work?"@
}

/// What a press of the control `id` on the panel in channel `panel` leads to.
pub enum PanelView {
    Reply(Seq<char>),
    Acknowledge,
    Toggle(PanelToggle),
    VolumeForm(Seq<char>, Seq<char>),
    BitrateForm,
    ShowLog,
    FeedbackForm(Seq<char>),
}

pub open spec fn panel_view(a: PanelAction) -> PanelView {
    match a {
        PanelAction::Reply(t) => PanelView::Reply(t@),
        PanelAction::Acknowledge => PanelView::Acknowledge,
        PanelAction::Toggle(t) => PanelView::Toggle(t),
        PanelAction::VolumeForm(i, t) => PanelView::VolumeForm(i@, t@),
        PanelAction::BitrateForm => PanelView::BitrateForm,
        PanelAction::ShowLog => PanelView::ShowLog,
        PanelAction::FeedbackForm(q) => PanelView::FeedbackForm(q@),
    }
}

/// What a press on the control panel leads to: only in a server; a user
/// with no voice channel is invited in; where the bot is elsewhere, a
/// picture answers; a press on another panel than the user's is refused;
/// then by the control's id.
pub open spec fn panel_outcome(
    in_server: bool,
    voice: PanelVoice,
    panel: u64,
    id: Seq<char>,
) -> PanelView {
    if !in_server {
        PanelView::Reply("This can only be used in a server"@)
    } else {
        match voice {
            PanelVoice::UserNotConnected => PanelView::Reply("Get on in here, enjoy the tunes!"@),
            PanelVoice::Elsewhere => PanelView::Reply(
                "https://zip.p51.nl/u/2784372e-21fa-4402-ad2f-0ee1cb719d0a.png"@,
            ),
            PanelVoice::WithUser(c) => if c != panel {
                PanelView::Reply("Wrong control panel, silly!"@)
            } else if id == "controls"@ {
                PanelView::Acknowledge
            } else {
                match toggle_named(id) {
                    Some(t) => PanelView::Toggle(t),
                    None => if id == "volume"@ {
                        PanelView::VolumeForm("volume"@, "Volume"@)
                    } else if id == "radiovolume"@ {
                        PanelView::VolumeForm("radiovolume"@, "Radio Volume"@)
                    } else if id == "bitrate"@ {
                        PanelView::BitrateForm
                    } else if id == "log"@ {
                        PanelView::ShowLog
                    } else {
                        PanelView::FeedbackForm(feedback_question(id))
                    },
                }
            },
        }
    }
}

fn reply_text(s: &str) -> (res: PanelAction)
    ensures
        panel_view(res) == PanelView::Reply(s@),
{
    PanelAction::Reply(to_string(&chars_of(s)))
}

fn toggle_of(id: &Vec<char>) -> (res: Option<PanelToggle>)
    ensures
        res == toggle_named(id@),
{
    if same_chars(id, "pause") {
        Some(PanelToggle::Pause)
    } else if same_chars(id, "skip") {
        Some(PanelToggle::Skip)
    } else if same_chars(id, "stop") {
        Some(PanelToggle::Stop)
    } else if same_chars(id, "looped") {
        Some(PanelToggle::Looped)
    } else if same_chars(id, "shuffle") {
        Some(PanelToggle::Shuffle)
    } else if same_chars(id, "repeat") {
        Some(PanelToggle::Repeat)
    } else if same_chars(id, "autoplay") {
        Some(PanelToggle::Autoplay)
    } else if same_chars(id, "read_titles") {
        Some(PanelToggle::ReadTitles)
    } else {
        None
    }
}

/// Decides what a press on the control panel leads to.
pub fn panel_action(in_server: bool, voice: PanelVoice, panel: u64, id: &str) -> (res: PanelAction)
    ensures
        panel_view(res) == panel_outcome(in_server, voice, panel, id@),
{
    if !in_server {
        return reply_text("This can only be used in a server");
    }
    match voice {
        PanelVoice::UserNotConnected => reply_text("Get on in here, enjoy the tunes!"),
        PanelVoice::Elsewhere => reply_text(
            "https://zip.p51.nl/u/2784372e-21fa-4402-ad2f-0ee1cb719d0a.png",
        ),
        PanelVoice::WithUser(c) => {
            if c != panel {
                return reply_text("Wrong control panel, silly!");
            }
            let v = chars_of(id);
            if same_chars(&v, "controls") {
                return PanelAction::Acknowledge;
            }
            match toggle_of(&v) {
                Some(t) => PanelAction::Toggle(t),
                None => if same_chars(&v, "volume") {
                    PanelAction::VolumeForm(
                        to_string(&chars_of("volume")),
                        to_string(&chars_of("Volume")),
                    )
                } else if same_chars(&v, "radiovolume") {
                    PanelAction::VolumeForm(
                        to_string(&chars_of("radiovolume")),
                        to_string(&chars_of("Radio Volume")),
                    )
                } else if same_chars(&v, "bitrate") {
                    PanelAction::BitrateForm
                } else if same_chars(&v, "log") {
                    PanelAction::ShowLog
                } else {
                    let mut q = chars_of("How should clicking `");
                    push_str(&mut q, id);
                    push_str(&mut q, "` work?");
                    PanelAction::FeedbackForm(to_string(&q))
                },
            }
        },
    }
}

/// The player command a switch of the panel sends (`None` for a stop
/// without delay is `Stop(None)`).
pub fn toggle_command<T>(t: PanelToggle) -> (res: PlayerCommand<T>)
    ensures
        t == PanelToggle::Pause ==> res == PlayerCommand::<T>::Paused(OrToggle::Toggle),
        t == PanelToggle::Skip ==> res == PlayerCommand::<T>::Skip,
        t == PanelToggle::Stop ==> res == PlayerCommand::<T>::Stop(None),
        t == PanelToggle::Looped ==> res == PlayerCommand::<T>::Loop(OrToggle::Toggle),
        t == PanelToggle::Shuffle ==> res == PlayerCommand::<T>::Shuffle(OrToggle::Toggle),
        t == PanelToggle::Repeat ==> res == PlayerCommand::<T>::Repeat(OrToggle::Toggle),
        t == PanelToggle::Autoplay ==> res == PlayerCommand::<T>::Autoplay(OrToggle::Toggle),
        t == PanelToggle::ReadTitles ==> res == PlayerCommand::<T>::ReadTitles(OrToggle::Toggle),
{
    match t {
        PanelToggle::Pause => PlayerCommand::Paused(OrToggle::Toggle),
        PanelToggle::Skip => PlayerCommand::Skip,
        PanelToggle::Stop => PlayerCommand::Stop(None),
        PanelToggle::Looped => PlayerCommand::Loop(OrToggle::Toggle),
        PanelToggle::Shuffle => PlayerCommand::Shuffle(OrToggle::Toggle),
        PanelToggle::Repeat => PlayerCommand::Repeat(OrToggle::Toggle),
        PanelToggle::Autoplay => PlayerCommand::Autoplay(OrToggle::Toggle),
        PanelToggle::ReadTitles => PlayerCommand::ReadTitles(OrToggle::Toggle),
    }
}

/// The message that carries a user's answer to the developer.
pub open spec fn feedback_message(control: Seq<char>, answer: Seq<char>) -> Seq<char> {
    "User thinks `"@ + control + "` should\n```\n"@ + answer + "```"@
}

pub fn feedback_text(control: &str, answer: &str) -> (res: String)
    ensures
        res@ == feedback_message(control@, answer@),
{
    let mut v = chars_of("User thinks `");
    push_str(&mut v, control);
    push_str(&mut v, "` should\n```\n");
    push_str(&mut v, answer);
    push_str(&mut v, "```");
    to_string(&v)
}

/// The reply to a user's answer: thanks, and where it could not reach the
/// developer, how to send it and a copy of it.
pub open spec fn feedback_reply(delivered: bool, feedback: Seq<char>) -> Seq<char> {
    if delivered {
        "Thanks for the feedback!"@
    } else {
        "Thanks for the feedback!"@ + "Unfortunately, I failed to send your feedback to the developer."@
            + "\n"@ + "If you're able to, be sure to send it to him yourself!"@ + "\n"@
            + "He's <@156533151198478336> (monkey_d._issy)\n\nHere's a copy if you need it."@
            + "\n"@ + feedback
    }
}

pub fn feedback_reply_text(delivered: bool, feedback: &str) -> (res: String)
    ensures
        res@ == feedback_reply(delivered, feedback@),
{
    let mut v = chars_of("Thanks for the feedback!");
    if !delivered {
        push_str(&mut v, "Unfortunately, I failed to send your feedback to the developer.");
        push_str(&mut v, "\n");
        push_str(&mut v, "If you're able to, be sure to send it to him yourself!");
        push_str(&mut v, "\n");
        push_str(&mut v, "He's <@156533151198478336> (monkey_d._issy)\n\nHere's a copy if you need it.");
        push_str(&mut v, "\n");
        push_str(&mut v, feedback);
    }
    to_string(&v)
}

/// How a button of the control panel is coloured.
#[derive(Clone, Copy, Debug, PartialEq, Eq, Structural)]
pub enum ButtonStyle {
    Primary,
    Secondary,
    Success,
    Danger,
}

/// A button of the control panel: its id, colour, label and whether it is
/// greyed out.
pub struct PanelButton {
    pub id: String,
    pub style: ButtonStyle,
    pub label: String,
    pub disabled: bool,
}

pub type ButtonView = (Seq<char>, ButtonStyle, Seq<char>, bool);

pub open spec fn button_view(b: PanelButton) -> ButtonView {
    (b.id@, b.style, b.label@, b.disabled)
}

pub open spec fn on_off(on: bool, yes: ButtonStyle, no: ButtonStyle) -> ButtonStyle {
    if on {
        yes
    } else {
        no
    }
}

/// The rows of the control panel for the switches `f`; the two volume
/// buttons carry the labels given.
pub open spec fn control_layout(f: PlaybackFlags, volume: Seq<char>, radio: Seq<char>) -> Seq<Seq<ButtonView>> {
    seq![
        seq![
            ("volume"@, ButtonStyle::Primary, volume, false),
            ("radiovolume"@, ButtonStyle::Secondary, radio, false),
            ("bitrate"@, ButtonStyle::Secondary, f.bitrate.button_label(), false),
            ("log"@, on_off(f.log_empty, ButtonStyle::Secondary, ButtonStyle::Danger), "📜"@, f.log_empty),
        ],
        seq![
            ("pause"@, on_off(f.pause, ButtonStyle::Success, ButtonStyle::Danger), if f.pause {
                "▶️"@
            } else {
                "⏸️"@
            }, false),
            ("skip"@, ButtonStyle::Primary, "⏭️"@, false),
            ("stop"@, ButtonStyle::Danger, "⏹️"@, false),
        ],
        seq![
            ("looped"@, on_off(f.looped, ButtonStyle::Primary, ButtonStyle::Secondary), "🔁"@, false),
            ("shuffle"@, on_off(f.shuffle, ButtonStyle::Primary, ButtonStyle::Secondary), "🔀"@, false),
            ("repeat"@, on_off(f.repeat, ButtonStyle::Primary, ButtonStyle::Secondary), "🔄️"@, false),
        ],
        seq![
            ("autoplay"@, on_off(f.autoplay, ButtonStyle::Primary, ButtonStyle::Secondary), "🎲"@, false),
            ("remove"@, ButtonStyle::Danger, "🗑️"@, false),
            ("read_titles"@, on_off(f.read_titles, ButtonStyle::Success, ButtonStyle::Danger), "🗣️"@, false),
        ],
    ]
}

fn button(id: &str, style: ButtonStyle, label: String, disabled: bool) -> (res: PanelButton)
    ensures
        button_view(res) == (id@, style, label@, disabled),
{
    PanelButton { id: to_string(&chars_of(id)), style, label, disabled }
}

fn lit(s: &str) -> (res: String)
    ensures
        res@ == s@,
{
    to_string(&chars_of(s))
}

fn style_if(on: bool, yes: ButtonStyle, no: ButtonStyle) -> (res: ButtonStyle)
    ensures
        res == on_off(on, yes, no),
{
    if on {
        yes
    } else {
        no
    }
}

/// The buttons of the control panel, row by row.
pub fn control_rows(f: &PlaybackFlags, volume_label: String, radio_label: String) -> (res: Vec<Vec<PanelButton>>)
    ensures
        res@.map_values(|r: Vec<PanelButton>| r@.map_values(|b: PanelButton| button_view(b)))
            == control_layout(*f, volume_label@, radio_label@),
{
    let mut r1: Vec<PanelButton> = Vec::new();
    r1.push(button("volume", ButtonStyle::Primary, volume_label, false));
    r1.push(button("radiovolume", ButtonStyle::Secondary, radio_label, false));
    r1.push(button("bitrate", ButtonStyle::Secondary, f.bitrate.label(), false));
    r1.push(button("log", style_if(f.log_empty, ButtonStyle::Secondary, ButtonStyle::Danger), lit("📜"), f.log_empty));
    let mut r2: Vec<PanelButton> = Vec::new();
    r2.push(button("pause", style_if(f.pause, ButtonStyle::Success, ButtonStyle::Danger), if f.pause {
        lit("▶️")
    } else {
        lit("⏸️")
    }, false));
    r2.push(button("skip", ButtonStyle::Primary, lit("⏭️"), false));
    r2.push(button("stop", ButtonStyle::Danger, lit("⏹️"), false));
    let mut r3: Vec<PanelButton> = Vec::new();
    r3.push(button("looped", style_if(f.looped, ButtonStyle::Primary, ButtonStyle::Secondary), lit("🔁"), false));
    r3.push(button("shuffle", style_if(f.shuffle, ButtonStyle::Primary, ButtonStyle::Secondary), lit("🔀"), false));
    r3.push(button("repeat", style_if(f.repeat, ButtonStyle::Primary, ButtonStyle::Secondary), lit("🔄️"), false));
    let mut r4: Vec<PanelButton> = Vec::new();
    r4.push(button("autoplay", style_if(f.autoplay, ButtonStyle::Primary, ButtonStyle::Secondary), lit("🎲"), false));
    r4.push(button("remove", ButtonStyle::Danger, lit("🗑️"), false));
    r4.push(button("read_titles", style_if(f.read_titles, ButtonStyle::Success, ButtonStyle::Danger), lit("🗣️"), false));
    let ghost v1 = r1@.map_values(|b: PanelButton| button_view(b));
    let ghost v2 = r2@.map_values(|b: PanelButton| button_view(b));
    let ghost v3 = r3@.map_values(|b: PanelButton| button_view(b));
    let ghost v4 = r4@.map_values(|b: PanelButton| button_view(b));
    let ghost want = control_layout(*f, volume_label@, radio_label@);
    assert(v1 =~= want[0]);
    assert(v2 =~= want[1]);
    assert(v3 =~= want[2]);
    assert(v4 =~= want[3]);
    let mut rows: Vec<Vec<PanelButton>> = Vec::new();
    rows.push(r1);
    rows.push(r2);
    rows.push(r3);
    rows.push(r4);
    assert(rows@.map_values(|r: Vec<PanelButton>| r@.map_values(|b: PanelButton| button_view(b)))
        =~= want);
    rows
}

/// Whether the panel message must be sent anew: some message came after it.
pub fn needs_resend(panel_id: u64, later_ids: &Vec<u64>) -> (res: bool)
    ensures
        res == exists|i: int| 0 <= i < later_ids@.len() && #[trigger] later_ids@[i] > panel_id,
{
    let mut i: usize = 0;
    while i < later_ids.len()
        invariant
            i <= later_ids@.len(),
            forall|j: int| 0 <= j < i ==> #[trigger] later_ids@[j] <= panel_id,
        decreases later_ids@.len() - i,
    {
        if later_ids[i] > panel_id {
            assert(later_ids@[i as int] > panel_id);
            return true;
        }
        i += 1;
    }
    false
}

} // verus!
