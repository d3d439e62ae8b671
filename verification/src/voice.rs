use vstd::prelude::*;
use crate::numbers::{attempt_to_parse_number, humanize, humanize_number, same_chars, spoken_number};
use crate::text::{
    lowercase, to_lowercase,
    append_chars, chars_of, decimal, decimal_vec, ends_with, is_whitespace, is_ws, join, join_vec,
    matches_at_exec, occurs_in, contains_vec, push_str, replace_vec, replaced, split_at_pat,
    split_vec, to_string, words, words_vec, lemma_split_scan_nonempty,
};

verus! {

/// Whether `char::is_ascii_alphanumeric` holds.
pub open spec fn is_ascii_alnum(c: char) -> bool {
    ('0' <= c && c <= '9') || ('a' <= c && c <= 'z') || ('A' <= c && c <= 'Z')
}

/// The characters that survive filtering: ASCII letters and digits, and whitespace.
pub open spec fn kept(s: Seq<char>) -> Seq<char>
    decreases s.len(),
{
    if s.len() == 0 {
        Seq::empty()
    } else if is_ascii_alnum(s.last()) || is_ws(s.last()) {
        kept(s.drop_last()).push(s.last())
    } else {
        kept(s.drop_last())
    }
}

/// A transcript reduced to lowercase ASCII words separated by single spaces.
pub open spec fn filtered_input(s: Seq<char>) -> Seq<char> {
    join(words(kept(lowercase(s))), seq![' '])
}

/// Lowercases `s`, keeps ASCII letters, digits and whitespace, and puts one
/// space between the words that remain.
pub fn filter_input(s: &str) -> (res: Vec<char>)
    ensures
        res@ == filtered_input(s@),
{
    let low = chars_of(to_lowercase(s).as_str());
    let mut k: Vec<char> = Vec::new();
    let mut i: usize = 0;
    while i < low.len()
        invariant
            i <= low@.len(),
            k@ == kept(low@.take(i as int)),
        decreases low@.len() - i,
    {
        let c = low[i];
        assert(low@.take(i + 1).drop_last() =~= low@.take(i as int));
        if ('0' <= c && c <= '9') || ('a' <= c && c <= 'z') || ('A' <= c && c <= 'Z')
            || is_whitespace(c) {
            k.push(c);
        }
        i += 1;
    }
    assert(low@.take(low@.len() as int) =~= low@);
    let ws = words_vec(&k);
    let mut sp: Vec<char> = Vec::new();
    sp.push(' ');
    assert(sp@ =~= seq![' ']);
    join_vec(&ws, &sp)
}

/// A phrase that wakes the bot, and other phrases heard in its place.
pub struct Alert {
    pub main: String,
    pub aliases: Vec<String>,
}

/// All wake phrases, in the order in which they are tried.
pub struct Alerts {
    pub phrases: Vec<Alert>,
}

/// A wake phrase as plain values: the phrase and its aliases.
pub type AlertView = (Seq<char>, Seq<Seq<char>>);

pub open spec fn alert_view(a: Alert) -> AlertView {
    (a.main@, a.aliases@.map_values(|s: String| s@))
}

/// `s` with each alias replaced by `main`, aliases taken in order.
pub open spec fn apply_aliases(s: Seq<char>, main: Seq<char>, aliases: Seq<Seq<char>>) -> Seq<char>
    decreases aliases.len(),
{
    if aliases.len() == 0 {
        s
    } else {
        replaced(apply_aliases(s, main, aliases.drop_last()), aliases.last(), main)
    }
}

/// `s` with the aliases of every phrase replaced, phrases taken in order.
pub open spec fn alias_filtered(s: Seq<char>, phrases: Seq<AlertView>) -> Seq<char>
    decreases phrases.len(),
{
    if phrases.len() == 0 {
        s
    } else {
        apply_aliases(alias_filtered(s, phrases.drop_last()), phrases.last().0, phrases.last().1)
    }
}

/// The index of the first phrase at or after `i` whose main phrase occurs in `s`.
pub open spec fn first_alert_from(phrases: Seq<AlertView>, s: Seq<char>, i: int) -> Option<int>
    decreases phrases.len() - i,
{
    if i < 0 || i >= phrases.len() {
        None
    } else if occurs_in(s, phrases[i].0) {
        Some(i)
    } else {
        first_alert_from(phrases, s, i + 1)
    }
}

/// `s` with a space appended.
pub open spec fn spaced(s: Seq<char>) -> Seq<char> {
    s.push(' ')
}

impl Alerts {
    pub open spec fn view_phrases(&self) -> Seq<AlertView> {
        self.phrases@.map_values(|a: Alert| alert_view(a))
    }

    /// Every main phrase and alias is non-empty, as after `prepared`.
    pub open spec fn wf(&self) -> bool {
        forall|i: int|
            0 <= i < self.phrases@.len() ==> {
                &&& (#[trigger] self.view_phrases()[i]).0.len() > 0
                &&& forall|j: int|
                    0 <= j < self.view_phrases()[i].1.len() ==> (
                    #[trigger] self.view_phrases()[i].1[j]).len() > 0
            }
    }

    /// The phrases as loaded, each main phrase and alias followed by a space,
    /// so that only whole words match.
    pub fn prepared(self) -> (res: Alerts)
        ensures
            res.wf(),
            res.view_phrases().len() == self.view_phrases().len(),
            forall|i: int|
                0 <= i < self.phrases@.len() ==> {
                    &&& (#[trigger] res.view_phrases()[i]).0 == spaced(self.view_phrases()[i].0)
                    &&& res.view_phrases()[i].1 == self.view_phrases()[i].1.map_values(
                        |a: Seq<char>| spaced(a),
                    )
                },
    {
        let ghost orig = self.view_phrases();
        let mut out: Vec<Alert> = Vec::new();
        let mut i: usize = 0;
        let n = self.phrases.len();
        while i < n
            invariant
                n == self.phrases@.len(),
                n == orig.len(),
                orig == self.view_phrases(),
                i <= n,
                out@.len() == i,
                forall|k: int|
                    0 <= k < i ==> {
                        &&& (#[trigger] alert_view(out@[k])).0 == spaced(orig[k].0)
                        &&& alert_view(out@[k]).1 == orig[k].1.map_values(|a: Seq<char>| spaced(a))
                        &&& alert_view(out@[k]).0.len() > 0
                        &&& forall|j: int|
                            0 <= j < alert_view(out@[k]).1.len() ==> (
                            #[trigger] alert_view(out@[k]).1[j]).len() > 0
                    },
            decreases n - i,
        {
            let a = &self.phrases[i];
            assert(alert_view(*a) == orig[i as int]);
            let mut main = chars_of(a.main.as_str());
            main.push(' ');
            let mut aliases: Vec<String> = Vec::new();
            let mut k: usize = 0;
            let ghost al = a.aliases@.map_values(|s: String| s@);
            while k < a.aliases.len()
                invariant
                    k <= a.aliases@.len(),
                    al == a.aliases@.map_values(|s: String| s@),
                    aliases@.map_values(|s: String| s@) == al.take(k as int).map_values(
                        |x: Seq<char>| spaced(x),
                    ),
                decreases a.aliases@.len() - k,
            {
                let mut t = chars_of(a.aliases[k].as_str());
                t.push(' ');
                let ghost before = aliases@.map_values(|s: String| s@);
                aliases.push(to_string(&t));
                assert(aliases@.map_values(|s: String| s@) =~= before.push(spaced(al[k as int])));
                assert(al.take(k + 1).map_values(|x: Seq<char>| spaced(x)) =~= al.take(
                    k as int,
                ).map_values(|x: Seq<char>| spaced(x)).push(spaced(al[k as int])));
                k += 1;
            }
            assert(al.take(a.aliases@.len() as int) =~= al);
            let na = Alert { main: to_string(&main), aliases };
            assert(alert_view(na).1 =~= orig[i as int].1.map_values(|x: Seq<char>| spaced(x)));
            out.push(na);
            i += 1;
        }
        let res = Alerts { phrases: out };
        assert(res.view_phrases().len() == orig.len());
        assert forall|i: int| 0 <= i < res.phrases@.len() implies {
            &&& (#[trigger] res.view_phrases()[i]).0.len() > 0
            &&& forall|j: int|
                0 <= j < res.view_phrases()[i].1.len() ==> (
                #[trigger] res.view_phrases()[i].1[j]).len() > 0
        } by {
            assert(res.view_phrases()[i] == alert_view(out@[i]));
        }
        res
    }

    /// `s` with every alias of every phrase replaced by its main phrase.
    pub fn filter(&self, s: &Vec<char>) -> (res: Vec<char>)
        requires
            self.wf(),
        ensures
            res@ == alias_filtered(s@, self.view_phrases()),
    {
        let ghost ps = self.view_phrases();
        let mut cur: Vec<char> = Vec::new();
        append_chars(&mut cur, s);
        assert(cur@ =~= s@);
        let mut i: usize = 0;
        while i < self.phrases.len()
            invariant
                self.wf(),
                ps == self.view_phrases(),
                i <= self.phrases@.len(),
                cur@ == alias_filtered(s@, ps.take(i as int)),
            decreases self.phrases@.len() - i,
        {
            let alert = &self.phrases[i];
            assert(alert_view(*alert) == ps[i as int]);
            let main = chars_of(alert.main.as_str());
            let ghost al = ps[i as int].1;
            let ghost start = cur@;
            let mut k: usize = 0;
            while k < alert.aliases.len()
                invariant
                    self.wf(),
                    ps == self.view_phrases(),
                    0 <= i < self.phrases@.len(),
                    *alert == self.phrases@[i as int],
                    al == ps[i as int].1,
                    main@ == ps[i as int].0,
                    k <= al.len(),
                    al.len() == alert.aliases@.len(),
                    cur@ == apply_aliases(start, main@, al.take(k as int)),
                decreases alert.aliases@.len() - k,
            {
                let alias = chars_of(alert.aliases[k].as_str());
                assert(alias@ == al[k as int]);
                assert(al[k as int].len() > 0);
                let next = replace_vec(&cur, &alias, &main);
                assert(al.take(k + 1).drop_last() =~= al.take(k as int));
                cur = next;
                k += 1;
            }
            assert(al.take(al.len() as int) =~= al);
            assert(ps.take(i + 1).drop_last() =~= ps.take(i as int));
            i += 1;
        }
        assert(ps.take(ps.len() as int) =~= ps);
        cur
    }

    /// The index of the first phrase whose main phrase occurs in `s`.
    pub fn find_alert(&self, s: &Vec<char>) -> (res: Option<usize>)
        ensures
            match first_alert_from(self.view_phrases(), s@, 0) {
                Some(k) => res matches Some(r) && r as int == k,
                None => res.is_none(),
            },
            res matches Some(k) ==> k < self.phrases@.len(),
    {
        let ghost ps = self.view_phrases();
        let mut i: usize = 0;
        while i < self.phrases.len()
            invariant
                ps == self.view_phrases(),
                i <= self.phrases@.len(),
                first_alert_from(ps, s@, 0) == first_alert_from(ps, s@, i as int),
            decreases self.phrases@.len() - i,
        {
            let main = chars_of(self.phrases[i].main.as_str());
            assert(main@ == ps[i as int].0);
            if contains_vec(s, &main) {
                return Some(i);
            }
            i += 1;
        }
        None
    }

    /// The first phrase whose main phrase occurs in `s`.
    pub fn get_alert(&self, s: &Vec<char>) -> (res: Option<&Alert>)
        ensures
            match first_alert_from(self.view_phrases(), s@, 0) {
                Some(k) => res == Some(&self.phrases@[k]),
                None => res.is_none(),
            },
    {
        match self.find_alert(s) {
            Some(k) => {
                let a = &self.phrases[k];
                assert(*a == self.phrases@[k as int]);
                Some(a)
            },
            None => None,
        }
    }
}

/// What a voice command asks of the player.
pub enum VoiceIntent {
    /// Nothing to do.
    Nothing,
    /// The speaker refuses to be recorded.
    NoConsent,
    /// Look up the query and queue what it finds.
    Play(String),
    /// Leave the channel after two and a half seconds.
    Stop,
    /// Skip the current track.
    Skip,
    /// Pause (`true`) or resume (`false`).
    Pause(bool),
    /// Set the volume to this many percent.
    Volume(usize),
    /// Remove the queue entry at this index.
    Remove(usize),
}

/// A voice command's intent as plain values.
pub enum IntentView {
    Nothing,
    NoConsent,
    Play(Seq<char>),
    Stop,
    Skip,
    Pause(bool),
    Volume(nat),
    Remove(nat),
}

pub open spec fn intent_view(i: VoiceIntent) -> IntentView {
    match i {
        VoiceIntent::Nothing => IntentView::Nothing,
        VoiceIntent::NoConsent => IntentView::NoConsent,
        VoiceIntent::Play(q) => IntentView::Play(q@),
        VoiceIntent::Stop => IntentView::Stop,
        VoiceIntent::Skip => IntentView::Skip,
        VoiceIntent::Pause(b) => IntentView::Pause(b),
        VoiceIntent::Volume(v) => IntentView::Volume(v as nat),
        VoiceIntent::Remove(r) => IntentView::Remove(r as nat),
    }
}

/// What the bot does about a transcript: the intent, and the sentence it
/// speaks back, if any.
pub struct VoiceReply {
    pub intent: VoiceIntent,
    pub feedback: Option<String>,
}

pub open spec fn reply_view(r: VoiceReply) -> (IntentView, Option<Seq<char>>) {
    (intent_view(r.intent), match r.feedback {
        Some(f) => Some(f@),
        None => None,
    })
}

/// The sentence handed to speech: `t`, ending in a full stop.
pub open spec fn speech_text(t: Seq<char>) -> Seq<char> {
    if ends_with(t, seq!['.']) {
        t
    } else {
        t.push('.')
    }
}

/// Ends `t` with a full stop unless it has one.
pub fn speech(t: Vec<char>) -> (res: String)
    ensures
        res@ == speech_text(t@),
{
    let mut t = t;
    let mut dot: Vec<char> = Vec::new();
    dot.push('.');
    assert(dot@ =~= seq!['.']);
    if t.len() == 0 || !matches_at_exec(&t, &dot, t.len() - 1) {
        proof {
            if t@.len() > 0 {
                assert(t@.len() - dot@.len() == t@.len() - 1);
            }
        }
        t.push('.');
    }
    to_string(&t)
}

pub open spec fn reply_with(i: IntentView, t: Seq<char>) -> (IntentView, Option<Seq<char>>) {
    (i, Some(speech_text(t)))
}

/// The reply to a command word and the words after it.
pub open spec fn command_reply(cmd: Seq<char>, args: Seq<Seq<char>>) -> (IntentView, Option<Seq<char>>) {
    let sp = seq![' '];
    if cmd == "play"@ || cmd == "add"@ || cmd == "queue"@ || cmd == "played"@ {
        let q = join(args, sp);
        if occurs_in(replaced(q, sp, Seq::empty()), "wonderwall"@) {
            reply_with(IntentView::Play(q), "Anyway, here's wonderwall"@)
        } else {
            reply_with(IntentView::Play(q), "Adding "@ + q + " to the queue"@)
        }
    } else if cmd == "stop"@ || cmd == "leave"@ || cmd == "disconnect"@ {
        reply_with(IntentView::Stop, "Goodbuy, my friend"@)
    } else if cmd == "skip"@ || cmd == "next"@ {
        reply_with(IntentView::Skip, "Skipping"@)
    } else if cmd == "pause"@ {
        reply_with(IntentView::Pause(true), "Pausing"@)
    } else if cmd == "resume"@ || cmd == "unpause"@ {
        reply_with(IntentView::Pause(false), "Resuming"@)
    } else if cmd == "volume"@ || cmd == "vol"@ {
        match spoken_number(args) {
            Some(v) => if v <= 100 {
                reply_with(IntentView::Volume(v), "Setting volyume to "@ + humanize(v) + "%"@)
            } else {
                reply_with(IntentView::Nothing, "Volyume must be between zero and one hundred"@)
            },
            None => reply_with(IntentView::Nothing, "You need to say a number for the volyume"@),
        }
    } else if cmd == "remove"@ || cmd == "delete"@ {
        match spoken_number(args) {
            Some(i) => reply_with(
                IntentView::Remove(i),
                "Removing song "@ + decimal(i) + " from queue"@,
            ),
            None => reply_with(IntentView::Nothing, "You need to say a number for the index"@),
        }
    } else if cmd == "say"@ || cmd == "echo"@ {
        reply_with(IntentView::Nothing, join(args, sp))
    } else {
        reply_with(IntentView::Nothing, "Unknown command. "@ + cmd)
    }
}

fn reply(intent: VoiceIntent, t: Vec<char>) -> (res: VoiceReply)
    ensures
        reply_view(res) == reply_with(intent_view(intent), t@),
{
    VoiceReply { intent, feedback: Some(speech(t)) }
}

fn lit(s: &str) -> (res: Vec<char>)
    ensures
        res@ == s@,
{
    chars_of(s)
}

/// The reply to a command word `cmd` followed by `args`.
pub fn command_reply_exec(cmd: &Vec<char>, args: &Vec<Vec<char>>) -> (res: VoiceReply)
    ensures
        reply_view(res) == command_reply(cmd@, args@.map_values(|v: Vec<char>| v@)),
{
    let ghost a = args@.map_values(|v: Vec<char>| v@);
    let mut sp: Vec<char> = Vec::new();
    sp.push(' ');
    assert(sp@ =~= seq![' ']);
    if same_chars(cmd, "play") || same_chars(cmd, "add") || same_chars(cmd, "queue") || same_chars(
        cmd,
        "played",
    ) {
        let q = join_vec(args, &sp);
        let nothing: Vec<char> = Vec::new();
        let squashed = replace_vec(&q, &sp, &nothing);
        if contains_vec(&squashed, &lit("wonderwall")) {
            reply(VoiceIntent::Play(to_string(&q)), lit("Anyway, here's wonderwall"))
        } else {
            let mut t = lit("Adding ");
            append_chars(&mut t, &q);
            push_str(&mut t, " to the queue");
            reply(VoiceIntent::Play(to_string(&q)), t)
        }
    } else if same_chars(cmd, "stop") || same_chars(cmd, "leave") || same_chars(cmd, "disconnect") {
        reply(VoiceIntent::Stop, lit("Goodbuy, my friend"))
    } else if same_chars(cmd, "skip") || same_chars(cmd, "next") {
        reply(VoiceIntent::Skip, lit("Skipping"))
    } else if same_chars(cmd, "pause") {
        reply(VoiceIntent::Pause(true), lit("Pausing"))
    } else if same_chars(cmd, "resume") || same_chars(cmd, "unpause") {
        reply(VoiceIntent::Pause(false), lit("Resuming"))
    } else if same_chars(cmd, "volume") || same_chars(cmd, "vol") {
        match attempt_to_parse_number(args) {
            Some(v) => if v <= 100 {
                let mut t = lit("Setting volyume to ");
                append_chars(&mut t, &chars_of(humanize_number(v).as_str()));
                push_str(&mut t, "%");
                reply(VoiceIntent::Volume(v), t)
            } else {
                reply(VoiceIntent::Nothing, lit("Volyume must be between zero and one hundred"))
            },
            None => reply(VoiceIntent::Nothing, lit("You need to say a number for the volyume")),
        }
    } else if same_chars(cmd, "remove") || same_chars(cmd, "delete") {
        match attempt_to_parse_number(args) {
            Some(i) => {
                let mut t = lit("Removing song ");
                append_chars(&mut t, &decimal_vec(i as u64));
                push_str(&mut t, " from queue");
                reply(VoiceIntent::Remove(i), t)
            },
            None => reply(VoiceIntent::Nothing, lit("You need to say a number for the index")),
        }
    } else if same_chars(cmd, "say") || same_chars(cmd, "echo") {
        reply(VoiceIntent::Nothing, join_vec(args, &sp))
    } else {
        let mut t = lit("Unknown command. ");
        append_chars(&mut t, cmd);
        reply(VoiceIntent::Nothing, t)
    }
}

/// The phrase that withdraws consent to being recorded.
pub open spec fn consent_phrase() -> Seq<char> {
    "i do not consent to being recorded"@
}

/// The text after the first occurrence of `main` in `w`, up to the next one.
pub open spec fn after_phrase(w: Seq<char>, main: Seq<char>) -> Seq<char> {
    let pieces = split_at_pat(w, main);
    if pieces.len() > 1 {
        pieces[1]
    } else {
        Seq::empty()
    }
}

/// The reply to a transcript: nothing for an empty one, or one without a
/// wake phrase; a refusal of consent wherever it is said; else the command
/// word after the first wake phrase that occurs, with the words after it.
pub open spec fn voice_reply(s: Seq<char>, phrases: Seq<AlertView>) -> (IntentView, Option<Seq<char>>) {
    let f = filtered_input(s);
    if s.len() == 0 || f.len() == 0 {
        (IntentView::Nothing, None)
    } else if occurs_in(f, consent_phrase()) {
        (IntentView::NoConsent, None)
    } else {
        let w = alias_filtered(f, phrases);
        match first_alert_from(phrases, w, 0) {
            None => (IntentView::Nothing, None),
            Some(k) => {
                let ws = words(after_phrase(w, phrases[k].0));
                if ws.len() == 0 {
                    reply_with(IntentView::Nothing, "You need to say a command"@)
                } else {
                    command_reply(ws[0], ws.skip(1))
                }
            },
        }
    }
}

/// What the bot makes of a transcript of what someone said.
pub fn parse_commands(s: &str, alerts: &Alerts) -> (res: VoiceReply)
    requires
        alerts.wf(),
    ensures
        reply_view(res) == voice_reply(s@, alerts.view_phrases()),
{
    let sv = chars_of(s);
    let f = filter_input(s);
    if sv.len() == 0 || f.len() == 0 {
        return VoiceReply { intent: VoiceIntent::Nothing, feedback: None };
    }
    if contains_vec(&f, &lit("i do not consent to being recorded")) {
        return VoiceReply { intent: VoiceIntent::NoConsent, feedback: None };
    }
    let w = alerts.filter(&f);
    match alerts.find_alert(&w) {
        None => VoiceReply { intent: VoiceIntent::Nothing, feedback: None },
        Some(k) => {
            let main = chars_of(alerts.phrases[k].main.as_str());
            assert(main@ == alerts.view_phrases()[k as int].0);
            assert(main@.len() > 0);
            let pieces = split_vec(&w, &main);
            let rest: Vec<char> = if pieces.len() > 1 {
                let mut r: Vec<char> = Vec::new();
                append_chars(&mut r, &pieces[1]);
                r
            } else {
                Vec::new()
            };
            assert(rest@ =~= after_phrase(w@, main@));
            let ws = words_vec(&rest);
            if ws.len() == 0 {
                return reply(VoiceIntent::Nothing, lit("You need to say a command"));
            }
            let mut args: Vec<Vec<char>> = Vec::new();
            let mut i: usize = 1;
            let ghost wv = ws@.map_values(|v: Vec<char>| v@);
            while i < ws.len()
                invariant
                    1 <= i <= ws@.len(),
                    wv == ws@.map_values(|v: Vec<char>| v@),
                    args@.map_values(|v: Vec<char>| v@) == wv.subrange(1, i as int),
                decreases ws@.len() - i,
            {
                let mut c: Vec<char> = Vec::new();
                append_chars(&mut c, &ws[i]);
                assert(c@ =~= wv[i as int]);
                let ghost before = args@.map_values(|v: Vec<char>| v@);
                args.push(c);
                assert(args@.map_values(|v: Vec<char>| v@) =~= before.push(wv[i as int]));
                assert(wv.subrange(1, i + 1) =~= wv.subrange(1, i as int).push(wv[i as int]));
                i += 1;
            }
            assert(wv.subrange(1, ws@.len() as int) =~= wv.skip(1));
            command_reply_exec(&ws[0], &args)
        },
    }
}

/// Whether a transcript that asked for nothing is passed on as text: all but
/// a lone "bye." or "thank you.", in any case.
pub open spec fn forwarded(s: Seq<char>) -> bool {
    !(lowercase(s) == "bye."@ || lowercase(s) == "thank you."@)
}

/// Decides whether a transcript that asked for nothing is passed on as text.
pub fn should_forward(s: &str) -> (res: bool)
    ensures
        res == forwarded(s@),
{
    let low = chars_of(to_lowercase(s).as_str());
    !(same_chars(&low, "bye.") || same_chars(&low, "thank you."))
}

} // verus!
