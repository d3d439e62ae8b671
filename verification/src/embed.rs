use vstd::prelude::*;
use crate::duration::{friendly_duration, friendly_text};
use crate::player::{Author, PlayerState, QueueItem, TrackMeta};
use crate::radio::Root;
use crate::text::{append_chars, chars_of, decimal, decimal_vec, push_str, to_string};

verus! {

/// The most entries a list may hold.
pub const VEC25_CAP: usize = 25;

/// A list that keeps at most 25 entries: pushing onto a full list does nothing.
pub struct Vec25<T>(Vec<T>);

impl<T> Vec25<T> {
    pub closed spec fn items(&self) -> Seq<T> {
        self.0@
    }

    pub closed spec fn wf(&self) -> bool {
        self.0@.len() <= 25
    }

    /// An empty list.
    pub fn new() -> (res: Self)
        ensures
            res.items() == Seq::<T>::empty(),
    {
        Vec25(Vec::new())
    }

    /// Appends `item` unless the list already holds 25 entries.
    pub fn push(&mut self, item: T)
        ensures
            old(self).items().len() < 25 ==> final(self).items() == old(self).items().push(item),
            old(self).items().len() >= 25 ==> final(self).items() == old(self).items(),
    {
        if self.0.len() < VEC25_CAP {
            self.0.push(item);
        }
    }

    /// The entries, in the order they were pushed.
    pub fn as_slice(&self) -> (res: &[T])
        ensures
            res@ == self.items(),
    {
        self.0.as_slice()
    }
}

/// A colour as red, green and blue.
#[derive(Clone, Copy, Debug, PartialEq, Eq, Structural)]
pub struct Rgb {
    pub r: u8,
    pub g: u8,
    pub b: u8,
}

/// One embed field: name, value, inline.
pub struct EmbedField {
    pub name: String,
    pub value: String,
    pub inline: bool,
}

/// The queue message's embed.
pub struct EmbedData {
    pub author: Option<String>,
    pub author_url: Option<String>,
    pub author_icon_url: Option<String>,
    pub color: Option<Rgb>,
    pub body: Option<String>,
    pub fields: Vec25<EmbedField>,
    pub thumbnail: Option<String>,
    pub footer: Option<(String, Option<String>)>,
}

/// An embed as text.
pub struct EmbedView {
    pub author: Option<Seq<char>>,
    pub author_url: Option<Seq<char>>,
    pub author_icon_url: Option<Seq<char>>,
    pub color: Option<Rgb>,
    pub body: Option<Seq<char>>,
    pub fields: Seq<(Seq<char>, Seq<char>, bool)>,
    pub thumbnail: Option<Seq<char>>,
    pub footer: Option<(Seq<char>, Option<Seq<char>>)>,
}

pub open spec fn opt_view(o: Option<String>) -> Option<Seq<char>> {
    match o {
        Some(s) => Some(s@),
        None => None,
    }
}

pub open spec fn field_view(f: EmbedField) -> (Seq<char>, Seq<char>, bool) {
    (f.name@, f.value@, f.inline)
}

impl View for EmbedData {
    type V = EmbedView;

    open spec fn view(&self) -> EmbedView {
        EmbedView {
            author: opt_view(self.author),
            author_url: opt_view(self.author_url),
            author_icon_url: opt_view(self.author_icon_url),
            color: self.color,
            body: opt_view(self.body),
            fields: self.fields.items().map_values(|f: EmbedField| field_view(f)),
            thumbnail: opt_view(self.thumbnail),
            footer: match self.footer {
                Some((t, i)) => Some((t@, opt_view(i))),
                None => None,
            },
        }
    }
}

pub open spec fn invite_author() -> Seq<char> {
    "Invite me to your server!"@
}

pub open spec fn invite_url() -> Seq<char> {
    "https://discord.com/oauth2/authorize?client_id=1035364346471133194&permissions=274881349696&scope=bot"@
}

/// The embed every update starts from.
pub open spec fn default_embed() -> EmbedView {
    EmbedView {
        author: Some(invite_author()),
        author_url: Some(invite_url()),
        author_icon_url: None,
        color: Some(Rgb { r: 0, g: 0, b: 0 }),
        body: None,
        fields: Seq::empty(),
        thumbnail: None,
        footer: Some(("Type /help for help"@, None)),
    }
}

impl EmbedData {
    /// The embed every update starts from.
    pub fn default_embed() -> (res: Self)
        ensures
            res@ == default_embed(),
            res.fields.wf(),
    {
        let res = EmbedData {
            author: Some(String::from_str("Invite me to your server!")),
            author_url: Some(
                String::from_str(
                    "https://discord.com/oauth2/authorize?client_id=1035364346471133194&permissions=274881349696&scope=bot",
                ),
            ),
            author_icon_url: None,
            color: Some(Rgb { r: 0, g: 0, b: 0 }),
            body: None,
            fields: Vec25::new(),
            thumbnail: None,
            footer: Some((String::from_str("Type /help for help"), None)),
        };
        assert(res@.fields =~= Seq::<(Seq<char>, Seq<char>, bool)>::empty());
        res
    }
}


/// The first 25 entries of `s` (all of them when there are fewer).
pub open spec fn capped<A>(s: Seq<A>) -> Seq<A> {
    if s.len() <= 25 {
        s
    } else {
        s.take(25)
    }
}

/// Pushing onto a list kept to 25 entries appends while there is room and
/// changes nothing once it is full; it never holds more than 25.
pub proof fn law_capped_push<A>(s: Seq<A>, x: A)
    ensures
        capped(s).len() < 25 ==> capped(s.push(x)) == capped(s).push(x),
        capped(s).len() >= 25 ==> capped(s.push(x)) == capped(s),
        capped(s).len() <= 25,
{
    if s.len() < 25 {
        assert(capped(s.push(x)) =~= capped(s).push(x));
    } else {
        assert(capped(s.push(x)) =~= capped(s));
    }
}

/// How long a track lasts, in words, or `live`.
pub open spec fn duration_label(d: Option<u64>) -> Seq<char> {
    match d {
        Some(secs) => friendly_text(secs as nat),
        None => "live"@,
    }
}

/// The field listing the track at queue position `i` (shown counted from one).
pub open spec fn queue_field(i: int, m: TrackMeta) -> (Seq<char>, Seq<char>, bool) {
    ("#"@ + decimal((i + 1) as nat) + " | "@ + m.title@, duration_label(m.duration), false)
}

/// The fields listing the whole queue.
pub open spec fn queue_fields<T>(q: Seq<QueueItem<T>>) -> Seq<(Seq<char>, Seq<char>, bool)> {
    Seq::new(q.len(), |i: int| queue_field(i, q[i].meta))
}

/// Whether every track, the current one included, has a known length.
pub open spec fn all_lengths_known<T>(s: PlayerState<T>) -> bool {
    &&& (s.current matches Some(c) ==> c.meta.duration is Some)
    &&& forall|i: int| 0 <= i < s.queue@.len() ==> (#[trigger] s.queue@[i]).meta.duration is Some
}

/// The footer's remaining-time text.
pub open spec fn total_text<T>(s: PlayerState<T>, total_remaining: u64) -> Seq<char> {
    if all_lengths_known(s) {
        friendly_text(total_remaining as nat) + " remaining"@
    } else {
        "One or more tracks is live"@
    }
}

/// The idle body: the empty-queue hint, and the station when one is heard.
pub open spec fn idle_body(radio: Option<&Root>) -> Seq<char> {
    match radio {
        Some(r) => "Queue is empty, use `/add` to play something!"@
            + "\nIn the meantime, enjoy these fine tunes from `"@ + r.station.name@ + "`"@,
        None => "Queue is empty, use `/add` to play something!"@,
    }
}

/// What the caller measured of the playing track: the progress bar and the
/// seconds left of it (when known), and the seconds left of everything queued.
pub struct EmbedTiming {
    pub progress: Option<(String, u64)>,
    pub total_remaining: u64,
}

/// The embed shown when nothing is queued or playing.
pub open spec fn idle_embed(radio: Option<&Root>) -> EmbedView {
    let d = default_embed();
    EmbedView {
        body: Some(idle_body(radio)),
        fields: match radio {
            Some(r) => seq![
                ("Now Playing"@, r.now_playing.song.line(), false),
                ("Next Up:"@, r.playing_next.song.line(), true),
            ],
            None => Seq::empty(),
        },
        thumbnail: match radio {
            Some(r) => Some(r.now_playing.song.art@),
            None => None,
        },
        color: Some(Rgb { r: 184, g: 29, b: 19 }),
        ..d
    }
}

/// The embed shown while something is queued or playing.
pub open spec fn busy_embed<T>(s: PlayerState<T>, radio: Option<&Root>, timing: EmbedTiming) -> EmbedView {
    let d = default_embed();
    let total = total_text(s, timing.total_remaining);
    let with_radio = EmbedView {
        author: match radio {
            Some(r) => Some(r.author_line()),
            None => d.author,
        },
        author_icon_url: match radio {
            Some(r) => Some(r.now_playing.song.art@),
            None => None,
        },
        ..d
    };
    match s.current {
        Some(c) => EmbedView {
            fields: capped(
                seq![("Now Playing | "@ + c.meta.title@, duration_label(c.meta.duration), false)]
                    + queue_fields(s.queue@),
            ),
            body: match timing.progress {
                Some((bar, left)) => if c.meta.duration is Some {
                    Some("\n"@ + bar@ + "\n["@ + friendly_text(left as nat) + " remaining]"@)
                } else {
                    None
                },
                None => None,
            },
            footer: match c.meta.author {
                Some(a) => Some(("Requested by "@ + a.name@ + " | "@ + total, Some(a.pfp_url@))),
                None => Some((total, None)),
            },
            color: Some(Rgb { r: 0, g: 132, b: 80 }),
            ..with_radio
        },
        None => EmbedView {
            fields: capped(queue_fields(s.queue@)),
            footer: Some((total, None)),
            color: Some(Rgb { r: 253, g: 218, b: 22 }),
            ..with_radio
        },
    }
}

/// Whether the player is idle: nothing queued and nothing playing.
pub open spec fn is_idle<T>(s: PlayerState<T>) -> bool {
    s.queue@.len() == 0 && s.current is None
}

fn label_for(d: Option<u64>) -> (res: String)
    ensures
        res@ == duration_label(d),
{
    match d {
        Some(secs) => friendly_duration(secs),
        None => String::from_str("live"),
    }
}

fn copy_str(s: &String) -> (res: String)
    ensures
        res@ == s@,
{
    let v = chars_of(s.as_str());
    to_string(&v)
}

fn push_queue_fields<T>(fields: &mut Vec25<EmbedField>, queue: &Vec<QueueItem<T>>, Ghost(before): Ghost<Seq<(Seq<char>, Seq<char>, bool)>>)
    requires
        old(fields).items().map_values(|f: EmbedField| field_view(f)) == capped(before),
    ensures
        final(fields).items().map_values(|f: EmbedField| field_view(f)) == capped(before + queue_fields(queue@)),
{
    let mut i: usize = 0;
    while i < queue.len()
        invariant
            i <= queue@.len(),
            fields.items().map_values(|f: EmbedField| field_view(f)) == capped(
                before + queue_fields(queue@).take(i as int),
            ),
        decreases queue@.len() - i,
    {
        let ghost all = before + queue_fields(queue@).take(i as int);
        let ghost old_items = fields.items();
        let mut name: Vec<char> = Vec::new();
        push_str(&mut name, "#");
        let num = decimal_vec(i as u64 + 1);
        append_chars(&mut name, &num);
        push_str(&mut name, " | ");
        push_str(&mut name, queue[i].meta.title.as_str());
        let f = EmbedField { name: to_string(&name), value: label_for(queue[i].meta.duration), inline: false };
        assert(field_view(f) == queue_field(i as int, queue@[i as int].meta)) by {
            assert(name@ =~= "#"@ + decimal((i + 1) as nat) + " | "@ + queue@[i as int].meta.title@);
        }
        proof {
            law_capped_push(all, field_view(f));
        }
        fields.push(f);
        assert(queue_fields(queue@).take(i + 1) =~= queue_fields(queue@).take(i as int).push(
            queue_field(i as int, queue@[i as int].meta),
        ));
        assert(before + queue_fields(queue@).take(i + 1) =~= all.push(field_view(f)));
        proof {
            if old_items.len() < 25 {
                assert(fields.items().map_values(|f: EmbedField| field_view(f)) =~= old_items.map_values(|f: EmbedField| field_view(f)).push(field_view(f)));
            }
        }
        i += 1;
    }
    assert(queue_fields(queue@).take(queue@.len() as int) =~= queue_fields(queue@));
}


fn lengths_known<T>(s: &PlayerState<T>) -> (res: bool)
    ensures
        res == all_lengths_known(*s),
{
    match &s.current {
        Some(c) => {
            if c.meta.duration.is_none() {
                return false;
            }
        },
        None => {},
    }
    let mut i: usize = 0;
    while i < s.queue.len()
        invariant
            i <= s.queue@.len(),
            s.current matches Some(c) ==> c.meta.duration is Some,
            forall|j: int| 0 <= j < i ==> (#[trigger] s.queue@[j]).meta.duration is Some,
        decreases s.queue@.len() - i,
    {
        if s.queue[i].meta.duration.is_none() {
            return false;
        }
        i += 1;
    }
    true
}

fn total_label<T>(s: &PlayerState<T>, total_remaining: u64) -> (res: String)
    ensures
        res@ == total_text(*s, total_remaining),
{
    if lengths_known(s) {
        let f = friendly_duration(total_remaining);
        let mut v = chars_of(f.as_str());
        push_str(&mut v, " remaining");
        to_string(&v)
    } else {
        String::from_str("One or more tracks is live")
    }
}

fn idle_embed_exec(radio: Option<&Root>) -> (res: EmbedData)
    ensures
        res@ == idle_embed(radio),
{
    let mut e = EmbedData::default_embed();
    let mut body: Vec<char> = Vec::new();
    push_str(&mut body, "Queue is empty, use `/add` to play something!");
    match radio {
        Some(r) => {
            push_str(&mut body, "\nIn the meantime, enjoy these fine tunes from `");
            push_str(&mut body, r.station.name.as_str());
            push_str(&mut body, "`");
            let f1 = EmbedField { name: String::from_str("Now Playing"), value: r.now_playing.song.describe(), inline: false };
            let f2 = EmbedField { name: String::from_str("Next Up:"), value: r.playing_next.song.describe(), inline: true };
            let ghost g1 = f1;
            let ghost g2 = f2;
            assert(e.fields.items().len() == 0) by {
                assert(e@.fields.len() == 0);
            }
            e.fields.push(f1);
            e.fields.push(f2);
            assert(e.fields.items() =~= seq![g1, g2]);
            e.thumbnail = Some(copy_str(&r.now_playing.song.art));
        },
        None => {},
    }
    e.body = Some(to_string(&body));
    e.color = Some(Rgb { r: 184, g: 29, b: 19 });
    assert(e@.fields =~= idle_embed(radio).fields);
    assert(e@.body == idle_embed(radio).body) by {
        assert(body@ =~= idle_body(radio));
    }
    e
}

impl<T> PlayerState<T> {
    /// The queue message's embed for the current state. While idle the
    /// pause switch is cleared (nothing is left to pause).
    pub fn refresh_embed(&mut self, radio: Option<&Root>, timing: &EmbedTiming) -> (res: (EmbedData, bool))
        ensures
            res.1 == is_idle(*old(self)),
            is_idle(*old(self)) ==> {
                &&& res.0@ == idle_embed(radio)
                &&& final(self).flags.pause == false
            },
            !is_idle(*old(self)) ==> {
                &&& res.0@ == busy_embed(*old(self), radio, *timing)
                &&& final(self).flags.pause == old(self).flags.pause
            },
            final(self).queue == old(self).queue,
            final(self).current == old(self).current,
            final(self).next_index == old(self).next_index,
            final(self).has_handle == old(self).has_handle,
            final(self).flags == (crate::player::PlaybackFlags { pause: final(self).flags.pause, ..old(self).flags }),
    {
        if self.queue.len() == 0 && self.current.is_none() {
            self.flags.pause = false;
            return (idle_embed_exec(radio), true);
        }
        let mut e = EmbedData::default_embed();
        match radio {
            Some(r) => {
                e.author = Some(r.describe_author());
                e.author_icon_url = Some(copy_str(&r.now_playing.song.art));
            },
            None => {},
        }
        let total = total_label(self, timing.total_remaining);
        let ghost s = *self;
        match &self.current {
            Some(c) => {
                let mut name: Vec<char> = Vec::new();
                push_str(&mut name, "Now Playing | ");
                push_str(&mut name, c.meta.title.as_str());
                let first = EmbedField { name: to_string(&name), value: label_for(c.meta.duration), inline: false };
                let ghost head = seq![("Now Playing | "@ + c.meta.title@, duration_label(c.meta.duration), false)];
                assert(field_view(first) == head[0]) by {
                    assert(name@ =~= "Now Playing | "@ + c.meta.title@);
                }
                proof {
                    law_capped_push(Seq::<(Seq<char>, Seq<char>, bool)>::empty(), field_view(first));
                }
                e.fields.push(first);
                assert(e.fields.items().map_values(|f: EmbedField| field_view(f)) =~= capped(head));
                push_queue_fields(&mut e.fields, &self.queue, Ghost(head));
                match &timing.progress {
                    Some((bar, left)) => {
                        if c.meta.duration.is_some() {
                            let mut body: Vec<char> = Vec::new();
                            push_str(&mut body, "\n");
                            push_str(&mut body, bar.as_str());
                            push_str(&mut body, "\n[");
                            let f = friendly_duration(*left);
                            push_str(&mut body, f.as_str());
                            push_str(&mut body, " remaining]");
                            assert(body@ =~= "\n"@ + bar@ + "\n["@ + friendly_text(*left as nat) + " remaining]"@);
                            e.body = Some(to_string(&body));
                        }
                    },
                    None => {},
                }
                match &c.meta.author {
                    Some(a) => {
                        let mut t: Vec<char> = Vec::new();
                        push_str(&mut t, "Requested by ");
                        push_str(&mut t, a.name.as_str());
                        push_str(&mut t, " | ");
                        push_str(&mut t, total.as_str());
                        assert(t@ =~= "Requested by "@ + a.name@ + " | "@ + total_text(s, timing.total_remaining));
                        e.footer = Some((to_string(&t), Some(copy_str(&a.pfp_url))));
                    },
                    None => {
                        e.footer = Some((total, None));
                    },
                }
                e.color = Some(Rgb { r: 0, g: 132, b: 80 });
            },
            None => {
                proof {
                    assert(Seq::<(Seq<char>, Seq<char>, bool)>::empty() + queue_fields(self.queue@) =~= queue_fields(self.queue@));
                    assert(e.fields.items().map_values(|f: EmbedField| field_view(f)) =~= capped(Seq::<(Seq<char>, Seq<char>, bool)>::empty()));
                }
                push_queue_fields(&mut e.fields, &self.queue, Ghost(Seq::empty()));
                e.footer = Some((total, None));
                e.color = Some(Rgb { r: 253, g: 218, b: 22 });
            },
        }
        (e, false)
    }
}

} // verus!

verus! {

fn same_string(a: &String, b: &String) -> (res: bool)
    ensures
        res == (a@ == b@),
{
    crate::numbers::same_chars(&chars_of(a.as_str()), b.as_str())
}

fn same_opt(a: &Option<String>, b: &Option<String>) -> (res: bool)
    ensures
        res == (opt_view(*a) == opt_view(*b)),
{
    match (a, b) {
        (Some(x), Some(y)) => same_string(x, y),
        (None, None) => true,
        _ => false,
    }
}

/// Whether two embeds read the same.
pub fn embed_eq(a: &EmbedData, b: &EmbedData) -> (res: bool)
    ensures
        res == (a@ == b@),
{
    if !same_opt(&a.author, &b.author) || !same_opt(&a.author_url, &b.author_url)
        || !same_opt(&a.author_icon_url, &b.author_icon_url) || a.color != b.color
        || !same_opt(&a.body, &b.body) || !same_opt(&a.thumbnail, &b.thumbnail) {
        return false;
    }
    let same_footer = match (&a.footer, &b.footer) {
        (Some((t, i)), Some((u, j))) => same_string(t, u) && same_opt(i, j),
        (None, None) => true,
        _ => false,
    };
    if !same_footer {
        assert(a@.footer != b@.footer);
        return false;
    }
    let fa = a.fields.as_slice();
    let fb = b.fields.as_slice();
    let ghost va = a.fields.items().map_values(|f: EmbedField| field_view(f));
    let ghost vb = b.fields.items().map_values(|f: EmbedField| field_view(f));
    if fa.len() != fb.len() {
        assert(va.len() != vb.len());
        return false;
    }
    let mut k: usize = 0;
    while k < fa.len()
        invariant
            k <= fa@.len(),
            fa@.len() == fb@.len(),
            fa@ == a.fields.items(),
            fb@ == b.fields.items(),
            va == a.fields.items().map_values(|f: EmbedField| field_view(f)),
            vb == b.fields.items().map_values(|f: EmbedField| field_view(f)),
            forall|i: int| 0 <= i < k ==> va[i] == vb[i],
        decreases fa@.len() - k,
    {
        if !same_string(&fa[k].name, &fb[k].name) || !same_string(&fa[k].value, &fb[k].value)
            || fa[k].inline != fb[k].inline {
            assert(va[k as int] != vb[k as int]);
            return false;
        }
        k += 1;
    }
    assert(va =~= vb);
    assert(a@.footer == b@.footer);
    assert(a@ == b@);
    true
}

/// What the queue message showed when it was last sent: its embed and the
/// switches its buttons were drawn from.
pub struct PanelSnapshot {
    pub embed: EmbedData,
    pub flags: crate::player::PlaybackFlags,
}

/// Whether the queue message must be sent again: nothing was sent yet, or
/// the embed, the switches or (as the caller compares them) the volumes
/// changed since.
pub fn panel_changed(
    last: &Option<PanelSnapshot>,
    embed: &EmbedData,
    flags: crate::player::PlaybackFlags,
    volumes_changed: bool,
) -> (res: bool)
    ensures
        res == match *last {
            None => true,
            Some(l) => l.embed@ != embed@ || l.flags != flags || volumes_changed,
        },
{
    match last {
        None => true,
        Some(l) => !embed_eq(&l.embed, embed) || l.flags != flags || volumes_changed,
    }
}

} // verus!
