use vstd::prelude::*;
use crate::numbers::same_chars;
use crate::rng::random_below;
use crate::text::{
    char_width_exec, lemma_utf8_len_monotone, lemma_utf8_len_take, utf8_len, utf8_len_capped,
    append_chars, chars_of, ends_with, join, join_vec, matches_at_exec, occurs_in, contains_vec,
    push_str, split_at_pat, split_vec, to_string, lemma_split_scan_nonempty,
};

verus! {

/// Whether a character ends a video id in a page's HTML.
pub open spec fn ends_id(c: char) -> bool {
    c == '>' || c == ' ' || c == '/' || c == '\\' || c == '"' || c == '&'
}

/// The characters of `s` before the first one that ends an id.
pub open spec fn id_prefix(s: Seq<char>) -> Seq<char>
    decreases s.len(),
{
    if s.len() == 0 {
        Seq::empty()
    } else if ends_id(s[0]) {
        Seq::empty()
    } else {
        seq![s[0]] + id_prefix(s.skip(1))
    }
}

/// `s` without a run of equal neighbours beyond its first member.
pub open spec fn dedup_runs(s: Seq<Seq<char>>) -> Seq<Seq<char>>
    decreases s.len(),
{
    if s.len() < 2 {
        s
    } else if s.last() == s[s.len() - 2] {
        dedup_runs(s.drop_last())
    } else {
        dedup_runs(s.drop_last()).push(s.last())
    }
}

/// `s` without the entries equal to `x`.
pub open spec fn without(s: Seq<Seq<char>>, x: Seq<char>) -> Seq<Seq<char>>
    decreases s.len(),
{
    if s.len() == 0 {
        s
    } else if s.last() == x {
        without(s.drop_last(), x)
    } else {
        without(s.drop_last(), x).push(s.last())
    }
}

/// The marker that precedes each video id in a page.
pub open spec fn watch_marker() -> Seq<char> {
    "/watch?v="@
}

/// The video ids that a page links to, in order: what follows each
/// `/watch?v=`, up to the first character that ends an id; repeated
/// neighbours once; without the page's own video; at most `lim` of them.
pub open spec fn page_ids(text: Seq<char>, lim: nat, original: Option<Seq<char>>) -> Seq<Seq<char>> {
    let raw = split_at_pat(text, watch_marker()).skip(1).map_values(|p: Seq<char>| id_prefix(p));
    let d = dedup_runs(raw);
    let kept = match original {
        Some(o) => without(d, o),
        None => d,
    };
    if kept.len() > lim {
        kept.take(lim as int)
    } else {
        kept
    }
}

fn id_prefix_vec(s: &Vec<char>) -> (res: Vec<char>)
    ensures
        res@ == id_prefix(s@),
{
    let mut out: Vec<char> = Vec::new();
    let mut i: usize = 0;
    assert(s@.skip(0) =~= s@);
    assert(out@ + id_prefix(s@.skip(0)) =~= id_prefix(s@));
    while i < s.len()
        invariant
            i <= s@.len(),
            out@ + id_prefix(s@.skip(i as int)) == id_prefix(s@),
        decreases s@.len() - i,
    {
        let c = s[i];
        if c == '>' || c == ' ' || c == '/' || c == '\\' || c == '"' || c == '&' {
            assert(out@ + id_prefix(s@.skip(i as int)) =~= out@);
            return out;
        }
        assert(s@.skip(i as int).skip(1) =~= s@.skip(i + 1));
        assert(out@ + id_prefix(s@.skip(i as int)) =~= out@.push(c) + id_prefix(s@.skip(i + 1)));
        out.push(c);
        i += 1;
    }
    assert(out@ + id_prefix(s@.skip(i as int)) =~= out@);
    out
}

fn same_vec(a: &Vec<char>, b: &Vec<char>) -> (res: bool)
    ensures
        res == (a@ == b@),
{
    if a.len() != b.len() {
        return false;
    }
    let mut i: usize = 0;
    while i < a.len()
        invariant
            i <= a@.len(),
            a@.len() == b@.len(),
            a@.take(i as int) =~= b@.take(i as int),
        decreases a@.len() - i,
    {
        if a[i] != b[i] {
            return false;
        }
        assert(a@.take(i + 1) =~= b@.take(i + 1));
        i += 1;
    }
    assert(a@ =~= a@.take(i as int));
    assert(b@ =~= b@.take(i as int));
    true
}

fn push_piece(v: &mut Vec<Vec<char>>, p: Vec<char>)
    ensures
        final(v)@.map_values(|x: Vec<char>| x@) == old(v)@.map_values(|x: Vec<char>| x@).push(p@),
{
    let ghost before = v@.map_values(|x: Vec<char>| x@);
    v.push(p);
    assert(v@.map_values(|x: Vec<char>| x@) =~= before.push(p@));
}

/// The video ids that a page links to (see `page_ids`).
pub fn ids_from_html(text: &str, lim: usize, original_id: Option<&str>) -> (res: Vec<Vec<char>>)
    ensures
        res@.map_values(|v: Vec<char>| v@) == page_ids(
            text@,
            lim as nat,
            match original_id {
                Some(o) => Some(o@),
                None => None,
            },
        ),
{
    let t = chars_of(text);
    let marker = chars_of("/watch?v=");
    proof {
        reveal_strlit("/watch?v=");
    }
    let pieces = split_vec(&t, &marker);
    let ghost pv = pieces@.map_values(|v: Vec<char>| v@);
    let ghost raw = pv.skip(1).map_values(|p: Seq<char>| id_prefix(p));
    // the ids, repeated neighbours once
    let mut d: Vec<Vec<char>> = Vec::new();
    let mut prev: Option<Vec<char>> = None;
    let mut i: usize = 1;
    while i < pieces.len()
        invariant
            1 <= i || pieces@.len() == 0,
            i <= pieces@.len() || pieces@.len() == 0,
            pv == pieces@.map_values(|v: Vec<char>| v@),
            raw == pv.skip(1).map_values(|p: Seq<char>| id_prefix(p)),
            pieces@.len() >= 1 ==> d@.map_values(|v: Vec<char>| v@) == dedup_runs(raw.take(i - 1)),
            pieces@.len() >= 1 ==> (prev matches Some(p) ==> i >= 2 && p@ == raw[i - 2]),
            pieces@.len() >= 1 ==> (prev is None ==> i == 1),
        decreases pieces@.len() - i,
    {
        let id = id_prefix_vec(&pieces[i]);
        assert(id@ == raw[i - 1]);
        let ghost r = raw.take(i as int);
        assert(r.drop_last() =~= raw.take(i - 1));
        let dup = match &prev {
            Some(p) => same_vec(p, &id),
            None => false,
        };
        if !dup {
            let mut copy: Vec<char> = Vec::new();
            append_chars(&mut copy, &id);
            push_piece(&mut d, copy);
        }
        prev = Some(id);
        i += 1;
    }
    proof {
        lemma_split_scan_nonempty(t@, marker@, 0, 0);
        assert(raw.take(pieces@.len() - 1) =~= raw);
    }
    // without the page's own video
    let ghost dv = d@.map_values(|v: Vec<char>| v@);
    let mut kept: Vec<Vec<char>> = Vec::new();
    let ghost ov = match original_id {
        Some(o) => Some(o@),
        None => None::<Seq<char>>,
    };
    let orig: Option<Vec<char>> = match original_id {
        Some(o) => Some(chars_of(o)),
        None => None,
    };
    let mut k: usize = 0;
    while k < d.len()
        invariant
            k <= d@.len(),
            dv == d@.map_values(|v: Vec<char>| v@),
            orig matches Some(o) ==> ov == Some(o@),
            orig is None ==> ov is None,
            kept@.map_values(|v: Vec<char>| v@) == (match ov {
                Some(o) => without(dv.take(k as int), o),
                None => dv.take(k as int),
            }),
        decreases d@.len() - k,
    {
        assert(dv.take(k + 1).drop_last() =~= dv.take(k as int));
        let drop = match &orig {
            Some(o) => same_vec(&d[k], o),
            None => false,
        };
        if !drop {
            let mut copy: Vec<char> = Vec::new();
            append_chars(&mut copy, &d[k]);
            push_piece(&mut kept, copy);
        }
        proof {
            if ov is None {
                assert(dv.take(k + 1) =~= dv.take(k as int).push(dv[k as int]));
            }
        }
        k += 1;
    }
    assert(dv.take(d@.len() as int) =~= dv);
    // at most `lim` of them
    if kept.len() > lim {
        let mut out: Vec<Vec<char>> = Vec::new();
        let ghost kv = kept@.map_values(|v: Vec<char>| v@);
        let mut j: usize = 0;
        while j < lim
            invariant
                j <= lim < kept@.len(),
                kv == kept@.map_values(|v: Vec<char>| v@),
                out@.map_values(|v: Vec<char>| v@) == kv.take(j as int),
            decreases lim - j,
        {
            let mut copy: Vec<char> = Vec::new();
            append_chars(&mut copy, &kept[j]);
            push_piece(&mut out, copy);
            assert(kv.take(j + 1) =~= kv.take(j as int).push(kv[j as int]));
            j += 1;
        }
        out
    } else {
        kept
    }
}

/// The id of the video a watch URL shows: what follows the first
/// `watch?v=` up to the next one; none where the URL has no such part.
pub open spec fn original_id(url: Seq<char>) -> Option<Seq<char>> {
    if occurs_in(url, "watch?v="@) {
        let p = split_at_pat(url, "watch?v="@);
        if p.len() > 1 {
            Some(p[1])
        } else {
            None
        }
    } else {
        None
    }
}

/// Takes the id of the shown video out of a watch URL.
pub fn original_id_of(url: &str) -> (res: Option<String>)
    ensures
        match original_id(url@) {
            Some(o) => res matches Some(r) && r@ == o,
            None => res is None,
        },
{
    let v = chars_of(url);
    let m = chars_of("watch?v=");
    proof {
        reveal_strlit("watch?v=");
    }
    if !contains_vec(&v, &m) {
        return None;
    }
    let p = split_vec(&v, &m);
    if p.len() > 1 {
        Some(to_string(&p[1]))
    } else {
        None
    }
}

/// Whether a URL can have recommendations: it holds the full watch prefix
/// (anything may follow it, nothing too).
pub open spec fn has_recommendations(url: Seq<char>) -> bool {
    split_at_pat(url, "https://www.youtube.com/watch?v="@).len() > 1
}

pub fn recommendations_possible(url: &str) -> (res: bool)
    ensures
        res == has_recommendations(url@),
{
    let v = chars_of(url);
    let m = chars_of("https://www.youtube.com/watch?v=");
    proof {
        reveal_strlit("https://www.youtube.com/watch?v=");
    }
    let p = split_vec(&v, &m);
    p.len() > 1
}

/// The watch URL of a video id (up to a backslash, if any).
pub open spec fn watch_url(id: Seq<char>) -> Seq<char> {
    "https://www.youtube.com/watch?v="@ + split_at_pat(id, seq!['\\'])[0]
}

pub fn watch_url_of(id: &Vec<char>) -> (res: String)
    ensures
        res@ == watch_url(id@),
{
    let mut bs: Vec<char> = Vec::new();
    bs.push('\\');
    assert(bs@ =~= seq!['\\']);
    let p = split_vec(id, &bs);
    proof {
        lemma_split_scan_nonempty(id@, bs@, 0, 0);
    }
    let mut out = chars_of("https://www.youtube.com/watch?v=");
    append_chars(&mut out, &p[0]);
    to_string(&out)
}

/// The search page of a query, as written by the user.
pub fn search_page_url(query: &str) -> (res: String)
    ensures
        res@ == "https://www.youtube.com/results?search_query="@ + query@,
{
    let mut out = chars_of("https://www.youtube.com/results?search_query=");
    push_str(&mut out, query);
    to_string(&out)
}

/// Whether a byte stays as it is in a URL.
pub open spec fn url_safe_byte(b: u8) -> bool {
    (48 <= b <= 57) || (65 <= b <= 90) || (97 <= b <= 122) || b == 45 || b == 46 || b == 95
        || b == 126
}

pub open spec fn hex_digit(d: u8) -> char {
    if d < 10 {
        ((48 + d) as u8) as char
    } else {
        ((55 + d) as u8) as char
    }
}

/// Percent-encoding of bytes: safe bytes as they are, any other as `%`
/// and two uppercase hexadecimal digits.
pub open spec fn percent_encoded(bytes: Seq<u8>) -> Seq<char>
    decreases bytes.len(),
{
    if bytes.len() == 0 {
        Seq::empty()
    } else {
        let b = bytes.last();
        percent_encoded(bytes.drop_last()) + if url_safe_byte(b) {
            seq![b as char]
        } else {
            seq!['%', hex_digit(b / 16), hex_digit(b % 16)]
        }
    }
}

/// The query percent-encoded for a URL.
///
/// Trusted: calls `urlencoding::encode`, whose source percent-encodes every
/// byte of the UTF-8 text except ASCII letters, digits and `-`, `.`, `_`,
/// `~`, with uppercase hexadecimal digits.
#[verifier::external_body]
fn url_encode(s: &str) -> (res: String)
    ensures
        res@ == percent_encoded(vstd::utf8::encode_utf8(s@)),
{
    urlencoding::encode(s).into_owned()
}

/// The search page of a query, percent-encoded.
pub fn youtube_search_url(query: &str) -> (res: String)
    ensures
        res@ == "https://www.youtube.com/results?search_query="@ + percent_encoded(
            vstd::utf8::encode_utf8(query@),
        ),
{
    let e = url_encode(query);
    let mut out = chars_of("https://www.youtube.com/results?search_query=");
    push_str(&mut out, e.as_str());
    to_string(&out)
}

/// An artist of a Spotify track.
pub struct RawSpotifyArtist {
    pub name: String,
}

/// A Spotify track.
pub struct RawSpotifyTrack {
    pub name: String,
    pub artists: Vec<RawSpotifyArtist>,
}

/// The tracks of a Spotify album.
pub struct RawSpotifyTracks {
    pub items: Vec<RawSpotifyTrack>,
}

/// A Spotify album.
pub struct RawSpotifyAlbum {
    pub tracks: RawSpotifyTracks,
}

/// What to search for a track: `name - artist, artist`.
pub open spec fn track_query(t: RawSpotifyTrack) -> Seq<char> {
    t.name@ + " - "@ + join(t.artists@.map_values(|a: RawSpotifyArtist| a.name@), ", "@)
}

impl RawSpotifyTrack {
    /// What to search for this track.
    pub fn search_text(&self) -> (res: String)
        ensures
            res@ == track_query(*self),
    {
        let ghost names = self.artists@.map_values(|a: RawSpotifyArtist| a.name@);
        let mut parts: Vec<Vec<char>> = Vec::new();
        let mut i: usize = 0;
        while i < self.artists.len()
            invariant
                i <= self.artists@.len(),
                names == self.artists@.map_values(|a: RawSpotifyArtist| a.name@),
                parts@.map_values(|v: Vec<char>| v@) == names.take(i as int),
            decreases self.artists@.len() - i,
        {
            push_piece(&mut parts, chars_of(self.artists[i].name.as_str()));
            assert(names.take(i + 1) =~= names.take(i as int).push(names[i as int]));
            i += 1;
        }
        assert(names.take(self.artists@.len() as int) =~= names);
        let sep = chars_of(", ");
        let mut out = chars_of(self.name.as_str());
        push_str(&mut out, " - ");
        append_chars(&mut out, &join_vec(&parts, &sep));
        to_string(&out)
    }
}

impl RawSpotifyAlbum {
    /// What to search for each track of the album, in order.
    pub fn search_texts(&self) -> (res: Vec<String>)
        ensures
            res@.map_values(|s: String| s@) == self.tracks.items@.map_values(
                |t: RawSpotifyTrack| track_query(t),
            ),
    {
        let ghost want = self.tracks.items@.map_values(|t: RawSpotifyTrack| track_query(t));
        let mut out: Vec<String> = Vec::new();
        let mut i: usize = 0;
        while i < self.tracks.items.len()
            invariant
                i <= self.tracks.items@.len(),
                want == self.tracks.items@.map_values(|t: RawSpotifyTrack| track_query(t)),
                out@.map_values(|s: String| s@) == want.take(i as int),
            decreases self.tracks.items@.len() - i,
        {
            let t = self.tracks.items[i].search_text();
            let ghost before = out@.map_values(|s: String| s@);
            out.push(t);
            assert(out@.map_values(|s: String| s@) =~= before.push(want[i as int]));
            assert(want.take(i + 1) =~= want.take(i as int).push(want[i as int]));
            i += 1;
        }
        assert(want.take(self.tracks.items@.len() as int) =~= want);
        out
    }
}

/// A text-to-speech voice.
#[derive(Clone, Copy, Debug)]
pub struct TTSVoice {
    pub language_code: &'static str,
    pub name: &'static str,
    pub gender: &'static str,
}

impl TTSVoice {
    pub fn new(language_code: &'static str, name: &'static str, gender: &'static str) -> (res: Self)
        ensures
            res.language_code@ == language_code@,
            res.name@ == name@,
            res.gender@ == gender@,
    {
        TTSVoice { language_code, name, gender }
    }
}

impl Default for TTSVoice {
    fn default() -> (res: Self)
        ensures
            res.language_code@ == "en-US"@,
            res.name@ == "en-US-Wavenet-C"@,
            res.gender@ == "FEMALE"@,
    {
        TTSVoice::new("en-US", "en-US-Wavenet-C", "FEMALE")
    }
}

/// A voice as text: language, name and gender.
pub type VoiceView = (Seq<char>, Seq<char>, Seq<char>);

pub open spec fn voice_view(v: TTSVoice) -> VoiceView {
    (v.language_code@, v.name@, v.gender@)
}

fn push_voice(v: &mut Vec<TTSVoice>, x: TTSVoice)
    ensures
        final(v)@.map_values(|y: TTSVoice| voice_view(y)) == old(v)@.map_values(
            |y: TTSVoice| voice_view(y),
        ).push(voice_view(x)),
{
    let ghost before = v@.map_values(|y: TTSVoice| voice_view(y));
    v.push(x);
    assert(v@.map_values(|y: TTSVoice| voice_view(y)) =~= before.push(voice_view(x)));
}

/// The Neural2 voices that announce tracks, in order.
pub open spec fn standard_voice_table() -> Seq<VoiceView> {
    seq![
        ("en-AU"@, "en-AU-Neural2-A"@, "FEMALE"@),
        ("en-AU"@, "en-AU-Neural2-B"@, "MALE"@),
        ("en-AU"@, "en-AU-Neural2-C"@, "FEMALE"@),
        ("en-AU"@, "en-AU-Neural2-D"@, "MALE"@),
        ("en-IN"@, "en-IN-Neural2-A"@, "FEMALE"@),
        ("en-IN"@, "en-IN-Neural2-B"@, "MALE"@),
        ("en-IN"@, "en-IN-Neural2-C"@, "MALE"@),
        ("en-IN"@, "en-IN-Neural2-D"@, "FEMALE"@),
        ("en-GB"@, "en-GB-Neural2-A"@, "FEMALE"@),
        ("en-GB"@, "en-GB-Neural2-B"@, "MALE"@),
        ("en-GB"@, "en-GB-Neural2-C"@, "FEMALE"@),
        ("en-GB"@, "en-GB-Neural2-D"@, "MALE"@),
        ("en-GB"@, "en-GB-Neural2-F"@, "FEMALE"@),
        ("en-US"@, "en-US-Neural2-A"@, "MALE"@),
        ("en-US"@, "en-US-Neural2-C"@, "FEMALE"@),
        ("en-US"@, "en-US-Neural2-D"@, "MALE"@),
        ("en-US"@, "en-US-Neural2-E"@, "FEMALE"@),
        ("en-US"@, "en-US-Neural2-F"@, "FEMALE"@),
        ("en-US"@, "en-US-Neural2-G"@, "FEMALE"@),
        ("en-US"@, "en-US-Neural2-H"@, "FEMALE"@),
        ("en-US"@, "en-US-Neural2-I"@, "MALE"@),
        ("en-US"@, "en-US-Neural2-J"@, "MALE"@),
    ]
}

/// The voices that announce tracks.
pub fn standard_voices() -> (res: Vec<TTSVoice>)
    ensures
        res@.map_values(|v: TTSVoice| voice_view(v)) == standard_voice_table(),
{
    let mut v: Vec<TTSVoice> = Vec::new();
    push_voice(&mut v, TTSVoice::new("en-AU", "en-AU-Neural2-A", "FEMALE"));
    push_voice(&mut v, TTSVoice::new("en-AU", "en-AU-Neural2-B", "MALE"));
    push_voice(&mut v, TTSVoice::new("en-AU", "en-AU-Neural2-C", "FEMALE"));
    push_voice(&mut v, TTSVoice::new("en-AU", "en-AU-Neural2-D", "MALE"));
    push_voice(&mut v, TTSVoice::new("en-IN", "en-IN-Neural2-A", "FEMALE"));
    push_voice(&mut v, TTSVoice::new("en-IN", "en-IN-Neural2-B", "MALE"));
    push_voice(&mut v, TTSVoice::new("en-IN", "en-IN-Neural2-C", "MALE"));
    push_voice(&mut v, TTSVoice::new("en-IN", "en-IN-Neural2-D", "FEMALE"));
    push_voice(&mut v, TTSVoice::new("en-GB", "en-GB-Neural2-A", "FEMALE"));
    push_voice(&mut v, TTSVoice::new("en-GB", "en-GB-Neural2-B", "MALE"));
    push_voice(&mut v, TTSVoice::new("en-GB", "en-GB-Neural2-C", "FEMALE"));
    push_voice(&mut v, TTSVoice::new("en-GB", "en-GB-Neural2-D", "MALE"));
    push_voice(&mut v, TTSVoice::new("en-GB", "en-GB-Neural2-F", "FEMALE"));
    push_voice(&mut v, TTSVoice::new("en-US", "en-US-Neural2-A", "MALE"));
    push_voice(&mut v, TTSVoice::new("en-US", "en-US-Neural2-C", "FEMALE"));
    push_voice(&mut v, TTSVoice::new("en-US", "en-US-Neural2-D", "MALE"));
    push_voice(&mut v, TTSVoice::new("en-US", "en-US-Neural2-E", "FEMALE"));
    push_voice(&mut v, TTSVoice::new("en-US", "en-US-Neural2-F", "FEMALE"));
    push_voice(&mut v, TTSVoice::new("en-US", "en-US-Neural2-G", "FEMALE"));
    push_voice(&mut v, TTSVoice::new("en-US", "en-US-Neural2-H", "FEMALE"));
    push_voice(&mut v, TTSVoice::new("en-US", "en-US-Neural2-I", "MALE"));
    push_voice(&mut v, TTSVoice::new("en-US", "en-US-Neural2-J", "MALE"));
    assert(v@.map_values(|x: TTSVoice| voice_view(x)) =~= standard_voice_table());
    v
}

/// The Neural2 voices for silly announcements, in order.
pub open spec fn silly_voice_table() -> Seq<VoiceView> {
    seq![
        ("fil-PH"@, "fil-ph-Neural2-D"@, "MALE"@),
        ("de-DE"@, "de-DE-Neural2-D"@, "MALE"@),
        ("ja-JP"@, "ja-JP-Neural2-D"@, "MALE"@),
        ("es-ES"@, "es-ES-Neural2-F"@, "MALE"@),
        ("ko-KR"@, "ko-KR-Neural2-B"@, "FEMALE"@),
        ("th-TH"@, "th-TH-Neural2-C"@, "FEMALE"@),
        ("vi-VN"@, "vi-VN-Neural2-A"@, "FEMALE"@),
    ]
}

/// The voices for silly announcements.
pub fn silly_voices() -> (res: Vec<TTSVoice>)
    ensures
        res@.map_values(|v: TTSVoice| voice_view(v)) == silly_voice_table(),
{
    let mut v: Vec<TTSVoice> = Vec::new();
    push_voice(&mut v, TTSVoice::new("fil-PH", "fil-ph-Neural2-D", "MALE"));
    push_voice(&mut v, TTSVoice::new("de-DE", "de-DE-Neural2-D", "MALE"));
    push_voice(&mut v, TTSVoice::new("ja-JP", "ja-JP-Neural2-D", "MALE"));
    push_voice(&mut v, TTSVoice::new("es-ES", "es-ES-Neural2-F", "MALE"));
    push_voice(&mut v, TTSVoice::new("ko-KR", "ko-KR-Neural2-B", "FEMALE"));
    push_voice(&mut v, TTSVoice::new("th-TH", "th-TH-Neural2-C", "FEMALE"));
    push_voice(&mut v, TTSVoice::new("vi-VN", "vi-VN-Neural2-A", "FEMALE"));
    assert(v@.map_values(|x: TTSVoice| voice_view(x)) =~= silly_voice_table());
    v
}

/// The Journey voices, which take the place of both lists where those are chosen.
pub open spec fn journey_voice_table() -> Seq<VoiceView> {
    seq![
        ("en-US"@, "en-US-Journey-D"@, "MALE"@),
        ("en-US"@, "en-US-Journey-F"@, "FEMALE"@),
    ]
}

/// The Journey voices.
pub fn journey_voices() -> (res: Vec<TTSVoice>)
    ensures
        res@.map_values(|v: TTSVoice| voice_view(v)) == journey_voice_table(),
{
    let mut v: Vec<TTSVoice> = Vec::new();
    push_voice(&mut v, TTSVoice::new("en-US", "en-US-Journey-D", "MALE"));
    push_voice(&mut v, TTSVoice::new("en-US", "en-US-Journey-F", "FEMALE"));
    assert(v@.map_values(|x: TTSVoice| voice_view(x)) =~= journey_voice_table());
    v
}

/// The voices of `vs` whose gender is `gender`, in order.
pub open spec fn of_gender(vs: Seq<VoiceView>, gender: Seq<char>) -> Seq<VoiceView>
    decreases vs.len(),
{
    if vs.len() == 0 {
        Seq::empty()
    } else {
        let rest = of_gender(vs.drop_last(), gender);
        if vs.last().2 == gender {
            rest.push(vs.last())
        } else {
            rest
        }
    }
}

/// Keeps only the voices of one gender, as a deployment limited to one does.
pub fn keep_gender(voices: &Vec<TTSVoice>, gender: &str) -> (res: Vec<TTSVoice>)
    ensures
        res@.map_values(|v: TTSVoice| voice_view(v)) == of_gender(
            voices@.map_values(|v: TTSVoice| voice_view(v)),
            gender@,
        ),
{
    let ghost vv = voices@.map_values(|v: TTSVoice| voice_view(v));
    let mut out: Vec<TTSVoice> = Vec::new();
    let mut i: usize = 0;
    while i < voices.len()
        invariant
            i <= voices@.len(),
            vv == voices@.map_values(|v: TTSVoice| voice_view(v)),
            out@.map_values(|v: TTSVoice| voice_view(v)) == of_gender(vv.take(i as int), gender@),
        decreases voices@.len() - i,
    {
        let v = voices[i];
        assert(vv.take(i + 1).drop_last() =~= vv.take(i as int));
        assert(vv.take(i + 1).last() == voice_view(v));
        if same_chars(&chars_of(v.gender), gender) {
            push_voice(&mut out, v);
        }
        i += 1;
    }
    assert(vv.take(voices@.len() as int) =~= vv);
    out
}

/// A voice drawn at random; none from an empty list.
pub fn choose_voice(voices: &Vec<TTSVoice>) -> (res: Option<TTSVoice>)
    ensures
        voices@.len() == 0 <==> res is None,
        res matches Some(v) ==> exists|i: int| 0 <= i < voices@.len() && voices@[i] == v,
{
    if voices.len() == 0 {
        return None;
    }
    let i = random_below(voices.len());
    let v = voices[i];
    assert(voices@[i as int] == v);
    Some(v)
}

/// What an announcement says: the title after `Now playing... ` unless a
/// particular voice was asked for.
pub open spec fn announcement(title: Seq<char>, specific_voice: bool) -> Seq<char> {
    if specific_voice {
        title
    } else {
        "Now playing... "@ + title
    }
}

pub fn announcement_text(title: &str, specific_voice: bool) -> (res: String)
    ensures
        res@ == announcement(title@, specific_voice),
{
    if specific_voice {
        to_string(&chars_of(title))
    } else {
        let mut v = chars_of("Now playing... ");
        push_str(&mut v, title);
        to_string(&v)
    }
}

/// The speech service's answer.
pub struct TTSResponse {
    pub audio_content: String,
}

/// `s` without trailing `=`.
pub open spec fn trim_padding(s: Seq<char>) -> Seq<char>
    decreases s.len(),
{
    if s.len() > 0 && s.last() == '=' {
        trim_padding(s.drop_last())
    } else {
        s
    }
}

/// What the base64 decoder without padding makes of a text: its bytes, or
/// none where the text is no such encoding.
pub uninterp spec fn base64_no_pad(s: Seq<char>) -> Option<Seq<u8>>;

/// Decodes base64 without padding.
///
/// Trusted: calls `base64::Engine::decode` of the `STANDARD_NO_PAD` engine;
/// the contract names what it returns, which depends on the text alone, and
/// maps its error to `None`.
#[verifier::external_body]
fn decode_base64_no_pad(s: &str) -> (res: Option<Vec<u8>>)
    ensures
        match base64_no_pad(s@) {
            Some(b) => res matches Some(v) && v@ == b,
            None => res is None,
        },
{
    match base64::Engine::decode(&base64::engine::general_purpose::STANDARD_NO_PAD, s) {
        Ok(v) => Some(v),
        Err(_) => None,
    }
}

impl TTSResponse {
    /// The audio in the answer: its content without padding, decoded.
    pub fn audio(&self) -> (res: Option<Vec<u8>>)
        ensures
            match base64_no_pad(trim_padding(self.audio_content@)) {
                Some(b) => res matches Some(v) && v@ == b,
                None => res is None,
            },
    {
        let v = chars_of(self.audio_content.as_str());
        let mut end: usize = v.len();
        assert(v@.take(end as int) =~= v@);
        while end > 0 && v[end - 1] == '='
            invariant
                end <= v@.len(),
                trim_padding(v@.take(end as int)) == trim_padding(v@),
            decreases end,
        {
            assert(v@.take(end - 1) =~= v@.take(end as int).drop_last());
            end -= 1;
        }
        assert(v@ =~= v@.take(v@.len() as int));
        let mut t: Vec<char> = Vec::new();
        let mut i: usize = 0;
        while i < end
            invariant
                end <= v@.len(),
                i <= end,
                t@ == v@.take(i as int),
            decreases end - i,
        {
            t.push(v[i]);
            assert(t@ =~= v@.take(i + 1));
            i += 1;
        }
        assert(trim_padding(t@) == t@);
        decode_base64_no_pad(to_string(&t).as_str())
    }
}

/// An access token, refused where the text holds a space (then it is an
/// error message).
pub fn check_access_token(t: String) -> (res: Result<String, String>)
    ensures
        occurs_in(t@, seq![' ']) ==> (res matches Err(e) && e@ == t@),
        !occurs_in(t@, seq![' ']) ==> (res matches Ok(k) && k@ == t@),
{
    let v = chars_of(t.as_str());
    let mut sp: Vec<char> = Vec::new();
    sp.push(' ');
    assert(sp@ =~= seq![' ']);
    if contains_vec(&v, &sp) {
        Err(t)
    } else {
        Ok(t)
    }
}

/// The ids of one search result.
pub struct YTSearchID {
    pub video_id: Option<String>,
    pub playlist_id: Option<String>,
}

/// The snippet of one search result.
pub struct YTSearchSnippet {
    pub title: String,
}

/// One search result.
pub struct YTSearchResult {
    pub id: YTSearchID,
    pub snippet: YTSearchSnippet,
}

/// A page of search results.
pub struct YTSearchResultMeta {
    pub items: Vec<YTSearchResult>,
}

/// One hit of a search, as the suggestions show it.
pub struct SearchHit {
    pub url: String,
    pub title: String,
    pub has_duration: bool,
    pub uploader: Option<String>,
}

/// The label of a suggestion before it is shortened: a note for a track
/// with a length or a film reel for one without, the uploader, the title.
pub open spec fn full_choice_title(has_duration: bool, uploader: Option<Seq<char>>, title: Seq<char>) -> Seq<char> {
    (if has_duration {
        "🎵"@
    } else {
        "📼"@
    }) + " "@ + match uploader {
        Some(u) => u + " - "@,
        None => Seq::empty(),
    } + title
}

/// The label of a hit before it is shortened.
pub open spec fn hit_title(h: SearchHit) -> Seq<char> {
    full_choice_title(
        h.has_duration,
        match h.uploader {
            Some(u) => Some(u@),
            None => None,
        },
        h.title@,
    )
}

/// Whether the first `n` bytes of `t` end on a character.
pub open spec fn byte_boundary(t: Seq<char>, n: nat) -> bool {
    exists|k: int| 0 <= k <= t.len() && utf8_len(#[trigger] t.take(k)) == n
}

/// A suggestion's label: at most 100 bytes, else its first 97 bytes and `...`.
pub open spec fn shortened(t: Seq<char>, out: Seq<char>) -> bool {
    if utf8_len(t) > 100 {
        exists|k: int| 0 <= k <= t.len() && utf8_len(#[trigger] t.take(k)) == 97 && out == t.take(k) + "..."@
    } else {
        out == t
    }
}

fn hit_title_chars(hit: &SearchHit) -> (res: Vec<char>)
    ensures
        res@ == hit_title(*hit),
{
    let mut t = if hit.has_duration {
        chars_of("🎵")
    } else {
        chars_of("📼")
    };
    push_str(&mut t, " ");
    match &hit.uploader {
        Some(u) => {
            push_str(&mut t, u.as_str());
            push_str(&mut t, " - ");
        },
        None => {},
    }
    push_str(&mut t, hit.title.as_str());
    assert(t@ =~= hit_title(*hit));
    t
}

/// Whether a hit's label can be shortened where it must be (what
/// `choice_title` and `search_choices` need of every hit).
pub fn hit_fits(hit: &SearchHit) -> (res: bool)
    ensures
        res == hit_ok(*hit),
{
    let t = hit_title_chars(hit);
    if utf8_len_capped(&t, 101) <= 100 {
        return true;
    }
    let mut acc: usize = 0;
    let mut k: usize = 0;
    while k < t.len() && acc < 97
        invariant
            k <= t@.len(),
            acc == utf8_len(t@.take(k as int)),
            acc <= 100,
            forall|j: int| 0 <= j < k ==> utf8_len(#[trigger] t@.take(j)) < 97,
        decreases t@.len() - k,
    {
        proof {
            lemma_utf8_len_take(t@, k as int);
        }
        acc = acc + char_width_exec(t[k]);
        k += 1;
    }
    if acc == 97 {
        return true;
    }
    proof {
        assert(utf8_len(t@) > 100);
        if byte_boundary(t@, 97) {
            let j = choose|j: int| 0 <= j <= t@.len() && utf8_len(#[trigger] t@.take(j)) == 97;
            if j > k {
                lemma_utf8_len_monotone(t@, k as int, j);
            }
            if k == t@.len() {
                assert(t@.take(k as int) =~= t@);
            }
            assert(false);
        }
    }
    false
}

/// The label of a suggestion.
pub fn choice_title(hit: &SearchHit) -> (res: String)
    requires
        byte_boundary(
            hit_title(*hit),
            97,
        ) || utf8_len(
            hit_title(*hit),
        ) <= 100,
    ensures
        shortened(
            hit_title(*hit),
            res@,
        ),
{
    let t = hit_title_chars(hit);
    if utf8_len_capped(&t, 101) <= 100 {
        return to_string(&t);
    }
    let mut acc: usize = 0;
    let mut k: usize = 0;
    while k < t.len() && acc < 97
        invariant
            k <= t@.len(),
            acc == utf8_len(t@.take(k as int)),
            acc <= 100,
            forall|j: int| 0 <= j < k ==> utf8_len(#[trigger] t@.take(j)) < 97,
        decreases t@.len() - k,
    {
        proof {
            lemma_utf8_len_take(t@, k as int);
            assert forall|j: int| 0 <= j < k + 1 implies utf8_len(#[trigger] t@.take(j)) < 97 by {
                if j == k {
                } else {
                }
            }
        }
        acc = acc + char_width_exec(t[k]);
        k += 1;
    }
    proof {
        assert(byte_boundary(t@, 97));
        assert(utf8_len(t@) > 100);
        if acc != 97 {
            let j = choose|j: int| 0 <= j <= t@.len() && utf8_len(#[trigger] t@.take(j)) == 97;
            if j > k {
                lemma_utf8_len_monotone(t@, k as int, j);
                if acc < 97 {
                    assert(k == t@.len());
                }
            }
            assert(false);
        }
    }
    let mut out: Vec<char> = Vec::new();
    let mut i: usize = 0;
    while i < k
        invariant
            k <= t@.len(),
            i <= k,
            out@ == t@.take(i as int),
        decreases k - i,
    {
        out.push(t[i]);
        assert(out@ =~= t@.take(i + 1));
        i += 1;
    }
    push_str(&mut out, "...");
    assert(utf8_len(t@.take(k as int)) == 97);
    to_string(&out)
}

/// Whether a hit's label can be shortened where it must be.
pub open spec fn hit_ok(h: SearchHit) -> bool {
    byte_boundary(hit_title(h), 97) || utf8_len(hit_title(h)) <= 100
}

/// The suggestions for a search: one that says the search failed, one that
/// says nothing was found, else a label and URL for each of the first 26 hits.
pub open spec fn choices_ok(
    query: Seq<char>,
    hits: Option<Seq<SearchHit>>,
    out: Seq<(Seq<char>, Seq<char>)>,
) -> bool {
    match hits {
        None => out == seq![("Error fetching results"@, query)],
        Some(h) => if h.len() == 0 {
            out == seq![("No results found"@, query)]
        } else {
            &&& out.len() == if h.len() > 26 { 26 } else { h.len() }
            &&& forall|i: int|
                0 <= i < out.len() ==> shortened(hit_title(h[i]), (#[trigger] out[i]).0) && out[i].1
                    == h[i].url@
        },
    }
}

/// The suggestions offered while a search is typed.
pub fn search_choices(query: &str, hits: Option<Vec<SearchHit>>) -> (res: Vec<(String, String)>)
    requires
        hits matches Some(h) ==> forall|i: int| 0 <= i < h@.len() ==> hit_ok(#[trigger] h@[i]),
    ensures
        choices_ok(
            query@,
            match hits {
                Some(h) => Some(h@),
                None => None,
            },
            res@.map_values(|c: (String, String)| (c.0@, c.1@)),
        ),
{
    let mut out: Vec<(String, String)> = Vec::new();
    match hits {
        None => {
            out.push((to_string(&chars_of("Error fetching results")), to_string(&chars_of(query))));
            assert(out@.map_values(|c: (String, String)| (c.0@, c.1@)) =~= seq![
                ("Error fetching results"@, query@),
            ]);
        },
        Some(h) => {
            if h.len() == 0 {
                out.push((to_string(&chars_of("No results found")), to_string(&chars_of(query))));
                assert(out@.map_values(|c: (String, String)| (c.0@, c.1@)) =~= seq![
                    ("No results found"@, query@),
                ]);
            } else {
                let n: usize = if h.len() > 26 { 26 } else { h.len() };
                let mut i: usize = 0;
                while i < n
                    invariant
                        n <= h@.len(),
                        i <= n,
                        forall|j: int| 0 <= j < h@.len() ==> hit_ok(#[trigger] h@[j]),
                        out@.len() == i,
                        forall|j: int|
                            0 <= j < i ==> shortened(hit_title(h@[j]), (#[trigger] out@[j]).0@)
                                && out@[j].1@ == h@[j].url@,
                    decreases n - i,
                {
                    let label = choice_title(&h[i]);
                    out.push((label, h[i].url.clone()));
                    i += 1;
                }
                let ghost ov = out@.map_values(|c: (String, String)| (c.0@, c.1@));
                assert forall|j: int| 0 <= j < ov.len() implies shortened(
                    hit_title(h@[j]),
                    (#[trigger] ov[j]).0,
                ) && ov[j].1 == h@[j].url@ by {
                    assert(ov[j] == (out@[j].0@, out@[j].1@));
                }
            }
        },
    }
    out
}

} // verus!
