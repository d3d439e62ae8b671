use vstd::prelude::*;
use crate::numbers::{parse_usize, parsed_usize};
use crate::text::{
    append_chars, char_width_exec, chars_of, join, join_vec, matches_at, matches_at_exec,
    occurs_in, contains_vec, push_str, split_at_pat, split_vec, starts_with, to_string, utf8_len,
    lemma_utf8_len_take, lemma_split_scan_nonempty,
};

verus! {

/// Whether a media file is kept as sound or as film.
#[derive(Clone, Copy, Debug, PartialEq, Eq, Structural)]
pub enum MediaType {
    Audio,
    Video,
}

/// One entry that the downloader lists for a URL.
pub struct RawVideo {
    pub url: String,
    pub title: String,
    pub duration: u32,
}

/// Why looking up or fetching media failed.
#[derive(Clone, Copy, Debug, PartialEq, Eq, Structural)]
pub enum VideoError {
    /// The text is no URL, and searching was not allowed.
    InvalidUrl,
    /// Nothing was found.
    NoVideos,
    /// A search gave back something that is no URL.
    InvalidUrlAfterSearch,
    /// The media is on disk already.
    AlreadyDownloaded,
}

impl VideoError {
    pub open spec fn text(self) -> Seq<char> {
        match self {
            VideoError::InvalidUrl => "Invalid URL found"@,
            VideoError::NoVideos => "No videos found"@,
            VideoError::InvalidUrlAfterSearch => "Invalid URL found after search query"@,
            VideoError::AlreadyDownloaded => "Video already downloaded"@,
        }
    }

    /// The message shown for this error.
    pub fn message(&self) -> (res: String)
        ensures
            res@ == self.text(),
    {
        match self {
            VideoError::InvalidUrl => to_string(&chars_of("Invalid URL found")),
            VideoError::NoVideos => to_string(&chars_of("No videos found")),
            VideoError::InvalidUrlAfterSearch => to_string(
                &chars_of("Invalid URL found after search query"),
            ),
            VideoError::AlreadyDownloaded => to_string(&chars_of("Video already downloaded")),
        }
    }
}

/// Whether `s` begins with `http://` or `https://`.
pub open spec fn is_http(s: Seq<char>) -> bool {
    starts_with(s, "http://"@) || starts_with(s, "https://"@)
}

/// Whether `s` begins with `http://` or `https://`.
pub fn is_http_url(s: &str) -> (res: bool)
    ensures
        res == is_http(s@),
{
    let v = chars_of(s);
    matches_at_exec(&v, &chars_of("http://"), 0) || matches_at_exec(&v, &chars_of("https://"), 0)
}

/// Where media for a request comes from.
pub enum VideoSource {
    /// Search for the text and take the first hit.
    Search(String),
    /// Ask the downloader about this URL.
    Direct(String),
}

/// What a request for media asks the downloader for: the URL itself, a
/// search where the text is no URL and searching is allowed, else an error.
pub fn plan_source(url: &str, allow_search: bool) -> (res: Result<VideoSource, VideoError>)
    ensures
        is_http(url@) ==> (res matches Ok(VideoSource::Direct(u)) && u@ == url@),
        !is_http(url@) && allow_search ==> (res matches Ok(VideoSource::Search(q)) && q@ == url@),
        !is_http(url@) && !allow_search ==> res == Err::<VideoSource, VideoError>(
            VideoError::InvalidUrl,
        ),
{
    let owned = to_string(&chars_of(url));
    if is_http_url(url) {
        Ok(VideoSource::Direct(owned))
    } else if allow_search {
        Ok(VideoSource::Search(owned))
    } else {
        Err(VideoError::InvalidUrl)
    }
}

/// The URL that a search led to, where it is one.
pub fn checked_search_result(url: String) -> (res: Result<String, VideoError>)
    ensures
        is_http(url@) ==> (res matches Ok(u) && u@ == url@),
        !is_http(url@) ==> res == Err::<String, VideoError>(VideoError::InvalidUrlAfterSearch),
{
    if is_http_url(url.as_str()) {
        Ok(url)
    } else {
        Err(VideoError::InvalidUrlAfterSearch)
    }
}

/// The entries a request keeps: none is an error; all of a playlist where
/// playlists are allowed, else the first alone.
pub fn select_videos(v: Vec<RawVideo>, allow_playlist: bool) -> (res: Result<Vec<RawVideo>, VideoError>)
    ensures
        v@.len() == 0 ==> res == Err::<Vec<RawVideo>, VideoError>(VideoError::NoVideos),
        v@.len() > 0 && allow_playlist ==> (res matches Ok(w) && w@ == v@),
        v@.len() > 0 && !allow_playlist ==> (res matches Ok(w) && w@ == seq![v@[0]]),
{
    if v.len() == 0 {
        return Err(VideoError::NoVideos);
    }
    if allow_playlist {
        Ok(v)
    } else {
        let mut v = v;
        let first = v.remove(0);
        let mut w: Vec<RawVideo> = Vec::new();
        w.push(first);
        Ok(w)
    }
}

/// The characters nanoid draws from by default.
pub open spec fn is_safe_id_char(c: char) -> bool {
    c == '_' || c == '-' || ('0' <= c && c <= '9') || ('a' <= c && c <= 'z') || ('A' <= c && c
        <= 'Z')
}

/// A fresh random identifier of ten URL-safe characters.
///
/// Trusted: calls `nanoid::format` with nanoid's default generator and its
/// `SAFE` alphabet, as `nanoid!(10)` does; its source pushes alphabet
/// characters until the string holds ten. Which ones is left open.
#[verifier::external_body]
fn random_id() -> (res: String)
    ensures
        res@.len() == 10,
        forall|i: int| 0 <= i < res@.len() ==> is_safe_id_char(#[trigger] res@[i]),
{
    nanoid::format(nanoid::rngs::default, &nanoid::alphabet::SAFE, 10)
}

/// The name under which downloaded files are kept: ten random characters,
/// after `SPOILER_` where the media is to be hidden.
pub fn download_id(spoiler: bool) -> (res: String)
    ensures
        spoiler ==> res@.len() == 18 && res@.take(8) == "SPOILER_"@,
        !spoiler ==> res@.len() == 10,
        forall|i: int| res@.len() - 10 <= i < res@.len() ==> is_safe_id_char(#[trigger] res@[i]),
{
    let r = random_id();
    proof {
        reveal_strlit("SPOILER_");
    }
    let mut v: Vec<char> = Vec::new();
    if spoiler {
        push_str(&mut v, "SPOILER_");
    }
    let ghost before = v@;
    push_str(&mut v, r.as_str());
    assert(v@.take(before.len() as int) =~= before);
    to_string(&v)
}

/// An argument for the downloader: a flag and, for some, its value.
pub type DownloaderArg = (String, Option<String>);

pub open spec fn arg_view(a: DownloaderArg) -> (Seq<char>, Option<Seq<char>>) {
    (a.0@, match a.1 {
        Some(v) => Some(v@),
        None => None,
    })
}

pub open spec fn flag(f: Seq<char>) -> (Seq<char>, Option<Seq<char>>) {
    (f, None)
}

pub open spec fn flag_with(f: Seq<char>, v: Seq<char>) -> (Seq<char>, Option<Seq<char>>) {
    (f, Some(v))
}

/// The arguments of a download: one file only, quietly, named after `id`
/// with the playlist index and extension, with metadata, the cookies file
/// where there is one, then extraction to mp3 for audio or the best
/// resolution recoded to mp4 for video.
pub open spec fn download_args_spec(id: Seq<char>, media: MediaType, cookies: Option<Seq<char>>) -> Seq<(Seq<char>, Option<Seq<char>>)> {
    let base = seq![
        flag("--no-playlist"@),
        flag("--quiet"@),
        flag_with("--output"@, id + "_%(playlist_index)s.%(ext)s"@),
        flag("--embed-metadata"@),
    ];
    let with_cookies = match cookies {
        Some(c) => base.push(flag_with("--cookies"@, c)),
        None => base,
    };
    match media {
        MediaType::Audio => with_cookies.push(flag("-x"@)).push(flag_with("--audio-format"@, "mp3"@)),
        MediaType::Video => with_cookies.push(flag_with("-S"@, "res,ext:mp4:m4a"@)).push(
            flag_with("--recode"@, "mp4"@),
        ),
    }
}

fn arg(f: &str) -> (res: DownloaderArg)
    ensures
        arg_view(res) == flag(f@),
{
    (to_string(&chars_of(f)), None)
}

fn arg_with(f: &str, v: Vec<char>) -> (res: DownloaderArg)
    ensures
        arg_view(res) == flag_with(f@, v@),
{
    (to_string(&chars_of(f)), Some(to_string(&v)))
}

fn push_arg(args: &mut Vec<DownloaderArg>, a: DownloaderArg)
    ensures
        final(args)@.map_values(|x: DownloaderArg| arg_view(x)) == old(args)@.map_values(
            |x: DownloaderArg| arg_view(x),
        ).push(arg_view(a)),
{
    let ghost before = args@.map_values(|x: DownloaderArg| arg_view(x));
    args.push(a);
    assert(args@.map_values(|x: DownloaderArg| arg_view(x)) =~= before.push(arg_view(a)));
}

/// The arguments of a download of `media` under the name `id`.
pub fn download_args(id: &str, media: MediaType, cookies: Option<&str>) -> (res: Vec<DownloaderArg>)
    ensures
        res@.map_values(|x: DownloaderArg| arg_view(x)) == download_args_spec(
            id@,
            media,
            match cookies {
                Some(c) => Some(c@),
                None => None,
            },
        ),
{
    let mut args: Vec<DownloaderArg> = Vec::new();
    push_arg(&mut args, arg("--no-playlist"));
    push_arg(&mut args, arg("--quiet"));
    let mut out = chars_of(id);
    push_str(&mut out, "_%(playlist_index)s.%(ext)s");
    push_arg(&mut args, arg_with("--output", out));
    push_arg(&mut args, arg("--embed-metadata"));
    match cookies {
        Some(c) => push_arg(&mut args, arg_with("--cookies", chars_of(c))),
        None => {},
    }
    match media {
        MediaType::Audio => {
            push_arg(&mut args, arg("-x"));
            push_arg(&mut args, arg_with("--audio-format", chars_of("mp3")));
        },
        MediaType::Video => {
            push_arg(&mut args, arg_with("-S", chars_of("res,ext:mp4:m4a")));
            push_arg(&mut args, arg_with("--recode", chars_of("mp4")));
        },
    }
    let ghost got = args@.map_values(|x: DownloaderArg| arg_view(x));
    assert(got =~= download_args_spec(
        id@,
        media,
        match cookies {
            Some(c) => Some(c@),
            None => None,
        },
    ));
    args
}

/// The size limit that a retried audio download drops: `best[filesize<=max]`.
pub open spec fn size_limit_arg(max: Seq<char>) -> (Seq<char>, Option<Seq<char>>) {
    flag_with("-f"@, "best[filesize<="@ + max + "]"@)
}

/// Keeps the arguments that differ from `size_limit_arg(max)`.
pub open spec fn without_limit(
    args: Seq<(Seq<char>, Option<Seq<char>>)>,
    max: Seq<char>,
) -> Seq<(Seq<char>, Option<Seq<char>>)>
    decreases args.len(),
{
    if args.len() == 0 {
        Seq::empty()
    } else if args.last() == size_limit_arg(max) {
        without_limit(args.drop_last(), max)
    } else {
        without_limit(args.drop_last(), max).push(args.last())
    }
}

fn same_text(a: &String, b: &Vec<char>) -> (res: bool)
    ensures
        res == (a@ == b@),
{
    let av = chars_of(a.as_str());
    if av.len() != b.len() {
        return false;
    }
    let mut i: usize = 0;
    while i < av.len()
        invariant
            i <= av@.len(),
            av@.len() == b@.len(),
            av@ == a@,
            av@.take(i as int) =~= b@.take(i as int),
        decreases av@.len() - i,
    {
        if av[i] != b[i] {
            return false;
        }
        assert(av@.take(i + 1) =~= b@.take(i + 1));
        i += 1;
    }
    assert(av@ =~= av@.take(i as int));
    assert(b@ =~= b@.take(i as int));
    true
}

/// The arguments of a retried audio download: those of the first try
/// without a size limit of `max`.
pub fn retry_args(args: Vec<DownloaderArg>, max_filesize: &str) -> (res: Vec<DownloaderArg>)
    ensures
        res@.map_values(|x: DownloaderArg| arg_view(x)) == without_limit(
            args@.map_values(|x: DownloaderArg| arg_view(x)),
            max_filesize@,
        ),
{
    let ghost av = args@.map_values(|x: DownloaderArg| arg_view(x));
    let f = chars_of("-f");
    let mut limit = chars_of("best[filesize<=");
    push_str(&mut limit, max_filesize);
    push_str(&mut limit, "]");
    let mut out: Vec<DownloaderArg> = Vec::new();
    let n = args.len();
    let mut i: usize = 0;
    while i < n
        invariant
            n == av.len(),
            args@.len() == n,
            av == args@.map_values(|x: DownloaderArg| arg_view(x)),
            f@ == "-f"@,
            limit@ == "best[filesize<="@ + max_filesize@ + "]"@,
            i <= n,
            out@.map_values(|x: DownloaderArg| arg_view(x)) == without_limit(av.take(i as int), max_filesize@),
        decreases n - i,
    {
        let a = &args[i];
        let is_limit = match &a.1 {
            Some(v) => same_text(&a.0, &f) && same_text(v, &limit),
            None => false,
        };
        assert(av.take(i + 1).drop_last() =~= av.take(i as int));
        assert(av.take(i + 1).last() == arg_view(*a));
        if !is_limit {
            let copy: DownloaderArg = (
                a.0.clone(),
                match &a.1 {
                    Some(v) => Some(v.clone()),
                    None => None,
                },
            );
            assert(arg_view(copy) == arg_view(*a));
            push_arg(&mut out, copy);
        } else {
            assert(arg_view(*a) == size_limit_arg(max_filesize@));
        }
        i += 1;
    }
    assert(av.take(n as int) =~= av);
    out
}

/// The playlist index in a downloaded file's name `<id>_<index>.<ext>`: the
/// second `_`-separated piece up to its first `.`, read as a number; zero
/// where there is none.
pub open spec fn playlist_index(name: Seq<char>) -> nat {
    let pieces = split_at_pat(name, seq!['_']);
    if pieces.len() > 1 {
        match parsed_usize(split_at_pat(pieces[1], seq!['.'])[0]) {
            Some(v) => v,
            None => 0,
        }
    } else {
        0
    }
}

/// Reads the playlist index out of a downloaded file's name.
pub fn playlist_index_of(name: &str) -> (res: usize)
    ensures
        res == playlist_index(name@),
{
    let v = chars_of(name);
    let mut us: Vec<char> = Vec::new();
    us.push('_');
    assert(us@ =~= seq!['_']);
    let pieces = split_vec(&v, &us);
    if pieces.len() > 1 {
        let mut dot: Vec<char> = Vec::new();
        dot.push('.');
        assert(dot@ =~= seq!['.']);
        let parts = split_vec(&pieces[1], &dot);
        proof {
            lemma_split_scan_nonempty(pieces@[1]@, dot@, 0, 0);
        }
        match parse_usize(&parts[0]) {
            Some(n) => n,
            None => 0,
        }
    } else {
        0
    }
}

/// Among downloaded files, the one the download gives back: of those whose
/// name begins with `id`, the first with the least playlist index.
pub open spec fn is_first_download(names: Seq<Seq<char>>, id: Seq<char>, k: int) -> bool {
    &&& 0 <= k < names.len()
    &&& starts_with(names[k], id)
    &&& forall|j: int|
        0 <= j < names.len() && starts_with(names[j], id) ==> playlist_index(names[k])
            <= playlist_index(#[trigger] names[j])
    &&& forall|j: int|
        0 <= j < k && starts_with(names[j], id) ==> playlist_index(names[k]) < playlist_index(
            #[trigger] names[j],
        )
}

/// Picks the downloaded file to hand out, by index into `names`.
pub fn first_download(names: &Vec<String>, id: &str) -> (res: Option<usize>)
    ensures
        res matches Some(k) ==> is_first_download(names@.map_values(|s: String| s@), id@, k as int),
        res is None ==> forall|j: int|
            0 <= j < names@.len() ==> !starts_with(#[trigger] names@[j]@, id@),
{
    let ghost nv = names@.map_values(|s: String| s@);
    let idv = chars_of(id);
    let mut best: Option<usize> = None;
    let mut best_index: usize = 0;
    let mut i: usize = 0;
    while i < names.len()
        invariant
            i <= names@.len(),
            nv == names@.map_values(|s: String| s@),
            idv@ == id@,
            best is None ==> forall|j: int| 0 <= j < i ==> !starts_with(#[trigger] nv[j], id@),
            best matches Some(k) ==> {
                &&& k < i
                &&& starts_with(nv[k as int], id@)
                &&& best_index == playlist_index(nv[k as int])
                &&& forall|j: int|
                    0 <= j < i && starts_with(nv[j], id@) ==> best_index <= playlist_index(
                        #[trigger] nv[j],
                    )
                &&& forall|j: int|
                    0 <= j < k && starts_with(nv[j], id@) ==> best_index < playlist_index(
                        #[trigger] nv[j],
                    )
            },
        decreases names@.len() - i,
    {
        let name = chars_of(names[i].as_str());
        assert(name@ == nv[i as int]);
        if matches_at_exec(&name, &idv, 0) {
            let p = playlist_index_of(names[i].as_str());
            match best {
                None => {
                    best = Some(i);
                    best_index = p;
                },
                Some(_) => {
                    if p < best_index {
                        best = Some(i);
                        best_index = p;
                    }
                },
            }
        }
        i += 1;
    }
    if best.is_none() {
        assert forall|j: int| 0 <= j < names@.len() implies !starts_with(
            #[trigger] names@[j]@,
            id@,
        ) by {
            assert(nv[j] == names@[j]@);
        }
    }
    best
}

/// The Spotify id in a link: what follows the last `/`, up to the first `?`.
pub open spec fn spotify_id(url: Seq<char>) -> Seq<char> {
    let last = split_at_pat(url, seq!['/']).last();
    split_at_pat(last, seq!['?'])[0]
}

/// Takes the Spotify id out of a link.
pub fn spotify_id_of(url: &str) -> (res: String)
    ensures
        res@ == spotify_id(url@),
{
    let v = chars_of(url);
    let mut slash: Vec<char> = Vec::new();
    slash.push('/');
    assert(slash@ =~= seq!['/']);
    let pieces = split_vec(&v, &slash);
    proof {
        lemma_split_scan_nonempty(v@, slash@, 0, 0);
    }
    let last = &pieces[pieces.len() - 1];
    let mut q: Vec<char> = Vec::new();
    q.push('?');
    assert(q@ =~= seq!['?']);
    let parts = split_vec(last, &q);
    proof {
        lemma_split_scan_nonempty(last@, q@, 0, 0);
    }
    to_string(&parts[0])
}

/// A guild's boost level.
#[derive(Clone, Copy, Debug, PartialEq, Eq, Structural)]
pub enum BoostTier {
    Unboosted,
    Tier1,
    Tier2,
    Tier3,
}

/// The largest file a guild takes, as the downloader's size limit.
pub fn max_upload_size(tier: Option<BoostTier>) -> (res: &'static str)
    ensures
        tier == Some(BoostTier::Tier3) ==> res@ == "100M"@,
        tier == Some(BoostTier::Tier2) ==> res@ == "50M"@,
        tier != Some(BoostTier::Tier3) && tier != Some(BoostTier::Tier2) ==> res@ == "8M"@,
{
    match tier {
        Some(BoostTier::Tier3) => "100M",
        Some(BoostTier::Tier2) => "50M",
        _ => "8M",
    }
}

} // verus!
