use vstd::prelude::*;
use crate::text::{push_str, to_string};

verus! {

/// A song as the radio station reports it.
#[derive(Debug, Default)]
pub struct Song {
    pub artist: String,
    pub title: String,
    pub album: String,
    pub art: String,
}

/// The radio station.
#[derive(Debug, Default)]
pub struct Station {
    pub name: String,
}

/// What the station plays now.
#[derive(Debug, Default)]
pub struct NowPlaying {
    pub song: Song,
}

/// What the station plays next.
#[derive(Debug, Default)]
pub struct PlayingNext {
    pub song: Song,
}

/// The station's now-playing report.
#[derive(Debug, Default)]
pub struct Root {
    pub station: Station,
    pub now_playing: NowPlaying,
    pub playing_next: PlayingNext,
}

impl Song {
    pub open spec fn same(self, other: Song) -> bool {
        &&& self.artist@ == other.artist@
        &&& self.title@ == other.title@
        &&& self.album@ == other.album@
        &&& self.art@ == other.art@
    }

    /// `title - artist on album`, as the queue embed lists a radio song.
    pub open spec fn line(self) -> Seq<char> {
        self.title@ + " - "@ + self.artist@ + " on "@ + self.album@
    }

    /// `title - artist on album`.
    pub fn describe(&self) -> (res: String)
        ensures
            res@ == self.line(),
    {
        let mut v: Vec<char> = Vec::new();
        push_str(&mut v, self.title.as_str());
        push_str(&mut v, " - ");
        push_str(&mut v, self.artist.as_str());
        push_str(&mut v, " on ");
        push_str(&mut v, self.album.as_str());
        to_string(&v)
    }

    fn same_as(&self, other: &Song) -> (res: bool)
        ensures
            res == self.same(*other),
    {
        self.artist == other.artist && self.title == other.title && self.album == other.album
            && self.art == other.art
    }
}

impl Root {
    /// Two reports are the same when every field reads the same.
    pub open spec fn same(self, other: Root) -> bool {
        &&& self.station.name@ == other.station.name@
        &&& self.now_playing.song.same(other.now_playing.song)
        &&& self.playing_next.song.same(other.playing_next.song)
    }

    /// Whether two reports read the same; a report equal to the last one is
    /// not passed on to listeners.
    pub fn same_as(&self, other: &Root) -> (res: bool)
        ensures
            res == self.same(*other),
    {
        self.station.name == other.station.name && self.now_playing.song.same_as(
            &other.now_playing.song,
        ) && self.playing_next.song.same_as(&other.playing_next.song)
    }

    /// `title - artist playing on station`, the embed's author line while
    /// something is queued.
    pub open spec fn author_line(self) -> Seq<char> {
        self.now_playing.song.title@ + " - "@ + self.now_playing.song.artist@ + " playing on "@
            + self.station.name@
    }

    /// The embed's author line while something is queued.
    pub fn describe_author(&self) -> (res: String)
        ensures
            res@ == self.author_line(),
    {
        let mut v: Vec<char> = Vec::new();
        push_str(&mut v, self.now_playing.song.title.as_str());
        push_str(&mut v, " - ");
        push_str(&mut v, self.now_playing.song.artist.as_str());
        push_str(&mut v, " playing on ");
        push_str(&mut v, self.station.name.as_str());
        to_string(&v)
    }
}

/// Whether a freshly fetched report is passed on: always the first, then
/// only one that differs from the last passed on.
pub fn should_broadcast(last: Option<&Root>, fresh: &Root) -> (res: bool)
    ensures
        res == match last {
            Some(l) => !l.same(*fresh),
            None => true,
        },
        last matches Some(l) && (l.station.name@ != fresh.station.name@
            || l.now_playing.song.title@ != fresh.now_playing.song.title@
            || l.now_playing.song.artist@ != fresh.now_playing.song.artist@
            || l.playing_next.song.title@ != fresh.playing_next.song.title@) ==> res,
{
    match last {
        Some(l) => !l.same_as(fresh),
        None => true,
    }
}

} // verus!
