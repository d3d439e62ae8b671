use vstd::prelude::*;
use crate::text::{
    append_chars, chars_of, lines, lines_vec, to_string, trim_vec, trimmed, utf8_len,
    utf8_len_capped, lemma_utf8_len_append,
};

verus! {

/// How `Debug` prints a `Duration` of `secs` seconds and `nanos` nanoseconds.
pub uninterp spec fn duration_debug(secs: u64, nanos: u32) -> Seq<char>;

/// The `Debug` text of a duration, such as `1.5s` or `250ms`.
///
/// Trusted: builds a `std::time::Duration` with `Duration::new` and formats it
/// with its `Debug` impl; the contract only names the result, which depends on
/// the two arguments alone. `Duration::new` panics only when the nanoseconds
/// carry over into a seconds count beyond `u64`, which `requires` rules out.
#[verifier::external_body]
fn duration_debug_text(secs: u64, nanos: u32) -> (res: String)
    requires
        nanos < 1_000_000_000,
    ensures
        res@ == duration_debug(secs, nanos),
{
    format!("{:?}", std::time::Duration::new(secs, nanos))
}

/// The most bytes one chunk of the log is meant to hold.
pub const CHUNK_BYTES: usize = 4000;

/// One logged message with the time since the log began.
pub struct LogString {
    pub s: String,
    pub secs: u64,
    pub nanos: u32,
}

/// A logged message as plain values: text, seconds, nanoseconds.
pub type LogEntry = (Seq<char>, u64, u32);

impl View for LogString {
    type V = LogEntry;

    open spec fn view(&self) -> LogEntry {
        (self.s@, self.secs, self.nanos)
    }
}

/// `lines` each prefixed with `prefix`, glued together with nothing between.
pub open spec fn prefixed_lines(ls: Seq<Seq<char>>, prefix: Seq<char>) -> Seq<char>
    decreases ls.len(),
{
    if ls.len() == 0 {
        Seq::empty()
    } else {
        prefixed_lines(ls.drop_last(), prefix) + prefix + ls.last()
    }
}

/// The prefix that a message's lines carry: `[<time>] `.
pub open spec fn time_prefix(secs: u64, nanos: u32) -> Seq<char> {
    seq!['['] + duration_debug(secs, nanos) + seq![']', ' ']
}

/// How a logged message is shown: each of its lines after the time prefix.
pub open spec fn pretty_text(e: LogEntry) -> Seq<char> {
    prefixed_lines(lines(e.0), time_prefix(e.1, e.2))
}

impl LogString {
    pub open spec fn wf(&self) -> bool {
        self.nanos < 1_000_000_000
    }

    /// The message shown with its time before each of its lines.
    pub fn pretty(&self) -> (res: String)
        requires
            self.wf(),
        ensures
            res@ == pretty_text(self@),
    {
        let d = chars_of(duration_debug_text(self.secs, self.nanos).as_str());
        let mut prefix: Vec<char> = Vec::new();
        prefix.push('[');
        append_chars(&mut prefix, &d);
        prefix.push(']');
        prefix.push(' ');
        assert(prefix@ =~= time_prefix(self.secs, self.nanos));
        let text = chars_of(self.s.as_str());
        let ls = lines_vec(&text);
        let ghost lv = ls@.map_values(|v: Vec<char>| v@);
        let mut out: Vec<char> = Vec::new();
        let mut i: usize = 0;
        while i < ls.len()
            invariant
                i <= ls@.len(),
                lv == ls@.map_values(|v: Vec<char>| v@),
                out@ == prefixed_lines(lv.take(i as int), prefix@),
            decreases ls@.len() - i,
        {
            append_chars(&mut out, &prefix);
            append_chars(&mut out, &ls[i]);
            assert(lv.take(i + 1).drop_last() =~= lv.take(i as int));
            i += 1;
        }
        assert(lv.take(ls@.len() as int) =~= lv);
        to_string(&out)
    }
}

/// A piece of the log that fits one message, and the index of the first entry
/// after it.
pub struct ChunkOfLog {
    pub s: String,
    pub end: usize,
}

/// A chunk as plain values: its text and its end index.
pub open spec fn chunk_view(c: ChunkOfLog) -> (Seq<char>, int) {
    (c.s@, c.end as int)
}

/// The record of what one player did, oldest first.
pub struct Log {
    pub source: String,
    pub entries: Vec<LogString>,
}

/// A shown entry followed by a newline.
pub open spec fn entry_line(e: LogEntry) -> Seq<char> {
    pretty_text(e) + seq!['\n']
}

/// Greedy packing of `ps[0..i]`: the chunks closed so far (text, end index)
/// and the text of the chunk still open. A line that would take the open chunk
/// past `CHUNK_BYTES` closes it (trimmed) and opens the next one.
pub open spec fn chunk_state(ps: Seq<Seq<char>>, i: int) -> (Seq<(Seq<char>, int)>, Seq<char>)
    decreases i,
{
    if i <= 0 {
        (Seq::empty(), Seq::empty())
    } else {
        let (done, cur) = chunk_state(ps, i - 1);
        let p = ps[i - 1];
        if utf8_len(cur) + utf8_len(p) > CHUNK_BYTES {
            (done.push((trimmed(cur), i - 1)), p)
        } else {
            (done, cur + p)
        }
    }
}

/// All chunks of `ps`: those closed on the way, then the last one, untrimmed,
/// ending at the end of the log.
pub open spec fn chunks_of(ps: Seq<Seq<char>>) -> Seq<(Seq<char>, int)> {
    let (done, cur) = chunk_state(ps, ps.len() as int);
    done.push((cur, ps.len() as int))
}

/// What a request for the log sends: at most the first five chunks.
pub open spec fn sent_chunks(cs: Seq<(Seq<char>, int)>) -> Seq<Seq<char>> {
    let n = if cs.len() > 5 { 5 } else { cs.len() };
    cs.take(n as int).map_values(|c: (Seq<char>, int)| c.0)
}

/// The index up to which the log is cleared after it was sent.
pub open spec fn sent_end(cs: Seq<(Seq<char>, int)>) -> int {
    if cs.len() > 5 {
        cs[4].1
    } else if cs.len() > 0 {
        cs.last().1
    } else {
        0
    }
}

/// What `clear_until(rm)` leaves of `es`: everything after index `rm`.
pub open spec fn cleared_until<A>(es: Seq<A>, rm: int) -> Seq<A> {
    if rm >= es.len() {
        Seq::empty()
    } else {
        es.skip(rm + 1)
    }
}

impl Log {
    pub open spec fn wf(&self) -> bool {
        forall|i: int| 0 <= i < self.entries@.len() ==> #[trigger] self.entries@[i].wf()
    }

    pub open spec fn view_entries(&self) -> Seq<LogEntry> {
        self.entries@.map_values(|e: LogString| e@)
    }

    pub open spec fn entry_lines(&self) -> Seq<Seq<char>> {
        self.view_entries().map_values(|e: LogEntry| entry_line(e))
    }

    /// An empty log for `source`.
    pub fn new(source: String) -> (res: Self)
        ensures
            res.wf(),
            res.source@ == source@,
            res.view_entries() == Seq::<LogEntry>::empty(),
    {
        Log { source, entries: Vec::new() }
    }

    /// Records `s`, taken `secs` seconds and `nanos` nanoseconds after the
    /// log began.
    pub fn log(&mut self, s: &str, secs: u64, nanos: u32)
        requires
            old(self).wf(),
            nanos < 1_000_000_000,
        ensures
            final(self).wf(),
            final(self).source@ == old(self).source@,
            final(self).view_entries() == old(self).view_entries().push((s@, secs, nanos)),
    {
        let text = s.to_owned();
        let ghost before = self.view_entries();
        self.entries.push(LogString { s: text, secs, nanos });
        assert(self.view_entries() =~= before.push((s@, secs, nanos)));
    }

    /// Whether nothing is logged.
    pub fn is_empty(&self) -> (res: bool)
        ensures
            res == (self.entries@.len() == 0),
    {
        self.entries.len() == 0
    }

    /// Every entry shown, one per line.
    pub fn get(&self) -> (res: String)
        requires
            self.wf(),
        ensures
            res@ == crate::text::join(
                self.view_entries().map_values(|e: LogEntry| pretty_text(e)),
                seq!['\n'],
            ),
    {
        let mut parts: Vec<Vec<char>> = Vec::new();
        let mut i: usize = 0;
        let ghost target = self.view_entries().map_values(|e: LogEntry| pretty_text(e));
        while i < self.entries.len()
            invariant
                self.wf(),
                i <= self.entries@.len(),
                target == self.view_entries().map_values(|e: LogEntry| pretty_text(e)),
                parts@.map_values(|v: Vec<char>| v@) == target.take(i as int),
            decreases self.entries@.len() - i,
        {
            let p = self.entries[i].pretty();
            let ghost before = parts@.map_values(|v: Vec<char>| v@);
            parts.push(chars_of(p.as_str()));
            assert(parts@.map_values(|v: Vec<char>| v@) =~= before.push(target[i as int]));
            assert(target.take(i + 1) =~= target.take(i as int).push(target[i as int]));
            i += 1;
        }
        assert(target.take(self.entries@.len() as int) =~= target);
        let mut nl: Vec<char> = Vec::new();
        nl.push('\n');
        assert(nl@ =~= seq!['\n']);
        to_string(&crate::text::join_vec(&parts, &nl))
    }

    /// Drops the entries up to and including index `rm`; all of them where
    /// `rm` is past the end.
    pub fn clear_until(&mut self, rm: usize)
        requires
            old(self).wf(),
        ensures
            final(self).wf(),
            final(self).source@ == old(self).source@,
            final(self).view_entries() == cleared_until(old(self).view_entries(), rm as int),
    {
        if rm >= self.entries.len() {
            self.entries = Vec::new();
            assert(self.view_entries() =~= Seq::<LogEntry>::empty());
            return;
        }
        let ghost old_view = self.view_entries();
        let tail = self.entries.split_off(rm + 1);
        self.entries = tail;
        assert(self.view_entries() =~= old_view.skip(rm + 1));
    }

    /// The log cut into chunks: each entry line goes into the open chunk
    /// unless that would take it past `CHUNK_BYTES` bytes, in which case the
    /// open chunk is closed, trimmed, and the line starts the next one.
    pub fn get_chunks_4k(&self) -> (res: Vec<ChunkOfLog>)
        requires
            self.wf(),
        ensures
            res@.map_values(|c: ChunkOfLog| chunk_view(c)) == chunks_of(self.entry_lines()),
            forall|k: int| 0 <= k < res@.len() ==> #[trigger] res@[k].end <= self.entries@.len(),
    {
        let ghost ps = self.entry_lines();
        let mut v: Vec<ChunkOfLog> = Vec::new();
        let mut cur: Vec<char> = Vec::new();
        let mut cur_len: usize = 0;
        let mut i: usize = 0;
        while i < self.entries.len()
            invariant
                self.wf(),
                i <= self.entries@.len(),
                ps == self.entry_lines(),
                ps.len() == self.entries@.len(),
                chunk_state(ps, i as int).0 == v@.map_values(|c: ChunkOfLog| chunk_view(c)),
                chunk_state(ps, i as int).1 == cur@,
                cur_len == (if utf8_len(cur@) < CHUNK_BYTES + 1 { utf8_len(cur@) } else { (CHUNK_BYTES + 1) as nat }),
                forall|k: int| 0 <= k < v@.len() ==> #[trigger] v@[k].end <= i,
            decreases self.entries@.len() - i,
        {
            let mut p = chars_of(self.entries[i].pretty().as_str());
            p.push('\n');
            assert(p@ =~= ps[i as int]);
            let p_len = utf8_len_capped(&p, CHUNK_BYTES + 1);
            let ghost before = v@.map_values(|c: ChunkOfLog| chunk_view(c));
            if cur_len + p_len > CHUNK_BYTES {
                let t = trim_vec(&cur);
                v.push(ChunkOfLog { s: to_string(&t), end: i });
                assert(v@.map_values(|c: ChunkOfLog| chunk_view(c)) =~= before.push((trimmed(cur@), i as int)));
                cur = p;
                cur_len = p_len;
            } else {
                proof {
                    lemma_utf8_len_append(cur@, p@);
                }
                append_chars(&mut cur, &p);
                cur_len = cur_len + p_len;
            }
            i += 1;
        }
        let ghost before = v@.map_values(|c: ChunkOfLog| chunk_view(c));
        v.push(ChunkOfLog { s: to_string(&cur), end: self.entries.len() });
        assert(v@.map_values(|c: ChunkOfLog| chunk_view(c)) =~= before.push((cur@, ps.len() as int)));
        v
    }

    /// Answers a request for the log: the first five chunks at most are
    /// handed out, and the log is cleared up to and including the entry at
    /// the end index of the last chunk handed out.
    pub fn take_for_retrieval(&mut self) -> (res: Vec<String>)
        requires
            old(self).wf(),
        ensures
            final(self).wf(),
            final(self).source@ == old(self).source@,
            res@.map_values(|s: String| s@) == sent_chunks(chunks_of(old(self).entry_lines())),
            final(self).view_entries() == cleared_until(
                old(self).view_entries(),
                sent_end(chunks_of(old(self).entry_lines())),
            ),
    {
        let chunks = self.get_chunks_4k();
        let ghost cs = chunks_of(self.entry_lines());
        let n: usize = if chunks.len() > 5 { 5 } else { chunks.len() };
        let mut out: Vec<String> = Vec::new();
        let mut i: usize = 0;
        while i < n
            invariant
                n <= chunks@.len(),
                n == (if cs.len() > 5 { 5 } else { cs.len() }),
                i <= n,
                cs == chunks@.map_values(|c: ChunkOfLog| chunk_view(c)),
                out@.map_values(|s: String| s@) == cs.take(i as int).map_values(|c: (Seq<char>, int)| c.0),
            decreases n - i,
        {
            let ghost before = out@.map_values(|s: String| s@);
            let piece = chunks[i].s.clone();
            assert(piece@ == cs[i as int].0);
            out.push(piece);
            assert(out@.map_values(|s: String| s@) =~= before.push(cs[i as int].0));
            assert(out@.map_values(|s: String| s@) =~= cs.take(i + 1).map_values(|c: (Seq<char>, int)| c.0));
            i += 1;
        }
        let end: usize = if chunks.len() > 5 {
            chunks[4].end
        } else if chunks.len() > 0 {
            chunks[chunks.len() - 1].end
        } else {
            0
        };
        assert(end == sent_end(cs));
        self.clear_until(end);
        out
    }
}

} // verus!
