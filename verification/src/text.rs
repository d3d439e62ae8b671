use vstd::prelude::*;

verus! {

/// Appends one character to a string.
///
/// Trusted: calls `String::push`, which std documents as "Appends the given
/// char to the end of this String".
#[verifier::external_body]
pub(crate) fn push_char(s: &mut String, c: char)
    ensures
        final(s)@ == old(s)@.push(c),
{
    s.push(c);
}

/// The characters of a string slice, in order, as a vector.
pub fn chars_of(s: &str) -> (res: Vec<char>)
    ensures
        res@ == s@,
{
    let mut res: Vec<char> = Vec::new();
    for c in it: s.chars()
        invariant
            res@ == it.seq().take(it.index() as int),
            it.seq() == s@,
    {
        res.push(c);
    }
    res
}

/// Builds a string out of a sequence of characters.
pub fn string_of(cs: &[char]) -> (res: String)
    ensures
        res@ == cs@,
{
    let mut res = String::new();
    let mut i: usize = 0;
    while i < cs.len()
        invariant
            i <= cs@.len(),
            res@ == cs@.take(i as int),
        decreases cs@.len() - i,
    {
        push_char(&mut res, cs[i]);
        assert(cs@.take(i as int).push(cs@[i as int]) =~= cs@.take(i + 1));
        i += 1;
    }
    assert(cs@.take(cs@.len() as int) =~= cs@);
    res
}

} // verus!

verus! {

/// Whether `pat` occurs in `s` starting at position `i`.
pub open spec fn matches_at(s: Seq<char>, pat: Seq<char>, i: int) -> bool {
    0 <= i && i + pat.len() <= s.len() && s.subrange(i, i + pat.len()) == pat
}

/// `s` with every leftmost, non-overlapping occurrence of `pat` at or after
/// position `i` replaced by `rep` (the part before `i` is dropped).
pub open spec fn replace_from(s: Seq<char>, pat: Seq<char>, rep: Seq<char>, i: int) -> Seq<char>
    decreases s.len() - i,
{
    if i < 0 || i >= s.len() || pat.len() == 0 {
        if 0 <= i < s.len() { s.subrange(i, s.len() as int) } else { Seq::empty() }
    } else if matches_at(s, pat, i) {
        rep + replace_from(s, pat, rep, i + pat.len())
    } else {
        seq![s[i]] + replace_from(s, pat, rep, i + 1)
    }
}

/// `s` with every leftmost, non-overlapping occurrence of `pat` replaced by `rep`.
pub open spec fn replaced(s: Seq<char>, pat: Seq<char>, rep: Seq<char>) -> Seq<char> {
    replace_from(s, pat, rep, 0)
}

/// Whether `pat` occurs anywhere in `s`.
pub open spec fn occurs_in(s: Seq<char>, pat: Seq<char>) -> bool {
    exists|i: int| #[trigger] matches_at(s, pat, i)
}

/// Exec test of `matches_at`.
pub fn matches_at_exec(s: &Vec<char>, pat: &Vec<char>, i: usize) -> (res: bool)
    ensures
        res == matches_at(s@, pat@, i as int),
{
    if i > s.len() || pat.len() > s.len() - i {
        return false;
    }
    let mut k: usize = 0;
    while k < pat.len()
        invariant
            i + pat.len() <= s.len(),
            k <= pat@.len(),
            forall|j: int| 0 <= j < k ==> s@[i + j] == pat@[j],
        decreases pat@.len() - k,
    {
        if s[i + k] != pat[k] {
            assert(s@.subrange(i as int, i + pat@.len())[k as int] != pat@[k as int]);
            return false;
        }
        k += 1;
    }
    assert(s@.subrange(i as int, i + pat@.len()) =~= pat@);
    true
}

/// Replaces every leftmost, non-overlapping occurrence of `pat` in `s` by `rep`.
pub fn replace_vec(s: &Vec<char>, pat: &Vec<char>, rep: &Vec<char>) -> (res: Vec<char>)
    requires
        pat@.len() > 0,
    ensures
        res@ == replaced(s@, pat@, rep@),
{
    let mut out: Vec<char> = Vec::new();
    let mut i: usize = 0;
    while i < s.len()
        invariant
            pat@.len() > 0,
            i <= s@.len(),
            out@ + replace_from(s@, pat@, rep@, i as int) == replaced(s@, pat@, rep@),
        decreases s@.len() - i,
    {
        if matches_at_exec(s, pat, i) {
            let ghost before = out@;
            let mut k: usize = 0;
            while k < rep.len()
                invariant
                    k <= rep@.len(),
                    out@ == before + rep@.take(k as int),
                decreases rep@.len() - k,
            {
                out.push(rep[k]);
                assert(rep@.take(k as int).push(rep@[k as int]) =~= rep@.take(k + 1));
                k += 1;
            }
            assert(rep@.take(rep@.len() as int) =~= rep@);
            assert(before + (rep@ + replace_from(s@, pat@, rep@, i + pat@.len()))
                =~= before + rep@ + replace_from(s@, pat@, rep@, i + pat@.len()));
            i = i + pat.len();
        } else {
            let ghost before = out@;
            out.push(s[i]);
            assert(before + (seq![s@[i as int]] + replace_from(s@, pat@, rep@, i + 1))
                =~= before.push(s@[i as int]) + replace_from(s@, pat@, rep@, i + 1));
            i = i + 1;
        }
    }
    assert(out@ + replace_from(s@, pat@, rep@, i as int) =~= out@);
    out
}

} // verus!

verus! {

/// The Unicode `White_Space` property.
pub open spec fn is_ws(c: char) -> bool {
    let u = c as u32;
    (0x09 <= u <= 0x0d) || u == 0x20 || u == 0x85 || u == 0xa0 || u == 0x1680 || (0x2000 <= u
        <= 0x200a) || u == 0x2028 || u == 0x2029 || u == 0x202f || u == 0x205f || u == 0x3000
}

/// Whether a character is whitespace, as `char::is_whitespace` tells: the
/// Unicode `White_Space` property, whose code points `is_ws` lists.
pub fn is_whitespace(c: char) -> (res: bool)
    ensures
        res == is_ws(c),
{
    let u = c as u32;
    (0x09 <= u && u <= 0x0d) || u == 0x20 || u == 0x85 || u == 0xa0 || u == 0x1680 || (0x2000 <= u
        && u <= 0x200a) || u == 0x2028 || u == 0x2029 || u == 0x202f || u == 0x205f || u == 0x3000
}

/// The pieces of `s` between the occurrences of `pat`, scanning from `i`,
/// with the current piece beginning at `start`.
pub open spec fn split_scan(s: Seq<char>, pat: Seq<char>, start: int, i: int) -> Seq<Seq<char>>
    decreases s.len() - i,
{
    if pat.len() == 0 || i < 0 || i + pat.len() > s.len() {
        seq![s.subrange(start, s.len() as int)]
    } else if matches_at(s, pat, i) {
        seq![s.subrange(start, i)] + split_scan(s, pat, i + pat.len(), i + pat.len())
    } else {
        split_scan(s, pat, start, i + 1)
    }
}

/// `s` split at every leftmost, non-overlapping occurrence of `pat`
/// (what `str::split` yields for a non-empty pattern).
pub open spec fn split_at_pat(s: Seq<char>, pat: Seq<char>) -> Seq<Seq<char>> {
    split_scan(s, pat, 0, 0)
}

pub proof fn lemma_split_scan_nonempty(s: Seq<char>, pat: Seq<char>, start: int, i: int)
    ensures
        split_scan(s, pat, start, i).len() >= 1,
    decreases s.len() - i,
{
    if pat.len() == 0 || i < 0 || i + pat.len() > s.len() {
    } else if matches_at(s, pat, i) {
        lemma_split_scan_nonempty(s, pat, i + pat.len(), i + pat.len());
    } else {
        lemma_split_scan_nonempty(s, pat, start, i + 1);
    }
}

/// Splits `s` at every leftmost, non-overlapping occurrence of `pat`.
pub fn split_vec(s: &Vec<char>, pat: &Vec<char>) -> (res: Vec<Vec<char>>)
    requires
        pat@.len() > 0,
    ensures
        res@.map_values(|v: Vec<char>| v@) == split_at_pat(s@, pat@),
{
    let mut out: Vec<Vec<char>> = Vec::new();
    let mut start: usize = 0;
    let mut i: usize = 0;
    let mut cur: Vec<char> = Vec::new();
    while i < s.len() && pat.len() <= s.len() - i
        invariant
            pat@.len() > 0,
            start <= i <= s@.len(),
            cur@ == s@.subrange(start as int, i as int),
            out@.map_values(|v: Vec<char>| v@) + split_scan(s@, pat@, start as int, i as int)
                == split_at_pat(s@, pat@),
        decreases s@.len() - i,
    {
        if matches_at_exec(s, pat, i) {
            let ghost before = out@.map_values(|v: Vec<char>| v@);
            let piece = cur;
            out.push(piece);
            assert(out@.map_values(|v: Vec<char>| v@) =~= before.push(s@.subrange(
                start as int,
                i as int,
            )));
            assert(before + (seq![s@.subrange(start as int, i as int)] + split_scan(
                s@,
                pat@,
                i + pat@.len(),
                i + pat@.len(),
            )) =~= before.push(s@.subrange(start as int, i as int)) + split_scan(
                s@,
                pat@,
                i + pat@.len(),
                i + pat@.len(),
            ));
            i = i + pat.len();
            start = i;
            cur = Vec::new();
            assert(cur@ =~= s@.subrange(start as int, i as int));
        } else {
            cur.push(s[i]);
            assert(cur@ =~= s@.subrange(start as int, i + 1));
            i = i + 1;
        }
    }
    // the rest of the string holds no further occurrence
    let ghost before = out@.map_values(|v: Vec<char>| v@);
    let mut rest = cur;
    let mut j: usize = i;
    while j < s.len()
        invariant
            start <= i <= j <= s@.len(),
            rest@ == s@.subrange(start as int, j as int),
        decreases s@.len() - j,
    {
        rest.push(s[j]);
        assert(rest@ =~= s@.subrange(start as int, j + 1));
        j += 1;
    }
    out.push(rest);
    assert(out@.map_values(|v: Vec<char>| v@) =~= before + split_scan(
        s@,
        pat@,
        start as int,
        i as int,
    ));
    out
}

} // verus!

verus! {

/// The whitespace-separated words of `s` from position `i` on, the current
/// word having begun at `start` (empty when `start == i`).
pub open spec fn words_scan(s: Seq<char>, start: int, i: int) -> Seq<Seq<char>>
    decreases s.len() - i,
{
    if i < 0 || i >= s.len() {
        if 0 <= start < i && i <= s.len() { seq![s.subrange(start, i)] } else { Seq::empty() }
    } else if is_ws(s[i]) {
        (if 0 <= start < i { seq![s.subrange(start, i)] } else { Seq::empty() }) + words_scan(
            s,
            i + 1,
            i + 1,
        )
    } else {
        words_scan(s, start, i + 1)
    }
}

/// What `str::split_whitespace` yields: the maximal runs of non-whitespace characters.
pub open spec fn words(s: Seq<char>) -> Seq<Seq<char>> {
    words_scan(s, 0, 0)
}

/// Splits `s` into its whitespace-separated words.
pub fn words_vec(s: &Vec<char>) -> (res: Vec<Vec<char>>)
    ensures
        res@.map_values(|v: Vec<char>| v@) == words(s@),
{
    let mut out: Vec<Vec<char>> = Vec::new();
    let mut start: usize = 0;
    let mut i: usize = 0;
    let mut cur: Vec<char> = Vec::new();
    while i < s.len()
        invariant
            start <= i <= s@.len(),
            cur@ == s@.subrange(start as int, i as int),
            out@.map_values(|v: Vec<char>| v@) + words_scan(s@, start as int, i as int) == words(
                s@,
            ),
        decreases s@.len() - i,
    {
        let ghost before = out@.map_values(|v: Vec<char>| v@);
        if is_whitespace(s[i]) {
            if start < i {
                let piece = cur;
                out.push(piece);
                assert(out@.map_values(|v: Vec<char>| v@) =~= before.push(
                    s@.subrange(start as int, i as int),
                ));
                assert(before + (seq![s@.subrange(start as int, i as int)] + words_scan(
                    s@,
                    i + 1,
                    i + 1,
                )) =~= before.push(s@.subrange(start as int, i as int)) + words_scan(
                    s@,
                    i + 1,
                    i + 1,
                ));
            } else {
                assert(out@.map_values(|v: Vec<char>| v@) =~= before);
                assert(Seq::<Seq<char>>::empty() + words_scan(s@, i + 1, i + 1) =~= words_scan(
                    s@,
                    i + 1,
                    i + 1,
                ));
            }
            i = i + 1;
            start = i;
            cur = Vec::new();
            assert(cur@ =~= s@.subrange(start as int, i as int));
        } else {
            cur.push(s[i]);
            assert(cur@ =~= s@.subrange(start as int, i + 1));
            i = i + 1;
        }
    }
    let ghost before = out@.map_values(|v: Vec<char>| v@);
    if start < i {
        out.push(cur);
        assert(out@.map_values(|v: Vec<char>| v@) =~= before + words_scan(
            s@,
            start as int,
            i as int,
        ));
    } else {
        assert(before + words_scan(s@, start as int, i as int) =~= before);
    }
    out
}

/// `parts` joined with `sep` between consecutive parts.
pub open spec fn join(parts: Seq<Seq<char>>, sep: Seq<char>) -> Seq<char>
    decreases parts.len(),
{
    if parts.len() == 0 {
        Seq::empty()
    } else if parts.len() == 1 {
        parts[0]
    } else {
        join(parts.drop_last(), sep) + sep + parts.last()
    }
}

/// Joins `parts` with `sep` between consecutive parts.
pub fn join_vec(parts: &Vec<Vec<char>>, sep: &Vec<char>) -> (res: Vec<char>)
    ensures
        res@ == join(parts@.map_values(|v: Vec<char>| v@), sep@),
{
    let ghost ps = parts@.map_values(|v: Vec<char>| v@);
    let mut out: Vec<char> = Vec::new();
    let mut i: usize = 0;
    while i < parts.len()
        invariant
            i <= parts@.len(),
            ps == parts@.map_values(|v: Vec<char>| v@),
            out@ == join(ps.take(i as int), sep@),
        decreases parts@.len() - i,
    {
        if i > 0 {
            append_chars(&mut out, sep);
        }
        append_chars(&mut out, &parts[i]);
        assert(ps.take(i + 1).drop_last() =~= ps.take(i as int));
        assert(ps.take(i + 1).last() == parts@[i as int]@);
        if i == 0 {
            assert(out@ =~= ps.take(1)[0]);
        }
        i += 1;
    }
    assert(ps.take(parts@.len() as int) =~= ps);
    out
}

/// Whether `w` is a word that `words` can give back: not empty, and without
/// whitespace.
pub open spec fn plain_word(w: Seq<char>) -> bool {
    w.len() > 0 && forall|i: int| 0 <= i < w.len() ==> !is_ws(#[trigger] w[i])
}

/// Scanning a text up to a whitespace character that follows `x` reads the
/// words of `x`, then goes on after that character.
proof fn lemma_words_scan_prefix(x: Seq<char>, z: Seq<char>, a: int, b: int)
    requires
        z.len() > 0,
        is_ws(z[0]),
        0 <= a <= b <= x.len(),
    ensures
        words_scan(x + z, a, b) == words_scan(x, a, b) + words_scan(
            x + z,
            x.len() + 1int,
            x.len() + 1int,
        ),
    decreases x.len() - b,
{
    let s = x + z;
    if b == x.len() {
        assert(s[b] == z[0]);
        if a < b {
            assert(s.subrange(a, b) =~= x.subrange(a, b));
        }
        assert(words_scan(x, a, b) =~= (if a < b { seq![x.subrange(a, b)] } else { Seq::empty() }));
    } else {
        assert(s[b] == x[b]);
        if is_ws(x[b]) {
            if a < b {
                assert(s.subrange(a, b) =~= x.subrange(a, b));
            }
            lemma_words_scan_prefix(x, z, b + 1, b + 1);
            assert(words_scan(s, a, b) =~= (if a < b { seq![x.subrange(a, b)] } else { Seq::empty() })
                + words_scan(s, b + 1, b + 1));
            assert(words_scan(x, a, b) =~= (if a < b { seq![x.subrange(a, b)] } else { Seq::empty() })
                + words_scan(x, b + 1, b + 1));
        } else {
            lemma_words_scan_prefix(x, z, a, b + 1);
        }
    }
}

/// Scanning past a prefix `x` reads the rest as a text of its own.
proof fn lemma_words_scan_shift(x: Seq<char>, y: Seq<char>, a: int, b: int)
    requires
        0 <= a <= b <= y.len(),
    ensures
        words_scan(x + y, x.len() as int + a, x.len() as int + b) == words_scan(y, a, b),
    decreases y.len() - b,
{
    let s = x + y;
    let i = x.len() as int + b;
    if b == y.len() {
        if a < b {
            assert(s.subrange(x.len() as int + a, i) =~= y.subrange(a, b));
        }
    } else {
        assert(s[i] == y[b]);
        if is_ws(y[b]) {
            if a < b {
                assert(s.subrange(x.len() as int + a, i) =~= y.subrange(a, b));
            }
            lemma_words_scan_shift(x, y, b + 1, b + 1);
        } else {
            lemma_words_scan_shift(x, y, a, b + 1);
        }
    }
}

/// A plain word read on its own is that one word.
proof fn lemma_words_scan_word(w: Seq<char>, b: int)
    requires
        plain_word(w),
        0 <= b <= w.len(),
    ensures
        words_scan(w, 0, b) == seq![w],
    decreases w.len() - b,
{
    if b == w.len() {
        assert(w.subrange(0, b) =~= w);
    } else {
        assert(!is_ws(w[b]));
        lemma_words_scan_word(w, b + 1);
    }
}

/// Splitting plain words joined by spaces at whitespace gives the words back.
pub proof fn lemma_words_of_joined(ws: Seq<Seq<char>>)
    requires
        forall|i: int| 0 <= i < ws.len() ==> plain_word(#[trigger] ws[i]),
    ensures
        words(join(ws, seq![' '])) == ws,
    decreases ws.len(),
{
    if ws.len() == 0 {
        assert(words(join(ws, seq![' '])) =~= ws);
    } else if ws.len() == 1 {
        lemma_words_scan_word(ws[0], 0);
        assert(seq![ws[0]] =~= ws);
    } else {
        let front = ws.drop_last();
        let x = join(front, seq![' ']);
        let w = ws.last();
        assert(plain_word(w));
        assert forall|i: int| 0 <= i < front.len() implies plain_word(#[trigger] front[i]) by {
            assert(front[i] == ws[i]);
        }
        lemma_words_of_joined(front);
        let z = seq![' '] + w;
        assert(join(ws, seq![' ']) =~= x + z);
        assert(z[0] == ' ');
        lemma_words_scan_prefix(x, z, 0, 0);
        let xs = x + seq![' '];
        assert(x + z =~= xs + w);
        lemma_words_scan_shift(xs, w, 0, 0);
        lemma_words_scan_word(w, 0);
        assert(words(join(ws, seq![' '])) =~= front + seq![w]);
        assert(front + seq![w] =~= ws);
    }
}

/// Appends all of `more` to `out`.
pub fn append_chars(out: &mut Vec<char>, more: &Vec<char>)
    ensures
        final(out)@ == old(out)@ + more@,
{
    let mut k: usize = 0;
    while k < more.len()
        invariant
            k <= more@.len(),
            out@ == old(out)@ + more@.take(k as int),
        decreases more@.len() - k,
    {
        out.push(more[k]);
        assert(old(out)@ + more@.take(k + 1) =~= (old(out)@ + more@.take(k as int)).push(
            more@[k as int],
        ));
        k += 1;
    }
    assert(more@.take(more@.len() as int) =~= more@);
}

/// Index of the first non-whitespace character at or after `i`.
pub open spec fn trim_start_idx(s: Seq<char>, i: int) -> int
    decreases s.len() - i,
{
    if 0 <= i < s.len() && is_ws(s[i]) {
        trim_start_idx(s, i + 1)
    } else {
        i
    }
}

/// One past the last non-whitespace character before `j`.
pub open spec fn trim_end_idx(s: Seq<char>, j: int) -> int
    decreases j,
{
    if 0 < j <= s.len() && is_ws(s[j - 1]) {
        trim_end_idx(s, j - 1)
    } else {
        j
    }
}

/// What `str::trim` yields: `s` without leading and trailing whitespace.
pub open spec fn trimmed(s: Seq<char>) -> Seq<char> {
    let a = trim_start_idx(s, 0);
    if a >= s.len() {
        Seq::empty()
    } else {
        s.subrange(a, trim_end_idx(s, s.len() as int))
    }
}

proof fn lemma_trim_start_idx(s: Seq<char>, i: int)
    requires
        0 <= i <= s.len(),
    ensures
        i <= trim_start_idx(s, i) <= s.len(),
        trim_start_idx(s, i) < s.len() ==> !is_ws(s[trim_start_idx(s, i)]),
    decreases s.len() - i,
{
    if 0 <= i < s.len() && is_ws(s[i]) {
        lemma_trim_start_idx(s, i + 1);
    }
}

proof fn lemma_trim_end_idx(s: Seq<char>, j: int, a: int)
    requires
        0 <= a < j <= s.len(),
        !is_ws(s[a]),
    ensures
        a < trim_end_idx(s, j) <= j,
    decreases j,
{
    if 0 < j <= s.len() && is_ws(s[j - 1]) {
        lemma_trim_end_idx(s, j - 1, a);
    }
}

/// Trimming never makes a text longer in UTF-8 bytes.
pub proof fn lemma_utf8_len_trimmed(s: Seq<char>)
    ensures
        utf8_len(trimmed(s)) <= utf8_len(s),
{
    let a = trim_start_idx(s, 0);
    lemma_trim_start_idx(s, 0);
    if a < s.len() {
        let b = trim_end_idx(s, s.len() as int);
        lemma_trim_end_idx(s, s.len() as int, a);
        assert(s =~= s.take(a) + s.subrange(a, b) + s.skip(b));
        lemma_utf8_len_append(s.take(a) + s.subrange(a, b), s.skip(b));
        lemma_utf8_len_append(s.take(a), s.subrange(a, b));
    } else {
        assert(trimmed(s) =~= Seq::<char>::empty());
    }
}

/// Removes leading and trailing whitespace.
pub fn trim_vec(s: &Vec<char>) -> (res: Vec<char>)
    ensures
        res@ == trimmed(s@),
{
    let mut a: usize = 0;
    while a < s.len() && is_whitespace(s[a])
        invariant
            a <= s@.len(),
            trim_start_idx(s@, a as int) == trim_start_idx(s@, 0),
        decreases s@.len() - a,
    {
        a += 1;
    }
    if a >= s.len() {
        return Vec::new();
    }
    proof {
        lemma_trim_start_idx(s@, 0);
        lemma_trim_end_idx(s@, s@.len() as int, a as int);
    }
    let mut b: usize = s.len();
    while b > 0 && is_whitespace(s[b - 1])
        invariant
            a < s@.len(),
            !is_ws(s@[a as int]),
            a < b <= s@.len() || (b <= a && false),
            trim_end_idx(s@, b as int) == trim_end_idx(s@, s@.len() as int),
        decreases b,
    {
        b -= 1;
    }
    let mut out: Vec<char> = Vec::new();
    let mut k: usize = a;
    while k < b
        invariant
            a <= k <= b <= s@.len(),
            out@ == s@.subrange(a as int, k as int),
        decreases b - k,
    {
        out.push(s[k]);
        assert(out@ =~= s@.subrange(a as int, k + 1));
        k += 1;
    }
    out
}

} // verus!

verus! {

/// The decimal digit for `d` (`'?'` beyond nine).
pub open spec fn digit_char(d: int) -> char {
    if d == 0 {
        '0'
    } else if d == 1 {
        '1'
    } else if d == 2 {
        '2'
    } else if d == 3 {
        '3'
    } else if d == 4 {
        '4'
    } else if d == 5 {
        '5'
    } else if d == 6 {
        '6'
    } else if d == 7 {
        '7'
    } else if d == 8 {
        '8'
    } else if d == 9 {
        '9'
    } else {
        '?'
    }
}

/// The decimal notation of `n`, as `Display` prints an unsigned integer.
pub open spec fn decimal(n: nat) -> Seq<char>
    decreases n,
{
    if n < 10 {
        seq![digit_char(n as int)]
    } else {
        decimal(n / 10).push(digit_char((n % 10) as int))
    }
}

/// The decimal notation of a signed integer, with a leading `-` when negative.
pub open spec fn signed_decimal(n: int) -> Seq<char> {
    if n < 0 {
        seq!['-'] + decimal((-n) as nat)
    } else {
        decimal(n as nat)
    }
}

fn digit(d: u64) -> (c: char)
    requires
        d < 10,
    ensures
        c == digit_char(d as int),
{
    match d {
        0 => '0',
        1 => '1',
        2 => '2',
        3 => '3',
        4 => '4',
        5 => '5',
        6 => '6',
        7 => '7',
        8 => '8',
        _ => '9',
    }
}

/// The decimal notation of `n`.
pub fn decimal_vec(n: u64) -> (res: Vec<char>)
    ensures
        res@ == decimal(n as nat),
    decreases n,
{
    if n < 10 {
        let mut v = Vec::new();
        v.push(digit(n));
        assert(v@ =~= seq![digit_char(n as int)]);
        v
    } else {
        let mut v = decimal_vec(n / 10);
        v.push(digit(n % 10));
        v
    }
}

/// The decimal notation of a signed integer.
pub fn signed_decimal_vec(n: i64) -> (res: Vec<char>)
    ensures
        res@ == signed_decimal(n as int),
{
    if n < 0 {
        let m: u64 = if n == i64::MIN {
            9223372036854775808u64
        } else {
            (-n) as u64
        };
        let digits = decimal_vec(m);
        let mut v = Vec::new();
        v.push('-');
        append_chars(&mut v, &digits);
        assert(v@ =~= seq!['-'] + decimal((-n) as nat));
        v
    } else {
        decimal_vec(n as u64)
    }
}

/// The characters of a string literal or slice, appended to `out`.
pub fn push_str(out: &mut Vec<char>, s: &str)
    ensures
        final(out)@ == old(out)@ + s@,
{
    let v = chars_of(s);
    append_chars(out, &v);
}

/// The position of the first occurrence of `pat` at or after `i`, if any.
pub open spec fn find_from(s: Seq<char>, pat: Seq<char>, i: int) -> int
    decreases s.len() + 1 - i,
{
    if i < 0 || i + pat.len() > s.len() {
        -1
    } else if matches_at(s, pat, i) {
        i
    } else {
        find_from(s, pat, i + 1)
    }
}

pub proof fn lemma_find_from(s: Seq<char>, pat: Seq<char>, i: int)
    requires
        0 <= i,
    ensures
        find_from(s, pat, i) == -1 ==> forall|j: int| i <= j ==> !#[trigger] matches_at(s, pat, j),
        find_from(s, pat, i) != -1 ==> {
            &&& i <= find_from(s, pat, i)
            &&& matches_at(s, pat, find_from(s, pat, i))
            &&& forall|j: int| i <= j < find_from(s, pat, i) ==> !#[trigger] matches_at(s, pat, j)
        },
    decreases s.len() + 1 - i,
{
    if i < 0 || i + pat.len() > s.len() {
    } else if matches_at(s, pat, i) {
    } else {
        lemma_find_from(s, pat, i + 1);
    }
}

/// Whether `pat` occurs in `s`.
pub fn contains_vec(s: &Vec<char>, pat: &Vec<char>) -> (res: bool)
    ensures
        res == occurs_in(s@, pat@),
{
    let mut i: usize = 0;
    while i < s.len()
        invariant
            i <= s@.len(),
            forall|j: int| 0 <= j < i ==> !#[trigger] matches_at(s@, pat@, j),
        decreases s@.len() - i,
    {
        if matches_at_exec(s, pat, i) {
            assert(matches_at(s@, pat@, i as int));
            return true;
        }
        i += 1;
    }
    if matches_at_exec(s, pat, i) {
        assert(matches_at(s@, pat@, i as int));
        return true;
    }
    assert forall|j: int| !#[trigger] matches_at(s@, pat@, j) by {
        if 0 <= j && j <= s@.len() {
        }
    }
    false
}

/// Whether `s` begins with `pat`.
pub open spec fn starts_with(s: Seq<char>, pat: Seq<char>) -> bool {
    matches_at(s, pat, 0)
}

/// Whether `s` ends with `pat`.
pub open spec fn ends_with(s: Seq<char>, pat: Seq<char>) -> bool {
    matches_at(s, pat, s.len() - pat.len())
}

} // verus!

verus! {

/// How `Display` prints a boolean.
pub open spec fn bool_text(b: bool) -> Seq<char> {
    if b {
        "true"@
    } else {
        "false"@
    }
}

/// Appends the `Display` text of a boolean.
pub fn push_bool(out: &mut Vec<char>, b: bool)
    ensures
        final(out)@ == old(out)@ + bool_text(b),
{
    if b {
        push_str(out, "true");
    } else {
        push_str(out, "false");
    }
}

/// A string holding the characters of `v`.
pub fn to_string(v: &Vec<char>) -> (res: String)
    ensures
        res@ == v@,
{
    string_of(v.as_slice())
}

} // verus!

verus! {

/// `s` without one trailing carriage return.
pub open spec fn strip_cr(s: Seq<char>) -> Seq<char> {
    if s.len() > 0 && s.last() == '\r' {
        s.drop_last()
    } else {
        s
    }
}

/// What `str::lines` yields: the pieces between newlines, each without a
/// carriage return just before its newline; a final empty piece is dropped.
pub open spec fn lines(s: Seq<char>) -> Seq<Seq<char>> {
    let p = split_at_pat(s, seq!['\n']);
    let body = p.drop_last().map_values(|l: Seq<char>| strip_cr(l));
    if p.len() == 0 || p.last().len() == 0 {
        body
    } else {
        body.push(p.last())
    }
}

/// The lines of `s`.
pub fn lines_vec(s: &Vec<char>) -> (res: Vec<Vec<char>>)
    ensures
        res@.map_values(|v: Vec<char>| v@) == lines(s@),
{
    let mut nl: Vec<char> = Vec::new();
    nl.push('\n');
    assert(nl@ =~= seq!['\n']);
    let pieces = split_vec(s, &nl);
    let ghost p = pieces@.map_values(|v: Vec<char>| v@);
    proof {
        lemma_split_scan_nonempty(s@, nl@, 0, 0);
    }
    let n = pieces.len();
    let mut out: Vec<Vec<char>> = Vec::new();
    let mut i: usize = 0;
    while i + 1 < n
        invariant
            n == pieces@.len(),
            n >= 1,
            i + 1 <= n,
            p == pieces@.map_values(|v: Vec<char>| v@),
            out@.map_values(|v: Vec<char>| v@) == p.take(i as int).map_values(|l: Seq<char>| strip_cr(l)),
        decreases n - i,
    {
        let piece = &pieces[i];
        let mut line: Vec<char> = Vec::new();
        let mut k: usize = 0;
        let cut = if piece.len() > 0 && piece[piece.len() - 1] == '\r' {
            piece.len() - 1
        } else {
            piece.len()
        };
        while k < cut
            invariant
                cut <= piece@.len(),
                k <= cut,
                line@ == piece@.take(k as int),
            decreases cut - k,
        {
            line.push(piece[k]);
            assert(line@ =~= piece@.take(k + 1));
            k += 1;
        }
        assert(line@ =~= strip_cr(piece@));
        let ghost before = out@.map_values(|v: Vec<char>| v@);
        out.push(line);
        assert(out@.map_values(|v: Vec<char>| v@) =~= before.push(strip_cr(p[i as int])));
        assert(p.take(i + 1).map_values(|l: Seq<char>| strip_cr(l)) =~= p.take(i as int).map_values(|l: Seq<char>| strip_cr(l)).push(strip_cr(p[i as int])));
        i += 1;
    }
    assert(p.take(i as int) =~= p.drop_last());
    let last = &pieces[n - 1];
    if last.len() > 0 {
        let mut copy: Vec<char> = Vec::new();
        append_chars(&mut copy, last);
        let ghost before = out@.map_values(|v: Vec<char>| v@);
        out.push(copy);
        assert(out@.map_values(|v: Vec<char>| v@) =~= before.push(p.last()));
    }
    out
}

/// The number of bytes `s` takes in UTF-8, as `str::len` gives it.
pub open spec fn char_width(c: char) -> nat {
    if (c as u32) < 0x80 {
        1
    } else if (c as u32) < 0x800 {
        2
    } else if (c as u32) < 0x10000 {
        3
    } else {
        4
    }
}

/// The number of bytes that UTF-8 takes for a sequence of characters.
pub open spec fn utf8_len(s: Seq<char>) -> nat
    decreases s.len(),
{
    if s.len() == 0 {
        0
    } else {
        utf8_len(s.drop_last()) + char_width(s.last())
    }
}

pub proof fn lemma_utf8_len_take(s: Seq<char>, i: int)
    requires
        0 <= i < s.len(),
    ensures
        utf8_len(s.take(i + 1)) == utf8_len(s.take(i)) + char_width(s[i]),
{
    assert(s.take(i + 1).drop_last() =~= s.take(i));
}

pub proof fn lemma_utf8_len_append(a: Seq<char>, b: Seq<char>)
    ensures
        utf8_len(a + b) == utf8_len(a) + utf8_len(b),
    decreases b.len(),
{
    if b.len() > 0 {
        assert((a + b).drop_last() =~= a + b.drop_last());
        lemma_utf8_len_append(a, b.drop_last());
    } else {
        assert(a + b =~= a);
    }
}

pub proof fn lemma_utf8_len_monotone(s: Seq<char>, i: int, j: int)
    requires
        0 <= i <= j <= s.len(),
    ensures
        utf8_len(s.take(i)) <= utf8_len(s.take(j)),
    decreases j - i,
{
    if i < j {
        lemma_utf8_len_take(s, j - 1);
        lemma_utf8_len_monotone(s, i, j - 1);
    }
}

pub fn char_width_exec(c: char) -> (res: usize)
    ensures
        res == char_width(c),
{
    let n: u32 = c as u32;
    if n < 0x80 {
        1
    } else if n < 0x800 {
        2
    } else if n < 0x10000 {
        3
    } else {
        4
    }
}

/// The UTF-8 length of `s`, or `cap` where that length reaches `cap`.
pub fn utf8_len_capped(s: &Vec<char>, cap: usize) -> (res: usize)
    ensures
        res == (if utf8_len(s@) < cap { utf8_len(s@) } else { cap as nat }),
{
    if cap == 0 {
        return 0;
    }
    let mut acc: usize = 0;
    let mut i: usize = 0;
    while i < s.len()
        invariant
            i <= s.len(),
            acc == utf8_len(s@.take(i as int)),
            acc < cap,
        decreases s.len() - i,
    {
        proof {
            lemma_utf8_len_take(s@, i as int);
        }
        let w = char_width_exec(s[i]);
        if w >= cap - acc {
            proof {
                lemma_utf8_len_monotone(s@, i as int + 1, s@.len() as int);
                assert(s@.take(s@.len() as int) =~= s@);
            }
            return cap;
        }
        acc = acc + w;
        i = i + 1;
    }
    proof {
        assert(s@.take(i as int) =~= s@);
    }
    acc
}

/// What `str::to_lowercase` makes of a string.
pub uninterp spec fn lowercase(s: Seq<char>) -> Seq<char>;

/// The lowercase form of `s`.
///
/// Trusted: calls `str::to_lowercase`; the contract names the result, which
/// the Unicode case tables fix for the given text alone.
#[verifier::external_body]
pub(crate) fn to_lowercase(s: &str) -> (res: String)
    ensures
        res@ == lowercase(s@),
{
    s.to_lowercase()
}

} // verus!
