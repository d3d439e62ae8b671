use vstd::prelude::*;
use crate::log::{chunk_state, chunks_of};
use crate::message::{by_name, insert_by_name, str_lt, EmojiView};
use crate::player::{
    command_ensures, switch_ensures, CommandOutcome, OrToggle, PlayerCommand, PlayerState,
    switch_value, with_switch,
};
use crate::log::CHUNK_BYTES;
use crate::text::{ends_with, lemma_utf8_len_append, lemma_utf8_len_trimmed, trimmed, utf8_len};
use crate::transcribe::{is_sorted_set_of, without_value};
use crate::numbers::{
    humanize, lemma_small_number_words, ones_word, small_words, spoken_number, teen_word, tens_word,
    word_effect,
};
use crate::text::{join, lemma_words_of_joined, plain_word, words};
use crate::voice::{
    after_phrase, alias_filtered, command_reply, consent_phrase, filtered_input, first_alert_from,
    speech_text, voice_reply, AlertView, IntentView,
};
use crate::message::{bar_emojis, without_links};
use crate::commands::{panel_outcome, PanelToggle, PanelView, PanelVoice};
use crate::embed::{busy_embed, EmbedTiming};
use crate::duration::friendly_text;
use crate::radio::Root;
use crate::message::{emoji_tags, spoken_message};
use crate::text::{matches_at, replace_from, replaced};

verus! {

/// Asking twice for the opposite of a switch gives its first value back.
pub proof fn law_toggle_twice(current: bool)
    ensures
        OrToggle::Toggle.value_for(OrToggle::Toggle.value_for(current)) == current,
{
}

/// Asking for a given value twice gives that value both times.
pub proof fn law_specific_idempotent(b: bool, current: bool)
    ensures
        OrToggle::Specific(b).value_for(OrToggle::Specific(b).value_for(current)) == OrToggle::Specific(
            b,
        ).value_for(current),
{
}

/// Toggling the same switch of the player twice leaves the player as it was.
pub proof fn law_switch_toggle_twice<T>(
    s0: PlayerState<T>,
    s1: PlayerState<T>,
    s2: PlayerState<T>,
    which: nat,
    o1: CommandOutcome<T>,
    o2: CommandOutcome<T>,
)
    requires
        which <= 4,
        switch_ensures(s0, s1, which, OrToggle::Toggle, o1),
        switch_ensures(s1, s2, which, OrToggle::Toggle, o2),
    ensures
        s2 == s0,
{
    let f0 = s0.flags;
    let v = !switch_value(f0, which);
    let f1 = with_switch(f0, which, v);
    assert(switch_value(f1, which) == v);
    assert(with_switch(f1, which, !v) == f0);
}

/// Only playing and removing change the queue; every other command leaves
/// it as it was.
pub proof fn law_queue_changes_only_by_play_or_remove<T>(
    s0: PlayerState<T>,
    s1: PlayerState<T>,
    cmd: PlayerCommand<T>,
    out: CommandOutcome<T>,
)
    requires
        command_ensures(s0, s1, cmd, out),
        !(cmd is Play),
        !(cmd is Remove),
    ensures
        s1.queue == s0.queue,
{
}

/// What is spoken back always ends with a full stop.
pub proof fn law_speech_ends_with_full_stop(t: Seq<char>)
    ensures
        ends_with(speech_text(t), seq!['.']),
{
    let r = speech_text(t);
    if !ends_with(t, seq!['.']) {
        assert(r.subrange(r.len() - 1, r.len() as int) =~= seq!['.']);
    }
}

proof fn lemma_chunk_state_ends(ps: Seq<Seq<char>>, i: int)
    requires
        0 <= i <= ps.len(),
    ensures
        forall|k: int|
            0 <= k < chunk_state(ps, i).0.len() ==> 0 <= #[trigger] chunk_state(ps, i).0[k].1 < i,
        forall|k: int, j: int|
            0 <= k < j < chunk_state(ps, i).0.len() ==> #[trigger] chunk_state(ps, i).0[k].1
                < #[trigger] chunk_state(ps, i).0[j].1,
    decreases i,
{
    if i > 0 {
        lemma_chunk_state_ends(ps, i - 1);
        let prev = chunk_state(ps, i - 1);
        let now = chunk_state(ps, i).0;
        if utf8_len(prev.1) + utf8_len(ps[i - 1]) > CHUNK_BYTES {
            assert(now == prev.0.push((trimmed(prev.1), i - 1)));
            assert forall|k: int| 0 <= k < now.len() implies 0 <= #[trigger] now[k].1 < i by {
                if k < prev.0.len() {
                    assert(now[k] == prev.0[k]);
                }
            }
            assert forall|k: int, j: int| 0 <= k < j < now.len() implies #[trigger] now[k].1
                < #[trigger] now[j].1 by {
                assert(now[k] == prev.0[k]);
                if j < prev.0.len() {
                    assert(now[j] == prev.0[j]);
                }
            }
        } else {
            assert(now == prev.0);
        }
    }
}

/// The chunks of a log each end within it, in increasing order, and the last
/// one ends at its end: no entry is left out behind the last chunk.
pub proof fn law_chunks_cover_the_log(ps: Seq<Seq<char>>)
    ensures
        chunks_of(ps).len() >= 1,
        chunks_of(ps).last().1 == ps.len(),
        forall|k: int| 0 <= k < chunks_of(ps).len() ==> 0 <= #[trigger] chunks_of(ps)[k].1 <= ps.len(),
        forall|k: int, j: int|
            0 <= k < j < chunks_of(ps).len() ==> #[trigger] chunks_of(ps)[k].1 <= #[trigger] chunks_of(
                ps,
            )[j].1,
{
    lemma_chunk_state_ends(ps, ps.len() as int);
    let done = chunk_state(ps, ps.len() as int).0;
    assert forall|k: int| 0 <= k < chunks_of(ps).len() implies 0 <= #[trigger] chunks_of(ps)[k].1
        <= ps.len() by {
        if k < done.len() {
            assert(chunks_of(ps)[k] == done[k]);
        }
    }
    assert forall|k: int, j: int|
        0 <= k < j < chunks_of(ps).len() implies #[trigger] chunks_of(ps)[k].1
        <= #[trigger] chunks_of(ps)[j].1 by {
        assert(chunks_of(ps)[k] == done[k]);
        if j < done.len() {
            assert(chunks_of(ps)[j] == done[j]);
        }
    }
}

proof fn lemma_chunk_state_fits(ps: Seq<Seq<char>>, i: int, longest: nat)
    requires
        0 <= i <= ps.len(),
        CHUNK_BYTES <= longest,
        forall|j: int| 0 <= j < ps.len() ==> utf8_len(#[trigger] ps[j]) <= longest,
    ensures
        utf8_len(chunk_state(ps, i).1) <= longest,
        forall|k: int|
            0 <= k < chunk_state(ps, i).0.len() ==> utf8_len(#[trigger] chunk_state(ps, i).0[k].0)
                <= longest,
    decreases i,
{
    if i > 0 {
        lemma_chunk_state_fits(ps, i - 1, longest);
        let prev = chunk_state(ps, i - 1);
        let now = chunk_state(ps, i).0;
        let p = ps[i - 1];
        if utf8_len(prev.1) + utf8_len(p) > CHUNK_BYTES {
            lemma_utf8_len_trimmed(prev.1);
            assert(now == prev.0.push((trimmed(prev.1), i - 1)));
            assert forall|k: int| 0 <= k < now.len() implies utf8_len(#[trigger] now[k].0)
                <= longest by {
                if k < prev.0.len() {
                    assert(now[k] == prev.0[k]);
                }
            }
        } else {
            lemma_utf8_len_append(prev.1, p);
        }
    }
}

/// No chunk of a log is longer in UTF-8 bytes than `CHUNK_BYTES` or the
/// longest entry line, whichever is more; so when no line passes
/// `CHUNK_BYTES`, no chunk does.
pub proof fn law_chunks_fit(ps: Seq<Seq<char>>, longest: nat)
    requires
        CHUNK_BYTES <= longest,
        forall|j: int| 0 <= j < ps.len() ==> utf8_len(#[trigger] ps[j]) <= longest,
    ensures
        forall|k: int| 0 <= k < chunks_of(ps).len() ==> utf8_len(#[trigger] chunks_of(ps)[k].0) <= longest,
{
    lemma_chunk_state_fits(ps, ps.len() as int, longest);
    let done = chunk_state(ps, ps.len() as int).0;
    assert forall|k: int| 0 <= k < chunks_of(ps).len() implies utf8_len(#[trigger] chunks_of(ps)[k].0)
        <= longest by {
        if k < done.len() {
            assert(chunks_of(ps)[k] == done[k]);
        }
    }
}

proof fn lemma_str_lt_irreflexive(a: Seq<char>)
    ensures
        !str_lt(a, a),
    decreases a.len(),
{
    if a.len() > 0 {
        lemma_str_lt_irreflexive(a.skip(1));
    }
}

proof fn lemma_str_lt_asymmetric(a: Seq<char>, b: Seq<char>)
    ensures
        !(str_lt(a, b) && str_lt(b, a)),
    decreases a.len(),
{
    if a.len() > 0 && b.len() > 0 && a[0] == b[0] {
        lemma_str_lt_asymmetric(a.skip(1), b.skip(1));
    }
}

proof fn lemma_str_lt_total(a: Seq<char>, b: Seq<char>)
    ensures
        a != b ==> str_lt(a, b) || str_lt(b, a),
    decreases a.len(),
{
    if a.len() > 0 && b.len() > 0 && a[0] == b[0] {
        lemma_str_lt_total(a.skip(1), b.skip(1));
        if a.skip(1) == b.skip(1) {
            assert(a =~= seq![a[0]] + a.skip(1));
            assert(b =~= seq![b[0]] + b.skip(1));
        }
    } else if a.len() == 0 && b.len() == 0 {
        assert(a =~= b);
    }
}

proof fn lemma_str_lt_transitive(a: Seq<char>, b: Seq<char>, c: Seq<char>)
    requires
        str_lt(a, b),
        str_lt(b, c),
    ensures
        str_lt(a, c),
    decreases a.len(),
{
    if a.len() > 0 && b.len() > 0 && c.len() > 0 && a[0] == b[0] && b[0] == c[0] {
        lemma_str_lt_transitive(a.skip(1), b.skip(1), c.skip(1));
    }
}

/// Whether some emoji of `l` is named `n`.
pub open spec fn has_name(l: Seq<EmojiView>, n: Seq<char>) -> bool {
    exists|i: int| 0 <= i < l.len() && #[trigger] l[i].0 == n
}

/// Whether emojis are ordered strictly by name.
pub open spec fn ordered_by_name(l: Seq<EmojiView>) -> bool {
    forall|i: int, j: int| 0 <= i < j < l.len() ==> str_lt(#[trigger] l[i].0, #[trigger] l[j].0)
}

proof fn lemma_insert_by_name(l: Seq<EmojiView>, x: EmojiView)
    requires
        ordered_by_name(l),
    ensures
        ordered_by_name(insert_by_name(l, x)),
        forall|n: Seq<char>|
            #[trigger] has_name(insert_by_name(l, x), n) <==> (has_name(l, n) || n == x.0),
    decreases l.len(),
{
    if l.len() == 0 {
        let r = insert_by_name(l, x);
        assert(r =~= seq![x]);
        assert forall|n: Seq<char>|
            has_name(r, n) <==> n == x.0 by {
            if n == x.0 {
                assert(r[0].0 == n);
            }
        }
    } else if l[0].0 == x.0 {
        assert forall|n: Seq<char>|
            has_name(l, n) <==> (has_name(l, n) || n == x.0) by {
            if n == x.0 {
                assert(l[0].0 == n);
            }
        }
    } else if str_lt(x.0, l[0].0) {
        let r = seq![x] + l;
        assert forall|i: int, j: int| 0 <= i < j < r.len() implies str_lt(
            #[trigger] r[i].0,
            #[trigger] r[j].0,
        ) by {
            if i == 0 {
                if j > 1 {
                    assert(str_lt(l[0].0, l[j - 1].0));
                    lemma_str_lt_transitive(x.0, l[0].0, l[j - 1].0);
                }
            } else {
                assert(r[i] == l[i - 1] && r[j] == l[j - 1]);
            }
        }
        assert forall|n: Seq<char>|
            has_name(r, n) <==> (has_name(l, n) || n == x.0) by {
            if has_name(r, n) {
                let i = choose|i: int| 0 <= i < r.len() && #[trigger] r[i].0 == n;
                if i > 0 {
                    assert(l[i - 1].0 == n);
                }
            }
            if has_name(l, n) {
                let i = choose|i: int| 0 <= i < l.len() && #[trigger] l[i].0 == n;
                assert(r[i + 1].0 == n);
            }
            if n == x.0 {
                assert(r[0].0 == n);
            }
        }
    } else {
        let t = l.skip(1);
        assert forall|i: int, j: int| 0 <= i < j < t.len() implies str_lt(
            #[trigger] t[i].0,
            #[trigger] t[j].0,
        ) by {
            assert(t[i] == l[i + 1] && t[j] == l[j + 1]);
        }
        lemma_insert_by_name(t, x);
        let rest = insert_by_name(t, x);
        let r = seq![l[0]] + rest;
        lemma_str_lt_total(x.0, l[0].0);
        assert forall|i: int, j: int| 0 <= i < j < r.len() implies str_lt(
            #[trigger] r[i].0,
            #[trigger] r[j].0,
        ) by {
            if i == 0 {
                let n = rest[j - 1].0;
                assert(has_name(rest, n));
                if n == x.0 {
                } else {
                    let k = choose|k: int| 0 <= k < t.len() && #[trigger] t[k].0 == n;
                    assert(t[k] == l[k + 1]);
                }
            } else {
                assert(r[i] == rest[i - 1] && r[j] == rest[j - 1]);
            }
        }
        assert forall|n: Seq<char>|
            has_name(r, n) <==> (has_name(l, n) || n == x.0) by {
            if has_name(r, n) {
                let i = choose|i: int| 0 <= i < r.len() && #[trigger] r[i].0 == n;
                if i == 0 {
                    assert(l[0].0 == n);
                } else {
                    assert(rest[i - 1].0 == n);
                    assert(has_name(rest, n));
                    if n != x.0 {
                        assert(has_name(t, n));
                        let k = choose|k: int| 0 <= k < t.len() && #[trigger] t[k].0 == n;
                        assert(l[k + 1].0 == n);
                    }
                }
            }
            if has_name(l, n) {
                let i = choose|i: int| 0 <= i < l.len() && #[trigger] l[i].0 == n;
                if i == 0 {
                    assert(r[0].0 == n);
                } else {
                    assert(t[i - 1].0 == n);
                    assert(has_name(t, n));
                    assert(has_name(rest, n));
                    let k = choose|k: int| 0 <= k < rest.len() && #[trigger] rest[k].0 == n;
                    assert(r[k + 1].0 == n);
                }
            }
            if n == x.0 {
                assert(has_name(rest, n));
                let k = choose|k: int| 0 <= k < rest.len() && #[trigger] rest[k].0 == n;
                assert(r[k + 1].0 == n);
            }
        }
    }
}

/// The emojis of a message come out ordered strictly by name (so each name
/// once), and with exactly the names written in it.
pub proof fn law_emojis_sorted_and_deduplicated(tags: Seq<EmojiView>)
    ensures
        ordered_by_name(by_name(tags)),
        forall|n: Seq<char>| #[trigger] has_name(by_name(tags), n) <==> has_name(tags, n),
    decreases tags.len(),
{
    if tags.len() > 0 {
        law_emojis_sorted_and_deduplicated(tags.drop_last());
        lemma_insert_by_name(by_name(tags.drop_last()), tags.last());
        let d = tags.drop_last();
        assert forall|n: Seq<char>|
            has_name(by_name(tags), n)
                <==> has_name(tags, n) by {
            if has_name(d, n) {
                let i = choose|i: int| 0 <= i < d.len() && #[trigger] d[i].0 == n;
                assert(tags[i].0 == n);
            }
            if n == tags.last().0 {
                assert(tags[tags.len() - 1].0 == n);
            }
            if has_name(tags, n) {
                let i = choose|i: int| 0 <= i < tags.len() && #[trigger] tags[i].0 == n;
                if i < tags.len() - 1 {
                    assert(d[i].0 == n);
                }
            }
        }
    }
}

proof fn lemma_push_contains(s: Seq<u64>, v: u64, y: u64)
    ensures
        s.push(v).contains(y) <==> (s.contains(y) || y == v),
{
    if s.contains(y) {
        let i = choose|i: int| 0 <= i < s.len() && s[i] == y;
        assert(s.push(v)[i] == y);
    }
    if y == v {
        assert(s.push(v)[s.len() as int] == y);
    }
    if s.push(v).contains(y) {
        let i = choose|i: int| 0 <= i < s.push(v).len() && s.push(v)[i] == y;
        if i < s.len() {
            assert(s[i] == y);
        }
    }
}

proof fn lemma_without_value(s: Seq<u64>, x: u64)
    ensures
        forall|y: u64| #[trigger] without_value(s, x).contains(y) <==> (s.contains(y) && y != x),
    decreases s.len(),
{
    if s.len() > 0 {
        let d = s.drop_last();
        lemma_without_value(d, x);
        let wd = without_value(d, x);
        let w = without_value(s, x);
        assert(s =~= d.push(s.last()));
        assert forall|y: u64| #[trigger] w.contains(y) <==> (s.contains(y) && y != x) by {
            lemma_push_contains(d, s.last(), y);
            if s.last() == x {
                assert(w == wd);
            } else {
                assert(w == wd.push(s.last()));
                lemma_push_contains(wd, s.last(), y);
            }
        }
    }
}

/// After a text channel is added to a voice channel's list, the list holds
/// it; after it is taken out, the list does not; no other channel comes or
/// goes either way.
pub proof fn law_set_channel_read_back(before: Seq<u64>, after: Seq<u64>, text: u64, keep: bool)
    requires
        keep ==> is_sorted_set_of(after, before.push(text)),
        !keep ==> after == without_value(before, text),
    ensures
        keep ==> after.contains(text),
        !keep ==> !after.contains(text),
        forall|y: u64| y != text ==> (#[trigger] after.contains(y) <==> before.contains(y)),
{
    if keep {
        assert(before.push(text)[before.len() as int] == text);
        assert forall|y: u64| y != text implies (#[trigger] after.contains(y) <==> before.contains(
            y,
        )) by {
            if before.contains(y) {
                let i = choose|i: int| 0 <= i < before.len() && before[i] == y;
                assert(before.push(text)[i] == y);
            }
            if before.push(text).contains(y) {
                let i = choose|i: int| 0 <= i < before.push(text).len() && before.push(text)[i] == y;
                assert(before[i] == y);
            }
        }
    } else {
        lemma_without_value(before, text);
    }
}

/// Reading one number word after the words before it.
proof fn lemma_spoken_step(ws: Seq<Seq<char>>, w: Seq<char>, before: nat, add: bool, k: nat)
    requires
        spoken_number(ws) == Some(before),
        word_effect(w) == Some((add, k)),
        (if add { before * k } else { before + k }) <= usize::MAX,
    ensures
        spoken_number(ws.push(w)) == Some(if add { before * k } else { before + k }),
{
    assert(ws.push(w).drop_last() =~= ws);
}

/// The words that `humanize` writes for a volume from zero to one hundred.
spec fn volume_words(n: nat) -> Seq<Seq<char>> {
    if n == 0 {
        seq!["zero"@]
    } else if n == 100 {
        seq![ones_word(1), "hundred"@]
    } else {
        small_words(n)
    }
}

proof fn lemma_humanize_volume(n: nat)
    requires
        n <= 100,
    ensures
        humanize(n) == join(volume_words(n), seq![' ']),
{
    let none = Seq::<Seq<char>>::empty();
    if n == 100 {
        assert(none + seq![ones_word(1), "hundred"@] + none + small_words(0) =~= volume_words(n));
    } else if n > 0 {
        assert(none + none + none + small_words(n) =~= volume_words(n));
    }
}

proof fn lemma_volume_words_plain(n: nat)
    requires
        n <= 100,
    ensures
        forall|i: int| 0 <= i < volume_words(n).len() ==> plain_word(#[trigger] volume_words(n)[i]),
{
    lemma_small_number_words();
}

proof fn lemma_volume_words_value(n: nat)
    requires
        n <= 100,
    ensures
        spoken_number(volume_words(n)) == Some(n),
{
    lemma_small_number_words();
    let e: Seq<Seq<char>> = Seq::empty();
    let ws = volume_words(n);
    if n == 0 {
        lemma_spoken_step(e, "zero"@, 0, false, 0);
        assert(e.push("zero"@) =~= ws);
    } else if n == 100 {
        lemma_spoken_step(e, ones_word(1), 0, false, 1);
        lemma_spoken_step(e.push(ones_word(1)), "hundred"@, 1, true, 100);
        assert(e.push(ones_word(1)).push("hundred"@) =~= ws);
    } else if n >= 20 {
        let t = n / 10;
        lemma_spoken_step(e, tens_word(t), 0, false, 10 * t);
        if n % 10 > 0 {
            lemma_spoken_step(e.push(tens_word(t)), ones_word(n % 10), 10 * t, false, n % 10);
            assert(e.push(tens_word(t)).push(ones_word(n % 10)) =~= ws);
        } else {
            assert(e.push(tens_word(t)) =~= ws);
        }
    } else if n >= 10 {
        lemma_spoken_step(e, teen_word(n), 0, false, n);
        assert(e.push(teen_word(n)) =~= ws);
    } else {
        lemma_spoken_step(e, ones_word(n), 0, false, n);
        assert(e.push(ones_word(n)) =~= ws);
    }
}

/// Every volume that can be set by voice, from zero to one hundred, is spoken
/// back in words that read as the same number.
pub proof fn law_volume_words_read_back(n: nat)
    requires
        n <= 100,
    ensures
        spoken_number(words(humanize(n))) == Some(n),
{
    lemma_humanize_volume(n);
    lemma_volume_words_plain(n);
    lemma_words_of_joined(volume_words(n));
    lemma_volume_words_value(n);
}

/// Text pieces written one after another.
pub open spec fn concat(ts: Seq<Seq<char>>) -> Seq<char>
    decreases ts.len(),
{
    if ts.len() == 0 {
        Seq::empty()
    } else {
        ts[0] + concat(ts.skip(1))
    }
}

/// The pieces of `ts` other than `p`, in order.
pub open spec fn without_piece(ts: Seq<Seq<char>>, p: Seq<char>) -> Seq<Seq<char>>
    decreases ts.len(),
{
    if ts.len() == 0 {
        Seq::empty()
    } else {
        (if ts[0] == p { Seq::empty() } else { seq![ts[0]] }) + without_piece(ts.skip(1), p)
    }
}

/// Whether `t` is one of the bar emojis from the `k`-th on.
pub open spec fn bar_from(t: Seq<char>, k: int) -> bool {
    exists|i: int| k <= i < 6 && t == #[trigger] bar_emojis()[i]
}

spec fn tag_shaped(t: Seq<char>) -> bool {
    &&& t.len() == 25
    &&& t[0] == '<'
    &&& forall|j: int| 1 <= j < 25 ==> t[j] != '<'
}

proof fn lemma_bar_tags_shaped()
    ensures
        forall|i: int| 0 <= i < 6 ==> tag_shaped(#[trigger] bar_emojis()[i]),
{
    reveal_strlit("<:LE:1038954704744480898>");
    reveal_strlit("<:LC:1038954708422885386>");
    reveal_strlit("<:CE:1038954710184497203>");
    reveal_strlit("<:CC:1038954696980824094>");
    reveal_strlit("<:RE:1038954703033217285>");
    reveal_strlit("<:RC:1038954706841649192>");
    assert(tag_shaped(bar_emojis()[0]));
    assert(tag_shaped(bar_emojis()[1]));
    assert(tag_shaped(bar_emojis()[2]));
    assert(tag_shaped(bar_emojis()[3]));
    assert(tag_shaped(bar_emojis()[4]));
    assert(tag_shaped(bar_emojis()[5]));
}

proof fn lemma_replace_shift(x: Seq<char>, y: Seq<char>, p: Seq<char>, i: int)
    requires
        0 <= i,
    ensures
        replace_from(x + y, p, Seq::empty(), x.len() + i) == replace_from(y, p, Seq::empty(), i),
    decreases y.len() - i,
{
    let s = x + y;
    let k = x.len() + i;
    if i >= y.len() || p.len() == 0 {
        if 0 <= i < y.len() {
            assert(s.subrange(k, s.len() as int) =~= y.subrange(i, y.len() as int));
        }
    } else {
        assert(s[k] == y[i]);
        if i + p.len() <= y.len() {
            assert(s.subrange(k, k + p.len()) =~= y.subrange(i, i + p.len()));
        }
        assert(matches_at(s, p, k) == matches_at(y, p, i));
        if matches_at(y, p, i) {
            lemma_replace_shift(x, y, p, i + p.len());
        } else {
            lemma_replace_shift(x, y, p, i + 1);
        }
    }
}

/// Whether `t` holds no `<`: no bar emoji can begin inside it.
pub open spec fn no_tag_start(t: Seq<char>) -> bool {
    forall|j: int| 0 <= j < t.len() ==> t[j] != '<'
}

/// Whether `t` is a bar emoji from the `k`-th on, or text with no `<`.
pub open spec fn piece_from(t: Seq<char>, k: int) -> bool {
    bar_from(t, k) || no_tag_start(t)
}

proof fn lemma_replace_inside(t: Seq<char>, y: Seq<char>, p: Seq<char>, j: int)
    requires
        tag_shaped(p),
        0 <= j <= t.len(),
        forall|i: int| j <= i < t.len() ==> t[i] != '<',
    ensures
        replace_from(t + y, p, Seq::empty(), j) == t.subrange(j, t.len() as int) + replace_from(
            t + y,
            p,
            Seq::empty(),
            t.len() as int,
        ),
    decreases t.len() - j,
{
    let s = t + y;
    let n = t.len() as int;
    if j == n {
        assert(t.subrange(j, n) + replace_from(s, p, Seq::empty(), n) =~= replace_from(
            s,
            p,
            Seq::empty(),
            n,
        ));
    } else {
        assert(s[j] == t[j]);
        if matches_at(s, p, j) {
            assert(s.subrange(j, j + p.len())[0] == s[j]);
        }
        lemma_replace_inside(t, y, p, j + 1);
        assert(replace_from(s, p, Seq::empty(), j) == seq![s[j]] + replace_from(
            s,
            p,
            Seq::empty(),
            j + 1,
        ));
        assert(seq![t[j]] + (t.subrange(j + 1, n) + replace_from(s, p, Seq::empty(), n))
            =~= t.subrange(j, n) + replace_from(s, p, Seq::empty(), n));
    }
}

proof fn lemma_replace_piece(t: Seq<char>, y: Seq<char>, p: Seq<char>)
    requires
        tag_shaped(p),
        tag_shaped(t) || no_tag_start(t),
    ensures
        replace_from(t + y, p, Seq::empty(), 0) == (if t == p { Seq::empty() } else { t })
            + replace_from(y, p, Seq::empty(), 0),
{
    let s = t + y;
    let n = t.len() as int;
    lemma_replace_shift(t, y, p, 0);
    if no_tag_start(t) {
        if t.len() > 0 {
            assert(t[0] != p[0]);
        }
        assert(t != p);
        lemma_replace_inside(t, y, p, 0);
        assert(t.subrange(0, n) =~= t);
    } else {
        assert(s.subrange(0, 25) =~= t);
        if t == p {
            assert(matches_at(s, p, 0));
            assert(Seq::<char>::empty() + replace_from(s, p, Seq::empty(), 25) =~= replace_from(
                s,
                p,
                Seq::empty(),
                25,
            ));
        } else {
            assert(!matches_at(s, p, 0));
            lemma_replace_inside(t, y, p, 1);
            assert(s[0] == t[0]);
            assert(seq![t[0]] + t.subrange(1, 25) =~= t);
            assert(seq![t[0]] + (t.subrange(1, 25) + replace_from(s, p, Seq::empty(), 25)) =~= t
                + replace_from(s, p, Seq::empty(), 25));
        }
    }
}

proof fn lemma_replace_pieces(ts: Seq<Seq<char>>, k: int)
    requires
        0 <= k < 6,
        forall|i: int| 0 <= i < ts.len() ==> piece_from(#[trigger] ts[i], k),
    ensures
        replaced(concat(ts), bar_emojis()[k], Seq::empty()) == concat(
            without_piece(ts, bar_emojis()[k]),
        ),
        forall|i: int|
            0 <= i < without_piece(ts, bar_emojis()[k]).len() ==> piece_from(
                #[trigger] without_piece(ts, bar_emojis()[k])[i],
                k + 1,
            ),
    decreases ts.len(),
{
    let p = bar_emojis()[k];
    lemma_bar_tags_shaped();
    let w = without_piece(ts, p);
    if ts.len() == 0 {
        assert(w =~= Seq::<Seq<char>>::empty());
    } else {
        let t = ts[0];
        let rest = ts.skip(1);
        assert forall|i: int| 0 <= i < rest.len() implies piece_from(#[trigger] rest[i], k) by {
            assert(rest[i] == ts[i + 1]);
        }
        lemma_replace_pieces(rest, k);
        let wr = without_piece(rest, p);
        assert(piece_from(ts[0], k));
        if bar_from(t, k) {
            let it = choose|i: int| k <= i < 6 && t == #[trigger] bar_emojis()[i];
            assert(tag_shaped(bar_emojis()[it]));
        }
        lemma_replace_piece(t, concat(rest), p);
        if t == p {
            assert(w =~= wr);
        } else {
            assert(w =~= seq![t] + wr);
            assert((seq![t] + wr).skip(1) =~= wr);
            assert forall|i: int| 0 <= i < w.len() implies piece_from(#[trigger] w[i], k + 1) by {
                if i == 0 {
                    if bar_from(t, k) {
                        let it = choose|i: int| k <= i < 6 && t == #[trigger] bar_emojis()[i];
                        assert(it != k);
                        assert(bar_from(w[0], k + 1));
                    }
                } else {
                    assert(w[i] == wr[i - 1]);
                }
            }
        }
    }
}

/// The pieces left of `ts` once the first `k` bar emojis are taken out.
pub open spec fn strip_bars(ts: Seq<Seq<char>>, k: int) -> Seq<Seq<char>>
    decreases k,
{
    if k <= 0 {
        ts
    } else {
        without_piece(strip_bars(ts, k - 1), bar_emojis()[k - 1])
    }
}

proof fn lemma_strip_bars(ts: Seq<Seq<char>>, k: int)
    requires
        0 <= k <= 6,
        forall|i: int| 0 <= i < ts.len() ==> piece_from(#[trigger] ts[i], 0),
    ensures
        without_links(concat(ts), bar_emojis().take(k)) == concat(strip_bars(ts, k)),
        forall|i: int| 0 <= i < strip_bars(ts, k).len() ==> piece_from(#[trigger] strip_bars(ts, k)[i], k),
    decreases k,
{
    if k == 0 {
        assert(bar_emojis().take(0) =~= Seq::<Seq<char>>::empty());
    } else {
        lemma_strip_bars(ts, k - 1);
        assert(bar_emojis().take(k).drop_last() =~= bar_emojis().take(k - 1));
        assert(bar_emojis().take(k).last() == bar_emojis()[k - 1]);
        lemma_replace_pieces(strip_bars(ts, k - 1), k - 1);
    }
}

/// The pieces of `ts` that are not bar emojis, in order.
pub open spec fn text_pieces(ts: Seq<Seq<char>>) -> Seq<Seq<char>>
    decreases ts.len(),
{
    if ts.len() == 0 {
        Seq::empty()
    } else {
        (if bar_emojis().contains(ts[0]) { Seq::empty() } else { seq![ts[0]] }) + text_pieces(ts.skip(1))
    }
}

proof fn lemma_without_piece_append(a: Seq<Seq<char>>, b: Seq<Seq<char>>, p: Seq<char>)
    ensures
        without_piece(a + b, p) == without_piece(a, p) + without_piece(b, p),
    decreases a.len(),
{
    if a.len() == 0 {
        assert(a + b =~= b);
        assert(without_piece(a, p) =~= Seq::<Seq<char>>::empty());
        assert(Seq::<Seq<char>>::empty() + without_piece(b, p) =~= without_piece(b, p));
    } else {
        assert((a + b)[0] == a[0]);
        assert((a + b).skip(1) =~= a.skip(1) + b);
        lemma_without_piece_append(a.skip(1), b, p);
        let x: Seq<Seq<char>> = if a[0] == p { Seq::empty() } else { seq![a[0]] };
        assert(x + (without_piece(a.skip(1), p) + without_piece(b, p)) =~= (x + without_piece(
            a.skip(1),
            p,
        )) + without_piece(b, p));
    }
}

proof fn lemma_strip_front(ts: Seq<Seq<char>>, k: int)
    requires
        0 <= k <= 6,
        ts.len() > 0,
    ensures
        strip_bars(ts, k) == (if exists|i: int| 0 <= i < k && ts[0] == #[trigger] bar_emojis()[i] {
            Seq::<Seq<char>>::empty()
        } else {
            seq![ts[0]]
        }) + strip_bars(ts.skip(1), k),
    decreases k,
{
    if k == 0 {
        assert(Seq::<Seq<char>>::empty() + seq![ts[0]] + ts.skip(1) =~= ts);
        assert(seq![ts[0]] + ts.skip(1) =~= ts);
    } else {
        lemma_strip_front(ts, k - 1);
        let p = bar_emojis()[k - 1];
        let x: Seq<Seq<char>> = if exists|i: int| 0 <= i < k - 1 && ts[0] == #[trigger] bar_emojis()[i] {
            Seq::empty()
        } else {
            seq![ts[0]]
        };
        lemma_without_piece_append(x, strip_bars(ts.skip(1), k - 1), p);
        let y = without_piece(x, p);
        if x.len() == 1 {
            assert(x.skip(1) =~= Seq::<Seq<char>>::empty());
            assert(without_piece(x.skip(1), p) =~= Seq::<Seq<char>>::empty());
            if ts[0] == p {
                assert(y =~= Seq::<Seq<char>>::empty());
            } else {
                assert(y =~= seq![ts[0]]);
                assert(!exists|i: int| 0 <= i < k && ts[0] == #[trigger] bar_emojis()[i]);
            }
        } else {
            assert(y =~= Seq::<Seq<char>>::empty());
            let i0 = choose|i: int| 0 <= i < k - 1 && ts[0] == #[trigger] bar_emojis()[i];
            assert(0 <= i0 < k && ts[0] == bar_emojis()[i0]);
        }
    }
}

proof fn lemma_strip_all(ts: Seq<Seq<char>>)
    ensures
        strip_bars(ts, 6) == text_pieces(ts),
    decreases ts.len(),
{
    if ts.len() == 0 {
        lemma_strip_empty(ts, 6);
    } else {
        lemma_strip_front(ts, 6);
        lemma_strip_all(ts.skip(1));
        if bar_emojis().contains(ts[0]) {
            let j = choose|j: int| 0 <= j < bar_emojis().len() && bar_emojis()[j] == ts[0];
            assert(0 <= j < 6 && ts[0] == bar_emojis()[j]);
        } else {
            if exists|i: int| 0 <= i < 6 && ts[0] == #[trigger] bar_emojis()[i] {
                let i0 = choose|i: int| 0 <= i < 6 && ts[0] == #[trigger] bar_emojis()[i];
                assert(bar_emojis().contains(ts[0]));
            }
        }
    }
}

proof fn lemma_strip_empty(ts: Seq<Seq<char>>, k: int)
    requires
        ts.len() == 0,
        0 <= k,
    ensures
        strip_bars(ts, k) == Seq::<Seq<char>>::empty(),
    decreases k,
{
    if k > 0 {
        lemma_strip_empty(ts, k - 1);
        assert(without_piece(Seq::<Seq<char>>::empty(), bar_emojis()[k - 1]) =~= Seq::<Seq<char>>::empty());
    } else {
        assert(ts =~= Seq::<Seq<char>>::empty());
    }
}

/// Removing the bar emojis from a text made of bar emojis and of runs with no
/// `<` in between removes every one of them and keeps the rest in order. (A
/// `<` elsewhere could, once an emoji after it is removed, join the halves of
/// another; such texts are left out.)
pub proof fn law_bar_emojis_removed(ts: Seq<Seq<char>>)
    requires
        forall|i: int| 0 <= i < ts.len() ==> bar_emojis().contains(#[trigger] ts[i]) || no_tag_start(ts[i]),
    ensures
        without_links(concat(ts), bar_emojis()) == concat(text_pieces(ts)),
{
    assert forall|i: int| 0 <= i < ts.len() implies piece_from(#[trigger] ts[i], 0) by {
        if bar_emojis().contains(ts[i]) {
            let j = choose|j: int| 0 <= j < bar_emojis().len() && bar_emojis()[j] == ts[i];
            assert(ts[i] == bar_emojis()[j]);
        }
    }
    lemma_strip_bars(ts, 6);
    assert(bar_emojis().take(6) =~= bar_emojis());
    lemma_strip_all(ts);
}

proof fn lemma_text_pieces_of_bars(ts: Seq<Seq<char>>)
    requires
        forall|i: int| 0 <= i < ts.len() ==> bar_emojis().contains(#[trigger] ts[i]),
    ensures
        text_pieces(ts) == Seq::<Seq<char>>::empty(),
    decreases ts.len(),
{
    if ts.len() > 0 {
        assert forall|i: int| 0 <= i < ts.skip(1).len() implies bar_emojis().contains(#[trigger] ts.skip(1)[i]) by {
            assert(ts.skip(1)[i] == ts[i + 1]);
        }
        lemma_text_pieces_of_bars(ts.skip(1));
        assert(bar_emojis().contains(ts[0]));
        assert(Seq::<Seq<char>>::empty() + Seq::<Seq<char>>::empty() =~= Seq::<Seq<char>>::empty());
    }
}

/// A progress bar drawn from the bar emojis is taken out whole: nothing is
/// left of it once they are removed.
pub proof fn law_bar_filtered_away(ts: Seq<Seq<char>>)
    requires
        forall|i: int| 0 <= i < ts.len() ==> bar_emojis().contains(#[trigger] ts[i]),
    ensures
        without_links(concat(ts), bar_emojis()) == Seq::<char>::empty(),
{
    law_bar_emojis_removed(ts);
    lemma_text_pieces_of_bars(ts);
}

proof fn lemma_resuming_text()
    ensures
        speech_text("Resuming"@) == "Resuming."@,
{
    reveal_strlit("Resuming");
    reveal_strlit("Resuming.");
    reveal_strlit(".");
    assert("Resuming"@.len() == 8);
    assert("Resuming"@[7] == 'g');
    assert("Resuming"@.subrange(7, 8)[0] == 'g');
    assert(!ends_with("Resuming"@, seq!['.']));
    assert("Resuming"@.push('.') =~= "Resuming."@);
}

/// Saying "resume" or "unpause" resumes playback, answered "Resuming.",
/// whatever words follow; no other command word resumes it.
pub proof fn law_resume_words(cmd: Seq<char>, args: Seq<Seq<char>>)
    ensures
        (cmd == "resume"@ || cmd == "unpause"@) ==> command_reply(cmd, args) == (
            IntentView::Pause(false),
            Some("Resuming."@),
        ),
        command_reply(cmd, args).0 == IntentView::Pause(false) ==> (cmd == "resume"@ || cmd
            == "unpause"@),
{
    reveal_strlit("play");
    reveal_strlit("add");
    reveal_strlit("queue");
    reveal_strlit("played");
    reveal_strlit("stop");
    reveal_strlit("leave");
    reveal_strlit("disconnect");
    reveal_strlit("skip");
    reveal_strlit("next");
    reveal_strlit("pause");
    reveal_strlit("resume");
    reveal_strlit("unpause");
    assert("play"@.len() == 4);
    assert("play"@[0] == 'p');
    assert("play"@[1] == 'l');
    assert("play"@[2] == 'a');
    assert("add"@.len() == 3);
    assert("add"@[0] == 'a');
    assert("add"@[1] == 'd');
    assert("add"@[2] == 'd');
    assert("queue"@.len() == 5);
    assert("queue"@[0] == 'q');
    assert("queue"@[1] == 'u');
    assert("queue"@[2] == 'e');
    assert("played"@.len() == 6);
    assert("played"@[0] == 'p');
    assert("played"@[1] == 'l');
    assert("played"@[2] == 'a');
    assert("stop"@.len() == 4);
    assert("stop"@[0] == 's');
    assert("stop"@[1] == 't');
    assert("stop"@[2] == 'o');
    assert("leave"@.len() == 5);
    assert("leave"@[0] == 'l');
    assert("leave"@[1] == 'e');
    assert("leave"@[2] == 'a');
    assert("disconnect"@.len() == 10);
    assert("disconnect"@[0] == 'd');
    assert("disconnect"@[1] == 'i');
    assert("disconnect"@[2] == 's');
    assert("skip"@.len() == 4);
    assert("skip"@[0] == 's');
    assert("skip"@[1] == 'k');
    assert("skip"@[2] == 'i');
    assert("next"@.len() == 4);
    assert("next"@[0] == 'n');
    assert("next"@[1] == 'e');
    assert("next"@[2] == 'x');
    assert("pause"@.len() == 5);
    assert("pause"@[0] == 'p');
    assert("pause"@[1] == 'a');
    assert("pause"@[2] == 'u');
    assert("resume"@.len() == 6);
    assert("resume"@[0] == 'r');
    assert("resume"@[1] == 'e');
    assert("resume"@[2] == 's');
    assert("unpause"@.len() == 7);
    assert("unpause"@[0] == 'u');
    assert("unpause"@[1] == 'n');
    assert("unpause"@[2] == 'p');
    lemma_resuming_text();
}

/// A transcript whose command word after the wake phrase is "resume" or
/// "unpause" resumes playback, answered "Resuming.".
pub proof fn law_transcript_resumes(s: Seq<char>, phrases: Seq<AlertView>, k: int)
    requires
        s.len() > 0,
        filtered_input(s).len() > 0,
        !crate::text::occurs_in(filtered_input(s), consent_phrase()),
        first_alert_from(phrases, alias_filtered(filtered_input(s), phrases), 0) == Some(k),
        words(after_phrase(alias_filtered(filtered_input(s), phrases), phrases[k].0)).len() > 0,
        words(after_phrase(alias_filtered(filtered_input(s), phrases), phrases[k].0))[0] == "resume"@
            || words(after_phrase(alias_filtered(filtered_input(s), phrases), phrases[k].0))[0]
            == "unpause"@,
    ensures
        voice_reply(s, phrases) == (IntentView::Pause(false), Some("Resuming."@)),
{
    let ws = words(after_phrase(alias_filtered(filtered_input(s), phrases), phrases[k].0));
    law_resume_words(ws[0], ws.skip(1));
}

/// The id of the panel button for a switch: its name.
pub open spec fn button_id(t: PanelToggle) -> Seq<char> {
    match t {
        PanelToggle::Pause => "pause"@,
        PanelToggle::Skip => "skip"@,
        PanelToggle::Stop => "stop"@,
        PanelToggle::Looped => "looped"@,
        PanelToggle::Shuffle => "shuffle"@,
        PanelToggle::Repeat => "repeat"@,
        PanelToggle::Autoplay => "autoplay"@,
        PanelToggle::ReadTitles => "read_titles"@,
    }
}

/// On the user's own panel, each switch button sends the switch of its own
/// name, and a switch is sent only by the button of its name.
pub proof fn law_panel_buttons(c: u64, id: Seq<char>, t: PanelToggle)
    ensures
        panel_outcome(true, PanelVoice::WithUser(c), c, "pause"@) == PanelView::Toggle(PanelToggle::Pause),
        panel_outcome(true, PanelVoice::WithUser(c), c, "skip"@) == PanelView::Toggle(PanelToggle::Skip),
        panel_outcome(true, PanelVoice::WithUser(c), c, "stop"@) == PanelView::Toggle(PanelToggle::Stop),
        panel_outcome(true, PanelVoice::WithUser(c), c, "looped"@) == PanelView::Toggle(PanelToggle::Looped),
        panel_outcome(true, PanelVoice::WithUser(c), c, "shuffle"@) == PanelView::Toggle(PanelToggle::Shuffle),
        panel_outcome(true, PanelVoice::WithUser(c), c, "repeat"@) == PanelView::Toggle(PanelToggle::Repeat),
        panel_outcome(true, PanelVoice::WithUser(c), c, "autoplay"@) == PanelView::Toggle(PanelToggle::Autoplay),
        panel_outcome(true, PanelVoice::WithUser(c), c, "read_titles"@) == PanelView::Toggle(PanelToggle::ReadTitles),
        panel_outcome(true, PanelVoice::WithUser(c), c, id) == PanelView::Toggle(t) ==> id == button_id(t),
{
    reveal_strlit("controls");
    reveal_strlit("pause");
    reveal_strlit("skip");
    reveal_strlit("stop");
    reveal_strlit("looped");
    reveal_strlit("shuffle");
    reveal_strlit("repeat");
    reveal_strlit("autoplay");
    reveal_strlit("read_titles");
    assert("controls"@.len() == 8);
    assert("controls"@[0] == 'c');
    assert("controls"@[1] == 'o');
    assert("controls"@[2] == 'n');
    assert("pause"@.len() == 5);
    assert("pause"@[0] == 'p');
    assert("pause"@[1] == 'a');
    assert("pause"@[2] == 'u');
    assert("skip"@.len() == 4);
    assert("skip"@[0] == 's');
    assert("skip"@[1] == 'k');
    assert("skip"@[2] == 'i');
    assert("stop"@.len() == 4);
    assert("stop"@[0] == 's');
    assert("stop"@[1] == 't');
    assert("stop"@[2] == 'o');
    assert("looped"@.len() == 6);
    assert("looped"@[0] == 'l');
    assert("looped"@[1] == 'o');
    assert("looped"@[2] == 'o');
    assert("shuffle"@.len() == 7);
    assert("shuffle"@[0] == 's');
    assert("shuffle"@[1] == 'h');
    assert("shuffle"@[2] == 'u');
    assert("repeat"@.len() == 6);
    assert("repeat"@[0] == 'r');
    assert("repeat"@[1] == 'e');
    assert("repeat"@[2] == 'p');
    assert("autoplay"@.len() == 8);
    assert("autoplay"@[0] == 'a');
    assert("autoplay"@[1] == 'u');
    assert("autoplay"@[2] == 't');
    assert("read_titles"@.len() == 11);
    assert("read_titles"@[0] == 'r');
    assert("read_titles"@[1] == 'e');
    assert("read_titles"@[2] == 'a');
}

/// While a track of known length plays and its progress is measured, the
/// queue message's body is the progress bar and the time left of that track,
/// spelled out; the time left of the whole queue has no part in it.
pub proof fn law_embed_shows_track_time_left<T>(
    s: PlayerState<T>,
    radio: Option<&Root>,
    t1: EmbedTiming,
    t2: EmbedTiming,
)
    requires
        s.current matches Some(c) && c.meta.duration is Some,
    ensures
        t1.progress == t2.progress ==> busy_embed(s, radio, t1).body == busy_embed(s, radio, t2).body,
        t1.progress matches Some(p) ==> busy_embed(s, radio, t1).body == Some(
            "\n"@ + p.0@ + "\n["@ + friendly_text(p.1 as nat) + " remaining]"@,
        ),
{
}

/// A message with no `#0000` and no emoji tag: what is read out of it is
/// its text, less its links.
pub open spec fn plain_message(c: Seq<char>) -> bool {
    !crate::text::occurs_in(c, "#0000"@) && emoji_tags(c, 0).len() == 0
}

proof fn lemma_replace_absent(s: Seq<char>, p: Seq<char>, rep: Seq<char>, i: int)
    requires
        p.len() > 0,
        0 <= i <= s.len(),
        !crate::text::occurs_in(s, p),
    ensures
        replace_from(s, p, rep, i) == s.subrange(i, s.len() as int),
    decreases s.len() - i,
{
    if i < s.len() {
        assert(!matches_at(s, p, i));
        lemma_replace_absent(s, p, rep, i + 1);
        assert(seq![s[i]] + s.subrange(i + 1, s.len() as int) =~= s.subrange(i, s.len() as int));
    } else {
        assert(s.subrange(i, s.len() as int) =~= Seq::<char>::empty());
    }
}

proof fn lemma_plain_text_kept(c: Seq<char>)
    requires
        plain_message(c),
    ensures
        crate::message::with_emoji_names(
            replaced(c, "#0000"@, Seq::empty()),
            crate::message::by_name(emoji_tags(replaced(c, "#0000"@, Seq::empty()), 0)),
        ) == c,
{
    reveal_strlit("#0000");
    lemma_replace_absent(c, "#0000"@, Seq::empty(), 0);
    assert(c.subrange(0, c.len() as int) =~= c);
    assert(crate::message::by_name(emoji_tags(c, 0)) =~= Seq::<EmojiView>::empty());
}

proof fn lemma_without_links_first(s: Seq<char>, l: Seq<char>, ls: Seq<Seq<char>>)
    ensures
        without_links(s, seq![l] + ls) == without_links(replaced(s, l, Seq::empty()), ls),
    decreases ls.len(),
{
    if ls.len() == 0 {
        assert(seq![l] + ls =~= seq![l]);
        assert(seq![l].drop_last() =~= Seq::<Seq<char>>::empty());
        assert(without_links(s, Seq::<Seq<char>>::empty()) == s);
        assert(without_links(s, seq![l]) == replaced(without_links(s, seq![l].drop_last()), l, Seq::empty()));
        assert(without_links(replaced(s, l, Seq::empty()), ls) == replaced(s, l, Seq::empty()));
    } else {
        assert((seq![l] + ls).drop_last() =~= seq![l] + ls.drop_last());
        assert((seq![l] + ls).last() == ls.last());
        lemma_without_links_first(s, l, ls.drop_last());
    }
}

/// Links are cut out of a message one after another: reading it with a list
/// of links gives what reading it with the first link already cut out, and
/// the rest of the list, gives. So every link of the list is cut out, not
/// only the first.
pub proof fn law_links_removed_in_turn(
    content: Seq<char>,
    l: Seq<char>,
    ls: Seq<Seq<char>>,
    reply_to: Option<Seq<char>>,
)
    requires
        plain_message(content),
        plain_message(replaced(content, l, Seq::empty())),
    ensures
        spoken_message(content, seq![l] + ls, reply_to) == spoken_message(
            replaced(content, l, Seq::empty()),
            ls,
            reply_to,
        ),
{
    lemma_plain_text_kept(content);
    lemma_plain_text_kept(replaced(content, l, Seq::empty()));
    lemma_without_links_first(content, l, ls);
}

/// A fresh radio report counts as the last one only when the station's
/// name, the song playing now and the song playing next agree field by
/// field; a report that differs anywhere (a new song, say) is passed on.
pub proof fn law_radio_report_changes(last: Root, fresh: Root)
    ensures
        last.same(fresh) <==> (last.station.name@ == fresh.station.name@
            && last.now_playing.song.artist@ == fresh.now_playing.song.artist@
            && last.now_playing.song.title@ == fresh.now_playing.song.title@
            && last.now_playing.song.album@ == fresh.now_playing.song.album@
            && last.now_playing.song.art@ == fresh.now_playing.song.art@
            && last.playing_next.song.artist@ == fresh.playing_next.song.artist@
            && last.playing_next.song.title@ == fresh.playing_next.song.title@
            && last.playing_next.song.album@ == fresh.playing_next.song.album@
            && last.playing_next.song.art@ == fresh.playing_next.song.art@),
        last.now_playing.song.title@ != fresh.now_playing.song.title@ ==> !last.same(fresh),
        last.same(last),
{
}

proof fn lemma_command_texts()
    ensures
        speech_text("Pausing"@) == "Pausing."@,
        speech_text("Skipping"@) == "Skipping."@,
        speech_text("Goodbuy, my friend"@) == "Goodbuy, my friend."@,
{
    reveal_strlit(".");
    reveal_strlit("Pausing");
    reveal_strlit("Pausing.");
    assert("Pausing"@.len() == 7);
    assert("Pausing"@[6] == 'g');
    assert("Pausing"@.subrange(6, 7)[0] == 'g');
    assert(!ends_with("Pausing"@, seq!['.']));
    assert("Pausing"@.push('.') =~= "Pausing."@);
    reveal_strlit("Skipping");
    reveal_strlit("Skipping.");
    assert("Skipping"@.len() == 8);
    assert("Skipping"@[7] == 'g');
    assert("Skipping"@.subrange(7, 8)[0] == 'g');
    assert(!ends_with("Skipping"@, seq!['.']));
    assert("Skipping"@.push('.') =~= "Skipping."@);
    reveal_strlit("Goodbuy, my friend");
    reveal_strlit("Goodbuy, my friend.");
    assert("Goodbuy, my friend"@.len() == 18);
    assert("Goodbuy, my friend"@[17] == 'd');
    assert("Goodbuy, my friend"@.subrange(17, 18)[0] == 'd');
    assert(!ends_with("Goodbuy, my friend"@, seq!['.']));
    assert("Goodbuy, my friend"@.push('.') =~= "Goodbuy, my friend."@);
}

/// The other spoken commands without a number: "pause" pauses ("Pausing."),
/// "skip" or "next" skips ("Skipping."), "stop", "leave" or "disconnect"
/// makes the bot leave ("Goodbuy, my friend."); and only those words do.
pub proof fn law_command_words(cmd: Seq<char>, args: Seq<Seq<char>>)
    ensures
        cmd == "pause"@ ==> command_reply(cmd, args) == (IntentView::Pause(true), Some("Pausing."@)),
        (cmd == "skip"@ || cmd == "next"@) ==> command_reply(cmd, args) == (
            IntentView::Skip,
            Some("Skipping."@),
        ),
        (cmd == "stop"@ || cmd == "leave"@ || cmd == "disconnect"@) ==> command_reply(cmd, args) == (
            IntentView::Stop,
            Some("Goodbuy, my friend."@),
        ),
        command_reply(cmd, args).0 == IntentView::Pause(true) ==> cmd == "pause"@,
        command_reply(cmd, args).0 == IntentView::Skip ==> (cmd == "skip"@ || cmd == "next"@),
        command_reply(cmd, args).0 == IntentView::Stop ==> (cmd == "stop"@ || cmd == "leave"@ || cmd
            == "disconnect"@),
{
    reveal_strlit("play");
    reveal_strlit("add");
    reveal_strlit("queue");
    reveal_strlit("played");
    reveal_strlit("stop");
    reveal_strlit("leave");
    reveal_strlit("disconnect");
    reveal_strlit("skip");
    reveal_strlit("next");
    reveal_strlit("pause");
    reveal_strlit("resume");
    reveal_strlit("unpause");
    assert("play"@.len() == 4);
    assert("play"@[0] == 'p');
    assert("play"@[1] == 'l');
    assert("play"@[2] == 'a');
    assert("add"@.len() == 3);
    assert("add"@[0] == 'a');
    assert("add"@[1] == 'd');
    assert("add"@[2] == 'd');
    assert("queue"@.len() == 5);
    assert("queue"@[0] == 'q');
    assert("queue"@[1] == 'u');
    assert("queue"@[2] == 'e');
    assert("played"@.len() == 6);
    assert("played"@[0] == 'p');
    assert("played"@[1] == 'l');
    assert("played"@[2] == 'a');
    assert("stop"@.len() == 4);
    assert("stop"@[0] == 's');
    assert("stop"@[1] == 't');
    assert("stop"@[2] == 'o');
    assert("leave"@.len() == 5);
    assert("leave"@[0] == 'l');
    assert("leave"@[1] == 'e');
    assert("leave"@[2] == 'a');
    assert("disconnect"@.len() == 10);
    assert("disconnect"@[0] == 'd');
    assert("disconnect"@[1] == 'i');
    assert("disconnect"@[2] == 's');
    assert("skip"@.len() == 4);
    assert("skip"@[0] == 's');
    assert("skip"@[1] == 'k');
    assert("skip"@[2] == 'i');
    assert("next"@.len() == 4);
    assert("next"@[0] == 'n');
    assert("next"@[1] == 'e');
    assert("next"@[2] == 'x');
    assert("pause"@.len() == 5);
    assert("pause"@[0] == 'p');
    assert("pause"@[1] == 'a');
    assert("pause"@[2] == 'u');
    assert("resume"@.len() == 6);
    assert("resume"@[0] == 'r');
    assert("resume"@[1] == 'e');
    assert("resume"@[2] == 's');
    assert("unpause"@.len() == 7);
    assert("unpause"@[0] == 'u');
    assert("unpause"@[1] == 'n');
    assert("unpause"@[2] == 'p');
    lemma_command_texts();
}

/// The other controls of the user's own panel: the volume buttons ask for
/// a volume, the bitrate button for a bitrate, the log button shows the
/// log, and the panel itself is only acknowledged; a press on another
/// panel than the user's is refused whatever the control.
pub proof fn law_panel_controls(c: u64, d: u64, id: Seq<char>)
    ensures
        panel_outcome(true, PanelVoice::WithUser(c), c, "volume"@) == PanelView::VolumeForm(
            "volume"@,
            "Volume"@,
        ),
        panel_outcome(true, PanelVoice::WithUser(c), c, "radiovolume"@) == PanelView::VolumeForm(
            "radiovolume"@,
            "Radio Volume"@,
        ),
        panel_outcome(true, PanelVoice::WithUser(c), c, "bitrate"@) == PanelView::BitrateForm,
        panel_outcome(true, PanelVoice::WithUser(c), c, "log"@) == PanelView::ShowLog,
        panel_outcome(true, PanelVoice::WithUser(c), c, "controls"@) == PanelView::Acknowledge,
        c != d ==> panel_outcome(true, PanelVoice::WithUser(c), d, id) == PanelView::Reply(
            "Wrong control panel, silly!"@,
        ),
{
    reveal_strlit("controls");
    reveal_strlit("pause");
    reveal_strlit("skip");
    reveal_strlit("stop");
    reveal_strlit("looped");
    reveal_strlit("shuffle");
    reveal_strlit("repeat");
    reveal_strlit("autoplay");
    reveal_strlit("read_titles");
    reveal_strlit("volume");
    reveal_strlit("radiovolume");
    reveal_strlit("bitrate");
    reveal_strlit("log");
    assert("controls"@.len() == 8);
    assert("controls"@[0] == 'c');
    assert("controls"@[1] == 'o');
    assert("controls"@[2] == 'n');
    assert("pause"@.len() == 5);
    assert("pause"@[0] == 'p');
    assert("pause"@[1] == 'a');
    assert("pause"@[2] == 'u');
    assert("skip"@.len() == 4);
    assert("skip"@[0] == 's');
    assert("skip"@[1] == 'k');
    assert("skip"@[2] == 'i');
    assert("stop"@.len() == 4);
    assert("stop"@[0] == 's');
    assert("stop"@[1] == 't');
    assert("stop"@[2] == 'o');
    assert("looped"@.len() == 6);
    assert("looped"@[0] == 'l');
    assert("looped"@[1] == 'o');
    assert("looped"@[2] == 'o');
    assert("shuffle"@.len() == 7);
    assert("shuffle"@[0] == 's');
    assert("shuffle"@[1] == 'h');
    assert("shuffle"@[2] == 'u');
    assert("repeat"@.len() == 6);
    assert("repeat"@[0] == 'r');
    assert("repeat"@[1] == 'e');
    assert("repeat"@[2] == 'p');
    assert("autoplay"@.len() == 8);
    assert("autoplay"@[0] == 'a');
    assert("autoplay"@[1] == 'u');
    assert("autoplay"@[2] == 't');
    assert("read_titles"@.len() == 11);
    assert("read_titles"@[0] == 'r');
    assert("read_titles"@[1] == 'e');
    assert("read_titles"@[2] == 'a');
    assert("volume"@.len() == 6);
    assert("volume"@[0] == 'v');
    assert("volume"@[1] == 'o');
    assert("volume"@[2] == 'l');
    assert("radiovolume"@.len() == 11);
    assert("radiovolume"@[0] == 'r');
    assert("radiovolume"@[1] == 'a');
    assert("radiovolume"@[2] == 'd');
    assert("bitrate"@.len() == 7);
    assert("bitrate"@[0] == 'b');
    assert("bitrate"@[1] == 'i');
    assert("bitrate"@[2] == 't');
    assert("log"@.len() == 3);
    assert("log"@[0] == 'l');
    assert("log"@[1] == 'o');
    assert("log"@[2] == 'g');
}

} // verus!
