use vstd::prelude::*;
use crate::text::{
    lowercase, to_lowercase,
    append_chars, chars_of, occurs_in, push_str, replace_vec, replaced, to_string, trim_vec,
    trimmed,
};

verus! {

/// A custom emoji written in a message, and its name.
pub struct EmojiData {
    pub name: String,
    pub raw_emoji_text: String,
}

/// An emoji as plain values: its name and its raw text.
pub type EmojiView = (Seq<char>, Seq<char>);

pub open spec fn emoji_view(e: EmojiData) -> EmojiView {
    (e.name@, e.raw_emoji_text@)
}

/// Whether `c` is a decimal digit in Unicode's sense (general category Nd,
/// Unicode 16), which is what `\d` matches in an emoji tag.
pub open spec fn is_decimal_digit(c: char) -> bool {
    let u = c as u32;
    (0x30 <= u <= 0x39) ||
        (0x660 <= u <= 0x669) ||
        (0x6f0 <= u <= 0x6f9) ||
        (0x7c0 <= u <= 0x7c9) ||
        (0x966 <= u <= 0x96f) ||
        (0x9e6 <= u <= 0x9ef) ||
        (0xa66 <= u <= 0xa6f) ||
        (0xae6 <= u <= 0xaef) ||
        (0xb66 <= u <= 0xb6f) ||
        (0xbe6 <= u <= 0xbef) ||
        (0xc66 <= u <= 0xc6f) ||
        (0xce6 <= u <= 0xcef) ||
        (0xd66 <= u <= 0xd6f) ||
        (0xde6 <= u <= 0xdef) ||
        (0xe50 <= u <= 0xe59) ||
        (0xed0 <= u <= 0xed9) ||
        (0xf20 <= u <= 0xf29) ||
        (0x1040 <= u <= 0x1049) ||
        (0x1090 <= u <= 0x1099) ||
        (0x17e0 <= u <= 0x17e9) ||
        (0x1810 <= u <= 0x1819) ||
        (0x1946 <= u <= 0x194f) ||
        (0x19d0 <= u <= 0x19d9) ||
        (0x1a80 <= u <= 0x1a89) ||
        (0x1a90 <= u <= 0x1a99) ||
        (0x1b50 <= u <= 0x1b59) ||
        (0x1bb0 <= u <= 0x1bb9) ||
        (0x1c40 <= u <= 0x1c49) ||
        (0x1c50 <= u <= 0x1c59) ||
        (0xa620 <= u <= 0xa629) ||
        (0xa8d0 <= u <= 0xa8d9) ||
        (0xa900 <= u <= 0xa909) ||
        (0xa9d0 <= u <= 0xa9d9) ||
        (0xa9f0 <= u <= 0xa9f9) ||
        (0xaa50 <= u <= 0xaa59) ||
        (0xabf0 <= u <= 0xabf9) ||
        (0xff10 <= u <= 0xff19) ||
        (0x104a0 <= u <= 0x104a9) ||
        (0x10d30 <= u <= 0x10d39) ||
        (0x10d40 <= u <= 0x10d49) ||
        (0x11066 <= u <= 0x1106f) ||
        (0x110f0 <= u <= 0x110f9) ||
        (0x11136 <= u <= 0x1113f) ||
        (0x111d0 <= u <= 0x111d9) ||
        (0x112f0 <= u <= 0x112f9) ||
        (0x11450 <= u <= 0x11459) ||
        (0x114d0 <= u <= 0x114d9) ||
        (0x11650 <= u <= 0x11659) ||
        (0x116c0 <= u <= 0x116c9) ||
        (0x116d0 <= u <= 0x116e3) ||
        (0x11730 <= u <= 0x11739) ||
        (0x118e0 <= u <= 0x118e9) ||
        (0x11950 <= u <= 0x11959) ||
        (0x11bf0 <= u <= 0x11bf9) ||
        (0x11c50 <= u <= 0x11c59) ||
        (0x11d50 <= u <= 0x11d59) ||
        (0x11da0 <= u <= 0x11da9) ||
        (0x11f50 <= u <= 0x11f59) ||
        (0x16130 <= u <= 0x16139) ||
        (0x16a60 <= u <= 0x16a69) ||
        (0x16ac0 <= u <= 0x16ac9) ||
        (0x16b50 <= u <= 0x16b59) ||
        (0x16d70 <= u <= 0x16d79) ||
        (0x1ccf0 <= u <= 0x1ccf9) ||
        (0x1d7ce <= u <= 0x1d7ff) ||
        (0x1e140 <= u <= 0x1e149) ||
        (0x1e2f0 <= u <= 0x1e2f9) ||
        (0x1e4f0 <= u <= 0x1e4f9) ||
        (0x1e5f1 <= u <= 0x1e5fa) ||
        (0x1e950 <= u <= 0x1e959) ||
        (0x1fbf0 <= u <= 0x1fbf9)
}

/// Exec test of `is_decimal_digit`.
pub fn decimal_digit(c: char) -> (res: bool)
    ensures
        res == is_decimal_digit(c),
{
    let u = c as u32;
    (0x30 <= u && u <= 0x39) ||
        (0x660 <= u && u <= 0x669) ||
        (0x6f0 <= u && u <= 0x6f9) ||
        (0x7c0 <= u && u <= 0x7c9) ||
        (0x966 <= u && u <= 0x96f) ||
        (0x9e6 <= u && u <= 0x9ef) ||
        (0xa66 <= u && u <= 0xa6f) ||
        (0xae6 <= u && u <= 0xaef) ||
        (0xb66 <= u && u <= 0xb6f) ||
        (0xbe6 <= u && u <= 0xbef) ||
        (0xc66 <= u && u <= 0xc6f) ||
        (0xce6 <= u && u <= 0xcef) ||
        (0xd66 <= u && u <= 0xd6f) ||
        (0xde6 <= u && u <= 0xdef) ||
        (0xe50 <= u && u <= 0xe59) ||
        (0xed0 <= u && u <= 0xed9) ||
        (0xf20 <= u && u <= 0xf29) ||
        (0x1040 <= u && u <= 0x1049) ||
        (0x1090 <= u && u <= 0x1099) ||
        (0x17e0 <= u && u <= 0x17e9) ||
        (0x1810 <= u && u <= 0x1819) ||
        (0x1946 <= u && u <= 0x194f) ||
        (0x19d0 <= u && u <= 0x19d9) ||
        (0x1a80 <= u && u <= 0x1a89) ||
        (0x1a90 <= u && u <= 0x1a99) ||
        (0x1b50 <= u && u <= 0x1b59) ||
        (0x1bb0 <= u && u <= 0x1bb9) ||
        (0x1c40 <= u && u <= 0x1c49) ||
        (0x1c50 <= u && u <= 0x1c59) ||
        (0xa620 <= u && u <= 0xa629) ||
        (0xa8d0 <= u && u <= 0xa8d9) ||
        (0xa900 <= u && u <= 0xa909) ||
        (0xa9d0 <= u && u <= 0xa9d9) ||
        (0xa9f0 <= u && u <= 0xa9f9) ||
        (0xaa50 <= u && u <= 0xaa59) ||
        (0xabf0 <= u && u <= 0xabf9) ||
        (0xff10 <= u && u <= 0xff19) ||
        (0x104a0 <= u && u <= 0x104a9) ||
        (0x10d30 <= u && u <= 0x10d39) ||
        (0x10d40 <= u && u <= 0x10d49) ||
        (0x11066 <= u && u <= 0x1106f) ||
        (0x110f0 <= u && u <= 0x110f9) ||
        (0x11136 <= u && u <= 0x1113f) ||
        (0x111d0 <= u && u <= 0x111d9) ||
        (0x112f0 <= u && u <= 0x112f9) ||
        (0x11450 <= u && u <= 0x11459) ||
        (0x114d0 <= u && u <= 0x114d9) ||
        (0x11650 <= u && u <= 0x11659) ||
        (0x116c0 <= u && u <= 0x116c9) ||
        (0x116d0 <= u && u <= 0x116e3) ||
        (0x11730 <= u && u <= 0x11739) ||
        (0x118e0 <= u && u <= 0x118e9) ||
        (0x11950 <= u && u <= 0x11959) ||
        (0x11bf0 <= u && u <= 0x11bf9) ||
        (0x11c50 <= u && u <= 0x11c59) ||
        (0x11d50 <= u && u <= 0x11d59) ||
        (0x11da0 <= u && u <= 0x11da9) ||
        (0x11f50 <= u && u <= 0x11f59) ||
        (0x16130 <= u && u <= 0x16139) ||
        (0x16a60 <= u && u <= 0x16a69) ||
        (0x16ac0 <= u && u <= 0x16ac9) ||
        (0x16b50 <= u && u <= 0x16b59) ||
        (0x16d70 <= u && u <= 0x16d79) ||
        (0x1ccf0 <= u && u <= 0x1ccf9) ||
        (0x1d7ce <= u && u <= 0x1d7ff) ||
        (0x1e140 <= u && u <= 0x1e149) ||
        (0x1e2f0 <= u && u <= 0x1e2f9) ||
        (0x1e4f0 <= u && u <= 0x1e4f9) ||
        (0x1e5f1 <= u && u <= 0x1e5fa) ||
        (0x1e950 <= u && u <= 0x1e959) ||
        (0x1fbf0 <= u && u <= 0x1fbf9)
}

/// The first index at or after `j` that holds a `:`, or the length.
pub open spec fn colon_from(s: Seq<char>, j: int) -> int
    decreases s.len() - j,
{
    if j < 0 || j >= s.len() {
        s.len() as int
    } else if s[j] == ':' {
        j
    } else {
        colon_from(s, j + 1)
    }
}

/// The first index at or after `j` that holds no digit, or the length.
pub open spec fn digits_from(s: Seq<char>, j: int) -> int
    decreases s.len() - j,
{
    if j < 0 || j >= s.len() {
        s.len() as int
    } else if !is_decimal_digit(s[j]) {
        j
    } else {
        digits_from(s, j + 1)
    }
}

/// Where the name of an emoji tag starting at `i` begins: after `<a:` or `<:`.
pub open spec fn name_start(s: Seq<char>, i: int) -> int {
    if 0 <= i && i + 2 < s.len() && s[i] == '<' && s[i + 1] == 'a' && s[i + 2] == ':' {
        i + 3
    } else if 0 <= i && i + 1 < s.len() && s[i] == '<' && s[i + 1] == ':' {
        i + 2
    } else {
        -1
    }
}

/// An emoji tag `<:name:digits>` or `<a:name:digits>` at `i`, the name being
/// no `:` and at least one character, the digits at least one: the bounds
/// of the name and the end of the tag.
pub open spec fn emoji_at(s: Seq<char>, i: int) -> Option<(int, int, int)> {
    let j = name_start(s, i);
    if j < 0 {
        None
    } else {
        let e = colon_from(s, j);
        if e <= j || e >= s.len() {
            None
        } else {
            let d = digits_from(s, e + 1);
            if d <= e + 1 || d >= s.len() || s[d] != '>' {
                None
            } else {
                Some((j, e, d + 1))
            }
        }
    }
}

/// The emoji tags in `s` from `i` on, leftmost first, none overlapping.
pub open spec fn emoji_tags(s: Seq<char>, i: int) -> Seq<EmojiView>
    decreases s.len() - i,
{
    if i < 0 || i >= s.len() {
        Seq::empty()
    } else {
        match emoji_at(s, i) {
            Some(t) => if t.2 > i {
                seq![(s.subrange(t.0, t.1), s.subrange(i, t.2))] + emoji_tags(s, t.2)
            } else {
                Seq::empty()
            },
            None => emoji_tags(s, i + 1),
        }
    }
}

/// Whether `a` comes before `b` in the order of strings.
pub open spec fn str_lt(a: Seq<char>, b: Seq<char>) -> bool
    decreases a.len(),
{
    if a.len() == 0 {
        b.len() > 0
    } else if b.len() == 0 {
        false
    } else if a[0] != b[0] {
        a[0] < b[0]
    } else {
        str_lt(a.skip(1), b.skip(1))
    }
}

/// `item` put into a list ordered by name, unless its name is there already.
pub open spec fn insert_by_name(list: Seq<EmojiView>, item: EmojiView) -> Seq<EmojiView>
    decreases list.len(),
{
    if list.len() == 0 {
        seq![item]
    } else if list[0].0 == item.0 {
        list
    } else if str_lt(item.0, list[0].0) {
        seq![item] + list
    } else {
        seq![list[0]] + insert_by_name(list.skip(1), item)
    }
}

/// The emojis of `tags` ordered by name, the first of each name kept.
pub open spec fn by_name(tags: Seq<EmojiView>) -> Seq<EmojiView>
    decreases tags.len(),
{
    if tags.len() == 0 {
        Seq::empty()
    } else {
        insert_by_name(by_name(tags.drop_last()), tags.last())
    }
}

fn str_lt_exec(a: &Vec<char>, b: &Vec<char>) -> (res: bool)
    ensures
        res == str_lt(a@, b@),
{
    let mut i: usize = 0;
    assert(a@.skip(0) =~= a@);
    assert(b@.skip(0) =~= b@);
    while i < a.len() && i < b.len()
        invariant
            i <= a@.len(),
            i <= b@.len(),
            str_lt(a@, b@) == str_lt(a@.skip(i as int), b@.skip(i as int)),
        decreases a@.len() - i,
    {
        assert(a@.skip(i as int)[0] == a@[i as int]);
        assert(b@.skip(i as int)[0] == b@[i as int]);
        if a[i] != b[i] {
            return a[i] < b[i];
        }
        assert(a@.skip(i as int).skip(1) =~= a@.skip(i + 1));
        assert(b@.skip(i as int).skip(1) =~= b@.skip(i + 1));
        i += 1;
    }
    i == a.len() && i < b.len()
}

fn insert_by_name_exec(list: &mut Vec<EmojiData>, item: EmojiData)
    ensures
        final(list)@.map_values(|e: EmojiData| emoji_view(e)) == insert_by_name(
            old(list)@.map_values(|e: EmojiData| emoji_view(e)),
            emoji_view(item),
        ),
{
    let ghost l0 = list@.map_values(|e: EmojiData| emoji_view(e));
    let name = chars_of(item.name.as_str());
    let mut k: usize = 0;
    assert(l0.skip(0) =~= l0);
    assert(l0.take(0) + insert_by_name(l0, emoji_view(item)) =~= insert_by_name(l0, emoji_view(item)));
    while k < list.len()
        invariant
            k <= list@.len(),
            l0 == list@.map_values(|e: EmojiData| emoji_view(e)),
            l0 == old(list)@.map_values(|e: EmojiData| emoji_view(e)),
            name@ == item.name@,
            insert_by_name(l0, emoji_view(item)) == l0.take(k as int) + insert_by_name(
                l0.skip(k as int),
                emoji_view(item),
            ),
        decreases list@.len() - k,
    {
        let other = chars_of(list[k].name.as_str());
        assert(l0.skip(k as int)[0] == emoji_view(list@[k as int]));
        assert(l0.skip(k as int).skip(1) =~= l0.skip(k + 1));
        if same(&other, &name) {
            assert(l0.skip(k as int)[0].0 == emoji_view(item).0);
            assert(insert_by_name(l0.skip(k as int), emoji_view(item)) == l0.skip(k as int));
            assert(l0.take(k as int) + l0.skip(k as int) =~= l0);
            assert(list@.map_values(|e: EmojiData| emoji_view(e)) == l0);
            return;
        }
        if str_lt_exec(&name, &other) {
            list.insert(k, item);
            assert(list@.map_values(|e: EmojiData| emoji_view(e)) =~= l0.take(k as int) + (seq![
                emoji_view(item),
            ] + l0.skip(k as int)));
            return;
        }
        assert(l0.take(k as int) + (seq![l0[k as int]] + insert_by_name(
            l0.skip(k + 1),
            emoji_view(item),
        )) =~= l0.take(k + 1) + insert_by_name(l0.skip(k + 1), emoji_view(item)));
        k += 1;
    }
    assert(l0.skip(k as int) =~= Seq::<EmojiView>::empty());
    let ghost before = list@.map_values(|e: EmojiData| emoji_view(e));
    list.push(item);
    assert(list@.map_values(|e: EmojiData| emoji_view(e)) =~= before.push(emoji_view(item)));
    assert(l0.take(k as int) =~= l0);
}

fn same(a: &Vec<char>, b: &Vec<char>) -> (res: bool)
    ensures
        res == (a@ == b@),
{
    if a.len() != b.len() {
        return false;
    }
    let mut i: usize = 0;
    while i < a.len()
        invariant
            i <= a@.len(),
            a@.len() == b@.len(),
            a@.take(i as int) =~= b@.take(i as int),
        decreases a@.len() - i,
    {
        if a[i] != b[i] {
            return false;
        }
        assert(a@.take(i + 1) =~= b@.take(i + 1));
        i += 1;
    }
    assert(a@ =~= a@.take(i as int));
    assert(b@ =~= b@.take(i as int));
    true
}

fn colon_from_exec(s: &Vec<char>, j: usize) -> (res: usize)
    requires
        j <= s@.len(),
    ensures
        res == colon_from(s@, j as int),
{
    let mut k = j;
    while k < s.len() && s[k] != ':'
        invariant
            j <= k <= s@.len(),
            colon_from(s@, j as int) == colon_from(s@, k as int),
        decreases s@.len() - k,
    {
        k += 1;
    }
    k
}

fn digits_from_exec(s: &Vec<char>, j: usize) -> (res: usize)
    requires
        j <= s@.len(),
    ensures
        res == digits_from(s@, j as int),
{
    let mut k = j;
    while k < s.len() && decimal_digit(s[k])
        invariant
            j <= k <= s@.len(),
            digits_from(s@, j as int) == digits_from(s@, k as int),
        decreases s@.len() - k,
    {
        k += 1;
    }
    k
}

fn emoji_at_exec(s: &Vec<char>, i: usize) -> (res: Option<(usize, usize, usize)>)
    requires
        i < s@.len(),
    ensures
        match emoji_at(s@, i as int) {
            Some(t) => res matches Some(r) && r.0 as int == t.0 && r.1 as int == t.1 && r.2 as int
                == t.2,
            None => res is None,
        },
{
    let j: usize = if s.len() - i > 2 && s[i] == '<' && s[i + 1] == 'a' && s[i + 2] == ':' {
        i + 3
    } else if s.len() - i > 1 && s[i] == '<' && s[i + 1] == ':' {
        i + 2
    } else {
        return None;
    };
    let e = colon_from_exec(s, j);
    if e <= j || e >= s.len() {
        return None;
    }
    let d = digits_from_exec(s, e + 1);
    if d <= e + 1 || d >= s.len() || s[d] != '>' {
        return None;
    }
    Some((j, e, d + 1))
}

fn slice_of(s: &Vec<char>, a: usize, b: usize) -> (res: Vec<char>)
    requires
        a <= b <= s@.len(),
    ensures
        res@ == s@.subrange(a as int, b as int),
{
    let mut out: Vec<char> = Vec::new();
    let mut k = a;
    while k < b
        invariant
            a <= k <= b <= s@.len(),
            out@ == s@.subrange(a as int, k as int),
        decreases b - k,
    {
        out.push(s[k]);
        assert(out@ =~= s@.subrange(a as int, k + 1));
        k += 1;
    }
    out
}

/// The custom emojis written in a message, ordered by name, the first
/// written of each name kept.
pub fn detect_emojis(content: &str) -> (res: Vec<EmojiData>)
    ensures
        res@.map_values(|e: EmojiData| emoji_view(e)) == by_name(emoji_tags(content@, 0)),
{
    let s = chars_of(content);
    let ghost all = emoji_tags(s@, 0);
    let mut found: Vec<EmojiData> = Vec::new();
    let ghost fv: Seq<EmojiView> = Seq::empty();
    let mut i: usize = 0;
    while i < s.len()
        invariant
            i <= s@.len(),
            all == emoji_tags(s@, 0),
            all == fv + emoji_tags(s@, i as int),
            found@.map_values(|e: EmojiData| emoji_view(e)) == by_name(fv),
        decreases s@.len() - i,
    {
        match emoji_at_exec(&s, i) {
            Some((j, e, end)) => {
                let name = slice_of(&s, j, e);
                let raw = slice_of(&s, i, end);
                let item = EmojiData { name: to_string(&name), raw_emoji_text: to_string(&raw) };
                proof {
                    assert(fv + emoji_tags(s@, i as int) =~= fv.push(emoji_view(item))
                        + emoji_tags(s@, end as int));
                    assert(fv.push(emoji_view(item)).drop_last() =~= fv);
                    fv = fv.push(emoji_view(item));
                }
                insert_by_name_exec(&mut found, item);
                i = end;
            },
            None => {
                i += 1;
            },
        }
    }
    assert(fv + emoji_tags(s@, i as int) =~= fv);
    found
}

/// `s` with each emoji's raw text replaced by its name, in order.
pub open spec fn with_emoji_names(s: Seq<char>, es: Seq<EmojiView>) -> Seq<char>
    decreases es.len(),
{
    if es.len() == 0 {
        s
    } else {
        replaced(with_emoji_names(s, es.drop_last()), es.last().1, es.last().0)
    }
}

/// `s` with every occurrence of each link removed, in order.
pub open spec fn without_links(s: Seq<char>, links: Seq<Seq<char>>) -> Seq<char>
    decreases links.len(),
{
    if links.len() == 0 {
        s
    } else {
        replaced(without_links(s, links.drop_last()), links.last(), Seq::empty())
    }
}

/// What linkify finds in a text.
pub uninterp spec fn found_links(text: Seq<char>) -> Seq<Seq<char>>;

/// The links in a text, in order.
///
/// Trusted: calls `linkify::LinkFinder::links` with the default finder
/// (URLs with a scheme, and e-mail addresses); the contract names the result,
/// which depends on the text alone, and states what the source shows of each
/// link: it is a slice of the text.
#[verifier::external_body]
fn find_links(text: &str) -> (res: Vec<String>)
    ensures
        res@.map_values(|s: String| s@) == found_links(text@),
        forall|i: int| 0 <= i < res@.len() ==> occurs_in(text@, #[trigger] res@[i]@),
{
    linkify::LinkFinder::new().links(text).map(|l| l.as_str().to_string()).collect()
}

/// Why a message is not read out.
#[derive(Clone, Copy, Debug, PartialEq, Eq, Structural)]
pub enum MessageError {
    /// Nothing is left to read.
    Empty,
}

/// What is read out of a message, given the links found in it: the text
/// without `#0000`, emojis by name, without the links, trimmed and
/// lowercased; after `Replying to <author>:` and a newline for a reply.
/// `None` where nothing is left.
pub open spec fn spoken_message(
    content: Seq<char>,
    links: Seq<Seq<char>>,
    reply_to: Option<Seq<char>>,
) -> Option<Seq<char>> {
    let a = replaced(content, "#0000"@, Seq::empty());
    let b = with_emoji_names(a, by_name(emoji_tags(a, 0)));
    let c = lowercase(trimmed(without_links(b, links)));
    if c.len() == 0 {
        None
    } else {
        match reply_to {
            Some(n) => Some("Replying to "@ + n + ":\n"@ + c),
            None => Some(c),
        }
    }
}

/// What is read out of a message whose links are `links`.
pub fn message_text_with_links(
    content: &str,
    links: &Vec<String>,
    reply_to: Option<&str>,
) -> (res: Result<String, MessageError>)
    ensures
        match spoken_message(
            content@,
            links@.map_values(|s: String| s@),
            match reply_to {
                Some(n) => Some(n@),
                None => None,
            },
        ) {
            Some(t) => res matches Ok(r) && r@ == t,
            None => res == Err::<String, MessageError>(MessageError::Empty),
        },
{
    let c = chars_of(content);
    let pat = chars_of("#0000");
    proof {
        reveal_strlit("#0000");
    }
    let nothing: Vec<char> = Vec::new();
    let a = replace_vec(&c, &pat, &nothing);
    let a_str = to_string(&a);
    let emojis = detect_emojis(a_str.as_str());
    let ghost ev = emojis@.map_values(|e: EmojiData| emoji_view(e));
    let mut b = a;
    let mut i: usize = 0;
    while i < emojis.len()
        invariant
            i <= emojis@.len(),
            ev == emojis@.map_values(|e: EmojiData| emoji_view(e)),
            b@ == with_emoji_names(a_str@, ev.take(i as int)),
        decreases emojis@.len() - i,
    {
        let raw = chars_of(emojis[i].raw_emoji_text.as_str());
        let name = chars_of(emojis[i].name.as_str());
        assert(ev.take(i + 1).drop_last() =~= ev.take(i as int));
        if raw.len() == 0 {
            assert(replaced(b@, raw@, name@) == b@);
        } else {
            b = replace_vec(&b, &raw, &name);
        }
        i += 1;
    }
    assert(ev.take(emojis@.len() as int) =~= ev);
    let ghost lv = links@.map_values(|s: String| s@);
    let mut k: usize = 0;
    while k < links.len()
        invariant
            k <= links@.len(),
            lv == links@.map_values(|s: String| s@),
            nothing@ == Seq::<char>::empty(),
            b@ == without_links(with_emoji_names(a_str@, ev), lv.take(k as int)),
        decreases links@.len() - k,
    {
        let l = chars_of(links[k].as_str());
        assert(lv.take(k + 1).drop_last() =~= lv.take(k as int));
        if l.len() > 0 {
            b = replace_vec(&b, &l, &nothing);
        } else {
            assert(replaced(b@, l@, Seq::empty()) == b@);
        }
        k += 1;
    }
    assert(lv.take(links@.len() as int) =~= lv);
    let t = trim_vec(&b);
    let low = chars_of(to_lowercase(to_string(&t).as_str()).as_str());
    if low.len() == 0 {
        return Err(MessageError::Empty);
    }
    match reply_to {
        Some(n) => {
            let mut out = chars_of("Replying to ");
            push_str(&mut out, n);
            push_str(&mut out, ":\n");
            append_chars(&mut out, &low);
            Ok(to_string(&out))
        },
        None => Ok(to_string(&low)),
    }
}

/// What is read out of a message: its links are found, then removed.
pub fn message_text(content: &str, reply_to: Option<&str>) -> (res: Result<String, MessageError>)
    ensures
        match spoken_message(
            content@,
            found_links(content@),
            match reply_to {
                Some(n) => Some(n@),
                None => None,
            },
        ) {
            Some(t) => res matches Ok(r) && r@ == t,
            None => res == Err::<String, MessageError>(MessageError::Empty),
        },
{
    let links = find_links(content);
    message_text_with_links(content, &links, reply_to)
}

/// The emojis that draw the progress bar.
pub open spec fn bar_emojis() -> Seq<Seq<char>> {
    seq![
        "<:LE:1038954704744480898>"@,
        "<:LC:1038954708422885386>"@,
        "<:CE:1038954710184497203>"@,
        "<:CC:1038954696980824094>"@,
        "<:RE:1038954703033217285>"@,
        "<:RC:1038954706841649192>"@,
    ]
}

/// `s` without the emojis that draw the progress bar.
pub fn filter_bar_emojis(s: &str) -> (res: String)
    ensures
        res@ == without_links(s@, bar_emojis()),
{
    let mut v = chars_of(s);
    let nothing: Vec<char> = Vec::new();
    let mut pats: Vec<Vec<char>> = Vec::new();
    pats.push(chars_of("<:LE:1038954704744480898>"));
    pats.push(chars_of("<:LC:1038954708422885386>"));
    pats.push(chars_of("<:CE:1038954710184497203>"));
    pats.push(chars_of("<:CC:1038954696980824094>"));
    pats.push(chars_of("<:RE:1038954703033217285>"));
    pats.push(chars_of("<:RC:1038954706841649192>"));
    let ghost pv = pats@.map_values(|x: Vec<char>| x@);
    assert(pv =~= bar_emojis());
    let mut k: usize = 0;
    while k < pats.len()
        invariant
            k <= pats@.len(),
            pv == pats@.map_values(|x: Vec<char>| x@),
            nothing@ == Seq::<char>::empty(),
            v@ == without_links(s@, pv.take(k as int)),
        decreases pats@.len() - k,
    {
        assert(pv.take(k + 1).drop_last() =~= pv.take(k as int));
        if pats[k].len() > 0 {
            v = replace_vec(&v, &pats[k], &nothing);
        } else {
            assert(replaced(v@, pats@[k as int]@, Seq::empty()) == v@);
        }
        k += 1;
    }
    assert(pv.take(pats@.len() as int) =~= pv);
    to_string(&v)
}

} // verus!
