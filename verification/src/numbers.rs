use vstd::prelude::*;
use crate::text::{chars_of, join, join_vec, plain_word, to_string};

verus! {

/// The word for a digit from one to nine.
pub open spec fn ones_word(n: nat) -> Seq<char> {
    if n == 1 {
        "one"@
    } else if n == 2 {
        "two"@
    } else if n == 3 {
        "three"@
    } else if n == 4 {
        "four"@
    } else if n == 5 {
        "five"@
    } else if n == 6 {
        "six"@
    } else if n == 7 {
        "seven"@
    } else if n == 8 {
        "eight"@
    } else {
        "nine"@
    }
}

/// The word for a number from ten to nineteen.
pub open spec fn teen_word(n: nat) -> Seq<char> {
    if n == 10 {
        "ten"@
    } else if n == 11 {
        "eleven"@
    } else if n == 12 {
        "twelve"@
    } else if n == 13 {
        "thirteen"@
    } else if n == 14 {
        "fourteen"@
    } else if n == 15 {
        "fifteen"@
    } else if n == 16 {
        "sixteen"@
    } else if n == 17 {
        "seventeen"@
    } else if n == 18 {
        "eighteen"@
    } else {
        "nineteen"@
    }
}

/// The word for `t` tens, `t` from two to nine.
pub open spec fn tens_word(t: nat) -> Seq<char> {
    if t == 2 {
        "twenty"@
    } else if t == 3 {
        "thirty"@
    } else if t == 4 {
        "forty"@
    } else if t == 5 {
        "fifty"@
    } else if t == 6 {
        "sixty"@
    } else if t == 7 {
        "seventy"@
    } else if t == 8 {
        "eighty"@
    } else {
        "ninety"@
    }
}

/// The words for a number below one hundred; none for zero.
pub open spec fn small_words(n: nat) -> Seq<Seq<char>> {
    if n >= 20 {
        if n % 10 > 0 {
            seq![tens_word(n / 10), ones_word(n % 10)]
        } else {
            seq![tens_word(n / 10)]
        }
    } else if n >= 10 {
        seq![teen_word(n)]
    } else if n > 0 {
        seq![ones_word(n)]
    } else {
        Seq::empty()
    }
}

/// A number in English words: the thousands (themselves in words) and
/// "thousand", the hundreds and "hundred", then "and" before the rest where
/// something came before it.
pub open spec fn humanize(n: nat) -> Seq<char>
    decreases n,
{
    if n == 0 {
        "zero"@
    } else {
        let high: Seq<Seq<char>> = if n >= 1000 {
            seq![humanize(n / 1000), "thousand"@]
        } else {
            Seq::empty()
        };
        let m = n % 1000;
        let mid: Seq<Seq<char>> = if m >= 100 {
            seq![ones_word(m / 100), "hundred"@]
        } else {
            Seq::empty()
        };
        let r = m % 100;
        let front = high + mid;
        let link: Seq<Seq<char>> = if front.len() > 0 && r > 0 {
            seq!["and"@]
        } else {
            Seq::empty()
        };
        join(front + link + small_words(r), seq![' '])
    }
}

fn word(w: &str) -> (res: Vec<char>)
    ensures
        res@ == w@,
{
    chars_of(w)
}

fn ones_vec(n: usize) -> (res: Vec<char>)
    requires
        1 <= n <= 9,
    ensures
        res@ == ones_word(n as nat),
{
    match n {
        1 => word("one"),
        2 => word("two"),
        3 => word("three"),
        4 => word("four"),
        5 => word("five"),
        6 => word("six"),
        7 => word("seven"),
        8 => word("eight"),
        _ => word("nine"),
    }
}

fn teen_vec(n: usize) -> (res: Vec<char>)
    requires
        10 <= n <= 19,
    ensures
        res@ == teen_word(n as nat),
{
    match n {
        10 => word("ten"),
        11 => word("eleven"),
        12 => word("twelve"),
        13 => word("thirteen"),
        14 => word("fourteen"),
        15 => word("fifteen"),
        16 => word("sixteen"),
        17 => word("seventeen"),
        18 => word("eighteen"),
        _ => word("nineteen"),
    }
}

fn tens_vec(t: usize) -> (res: Vec<char>)
    requires
        2 <= t <= 9,
    ensures
        res@ == tens_word(t as nat),
{
    match t {
        2 => word("twenty"),
        3 => word("thirty"),
        4 => word("forty"),
        5 => word("fifty"),
        6 => word("sixty"),
        7 => word("seventy"),
        8 => word("eighty"),
        _ => word("ninety"),
    }
}

fn push_word(ws: &mut Vec<Vec<char>>, w: Vec<char>)
    ensures
        final(ws)@.map_values(|v: Vec<char>| v@) == old(ws)@.map_values(|v: Vec<char>| v@).push(w@),
{
    let ghost before = ws@.map_values(|v: Vec<char>| v@);
    ws.push(w);
    assert(ws@.map_values(|v: Vec<char>| v@) =~= before.push(w@));
}

/// `n` in English words, as spoken back to a user.
pub fn humanize_number(n: usize) -> (res: String)
    ensures
        res@ == humanize(n as nat),
{
    to_string(&humanize_vec(n))
}

fn humanize_vec(n: usize) -> (res: Vec<char>)
    ensures
        res@ == humanize(n as nat),
    decreases n,
{
    if n == 0 {
        return word("zero");
    }
    let mut words: Vec<Vec<char>> = Vec::new();
    if n >= 1000 {
        let t = humanize_vec(n / 1000);
        push_word(&mut words, t);
        push_word(&mut words, word("thousand"));
    }
    let m = n % 1000;
    if m >= 100 {
        push_word(&mut words, ones_vec(m / 100));
        push_word(&mut words, word("hundred"));
    }
    let r = m % 100;
    if words.len() > 0 && r > 0 {
        push_word(&mut words, word("and"));
    }
    if r >= 20 {
        push_word(&mut words, tens_vec(r / 10));
        if r % 10 > 0 {
            push_word(&mut words, ones_vec(r % 10));
        }
    } else if r >= 10 {
        push_word(&mut words, teen_vec(r));
    } else if r > 0 {
        push_word(&mut words, ones_vec(r));
    }
    let ghost high: Seq<Seq<char>> = if n >= 1000 {
        seq![humanize((n / 1000) as nat), "thousand"@]
    } else {
        Seq::empty()
    };
    let ghost mid: Seq<Seq<char>> = if m >= 100 {
        seq![ones_word((m / 100) as nat), "hundred"@]
    } else {
        Seq::empty()
    };
    let ghost link: Seq<Seq<char>> = if (high + mid).len() > 0 && r > 0 {
        seq!["and"@]
    } else {
        Seq::empty()
    };
    assert(words@.map_values(|v: Vec<char>| v@) =~= high + mid + link + small_words(r as nat));
    let mut sp: Vec<char> = Vec::new();
    sp.push(' ');
    assert(sp@ =~= seq![' ']);
    join_vec(&words, &sp)
}

/// The value of a decimal digit character.
pub open spec fn digit_value(c: char) -> nat {
    ((c as u32) - ('0' as u32)) as nat
}

pub open spec fn is_digit(c: char) -> bool {
    '0' <= c && c <= '9'
}

/// The number that a string of decimal digits spells.
pub open spec fn digits_value(s: Seq<char>) -> nat
    decreases s.len(),
{
    if s.len() == 0 {
        0
    } else {
        digits_value(s.drop_last()) * 10 + digit_value(s.last())
    }
}

/// The digits of an unsigned number: all after a leading `+`, if any.
pub open spec fn unsigned_digits(s: Seq<char>) -> Seq<char> {
    if s.len() > 0 && s[0] == '+' {
        s.skip(1)
    } else {
        s
    }
}

pub open spec fn all_digits(d: Seq<char>) -> bool {
    forall|i: int| 0 <= i < d.len() ==> is_digit(#[trigger] d[i])
}

/// What `str::parse::<usize>` gives: an optional `+`, then one digit or more,
/// whose value fits in `usize`.
pub open spec fn parsed_usize(s: Seq<char>) -> Option<nat> {
    let d = unsigned_digits(s);
    if d.len() > 0 && all_digits(d) && digits_value(d) <= usize::MAX {
        Some(digits_value(d))
    } else {
        None
    }
}

proof fn lemma_digits_value_grows(s: Seq<char>, j: int, k: int)
    requires
        0 <= j <= k <= s.len(),
    ensures
        digits_value(s.take(j)) <= digits_value(s.take(k)),
    decreases k - j,
{
    if j < k {
        lemma_digits_value_grows(s, j, k - 1);
        assert(s.take(k).drop_last() =~= s.take(k - 1));
    }
}

/// Reads an unsigned decimal number the way `str::parse::<usize>` does.
pub fn parse_usize(s: &Vec<char>) -> (res: Option<usize>)
    ensures
        match parsed_usize(s@) {
            Some(v) => res == Some(v as usize),
            None => res.is_none(),
        },
{
    let start: usize = if s.len() > 0 && s[0] == '+' { 1 } else { 0 };
    let ghost d = unsigned_digits(s@);
    assert(d =~= s@.skip(start as int));
    if start >= s.len() {
        return None;
    }
    let mut acc: usize = 0;
    let mut i: usize = start;
    while i < s.len()
        invariant
            start <= i <= s@.len(),
            start < s@.len(),
            d =~= s@.skip(start as int),
            d == unsigned_digits(s@),
            forall|k: int| 0 <= k < i - start ==> is_digit(#[trigger] d[k]),
            acc == digits_value(d.take(i - start)),
        decreases s@.len() - i,
    {
        let c = s[i];
        if !('0' <= c && c <= '9') {
            assert(!is_digit(d[i - start]));
            assert(!all_digits(d));
            return None;
        }
        assert(d.take(i - start + 1).drop_last() =~= d.take(i - start));
        let dv = (c as u32 - '0' as u32) as usize;
        assert(d.take(i - start + 1).last() == d[i - start]);
        assert(digits_value(d.take(i - start + 1)) == acc * 10 + dv);
        let m = acc.checked_mul(10);
        if m.is_none() {
            proof {
                lemma_digits_value_grows(d, i - start + 1, d.len() as int);
                assert(d.take(d.len() as int) =~= d);
            }
            return None;
        }
        let a = m.unwrap().checked_add(dv);
        if a.is_none() {
            proof {
                lemma_digits_value_grows(d, i - start + 1, d.len() as int);
                assert(d.take(d.len() as int) =~= d);
            }
            return None;
        }
        acc = a.unwrap();
        i += 1;
    }
    assert(d.take(i - start) =~= d);
    Some(acc)
}

/// What a spoken word does to the number being read: adds (`false`) or
/// multiplies by (`true`) its value; `None` for a word that is no number.
pub open spec fn word_effect(w: Seq<char>) -> Option<(bool, nat)> {
    if w == "zero"@ { Some((false, 0)) }
    else if w == "one"@ { Some((false, 1)) }
    else if w == "two"@ { Some((false, 2)) }
    else if w == "three"@ { Some((false, 3)) }
    else if w == "four"@ { Some((false, 4)) }
    else if w == "five"@ { Some((false, 5)) }
    else if w == "six"@ { Some((false, 6)) }
    else if w == "seven"@ { Some((false, 7)) }
    else if w == "eight"@ { Some((false, 8)) }
    else if w == "nine"@ { Some((false, 9)) }
    else if w == "ten"@ { Some((false, 10)) }
    else if w == "eleven"@ { Some((false, 11)) }
    else if w == "twelve"@ { Some((false, 12)) }
    else if w == "thirteen"@ { Some((false, 13)) }
    else if w == "fourteen"@ { Some((false, 14)) }
    else if w == "fifteen"@ { Some((false, 15)) }
    else if w == "sixteen"@ { Some((false, 16)) }
    else if w == "seventeen"@ { Some((false, 17)) }
    else if w == "eighteen"@ { Some((false, 18)) }
    else if w == "nineteen"@ { Some((false, 19)) }
    else if w == "twenty"@ { Some((false, 20)) }
    else if w == "thirty"@ { Some((false, 30)) }
    else if w == "forty"@ { Some((false, 40)) }
    else if w == "fifty"@ { Some((false, 50)) }
    else if w == "sixty"@ { Some((false, 60)) }
    else if w == "seventy"@ { Some((false, 70)) }
    else if w == "eighty"@ { Some((false, 80)) }
    else if w == "ninety"@ { Some((false, 90)) }
    else if w == "hundred"@ { Some((true, 100)) }
    else if w == "thousand"@ { Some((true, 1000)) }
    else if w == "million"@ { Some((true, 1000000)) }
    else if w == "billion"@ { Some((true, 1000000000)) }
    else if w == "trillion"@ { Some((true, 1000000000000)) }
    else if w == "quadrillion"@ { Some((true, 1000000000000000)) }
    else if w == "quintillion"@ { Some((true, 1000000000000000000)) }
    else {
        match parsed_usize(w) {
            Some(v) => Some((false, v)),
            None => None,
        }
    }
}

/// The number that spoken words give, read left to right: each number word
/// adds to or multiplies the value so far. `None` where a word is no number or
/// the value leaves `usize`.
pub open spec fn spoken_number(ws: Seq<Seq<char>>) -> Option<nat>
    decreases ws.len(),
{
    if ws.len() == 0 {
        Some(0)
    } else {
        match spoken_number(ws.drop_last()) {
            None => None,
            Some(n) => match word_effect(ws.last()) {
                None => None,
                Some(e) => {
                    let v = if e.0 { n * e.1 } else { n + e.1 };
                    if v <= usize::MAX {
                        Some(v)
                    } else {
                        None
                    }
                },
            },
        }
    }
}

/// What `word_effect` reads from each word that `humanize` writes for the
/// numbers up to one hundred, and that those words are plain words.
pub proof fn lemma_small_number_words()
    ensures
        word_effect("zero"@) == Some((false, 0nat)),
        plain_word("zero"@),
        word_effect("hundred"@) == Some((true, 100nat)),
        plain_word("hundred"@),
        forall|k: nat|
            1 <= k <= 9 ==> word_effect(#[trigger] ones_word(k)) == Some((false, k)) && plain_word(
                ones_word(k),
            ),
        forall|k: nat|
            10 <= k <= 19 ==> word_effect(#[trigger] teen_word(k)) == Some((false, k))
                && plain_word(teen_word(k)),
        forall|t: nat|
            2 <= t <= 9 ==> word_effect(#[trigger] tens_word(t)) == Some((false, 10 * t))
                && plain_word(tens_word(t)),
{
    reveal_strlit("zero");
    reveal_strlit("one");
    reveal_strlit("two");
    reveal_strlit("three");
    reveal_strlit("four");
    reveal_strlit("five");
    reveal_strlit("six");
    reveal_strlit("seven");
    reveal_strlit("eight");
    reveal_strlit("nine");
    reveal_strlit("ten");
    reveal_strlit("eleven");
    reveal_strlit("twelve");
    reveal_strlit("thirteen");
    reveal_strlit("fourteen");
    reveal_strlit("fifteen");
    reveal_strlit("sixteen");
    reveal_strlit("seventeen");
    reveal_strlit("eighteen");
    reveal_strlit("nineteen");
    reveal_strlit("twenty");
    reveal_strlit("thirty");
    reveal_strlit("forty");
    reveal_strlit("fifty");
    reveal_strlit("sixty");
    reveal_strlit("seventy");
    reveal_strlit("eighty");
    reveal_strlit("ninety");
    reveal_strlit("hundred");
    reveal_strlit("thousand");
    reveal_strlit("million");
    reveal_strlit("billion");
    reveal_strlit("trillion");
    reveal_strlit("quadrillion");
    reveal_strlit("quintillion");
    assert("zero"@.len() == 4);
    assert("zero"@[0] == 'z');
    assert("zero"@[1] == 'e');
    assert("zero"@[2] == 'r');
    assert("zero"@[3] == 'o');
    assert("one"@.len() == 3);
    assert("one"@[0] == 'o');
    assert("one"@[1] == 'n');
    assert("one"@[2] == 'e');
    assert("two"@.len() == 3);
    assert("two"@[0] == 't');
    assert("two"@[1] == 'w');
    assert("two"@[2] == 'o');
    assert("three"@.len() == 5);
    assert("three"@[0] == 't');
    assert("three"@[1] == 'h');
    assert("three"@[2] == 'r');
    assert("three"@[3] == 'e');
    assert("four"@.len() == 4);
    assert("four"@[0] == 'f');
    assert("four"@[1] == 'o');
    assert("four"@[2] == 'u');
    assert("four"@[3] == 'r');
    assert("five"@.len() == 4);
    assert("five"@[0] == 'f');
    assert("five"@[1] == 'i');
    assert("five"@[2] == 'v');
    assert("five"@[3] == 'e');
    assert("six"@.len() == 3);
    assert("six"@[0] == 's');
    assert("six"@[1] == 'i');
    assert("six"@[2] == 'x');
    assert("seven"@.len() == 5);
    assert("seven"@[0] == 's');
    assert("seven"@[1] == 'e');
    assert("seven"@[2] == 'v');
    assert("seven"@[3] == 'e');
    assert("eight"@.len() == 5);
    assert("eight"@[0] == 'e');
    assert("eight"@[1] == 'i');
    assert("eight"@[2] == 'g');
    assert("eight"@[3] == 'h');
    assert("nine"@.len() == 4);
    assert("nine"@[0] == 'n');
    assert("nine"@[1] == 'i');
    assert("nine"@[2] == 'n');
    assert("nine"@[3] == 'e');
    assert("ten"@.len() == 3);
    assert("ten"@[0] == 't');
    assert("ten"@[1] == 'e');
    assert("ten"@[2] == 'n');
    assert("eleven"@.len() == 6);
    assert("eleven"@[0] == 'e');
    assert("eleven"@[1] == 'l');
    assert("eleven"@[2] == 'e');
    assert("eleven"@[3] == 'v');
    assert("twelve"@.len() == 6);
    assert("twelve"@[0] == 't');
    assert("twelve"@[1] == 'w');
    assert("twelve"@[2] == 'e');
    assert("twelve"@[3] == 'l');
    assert("thirteen"@.len() == 8);
    assert("thirteen"@[0] == 't');
    assert("thirteen"@[1] == 'h');
    assert("thirteen"@[2] == 'i');
    assert("thirteen"@[3] == 'r');
    assert("fourteen"@.len() == 8);
    assert("fourteen"@[0] == 'f');
    assert("fourteen"@[1] == 'o');
    assert("fourteen"@[2] == 'u');
    assert("fourteen"@[3] == 'r');
    assert("fifteen"@.len() == 7);
    assert("fifteen"@[0] == 'f');
    assert("fifteen"@[1] == 'i');
    assert("fifteen"@[2] == 'f');
    assert("fifteen"@[3] == 't');
    assert("sixteen"@.len() == 7);
    assert("sixteen"@[0] == 's');
    assert("sixteen"@[1] == 'i');
    assert("sixteen"@[2] == 'x');
    assert("sixteen"@[3] == 't');
    assert("seventeen"@.len() == 9);
    assert("seventeen"@[0] == 's');
    assert("seventeen"@[1] == 'e');
    assert("seventeen"@[2] == 'v');
    assert("seventeen"@[3] == 'e');
    assert("eighteen"@.len() == 8);
    assert("eighteen"@[0] == 'e');
    assert("eighteen"@[1] == 'i');
    assert("eighteen"@[2] == 'g');
    assert("eighteen"@[3] == 'h');
    assert("nineteen"@.len() == 8);
    assert("nineteen"@[0] == 'n');
    assert("nineteen"@[1] == 'i');
    assert("nineteen"@[2] == 'n');
    assert("nineteen"@[3] == 'e');
    assert("twenty"@.len() == 6);
    assert("twenty"@[0] == 't');
    assert("twenty"@[1] == 'w');
    assert("twenty"@[2] == 'e');
    assert("twenty"@[3] == 'n');
    assert("thirty"@.len() == 6);
    assert("thirty"@[0] == 't');
    assert("thirty"@[1] == 'h');
    assert("thirty"@[2] == 'i');
    assert("thirty"@[3] == 'r');
    assert("forty"@.len() == 5);
    assert("forty"@[0] == 'f');
    assert("forty"@[1] == 'o');
    assert("forty"@[2] == 'r');
    assert("forty"@[3] == 't');
    assert("fifty"@.len() == 5);
    assert("fifty"@[0] == 'f');
    assert("fifty"@[1] == 'i');
    assert("fifty"@[2] == 'f');
    assert("fifty"@[3] == 't');
    assert("sixty"@.len() == 5);
    assert("sixty"@[0] == 's');
    assert("sixty"@[1] == 'i');
    assert("sixty"@[2] == 'x');
    assert("sixty"@[3] == 't');
    assert("seventy"@.len() == 7);
    assert("seventy"@[0] == 's');
    assert("seventy"@[1] == 'e');
    assert("seventy"@[2] == 'v');
    assert("seventy"@[3] == 'e');
    assert("eighty"@.len() == 6);
    assert("eighty"@[0] == 'e');
    assert("eighty"@[1] == 'i');
    assert("eighty"@[2] == 'g');
    assert("eighty"@[3] == 'h');
    assert("ninety"@.len() == 6);
    assert("ninety"@[0] == 'n');
    assert("ninety"@[1] == 'i');
    assert("ninety"@[2] == 'n');
    assert("ninety"@[3] == 'e');
    assert("hundred"@.len() == 7);
    assert("hundred"@[0] == 'h');
    assert("hundred"@[1] == 'u');
    assert("hundred"@[2] == 'n');
    assert("hundred"@[3] == 'd');
    assert("thousand"@.len() == 8);
    assert("thousand"@[0] == 't');
    assert("thousand"@[1] == 'h');
    assert("thousand"@[2] == 'o');
    assert("thousand"@[3] == 'u');
    assert("million"@.len() == 7);
    assert("million"@[0] == 'm');
    assert("million"@[1] == 'i');
    assert("million"@[2] == 'l');
    assert("million"@[3] == 'l');
    assert("billion"@.len() == 7);
    assert("billion"@[0] == 'b');
    assert("billion"@[1] == 'i');
    assert("billion"@[2] == 'l');
    assert("billion"@[3] == 'l');
    assert("trillion"@.len() == 8);
    assert("trillion"@[0] == 't');
    assert("trillion"@[1] == 'r');
    assert("trillion"@[2] == 'i');
    assert("trillion"@[3] == 'l');
    assert("quadrillion"@.len() == 11);
    assert("quadrillion"@[0] == 'q');
    assert("quadrillion"@[1] == 'u');
    assert("quadrillion"@[2] == 'a');
    assert("quadrillion"@[3] == 'd');
    assert("quintillion"@.len() == 11);
    assert("quintillion"@[0] == 'q');
    assert("quintillion"@[1] == 'u');
    assert("quintillion"@[2] == 'i');
    assert("quintillion"@[3] == 'n');
}

/// Whether `w` holds the characters of `lit`.
pub fn same_chars(w: &Vec<char>, lit: &str) -> (res: bool)
    ensures
        res == (w@ == lit@),
{
    let l = chars_of(lit);
    if w.len() != l.len() {
        return false;
    }
    let mut i: usize = 0;
    while i < w.len()
        invariant
            i <= w@.len(),
            w@.len() == l@.len(),
            l@ == lit@,
            w@.take(i as int) =~= l@.take(i as int),
        decreases w@.len() - i,
    {
        if w[i] != l[i] {
            return false;
        }
        assert(w@.take(i + 1) =~= l@.take(i + 1));
        i += 1;
    }
    assert(w@ =~= w@.take(i as int));
    assert(l@ =~= l@.take(i as int));
    true
}

fn word_effect_exec(w: &Vec<char>) -> (res: Option<(bool, u64)>)
    ensures
        match word_effect(w@) {
            Some(e) => res == Some((e.0, e.1 as u64)) && e.1 <= u64::MAX,
            None => res.is_none(),
        },
{
    if same_chars(w, "zero") { return Some((false, 0)); }
    if same_chars(w, "one") { return Some((false, 1)); }
    if same_chars(w, "two") { return Some((false, 2)); }
    if same_chars(w, "three") { return Some((false, 3)); }
    if same_chars(w, "four") { return Some((false, 4)); }
    if same_chars(w, "five") { return Some((false, 5)); }
    if same_chars(w, "six") { return Some((false, 6)); }
    if same_chars(w, "seven") { return Some((false, 7)); }
    if same_chars(w, "eight") { return Some((false, 8)); }
    if same_chars(w, "nine") { return Some((false, 9)); }
    if same_chars(w, "ten") { return Some((false, 10)); }
    if same_chars(w, "eleven") { return Some((false, 11)); }
    if same_chars(w, "twelve") { return Some((false, 12)); }
    if same_chars(w, "thirteen") { return Some((false, 13)); }
    if same_chars(w, "fourteen") { return Some((false, 14)); }
    if same_chars(w, "fifteen") { return Some((false, 15)); }
    if same_chars(w, "sixteen") { return Some((false, 16)); }
    if same_chars(w, "seventeen") { return Some((false, 17)); }
    if same_chars(w, "eighteen") { return Some((false, 18)); }
    if same_chars(w, "nineteen") { return Some((false, 19)); }
    if same_chars(w, "twenty") { return Some((false, 20)); }
    if same_chars(w, "thirty") { return Some((false, 30)); }
    if same_chars(w, "forty") { return Some((false, 40)); }
    if same_chars(w, "fifty") { return Some((false, 50)); }
    if same_chars(w, "sixty") { return Some((false, 60)); }
    if same_chars(w, "seventy") { return Some((false, 70)); }
    if same_chars(w, "eighty") { return Some((false, 80)); }
    if same_chars(w, "ninety") { return Some((false, 90)); }
    if same_chars(w, "hundred") { return Some((true, 100)); }
    if same_chars(w, "thousand") { return Some((true, 1000)); }
    if same_chars(w, "million") { return Some((true, 1000000)); }
    if same_chars(w, "billion") { return Some((true, 1000000000)); }
    if same_chars(w, "trillion") { return Some((true, 1000000000000)); }
    if same_chars(w, "quadrillion") { return Some((true, 1000000000000000)); }
    if same_chars(w, "quintillion") { return Some((true, 1000000000000000000)); }
    match parse_usize(w) {
        Some(v) => Some((false, v as u64)),
        None => None,
    }
}

/// Reads a number said in words ("two hundred and five" gives 205, though
/// "and" is no number word: see `spoken_number`) or in digits.
pub fn attempt_to_parse_number(args: &Vec<Vec<char>>) -> (res: Option<usize>)
    ensures
        match spoken_number(args@.map_values(|v: Vec<char>| v@)) {
            Some(v) => res == Some(v as usize),
            None => res.is_none(),
        },
{
    let ghost ws = args@.map_values(|v: Vec<char>| v@);
    let mut num: usize = 0;
    let mut i: usize = 0;
    while i < args.len()
        invariant
            i <= args@.len(),
            ws == args@.map_values(|v: Vec<char>| v@),
            spoken_number(ws.take(i as int)) == Some(num as nat),
        decreases args@.len() - i,
    {
        assert(ws.take(i + 1).drop_last() =~= ws.take(i as int));
        assert(ws.take(i + 1).last() == args@[i as int]@);
        let e = word_effect_exec(&args[i]);
        match e {
            None => {
                proof { lemma_spoken_none_stays(ws, i as int + 1); }
                return None;
            },
            Some((mul, k)) => {
                let n64 = num as u64;
                let v = if mul { n64.checked_mul(k) } else { n64.checked_add(k) };
                match v {
                    Some(v) => {
                        if v > usize::MAX as u64 {
                            proof { lemma_spoken_none_stays(ws, i as int + 1); }
                            return None;
                        }
                        num = v as usize;
                    },
                    None => {
                        proof { lemma_spoken_none_stays(ws, i as int + 1); }
                        return None;
                    },
                }
            },
        }
        i += 1;
    }
    assert(ws.take(i as int) =~= ws);
    Some(num)
}

proof fn lemma_spoken_none_stays(ws: Seq<Seq<char>>, j: int)
    requires
        0 <= j <= ws.len(),
        spoken_number(ws.take(j)) is None,
    ensures
        spoken_number(ws) is None,
    decreases ws.len() - j,
{
    if j < ws.len() {
        assert(ws.take(j + 1).drop_last() =~= ws.take(j));
        lemma_spoken_none_stays(ws, j + 1);
    } else {
        assert(ws.take(j) =~= ws);
    }
}

} // verus!
