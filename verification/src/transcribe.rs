use vstd::prelude::*;
use std::collections::HashMap;
use vstd::std_specs::iter::IteratorSpec;

verus! {

broadcast use vstd::std_specs::hash::group_hash_axioms;

/// Whether `s` is strictly increasing.
pub open spec fn strictly_sorted(s: Seq<u64>) -> bool {
    forall|i: int, j: int| 0 <= i < j < s.len() ==> s[i] < s[j]
}

/// Which text channels each voice channel's transcript is shown in.
pub struct TranscribeMap {
    pub map: HashMap<u64, Vec<u64>>,
}

/// `s` sorted, each value once (what `sort` then `dedup` make of it).
pub open spec fn is_sorted_set_of(r: Seq<u64>, s: Seq<u64>) -> bool {
    &&& strictly_sorted(r)
    &&& forall|x: u64| r.contains(x) <==> s.contains(x)
}

fn insert_sorted(v: &mut Vec<u64>, x: u64)
    requires
        strictly_sorted(old(v)@),
    ensures
        strictly_sorted(final(v)@),
        forall|y: u64| final(v)@.contains(y) <==> (old(v)@.contains(y) || y == x),
{
    let mut k: usize = 0;
    while k < v.len() && v[k] < x
        invariant
            k <= v@.len(),
            v@ == old(v)@,
            strictly_sorted(v@),
            forall|i: int| 0 <= i < k ==> v@[i] < x,
        decreases v@.len() - k,
    {
        k += 1;
    }
    if k < v.len() && v[k] == x {
        return;
    }
    let ghost before = v@;
    v.insert(k, x);
    assert forall|i: int, j: int| 0 <= i < j < v@.len() implies v@[i] < v@[j] by {
        if j < k {
            assert(v@[i] == before[i] && v@[j] == before[j]);
        } else if j == k {
            assert(v@[i] == before[i]);
        } else if i < k {
            assert(v@[j] == before[j - 1]);
        } else if i == k {
            assert(v@[j] == before[j - 1]);
        } else {
            assert(v@[i] == before[i - 1] && v@[j] == before[j - 1]);
        }
    }
    assert forall|y: u64| v@.contains(y) <==> (before.contains(y) || y == x) by {
        if v@.contains(y) {
            let i = choose|i: int| 0 <= i < v@.len() && #[trigger] v@[i] == y;
            if i < k {
                assert(before[i] == y);
            } else if i > k {
                assert(before[i - 1] == y);
            }
        }
        if before.contains(y) {
            let i = choose|i: int| 0 <= i < before.len() && #[trigger] before[i] == y;
            if i < k {
                assert(v@[i] == y);
            } else {
                assert(v@[i + 1] == y);
            }
        }
        if y == x {
            assert(v@[k as int] == y);
        }
    }
}

/// The values of `s` sorted, each once.
pub fn sorted_unique(s: &Vec<u64>) -> (res: Vec<u64>)
    ensures
        is_sorted_set_of(res@, s@),
{
    let mut out: Vec<u64> = Vec::new();
    let mut i: usize = 0;
    while i < s.len()
        invariant
            i <= s@.len(),
            strictly_sorted(out@),
            forall|y: u64| out@.contains(y) <==> s@.take(i as int).contains(y),
        decreases s@.len() - i,
    {
        insert_sorted(&mut out, s[i]);
        assert forall|y: u64| out@.contains(y) <==> s@.take(i + 1).contains(y) by {
            if s@.take(i + 1).contains(y) {
                let j = choose|j: int| 0 <= j < s@.take(i + 1).len() && #[trigger] s@.take(i + 1)[j] == y;
                if j < i {
                    assert(s@.take(i as int)[j] == y);
                }
            }
            if s@.take(i as int).contains(y) {
                let j = choose|j: int| 0 <= j < s@.take(i as int).len() && #[trigger] s@.take(i as int)[j] == y;
                assert(s@.take(i + 1)[j] == y);
            }
            if y == s@[i as int] {
                assert(s@.take(i + 1)[i as int] == y);
            }
        }
        i += 1;
    }
    assert(s@.take(s@.len() as int) =~= s@);
    out
}

/// `s` without the entries equal to `x`.
pub open spec fn without_value(s: Seq<u64>, x: u64) -> Seq<u64>
    decreases s.len(),
{
    if s.len() == 0 {
        s
    } else if s.last() == x {
        without_value(s.drop_last(), x)
    } else {
        without_value(s.drop_last(), x).push(s.last())
    }
}

fn remove_value(s: &Vec<u64>, x: u64) -> (res: Vec<u64>)
    ensures
        res@ == without_value(s@, x),
{
    let mut out: Vec<u64> = Vec::new();
    let mut i: usize = 0;
    while i < s.len()
        invariant
            i <= s@.len(),
            out@ == without_value(s@.take(i as int), x),
        decreases s@.len() - i,
    {
        assert(s@.take(i + 1).drop_last() =~= s@.take(i as int));
        if s[i] != x {
            out.push(s[i]);
        }
        i += 1;
    }
    assert(s@.take(s@.len() as int) =~= s@);
    out
}

fn holds(v: &Vec<u64>, x: u64) -> (res: bool)
    ensures
        res == v@.contains(x),
{
    let mut i: usize = 0;
    while i < v.len()
        invariant
            i <= v@.len(),
            forall|j: int| 0 <= j < i ==> v@[j] != x,
        decreases v@.len() - i,
    {
        if v[i] == x {
            assert(v@[i as int] == x);
            return true;
        }
        i += 1;
    }
    false
}

/// The text channels a voice channel's list starts with: itself alone.
pub open spec fn default_list(voice: u64) -> Seq<u64> {
    seq![voice]
}

impl TranscribeMap {
    pub open spec fn view_map(&self) -> Map<u64, Seq<u64>> {
        self.map@.map_values(|v: Vec<u64>| v@)
    }

    /// An empty map.
    pub fn new() -> (res: Self)
        ensures
            res.view_map() == Map::<u64, Seq<u64>>::empty(),
    {
        let res = TranscribeMap { map: HashMap::new() };
        assert(res.view_map() =~= Map::<u64, Seq<u64>>::empty());
        res
    }

    fn list_of(&self, voice: u64) -> (res: Option<Vec<u64>>)
        ensures
            self.map@.contains_key(voice) ==> (res matches Some(v) && v@ == self.map@[voice]@),
            !self.map@.contains_key(voice) ==> res is None,
    {
        match self.map.get(&voice) {
            Some(v) => Some(v.clone()),
            None => None,
        }
    }

    /// The text channels that show `voice`'s transcript; none where the
    /// voice channel has no list.
    pub fn list_all_channels(&self, voice: u64) -> (res: Vec<u64>)
        ensures
            self.view_map().contains_key(voice) ==> res@ == self.view_map()[voice],
            !self.view_map().contains_key(voice) ==> res@ == Seq::<u64>::empty(),
    {
        match self.list_of(voice) {
            Some(v) => v,
            None => Vec::new(),
        }
    }

    /// Makes sure that `voice` has a list, starting it with itself.
    pub fn ensure_channel(&mut self, voice: u64)
        ensures
            old(self).view_map().contains_key(voice) ==> final(self).view_map() == old(
                self,
            ).view_map(),
            !old(self).view_map().contains_key(voice) ==> final(self).view_map() == old(
                self,
            ).view_map().insert(voice, default_list(voice)),
    {
        if !self.map.contains_key(&voice) {
            let mut v: Vec<u64> = Vec::new();
            v.push(voice);
            self.map.insert(voice, v);
            assert(self.view_map() =~= old(self).view_map().insert(voice, default_list(voice)));
        }
    }

    /// Adds `text` to `voice`'s list (kept sorted, each channel once) or
    /// takes it out; a missing list starts as `voice` alone.
    pub fn set_channel(&mut self, voice: u64, text: u64, keep_or_put: bool)
        ensures
            forall|k: u64| k != voice ==> (#[trigger] final(self).view_map().contains_key(k)
                == old(self).view_map().contains_key(k)) && (old(self).view_map().contains_key(k)
                ==> final(self).view_map()[k] == old(self).view_map()[k]),
            final(self).view_map().contains_key(voice),
            ({
                let before = if old(self).view_map().contains_key(voice) {
                    old(self).view_map()[voice]
                } else {
                    default_list(voice)
                };
                &&& keep_or_put ==> is_sorted_set_of(
                    final(self).view_map()[voice],
                    before.push(text),
                )
                &&& !keep_or_put ==> final(self).view_map()[voice] == without_value(before, text)
            }),
    {
        let before: Vec<u64> = match self.list_of(voice) {
            Some(v) => v,
            None => {
                let mut v: Vec<u64> = Vec::new();
                v.push(voice);
                assert(v@ =~= default_list(voice));
                v
            },
        };
        let next = if keep_or_put {
            let mut all = before;
            all.push(text);
            sorted_unique(&all)
        } else {
            remove_value(&before, text)
        };
        self.map.insert(voice, next);
    }

    /// Empties `voice`'s list.
    pub fn clear_channel(&mut self, voice: u64)
        ensures
            final(self).view_map() == old(self).view_map().insert(voice, Seq::<u64>::empty()),
    {
        self.map.insert(voice, Vec::new());
        assert(self.view_map() =~= old(self).view_map().insert(voice, Seq::<u64>::empty()));
    }

    /// The voice channels whose lists hold `text`, each once.
    pub fn voice_channels_with(&self, text: u64) -> (res: Vec<u64>)
        ensures
            res@.no_duplicates(),
            forall|v: u64|
                res@.contains(v) <==> (self.view_map().contains_key(v) && self.view_map()[v].contains(
                    text,
                )),
    {
        let mut out: Vec<u64> = Vec::new();
        let ghost keys = vstd::std_specs::hash::spec_keys_iter(&self.map).remaining();
        proof {
            vstd::std_specs::hash::axiom_spec_keys_iter(&self.map);
        }
        for k in it: self.map.keys()
            invariant
                keys == vstd::std_specs::hash::spec_keys_iter(&self.map).remaining(),
                keys.unref().to_set() == self.map@.dom(),
                keys.no_duplicates(),
                it.seq() == keys,
                out@.no_duplicates(),
                forall|v: u64|
                    out@.contains(v) <==> (exists|i: int|
                        0 <= i < it.index() && *#[trigger] keys[i] == v) && self.view_map().contains_key(v)
                        && self.view_map()[v].contains(text),
        {
            assert(self.map@.dom().contains(*k)) by {
                assert(keys.unref().contains(*k));
            }
            let ghost idx = it.index();
            assert(k == keys[idx]);
            let ghost before = out@;
            let list = self.map.get(k);
            match list {
                Some(l) => {
                    assert(l@ == self.view_map()[*k]);
                    if holds(l, text) {
                        assert(!before.contains(*k)) by {
                            if before.contains(*k) {
                                let i = choose|i: int| 0 <= i < idx && *#[trigger] keys[i] == *k;
                                assert(keys[i] == keys[idx]);
                            }
                        }
                        out.push(*k);
                        assert(out@ =~= before.push(*k));
                        assert(out@.contains(*k)) by {
                            assert(out@[before.len() as int] == *k);
                        }
                    }
                },
                None => {},
            }
            assert(out@ == before || out@ == before.push(*k));
            assert forall|v: u64|
                out@.contains(v) <==> (exists|i: int|
                    0 <= i < idx + 1 && *#[trigger] keys[i] == v) && self.view_map().contains_key(v)
                    && self.view_map()[v].contains(text) by {
                if v == *k {
                    assert(*keys[idx] == v);
                }
                if out@.contains(v) && v != *k {
                    let j = choose|j: int| 0 <= j < out@.len() && #[trigger] out@[j] == v;
                    if out@ != before {
                        assert(j < before.len());
                    }
                    assert(before[j] == v);
                    assert(before.contains(v));
                }
                if before.contains(v) {
                    let j = choose|j: int| 0 <= j < before.len() && #[trigger] before[j] == v;
                    assert(out@[j] == v);
                }
                if (exists|i: int| 0 <= i < idx + 1 && *#[trigger] keys[i] == v)
                    && self.view_map().contains_key(v) && self.view_map()[v].contains(text) && v
                    != *k {
                    let i = choose|i: int| 0 <= i < idx + 1 && *#[trigger] keys[i] == v;
                    assert(i < idx);
                    assert(before.contains(v));
                }
            }
        }
        out
    }
}

} // verus!
