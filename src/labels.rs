//! Node labels: parsing `key=value` tokens into a mapping.
use vstd::prelude::*;
use vstd::string::StrSliceExecFns;

verus! {

/// Where the key of a label token ends: at its first '=', or at its end.
pub open spec fn key_end(s: Seq<char>) -> int {
    if exists|i: int| 0 <= i < s.len() && s[i] == '=' && forall|j: int| 0 <= j < i ==> s[j] != '=' {
        choose|i: int| 0 <= i < s.len() && s[i] == '=' && forall|j: int| 0 <= j < i ==> s[j] != '='
    } else {
        s.len() as int
    }
}

/// A token split on its first '=' only; without '=' the value is empty;
/// a token with an empty key gives nothing.
pub open spec fn split_label(s: Seq<char>) -> Option<(Seq<char>, Seq<char>)> {
    let e = key_end(s);
    if e == 0 {
        None
    } else if e == s.len() {
        Some((s, Seq::empty()))
    } else {
        Some((s.subrange(0, e), s.subrange(e + 1, s.len() as int)))
    }
}

pub open spec fn keys_unique(s: Seq<(Seq<char>, Seq<char>)>) -> bool {
    forall|i: int, j: int| 0 <= i < j < s.len() ==> s[i].0 != s[j].0
}

/// The mapping with `k` set to `v`: a present key keeps its place, a new
/// key goes last.
pub open spec fn with_label(s: Seq<(Seq<char>, Seq<char>)>, k: Seq<char>, v: Seq<char>) -> Seq<
    (Seq<char>, Seq<char>),
> {
    if exists|i: int| 0 <= i < s.len() && s[i].0 == k {
        s.update(choose|i: int| 0 <= i < s.len() && s[i].0 == k, (k, v))
    } else {
        s.push((k, v))
    }
}

/// The mapping that a list of tokens describes: later keys win.
pub open spec fn labels_of(ts: Seq<Seq<char>>) -> Seq<(Seq<char>, Seq<char>)>
    decreases ts.len(),
{
    if ts.len() == 0 {
        Seq::empty()
    } else {
        let prev = labels_of(ts.drop_last());
        match split_label(ts.last()) {
            Some(kv) => with_label(prev, kv.0, kv.1),
            None => prev,
        }
    }
}

/// A string-to-string mapping, in order of first insertion, one entry per key.
#[derive(Debug)]
pub struct Labels {
    entries: Vec<(String, String)>,
}

impl View for Labels {
    type V = Seq<(Seq<char>, Seq<char>)>;

    closed spec fn view(&self) -> Seq<(Seq<char>, Seq<char>)> {
        self.entries@.map_values(|e: (String, String)| (e.0@, e.1@))
    }
}

impl Labels {
    pub open spec fn wf(&self) -> bool {
        keys_unique(self@)
    }

    pub fn new() -> (r: Labels)
        ensures
            r@ == Seq::<(Seq<char>, Seq<char>)>::empty(),
            r.wf(),
    {
        let r = Labels { entries: Vec::new() };
        assert(r@ =~= Seq::<(Seq<char>, Seq<char>)>::empty());
        r
    }

    pub fn len(&self) -> (r: usize)
        ensures
            r == self@.len(),
    {
        self.entries.len()
    }

    /// The value of `key`, if the mapping holds it.
    pub fn get(&self, key: &str) -> (r: Option<&String>)
        requires
            self.wf(),
        ensures
            match r {
                Some(v) => exists|i: int| 0 <= i < self@.len() && self@[i] == (key@, v@),
                None => forall|i: int| 0 <= i < self@.len() ==> self@[i].0 != key@,
            },
    {
        let k = key.to_owned();
        let mut i: usize = 0;
        while i < self.entries.len()
            invariant
                i <= self.entries@.len(),
                k@ == key@,
                forall|j: int| 0 <= j < i ==> self@[j].0 != key@,
            decreases self.entries@.len() - i,
        {
            if self.entries[i].0 == k {
                assert(self@[i as int] == (key@, self.entries@[i as int].1@));
                return Some(&self.entries[i].1);
            }
            i = i + 1;
        }
        None
    }

    /// The pairs in order, as owned strings.
    pub fn entries(&self) -> (r: Vec<(String, String)>)
        ensures
            r@.len() == self@.len(),
            forall|i: int| 0 <= i < r@.len() ==> (#[trigger] r@[i]).0@ == self@[i].0 && r@[i].1@
                == self@[i].1,
    {
        let mut r: Vec<(String, String)> = Vec::new();
        let mut i: usize = 0;
        while i < self.entries.len()
            invariant
                i <= self.entries@.len(),
                r@.len() == i,
                forall|j: int| 0 <= j < i ==> (#[trigger] r@[j]).0@ == self@[j].0 && r@[j].1@
                    == self@[j].1,
            decreases self.entries@.len() - i,
        {
            let k = self.entries[i].0.clone();
            let v = self.entries[i].1.clone();
            r.push((k, v));
            i = i + 1;
        }
        r
    }

    /// Sets `key` to `value`, replacing the value of a key already there.
    pub fn insert(&mut self, key: String, value: String)
        requires
            old(self).wf(),
        ensures
            final(self).wf(),
            final(self)@ == with_label(old(self)@, key@, value@),
    {
        let ghost s = self@;
        let mut i: usize = 0;
        while i < self.entries.len()
            invariant
                i <= self.entries@.len(),
                self@ == s,
                keys_unique(s),
                s == old(self)@,
                forall|j: int| 0 <= j < i ==> s[j].0 != key@,
            decreases self.entries@.len() - i,
        {
            if self.entries[i].0 == key {
                proof {
                    assert(s[i as int].0 == key@);
                    let c = choose|c: int| 0 <= c < s.len() && s[c].0 == key@;
                    assert(c == i) by {
                        if c < i {
                        } else if c > i {
                            assert(s[i as int].0 != s[c].0);
                        }
                    }
                }
                self.entries[i] = (key, value);
                assert(self@ =~= with_label(s, key@, value@));
                assert(self@ =~= s.update(i as int, (key@, value@)));
                assert(keys_unique(self@)) by {
                    assert forall|a: int, b: int| 0 <= a < b < self@.len() implies self@[a].0
                        != self@[b].0 by {
                        assert(self@[a].0 == s[a].0 && self@[b].0 == s[b].0);
                    }
                }
                return ;
            }
            i = i + 1;
        }
        self.entries.push((key, value));
        assert(self@ =~= s.push((key@, value@)));
        assert(keys_unique(self@)) by {
            assert forall|a: int, b: int| 0 <= a < b < self@.len() implies self@[a].0
                != self@[b].0 by {
                if b == s.len() {
                    assert(s[a].0 != key@);
                } else {
                    assert(self@[a].0 == s[a].0 && self@[b].0 == s[b].0);
                }
            }
        }
    }
}

/// Splits one `key=value` token on its first '='. A token without '=' has
/// an empty value; one whose key is empty gives `None`.
pub fn split_one_label(in_string: &str) -> (r: Option<(String, String)>)
    ensures
        match r {
            None => split_label(in_string@) is None,
            Some(kv) => split_label(in_string@) == Some((kv.0@, kv.1@)),
        },
{
    let n = in_string.unicode_len();
    let mut i: usize = 0;
    while i < n && in_string.get_char(i) != '='
        invariant
            i <= n,
            n == in_string@.len(),
            forall|j: int| 0 <= j < i ==> in_string@[j] != '=',
        decreases n - i,
    {
        i = i + 1;
    }
    let ghost s = in_string@;
    proof {
        if i < n {
            assert(0 <= i < s.len() && s[i as int] == '=' && forall|j: int|
                0 <= j < i ==> s[j] != '=');
            let c = choose|c: int|
                0 <= c < s.len() && s[c] == '=' && forall|j: int| 0 <= j < c ==> s[j] != '=';
            assert(c == i) by {
                if c < i {
                } else if c > i {
                    assert(s[i as int] != '=');
                }
            }
        }
        assert(key_end(s) == i);
    }
    if i == 0 {
        None
    } else if i == n {
        let k = in_string.substring_char(0, n);
        assert(k@ =~= s);
        Some((k.to_owned(), String::new()))
    } else {
        let k = in_string.substring_char(0, i);
        let v = in_string.substring_char(i + 1, n);
        Some((k.to_owned(), v.to_owned()))
    }
}

/// The label mapping of the given tokens, or `Absent` when none of them
/// gives a pair.
pub fn labels_from_tokens(tokens: &Vec<String>) -> (r: crate::field::FieldState<Labels>)
    ensures
        r matches crate::field::FieldState::Valid(l) ==> l.wf(),
        r@ == (if labels_of(tokens@.map_values(|t: String| t@)).len() == 0 {
            crate::field::FieldModel::Absent
        } else {
            crate::field::FieldModel::Valid(labels_of(tokens@.map_values(|t: String| t@)))
        }),
{
    let ghost ts = tokens@.map_values(|t: String| t@);
    let mut labels = Labels::new();
    let mut i: usize = 0;
    while i < tokens.len()
        invariant
            i <= tokens@.len(),
            ts == tokens@.map_values(|t: String| t@),
            labels.wf(),
            labels@ == labels_of(ts.subrange(0, i as int)),
        decreases tokens@.len() - i,
    {
        assert(ts.subrange(0, i + 1).drop_last() =~= ts.subrange(0, i as int));
        match split_one_label(tokens[i].as_str()) {
            Some(kv) => {
                labels.insert(kv.0, kv.1);
            },
            None => {},
        }
        i = i + 1;
    }
    assert(ts.subrange(0, tokens@.len() as int) =~= ts);
    if labels.len() == 0 {
        crate::field::FieldState::Absent
    } else {
        crate::field::FieldState::Valid(labels)
    }
}

} // verus!
