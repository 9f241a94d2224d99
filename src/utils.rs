//! Small string helpers.
use crate::text::{chars_of, contains, contains_chars, string_of};
use std::collections::HashMap;
use std::hash::RandomState;
use vstd::prelude::*;
use vstd::std_specs::hash::{builds_valid_hashers, contains_borrowed_key, maps_borrowed_key_to_value, obeys_key_model};

verus! {

/// The first `max_chars` characters of `s`, or all of them where it has fewer.
pub fn truncate(s: &str, max_chars: usize) -> (r: String)
    ensures
        r@ == if s@.len() <= max_chars { s@ } else { s@.subrange(0, max_chars as int) },
{
    let cs = chars_of(s);
    let mut out: Vec<char> = Vec::new();
    let mut i: usize = 0;
    while i < cs.len() && i < max_chars
        invariant
            i <= cs@.len(),
            i <= max_chars,
            out@ == cs@.subrange(0, i as int),
        decreases cs@.len() - i,
    {
        out.push(cs[i]);
        i = i + 1;
        assert(out@ =~= cs@.subrange(0, i as int));
    }
    if cs.len() <= max_chars {
        assert(out@ =~= cs@);
    }
    string_of(&out)
}

/// The first of a list of values, or the empty string.
pub open spec fn first_or_empty(v: Seq<String>) -> Seq<char> {
    if v.len() > 0 {
        v[0]@
    } else {
        Seq::empty()
    }
}

/// The first value listed under `key`, or the empty string where `key` is
/// absent or lists none.
pub fn get_value(map: &HashMap<String, Vec<String>>, key: &str) -> (r: String)
    ensures
        obeys_key_model::<String>() && builds_valid_hashers::<RandomState>() ==> {
            ||| exists|v: Vec<String>|
                maps_borrowed_key_to_value(map@, key, v) && r@ == first_or_empty(v@)
            ||| !contains_borrowed_key(map@, key) && r@ == Seq::<char>::empty()
        },
{
    match map.get(key) {
        Some(v) => {
            if v.len() == 0 {
                String::new()
            } else {
                v[0].clone()
            }
        },
        None => String::new(),
    }
}

/// The part of an issue that the lookup reads.
pub struct GitHubIssue {
    pub number: i64,
    pub title: String,
}

/// The index of the first issue whose title holds `search`.
pub open spec fn first_issue_with(issues: Seq<GitHubIssue>, search: Seq<char>) -> Option<int> {
    if exists|i: int| 0 <= i < issues.len() && contains(issues[i].title@, search) {
        Some(
            choose|i: int|
                0 <= i < issues.len() && contains(issues[i].title@, search) && forall|j: int|
                    0 <= j < i ==> !contains(issues[j].title@, search),
        )
    } else {
        None
    }
}

/// The first issue whose title holds `search`, if any.
pub fn check_if_github_issue_exists(issues: &Vec<GitHubIssue>, search: &str) -> (r: Option<GitHubIssue>)
    ensures
        match first_issue_with(issues@, search@) {
            Some(i) => r is Some && r->0.number == issues@[i].number && r->0.title == issues@[i].title,
            None => r is None,
        },
{
    let needle = chars_of(search);
    let mut i: usize = 0;
    while i < issues.len()
        invariant
            i <= issues@.len(),
            needle@ == search@,
            forall|j: int| 0 <= j < i ==> !contains(issues@[j].title@, search@),
        decreases issues@.len() - i,
    {
        if contains_chars(&chars_of(issues[i].title.as_str()), &needle) {
            proof {
                let k = first_issue_with(issues@, search@)->0;
                if k < i {
                } else if k > i {
                }
            }
            return Some(GitHubIssue { number: issues[i].number, title: issues[i].title.clone() });
        }
        i = i + 1;
    }
    None
}

/// What `str::trim` leaves of a text.
pub uninterp spec fn whitespace_trimmed(s: Seq<char>) -> Seq<char>;

/// Relies on `str::trim`: the result depends on the text alone.
#[verifier::external_body]
fn trim_whitespace(s: &str) -> (r: String)
    ensures
        r@ == whitespace_trimmed(s@),
{
    s.trim().to_string()
}

/// The lines of `s`, split at each `\n`.
pub open spec fn split_lines(s: Seq<char>) -> Seq<Seq<char>>
    decreases s.len(),
{
    if s.len() == 0 {
        seq![Seq::empty()]
    } else {
        let rest = split_lines(s.drop_first());
        if s[0] == '\n' {
            seq![Seq::<char>::empty()] + rest
        } else {
            rest.update(0, seq![s[0]] + rest[0])
        }
    }
}

/// The keys of a key listing: each line trimmed, the empty ones left out.
pub open spec fn keys_of(lines: Seq<Seq<char>>) -> Seq<Seq<char>>
    decreases lines.len(),
{
    if lines.len() == 0 {
        Seq::empty()
    } else {
        let k = whitespace_trimmed(lines[0]);
        (if k.len() > 0 { seq![k] } else { Seq::empty() }) + keys_of(lines.drop_first())
    }
}

proof fn lemma_split_lines_nonempty(s: Seq<char>)
    ensures
        split_lines(s).len() > 0,
    decreases s.len(),
{
    if s.len() > 0 {
        lemma_split_lines_nonempty(s.drop_first());
    }
}

/// The lines of a text, from the end: `split_lines(s.subrange(0, i))` extends
/// by one character at a time.
proof fn lemma_split_lines_snoc(s: Seq<char>, c: char)
    ensures
        split_lines(s.push(c)) == if c == '\n' {
            split_lines(s).push(Seq::empty())
        } else {
            split_lines(s).update(split_lines(s).len() - 1, split_lines(s).last().push(c))
        },
    decreases s.len(),
{
    lemma_split_lines_nonempty(s);
    if s.len() == 0 {
        assert(s.push(c).drop_first() =~= Seq::<char>::empty());
        assert(s.push(c) =~= seq![c]);
        assert(split_lines(Seq::<char>::empty()) == seq![Seq::<char>::empty()]);
        assert(s =~= Seq::<char>::empty());
        if c == '\n' {
            assert(split_lines(s.push(c)) =~= split_lines(s).push(Seq::empty()));
        } else {
            assert(split_lines(s.push(c)) =~= split_lines(s).update(0, seq![c]));
            assert(split_lines(s).last().push(c) =~= seq![c]);
        }
    } else {
        assert(s.push(c).drop_first() =~= s.drop_first().push(c));
        lemma_split_lines_snoc(s.drop_first(), c);
        lemma_split_lines_nonempty(s.drop_first());
        let r = split_lines(s.drop_first());
        if s[0] == '\n' {
            if c == '\n' {
                assert(split_lines(s.push(c)) =~= split_lines(s).push(Seq::empty()));
            } else {
                assert(split_lines(s.push(c)) =~= split_lines(s).update(split_lines(s).len() - 1, split_lines(s).last().push(c)));
            }
        } else {
            if c == '\n' {
                assert(split_lines(s.push(c)) =~= split_lines(s).push(Seq::empty()));
            } else {
                if r.len() == 1 {
                    assert((seq![s[0]] + r[0]).push(c) =~= seq![s[0]] + r[0].push(c));
                }
                assert(split_lines(s.push(c)) =~= split_lines(s).update(split_lines(s).len() - 1, split_lines(s).last().push(c)));
            }
        }
    }
}

proof fn lemma_keys_of_append(a: Seq<Seq<char>>, b: Seq<Seq<char>>)
    ensures
        keys_of(a + b) == keys_of(a) + keys_of(b),
    decreases a.len(),
{
    if a.len() == 0 {
        assert(a + b =~= b);
        assert(keys_of(a) + keys_of(b) =~= keys_of(b));
    } else {
        assert((a + b).drop_first() =~= a.drop_first() + b);
        lemma_keys_of_append(a.drop_first(), b);
        let k = whitespace_trimmed(a[0]);
        let h = if k.len() > 0 { seq![k] } else { Seq::<Seq<char>>::empty() };
        assert(h + (keys_of(a.drop_first()) + keys_of(b)) =~= (h + keys_of(a.drop_first())) + keys_of(b));
    }
}

/// The public keys of a key listing: one per line, trimmed, empty lines left
/// out.
pub fn public_ssh_keys(body: &str) -> (r: Vec<String>)
    ensures
        r@.map_values(|k: String| k@) == keys_of(split_lines(body@)),
{
    let cs = chars_of(body);
    let mut out: Vec<String> = Vec::new();
    let mut line: Vec<char> = Vec::new();
    let mut i: usize = 0;
    proof {
        assert(cs@.subrange(0, 0) =~= Seq::<char>::empty());
        assert(out@.map_values(|k: String| k@) =~= Seq::<Seq<char>>::empty());
        assert(split_lines(Seq::<char>::empty()).drop_last() =~= Seq::<Seq<char>>::empty());
    }
    while i < cs.len()
        invariant
            i <= cs@.len(),
            split_lines(cs@.subrange(0, i as int)).len() > 0,
            line@ == split_lines(cs@.subrange(0, i as int)).last(),
            out@.map_values(|k: String| k@) == keys_of(split_lines(cs@.subrange(0, i as int)).drop_last()),
        decreases cs@.len() - i,
    {
        let ghost prev = cs@.subrange(0, i as int);
        let c = cs[i];
        assert(cs@.subrange(0, i + 1) =~= prev.push(c));
        proof {
            lemma_split_lines_snoc(prev, c);
        }
        if c == '\n' {
            let ghost before = out@.map_values(|k: String| k@);
            let k = trim_whitespace(string_of(&line).as_str());
            if !k.as_str().is_empty() {
                out.push(k);
            }
            proof {
                let ls = split_lines(prev);
                lemma_keys_of_append(ls.drop_last(), seq![ls.last()]);
                assert(ls.drop_last() + seq![ls.last()] =~= ls);
                assert(split_lines(prev.push(c)).drop_last() =~= ls);
                assert(seq![ls.last()].drop_first() =~= Seq::<Seq<char>>::empty());
                assert(keys_of(seq![ls.last()].drop_first()) =~= Seq::<Seq<char>>::empty());
                let kk = whitespace_trimmed(ls.last());
                assert(keys_of(seq![ls.last()]) =~= if kk.len() > 0 { seq![kk] } else { Seq::<Seq<char>>::empty() });
                assert(out@.map_values(|k: String| k@) =~= before + keys_of(seq![ls.last()]));
            }
            line = Vec::new();
            assert(line@ =~= Seq::<char>::empty());
        } else {
            line.push(c);
            proof {
                let ls = split_lines(prev);
                assert(split_lines(prev.push(c)).drop_last() =~= ls.drop_last());
            }
        }
        i = i + 1;
    }
    proof {
        assert(cs@.subrange(0, cs@.len() as int) =~= cs@);
    }
    let ghost before = out@.map_values(|k: String| k@);
    let k = trim_whitespace(string_of(&line).as_str());
    if !k.as_str().is_empty() {
        out.push(k);
    }
    proof {
        let ls = split_lines(cs@);
        lemma_keys_of_append(ls.drop_last(), seq![ls.last()]);
        assert(ls.drop_last() + seq![ls.last()] =~= ls);
        assert(seq![ls.last()].drop_first() =~= Seq::<Seq<char>>::empty());
        assert(keys_of(seq![ls.last()].drop_first()) =~= Seq::<Seq<char>>::empty());
        let kk = whitespace_trimmed(ls.last());
        assert(keys_of(seq![ls.last()]) =~= if kk.len() > 0 { seq![kk] } else { Seq::<Seq<char>>::empty() });
        assert(out@.map_values(|k: String| k@) =~= before + keys_of(seq![ls.last()]));
    }
    out
}

} // verus!
