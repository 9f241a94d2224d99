//! Text and byte helpers shared by the fetch, write and branch logic.
use vstd::prelude::*;
use vstd::std_specs::iter::IteratorSpec;
use vstd::string::*;
use vstd::utf8::*;

verus! {

broadcast use {vstd::string::axiom_spec_iter, vstd::string::next_postcondition};

/// A byte that the content trim removes: a tab or a space (never a newline).
pub open spec fn is_blank(b: u8) -> bool {
    b == 9u8 || b == 32u8
}

/// Index of the first non-blank byte, or the length when all are blank.
pub open spec fn first_kept(s: Seq<u8>) -> int
    decreases s.len(),
{
    if s.len() == 0 {
        0
    } else if !is_blank(s[0]) {
        0
    } else {
        1 + first_kept(s.drop_first())
    }
}

/// `s` without its leading and trailing blank bytes.
pub open spec fn trim_blank(s: Seq<u8>) -> Seq<u8>
    decreases s.len(),
{
    if s.len() == 0 {
        s
    } else if is_blank(s[0]) {
        trim_blank(s.drop_first())
    } else if is_blank(s.last()) {
        trim_blank(s.drop_last())
    } else {
        s
    }
}

/// Removing blanks twice removes nothing more.
pub proof fn lemma_trim_blank_idempotent(s: Seq<u8>)
    ensures
        trim_blank(trim_blank(s)) == trim_blank(s),
    decreases s.len(),
{
    if s.len() == 0 {
    } else if is_blank(s[0]) {
        lemma_trim_blank_idempotent(s.drop_first());
    } else if is_blank(s.last()) {
        lemma_trim_blank_idempotent(s.drop_last());
    }
}

proof fn lemma_trim_all_blank(s: Seq<u8>)
    requires
        forall|k: int| 0 <= k < s.len() ==> is_blank(#[trigger] s[k]),
    ensures
        trim_blank(s) == Seq::<u8>::empty(),
    decreases s.len(),
{
    if s.len() > 0 {
        let t = s.drop_first();
        assert(is_blank(s[0]));
        assert forall|k: int| 0 <= k < t.len() implies is_blank(#[trigger] t[k]) by {
            assert(t[k] == s[k + 1]);
        }
        lemma_trim_all_blank(t);
    } else {
        assert(s =~= Seq::<u8>::empty());
    }
}

proof fn lemma_trim_blank_range(s: Seq<u8>, lo: int, hi: int)
    requires
        0 <= lo <= hi <= s.len(),
        forall|k: int| 0 <= k < lo ==> is_blank(#[trigger] s[k]),
        forall|k: int| hi <= k < s.len() ==> is_blank(#[trigger] s[k]),
        lo < hi ==> !is_blank(s[lo]) && !is_blank(s[hi - 1]),
    ensures
        trim_blank(s) == s.subrange(lo, hi),
    decreases s.len(),
{
    if lo == hi {
        assert forall|k: int| 0 <= k < s.len() implies is_blank(#[trigger] s[k]) by {
            if k >= lo {
                assert(k >= hi);
            }
        }
        lemma_trim_all_blank(s);
        assert(s.subrange(lo, hi) =~= Seq::<u8>::empty());
    } else if lo > 0 {
        let t = s.drop_first();
        assert(is_blank(s[0]));
        assert forall|k: int| 0 <= k < lo - 1 implies is_blank(#[trigger] t[k]) by {
            assert(t[k] == s[k + 1]);
        }
        assert forall|k: int| hi - 1 <= k < t.len() implies is_blank(#[trigger] t[k]) by {
            assert(t[k] == s[k + 1]);
        }
        assert(t[lo - 1] == s[lo]);
        assert(t[hi - 2] == s[hi - 1]);
        lemma_trim_blank_range(t, lo - 1, hi - 1);
        assert(t.subrange(lo - 1, hi - 1) =~= s.subrange(lo, hi));
    } else if hi < s.len() {
        let t = s.drop_last();
        assert(is_blank(s.last()));
        assert(!is_blank(s[0]));
        lemma_trim_blank_range(t, lo, hi);
        assert(t.subrange(lo, hi) =~= s.subrange(lo, hi));
    } else {
        assert(!is_blank(s[0]));
        assert(!is_blank(s.last()));
        assert(s.subrange(lo, hi) =~= s);
    }
}

/// Copies `b` without its leading and trailing tabs and spaces.
pub fn trim_blank_bytes(b: &[u8]) -> (r: Vec<u8>)
    ensures
        r@ == trim_blank(b@),
{
    let n = b.len();
    let mut lo: usize = 0;
    while lo < n && (b[lo] == 9u8 || b[lo] == 32u8)
        invariant
            lo <= n,
            n == b@.len(),
            forall|k: int| 0 <= k < lo ==> is_blank(#[trigger] b@[k]),
        decreases n - lo,
    {
        lo = lo + 1;
    }
    let mut hi: usize = n;
    while hi > lo && (b[hi - 1] == 9u8 || b[hi - 1] == 32u8)
        invariant
            lo <= hi <= n,
            n == b@.len(),
            forall|k: int| hi <= k < n ==> is_blank(#[trigger] b@[k]),
        decreases hi,
    {
        hi = hi - 1;
    }
    let mut r: Vec<u8> = Vec::new();
    let mut i: usize = lo;
    while i < hi
        invariant
            lo <= i <= hi <= n,
            n == b@.len(),
            r@ == b@.subrange(lo as int, i as int),
        decreases hi - i,
    {
        r.push(b[i]);
        i = i + 1;
        assert(r@ =~= b@.subrange(lo as int, i as int));
    }
    proof {
        if lo < hi {
            assert(!is_blank(b@[lo as int]));
        }
        lemma_trim_blank_range(b@, lo as int, hi as int);
    }
    r
}

/// The characters of `s`, one by one.
pub fn chars_of(s: &str) -> (r: Vec<char>)
    ensures
        r@ == s@,
{
    let mut it = s.chars();
    let mut r: Vec<char> = Vec::new();
    loop
        invariant
            r@ + it.remaining() == s@,
            it.decrease() is Some,
        ensures
            r@ == s@,
        decreases it.decrease()->0,
    {
        match it.next() {
            Some(c) => {
                r.push(c);
                assert(r@ + it.remaining() =~= s@);
            },
            None => {
                assert(r@ + it.remaining() =~= r@);
                break;
            },
        }
    }
    r
}

/// Relies on `String::from_iter` over chars: the string holds exactly those characters.
#[verifier::external_body]
pub(crate) fn string_of(v: &Vec<char>) -> (r: String)
    ensures
        r@ == v@,
{
    String::from_iter(v.iter())
}

/// Relies on `std::str::from_utf8`: it accepts exactly the well-formed UTF-8
/// byte strings and decodes them.
#[verifier::external_body]
pub(crate) fn utf8_text(b: &[u8]) -> (r: Option<String>)
    ensures
        r is Some <==> valid_utf8(b@),
        r is Some ==> r->0@ == decode_utf8(b@),
{
    std::str::from_utf8(b).ok().map(|t| t.to_string())
}

/// Appends the characters of `tail` to `out`.
pub fn append_chars(out: &mut Vec<char>, tail: &Vec<char>)
    ensures
        final(out)@ == old(out)@ + tail@,
{
    let ghost start = out@;
    let mut i: usize = 0;
    while i < tail.len()
        invariant
            i <= tail@.len(),
            out@ == start + tail@.subrange(0, i as int),
        decreases tail@.len() - i,
    {
        out.push(tail[i]);
        i = i + 1;
        assert(out@ =~= start + tail@.subrange(0, i as int));
    }
    assert(tail@.subrange(0, tail@.len() as int) =~= tail@);
}

/// Whether two character strings are equal.
pub fn equal_chars(a: &Vec<char>, b: &Vec<char>) -> (r: bool)
    ensures
        r == (a@ == b@),
{
    if a.len() != b.len() {
        return false;
    }
    let mut i: usize = 0;
    while i < a.len()
        invariant
            i <= a@.len(),
            a@.len() == b@.len(),
            forall|k: int| 0 <= k < i ==> a@[k] == b@[k],
        decreases a@.len() - i,
    {
        if a[i] != b[i] {
            return false;
        }
        i = i + 1;
    }
    assert(a@ =~= b@);
    true
}

/// Whether `s` ends with `suffix`.
pub fn ends_with_chars(s: &Vec<char>, suffix: &Vec<char>) -> (r: bool)
    ensures
        r == (suffix@.len() <= s@.len() && occurs_at(s@, suffix@, s@.len() - suffix@.len())),
{
    if suffix.len() > s.len() {
        return false;
    }
    occurs_at_exec(s, suffix, s.len() - suffix.len())
}

/// `needle` occurs in `hay` at position `i`.
pub open spec fn occurs_at<T>(hay: Seq<T>, needle: Seq<T>, i: int) -> bool {
    0 <= i && i + needle.len() <= hay.len() && hay.subrange(i, i + needle.len()) == needle
}

/// `needle` occurs somewhere in `hay`.
pub open spec fn contains<T>(hay: Seq<T>, needle: Seq<T>) -> bool {
    exists|i: int| occurs_at(hay, needle, i)
}

fn occurs_at_exec(hay: &Vec<char>, needle: &Vec<char>, i: usize) -> (r: bool)
    requires
        i + needle@.len() <= hay@.len(),
    ensures
        r == occurs_at(hay@, needle@, i as int),
{
    let hl = hay.len();
    let mut j: usize = 0;
    while j < needle.len()
        invariant
            hl == hay@.len(),
            j <= needle@.len(),
            i + needle@.len() <= hay@.len(),
            forall|k: int| 0 <= k < j ==> hay@[i + k] == needle@[k],
        decreases needle@.len() - j,
    {
        assert(i + j < hay@.len());
        if hay[i + j] != needle[j] {
            assert(hay@.subrange(i as int, i + needle@.len())[j as int] != needle@[j as int]);
            return false;
        }
        j = j + 1;
    }
    assert(hay@.subrange(i as int, i + needle@.len()) =~= needle@);
    true
}

/// Whether `needle` occurs in `hay`.
pub fn contains_chars(hay: &Vec<char>, needle: &Vec<char>) -> (r: bool)
    ensures
        r == contains(hay@, needle@),
{
    if needle.len() > hay.len() {
        return false;
    }
    let last = hay.len() - needle.len();
    let mut i: usize = 0;
    loop
        invariant
            i <= last,
            last + needle@.len() == hay@.len(),
            forall|k: int| 0 <= k < i ==> !occurs_at(hay@, needle@, k),
        decreases last - i,
    {
        if occurs_at_exec(hay, needle, i) {
            return true;
        }
        if i == last {
            return false;
        }
        i = i + 1;
    }
}

/// `needle` occurs in `hay` at most once.
pub open spec fn at_most_once<T>(hay: Seq<T>, needle: Seq<T>) -> bool {
    forall|i: int, j: int| occurs_at(hay, needle, i) && occurs_at(hay, needle, j) ==> i == j
}

/// Whether `needle` (not empty) occurs in `hay` at most once.
pub fn occurs_at_most_once(hay: &Vec<char>, needle: &Vec<char>) -> (r: bool)
    ensures
        r == at_most_once(hay@, needle@),
{
    if needle.len() > hay.len() {
        return true;
    }
    let last = hay.len() - needle.len();
    let mut seen: Option<usize> = None;
    let mut i: usize = 0;
    loop
        invariant
            i <= last,
            last + needle@.len() == hay@.len(),
            match seen {
                None => forall|k: int| 0 <= k < i ==> !occurs_at(hay@, needle@, k),
                Some(f) => f < i && occurs_at(hay@, needle@, f as int) && forall|k: int|
                    0 <= k < i && k != f ==> !occurs_at(hay@, needle@, k),
            },
        decreases last - i,
    {
        if occurs_at_exec(hay, needle, i) {
            if seen.is_some() {
                return false;
            }
            seen = Some(i);
        }
        if i == last {
            proof {
                assert forall|a: int, b: int| occurs_at(hay@, needle@, a) && occurs_at(hay@, needle@, b) implies a == b by {
                    match seen {
                        None => {},
                        Some(f) => {
                            assert(a == f as int);
                            assert(b == f as int);
                        },
                    }
                }
            }
            return true;
        }
        i = i + 1;
    }
}

/// `s` with every leading copy of `p` removed (`p` not empty).
pub open spec fn strip_all_prefixes(s: Seq<char>, p: Seq<char>) -> Seq<char>
    decreases s.len(),
{
    if p.len() > 0 && occurs_at(s, p, 0) {
        strip_all_prefixes(s.subrange(p.len() as int, s.len() as int), p)
    } else {
        s
    }
}

/// Removes every leading copy of `p` from `s`, as `trim_start_matches` does.
pub fn strip_all_prefixes_exec(s: &Vec<char>, p: &Vec<char>) -> (r: Vec<char>)
    ensures
        r@ == strip_all_prefixes(s@, p@),
{
    let sl = s.len();
    let mut start: usize = 0;
    let mut rest: Vec<char> = s.clone();
    assert(rest@ == s@.subrange(0, s@.len() as int));
    while p.len() > 0 && p.len() <= rest.len() && occurs_at_exec(&rest, p, 0)
        invariant
            start <= s@.len(),
            start + rest@.len() == s@.len(),
            sl == s@.len(),
            rest@ == s@.subrange(start as int, s@.len() as int),
            strip_all_prefixes(rest@, p@) == strip_all_prefixes(s@, p@),
        decreases rest@.len(),
    {
        let mut next: Vec<char> = Vec::new();
        let mut k: usize = p.len();
        while k < rest.len()
            invariant
                p@.len() <= k <= rest@.len(),
                next@ == rest@.subrange(p@.len() as int, k as int),
            decreases rest@.len() - k,
        {
            next.push(rest[k]);
            k = k + 1;
            assert(next@ =~= rest@.subrange(p@.len() as int, k as int));
        }
        start = start + p.len();
        assert(next@ =~= s@.subrange(start as int, s@.len() as int));
        rest = next;
    }
    rest
}

/// `s` with each occurrence of `pat` (found left to right, not overlapping)
/// replaced by `rep`.
pub open spec fn replace_all(s: Seq<char>, pat: Seq<char>, rep: Seq<char>) -> Seq<char>
    decreases s.len(),
{
    if s.len() == 0 || pat.len() == 0 {
        s
    } else if occurs_at(s, pat, 0) {
        rep + replace_all(s.subrange(pat.len() as int, s.len() as int), pat, rep)
    } else {
        seq![s[0]] + replace_all(s.drop_first(), pat, rep)
    }
}

/// Replaces each occurrence of `pat` in `s` by `rep`, as `str::replace` does.
pub fn replace_all_exec(s: &Vec<char>, pat: &Vec<char>, rep: &Vec<char>) -> (r: Vec<char>)
    requires
        pat@.len() > 0,
    ensures
        r@ == replace_all(s@, pat@, rep@),
{
    let n = s.len();
    let mut out: Vec<char> = Vec::new();
    let mut i: usize = 0;
    assert(s@.subrange(0, n as int) =~= s@);
    assert(out@ + replace_all(s@, pat@, rep@) =~= replace_all(s@, pat@, rep@));
    while i < n
        invariant
            n == s@.len(),
            i <= n,
            pat@.len() > 0,
            out@ + replace_all(s@.subrange(i as int, n as int), pat@, rep@) == replace_all(s@, pat@, rep@),
        decreases n - i,
    {
        let ghost rest = s@.subrange(i as int, n as int);
        if pat.len() <= n - i && occurs_at_exec(s, pat, i) {
            assert(rest.subrange(0, pat@.len() as int) =~= s@.subrange(i as int, i + pat@.len()));
            assert(rest.subrange(pat@.len() as int, rest.len() as int) =~= s@.subrange(i + pat@.len(), n as int));
            let mut k: usize = 0;
            let ghost before = out@;
            while k < rep.len()
                invariant
                    k <= rep@.len(),
                    out@ == before + rep@.subrange(0, k as int),
                decreases rep@.len() - k,
            {
                out.push(rep[k]);
                k = k + 1;
                assert(out@ =~= before + rep@.subrange(0, k as int));
            }
            assert(rep@.subrange(0, rep@.len() as int) =~= rep@);
            assert(out@ + replace_all(s@.subrange(i + pat@.len(), n as int), pat@, rep@) =~= before + replace_all(rest, pat@, rep@));
            i = i + pat.len();
        } else {
            assert(!occurs_at(rest, pat@, 0)) by {
                if pat@.len() <= n - i {
                    assert(rest.subrange(0, pat@.len() as int) =~= s@.subrange(i as int, i + pat@.len()));
                }
            }
            assert(rest.drop_first() =~= s@.subrange(i + 1, n as int));
            let ghost before = out@;
            out.push(s[i]);
            assert(out@ + replace_all(s@.subrange(i + 1, n as int), pat@, rep@) =~= before + replace_all(rest, pat@, rep@));
            i = i + 1;
        }
    }
    assert(s@.subrange(n as int, n as int) =~= Seq::<char>::empty());
    assert(out@ + Seq::<char>::empty() =~= out@);
    out
}

} // verus!
