//! The image assets of a document: a walk two directory levels deep.
use crate::content::DirectoryItem;
use crate::text::{chars_of, ends_with_chars, occurs_at, replace_all, replace_all_exec, string_of};
use vstd::prelude::*;

verus! {

/// Whether `s` ends with `suffix`.
pub open spec fn ends_with(s: Seq<char>, suffix: Seq<char>) -> bool {
    suffix.len() <= s.len() && occurs_at(s, suffix, s.len() - suffix.len())
}

/// Whether a file name has one of the image extensions.
pub open spec fn is_image_name(name: Seq<char>) -> bool {
    ends_with(name, ".svg"@) || ends_with(name, ".png"@) || ends_with(name, ".jpg"@) || ends_with(
        name,
        ".jpeg"@,
    )
}

/// Whether a file name has one of the image extensions.
pub fn is_image(name: &str) -> (r: bool)
    ensures
        r == is_image_name(name@),
{
    let n = chars_of(name);
    ends_with_chars(&n, &chars_of(".svg")) || ends_with_chars(&n, &chars_of(".png"))
        || ends_with_chars(&n, &chars_of(".jpg")) || ends_with_chars(&n, &chars_of(".jpeg"))
}

/// The number of directories in a listing.
pub open spec fn dir_count(entries: Seq<DirectoryItem>) -> nat
    decreases entries.len(),
{
    if entries.len() == 0 {
        0
    } else {
        (if entries[0].is_dir { 1nat } else { 0nat }) + dir_count(entries.drop_first())
    }
}

/// The paths of the image files of a second-level listing, in listing order;
/// directories there are not entered.
pub open spec fn inner_images(listing: Seq<DirectoryItem>) -> Seq<Seq<char>>
    decreases listing.len(),
{
    if listing.len() == 0 {
        Seq::empty()
    } else {
        (if !listing[0].is_dir && is_image_name(listing[0].name@) {
            seq![listing[0].path@]
        } else {
            Seq::empty()
        }) + inner_images(listing.drop_first())
    }
}

/// The paths of the images of a document, in walk order: for each entry of the
/// document's directory, the images of its own listing where it is a
/// directory (`inner` holds those listings, one per directory, in order), then
/// the entry itself where its name is an image's.
pub open spec fn walk(entries: Seq<DirectoryItem>, inner: Seq<Seq<DirectoryItem>>) -> Seq<Seq<char>>
    decreases entries.len(),
{
    if entries.len() == 0 {
        Seq::empty()
    } else {
        let e = entries[0];
        let below = if e.is_dir && inner.len() > 0 { inner_images(inner[0]) } else { Seq::empty() };
        let rest = if e.is_dir && inner.len() > 0 { inner.drop_first() } else { inner };
        below + (if is_image_name(e.name@) { seq![e.path@] } else { Seq::empty() }) + walk(
            entries.drop_first(),
            rest,
        )
    }
}

/// `p` without its trailing `/`s.
pub open spec fn without_trailing_slashes(p: Seq<char>) -> Seq<char>
    decreases p.len(),
{
    if p.len() > 0 && p.last() == '/' {
        without_trailing_slashes(p.drop_last())
    } else {
        p
    }
}

/// The paths of the directories of a listing, in order, without trailing `/`.
pub open spec fn dirs_to_list(entries: Seq<DirectoryItem>) -> Seq<Seq<char>>
    decreases entries.len(),
{
    if entries.len() == 0 {
        Seq::empty()
    } else {
        (if entries[0].is_dir {
            seq![without_trailing_slashes(entries[0].path@)]
        } else {
            Seq::empty()
        }) + dirs_to_list(entries.drop_first())
    }
}

fn trim_trailing_slashes(p: &str) -> (r: String)
    ensures
        r@ == without_trailing_slashes(p@),
{
    let cs = chars_of(p);
    let mut k: usize = cs.len();
    assert(cs@.subrange(0, k as int) =~= cs@);
    while k > 0 && cs[k - 1] == '/'
        invariant
            k <= cs@.len(),
            without_trailing_slashes(cs@.subrange(0, k as int)) == without_trailing_slashes(cs@),
        decreases k,
    {
        assert(cs@.subrange(0, k as int).drop_last() =~= cs@.subrange(0, k - 1));
        k = k - 1;
    }
    let mut out: Vec<char> = Vec::new();
    let mut i: usize = 0;
    while i < k
        invariant
            i <= k <= cs@.len(),
            out@ == cs@.subrange(0, i as int),
        decreases k - i,
    {
        out.push(cs[i]);
        i = i + 1;
        assert(out@ =~= cs@.subrange(0, i as int));
    }
    string_of(&out)
}

/// The directories of the document's listing that the walk lists in turn, in
/// order.
pub fn subdirectories(entries: &Vec<DirectoryItem>) -> (r: Vec<String>)
    ensures
        r@.len() == dir_count(entries@),
        r@.map_values(|s: String| s@) == dirs_to_list(entries@),
{
    let mut out: Vec<String> = Vec::new();
    let mut j: usize = 0;
    assert(entries@.subrange(0, entries@.len() as int) =~= entries@);
    assert(out@.map_values(|s: String| s@) =~= Seq::<Seq<char>>::empty());
    assert(Seq::<Seq<char>>::empty() + dirs_to_list(entries@) =~= dirs_to_list(entries@));
    while j < entries.len()
        invariant
            j <= entries@.len(),
            dirs_to_list(entries@) == out@.map_values(|s: String| s@) + dirs_to_list(entries@.subrange(j as int, entries@.len() as int)),
            dir_count(entries@) == out@.len() + dir_count(entries@.subrange(j as int, entries@.len() as int)),
        decreases entries@.len() - j,
    {
        let ghost rest = entries@.subrange(j as int, entries@.len() as int);
        assert(rest.drop_first() =~= entries@.subrange(j + 1, entries@.len() as int));
        if entries[j].is_dir {
            let ghost before = out@;
            out.push(trim_trailing_slashes(entries[j].path.as_str()));
            assert(out@.map_values(|s: String| s@) =~= before.map_values(|s: String| s@) + seq![without_trailing_slashes(entries@[j as int].path@)]);
        }
        j = j + 1;
    }
    assert(entries@.subrange(entries@.len() as int, entries@.len() as int) =~= Seq::<DirectoryItem>::empty());
    assert(out@.map_values(|s: String| s@) + Seq::<Seq<char>>::empty() =~= out@.map_values(|s: String| s@));
    out
}

fn push_inner_images(out: &mut Vec<String>, listing: &Vec<DirectoryItem>)
    ensures
        final(out)@.map_values(|s: String| s@) == old(out)@.map_values(|s: String| s@) + inner_images(listing@),
{
    let ghost start = out@.map_values(|s: String| s@);
    let mut j: usize = 0;
    assert(listing@.subrange(0, listing@.len() as int) =~= listing@);
    while j < listing.len()
        invariant
            j <= listing@.len(),
            start + inner_images(listing@) == out@.map_values(|s: String| s@) + inner_images(listing@.subrange(j as int, listing@.len() as int)),
        decreases listing@.len() - j,
    {
        let ghost rest = listing@.subrange(j as int, listing@.len() as int);
        assert(rest.drop_first() =~= listing@.subrange(j + 1, listing@.len() as int));
        if !listing[j].is_dir && is_image(listing[j].name.as_str()) {
            let ghost before = out@.map_values(|s: String| s@);
            out.push(listing[j].path.clone());
            assert(out@.map_values(|s: String| s@) =~= before + seq![listing@[j as int].path@]);
            assert(before + seq![listing@[j as int].path@] + inner_images(rest.drop_first()) =~= before + inner_images(rest));
        } else {
            assert(inner_images(rest) =~= inner_images(rest.drop_first()));
        }
        j = j + 1;
    }
    assert(listing@.subrange(listing@.len() as int, listing@.len() as int) =~= Seq::<DirectoryItem>::empty());
    assert(out@.map_values(|s: String| s@) + Seq::<Seq<char>>::empty() =~= out@.map_values(|s: String| s@));
}

/// The paths of the images of a document in walk order, from the listing of
/// its directory (`entries`) and the listings of the directories in it
/// (`inner`, one per directory of `entries`, in the order of `subdirectories`).
/// Deeper directories are never entered.
pub fn get_images(entries: &Vec<DirectoryItem>, inner: &Vec<Vec<DirectoryItem>>) -> (r: Vec<String>)
    requires
        inner@.len() == dir_count(entries@),
    ensures
        r@.map_values(|s: String| s@) == walk(entries@, inner@.map_values(|l: Vec<DirectoryItem>| l@)),
{
    let ghost lists = inner@.map_values(|l: Vec<DirectoryItem>| l@);
    let mut out: Vec<String> = Vec::new();
    let mut j: usize = 0;
    let mut d: usize = 0;
    let il = inner.len();
    assert(entries@.subrange(0, entries@.len() as int) =~= entries@);
    assert(out@.map_values(|s: String| s@) =~= Seq::<Seq<char>>::empty());
    assert(Seq::<Seq<char>>::empty() + walk(entries@, lists) =~= walk(entries@, lists));
    assert(lists.subrange(0, lists.len() as int) =~= lists);
    while j < entries.len()
        invariant
            j <= entries@.len(),
            d <= inner@.len(),
            il == inner@.len(),
            lists == inner@.map_values(|l: Vec<DirectoryItem>| l@),
            inner@.len() - d == dir_count(entries@.subrange(j as int, entries@.len() as int)),
            walk(entries@, lists) == out@.map_values(|s: String| s@) + walk(
                entries@.subrange(j as int, entries@.len() as int),
                lists.subrange(d as int, lists.len() as int),
            ),
        decreases entries@.len() - j,
    {
        let ghost rest = entries@.subrange(j as int, entries@.len() as int);
        let ghost subs = lists.subrange(d as int, lists.len() as int);
        let ghost before = out@.map_values(|s: String| s@);
        assert(rest.drop_first() =~= entries@.subrange(j + 1, entries@.len() as int));
        if entries[j].is_dir {
            assert(d < inner@.len());
            push_inner_images(&mut out, &inner[d]);
            assert(subs.drop_first() =~= lists.subrange(d + 1, lists.len() as int));
            d = d + 1;
        }
        let ghost mid = out@.map_values(|s: String| s@);
        if is_image(entries[j].name.as_str()) {
            out.push(entries[j].path.clone());
            assert(out@.map_values(|s: String| s@) =~= mid + seq![entries@[j as int].path@]);
        }
        proof {
            let below = if rest[0].is_dir && subs.len() > 0 { inner_images(subs[0]) } else { Seq::empty() };
            let own = if is_image_name(rest[0].name@) { seq![rest[0].path@] } else { Seq::<Seq<char>>::empty() };
            assert(mid =~= before + below);
            assert(out@.map_values(|s: String| s@) =~= before + below + own);
        }
        j = j + 1;
    }
    assert(entries@.subrange(entries@.len() as int, entries@.len() as int) =~= Seq::<DirectoryItem>::empty());
    assert(out@.map_values(|s: String| s@) + Seq::<Seq<char>>::empty() =~= out@.map_values(|s: String| s@));
    out
}

proof fn lemma_inner_images_source(listing: Seq<DirectoryItem>, p: Seq<char>)
    requires
        inner_images(listing).contains(p),
    ensures
        exists|i: int| 0 <= i < listing.len() && !listing[i].is_dir && is_image_name(listing[i].name@) && #[trigger] listing[i].path@ == p,
    decreases listing.len(),
{
    let head = if !listing[0].is_dir && is_image_name(listing[0].name@) {
        seq![listing[0].path@]
    } else {
        Seq::<Seq<char>>::empty()
    };
    let tail = inner_images(listing.drop_first());
    let k = choose|k: int| 0 <= k < inner_images(listing).len() && inner_images(listing)[k] == p;
    if k < head.len() {
        assert(listing[0].path@ == p);
    } else {
        assert(tail[k - head.len()] == p);
        lemma_inner_images_source(listing.drop_first(), p);
        let i = choose|i: int| 0 <= i < listing.drop_first().len() && !listing.drop_first()[i].is_dir
            && is_image_name(listing.drop_first()[i].name@) && #[trigger] listing.drop_first()[i].path@ == p;
        assert(listing[i + 1] == listing.drop_first()[i]);
    }
}

/// The walk never goes below the second level: each path it collects is that
/// of an entry of the document's directory whose name is an image's, or of an
/// image file listed in one of the directories right below it.
pub proof fn lemma_walk_depth(entries: Seq<DirectoryItem>, inner: Seq<Seq<DirectoryItem>>, p: Seq<char>)
    requires
        walk(entries, inner).contains(p),
    ensures
        (exists|i: int| 0 <= i < entries.len() && is_image_name(entries[i].name@) && #[trigger] entries[i].path@ == p)
            || (exists|k: int, i: int|
            0 <= k < inner.len() && 0 <= i < inner[k].len() && !inner[k][i].is_dir && is_image_name(inner[k][i].name@)
                && #[trigger] inner[k][i].path@ == p),
    decreases entries.len(),
{
    let e = entries[0];
    let below = if e.is_dir && inner.len() > 0 { inner_images(inner[0]) } else { Seq::empty() };
    let rest = if e.is_dir && inner.len() > 0 { inner.drop_first() } else { inner };
    let own = if is_image_name(e.name@) { seq![e.path@] } else { Seq::<Seq<char>>::empty() };
    let tail = walk(entries.drop_first(), rest);
    let w = walk(entries, inner);
    assert(w == below + own + tail);
    let k = choose|k: int| 0 <= k < w.len() && w[k] == p;
    if k < below.len() {
        assert(below[k] == p);
        assert(below.contains(p));
        lemma_inner_images_source(inner[0], p);
        let i = choose|i: int| 0 <= i < inner[0].len() && !inner[0][i].is_dir && is_image_name(inner[0][i].name@) && #[trigger] inner[0][i].path@ == p;
        assert(inner[0][i].path@ == p);
    } else if k < below.len() + own.len() {
        assert(entries[0].path@ == p);
    } else {
        assert(tail[k - below.len() - own.len()] == p);
        assert(tail.contains(p));
        lemma_walk_depth(entries.drop_first(), rest, p);
        if exists|i: int| 0 <= i < entries.drop_first().len() && is_image_name(entries.drop_first()[i].name@) && #[trigger] entries.drop_first()[i].path@ == p {
            let i = choose|i: int| 0 <= i < entries.drop_first().len() && is_image_name(entries.drop_first()[i].name@) && #[trigger] entries.drop_first()[i].path@ == p;
            assert(entries[i + 1] == entries.drop_first()[i]);
        } else {
            let (k2, i) = choose|k2: int, i: int|
                0 <= k2 < rest.len() && 0 <= i < rest[k2].len() && !rest[k2][i].is_dir && is_image_name(rest[k2][i].name@)
                    && #[trigger] rest[k2][i].path@ == p;
            if e.is_dir && inner.len() > 0 {
                assert(inner[k2 + 1] == rest[k2]);
                assert(inner[k2 + 1][i].path@ == p);
            } else {
                assert(inner[k2][i].path@ == p);
            }
        }
    }
}

/// Where an image of the documents' repository goes among the static assets.
pub open spec fn frontend_path(p: Seq<char>) -> Seq<char> {
    replace_all(p, "rfd/"@, "src/public/static/images/"@)
}

/// Where an image of the documents' repository goes among the static assets.
pub fn frontend_image_path(path: &str) -> (r: String)
    ensures
        r@ == frontend_path(path@),
{
    let p = chars_of(path);
    let pat = chars_of("rfd/");
    proof {
        reveal_strlit("rfd/");
    }
    string_of(&replace_all_exec(&p, &pat, &chars_of("src/public/static/images/")))
}

} // verus!
