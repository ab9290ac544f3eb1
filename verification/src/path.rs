//! Paths as plain strings.
//!
//! The crate handles every path as a slash-delimited `String`. The shell
//! around the crate canonicalizes what it reads from disk before handing it
//! in, so path arithmetic here is purely textual: joining, prefix stripping,
//! extension swapping and `.`/`..` resolution.

use vstd::prelude::*;

use crate::text::{
    chars_to_string, eq_lit, extend_chars, lemma_views_of_push, split_chars, split_spec,
    starts_with_spec, str_to_chars, sub_chars, views_of,
};

verus! {

/// A path that does not start at the filesystem root.
pub open spec fn is_relative_spec(p: Seq<char>) -> bool {
    p.len() == 0 || p[0] != '/'
}

/// Exec mirror of [`is_relative_spec`].
pub fn is_relative(p: &Vec<char>) -> (r: bool)
    ensures
        r == is_relative_spec(p@),
{
    p.len() == 0 || p[0] != '/'
}

/// `base` and `rel` joined with a single slash. An absolute `rel` replaces
/// `base`, as the standard library's path join does.
pub open spec fn join_spec(base: Seq<char>, rel: Seq<char>) -> Seq<char> {
    if !is_relative_spec(rel) {
        rel
    } else if base.len() == 0 {
        rel
    } else if base.last() == '/' {
        base + rel
    } else {
        base + seq!['/'] + rel
    }
}

/// Exec mirror of [`join_spec`].
pub fn join_chars(base: &Vec<char>, rel: &Vec<char>) -> (r: Vec<char>)
    ensures
        r@ == join_spec(base@, rel@),
{
    if !is_relative(rel) || base.len() == 0 {
        let r = sub_chars(rel, 0, rel.len());
        proof {
            assert(r@ =~= rel@);
        }
        return r;
    }
    let mut r = sub_chars(base, 0, base.len());
    proof {
        assert(r@ =~= base@);
    }
    if base[base.len() - 1] != '/' {
        r.push('/');
        proof {
            assert(r@ =~= base@ + seq!['/']);
        }
        extend_chars(&mut r, rel);
        proof {
            assert(r@ =~= base@ + seq!['/'] + rel@);
        }
    } else {
        extend_chars(&mut r, rel);
    }
    r
}

/// The index of the last occurrence of `c` in `s`, or `-1`.
pub open spec fn last_index_of(s: Seq<char>, c: char) -> int
    decreases s.len(),
{
    if s.len() == 0 {
        -1
    } else if s.last() == c {
        s.len() - 1
    } else {
        last_index_of(s.drop_last(), c)
    }
}

proof fn lemma_last_index_position(s: Seq<char>, c: char, i: int)
    requires
        0 <= i <= s.len(),
        forall|k: int| i <= k < s.len() ==> s[k] != c,
        i > 0 ==> s[i - 1] == c,
    ensures
        last_index_of(s, c) == i - 1,
    decreases s.len(),
{
    if i == s.len() {
        if s.len() > 0 {
            assert(s.last() != c || s[i - 1] == c);
            if s.last() == c {
            } else {
                assert(false);
            }
        }
    } else {
        assert(s.last() != c);
        let t = s.drop_last();
        lemma_last_index_position(t, c, i);
    }
}

/// The index of the last occurrence of `c` in `v`, or `None`.
pub fn rfind_char(v: &Vec<char>, c: char) -> (r: Option<usize>)
    ensures
        match r {
            Some(i) => i < v@.len() && last_index_of(v@, c) == i as int,
            None => last_index_of(v@, c) == -1,
        },
{
    let mut j: usize = v.len();
    while j > 0
        invariant
            j <= v@.len(),
            forall|k: int| j <= k < v@.len() ==> v@[k] != c,
        decreases j,
    {
        if v[j - 1] == c {
            proof {
                lemma_last_index_position(v@, c, j as int);
            }
            return Some(j - 1);
        }
        j -= 1;
    }
    proof {
        lemma_last_index_position(v@, c, 0);
    }
    None
}

/// `p` with the extension of its file name replaced by `ext`. A dot that
/// begins the file name hides the file rather than marking an extension,
/// so such a name only gains `.ext`.
pub open spec fn with_extension_spec(p: Seq<char>, ext: Seq<char>) -> Seq<char> {
    let slash = last_index_of(p, '/');
    let dot = last_index_of(p, '.');
    if dot > slash + 1 {
        p.subrange(0, dot) + seq!['.'] + ext
    } else {
        p + seq!['.'] + ext
    }
}

/// Exec mirror of [`with_extension_spec`].
pub fn with_extension(p: &Vec<char>, ext: &str) -> (r: Vec<char>)
    ensures
        r@ == with_extension_spec(p@, ext@),
{
    let n: usize = p.len();
    let slash: Option<usize> = rfind_char(p, '/');
    let dot: Option<usize> = rfind_char(p, '.');
    let keep: usize = match (dot, slash) {
        (Some(d), Some(s)) => if s < n && d > s + 1 {
            d
        } else {
            n
        },
        (Some(d), None) => if d > 0 {
            d
        } else {
            n
        },
        _ => n,
    };
    let mut r = sub_chars(p, 0, keep);
    proof {
        if keep == p.len() {
            assert(r@ =~= p@);
        }
    }
    r.push('.');
    let e = str_to_chars(ext);
    extend_chars(&mut r, &e);
    proof {
        if keep < p.len() {
            assert(r@ =~= p@.subrange(0, keep as int) + seq!['.'] + ext@);
        } else {
            assert(r@ =~= p@ + seq!['.'] + ext@);
        }
    }
    r
}

/// The extension of `p`'s file name: what follows the last dot, provided
/// that dot neither begins the file name nor is missing.
pub open spec fn extension_spec(p: Seq<char>) -> Option<Seq<char>> {
    let slash = last_index_of(p, '/');
    let dot = last_index_of(p, '.');
    if dot > slash + 1 {
        Some(p.subrange(dot + 1, p.len() as int))
    } else {
        None
    }
}

/// Exec mirror of [`extension_spec`].
pub fn extension_of(p: &Vec<char>) -> (r: Option<Vec<char>>)
    ensures
        match r {
            Some(e) => extension_spec(p@) == Some(e@),
            None => extension_spec(p@) is None,
        },
{
    let n: usize = p.len();
    let slash: Option<usize> = rfind_char(p, '/');
    let dot: Option<usize> = rfind_char(p, '.');
    match (dot, slash) {
        (Some(d), Some(s)) => {
            if s < n && d > s + 1 {
                Some(sub_chars(p, d + 1, p.len()))
            } else {
                None
            }
        },
        (Some(d), None) => {
            if d > 0 {
                Some(sub_chars(p, d + 1, p.len()))
            } else {
                None
            }
        },
        _ => None,
    }
}

/// What remains of `p` behind the prefix `base`: `p` itself when `base` is
/// empty, the empty path when they are equal, and the part after the
/// separating slash when `base` is a proper ancestor.
pub open spec fn strip_prefix_spec(p: Seq<char>, base: Seq<char>) -> Option<Seq<char>> {
    if base.len() == 0 {
        Some(p)
    } else if p == base {
        Some(Seq::<char>::empty())
    } else if starts_with_spec(p, base + seq!['/']) {
        Some(p.skip(base.len() + 1 as int))
    } else {
        None
    }
}

/// Exec mirror of [`strip_prefix_spec`].
pub fn strip_prefix(p: &Vec<char>, base: &Vec<char>) -> (r: Option<Vec<char>>)
    ensures
        match r {
            Some(rest) => strip_prefix_spec(p@, base@) == Some(rest@),
            None => strip_prefix_spec(p@, base@) is None,
        },
{
    if base.len() == 0 {
        let r = sub_chars(p, 0, p.len());
        proof {
            assert(r@ =~= p@);
        }
        return Some(r);
    }
    if p.len() < base.len() {
        proof {
            if p@ == base@ {
                assert(false);
            }
            assert(!starts_with_spec(p@, base@ + seq!['/']));
        }
        return None;
    }
    let mut i: usize = 0;
    while i < base.len()
        invariant
            i <= base@.len() <= p@.len(),
            forall|k: int| 0 <= k < i ==> p@[k] == base@[k],
        decreases base@.len() - i,
    {
        if p[i] != base[i] {
            proof {
                if p@ == base@ {
                    assert(false);
                }
                if starts_with_spec(p@, base@ + seq!['/']) {
                    assert(p@.subrange(0, base@.len() + 1 as int)[i as int] == (base@ + seq!['/'])[
                        i as int
                    ]);
                    assert(false);
                }
            }
            return None;
        }
        i += 1;
    }
    if p.len() == base.len() {
        proof {
            assert(p@ =~= base@);
        }
        let r: Vec<char> = Vec::new();
        proof {
            assert(r@ =~= Seq::<char>::empty());
        }
        return Some(r);
    }
    if p[base.len()] == '/' {
        let r = sub_chars(p, base.len() + 1, p.len());
        proof {
            assert(p@ != base@);
            assert(p@.subrange(0, base@.len() + 1 as int) =~= base@ + seq!['/']);
            assert(r@ =~= p@.skip(base@.len() + 1 as int));
        }
        Some(r)
    } else {
        proof {
            assert(p@ != base@);
            if starts_with_spec(p@, base@ + seq!['/']) {
                assert(p@.subrange(0, base@.len() + 1 as int)[base@.len() as int] == (base@ + seq!['/'])[
                    base@.len() as int
                ]);
                assert(false);
            }
        }
        None
    }
}

/// One resolution step over path segments, left to right: empty and `.`
/// segments vanish, `..` removes the segment before it when one is there
/// to remove, and any other segment stays.
pub open spec fn norm_segs(segs: Seq<Seq<char>>) -> Seq<Seq<char>>
    decreases segs.len(),
{
    if segs.len() == 0 {
        Seq::<Seq<char>>::empty()
    } else {
        let pre = norm_segs(segs.drop_last());
        let s = segs.last();
        if s.len() == 0 || s == "."@ {
            pre
        } else if s == ".."@ {
            if pre.len() > 0 && pre.last() != ".."@ {
                pre.drop_last()
            } else {
                pre.push(s)
            }
        } else {
            pre.push(s)
        }
    }
}

/// Segments joined with single slashes.
pub open spec fn join_segs(segs: Seq<Seq<char>>) -> Seq<char>
    decreases segs.len(),
{
    if segs.len() == 0 {
        Seq::<char>::empty()
    } else if segs.len() == 1 {
        segs[0]
    } else {
        join_segs(segs.drop_last()) + seq!['/'] + segs.last()
    }
}

/// `p` with `.` and `..` segments resolved and repeated or trailing
/// slashes collapsed. A leading slash is kept.
pub open spec fn normalize_spec(p: Seq<char>) -> Seq<char> {
    let flat = join_segs(norm_segs(split_spec(p, '/')));
    if p.len() > 0 && p[0] == '/' {
        seq!['/'] + flat
    } else {
        flat
    }
}

/// Exec mirror of [`normalize_spec`].
pub fn normalize(p: &Vec<char>) -> (r: Vec<char>)
    ensures
        r@ == normalize_spec(p@),
{
    let segs = split_chars(p, '/');
    let ghost segsv = views_of(segs@);
    let mut stack: Vec<Vec<char>> = Vec::new();
    let mut i: usize = 0;
    proof {
        assert(segsv.subrange(0, 0) =~= Seq::<Seq<char>>::empty());
        assert(views_of(stack@) =~= norm_segs(segsv.subrange(0, 0)));
    }
    while i < segs.len()
        invariant
            i <= segs@.len(),
            segsv == views_of(segs@),
            views_of(stack@) == norm_segs(segsv.subrange(0, i as int)),
        decreases segs@.len() - i,
    {
        let seg = &segs[i];
        let ghost prefix = segsv.subrange(0, i as int);
        proof {
            assert(segsv.subrange(0, i + 1).drop_last() =~= prefix);
            assert(segsv.subrange(0, i + 1).last() == seg@);
        }
        if seg.len() == 0 || eq_lit(seg, ".") {
        } else if eq_lit(seg, "..") {
            let pop = if stack.len() > 0 {
                let top = &stack[stack.len() - 1];
                !eq_lit(top, "..")
            } else {
                false
            };
            proof {
                if stack.len() > 0 {
                    assert(views_of(stack@).last() == stack@.last()@);
                }
            }
            if pop {
                stack.pop();
                proof {
                    assert(views_of(stack@) =~~= norm_segs(segsv.subrange(0, i + 1)));
                }
            } else {
                let copy = sub_chars(seg, 0, seg.len());
                proof {
                    assert(copy@ =~= seg@);
                }
                let ghost pre = stack@;
                stack.push(copy);
                proof {
                    lemma_views_of_push(pre, stack@.last());
                    assert(views_of(stack@) =~~= norm_segs(segsv.subrange(0, i + 1)));
                }
            }
        } else {
            let copy = sub_chars(seg, 0, seg.len());
            proof {
                assert(copy@ =~= seg@);
            }
            let ghost pre = stack@;
            stack.push(copy);
            proof {
                lemma_views_of_push(pre, stack@.last());
                assert(views_of(stack@) =~~= norm_segs(segsv.subrange(0, i + 1)));
            }
        }
        i += 1;
    }
    proof {
        assert(segsv.subrange(0, i as int) =~= segsv);
    }
    let mut flat: Vec<char> = Vec::new();
    let ghost stackv = views_of(stack@);
    let mut k: usize = 0;
    proof {
        assert(flat@ =~= join_segs(stackv.subrange(0, 0)));
    }
    while k < stack.len()
        invariant
            k <= stack@.len(),
            stackv == views_of(stack@),
            flat@ == join_segs(stackv.subrange(0, k as int)),
        decreases stack@.len() - k,
    {
        proof {
            assert(stackv.subrange(0, k + 1).drop_last() =~= stackv.subrange(0, k as int));
            assert(stackv.subrange(0, k + 1).last() == stack@[k as int]@);
        }
        if k > 0 {
            flat.push('/');
        }
        extend_chars(&mut flat, &stack[k]);
        k += 1;
        proof {
            if k == 1 {
                assert(flat@ =~= stackv.subrange(0, 1)[0]);
                assert(join_segs(stackv.subrange(0, 1)) == stackv.subrange(0, 1)[0]);
            } else {
                assert(flat@ =~= join_segs(stackv.subrange(0, k - 1)) + seq!['/'] + stackv[k - 1]);
            }
        }
    }
    proof {
        assert(stackv.subrange(0, k as int) =~= stackv);
    }
    if p.len() > 0 && p[0] == '/' {
        let mut r: Vec<char> = Vec::new();
        r.push('/');
        proof {
            assert(r@ =~= seq!['/']);
        }
        extend_chars(&mut r, &flat);
        r
    } else {
        flat
    }
}

} // verus!

verus! {

/// [`join_spec`] followed by [`normalize_spec`]: how the crate turns a
/// description entry into the canonical path it names.
pub open spec fn resolve_spec(base: Seq<char>, rel: Seq<char>) -> Seq<char> {
    normalize_spec(join_spec(base, rel))
}

/// `base` and `rel` joined with a single slash, on `String`s.
pub fn join_str(base: &String, rel: &String) -> (r: String)
    ensures
        r@ == join_spec(base@, rel@),
{
    let b = str_to_chars(base.as_str());
    let l = str_to_chars(rel.as_str());
    let j = join_chars(&b, &l);
    chars_to_string(&j)
}

/// [`normalize`] on `String`s.
pub fn normalize_str(p: &String) -> (r: String)
    ensures
        r@ == normalize_spec(p@),
{
    let v = str_to_chars(p.as_str());
    let n = normalize(&v);
    chars_to_string(&n)
}

/// Exec mirror of [`resolve_spec`], on `String`s.
pub fn resolve_str(base: &String, rel: &String) -> (r: String)
    ensures
        r@ == resolve_spec(base@, rel@),
{
    let j = join_str(base, rel);
    normalize_str(&j)
}

/// The directory holding `p`: everything before the last slash. The root
/// and the empty path have no parent; a bare name's parent is the empty
/// path.
pub open spec fn parent_spec(p: Seq<char>) -> Option<Seq<char>> {
    if p.len() == 0 || p == seq!['/'] {
        None
    } else {
        let slash = last_index_of(p, '/');
        if slash == -1 {
            Some(Seq::<char>::empty())
        } else if slash == 0 {
            Some(seq!['/'])
        } else {
            Some(p.subrange(0, slash))
        }
    }
}

/// Exec mirror of [`parent_spec`].
pub fn parent_of(p: &Vec<char>) -> (r: Option<Vec<char>>)
    ensures
        match r {
            Some(q) => parent_spec(p@) == Some(q@),
            None => parent_spec(p@) is None,
        },
{
    if p.len() == 0 || (p.len() == 1 && p[0] == '/') {
        proof {
            if p@.len() == 1 && p@[0] == '/' {
                assert(p@ =~= seq!['/']);
            }
        }
        return None;
    }
    proof {
        if p@ =~= seq!['/'] {
            assert(p@.len() == 1 && p@[0] == '/');
        }
        assert(p@ != seq!['/']);
    }
    match rfind_char(p, '/') {
        None => {
            let q: Vec<char> = Vec::new();
            proof {
                assert(q@ =~= Seq::<char>::empty());
            }
            Some(q)
        },
        Some(0) => {
            let mut q: Vec<char> = Vec::new();
            q.push('/');
            proof {
                assert(q@ =~= seq!['/']);
            }
            Some(q)
        },
        Some(s) => Some(sub_chars(p, 0, s)),
    }
}

} // verus!

verus! {

/// The last index of `c` lies inside `s` (or is `-1`).
pub proof fn lemma_last_index_bound(s: Seq<char>, c: char)
    ensures
        -1 <= last_index_of(s, c) < s.len(),
    decreases s.len(),
{
    if s.len() > 0 && s.last() != c {
        lemma_last_index_bound(s.drop_last(), c);
    }
}

} // verus!

verus! {

/// A last index that is not `-1` points at an occurrence of `c`.
pub proof fn lemma_last_index_char(s: Seq<char>, c: char)
    requires
        last_index_of(s, c) >= 0,
    ensures
        s[last_index_of(s, c)] == c,
    decreases s.len(),
{
    if s.len() > 0 && s.last() != c {
        lemma_last_index_bound(s.drop_last(), c);
        lemma_last_index_char(s.drop_last(), c);
    }
}

} // verus!
