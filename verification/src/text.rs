//! Characters, strings and small text utilities shared by the whole crate.
//!
//! Exec code works on `Vec<char>` so that every step is visible to the
//! verifier; `String` appears only at the crate's public edges.

use vstd::prelude::*;

verus! {

/// Relies on `String::push`: appends exactly one character.
#[verifier::external_body]
pub fn push_char(s: &mut String, c: char)
    ensures
        final(s)@ == old(s)@.push(c),
{
    s.push(c);
}

/// The characters of `s`, in order.
pub fn str_to_chars(s: &str) -> (v: Vec<char>)
    ensures
        v@ == s@,
{
    let n: usize = s.unicode_len();
    let mut v: Vec<char> = Vec::new();
    let mut i: usize = 0;
    while i < n
        invariant
            i <= n,
            n == s@.len(),
            v@ == s@.subrange(0, i as int),
        decreases n - i,
    {
        v.push(s.get_char(i));
        i += 1;
        proof {
            assert(v@ =~= s@.subrange(0, i as int));
        }
    }
    proof {
        assert(v@ =~= s@);
    }
    v
}

/// A `String` with exactly the characters of `v`.
pub fn chars_to_string(v: &Vec<char>) -> (s: String)
    ensures
        s@ == v@,
{
    let mut s = String::new();
    let mut i: usize = 0;
    while i < v.len()
        invariant
            i <= v@.len(),
            s@ == v@.subrange(0, i as int),
        decreases v@.len() - i,
    {
        push_char(&mut s, v[i]);
        i += 1;
        proof {
            assert(s@ =~= v@.subrange(0, i as int));
        }
    }
    proof {
        assert(s@ =~= v@);
    }
    s
}

/// The characters of `s` between `from` (inclusive) and `to` (exclusive).
pub fn sub_chars(v: &Vec<char>, from: usize, to: usize) -> (r: Vec<char>)
    requires
        from <= to <= v@.len(),
    ensures
        r@ == v@.subrange(from as int, to as int),
{
    let mut r: Vec<char> = Vec::new();
    let mut i: usize = from;
    while i < to
        invariant
            from <= i <= to <= v@.len(),
            r@ == v@.subrange(from as int, i as int),
        decreases to - i,
    {
        r.push(v[i]);
        i += 1;
        proof {
            assert(r@ =~= v@.subrange(from as int, i as int));
        }
    }
    r
}

/// `a` and `b` hold the same characters.
pub fn eq_chars(a: &Vec<char>, b: &Vec<char>) -> (r: bool)
    ensures
        r == (a@ == b@),
{
    if a.len() != b.len() {
        proof {
            assert(a@ != b@);
        }
        return false;
    }
    let mut i: usize = 0;
    while i < a.len()
        invariant
            i <= a@.len(),
            a@.len() == b@.len(),
            forall|k: int| 0 <= k < i ==> a@[k] == b@[k],
        decreases a@.len() - i,
    {
        if a[i] != b[i] {
            proof {
                assert(a@ != b@);
            }
            return false;
        }
        i += 1;
    }
    proof {
        assert(a@ =~= b@);
    }
    true
}

/// `p` is a prefix of `s`.
pub open spec fn starts_with_spec(s: Seq<char>, p: Seq<char>) -> bool {
    p.len() <= s.len() && s.subrange(0, p.len() as int) == p
}

/// `p` is a suffix of `s`.
pub open spec fn ends_with_spec(s: Seq<char>, p: Seq<char>) -> bool {
    p.len() <= s.len() && s.subrange(s.len() - p.len(), s.len() as int) == p
}

/// Does `v` start with the characters of `p`?
pub fn starts_with(v: &Vec<char>, p: &str) -> (r: bool)
    ensures
        r == starts_with_spec(v@, p@),
{
    let n: usize = p.unicode_len();
    if n > v.len() {
        return false;
    }
    let mut i: usize = 0;
    while i < n
        invariant
            i <= n,
            n == p@.len(),
            n <= v@.len(),
            forall|k: int| 0 <= k < i ==> v@[k] == p@[k],
        decreases n - i,
    {
        if v[i] != p.get_char(i) {
            proof {
                assert(v@.subrange(0, p@.len() as int)[i as int] != p@[i as int]);
            }
            return false;
        }
        i += 1;
    }
    proof {
        assert(v@.subrange(0, p@.len() as int) =~= p@);
    }
    true
}

/// Does `v` hold exactly the characters of `p`?
pub fn eq_lit(v: &Vec<char>, p: &str) -> (r: bool)
    ensures
        r == (v@ == p@),
{
    let n: usize = p.unicode_len();
    if v.len() != n {
        return false;
    }
    let r = starts_with(v, p);
    proof {
        if r {
            assert(v@.subrange(0, p@.len() as int) =~= v@);
        } else {
            assert(v@.subrange(0, p@.len() as int) =~= v@);
        }
    }
    r
}

/// Does `v` end with the character `c`?
pub fn ends_with_char(v: &Vec<char>, c: char) -> (r: bool)
    ensures
        r == (v@.len() > 0 && v@.last() == c),
{
    v.len() > 0 && v[v.len() - 1] == c
}

/// The first index at or after `from` where `c` occurs in `v`.
pub fn find_char(v: &Vec<char>, c: char, from: usize) -> (r: Option<usize>)
    requires
        from <= v@.len(),
    ensures
        match r {
            Some(i) => from <= i < v@.len() && v@[i as int] == c && forall|k: int|
                from <= k < i ==> v@[k] != c,
            None => forall|k: int| from <= k < v@.len() ==> v@[k] != c,
        },
{
    let mut i: usize = from;
    while i < v.len()
        invariant
            from <= i <= v@.len(),
            forall|k: int| from <= k < i ==> v@[k] != c,
        decreases v@.len() - i,
    {
        if v[i] == c {
            return Some(i);
        }
        i += 1;
    }
    None
}

/// Whitespace for the purposes of trimming: blank, tab and line breaks.
pub open spec fn is_space_char(c: char) -> bool {
    c == ' ' || c == '\t' || c == '\r' || c == '\n'
}

/// Exec mirror of [`is_space_char`].
pub fn is_space(c: char) -> (r: bool)
    ensures
        r == is_space_char(c),
{
    c == ' ' || c == '\t' || c == '\r' || c == '\n'
}

/// `s` without leading whitespace.
pub open spec fn trim_start_spec(s: Seq<char>) -> Seq<char>
    decreases s.len(),
{
    if s.len() > 0 && is_space_char(s[0]) {
        trim_start_spec(s.drop_first())
    } else {
        s
    }
}

/// `s` without trailing whitespace.
pub open spec fn trim_end_spec(s: Seq<char>) -> Seq<char>
    decreases s.len(),
{
    if s.len() > 0 && is_space_char(s.last()) {
        trim_end_spec(s.drop_last())
    } else {
        s
    }
}

/// `s` without leading or trailing whitespace.
pub open spec fn trim_spec(s: Seq<char>) -> Seq<char> {
    trim_end_spec(trim_start_spec(s))
}

proof fn lemma_trim_start_range(s: Seq<char>, i: int)
    requires
        0 <= i <= s.len(),
        forall|k: int| 0 <= k < i ==> is_space_char(s[k]),
        i < s.len() ==> !is_space_char(s[i]),
    ensures
        trim_start_spec(s) == s.subrange(i, s.len() as int),
    decreases i,
{
    if i == 0 {
        if s.len() > 0 && is_space_char(s[0]) {
            assert(false);
        }
        assert(s.subrange(0, s.len() as int) =~= s);
    } else {
        assert(is_space_char(s[0]));
        let t = s.drop_first();
        lemma_trim_start_range(t, i - 1);
        assert(t.subrange(i - 1, t.len() as int) =~= s.subrange(i, s.len() as int));
    }
}

proof fn lemma_trim_end_range(s: Seq<char>, j: int)
    requires
        0 <= j <= s.len(),
        forall|k: int| j <= k < s.len() ==> is_space_char(s[k]),
        j > 0 ==> !is_space_char(s[j - 1]),
    ensures
        trim_end_spec(s) == s.subrange(0, j),
    decreases s.len(),
{
    if j == s.len() {
        if s.len() > 0 && is_space_char(s.last()) {
            assert(false);
        }
        assert(s.subrange(0, s.len() as int) =~= s);
    } else {
        assert(is_space_char(s.last()));
        let t = s.drop_last();
        lemma_trim_end_range(t, j);
        assert(t.subrange(0, j) =~= s.subrange(0, j));
    }
}

/// `v` with leading and trailing whitespace removed.
pub fn trim(v: &Vec<char>) -> (r: Vec<char>)
    ensures
        r@ == trim_spec(v@),
{
    let mut i: usize = 0;
    while i < v.len() && is_space(v[i])
        invariant
            i <= v@.len(),
            forall|k: int| 0 <= k < i ==> is_space_char(v@[k]),
        decreases v@.len() - i,
    {
        i += 1;
    }
    proof {
        lemma_trim_start_range(v@, i as int);
    }
    let mut j: usize = v.len();
    while j > i && is_space(v[j - 1])
        invariant
            i <= j <= v@.len(),
            forall|k: int| j <= k < v@.len() ==> is_space_char(v@[k]),
        decreases j,
    {
        j -= 1;
    }
    let r = sub_chars(v, i, j);
    proof {
        let t = v@.subrange(i as int, v@.len() as int);
        assert(forall|k: int| j - i <= k < t.len() ==> is_space_char(t[k]));
        lemma_trim_end_range(t, j - i);
        assert(t.subrange(0, j - i) =~= v@.subrange(i as int, j as int));
    }
    r
}

/// Every occurrence of `pat` in `s` replaced by `rep`, scanning left to
/// right without overlap. Empty patterns leave `s` unchanged.
pub open spec fn replace_all_spec(s: Seq<char>, pat: Seq<char>, rep: Seq<char>) -> Seq<char>
    decreases s.len(),
{
    if pat.len() == 0 || s.len() < pat.len() {
        s
    } else if s.subrange(0, pat.len() as int) == pat {
        rep + replace_all_spec(s.skip(pat.len() as int), pat, rep)
    } else {
        seq![s[0]] + replace_all_spec(s.drop_first(), pat, rep)
    }
}

/// Is there a copy of `p` at position `at` of `v`?
fn match_at(v: &Vec<char>, p: &str, at: usize) -> (r: bool)
    requires
        at <= v@.len(),
    ensures
        r == (at + p@.len() <= v@.len() && v@.subrange(at as int, at + p@.len()) == p@),
{
    let n: usize = p.unicode_len();
    if n > v.len() - at {
        return false;
    }
    let vlen: usize = v.len();
    let mut i: usize = 0;
    while i < n
        invariant
            i <= n,
            n == p@.len(),
            at + n <= vlen,
            vlen == v@.len(),
            forall|k: int| 0 <= k < i ==> v@[at + k] == p@[k],
        decreases n - i,
    {
        if v[at + i] != p.get_char(i) {
            proof {
                assert(v@.subrange(at as int, at + p@.len())[i as int] != p@[i as int]);
            }
            return false;
        }
        i += 1;
    }
    proof {
        assert(v@.subrange(at as int, at + p@.len()) =~= p@);
    }
    true
}

/// `v` with every occurrence of `pat` replaced by `rep`.
pub fn replace_all(v: &Vec<char>, pat: &str, rep: &Vec<char>) -> (r: Vec<char>)
    ensures
        r@ == replace_all_spec(v@, pat@, rep@),
{
    let plen: usize = pat.unicode_len();
    if plen == 0 {
        let out = sub_chars(v, 0, v.len());
        proof {
            assert(out@ =~= v@);
        }
        return out;
    }
    let mut out: Vec<char> = Vec::new();
    let mut i: usize = 0;
    proof {
        assert(v@.skip(0) =~= v@);
        assert(Seq::<char>::empty() + replace_all_spec(v@, pat@, rep@) =~= replace_all_spec(
            v@,
            pat@,
            rep@,
        ));
    }
    while i < v.len()
        invariant
            i <= v@.len(),
            plen == pat@.len(),
            plen > 0,
            out@ + replace_all_spec(v@.skip(i as int), pat@, rep@) == replace_all_spec(
                v@,
                pat@,
                rep@,
            ),
        decreases v@.len() - i,
    {
        let ghost pre = out@;
        let ghost tail = v@.skip(i as int);
        if match_at(v, pat, i) {
            let mut k: usize = 0;
            while k < rep.len()
                invariant
                    k <= rep@.len(),
                    out@ == pre + rep@.subrange(0, k as int),
                decreases rep@.len() - k,
            {
                out.push(rep[k]);
                k += 1;
                proof {
                    assert(out@ =~= pre + rep@.subrange(0, k as int));
                }
            }
            proof {
                assert(rep@.subrange(0, rep@.len() as int) =~= rep@);
                assert(tail.subrange(0, pat@.len() as int) =~= v@.subrange(
                    i as int,
                    i + pat@.len(),
                ));
                assert(tail.skip(pat@.len() as int) =~= v@.skip(i + plen));
                assert(replace_all_spec(tail, pat@, rep@) == rep@ + replace_all_spec(
                    v@.skip(i + plen),
                    pat@,
                    rep@,
                ));
                assert(out@ + replace_all_spec(v@.skip(i + plen), pat@, rep@) =~= pre
                    + replace_all_spec(tail, pat@, rep@));
            }
            i += plen;
        } else {
            out.push(v[i]);
            proof {
                if tail.len() >= pat@.len() {
                    assert(tail.subrange(0, pat@.len() as int) =~= v@.subrange(
                        i as int,
                        i + pat@.len(),
                    ));
                }
                assert(tail.drop_first() =~= v@.skip(i + 1));
                assert(seq![tail[0]] =~= seq![v@[i as int]]);
                assert(replace_all_spec(tail, pat@, rep@) == seq![v@[i as int]]
                    + replace_all_spec(v@.skip(i + 1), pat@, rep@));
                assert(out@ + replace_all_spec(v@.skip(i + 1), pat@, rep@) =~= pre
                    + replace_all_spec(tail, pat@, rep@));
            }
            i += 1;
        }
    }
    proof {
        assert(v@.skip(i as int) =~= Seq::<char>::empty());
        assert(out@ + replace_all_spec(v@.skip(i as int), pat@, rep@) =~= out@);
    }
    out
}

/// The character sequences held by a vector of character vectors.
pub open spec fn views_of(s: Seq<Vec<char>>) -> Seq<Seq<char>> {
    s.map_values(|v: Vec<char>| v@)
}

/// `s` split at every occurrence of `sep`; empty pieces are kept, so the
/// result always holds one more piece than `s` holds separators.
pub open spec fn split_spec(s: Seq<char>, sep: char) -> Seq<Seq<char>>
    decreases s.len(),
{
    if s.len() == 0 {
        seq![Seq::<char>::empty()]
    } else if s[0] == sep {
        seq![Seq::<char>::empty()] + split_spec(s.drop_first(), sep)
    } else {
        let rest = split_spec(s.drop_first(), sep);
        rest.update(0, seq![s[0]] + rest[0])
    }
}

pub proof fn lemma_split_spec_len(s: Seq<char>, sep: char)
    ensures
        split_spec(s, sep).len() >= 1,
    decreases s.len(),
{
    if s.len() > 0 {
        lemma_split_spec_len(s.drop_first(), sep);
    }
}

/// Splitting a text whose first separator stands at `i` yields the piece
/// before `i` followed by the split of what comes after it; a text without
/// separators is one piece.
proof fn lemma_split_step(s: Seq<char>, sep: char, i: int)
    requires
        0 <= i <= s.len(),
        forall|k: int| 0 <= k < i ==> s[k] != sep,
        i < s.len() ==> s[i] == sep,
    ensures
        i == s.len() ==> split_spec(s, sep) == seq![s],
        i < s.len() ==> split_spec(s, sep) == seq![s.subrange(0, i)] + split_spec(
            s.skip(i + 1),
            sep,
        ),
    decreases i,
{
    lemma_split_spec_len(s, sep);
    if i == 0 {
        if s.len() == 0 {
            assert(split_spec(s, sep) =~~= seq![s]);
        } else {
            assert(s[0] == sep);
            assert(s.drop_first() =~= s.skip(1));
            assert(s.subrange(0, 0) =~= Seq::<char>::empty());
            assert(split_spec(s, sep) =~= seq![s.subrange(0, 0)] + split_spec(s.skip(1), sep));
        }
    } else {
        let t = s.drop_first();
        lemma_split_step(t, sep, i - 1);
        lemma_split_spec_len(t, sep);
        let rest = split_spec(t, sep);
        if i == s.len() {
            assert(rest == seq![t]);
            assert(split_spec(s, sep) =~= seq![s]) by {
                assert(seq![s[0]] + t =~= s);
                assert(rest.update(0, seq![s[0]] + rest[0]) =~= seq![s]);
            }
        } else {
            assert(rest == seq![t.subrange(0, i - 1)] + split_spec(t.skip(i), sep));
            assert(t.skip(i) =~= s.skip(i + 1));
            assert(seq![s[0]] + t.subrange(0, i - 1) =~= s.subrange(0, i));
            assert(rest.update(0, seq![s[0]] + rest[0]) =~= seq![s.subrange(0, i)] + split_spec(
                s.skip(i + 1),
                sep,
            ));
        }
    }
}

/// `v` split at every occurrence of `sep`.
pub fn split_chars(v: &Vec<char>, sep: char) -> (r: Vec<Vec<char>>)
    ensures
        views_of(r@) == split_spec(v@, sep),
{
    let mut out: Vec<Vec<char>> = Vec::new();
    let mut start: usize = 0;
    let mut i: usize = 0;
    proof {
        assert(v@.skip(0) =~= v@);
        assert(views_of(out@) + split_spec(v@, sep) =~= split_spec(v@, sep));
    }
    while i < v.len()
        invariant
            start <= i <= v@.len(),
            forall|k: int| start <= k < i ==> v@[k] != sep,
            views_of(out@) + split_spec(v@.skip(start as int), sep) == split_spec(v@, sep),
        decreases v@.len() - i,
    {
        if v[i] == sep {
            let piece = sub_chars(v, start, i);
            out.push(piece);
            proof {
                let tail = v@.skip(start as int);
                lemma_split_step(tail, sep, i - start);
                assert(tail.subrange(0, i - start) =~= v@.subrange(start as int, i as int));
                assert(tail.skip(i - start + 1) =~= v@.skip(i + 1));
                assert(views_of(out@) =~= views_of(out@.drop_last()) + seq![
                    v@.subrange(start as int, i as int),
                ]);
                assert(views_of(out@) + split_spec(v@.skip(i + 1), sep) =~= views_of(
                    out@.drop_last(),
                ) + split_spec(tail, sep));
            }
            start = i + 1;
        }
        i += 1;
    }
    let piece = sub_chars(v, start, v.len());
    out.push(piece);
    proof {
        let tail = v@.skip(start as int);
        lemma_split_step(tail, sep, i - start);
        assert(tail.subrange(0, i - start) =~= tail);
        assert(tail =~= v@.subrange(start as int, v@.len() as int));
        assert(views_of(out@) =~= views_of(out@.drop_last()) + seq![tail]);
        assert(views_of(out@) =~= views_of(out@.drop_last()) + split_spec(tail, sep));
    }
    out
}

/// `p` without one trailing carriage return, if it has one.
pub open spec fn strip_cr_spec(p: Seq<char>) -> Seq<char> {
    if p.len() > 0 && p.last() == '\r' {
        p.drop_last()
    } else {
        p
    }
}

/// Every piece of `s` with one trailing carriage return removed.
pub open spec fn strip_cr_map(s: Seq<Seq<char>>) -> Seq<Seq<char>> {
    s.map_values(|p: Seq<char>| strip_cr_spec(p))
}

/// The lines of `s`: pieces separated by `'\n'`, each with one trailing
/// `'\r'` removed; a final line ending is optional and yields no empty
/// last line.
pub open spec fn lines_spec(s: Seq<char>) -> Seq<Seq<char>> {
    let raw = split_spec(s, '\n');
    let body = strip_cr_map(raw.subrange(0, raw.len() - 1));
    if raw.last().len() == 0 {
        body
    } else {
        body.push(raw.last())
    }
}

/// Appending one vector appends its view.
pub proof fn lemma_views_of_push(s: Seq<Vec<char>>, x: Vec<char>)
    ensures
        views_of(s.push(x)) =~= views_of(s).push(x@),
{
}

/// The lines of `v`, as [`lines_spec`] describes them.
pub fn split_lines(v: &Vec<char>) -> (r: Vec<Vec<char>>)
    ensures
        views_of(r@) == lines_spec(v@),
{
    let raw = split_chars(v, '\n');
    proof {
        lemma_split_spec_len(v@, '\n');
    }
    let mut out: Vec<Vec<char>> = Vec::new();
    let n: usize = raw.len();
    let ghost rawv = views_of(raw@);
    let mut i: usize = 0;
    while i < n - 1
        invariant
            n == rawv.len(),
            n == raw@.len(),
            n >= 1,
            i <= n - 1,
            rawv == views_of(raw@),
            views_of(out@) == strip_cr_map(rawv.subrange(0, i as int)),
        decreases n - 1 - i,
    {
        let piece = &raw[i];
        let stripped = if ends_with_char(piece, '\r') {
            sub_chars(piece, 0, piece.len() - 1)
        } else {
            sub_chars(piece, 0, piece.len())
        };
        proof {
            assert(piece@ =~= piece@.subrange(0, piece@.len() as int));
            assert(stripped@ == strip_cr_spec(rawv[i as int]));
        }
        let ghost preout = out@;
        out.push(stripped);
        i += 1;
        proof {
            lemma_views_of_push(preout, out@.last());
            assert(views_of(out@) =~~= strip_cr_map(rawv.subrange(0, i as int)));
        }
    }
    let last = &raw[n - 1];
    proof {
        assert(rawv.subrange(0, n - 1) =~= rawv.subrange(0, rawv.len() - 1));
    }
    if last.len() > 0 {
        let copy = sub_chars(last, 0, last.len());
        proof {
            assert(copy@ =~= rawv.last());
        }
        let ghost preout = out@;
        out.push(copy);
        proof {
            lemma_views_of_push(preout, out@.last());
            assert(views_of(out@) =~~= lines_spec(v@));
        }
    } else {
        proof {
            assert(views_of(out@) =~~= lines_spec(v@));
        }
    }
    out
}

/// The decimal digit `d` as a character.
pub open spec fn digit_char(d: nat) -> char {
    if d == 0 {
        '0'
    } else if d == 1 {
        '1'
    } else if d == 2 {
        '2'
    } else if d == 3 {
        '3'
    } else if d == 4 {
        '4'
    } else if d == 5 {
        '5'
    } else if d == 6 {
        '6'
    } else if d == 7 {
        '7'
    } else if d == 8 {
        '8'
    } else {
        '9'
    }
}

/// The decimal digits of `n`, most significant first, no leading zeros
/// (except for `n == 0` itself).
pub open spec fn dec_digits(n: nat) -> Seq<char>
    decreases n,
{
    if n < 10 {
        seq![digit_char(n)]
    } else {
        dec_digits(n / 10).push(digit_char(n % 10))
    }
}

/// Exec mirror of [`digit_char`].
fn digit_to_char(d: u64) -> (c: char)
    requires
        d < 10,
    ensures
        c == digit_char(d as nat),
{
    if d == 0 {
        '0'
    } else if d == 1 {
        '1'
    } else if d == 2 {
        '2'
    } else if d == 3 {
        '3'
    } else if d == 4 {
        '4'
    } else if d == 5 {
        '5'
    } else if d == 6 {
        '6'
    } else if d == 7 {
        '7'
    } else if d == 8 {
        '8'
    } else {
        '9'
    }
}

/// The decimal rendering of `n`.
pub fn u64_to_chars(n: u64) -> (r: Vec<char>)
    ensures
        r@ == dec_digits(n as nat),
    decreases n,
{
    if n < 10 {
        let d = digit_to_char(n);
        let mut r: Vec<char> = Vec::new();
        r.push(d);
        proof {
            assert(r@ =~= seq![digit_char(n as nat)]);
        }
        r
    } else {
        let mut r = u64_to_chars(n / 10);
        let d = digit_to_char(n % 10);
        r.push(d);
        r
    }
}

/// Append all characters of `src` onto `dst`.
pub fn extend_chars(dst: &mut Vec<char>, src: &Vec<char>)
    ensures
        final(dst)@ == old(dst)@ + src@,
{
    let ghost base = dst@;
    let mut i: usize = 0;
    while i < src.len()
        invariant
            i <= src@.len(),
            dst@ == base + src@.subrange(0, i as int),
        decreases src@.len() - i,
    {
        dst.push(src[i]);
        i += 1;
        proof {
            assert(dst@ =~= base + src@.subrange(0, i as int));
        }
    }
    proof {
        assert(dst@ =~= base + src@);
    }
}

/// Append all characters of the literal `src` onto `dst`.
pub fn extend_lit(dst: &mut Vec<char>, src: &str)
    ensures
        final(dst)@ == old(dst)@ + src@,
{
    let ghost base = dst@;
    let n: usize = src.unicode_len();
    let mut i: usize = 0;
    while i < n
        invariant
            i <= n,
            n == src@.len(),
            dst@ == base + src@.subrange(0, i as int),
        decreases n - i,
    {
        dst.push(src.get_char(i));
        i += 1;
        proof {
            assert(dst@ =~= base + src@.subrange(0, i as int));
        }
    }
    proof {
        assert(dst@ =~= base + src@);
    }
}

} // verus!

verus! {

/// The character sequences held by a vector of strings.
pub open spec fn str_views(s: Seq<String>) -> Seq<Seq<char>> {
    s.map_values(|x: String| x@)
}

/// Does `v` hold a string equal to `p`?
pub fn contains_string(v: &Vec<String>, p: &String) -> (r: bool)
    ensures
        r == str_views(v@).contains(p@),
{
    let mut i: usize = 0;
    while i < v.len()
        invariant
            i <= v@.len(),
            forall|k: int| 0 <= k < i ==> str_views(v@)[k] != p@,
        decreases v@.len() - i,
    {
        if v[i] == *p {
            proof {
                assert(str_views(v@)[i as int] == p@);
            }
            return true;
        }
        i += 1;
    }
    proof {
        if str_views(v@).contains(p@) {
            let k = choose|k: int| 0 <= k < str_views(v@).len() && str_views(v@)[k] == p@;
            assert(false);
        }
    }
    false
}

} // verus!

verus! {

/// Appending one string appends its view.
pub proof fn lemma_str_views_push(s: Seq<String>, x: String)
    ensures
        str_views(s.push(x)) =~= str_views(s).push(x@),
{
}

} // verus!

verus! {

/// The first index at or after `from` where `c` occurs in `s`, or `-1`.
pub open spec fn index_of_from(s: Seq<char>, c: char, from: int) -> int
    decreases s.len() - from
        when 0 <= from <= s.len()
{
    if from >= s.len() {
        -1
    } else if s[from] == c {
        from
    } else {
        index_of_from(s, c, from + 1)
    }
}

proof fn lemma_index_of_from_at(s: Seq<char>, c: char, from: int, i: int)
    requires
        0 <= from <= i <= s.len(),
        forall|k: int| from <= k < i ==> s[k] != c,
        i < s.len() ==> s[i] == c,
    ensures
        index_of_from(s, c, from) == if i < s.len() {
            i
        } else {
            -1
        },
    decreases i - from,
{
    if from < i {
        lemma_index_of_from_at(s, c, from + 1, i);
    }
}

/// Exec mirror of [`index_of_from`].
pub fn find_char_from(v: &Vec<char>, c: char, from: usize) -> (r: Option<usize>)
    requires
        from <= v@.len(),
    ensures
        match r {
            Some(i) => from <= i < v@.len() && index_of_from(v@, c, from as int) == i as int,
            None => index_of_from(v@, c, from as int) == -1,
        },
{
    match find_char(v, c, from) {
        Some(i) => {
            proof {
                lemma_index_of_from_at(v@, c, from as int, i as int);
            }
            Some(i)
        },
        None => {
            proof {
                lemma_index_of_from_at(v@, c, from as int, v@.len() as int);
            }
            None
        },
    }
}

} // verus!
