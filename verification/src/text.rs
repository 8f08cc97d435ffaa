//! Character classes and low-level text scanning shared by the parser,
//! the color classifier and the length translator.

use vstd::prelude::*;

verus! {

/// The Unicode white-space characters (the `White_Space` property).
pub open spec fn is_ws(c: char) -> bool {
    c == ' ' || c == '\t' || c == '\n' || c == '\r' || c == '\u{b}' || c == '\u{c}'
        || c == '\u{85}' || c == '\u{a0}' || c == '\u{1680}'
        || ('\u{2000}' <= c && c <= '\u{200a}')
        || c == '\u{2028}' || c == '\u{2029}' || c == '\u{202f}' || c == '\u{205f}'
        || c == '\u{3000}'
}

/// Executable check for [`is_ws`].
pub fn is_whitespace(c: char) -> (b: bool)
    ensures
        b == is_ws(c),
{
    c == ' ' || c == '\t' || c == '\n' || c == '\r' || c == '\u{b}' || c == '\u{c}'
        || c == '\u{85}' || c == '\u{a0}' || c == '\u{1680}'
        || ('\u{2000}' <= c && c <= '\u{200a}')
        || c == '\u{2028}' || c == '\u{2029}' || c == '\u{202f}' || c == '\u{205f}'
        || c == '\u{3000}'
}

/// ASCII lower-casing of a single character: `A`..`Z` map to `a`..`z`,
/// every other character is left unchanged.
pub open spec fn lc(c: char) -> char {
    if 'A' <= c && c <= 'Z' {
        ((c as u8) + 32) as char
    } else {
        c
    }
}

/// A whole sequence lower-cased character by character.
pub open spec fn lower(s: Seq<char>) -> Seq<char> {
    s.map_values(|c: char| lc(c))
}

/// Executable ASCII lower-casing of one character.
pub fn lower_char(c: char) -> (r: char)
    ensures
        r == lc(c),
{
    if 'A' <= c && c <= 'Z' {
        ((c as u8) + 32) as char
    } else {
        c
    }
}

/// Executable lower-casing of a character vector.
pub fn lower_vec(v: &Vec<char>) -> (r: Vec<char>)
    ensures
        r@ == lower(v@),
{
    let mut r: Vec<char> = Vec::new();
    let mut i: usize = 0;
    while i < v.len()
        invariant
            i <= v.len(),
            r@ == lower(v@.subrange(0, i as int)),
        decreases v.len() - i,
    {
        r.push(lower_char(v[i]));
        proof {
            assert(v@.subrange(0, i + 1 as int).map_values(|c: char| lc(c))
                =~= v@.subrange(0, i as int).map_values(|c: char| lc(c)).push(lc(v@[i as int])));
        }
        i = i + 1;
    }
    proof {
        assert(v@.subrange(0, v@.len() as int) =~= v@);
    }
    r
}

/// Index of the first character at or after `i` that fails `p`
/// (or the end of the sequence).
pub open spec fn scan_end(s: Seq<char>, i: int, p: spec_fn(char) -> bool) -> int
    decreases s.len() - i,
{
    if i < s.len() && 0 <= i && p(s[i]) {
        scan_end(s, i + 1, p)
    } else {
        i
    }
}

/// What [`scan_end`] guarantees: it stays within bounds, every character
/// it passed over satisfies `p`, and the character it stopped on does not.
pub proof fn lemma_scan_end(s: Seq<char>, i: int, p: spec_fn(char) -> bool)
    requires
        0 <= i <= s.len(),
    ensures
        i <= scan_end(s, i, p) <= s.len(),
        forall|j: int| i <= j < scan_end(s, i, p) ==> p(s[j]),
        scan_end(s, i, p) < s.len() ==> !p(s[scan_end(s, i, p)]),
    decreases s.len() - i,
{
    if i < s.len() && p(s[i]) {
        lemma_scan_end(s, i + 1, p);
    }
}

/// [`scan_end`] is the unique fixpoint: any index `j` such that everything
/// in `[i, j)` satisfies `p` and `j` is the end or fails `p` is the scan end.
pub proof fn lemma_scan_end_unique(s: Seq<char>, i: int, p: spec_fn(char) -> bool, j: int)
    requires
        0 <= i <= j <= s.len(),
        forall|k: int| i <= k < j ==> p(s[k]),
        j < s.len() ==> !p(s[j]),
    ensures
        scan_end(s, i, p) == j,
    decreases s.len() - i,
{
    if i < j {
        lemma_scan_end_unique(s, i + 1, p, j);
    }
}

/// Index of the last character before `j` that fails `p`, plus one
/// (or zero if every character before `j` satisfies `p`).
pub open spec fn scan_back(s: Seq<char>, j: int, p: spec_fn(char) -> bool) -> int
    decreases j,
{
    if 0 < j <= s.len() && p(s[j - 1]) {
        scan_back(s, j - 1, p)
    } else {
        j
    }
}

/// What [`scan_back`] guarantees, mirroring [`lemma_scan_end`].
pub proof fn lemma_scan_back(s: Seq<char>, j: int, p: spec_fn(char) -> bool)
    requires
        0 <= j <= s.len(),
    ensures
        0 <= scan_back(s, j, p) <= j,
        forall|k: int| scan_back(s, j, p) <= k < j ==> p(s[k]),
        scan_back(s, j, p) > 0 ==> !p(s[scan_back(s, j, p) - 1]),
    decreases j,
{
    if 0 < j && p(s[j - 1]) {
        lemma_scan_back(s, j - 1, p);
    }
}

/// The white-space predicate as a first-class spec function, for use
/// with [`scan_end`] and [`scan_back`].
pub open spec fn ws_pred() -> spec_fn(char) -> bool {
    |c: char| is_ws(c)
}

/// The characters of `s` from `a` (inclusive) to `b` (exclusive), trimmed of
/// surrounding white space as `str::trim` does.
pub open spec fn trim_ws(s: Seq<char>) -> Seq<char> {
    let a = scan_end(s, 0, ws_pred());
    let b = scan_back(s, s.len() as int, ws_pred());
    if a < b {
        s.subrange(a, b)
    } else {
        Seq::empty()
    }
}

/// Copies the characters of `v` between positions `a` and `b`.
pub fn vec_sub(v: &Vec<char>, a: usize, b: usize) -> (r: Vec<char>)
    requires
        a <= b <= v@.len(),
    ensures
        r@ == v@.subrange(a as int, b as int),
{
    let mut r: Vec<char> = Vec::new();
    let mut i: usize = a;
    while i < b
        invariant
            a <= i <= b <= v@.len(),
            r@ == v@.subrange(a as int, i as int),
        decreases b - i,
    {
        r.push(v[i]);
        proof {
            assert(v@.subrange(a as int, i + 1 as int)
                =~= v@.subrange(a as int, i as int).push(v@[i as int]));
        }
        i = i + 1;
    }
    r
}

/// Trims white space from both ends of a character vector, as `str::trim` does.
pub fn trim_chars(v: &Vec<char>) -> (r: Vec<char>)
    ensures
        r@ == trim_ws(v@),
{
    let mut a: usize = 0;
    while a < v.len() && is_whitespace(v[a])
        invariant
            a <= v@.len(),
            scan_end(v@, 0, ws_pred()) == scan_end(v@, a as int, ws_pred()),
        decreases v@.len() - a,
    {
        proof {
            assert(ws_pred()(v@[a as int]));
            assert(scan_end(v@, a as int, ws_pred()) == scan_end(v@, a + 1 as int, ws_pred()));
        }
        a = a + 1;
    }
    proof {
        lemma_scan_end(v@, a as int, ws_pred());
        assert(scan_end(v@, a as int, ws_pred()) == a);
    }
    let mut b: usize = v.len();
    while b > a && is_whitespace(v[b - 1])
        invariant
            a <= b <= v@.len(),
            a == scan_end(v@, 0, ws_pred()),
            scan_back(v@, v@.len() as int, ws_pred()) == scan_back(v@, b as int, ws_pred()),
        decreases b,
    {
        proof {
            assert(ws_pred()(v@[b - 1 as int]));
            assert(scan_back(v@, b as int, ws_pred()) == scan_back(v@, b - 1 as int, ws_pred()));
        }
        b = b - 1;
    }
    proof {
        if b > a {
            assert(scan_back(v@, b as int, ws_pred()) == b);
        } else {
            // everything from `a` on was white space, so the back scan
            // cannot stop after `a`
            lemma_scan_back(v@, b as int, ws_pred());
            assert(scan_back(v@, v@.len() as int, ws_pred()) <= a);
        }
    }
    if a < b {
        vec_sub(v, a, b)
    } else {
        let r: Vec<char> = Vec::new();
        proof {
            assert(r@ =~= trim_ws(v@));
        }
        r
    }
}

/// The predicate holding exactly on the character `c`.
pub open spec fn ch_pred(c: char) -> spec_fn(char) -> bool {
    |x: char| x == c
}

/// `s` begins with the prefix `p`.
pub open spec fn starts_with(s: Seq<char>, p: Seq<char>) -> bool {
    s.len() >= p.len() && s.subrange(0, p.len() as int) == p
}

/// Removes every leading repetition of `p` from `s`, as
/// `str::trim_start_matches` does.
pub open spec fn strip_prefix_rep(s: Seq<char>, p: Seq<char>) -> Seq<char>
    decreases s.len(),
{
    if p.len() > 0 && starts_with(s, p) {
        strip_prefix_rep(s.skip(p.len() as int), p)
    } else {
        s
    }
}

/// Splits `s` on commas, as `str::split(",")` does: the empty sequence
/// yields one empty piece.
pub open spec fn split_commas(s: Seq<char>) -> Seq<Seq<char>>
    decreases s.len(),
{
    let j = scan_end(s, 0, non_comma_pred());
    if 0 <= j < s.len() {
        seq![s.subrange(0, j)] + split_commas(s.skip(j + 1))
    } else {
        seq![s]
    }
}

/// The non-comma predicate, for locating the first `,`.
pub open spec fn non_comma_pred() -> spec_fn(char) -> bool {
    |c: char| c != ','
}

/// Tests whether `v` begins with the characters of `p`.
pub fn starts_with_str(v: &Vec<char>, p: &str) -> (b: bool)
    ensures
        b == starts_with(v@, p@),
{
    let m = p.unicode_len();
    if v.len() < m {
        return false;
    }
    let mut i: usize = 0;
    while i < m
        invariant
            i <= m,
            m == p@.len(),
            m <= v@.len(),
            forall|j: int| 0 <= j < i ==> v@[j] == p@[j],
        decreases m - i,
    {
        if v[i] != p.get_char(i) {
            proof {
                assert(v@.subrange(0, p@.len() as int)[i as int] != p@[i as int]);
            }
            return false;
        }
        i = i + 1;
    }
    proof {
        assert(v@.subrange(0, p@.len() as int) =~= p@);
    }
    true
}

/// Removes every leading repetition of `p` from `v`.
pub fn strip_prefix_rep_chars(v: &Vec<char>, p: &str) -> (r: Vec<char>)
    requires
        p@.len() > 0,
    ensures
        r@ == strip_prefix_rep(v@, p@),
{
    let m = p.unicode_len();
    let mut i: usize = 0;
    let mut go = true;
    proof {
        assert(v@.skip(0) =~= v@);
    }
    while go
        invariant
            i <= v@.len(),
            m == p@.len(),
            m > 0,
            strip_prefix_rep(v@, p@) == strip_prefix_rep(v@.skip(i as int), p@),
            go ==> i <= v@.len(),
            !go ==> !starts_with(v@.skip(i as int), p@),
        decreases v@.len() - i + if go {
            1int
        } else {
            0int
        },
    {
        // does another copy of the prefix start here?
        let mut k: usize = 0;
        let mut fits = m <= v.len() - i;
        while fits && k < m
            invariant
                k <= m,
                m == p@.len(),
                i <= v@.len(),
                v@.len() <= usize::MAX,
                fits ==> i + m <= v@.len(),
                fits ==> forall|j: int| 0 <= j < k ==> v@[i + j] == p@[j],
                !fits ==> !starts_with(v@.skip(i as int), p@),
            decreases m - k + if fits {
                1int
            } else {
                0int
            },
        {
            if v[i + k] != p.get_char(k) {
                proof {
                    assert(v@.skip(i as int).subrange(0, p@.len() as int)[k as int]
                        != p@[k as int]);
                }
                fits = false;
            } else {
                k = k + 1;
            }
        }
        if fits {
            proof {
                assert(v@.skip(i as int).subrange(0, p@.len() as int) =~= p@);
                assert(starts_with(v@.skip(i as int), p@));
                assert(v@.skip(i as int).skip(p@.len() as int) =~= v@.skip(i + m));
            }
            i = i + m;
        } else {
            go = false;
        }
    }
    let r = vec_sub(v, i, v.len());
    proof {
        assert(r@ =~= v@.skip(i as int));
    }
    r
}

/// Removes every trailing occurrence of `c` from `v`, as
/// `str::trim_end_matches` does.
pub fn strip_trailing_chars(v: &Vec<char>, c: char) -> (r: Vec<char>)
    ensures
        r@ == v@.take(scan_back(v@, v@.len() as int, ch_pred(c))),
{
    let mut b: usize = v.len();
    while b > 0 && v[b - 1] == c
        invariant
            b <= v@.len(),
            scan_back(v@, v@.len() as int, ch_pred(c)) == scan_back(v@, b as int, ch_pred(c)),
        decreases b,
    {
        proof {
            assert(ch_pred(c)(v@[b - 1 as int]));
            assert(scan_back(v@, b as int, ch_pred(c)) == scan_back(v@, b - 1 as int, ch_pred(c)));
        }
        b = b - 1;
    }
    proof {
        assert(scan_back(v@, b as int, ch_pred(c)) == b);
        lemma_scan_back(v@, v@.len() as int, ch_pred(c));
    }
    let r = vec_sub(v, 0, b);
    proof {
        assert(r@ =~= v@.take(b as int));
    }
    r
}

/// Splits `v` on commas into owned pieces.
pub fn split_commas_chars(v: &Vec<char>) -> (r: Vec<Vec<char>>)
    ensures
        r@.map_values(|x: Vec<char>| x@) == split_commas(v@),
{
    let n = v.len();
    let mut r: Vec<Vec<char>> = Vec::new();
    let mut start: usize = 0;
    let mut i: usize = 0;
    proof {
        assert(v@.skip(0) =~= v@);
        assert(r@.map_values(|x: Vec<char>| x@) =~= Seq::<Seq<char>>::empty());
    }
    while i < n
        invariant
            start <= i <= n,
            n == v@.len(),
            forall|j: int| start <= j < i ==> v@[j] != ',',
            split_commas(v@) == r@.map_values(|x: Vec<char>| x@) + split_commas(
                v@.skip(start as int),
            ),
        decreases n - i,
    {
        if v[i] == ',' {
            let piece = vec_sub(v, start, i);
            proof {
                let rest = v@.skip(start as int);
                lemma_scan_end_unique(rest, 0, non_comma_pred(), i - start);
                assert(rest.subrange(0, i - start) =~= piece@);
                assert(rest.skip(i - start + 1) =~= v@.skip(i + 1));
                assert(split_commas(rest) == seq![piece@] + split_commas(v@.skip(i + 1)));
            }
            let ghost r0 = r@;
            r.push(piece);
            proof {
                assert(r@.map_values(|x: Vec<char>| x@)
                    =~= r0.map_values(|x: Vec<char>| x@).push(piece@));
            }
            start = i + 1;
        }
        i = i + 1;
    }
    let last = vec_sub(v, start, n);
    proof {
        let rest = v@.skip(start as int);
        lemma_scan_end_unique(rest, 0, non_comma_pred(), n - start);
        assert(rest.subrange(0, n - start) =~= last@);
        assert(split_commas(rest) == seq![rest]);
        assert(rest =~= last@);
    }
    let ghost r1 = r@;
    r.push(last);
    proof {
        assert(r@.map_values(|x: Vec<char>| x@)
            =~= r1.map_values(|x: Vec<char>| x@).push(last@));
    }
    r
}

/// Converts a string slice to the vector of its characters.
pub fn str_to_chars(s: &str) -> (v: Vec<char>)
    ensures
        v@ == s@,
{
    let n = s.unicode_len();
    let mut v: Vec<char> = Vec::new();
    let mut i: usize = 0;
    while i < n
        invariant
            i <= n,
            n == s@.len(),
            v@ == s@.subrange(0, i as int),
        decreases n - i,
    {
        v.push(s.get_char(i));
        proof {
            assert(s@.subrange(0, i + 1 as int) =~= s@.subrange(0, i as int).push(s@[i as int]));
        }
        i = i + 1;
    }
    proof {
        assert(s@.subrange(0, s@.len() as int) =~= s@);
    }
    v
}

/// Collects a character vector into an owned string.
///
/// Relies on `String`'s `FromIterator<char>`: collecting an iterator of
/// characters yields the string of exactly those characters in order.
#[verifier::external_body]
pub fn chars_to_string(v: &Vec<char>) -> (s: String)
    ensures
        s@ == v@,
{
    v.iter().collect()
}

/// Compares a character vector with a string slice.
pub fn chars_eq_str(v: &Vec<char>, s: &str) -> (b: bool)
    ensures
        b == (v@ == s@),
{
    let n = s.unicode_len();
    if v.len() != n {
        proof {
            assert(v@ != s@);
        }
        return false;
    }
    let mut i: usize = 0;
    while i < n
        invariant
            i <= n,
            n == s@.len(),
            n == v@.len(),
            forall|j: int| 0 <= j < i ==> v@[j] == s@[j],
        decreases n - i,
    {
        if v[i] != s.get_char(i) {
            proof {
                assert(v@[i as int] != s@[i as int]);
            }
            return false;
        }
        i = i + 1;
    }
    proof {
        assert(v@ =~= s@);
    }
    true
}

} // verus!
