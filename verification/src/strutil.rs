//! Character- and line-level text utilities shared by both DSL parsers:
//! whitespace trimming, character search, prefix tests, line splitting and
//! joining, all specified over `Seq<char>` views.

use vstd::prelude::*;

verus! {

/// Whitespace as Rust's `str::trim` understands it: the characters with
/// Unicode's `White_Space` property.
pub open spec fn is_space_char(c: char) -> bool {
    ||| c == ' '
    ||| c == '\t'
    ||| c == '\n'
    ||| c == '\r'
    ||| c == '\u{b}'
    ||| c == '\u{c}'
    ||| c == '\u{85}'
    ||| c == '\u{a0}'
    ||| c == '\u{1680}'
    ||| c == '\u{2000}'
    ||| c == '\u{2001}'
    ||| c == '\u{2002}'
    ||| c == '\u{2003}'
    ||| c == '\u{2004}'
    ||| c == '\u{2005}'
    ||| c == '\u{2006}'
    ||| c == '\u{2007}'
    ||| c == '\u{2008}'
    ||| c == '\u{2009}'
    ||| c == '\u{200a}'
    ||| c == '\u{2028}'
    ||| c == '\u{2029}'
    ||| c == '\u{202f}'
    ||| c == '\u{205f}'
    ||| c == '\u{3000}'
}

pub fn is_space(c: char) -> (r: bool)
    ensures
        r == is_space_char(c),
{
    match c {
        ' ' | '\t' | '\n' | '\r' | '\u{b}' | '\u{c}' | '\u{85}' | '\u{a0}' | '\u{1680}'
            | '\u{2000}' | '\u{2001}' | '\u{2002}' | '\u{2003}' | '\u{2004}' | '\u{2005}'
            | '\u{2006}' | '\u{2007}' | '\u{2008}' | '\u{2009}' | '\u{200a}' | '\u{2028}'
            | '\u{2029}' | '\u{202f}' | '\u{205f}' | '\u{3000}' => true,
        _ => false,
    }
}

/// Index of the first occurrence of `c` in `s`, or -1 when absent.
pub open spec fn first_index_of(s: Seq<char>, c: char) -> int
    decreases s.len(),
{
    if s.len() == 0 {
        -1
    } else if s[0] == c {
        0
    } else if first_index_of(s.drop_first(), c) == -1 {
        -1
    } else {
        1 + first_index_of(s.drop_first(), c)
    }
}

pub proof fn lemma_first_index_of(s: Seq<char>, c: char)
    ensures
        first_index_of(s, c) == -1 ==> forall|i: int| 0 <= i < s.len() ==> s[i] != c,
        first_index_of(s, c) != -1 ==> 0 <= first_index_of(s, c) < s.len(),
        first_index_of(s, c) != -1 ==> s[first_index_of(s, c)] == c,
        first_index_of(s, c) != -1 ==> forall|i: int| 0 <= i < first_index_of(s, c) ==> s[i] != c,
    decreases s.len(),
{
    if s.len() == 0 {
    } else if s[0] == c {
    } else {
        lemma_first_index_of(s.drop_first(), c);
        assert(forall|i: int| 1 <= i < s.len() ==> s[i] == s.drop_first()[i - 1]);
    }
}

/// The first index is pinned by exhibiting a witness position.
pub proof fn lemma_first_index_pinned(s: Seq<char>, c: char, k: int)
    requires
        0 <= k < s.len(),
        s[k] == c,
        forall|i: int| 0 <= i < k ==> s[i] != c,
    ensures
        first_index_of(s, c) == k,
{
    lemma_first_index_of(s, c);
}

/// Index of the last occurrence of `c` in `s`, or -1 when absent.
pub open spec fn last_index_of(s: Seq<char>, c: char) -> int
    decreases s.len(),
{
    if s.len() == 0 {
        -1
    } else if s.last() == c {
        s.len() - 1
    } else {
        last_index_of(s.drop_last(), c)
    }
}

pub proof fn lemma_last_index_of(s: Seq<char>, c: char)
    ensures
        last_index_of(s, c) == -1 ==> forall|i: int| 0 <= i < s.len() ==> s[i] != c,
        last_index_of(s, c) != -1 ==> 0 <= last_index_of(s, c) < s.len(),
        last_index_of(s, c) != -1 ==> s[last_index_of(s, c)] == c,
        last_index_of(s, c) != -1 ==> forall|i: int| last_index_of(s, c) < i < s.len() ==> s[i] != c,
    decreases s.len(),
{
    if s.len() == 0 {
    } else if s.last() == c {
    } else {
        lemma_last_index_of(s.drop_last(), c);
        assert(forall|i: int| 0 <= i < s.len() - 1 ==> s[i] == s.drop_last()[i]);
    }
}

pub proof fn lemma_last_index_pinned(s: Seq<char>, c: char, k: int)
    requires
        0 <= k < s.len(),
        s[k] == c,
        forall|i: int| k < i < s.len() ==> s[i] != c,
    ensures
        last_index_of(s, c) == k,
{
    lemma_last_index_of(s, c);
}

/// First occurrence of `c` in `s`, as `str::find` reports it for a
/// single-character pattern (but counting characters, not bytes).
pub fn find_char(s: &str, c: char) -> (r: Option<usize>)
    ensures
        match r {
            Some(k) => {
                &&& first_index_of(s@, c) == k as int
                &&& 0 <= k < s@.len()
                &&& s@[k as int] == c
                &&& forall|j: int| 0 <= j < k ==> s@[j] != c
            },
            None => first_index_of(s@, c) == -1 && forall|j: int| 0 <= j < s@.len() ==> s@[j] != c,
        },
{
    let n = s.unicode_len();
    let mut i: usize = 0;
    while i < n
        invariant
            n == s@.len(),
            0 <= i <= n,
            forall|j: int| 0 <= j < i ==> s@[j] != c,
        decreases n - i,
    {
        if s.get_char(i) == c {
            proof {
                lemma_first_index_pinned(s@, c, i as int);
            }
            return Some(i);
        }
        i += 1;
    }
    proof {
        lemma_first_index_of(s@, c);
    }
    None
}

/// Last occurrence of `c` in `s`, as `str::rfind` reports it.
pub fn rfind_char(s: &str, c: char) -> (r: Option<usize>)
    ensures
        match r {
            Some(k) => {
                &&& last_index_of(s@, c) == k as int
                &&& 0 <= k < s@.len()
                &&& s@[k as int] == c
                &&& forall|j: int| k < j < s@.len() ==> s@[j] != c
            },
            None => last_index_of(s@, c) == -1 && forall|j: int| 0 <= j < s@.len() ==> s@[j] != c,
        },
{
    let n = s.unicode_len();
    let mut i: usize = n;
    while i > 0
        invariant
            n == s@.len(),
            0 <= i <= n,
            forall|j: int| i <= j < n ==> s@[j] != c,
        decreases i,
    {
        i -= 1;
        if s.get_char(i) == c {
            proof {
                lemma_last_index_pinned(s@, c, i as int);
            }
            return Some(i);
        }
    }
    proof {
        lemma_last_index_of(s@, c);
    }
    None
}

/// `s` with leading whitespace removed.
pub open spec fn trim_front(s: Seq<char>) -> Seq<char>
    decreases s.len(),
{
    if s.len() > 0 && is_space_char(s[0]) {
        trim_front(s.drop_first())
    } else {
        s
    }
}

/// `s` with trailing whitespace removed.
pub open spec fn trim_back(s: Seq<char>) -> Seq<char>
    decreases s.len(),
{
    if s.len() > 0 && is_space_char(s.last()) {
        trim_back(s.drop_last())
    } else {
        s
    }
}

/// `s` with both leading and trailing whitespace removed: `str::trim`.
pub open spec fn trim_seq(s: Seq<char>) -> Seq<char> {
    trim_back(trim_front(s))
}

pub proof fn lemma_trim_front_subrange(s: Seq<char>, lo: int)
    requires
        0 <= lo <= s.len(),
        forall|i: int| 0 <= i < lo ==> is_space_char(s[i]),
        lo == s.len() || !is_space_char(s[lo]),
    ensures
        trim_front(s) == s.subrange(lo, s.len() as int),
    decreases lo,
{
    if lo == 0 {
        assert(s.subrange(0, s.len() as int) =~= s);
    } else {
        assert(is_space_char(s[0]));
        let t = s.drop_first();
        assert(forall|i: int| 0 <= i < lo - 1 ==> t[i] == s[i + 1]);
        lemma_trim_front_subrange(t, lo - 1);
        assert(t.subrange(lo - 1, t.len() as int) =~= s.subrange(lo, s.len() as int));
    }
}

pub proof fn lemma_trim_back_subrange(s: Seq<char>, hi: int)
    requires
        0 <= hi <= s.len(),
        forall|i: int| hi <= i < s.len() ==> is_space_char(s[i]),
        hi == 0 || !is_space_char(s[hi - 1]),
    ensures
        trim_back(s) == s.subrange(0, hi),
    decreases s.len() - hi,
{
    if hi == s.len() {
        assert(s.subrange(0, s.len() as int) =~= s);
    } else {
        assert(is_space_char(s.last()));
        let t = s.drop_last();
        lemma_trim_back_subrange(t, hi);
        assert(t.subrange(0, hi) =~= s.subrange(0, hi));
    }
}

/// `str::trim`, counting characters.
pub fn trim(s: &str) -> (r: &str)
    ensures
        r@ == trim_seq(s@),
{
    let n = s.unicode_len();
    let mut lo: usize = 0;
    while lo < n && is_space(s.get_char(lo))
        invariant
            n == s@.len(),
            0 <= lo <= n,
            forall|j: int| 0 <= j < lo ==> is_space_char(s@[j]),
        decreases n - lo,
    {
        lo += 1;
    }
    proof {
        lemma_trim_front_subrange(s@, lo as int);
    }
    if lo == n {
        let r = s.substring_char(n, n);
        proof {
            assert(trim_front(s@) =~= Seq::<char>::empty());
            assert(trim_back(trim_front(s@)) =~= Seq::<char>::empty());
            assert(r@ =~= Seq::<char>::empty());
        }
        return r;
    }
    let mut hi: usize = n;
    while hi > lo && is_space(s.get_char(hi - 1))
        invariant
            n == s@.len(),
            lo <= hi <= n,
            forall|j: int| hi <= j < n ==> is_space_char(s@[j]),
        decreases hi,
    {
        hi -= 1;
    }
    // hi > lo: the character at lo is not whitespace, so the back scan stops
    // no earlier than lo + 1.
    let r = s.substring_char(lo, hi);
    proof {
        let t = s@.subrange(lo as int, n as int);
        assert(!is_space_char(t[0]));
        assert(hi > lo);
        assert(forall|i: int| hi - lo <= i < t.len() ==> is_space_char(t[i]));
        assert(!is_space_char(t[hi - lo - 1]));
        lemma_trim_back_subrange(t, hi - lo);
        assert(t.subrange(0, hi - lo) =~= s@.subrange(lo as int, hi as int));
    }
    r
}

/// `s` with every trailing occurrence of `c` removed: `str::trim_end_matches`
/// with a single-character pattern.
pub open spec fn strip_back(s: Seq<char>, c: char) -> Seq<char>
    decreases s.len(),
{
    if s.len() > 0 && s.last() == c {
        strip_back(s.drop_last(), c)
    } else {
        s
    }
}

pub proof fn lemma_strip_back_subrange(s: Seq<char>, c: char, hi: int)
    requires
        0 <= hi <= s.len(),
        forall|i: int| hi <= i < s.len() ==> s[i] == c,
        hi == 0 || s[hi - 1] != c,
    ensures
        strip_back(s, c) == s.subrange(0, hi),
    decreases s.len() - hi,
{
    if hi == s.len() {
        assert(s.subrange(0, s.len() as int) =~= s);
    } else {
        let t = s.drop_last();
        lemma_strip_back_subrange(t, c, hi);
        assert(t.subrange(0, hi) =~= s.subrange(0, hi));
    }
}

/// `str::trim_end_matches` for a single-character pattern.
pub fn strip_trailing(s: &str, c: char) -> (r: &str)
    ensures
        r@ == strip_back(s@, c),
{
    let n = s.unicode_len();
    let mut hi: usize = n;
    while hi > 0 && s.get_char(hi - 1) == c
        invariant
            n == s@.len(),
            0 <= hi <= n,
            forall|j: int| hi <= j < n ==> s@[j] == c,
        decreases hi,
    {
        hi -= 1;
    }
    let r = s.substring_char(0, hi);
    proof {
        lemma_strip_back_subrange(s@, c, hi as int);
    }
    r
}

/// `str::starts_with` for a string pattern.
pub fn starts_with(s: &str, p: &str) -> (r: bool)
    ensures
        r == p@.is_prefix_of(s@),
{
    let np = p.unicode_len();
    let ns = s.unicode_len();
    if np > ns {
        return false;
    }
    let mut i: usize = 0;
    while i < np
        invariant
            np == p@.len(),
            ns == s@.len(),
            np <= ns,
            0 <= i <= np,
            forall|j: int| 0 <= j < i ==> s@[j] == p@[j],
        decreases np - i,
    {
        if s.get_char(i) != p.get_char(i) {
            proof {
                assert(s@.subrange(0, np as int)[i as int] != p@[i as int]);
            }
            return false;
        }
        i += 1;
    }
    proof {
        assert(p@ =~= s@.subrange(0, np as int));
    }
    true
}

/// Character-wise string equality, with the equality of the views stated.
pub fn str_eq(a: &str, b: &str) -> (r: bool)
    ensures
        r == (a@ == b@),
{
    let na = a.unicode_len();
    let nb = b.unicode_len();
    if na != nb {
        return false;
    }
    let mut i: usize = 0;
    while i < na
        invariant
            na == a@.len(),
            nb == b@.len(),
            na == nb,
            0 <= i <= na,
            forall|j: int| 0 <= j < i ==> a@[j] == b@[j],
        decreases na - i,
    {
        if a.get_char(i) != b.get_char(i) {
            return false;
        }
        i += 1;
    }
    proof {
        assert(a@ =~= b@);
    }
    true
}

/// `pat` occurs in `s` at position `i`.
pub open spec fn matches_at(s: Seq<char>, pat: Seq<char>, i: int) -> bool {
    0 <= i && i + pat.len() <= s.len() && s.subrange(i, i + pat.len() as int) == pat
}

/// Index of the first occurrence of `pat` in `s`, or -1 when absent:
/// `str::find` with a string pattern.
pub open spec fn find_sub(s: Seq<char>, pat: Seq<char>) -> int
    decreases s.len(),
{
    if pat.is_prefix_of(s) {
        0
    } else if s.len() == 0 {
        -1
    } else if find_sub(s.drop_first(), pat) == -1 {
        -1
    } else {
        1 + find_sub(s.drop_first(), pat)
    }
}

pub proof fn lemma_find_sub(s: Seq<char>, pat: Seq<char>)
    ensures
        find_sub(s, pat) == -1 ==> forall|i: int| !matches_at(s, pat, i),
        find_sub(s, pat) != -1 ==> matches_at(s, pat, find_sub(s, pat)),
        find_sub(s, pat) != -1 ==> forall|i: int| 0 <= i < find_sub(s, pat) ==> !matches_at(
            s,
            pat,
            i,
        ),
    decreases s.len(),
{
    assert(pat.is_prefix_of(s) <==> matches_at(s, pat, 0)) by {
        if pat.is_prefix_of(s) {
            assert(s.subrange(0, pat.len() as int) =~= pat);
        }
        if matches_at(s, pat, 0) {
            assert(pat =~= s.subrange(0, pat.len() as int));
        }
    }
    if pat.is_prefix_of(s) {
    } else if s.len() == 0 {
        assert(forall|i: int| !matches_at(s, pat, i));
    } else {
        lemma_find_sub(s.drop_first(), pat);
        let t = s.drop_first();
        assert forall|i: int| 1 <= i && #[trigger] matches_at(s, pat, i) implies matches_at(
            t,
            pat,
            i - 1,
        ) by {
            assert(t.subrange(i - 1, i - 1 + pat.len() as int) =~= s.subrange(
                i,
                i + pat.len() as int,
            ));
        }
        assert forall|i: int| #[trigger] matches_at(t, pat, i) implies matches_at(
            s,
            pat,
            i + 1,
        ) by {
            assert(s.subrange(i + 1, i + 1 + pat.len() as int) =~= t.subrange(
                i,
                i + pat.len() as int,
            ));
        }
    }
}

pub proof fn lemma_find_sub_pinned(s: Seq<char>, pat: Seq<char>, k: int)
    requires
        matches_at(s, pat, k),
        forall|i: int| 0 <= i < k ==> !matches_at(s, pat, i),
    ensures
        find_sub(s, pat) == k,
{
    lemma_find_sub(s, pat);
}

/// `str::find` with a string pattern, counting characters.
pub fn find_substr(s: &str, pat: &str) -> (r: Option<usize>)
    ensures
        match r {
            Some(k) => {
                &&& find_sub(s@, pat@) == k as int
                &&& matches_at(s@, pat@, k as int)
            },
            None => find_sub(s@, pat@) == -1,
        },
{
    let n = s.unicode_len();
    let m = pat.unicode_len();
    if m > n {
        proof {
            lemma_find_sub(s@, pat@);
            if find_sub(s@, pat@) != -1 {
                assert(matches_at(s@, pat@, find_sub(s@, pat@)));
            }
        }
        return None;
    }
    if m == 0 {
        proof {
            assert(s@.subrange(0, 0) =~= pat@);
            lemma_find_sub_pinned(s@, pat@, 0);
        }
        return Some(0);
    }
    let mut i: usize = 0;
    while i <= n - m
        invariant
            n == s@.len(),
            m == pat@.len(),
            1 <= m <= n,
            0 <= i <= n - m + 1,
            forall|j: int| 0 <= j < i ==> !matches_at(s@, pat@, j),
        decreases n - i,
    {
        let mut j: usize = 0;
        let mut hit = true;
        while j < m
            invariant
                n == s@.len(),
                m == pat@.len(),
                0 <= i <= n - m,
                0 <= j <= m,
                hit ==> forall|q: int| 0 <= q < j ==> s@[i + q] == pat@[q],
                !hit ==> !matches_at(s@, pat@, i as int),
            decreases m - j,
        {
            if s.get_char(i + j) != pat.get_char(j) {
                hit = false;
                proof {
                    assert(!matches_at(s@, pat@, i as int)) by {
                        if matches_at(s@, pat@, i as int) {
                            assert(s@.subrange(i as int, i + m as int)[j as int] == pat@[j as int]);
                        }
                    }
                }
                j = m;
            } else {
                j += 1;
            }
        }
        if hit {
            proof {
                assert(s@.subrange(i as int, i + m as int) =~= pat@);
                lemma_find_sub_pinned(s@, pat@, i as int);
            }
            return Some(i);
        }
        i += 1;
    }
    proof {
        lemma_find_sub(s@, pat@);
        if find_sub(s@, pat@) != -1 {
            assert(matches_at(s@, pat@, find_sub(s@, pat@)));
        }
    }
    None
}

/// The pieces of `s` between occurrences of `'\n'`, in order.  One
/// separator yields two pieces, so a trailing newline yields a final
/// empty piece.
pub open spec fn lines_of(s: Seq<char>) -> Seq<Seq<char>>
    decreases s.len(),
    via lines_of_decreases
{
    if first_index_of(s, '\n') == -1 {
        seq![s]
    } else {
        let k = first_index_of(s, '\n');
        seq![s.subrange(0, k)] + lines_of(s.subrange(k + 1, s.len() as int))
    }
}

#[via_fn]
proof fn lines_of_decreases(s: Seq<char>) {
    lemma_first_index_of(s, '\n');
}

/// Splits `s` at newline characters, keeping empty pieces.
pub fn split_lines(s: &str) -> (r: Vec<String>)
    ensures
        r@.map_values(|t: String| t@) == lines_of(s@),
{
    let n = s.unicode_len();
    let mut out: Vec<String> = Vec::new();
    let mut start: usize = 0;
    let mut i: usize = 0;
    proof {
        assert(s@.subrange(0, n as int) =~= s@);
        assert(out@.map_values(|t: String| t@) + lines_of(s@) =~= lines_of(s@));
    }
    while i < n
        invariant
            n == s@.len(),
            0 <= start <= i <= n,
            forall|j: int| start <= j < i ==> s@[j] != '\n',
            lines_of(s@) == out@.map_values(|t: String| t@) + lines_of(
                s@.subrange(start as int, n as int),
            ),
        decreases n - i,
    {
        if s.get_char(i) == '\n' {
            let piece = s.substring_char(start, i).to_owned();
            proof {
                let suffix = s@.subrange(start as int, n as int);
                assert(suffix[i - start] == '\n');
                assert(forall|j: int| 0 <= j < i - start ==> suffix[j] != '\n');
                lemma_first_index_pinned(suffix, '\n', i - start);
                assert(suffix.subrange(0, i - start) =~= s@.subrange(start as int, i as int));
                assert(suffix.subrange(i - start + 1, suffix.len() as int) =~= s@.subrange(
                    i + 1,
                    n as int,
                ));
                assert(out@.push(piece).map_values(|t: String| t@) =~= out@.map_values(
                    |t: String| t@,
                ).push(piece@));
                assert(out@.map_values(|t: String| t@) + lines_of(suffix) =~= out@.push(
                    piece,
                ).map_values(|t: String| t@) + lines_of(s@.subrange(i + 1, n as int)));
            }
            out.push(piece);
            start = i + 1;
        }
        i += 1;
    }
    let last_piece = s.substring_char(start, n).to_owned();
    proof {
        let suffix = s@.subrange(start as int, n as int);
        lemma_first_index_of(suffix, '\n');
        if first_index_of(suffix, '\n') != -1 {
            assert(suffix[first_index_of(suffix, '\n')] == '\n');
            assert(false);
        }
        assert(lines_of(suffix) == seq![suffix]);
        assert(out@.push(last_piece).map_values(|t: String| t@) =~= out@.map_values(
            |t: String| t@,
        ).push(last_piece@));
        assert(out@.map_values(|t: String| t@) + seq![suffix] =~= out@.push(
            last_piece,
        ).map_values(|t: String| t@));
    }
    out.push(last_piece);
    out
}

/// The pieces joined with `sep` between consecutive pieces: `[..].join(sep)`.
pub open spec fn join_with(parts: Seq<Seq<char>>, sep: Seq<char>) -> Seq<char>
    decreases parts.len(),
{
    if parts.len() == 0 {
        Seq::empty()
    } else if parts.len() == 1 {
        parts[0]
    } else {
        join_with(parts.drop_last(), sep) + sep + parts.last()
    }
}

/// Joins the strings with `sep` between consecutive elements.
pub fn join_strings(parts: &Vec<String>, sep: &str) -> (r: String)
    ensures
        r@ == join_with(parts@.map_values(|t: String| t@), sep@),
{
    let mut acc = String::new();
    let mut i: usize = 0;
    while i < parts.len()
        invariant
            0 <= i <= parts@.len(),
            acc@ == join_with(parts@.take(i as int).map_values(|t: String| t@), sep@),
        decreases parts@.len() - i,
    {
        if i > 0 {
            acc.append(sep);
        }
        acc.append(parts[i].as_str());
        proof {
            let views = parts@.take(i + 1).map_values(|t: String| t@);
            assert(views.drop_last() =~= parts@.take(i as int).map_values(|t: String| t@));
            assert(views.last() == parts@[i as int]@);
            if i == 0 {
                assert(acc@ =~= views[0]);
            }
        }
        i += 1;
    }
    proof {
        assert(parts@.take(parts@.len() as int) =~= parts@);
    }
    acc
}

} // verus!
