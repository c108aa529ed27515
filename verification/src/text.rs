//! Small text-scanning helpers shared by the file formats this crate reads
//! and writes: whitespace skipping, literal matching, character search.

use vstd::prelude::*;

verus! {

/// Whitespace as the configuration and state files treat it.
pub open spec fn is_ws(c: char) -> bool {
    c == ' ' || c == '\t' || c == '\r' || c == '\n'
}

/// Index of the first non-whitespace character at or after `i`, or the
/// length of `s` when everything from `i` on is whitespace.
pub open spec fn skip_ws(s: Seq<char>, i: int) -> int
    decreases s.len() - i,
{
    if i < 0 || i >= s.len() {
        s.len() as int
    } else if is_ws(s[i]) {
        skip_ws(s, i + 1)
    } else {
        i
    }
}

/// Index of the first occurrence of `c` at or after `i`, or the length of
/// `s` when there is none.
pub open spec fn find_char(s: Seq<char>, c: char, i: int) -> int
    decreases s.len() - i,
{
    if i < 0 || i >= s.len() {
        s.len() as int
    } else if s[i] == c {
        i
    } else {
        find_char(s, c, i + 1)
    }
}

/// `p` occurs in `s` starting at index `i`.
pub open spec fn matches_at(s: Seq<char>, i: int, p: Seq<char>) -> bool {
    0 <= i && i + p.len() <= s.len() && s.subrange(i, i + p.len()) == p
}

/// `skip_ws` lands on the first non-whitespace character.
pub proof fn lemma_skip_ws(s: Seq<char>, i: int)
    requires
        0 <= i <= s.len(),
    ensures
        i <= skip_ws(s, i) <= s.len(),
        forall|k: int| i <= k < skip_ws(s, i) ==> is_ws(s[k]),
        skip_ws(s, i) < s.len() ==> !is_ws(s[skip_ws(s, i)]),
    decreases s.len() - i,
{
    if i < s.len() && is_ws(s[i]) {
        lemma_skip_ws(s, i + 1);
    }
}

/// Whitespace test on one character.
pub fn is_ws_char(c: char) -> (r: bool)
    ensures
        r == is_ws(c),
{
    c == ' ' || c == '\t' || c == '\r' || c == '\n'
}

/// First non-whitespace position at or after `i`.
pub fn skip_ws_from(s: &str, i: usize) -> (r: usize)
    requires
        i <= s@.len(),
    ensures
        r == skip_ws(s@, i as int),
        i <= r <= s@.len(),
{
    let n = s.unicode_len();
    let mut j = i;
    while j < n
        invariant_except_break
            n == s@.len(),
            i <= j <= n,
            skip_ws(s@, i as int) == skip_ws(s@, j as int),
        ensures
            n == s@.len(),
            i <= j <= n,
            j == skip_ws(s@, i as int),
        decreases n - j,
    {
        let c = s.get_char(j);
        if !is_ws_char(c) {
            break ;
        }
        j = j + 1;
    }
    j
}

/// First occurrence of `c` at or after `i`.
pub fn find_char_from(s: &str, c: char, i: usize) -> (r: usize)
    requires
        i <= s@.len(),
    ensures
        r == find_char(s@, c, i as int),
        i <= r <= s@.len(),
{
    let n = s.unicode_len();
    let mut j = i;
    while j < n
        invariant_except_break
            n == s@.len(),
            i <= j <= n,
            find_char(s@, c, i as int) == find_char(s@, c, j as int),
        ensures
            n == s@.len(),
            i <= j <= n,
            j == find_char(s@, c, i as int),
        decreases n - j,
    {
        if s.get_char(j) == c {
            break ;
        }
        j = j + 1;
    }
    j
}

/// Index after the last non-whitespace character in `s` before `i`, or `0`
/// when everything before `i` is whitespace.
pub open spec fn skip_ws_rev(s: Seq<char>, i: int) -> int
    decreases i,
{
    if i <= 0 || i > s.len() {
        0
    } else if is_ws(s[i - 1]) {
        skip_ws_rev(s, i - 1)
    } else {
        i
    }
}

/// `skip_ws_rev` lands just after the last non-whitespace character.
pub proof fn lemma_skip_ws_rev(s: Seq<char>, i: int)
    requires
        0 <= i <= s.len(),
    ensures
        0 <= skip_ws_rev(s, i) <= i,
        forall|k: int| skip_ws_rev(s, i) <= k < i ==> is_ws(s[k]),
        skip_ws_rev(s, i) > 0 ==> !is_ws(s[skip_ws_rev(s, i) - 1]),
    decreases i,
{
    if i > 0 && is_ws(s[i - 1]) {
        lemma_skip_ws_rev(s, i - 1);
    }
}

/// `s` with its surrounding whitespace removed.
pub open spec fn spec_trim(s: Seq<char>) -> Seq<char> {
    let a = skip_ws(s, 0);
    let b = skip_ws_rev(s, s.len() as int);
    if a <= b {
        s.subrange(a, b)
    } else {
        Seq::empty()
    }
}

/// Removes surrounding whitespace.
pub fn trim_str(s: &str) -> (r: String)
    ensures
        r@ == spec_trim(s@),
{
    let n = s.unicode_len();
    let a = skip_ws_from(s, 0);
    if a == n {
        proof {
            lemma_skip_ws_rev(s@, n as int);
            if skip_ws_rev(s@, n as int) == n && n > 0 {
                lemma_skip_ws(s@, 0);
                assert(is_ws(s@[n - 1]));
                assert(!is_ws(s@[skip_ws_rev(s@, n as int) - 1]));
            }
            assert(spec_trim(s@) =~= Seq::<char>::empty());
        }
        return String::new();
    }
    proof {
        lemma_skip_ws(s@, 0);
    }
    let mut b = n;
    while b > a
        invariant_except_break
            n == s@.len(),
            a < b <= n,
            a < n,
            !is_ws(s@[a as int]),
            skip_ws_rev(s@, n as int) == skip_ws_rev(s@, b as int),
        ensures
            a < b <= n,
            b == skip_ws_rev(s@, n as int),
        decreases b,
    {
        if !is_ws_char(s.get_char(b - 1)) {
            break ;
        }
        b = b - 1;
    }
    let r = s.substring_char(a, b);
    proof {
        assert(spec_trim(s@) == s@.subrange(a as int, b as int));
    }
    r.to_owned()
}

/// `l` with one trailing carriage return removed, as line splitting treats
/// the end of a line.
pub open spec fn strip_cr(l: Seq<char>) -> Seq<char> {
    if l.len() > 0 && l[l.len() - 1] == '\r' {
        l.drop_last()
    } else {
        l
    }
}

/// The lines of `s`: split at every newline, a carriage return before a
/// newline dropped, and no empty final line after a trailing newline.
pub open spec fn spec_lines(s: Seq<char>) -> Seq<Seq<char>>
    decreases s.len(),
{
    if s.len() == 0 {
        seq![]
    } else {
        let j = find_char(s, '\n', 0);
        if 0 <= j < s.len() {
            seq![strip_cr(s.subrange(0, j))] + spec_lines(s.subrange(j + 1, s.len() as int))
        } else {
            seq![s]
        }
    }
}

/// Searching a suffix finds the same character, shifted by the offset.
pub proof fn lemma_find_char_offset(s: Seq<char>, c: char, p: int, i: int)
    requires
        0 <= p <= i <= s.len(),
    ensures
        find_char(s, c, i) - p == find_char(s.subrange(p, s.len() as int), c, i - p),
    decreases s.len() - i,
{
    let sub = s.subrange(p, s.len() as int);
    if i >= s.len() {
        assert(find_char(s, c, i) == s.len());
    } else if s[i] == c {
        assert(sub[i - p] == c);
    } else {
        assert(sub[i - p] != c);
        lemma_find_char_offset(s, c, p, i + 1);
    }
}

/// Splits `s` into its lines.
pub fn split_lines(s: &str) -> (r: Vec<String>)
    ensures
        r.deep_view() == spec_lines(s@),
{
    let n = s.unicode_len();
    let mut r: Vec<String> = Vec::new();
    let mut pos: usize = 0;
    proof {
        assert(r.deep_view() =~= Seq::<Seq<char>>::empty());
        assert(s@.subrange(0, n as int) =~= s@);
        assert(r.deep_view() + spec_lines(s@) =~= spec_lines(s@));
    }
    while pos < n
        invariant
            n == s@.len(),
            0 <= pos <= n,
            spec_lines(s@) == r.deep_view() + spec_lines(s@.subrange(pos as int, n as int)),
        decreases n - pos,
    {
        let ghost rest = s@.subrange(pos as int, n as int);
        let ghost old_deep = r.deep_view();
        let j = find_char_from(s, '\n', pos);
        proof {
            lemma_find_char_offset(s@, '\n', pos as int, pos as int);
        }
        if j < n {
            let line = if j > pos && s.get_char(j - 1) == '\r' {
                s.substring_char(pos, j - 1)
            } else {
                s.substring_char(pos, j)
            };
            proof {
                assert(rest.subrange(0, j - pos) =~= s@.subrange(pos as int, j as int));
                if j > pos && s@[j - 1] == '\r' {
                    assert(strip_cr(rest.subrange(0, j - pos)) =~= s@.subrange(
                        pos as int,
                        j - 1,
                    ));
                }
                assert(rest.subrange(j - pos + 1, rest.len() as int) =~= s@.subrange(
                    j + 1,
                    n as int,
                ));
            }
            r.push(line.to_owned());
            proof {
                assert(r.deep_view() =~= old_deep.push(strip_cr(s@.subrange(
                    pos as int,
                    j as int,
                ))));
                assert(spec_lines(rest) =~= seq![
                    strip_cr(s@.subrange(pos as int, j as int)),
                ] + spec_lines(s@.subrange(j + 1, n as int)));
                assert(r.deep_view() + spec_lines(s@.subrange(j + 1, n as int)) =~= old_deep
                    + spec_lines(rest));
            }
            pos = j + 1;
        } else {
            let line = s.substring_char(pos, n);
            r.push(line.to_owned());
            proof {
                assert(spec_lines(rest) =~= seq![rest]);
                assert(r.deep_view() =~= old_deep.push(rest));
                assert(r.deep_view() + spec_lines(s@.subrange(n as int, n as int)) =~= old_deep
                    + spec_lines(rest));
            }
            pos = n;
        }
    }
    proof {
        assert(spec_lines(s@.subrange(pos as int, n as int)) =~= Seq::<Seq<char>>::empty());
        assert(r.deep_view() + Seq::<Seq<char>>::empty() =~= r.deep_view());
    }
    r
}

/// The lines joined back together, every line ending in a newline.
pub open spec fn spec_unlines(lines: Seq<Seq<char>>) -> Seq<char>
    decreases lines.len(),
{
    if lines.len() == 0 {
        Seq::empty()
    } else {
        lines[0] + "\n"@ + spec_unlines(lines.drop_first())
    }
}

/// Appending one line extends the joined text by that line and a newline.
pub proof fn lemma_unlines_push(lines: Seq<Seq<char>>, l: Seq<char>)
    ensures
        spec_unlines(lines.push(l)) == spec_unlines(lines) + l + "\n"@,
    decreases lines.len(),
{
    if lines.len() == 0 {
        assert(lines.push(l).drop_first() =~= lines);
        assert(lines.push(l)[0] == l);
        assert(spec_unlines(lines.push(l)) =~= l + "\n"@);
        assert(spec_unlines(lines) + l + "\n"@ =~= l + "\n"@);
    } else {
        assert(lines.push(l).drop_first() =~= lines.drop_first().push(l));
        lemma_unlines_push(lines.drop_first(), l);
        assert(lines.push(l)[0] == lines[0]);
        assert(spec_unlines(lines.push(l)) =~= spec_unlines(lines) + l + "\n"@);
    }
}

/// Joins lines, terminating every line with a newline.
pub fn join_lines(lines: &Vec<String>) -> (r: String)
    ensures
        r@ == spec_unlines(lines.deep_view()),
{
    let mut out = String::new();
    let n = lines.len();
    let mut i: usize = 0;
    while i < n
        invariant
            n == lines@.len(),
            0 <= i <= n,
            out@ == spec_unlines(lines.deep_view().take(i as int)),
        decreases n - i,
    {
        let ghost before = lines.deep_view().take(i as int);
        out.append(lines[i].as_str());
        out.append("\n");
        proof {
            assert(lines.deep_view().take(i + 1) =~= before.push(lines.deep_view()[i as int]));
            lemma_unlines_push(before, lines.deep_view()[i as int]);
        }
        i = i + 1;
    }
    proof {
        assert(lines.deep_view().take(n as int) =~= lines.deep_view());
    }
    out
}

/// `n` occurs somewhere in `h`.
pub open spec fn spec_contains(h: Seq<char>, n: Seq<char>) -> bool {
    exists|k: int| matches_at(h, k, n)
}

/// Does `n` occur somewhere in `h`?
pub fn str_contains(h: &str, n: &str) -> (r: bool)
    ensures
        r == spec_contains(h@, n@),
{
    let lh = h.unicode_len();
    let ln = n.unicode_len();
    if ln > lh {
        return false;
    }
    if ln == 0 {
        proof {
            assert(h@.subrange(0, 0) =~= n@);
            assert(matches_at(h@, 0, n@));
        }
        return true;
    }
    let mut k: usize = 0;
    while k <= lh - ln
        invariant
            lh == h@.len(),
            ln == n@.len(),
            1 <= ln <= lh,
            0 <= k <= lh - ln + 1,
            forall|m: int| 0 <= m < k ==> !matches_at(h@, m, n@),
        decreases lh - ln + 1 - k,
    {
        if str_matches_at(h, k, n) {
            return true;
        }
        k = k + 1;
    }
    false
}

/// Does `p` occur in `s` starting at `i`?
pub fn str_matches_at(s: &str, i: usize, p: &str) -> (r: bool)
    requires
        i <= s@.len(),
    ensures
        r == matches_at(s@, i as int, p@),
{
    let n = s.unicode_len();
    let lp = p.unicode_len();
    if lp > n - i {
        return false;
    }
    let mut k: usize = 0;
    while k < lp
        invariant
            n == s@.len(),
            lp == p@.len(),
            i + lp <= n,
            0 <= k <= lp,
            forall|m: int| 0 <= m < k ==> s@[i + m] == p@[m],
        decreases lp - k,
    {
        if s.get_char(i + k) != p.get_char(k) {
            proof {
                let sub = s@.subrange(i as int, i + lp as int);
                assert(sub[k as int] == s@[i + k]);
            }
            return false;
        }
        k = k + 1;
    }
    proof {
        assert(s@.subrange(i as int, i + lp as int) =~= p@);
    }
    true
}

} // verus!
