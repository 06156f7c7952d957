//! String primitives shared by the whole crate: line splitting and joining,
//! character and substring search, trimming, and token splitting.  Every
//! executable function is specified against a spec-level model over
//! `Seq<char>`.

use vstd::prelude::*;
use vstd::string::*;

verus! {

/// Whether the Unicode code point `u` belongs to the White_Space set, the
/// set accepted by Rust's `char::is_whitespace`.
pub open spec fn ws_code(u: u32) -> bool {
    u == 0x20 || (0x09 <= u && u <= 0x0D) || u == 0x85 || u == 0xA0 || u == 0x1680 || (0x2000
        <= u && u <= 0x200A) || u == 0x2028 || u == 0x2029 || u == 0x202F || u == 0x205F || u
        == 0x3000
}

/// Whether `c` is a white-space character.
pub open spec fn ws_char(c: char) -> bool {
    ws_code(c as u32)
}

/// Executable white-space test, equal to `ws_char`.
pub fn is_ws_char(c: char) -> (r: bool)
    ensures
        r == ws_char(c),
{
    let u = c as u32;
    u == 0x20 || (0x09 <= u && u <= 0x0D) || u == 0x85 || u == 0xA0 || u == 0x1680 || (0x2000
        <= u && u <= 0x200A) || u == 0x2028 || u == 0x2029 || u == 0x202F || u == 0x205F || u
        == 0x3000
}

/// The views of a sequence of strings.
pub open spec fn views_of(v: Seq<String>) -> Seq<Seq<char>> {
    v.map_values(|s: String| s@)
}

/// Index of the first occurrence of `c` in `s`, or -1 when `s` does not
/// contain it.
pub open spec fn find_ch(s: Seq<char>, c: char) -> int
    decreases s.len(),
{
    if s.len() == 0 {
        -1
    } else if s[0] == c {
        0
    } else {
        let r = find_ch(s.drop_first(), c);
        if r < 0 {
            -1
        } else {
            r + 1
        }
    }
}

/// `find_ch` returns -1 exactly when `c` does not occur, and otherwise the
/// least index holding `c`.
pub proof fn lemma_find_ch(s: Seq<char>, c: char)
    ensures
        find_ch(s, c) == -1 ==> forall|k: int| 0 <= k < s.len() ==> s[k] != c,
        find_ch(s, c) != -1 ==> 0 <= find_ch(s, c) < s.len() && s[find_ch(s, c)] == c && (forall|
            k: int,
        | 0 <= k < find_ch(s, c) ==> s[k] != c),
    decreases s.len(),
{
    if s.len() == 0 {
    } else if s[0] == c {
    } else {
        let sub = s.drop_first();
        lemma_find_ch(sub, c);
        let r = find_ch(sub, c);
        if r >= 0 {
            assert(sub[r] == s[r + 1]);
            assert(find_ch(s, c) == r + 1);
            assert forall|k: int| 0 <= k < r + 1 implies s[k] != c by {
                if k >= 1 {
                    assert(s[k] == sub[k - 1]);
                }
            }
        } else {
            assert forall|k: int| 0 <= k < s.len() implies s[k] != c by {
                if k >= 1 {
                    assert(s[k] == sub[k - 1]);
                }
            }
        }
    }
}

/// `s` with one trailing carriage return removed, if it ends in one.
pub open spec fn rstrip_cr(s: Seq<char>) -> Seq<char> {
    if s.len() > 0 && s.last() == '\r' {
        s.drop_last()
    } else {
        s
    }
}

/// The lines of `s`, with the semantics of `str::lines`: segments split at
/// '\n', one '\r' directly before a '\n' removed, and no final empty
/// segment after a terminating newline.
pub open spec fn lines_of(s: Seq<char>) -> Seq<Seq<char>>
    decreases s.len(),
{
    if s.len() == 0 {
        Seq::empty()
    } else {
        let j = find_ch(s, '\n');
        if !(0 <= j < s.len()) {
            seq![s]
        } else {
            seq![rstrip_cr(s.subrange(0, j))] + lines_of(s.subrange(j + 1, s.len() as int))
        }
    }
}

/// The given lines joined with single newline characters.
pub open spec fn join_nl(ls: Seq<Seq<char>>) -> Seq<char>
    decreases ls.len(),
{
    if ls.len() == 0 {
        Seq::empty()
    } else if ls.len() == 1 {
        ls[0]
    } else {
        ls[0] + seq!['\n'] + join_nl(ls.drop_first())
    }
}

/// Joining lines one longer appends a newline and the new line.
pub proof fn lemma_join_push(ls: Seq<Seq<char>>, x: Seq<char>)
    ensures
        ls.len() == 0 ==> join_nl(ls.push(x)) == x,
        ls.len() > 0 ==> join_nl(ls.push(x)) == join_nl(ls) + seq!['\n'] + x,
    decreases ls.len(),
{
    if ls.len() == 0 {
        assert(ls.push(x)[0] == x);
    } else if ls.len() == 1 {
        assert(ls.push(x).drop_first() =~= ls.drop_first().push(x));
        assert(ls.push(x)[0] == ls[0]);
        assert(join_nl(ls.drop_first().push(x)) == x);
    } else {
        lemma_join_push(ls.drop_first(), x);
        assert(ls.push(x).drop_first() =~= ls.drop_first().push(x));
        assert(ls.push(x)[0] == ls[0]);
    }
}

/// First index of `c` in `s` at or after `from`, if any.
pub fn find_char_from(s: &str, c: char, from: usize) -> (r: Option<usize>)
    requires
        from <= s@.len(),
    ensures
        match r {
            Some(i) => from <= i < s@.len() && s@[i as int] == c && (forall|k: int|
                from <= k < i ==> s@[k] != c),
            None => forall|k: int| from <= k < s@.len() ==> s@[k] != c,
        },
{
    let n: usize = s.unicode_len();
    let mut i: usize = from;
    while i < n
        invariant
            from <= i <= n,
            n == s@.len(),
            forall|k: int| from <= k < i ==> s@[k] != c,
        decreases n - i,
    {
        if s.get_char(i) == c {
            return Some(i);
        }
        i = i + 1;
    }
    None
}

/// First occurrence of `c` in `s`, equal to the spec-level `find_ch`.
pub fn find_char(s: &str, c: char) -> (r: Option<usize>)
    ensures
        match r {
            Some(i) => i as int == find_ch(s@, c) && i < s@.len(),
            None => find_ch(s@, c) == -1,
        },
{
    let r = find_char_from(s, c, 0);
    proof {
        lemma_find_ch(s@, c);
        let fc = find_ch(s@, c);
        match r {
            Some(i) => {
                if fc == -1 {
                    assert(s@[i as int] != c);
                    assert(false);
                }
                if fc < i {
                    assert(s@[fc] != c);
                    assert(false);
                }
                if fc > i {
                    assert(s@[i as int] != c);
                    assert(false);
                }
            },
            None => {
                if fc != -1 {
                    assert(s@[fc] != c);
                    assert(false);
                }
            },
        }
    }
    r
}

/// Everything of `s` before its first `c`, or all of `s` when `c` does not
/// occur.
pub open spec fn before_ch(s: Seq<char>, c: char) -> Seq<char> {
    let j = find_ch(s, c);
    if 0 <= j < s.len() {
        s.take(j)
    } else {
        s
    }
}

/// The prefix of `s` before its first `c`, as `before_ch` describes.
pub fn before_char(s: &str, c: char) -> (r: String)
    ensures
        r@ == before_ch(s@, c),
{
    match find_char(s, c) {
        Some(j) => {
            let x = s.substring_char(0, j).to_owned();
            proof {
                assert(x@ =~= s@.take(find_ch(s@, c)));
            }
            x
        },
        None => s.to_owned(),
    }
}

/// Splits `s` into its lines, as `lines_of` describes.
pub fn split_lines(s: &str) -> (lines: Vec<String>)
    ensures
        views_of(lines@) == lines_of(s@),
{
    let n: usize = s.unicode_len();
    let mut lines: Vec<String> = Vec::new();
    let mut pos: usize = 0;
    proof {
        assert(s@.skip(0) =~= s@);
        assert(views_of(lines@) =~= Seq::<Seq<char>>::empty());
        assert(views_of(lines@) + lines_of(s@) =~= lines_of(s@));
    }
    while pos < n
        invariant
            pos <= n,
            n == s@.len(),
            lines_of(s@) == views_of(lines@) + lines_of(s@.skip(pos as int)),
        decreases n - pos,
    {
        let ghost rem = s@.skip(pos as int);
        match find_char_from(s, '\n', pos) {
            Some(j) => {
                proof {
                    lemma_find_ch(rem, '\n');
                    assert(forall|k: int| 0 <= k < rem.len() ==> rem[k] == s@[pos + k]);
                    assert(rem[j - pos] == '\n');
                    let r = find_ch(rem, '\n');
                    assert(r != -1);
                    if r < j - pos {
                        assert(s@[pos + r] == '\n');
                        assert(false);
                    }
                    if r > j - pos {
                        assert(rem[j - pos] != '\n');
                        assert(false);
                    }
                    assert(r == j - pos);
                }
                let end: usize = if j > pos && s.get_char(j - 1) == '\r' {
                    j - 1
                } else {
                    j
                };
                proof {
                    assert(rem.subrange(0, (j - pos) as int) =~= s@.subrange(
                        pos as int,
                        j as int,
                    ));
                    if j > pos && s@[j - 1] == '\r' {
                        assert(rem.subrange(0, (j - pos) as int).last() == '\r');
                        assert(rstrip_cr(rem.subrange(0, (j - pos) as int)) =~= s@.subrange(
                            pos as int,
                            end as int,
                        ));
                    } else {
                        assert(rstrip_cr(rem.subrange(0, (j - pos) as int)) =~= s@.subrange(
                            pos as int,
                            end as int,
                        ));
                    }
                    assert(rem.subrange(j - pos + 1, rem.len() as int) =~= s@.skip(j + 1));
                }
                let seg = s.substring_char(pos, end).to_owned();
                let ghost old_lines = lines@;
                lines.push(seg);
                proof {
                    assert(views_of(lines@) =~= views_of(old_lines).push(
                        s@.subrange(pos as int, end as int),
                    ));
                    assert(lines_of(rem) == seq![s@.subrange(pos as int, end as int)]
                        + lines_of(s@.skip(j + 1)));
                    assert(views_of(old_lines) + lines_of(rem) =~= views_of(lines@) + lines_of(
                        s@.skip(j + 1),
                    ));
                }
                pos = j + 1;
            },
            None => {
                proof {
                    lemma_find_ch(rem, '\n');
                    assert(forall|k: int| 0 <= k < rem.len() ==> rem[k] == s@[pos + k]);
                    let r = find_ch(rem, '\n');
                    if r != -1 {
                        assert(s@[pos + r] == '\n');
                        assert(false);
                    }
                    assert(rem.len() > 0);
                    assert(lines_of(rem) == seq![rem]);
                }
                let seg = s.substring_char(pos, n).to_owned();
                let ghost old_lines = lines@;
                lines.push(seg);
                proof {
                    assert(views_of(lines@) =~= views_of(old_lines).push(rem));
                    assert(views_of(old_lines) + lines_of(rem) =~= views_of(lines@) + lines_of(
                        s@.skip(n as int),
                    ));
                }
                pos = n;
            },
        }
    }
    proof {
        assert(s@.skip(pos as int) =~= Seq::<char>::empty());
        assert(lines_of(s@) =~= views_of(lines@));
    }
    lines
}

/// Whether `p` occurs in `s` starting at index `i`.
pub open spec fn match_at(s: Seq<char>, p: Seq<char>, i: int) -> bool {
    0 <= i && i + p.len() <= s.len() && s.subrange(i, i + p.len() as int) == p
}

/// Whether `p` is a prefix of `s`.
pub open spec fn is_prefix(p: Seq<char>, s: Seq<char>) -> bool {
    p.len() <= s.len() && s.subrange(0, p.len() as int) == p
}

/// Index of the first occurrence of `p` in `s`, or -1 when there is none.
pub open spec fn find_sub(s: Seq<char>, p: Seq<char>) -> int
    decreases s.len(),
{
    if p.len() > s.len() {
        -1
    } else if is_prefix(p, s) {
        0
    } else if s.len() == 0 {
        -1
    } else {
        let r = find_sub(s.drop_first(), p);
        if r < 0 {
            -1
        } else {
            r + 1
        }
    }
}

/// Whether `p` occurs anywhere in `s`.
pub open spec fn contains_sub(s: Seq<char>, p: Seq<char>) -> bool {
    find_sub(s, p) >= 0
}

/// A match one step into `s` is a match of the rest of `s`.
proof fn lemma_match_at_shift(s: Seq<char>, p: Seq<char>, k: int)
    requires
        s.len() > 0,
        0 <= k,
    ensures
        match_at(s.drop_first(), p, k) <==> match_at(s, p, k + 1),
{
    if 0 <= k && k + p.len() <= s.drop_first().len() {
        assert(s.drop_first().subrange(k, k + p.len() as int) =~= s.subrange(
            k + 1,
            k + 1 + p.len() as int,
        ));
    }
}

/// `find_sub` returns -1 exactly when `p` does not occur, and otherwise the
/// least index at which `p` matches.
pub proof fn lemma_find_sub(s: Seq<char>, p: Seq<char>)
    ensures
        find_sub(s, p) == -1 ==> forall|i: int| !match_at(s, p, i),
        find_sub(s, p) >= 0 ==> match_at(s, p, find_sub(s, p)) && (forall|k: int|
            0 <= k < find_sub(s, p) ==> !match_at(s, p, k)),
    decreases s.len(),
{
    if p.len() > s.len() {
        assert(forall|i: int| match_at(s, p, i) ==> i + p.len() <= s.len());
    } else if is_prefix(p, s) {
        assert(s.subrange(0, p.len() as int) == p);
        assert(match_at(s, p, 0));
    } else if s.len() == 0 {
        assert(forall|i: int| match_at(s, p, i) ==> i == 0 && p.len() == 0);
        assert(!match_at(s, p, 0));
    } else {
        let sub = s.drop_first();
        lemma_find_sub(sub, p);
        let r = find_sub(sub, p);
        if r >= 0 {
            lemma_match_at_shift(s, p, r);
            assert(match_at(s, p, r + 1));
            assert forall|k: int| 0 <= k < r + 1 implies !match_at(s, p, k) by {
                if k == 0 {
                    if match_at(s, p, 0) {
                        assert(is_prefix(p, s));
                    }
                } else {
                    lemma_match_at_shift(s, p, k - 1);
                }
            }
        } else {
            assert forall|i: int| !match_at(s, p, i) by {
                if 0 < i {
                    lemma_match_at_shift(s, p, i - 1);
                } else if i == 0 {
                    if match_at(s, p, 0) {
                        assert(is_prefix(p, s));
                    }
                }
            }
        }
    }
}

/// Tests whether `p` matches inside `s` at character index `i`.
pub fn match_at_exec(s: &str, p: &str, i: usize) -> (r: bool)
    requires
        i + p@.len() <= s@.len(),
    ensures
        r == match_at(s@, p@, i as int),
{
    let sn: usize = s.unicode_len();
    let m: usize = p.unicode_len();
    let mut j: usize = 0;
    while j < m
        invariant
            j <= m,
            m == p@.len(),
            sn == s@.len(),
            i + m <= s@.len(),
            forall|k: int| 0 <= k < j ==> s@[i + k] == p@[k],
        decreases m - j,
    {
        if s.get_char(i + j) != p.get_char(j) {
            proof {
                assert(s@.subrange(i as int, i + m)[j as int] == s@[i + j]);
            }
            return false;
        }
        j = j + 1;
    }
    proof {
        assert(s@.subrange(i as int, i + m) =~= p@);
    }
    true
}

/// First character index of an occurrence of `p` in `s`, if any; equal to
/// the spec-level `find_sub`.
pub fn find_substr(s: &str, p: &str) -> (r: Option<usize>)
    ensures
        match r {
            Some(i) => i as int == find_sub(s@, p@),
            None => find_sub(s@, p@) == -1,
        },
{
    let n: usize = s.unicode_len();
    let m: usize = p.unicode_len();
    if m > n {
        return None;
    }
    if m == 0 {
        proof {
            assert(s@.subrange(0, 0) =~= p@);
            assert(is_prefix(p@, s@));
        }
        return Some(0);
    }
    let mut i: usize = 0;
    while i <= n - m
        invariant
            i <= n - m + 1,
            1 <= m <= n,
            n == s@.len(),
            m == p@.len(),
            forall|k: int| 0 <= k < i ==> !match_at(s@, p@, k),
        decreases n + 1 - i,
    {
        if match_at_exec(s, p, i) {
            proof {
                lemma_find_sub(s@, p@);
                let r = find_sub(s@, p@);
                if r == -1 {
                    assert(!match_at(s@, p@, i as int));
                    assert(false);
                }
                if r < i {
                    assert(!match_at(s@, p@, r));
                    assert(false);
                }
                if r > i {
                    assert(!match_at(s@, p@, i as int));
                    assert(false);
                }
            }
            return Some(i);
        }
        i = i + 1;
    }
    proof {
        lemma_find_sub(s@, p@);
        let r = find_sub(s@, p@);
        if r >= 0 {
            assert(match_at(s@, p@, r));
            assert(r + p@.len() <= s@.len());
            assert(r <= n - m);
            assert(false);
        }
    }
    None
}

/// Whether `p` occurs anywhere in `s`.
pub fn contains_str(s: &str, p: &str) -> (r: bool)
    ensures
        r == contains_sub(s@, p@),
{
    proof {
        lemma_find_sub(s@, p@);
    }
    find_substr(s, p).is_some()
}

/// Whether `s` starts with `p`.
pub fn starts_with_str(s: &str, p: &str) -> (r: bool)
    ensures
        r == is_prefix(p@, s@),
{
    let n: usize = s.unicode_len();
    let m: usize = p.unicode_len();
    if m > n {
        return false;
    }
    match_at_exec(s, p, 0)
}

/// Whether the two strings hold the same characters.
pub fn str_eq(a: &str, b: &str) -> (r: bool)
    ensures
        r == (a@ == b@),
{
    let n: usize = a.unicode_len();
    let m: usize = b.unicode_len();
    if n != m {
        return false;
    }
    let r = match_at_exec(a, b, 0);
    proof {
        if match_at(a@, b@, 0) {
            assert(a@.subrange(0, m as int) =~= a@);
        } else {
            if a@ == b@ {
                assert(a@.subrange(0, m as int) =~= b@);
            }
        }
    }
    r
}

/// Everything of `s` before its first occurrence of `p`, or all of `s`
/// when `p` does not occur.
pub open spec fn before_sub(s: Seq<char>, p: Seq<char>) -> Seq<char> {
    let j = find_sub(s, p);
    if 0 <= j && j + p.len() <= s.len() {
        s.take(j)
    } else {
        s
    }
}

/// The prefix of `s` before the first occurrence of `p`, as `before_sub`
/// describes.
pub fn before_substr(s: &str, p: &str) -> (r: String)
    ensures
        r@ == before_sub(s@, p@),
{
    match find_substr(s, p) {
        Some(j) => {
            proof {
                lemma_find_sub(s@, p@);
            }
            let x = s.substring_char(0, j).to_owned();
            proof {
                assert(x@ =~= s@.take(find_sub(s@, p@)));
            }
            x
        },
        None => s.to_owned(),
    }
}

/// The number of leading white-space characters of `s`.
pub open spec fn lws(s: Seq<char>) -> int
    decreases s.len(),
{
    if s.len() == 0 {
        0
    } else if ws_char(s[0]) {
        1 + lws(s.drop_first())
    } else {
        0
    }
}

/// The number of trailing white-space characters of `s`.
pub open spec fn tws(s: Seq<char>) -> int
    decreases s.len(),
{
    if s.len() == 0 {
        0
    } else if ws_char(s.last()) {
        1 + tws(s.drop_last())
    } else {
        0
    }
}

/// `s` with leading and trailing white space removed, the semantics of
/// `str::trim`.
pub open spec fn trim_of(s: Seq<char>) -> Seq<char> {
    if lws(s) == s.len() {
        Seq::empty()
    } else {
        s.subrange(lws(s), s.len() - tws(s))
    }
}

/// `lws` counts exactly the maximal white-space prefix.
pub proof fn lemma_lws(s: Seq<char>)
    ensures
        0 <= lws(s) <= s.len(),
        forall|k: int| 0 <= k < lws(s) ==> ws_char(s[k]),
        lws(s) < s.len() ==> !ws_char(s[lws(s)]),
    decreases s.len(),
{
    if s.len() == 0 {
    } else if ws_char(s[0]) {
        let sub = s.drop_first();
        lemma_lws(sub);
        assert forall|k: int| 0 <= k < lws(s) implies ws_char(s[k]) by {
            if k >= 1 {
                assert(s[k] == sub[k - 1]);
            }
        }
        if lws(s) < s.len() {
            assert(s[lws(s)] == sub[lws(sub)]);
        }
    }
}

/// `tws` counts exactly the maximal white-space suffix.
pub proof fn lemma_tws(s: Seq<char>)
    ensures
        0 <= tws(s) <= s.len(),
        forall|k: int| s.len() - tws(s) <= k < s.len() ==> ws_char(s[k]),
        tws(s) < s.len() ==> !ws_char(s[s.len() - tws(s) - 1]),
    decreases s.len(),
{
    if s.len() == 0 {
    } else if ws_char(s.last()) {
        let sub = s.drop_last();
        lemma_tws(sub);
        assert forall|k: int| s.len() - tws(s) <= k < s.len() implies ws_char(s[k]) by {
            if k < s.len() - 1 {
                assert(s[k] == sub[k]);
            }
        }
        if tws(s) < s.len() {
            assert(s[s.len() - tws(s) - 1] == sub[sub.len() - tws(sub) - 1]);
        }
    }
}

/// A maximal white-space prefix determines `lws`.
pub proof fn lemma_lws_char(s: Seq<char>, a: int)
    requires
        0 <= a <= s.len(),
        forall|k: int| 0 <= k < a ==> ws_char(s[k]),
        a < s.len() ==> !ws_char(s[a]),
    ensures
        lws(s) == a,
{
    lemma_lws(s);
    if lws(s) < a {
        assert(ws_char(s[lws(s)]));
        assert(false);
    }
    if lws(s) > a {
        assert(ws_char(s[a]));
        assert(false);
    }
}

/// A maximal white-space suffix determines `tws`.
pub proof fn lemma_tws_char(s: Seq<char>, t: int)
    requires
        0 <= t <= s.len(),
        forall|k: int| s.len() - t <= k < s.len() ==> ws_char(s[k]),
        t < s.len() ==> !ws_char(s[s.len() - t - 1]),
    ensures
        tws(s) == t,
{
    lemma_tws(s);
    if tws(s) < t {
        assert(ws_char(s[s.len() - tws(s) - 1]));
        assert(false);
    }
    if tws(s) > t {
        assert(ws_char(s[s.len() - t - 1]));
        assert(false);
    }
}

/// Removes leading and trailing white space.
pub fn trim_str(s: &str) -> (r: String)
    ensures
        r@ == trim_of(s@),
{
    let n: usize = s.unicode_len();
    let mut a: usize = 0;
    while a < n && is_ws_char(s.get_char(a))
        invariant
            a <= n,
            n == s@.len(),
            forall|k: int| 0 <= k < a ==> ws_char(s@[k]),
        decreases n - a,
    {
        a = a + 1;
    }
    proof {
        lemma_lws_char(s@, a as int);
    }
    if a == n {
        return String::new();
    }
    let mut j: usize = n;
    while j > a + 1 && is_ws_char(s.get_char(j - 1))
        invariant
            a < j <= n,
            n == s@.len(),
            forall|k: int| j <= k < n ==> ws_char(s@[k]),
        decreases j,
    {
        j = j - 1;
    }
    proof {
        assert(!ws_char(s@[j - 1]));
        lemma_tws_char(s@, n - j);
    }
    s.substring_char(a, j).to_owned()
}

/// The segments of `s` split at single space characters, empty segments
/// kept: the semantics of `str::split(" ")`.
pub open spec fn split_sp(s: Seq<char>) -> Seq<Seq<char>>
    decreases s.len(),
{
    let j = find_ch(s, ' ');
    if !(0 <= j < s.len()) {
        seq![s]
    } else {
        seq![s.subrange(0, j)] + split_sp(s.subrange(j + 1, s.len() as int))
    }
}

/// Splits `s` at single spaces, as `split_sp` describes.
pub fn split_space(s: &str) -> (out: Vec<String>)
    ensures
        views_of(out@) == split_sp(s@),
{
    let n: usize = s.unicode_len();
    let mut out: Vec<String> = Vec::new();
    let mut pos: usize = 0;
    proof {
        assert(s@.skip(0) =~= s@);
        assert(views_of(out@) + split_sp(s@) =~= split_sp(s@));
    }
    loop
        invariant
            pos <= n,
            n == s@.len(),
            split_sp(s@) == views_of(out@) + split_sp(s@.skip(pos as int)),
        decreases n - pos,
    {
        let ghost rem = s@.skip(pos as int);
        match find_char_from(s, ' ', pos) {
            Some(j) => {
                proof {
                    lemma_find_ch(rem, ' ');
                    assert(forall|k: int| 0 <= k < rem.len() ==> rem[k] == s@[pos + k]);
                    assert(rem[j - pos] == ' ');
                    let r = find_ch(rem, ' ');
                    if r == -1 {
                        assert(rem[j - pos] != ' ');
                        assert(false);
                    }
                    if r < j - pos {
                        assert(s@[pos + r] == ' ');
                        assert(false);
                    }
                    if r > j - pos {
                        assert(rem[j - pos] != ' ');
                        assert(false);
                    }
                    assert(rem.subrange(0, (j - pos) as int) =~= s@.subrange(
                        pos as int,
                        j as int,
                    ));
                    assert(rem.subrange(j - pos + 1, rem.len() as int) =~= s@.skip(j + 1));
                }
                let seg = s.substring_char(pos, j).to_owned();
                let ghost old_out = out@;
                out.push(seg);
                proof {
                    assert(views_of(out@) =~= views_of(old_out).push(
                        s@.subrange(pos as int, j as int),
                    ));
                    assert(views_of(old_out) + split_sp(rem) =~= views_of(out@) + split_sp(
                        s@.skip(j + 1),
                    ));
                }
                pos = j + 1;
            },
            None => {
                proof {
                    lemma_find_ch(rem, ' ');
                    let r = find_ch(rem, ' ');
                    if r != -1 {
                        assert(rem[r] == s@[pos + r]);
                        assert(false);
                    }
                    assert(split_sp(rem) == seq![rem]);
                    assert(rem =~= s@.subrange(pos as int, n as int));
                }
                let seg = s.substring_char(pos, n).to_owned();
                let ghost old_out = out@;
                out.push(seg);
                proof {
                    assert(views_of(out@) =~= views_of(old_out).push(rem));
                    assert(views_of(old_out) + split_sp(rem) =~= views_of(out@));
                }
                return out;
            },
        }
    }
}

/// Index of the first white-space character of `s`, or -1 when there is
/// none.
pub open spec fn find_ws(s: Seq<char>) -> int
    decreases s.len(),
{
    if s.len() == 0 {
        -1
    } else if ws_char(s[0]) {
        0
    } else {
        let r = find_ws(s.drop_first());
        if r < 0 {
            -1
        } else {
            r + 1
        }
    }
}

/// `find_ws` returns -1 exactly when `s` has no white space, and otherwise
/// the least white-space index.
pub proof fn lemma_find_ws(s: Seq<char>)
    ensures
        find_ws(s) == -1 ==> forall|k: int| 0 <= k < s.len() ==> !ws_char(s[k]),
        find_ws(s) != -1 ==> 0 <= find_ws(s) < s.len() && ws_char(s[find_ws(s)]) && (forall|
            k: int,
        | 0 <= k < find_ws(s) ==> !ws_char(s[k])),
    decreases s.len(),
{
    if s.len() == 0 {
    } else if ws_char(s[0]) {
    } else {
        let sub = s.drop_first();
        lemma_find_ws(sub);
        let r = find_ws(sub);
        if r >= 0 {
            assert(sub[r] == s[r + 1]);
            assert forall|k: int| 0 <= k < r + 1 implies !ws_char(s[k]) by {
                if k >= 1 {
                    assert(s[k] == sub[k - 1]);
                }
            }
        } else {
            assert forall|k: int| 0 <= k < s.len() implies !ws_char(s[k]) by {
                if k >= 1 {
                    assert(s[k] == sub[k - 1]);
                }
            }
        }
    }
}

/// The white-space-separated tokens of `s`, empties dropped: the semantics
/// of `str::split_whitespace`.
pub open spec fn split_ws(s: Seq<char>) -> Seq<Seq<char>>
    decreases s.len(),
{
    if s.len() == 0 {
        Seq::empty()
    } else if ws_char(s[0]) {
        split_ws(s.drop_first())
    } else {
        let j = find_ws(s);
        if !(1 <= j < s.len()) {
            seq![s]
        } else {
            seq![s.subrange(0, j)] + split_ws(s.subrange(j, s.len() as int))
        }
    }
}

/// First white-space character of `s` at or after `from`, if any.
pub fn find_ws_from(s: &str, from: usize) -> (r: Option<usize>)
    requires
        from <= s@.len(),
    ensures
        match r {
            Some(i) => from <= i < s@.len() && ws_char(s@[i as int]) && (forall|k: int|
                from <= k < i ==> !ws_char(s@[k])),
            None => forall|k: int| from <= k < s@.len() ==> !ws_char(s@[k]),
        },
{
    let n: usize = s.unicode_len();
    let mut i: usize = from;
    while i < n
        invariant
            from <= i <= n,
            n == s@.len(),
            forall|k: int| from <= k < i ==> !ws_char(s@[k]),
        decreases n - i,
    {
        if is_ws_char(s.get_char(i)) {
            return Some(i);
        }
        i = i + 1;
    }
    None
}

/// Splits `s` into its white-space-separated tokens, as `split_ws`
/// describes.
pub fn split_whitespace_str(s: &str) -> (out: Vec<String>)
    ensures
        views_of(out@) == split_ws(s@),
{
    let n: usize = s.unicode_len();
    let mut out: Vec<String> = Vec::new();
    let mut pos: usize = 0;
    proof {
        assert(s@.skip(0) =~= s@);
        assert(views_of(out@) + split_ws(s@) =~= split_ws(s@));
    }
    while pos < n
        invariant
            pos <= n,
            n == s@.len(),
            split_ws(s@) == views_of(out@) + split_ws(s@.skip(pos as int)),
        decreases n - pos,
    {
        let ghost rem = s@.skip(pos as int);
        proof {
            assert(forall|k: int| 0 <= k < rem.len() ==> rem[k] == s@[pos + k]);
        }
        if is_ws_char(s.get_char(pos)) {
            proof {
                assert(rem[0] == s@[pos as int]);
                assert(rem.drop_first() =~= s@.skip(pos + 1));
            }
            pos = pos + 1;
        } else {
            let j: usize = match find_ws_from(s, pos) {
                Some(jj) => jj,
                None => n,
            };
            proof {
                lemma_find_ws(rem);
                let r = find_ws(rem);
                assert(rem[0] == s@[pos as int]);
                if j < n {
                    // s@[j] is white space; nothing before it from pos on is
                    if r == -1 {
                        assert(rem[j - pos] != s@[j as int] || !ws_char(rem[j - pos]));
                        assert(rem[j - pos] == s@[j as int]);
                        assert(false);
                    }
                    if r < j - pos {
                        assert(ws_char(s@[pos + r]));
                        assert(false);
                    }
                    if r > j - pos {
                        assert(!ws_char(rem[j - pos]));
                        assert(false);
                    }
                    assert(1 <= r < rem.len());
                    assert(rem.subrange(0, r) =~= s@.subrange(pos as int, j as int));
                    assert(rem.subrange(r, rem.len() as int) =~= s@.skip(j as int));
                } else {
                    if r != -1 {
                        assert(ws_char(s@[pos + r]));
                        assert(false);
                    }
                    assert(split_ws(rem) == seq![rem]);
                    assert(rem =~= s@.subrange(pos as int, j as int));
                }
            }
            let seg = s.substring_char(pos, j).to_owned();
            let ghost old_out = out@;
            out.push(seg);
            proof {
                assert(views_of(out@) =~= views_of(old_out).push(
                    s@.subrange(pos as int, j as int),
                ));
                if j < n {
                    assert(views_of(old_out) + split_ws(rem) =~= views_of(out@) + split_ws(
                        s@.skip(j as int),
                    ));
                } else {
                    assert(s@.skip(j as int) =~= Seq::<char>::empty());
                    assert(views_of(old_out) + split_ws(rem) =~= views_of(out@) + split_ws(
                        s@.skip(j as int),
                    ));
                }
            }
            pos = j;
        }
    }
    proof {
        assert(s@.skip(pos as int) =~= Seq::<char>::empty());
        assert(views_of(out@) + split_ws(s@.skip(pos as int)) =~= views_of(out@));
    }
    out
}

/// The code point `u` with an ASCII capital letter mapped to its small
/// form.
pub open spec fn lower_code(u: u32) -> u32 {
    if 0x41 <= u && u <= 0x5A {
        (u + 0x20) as u32
    } else {
        u
    }
}

/// Whether `a` and `b` agree up to ASCII letter case.
pub open spec fn eq_ignore_ascii_case(a: Seq<char>, b: Seq<char>) -> bool {
    a.len() == b.len() && forall|i: int|
        0 <= i < a.len() ==> lower_code(#[trigger] a[i] as u32) == lower_code(b[i] as u32)
}

/// Compares `a` and `b` up to ASCII letter case.
pub fn eq_ignore_case(a: &str, b: &str) -> (r: bool)
    ensures
        r == eq_ignore_ascii_case(a@, b@),
{
    let n: usize = a.unicode_len();
    let m: usize = b.unicode_len();
    if n != m {
        return false;
    }
    let mut i: usize = 0;
    while i < n
        invariant
            i <= n,
            n == a@.len(),
            n == b@.len(),
            forall|k: int|
                0 <= k < i ==> lower_code(#[trigger] a@[k] as u32) == lower_code(b@[k] as u32),
        decreases n - i,
    {
        let ca = a.get_char(i) as u32;
        let cb = b.get_char(i) as u32;
        let la = if 0x41 <= ca && ca <= 0x5A {
            ca + 0x20
        } else {
            ca
        };
        let lb = if 0x41 <= cb && cb <= 0x5A {
            cb + 0x20
        } else {
            cb
        };
        if la != lb {
            return false;
        }
        i = i + 1;
    }
    true
}

/// The segments of `s` split at the character `c`, empty segments kept.
pub open spec fn split_ch(s: Seq<char>, c: char) -> Seq<Seq<char>>
    decreases s.len(),
{
    let j = find_ch(s, c);
    if !(0 <= j < s.len()) {
        seq![s]
    } else {
        seq![s.subrange(0, j)] + split_ch(s.subrange(j + 1, s.len() as int), c)
    }
}

/// Splits `s` at every `c`, as `split_ch` describes.
pub fn split_char_vec(s: &str, c: char) -> (out: Vec<String>)
    ensures
        views_of(out@) == split_ch(s@, c),
{
    let n: usize = s.unicode_len();
    let mut out: Vec<String> = Vec::new();
    let mut pos: usize = 0;
    proof {
        assert(s@.skip(0) =~= s@);
        assert(views_of(out@) + split_ch(s@, c) =~= split_ch(s@, c));
    }
    loop
        invariant
            pos <= n,
            n == s@.len(),
            split_ch(s@, c) == views_of(out@) + split_ch(s@.skip(pos as int), c),
        decreases n - pos,
    {
        let ghost rem = s@.skip(pos as int);
        match find_char_from(s, c, pos) {
            Some(j) => {
                proof {
                    lemma_find_ch(rem, c);
                    assert(forall|k: int| 0 <= k < rem.len() ==> rem[k] == s@[pos + k]);
                    assert(rem[j - pos] == c);
                    let r = find_ch(rem, c);
                    if r == -1 {
                        assert(rem[j - pos] != c);
                        assert(false);
                    }
                    if r < j - pos {
                        assert(s@[pos + r] == c);
                        assert(false);
                    }
                    if r > j - pos {
                        assert(rem[j - pos] != c);
                        assert(false);
                    }
                    assert(rem.subrange(0, (j - pos) as int) =~= s@.subrange(
                        pos as int,
                        j as int,
                    ));
                    assert(rem.subrange(j - pos + 1, rem.len() as int) =~= s@.skip(j + 1));
                }
                let seg = s.substring_char(pos, j).to_owned();
                let ghost old_out = out@;
                out.push(seg);
                proof {
                    assert(views_of(out@) =~= views_of(old_out).push(
                        s@.subrange(pos as int, j as int),
                    ));
                    assert(views_of(old_out) + split_ch(rem, c) =~= views_of(out@) + split_ch(
                        s@.skip(j + 1),
                        c,
                    ));
                }
                pos = j + 1;
            },
            None => {
                proof {
                    lemma_find_ch(rem, c);
                    let r = find_ch(rem, c);
                    if r != -1 {
                        assert(rem[r] == s@[pos + r]);
                        assert(false);
                    }
                    assert(split_ch(rem, c) == seq![rem]);
                    assert(rem =~= s@.subrange(pos as int, n as int));
                }
                let seg = s.substring_char(pos, n).to_owned();
                let ghost old_out = out@;
                out.push(seg);
                proof {
                    assert(views_of(out@) =~= views_of(old_out).push(rem));
                    assert(views_of(old_out) + split_ch(rem, c) =~= views_of(out@));
                }
                return out;
            },
        }
    }
}

/// Lexicographic order on character sequences by code point, the order of
/// byte-wise `str` comparison.
pub open spec fn lex_le(a: Seq<char>, b: Seq<char>) -> bool
    decreases a.len(),
{
    if a.len() == 0 {
        true
    } else if b.len() == 0 {
        false
    } else if (a[0] as u32) < (b[0] as u32) {
        true
    } else if (a[0] as u32) > (b[0] as u32) {
        false
    } else {
        lex_le(a.drop_first(), b.drop_first())
    }
}

/// `lex_le` is total.
pub proof fn lemma_lex_total(a: Seq<char>, b: Seq<char>)
    ensures
        lex_le(a, b) || lex_le(b, a),
    decreases a.len(),
{
    if a.len() == 0 {
    } else if b.len() == 0 {
    } else if (a[0] as u32) == (b[0] as u32) {
        lemma_lex_total(a.drop_first(), b.drop_first());
    }
}

/// `lex_le` is transitive.
pub proof fn lemma_lex_trans(a: Seq<char>, b: Seq<char>, c: Seq<char>)
    requires
        lex_le(a, b),
        lex_le(b, c),
    ensures
        lex_le(a, c),
    decreases a.len(),
{
    if a.len() == 0 {
    } else if b.len() == 0 {
    } else if c.len() == 0 {
    } else if (a[0] as u32) == (b[0] as u32) && (b[0] as u32) == (c[0] as u32) {
        lemma_lex_trans(a.drop_first(), b.drop_first(), c.drop_first());
    }
}

/// Compares the suffixes of `a` and `b` from character `i` on.
fn lex_le_from(a: &str, b: &str, i: usize) -> (r: bool)
    requires
        i <= a@.len(),
        i <= b@.len(),
    ensures
        r == lex_le(a@.skip(i as int), b@.skip(i as int)),
    decreases a@.len() - i,
{
    let an: usize = a.unicode_len();
    let bn: usize = b.unicode_len();
    if i == an {
        proof {
            assert(a@.skip(i as int).len() == 0);
        }
        true
    } else if i == bn {
        proof {
            assert(b@.skip(i as int).len() == 0);
            assert(a@.skip(i as int).len() > 0);
        }
        false
    } else {
        let ca = a.get_char(i) as u32;
        let cb = b.get_char(i) as u32;
        proof {
            assert(a@.skip(i as int)[0] == a@[i as int]);
            assert(b@.skip(i as int)[0] == b@[i as int]);
        }
        if ca < cb {
            true
        } else if ca > cb {
            false
        } else {
            proof {
                assert(a@.skip(i as int).drop_first() =~= a@.skip(i + 1));
                assert(b@.skip(i as int).drop_first() =~= b@.skip(i + 1));
            }
            lex_le_from(a, b, i + 1)
        }
    }
}

/// Whether `a` comes no later than `b` in lexicographic order.
pub fn lex_le_str(a: &str, b: &str) -> (r: bool)
    ensures
        r == lex_le(a@, b@),
{
    let r = lex_le_from(a, b, 0);
    proof {
        assert(a@.skip(0) =~= a@);
        assert(b@.skip(0) =~= b@);
    }
    r
}

/// `n` copies of the character `c`.
pub open spec fn repeat_ch(c: char, n: int) -> Seq<char> {
    Seq::new((if n < 0 { 0int } else { n }) as nat, |i: int| c)
}

/// A string of `n` spaces.
pub fn repeat_spaces(n: usize) -> (r: String)
    ensures
        r@ == repeat_ch(' ', n as int),
{
    let mut out = String::new();
    let mut i: usize = 0;
    proof {
        assert(out@ =~= repeat_ch(' ', 0));
    }
    while i < n
        invariant
            i <= n,
            out@ == repeat_ch(' ', i as int),
        decreases n - i,
    {
        out.append(" ");
        proof {
            reveal_strlit(" ");
            assert(" "@ =~= seq![' ']);
            assert(out@ =~= repeat_ch(' ', i + 1));
        }
        i = i + 1;
    }
    out
}

/// `s` with every occurrence of `from` replaced by `to`, scanned left to
/// right without overlap: the semantics of `str::replace` for a non-empty
/// pattern, and the identity for an empty one.
pub open spec fn replace_seq(s: Seq<char>, from: Seq<char>, to: Seq<char>) -> Seq<char>
    decreases s.len(),
{
    if from.len() == 0 {
        s
    } else {
        let j = find_sub(s, from);
        if !(0 <= j && j + from.len() <= s.len()) {
            s
        } else {
            s.subrange(0, j) + to + replace_seq(
                s.subrange(j + from.len(), s.len() as int),
                from,
                to,
            )
        }
    }
}

/// Replaces every occurrence of `from` in `s` by `to`, as `replace_seq`
/// describes.
pub fn replace_all(s: &str, from: &str, to: &str) -> (r: String)
    ensures
        r@ == replace_seq(s@, from@, to@),
{
    let n: usize = s.unicode_len();
    let m: usize = from.unicode_len();
    if m == 0 {
        return s.to_owned();
    }
    let mut out = String::new();
    let mut pos: usize = 0;
    proof {
        assert(s@.skip(0) =~= s@);
        assert(out@ + replace_seq(s@, from@, to@) =~= replace_seq(s@, from@, to@));
    }
    loop
        invariant
            pos <= n,
            n == s@.len(),
            m == from@.len(),
            1 <= m,
            replace_seq(s@, from@, to@) == out@ + replace_seq(
                s@.skip(pos as int),
                from@,
                to@,
            ),
        decreases n - pos,
    {
        let ghost rem = s@.skip(pos as int);
        let rem_str = s.substring_char(pos, n);
        proof {
            assert(rem_str@ =~= rem);
        }
        match find_substr(rem_str, from) {
            Some(jr) => {
                proof {
                    lemma_find_sub(rem, from@);
                    assert(match_at(rem, from@, jr as int));
                    assert(rem.subrange(0, jr as int) =~= s@.subrange(pos as int, pos + jr));
                    assert(rem.subrange(jr + m, rem.len() as int) =~= s@.skip(
                        pos + jr + m,
                    ));
                }
                out.append(s.substring_char(pos, pos + jr));
                out.append(to);
                proof {
                    assert(replace_seq(rem, from@, to@) == rem.subrange(0, jr as int) + to@
                        + replace_seq(rem.subrange(jr + m, rem.len() as int), from@, to@));
                }
                pos = pos + jr + m;
            },
            None => {
                proof {
                    assert(replace_seq(rem, from@, to@) == rem);
                    assert(rem =~= s@.subrange(pos as int, n as int));
                }
                out.append(s.substring_char(pos, n));
                return out;
            },
        }
    }
}

/// The rest of `s` after the prefix `p`, when `s` starts with `p`.
pub fn strip_prefix_str(s: &str, p: &str) -> (r: Option<String>)
    ensures
        match r {
            Some(x) => is_prefix(p@, s@) && x@ == s@.skip(p@.len() as int),
            None => !is_prefix(p@, s@),
        },
{
    if starts_with_str(s, p) {
        let n: usize = s.unicode_len();
        let m: usize = p.unicode_len();
        let rest = s.substring_char(m, n).to_owned();
        proof {
            assert(rest@ =~= s@.skip(p@.len() as int));
        }
        Some(rest)
    } else {
        None
    }
}

/// The decimal digit character for `d`.
pub open spec fn digit_char(d: int) -> char {
    if d == 0 {
        '0'
    } else if d == 1 {
        '1'
    } else if d == 2 {
        '2'
    } else if d == 3 {
        '3'
    } else if d == 4 {
        '4'
    } else if d == 5 {
        '5'
    } else if d == 6 {
        '6'
    } else if d == 7 {
        '7'
    } else if d == 8 {
        '8'
    } else {
        '9'
    }
}

/// The decimal digit sequence of `n`, without leading zeros.
pub open spec fn dec_digits(n: int) -> Seq<char>
    decreases n,
{
    if n < 0 {
        Seq::empty()
    } else if n < 10 {
        seq![digit_char(n)]
    } else {
        dec_digits(n / 10) + seq![digit_char(n % 10)]
    }
}

/// The one-character string for the digit `d`.
fn digit_str(d: usize) -> (r: &'static str)
    requires
        d < 10,
    ensures
        r@ == seq![digit_char(d as int)],
{
    proof {
        reveal_strlit("0");
        reveal_strlit("1");
        reveal_strlit("2");
        reveal_strlit("3");
        reveal_strlit("4");
        reveal_strlit("5");
        reveal_strlit("6");
        reveal_strlit("7");
        reveal_strlit("8");
        reveal_strlit("9");
        assert("0"@ =~= seq!['0']);
        assert("1"@ =~= seq!['1']);
        assert("2"@ =~= seq!['2']);
        assert("3"@ =~= seq!['3']);
        assert("4"@ =~= seq!['4']);
        assert("5"@ =~= seq!['5']);
        assert("6"@ =~= seq!['6']);
        assert("7"@ =~= seq!['7']);
        assert("8"@ =~= seq!['8']);
        assert("9"@ =~= seq!['9']);
    }
    match d {
        0 => "0",
        1 => "1",
        2 => "2",
        3 => "3",
        4 => "4",
        5 => "5",
        6 => "6",
        7 => "7",
        8 => "8",
        _ => "9",
    }
}

/// Writes `n` in decimal.
pub fn usize_to_string(n: usize) -> (r: String)
    ensures
        r@ == dec_digits(n as int),
    decreases n,
{
    if n < 10 {
        digit_str(n).to_owned()
    } else {
        let q: usize = n / 10;
        let d: usize = n % 10;
        let mut out = usize_to_string(q);
        out.append(digit_str(d));
        proof {
            assert(out@ =~= dec_digits(n as int));
        }
        out
    }
}

/// Whether `c` is a decimal digit.
pub open spec fn is_digit(c: char) -> bool {
    0x30 <= (c as u32) && (c as u32) <= 0x39
}

/// The value of the digit `c`.
pub open spec fn digit_val(c: char) -> int {
    (c as u32) - 0x30
}

/// Whether every character of `s` is a decimal digit.
pub open spec fn all_digits(s: Seq<char>) -> bool {
    forall|k: int| 0 <= k < s.len() ==> is_digit(#[trigger] s[k])
}

/// The value of `s` read as a decimal numeral.
pub open spec fn dec_val(s: Seq<char>) -> int
    decreases s.len(),
{
    if s.len() == 0 {
        0
    } else {
        dec_val(s.drop_last()) * 10 + digit_val(s.last())
    }
}

/// A numeral's value is non-negative and grows along its prefixes.
pub proof fn lemma_dec_val_prefix(s: Seq<char>, k: int)
    requires
        all_digits(s),
        0 <= k <= s.len(),
    ensures
        dec_val(s) >= 0,
        dec_val(s.take(k)) <= dec_val(s),
    decreases s.len(),
{
    if s.len() == 0 {
        assert(s.take(k) =~= s);
    } else {
        let front = s.drop_last();
        assert(all_digits(front));
        lemma_dec_val_prefix(front, if k <= front.len() {
            k
        } else {
            front.len() as int
        });
        assert(is_digit(s.last()));
        if k <= front.len() {
            assert(s.take(k) =~= front.take(k));
        } else {
            assert(s.take(k) =~= s);
        }
    }
}

/// Reads `s` as a decimal numeral, failing on empty input, a non-digit,
/// or a value beyond `usize`.
pub fn parse_usize(s: &str) -> (r: Option<usize>)
    ensures
        match r {
            Some(v) => s@.len() > 0 && all_digits(s@) && v as int == dec_val(s@),
            None => s@.len() == 0 || !all_digits(s@) || dec_val(s@) > usize::MAX,
        },
{
    let n: usize = s.unicode_len();
    if n == 0 {
        return None;
    }
    let mut acc: usize = 0;
    let mut i: usize = 0;
    proof {
        assert(s@.take(0) =~= Seq::<char>::empty());
    }
    while i < n
        invariant
            i <= n,
            n == s@.len(),
            all_digits(s@.take(i as int)),
            acc as int == dec_val(s@.take(i as int)),
        decreases n - i,
    {
        let u = s.get_char(i) as u32;
        if u < 0x30 || u > 0x39 {
            proof {
                assert(!is_digit(s@[i as int]));
            }
            return None;
        }
        let d: usize = (u - 0x30) as usize;
        if acc > (usize::MAX - d) / 10 {
            proof {
                assert(all_digits(s@.take(i + 1))) by {
                    assert(forall|k: int| 0 <= k < i ==> #[trigger] s@.take(i + 1)[k]
                        == s@.take(i as int)[k]);
                    assert(s@.take(i + 1)[i as int] == s@[i as int]);
                }
                assert(s@.take(i + 1).drop_last() =~= s@.take(i as int));
                assert(dec_val(s@.take(i + 1)) == (acc as int) * 10 + d);
                assert((acc as int) * 10 + d > usize::MAX) by (nonlinear_arith)
                    requires
                        acc > (usize::MAX - d) / 10,
                        0 <= d <= 9,
                        acc >= 0,
                ;
                if all_digits(s@) {
                    lemma_dec_val_prefix(s@, i + 1);
                }
            }
            return None;
        }
        let ghost old_acc = acc as int;
        acc = acc * 10 + d;
        proof {
            assert(s@.take(i + 1).drop_last() =~= s@.take(i as int));
            assert(s@.take(i + 1).last() == s@[i as int]);
            assert(all_digits(s@.take(i + 1))) by {
                assert(forall|k: int| 0 <= k < i ==> #[trigger] s@.take(i + 1)[k] == s@.take(
                    i as int,
                )[k]);
                assert(s@.take(i + 1)[i as int] == s@[i as int]);
            }
            assert(acc as int == dec_val(s@.take(i + 1)));
        }
        i = i + 1;
    }
    proof {
        assert(s@.take(n as int) =~= s@);
    }
    Some(acc)
}

/// Joins `lines[start..=end_incl]` with newlines.
pub fn join_range(lines: &Vec<String>, start: usize, end_incl: usize) -> (r: String)
    requires
        start <= end_incl < lines@.len(),
    ensures
        r@ == join_nl(views_of(lines@).subrange(start as int, end_incl + 1)),
{
    let n: usize = lines.len();
    let mut out: String = lines[start].clone();
    proof {
        assert(views_of(lines@).subrange(start as int, start + 1) =~= Seq::empty().push(
            lines@[start as int]@,
        ));
        lemma_join_push(Seq::<Seq<char>>::empty(), lines@[start as int]@);
    }
    let mut k: usize = start + 1;
    while k <= end_incl
        invariant
            start < k <= end_incl + 1,
            end_incl < n,
            n == lines@.len(),
            out@ == join_nl(views_of(lines@).subrange(start as int, k as int)),
        decreases end_incl + 1 - k,
    {
        out.append("\n");
        out.append(lines[k].as_str());
        proof {
            reveal_strlit("\n");
            let pre = views_of(lines@).subrange(start as int, k as int);
            assert(views_of(lines@).subrange(start as int, k + 1) =~= pre.push(
                lines@[k as int]@,
            ));
            lemma_join_push(pre, lines@[k as int]@);
            assert(pre.len() > 0);
            assert(out@ =~= join_nl(pre) + seq!['\n'] + lines@[k as int]@);
        }
        k = k + 1;
    }
    out
}

/// Joins all of `v` with newlines; empty input gives the empty string.
pub fn join_all_nl(v: &Vec<String>) -> (r: String)
    ensures
        r@ == join_nl(views_of(v@)),
{
    let n: usize = v.len();
    if n == 0 {
        proof {
            assert(views_of(v@).len() == 0);
        }
        String::new()
    } else {
        let r = join_range(v, 0, n - 1);
        proof {
            assert(views_of(v@).subrange(0, n as int) =~= views_of(v@));
        }
        r
    }
}

} // verus!
