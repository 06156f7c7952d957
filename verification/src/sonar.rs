//! The scanning engine: a line-oriented, indentation-aware scanner that
//! locates top-level declarations in source text by open/close token
//! matching, and the record type it produces.

use vstd::prelude::*;
use vstd::string::*;
use vstd::utf8::encode_utf8;

use crate::strutil::{
    before_ch, before_char, before_sub, before_substr, contains_str, contains_sub, find_ch,
    find_char, is_prefix, is_ws_char, join_nl,
    join_range, lemma_lex_total, lemma_lex_trans, lex_le, lex_le_str, lines_of, repeat_ch,
    repeat_spaces, split_lines, split_sp, split_space,
    starts_with_str, str_eq, trim_of, trim_str, views_of, ws_char,
};

verus! {

/// The kinds of declaration the scanner can look for.  One scan targets
/// exactly one kind.
#[derive(Clone, Copy, Debug, PartialEq, Eq, Structural)]
pub enum SonarResultType {
    Function,
    Struct,
    Module,
    If,
    Validation,
    ContextAccounts,
}

/// One of the three token sets that drive a scan for a given kind: the
/// opening tokens, the tokens that must co-occur on the opening line, and
/// the closing tokens.
#[derive(Clone, Copy, Debug, PartialEq, Eq, Structural)]
pub enum SonarFilter {
    Open(SonarResultType),
    EndOfOpen(SonarResultType),
    Closure(SonarResultType),
}

/// Why a scan failed.  A failure aborts the whole pass: no partial results
/// are returned.
#[derive(Clone, Copy, Debug, PartialEq, Eq, Structural)]
pub enum ScanError {
    /// An opening line had no matching closing line before the end of the
    /// content.
    UnbalancedDeclaration,
    /// An opening line of a named kind had too few tokens to carry a name.
    MalformedSignature,
    /// The substring given to a region scan occurs on no line of the
    /// content.
    RegionMarkerNotFound,
}

/// The opening tokens of `t`.
pub open spec fn open_tokens(t: SonarResultType) -> Seq<Seq<char>> {
    match t {
        SonarResultType::Function => seq!["fn"@, "pub fn"@],
        SonarResultType::Struct => seq!["struct"@, "pub struct"@],
        SonarResultType::Module => seq!["mod"@, "pub mod"@],
        SonarResultType::If => seq!["if"@],
        SonarResultType::Validation => seq!["require"@, "valid"@, "assert"@, "verify"@],
        SonarResultType::ContextAccounts => seq!["#[account"@],
    }
}

/// The tokens that must also occur on an opening line of `t`.
pub open spec fn confirm_tokens(t: SonarResultType) -> Seq<Seq<char>> {
    match t {
        SonarResultType::Function => seq!["("@],
        SonarResultType::Struct => seq!["{"@],
        SonarResultType::Module => seq!["{"@],
        SonarResultType::If => seq!["{"@],
        SonarResultType::Validation => seq!["("@],
        SonarResultType::ContextAccounts => seq!["("@],
    }
}

/// The closing tokens of `t`.
pub open spec fn close_tokens(t: SonarResultType) -> Seq<Seq<char>> {
    match t {
        SonarResultType::Function => seq!["}"@],
        SonarResultType::Struct => seq!["}"@],
        SonarResultType::Module => seq!["}"@],
        SonarResultType::If => seq!["}"@],
        SonarResultType::Validation => seq![");"@, ")?;"@],
        SonarResultType::ContextAccounts => seq!["pub"@],
    }
}

/// The token set selected by a filter.
pub open spec fn filter_tokens(f: SonarFilter) -> Seq<Seq<char>> {
    match f {
        SonarFilter::Open(t) => open_tokens(t),
        SonarFilter::EndOfOpen(t) => confirm_tokens(t),
        SonarFilter::Closure(t) => close_tokens(t),
    }
}

impl SonarFilter {
    /// The token set this filter stands for, fixed per kind.
    pub fn get_filters(&self) -> (r: Vec<&'static str>)
        ensures
            r@.len() == filter_tokens(*self).len(),
            forall|i: int| 0 <= i < r@.len() ==> (#[trigger] r@[i])@ == filter_tokens(*self)[i],
    {
        let mut v: Vec<&'static str> = Vec::new();
        match self {
            SonarFilter::Open(SonarResultType::Function) => {
                v.push("fn");
                v.push("pub fn");
            },
            SonarFilter::Open(SonarResultType::Struct) => {
                v.push("struct");
                v.push("pub struct");
            },
            SonarFilter::Open(SonarResultType::Module) => {
                v.push("mod");
                v.push("pub mod");
            },
            SonarFilter::Open(SonarResultType::If) => {
                v.push("if");
            },
            SonarFilter::Open(SonarResultType::Validation) => {
                v.push("require");
                v.push("valid");
                v.push("assert");
                v.push("verify");
            },
            SonarFilter::Open(SonarResultType::ContextAccounts) => {
                v.push("#[account");
            },
            SonarFilter::EndOfOpen(SonarResultType::Function) => {
                v.push("(");
            },
            SonarFilter::EndOfOpen(SonarResultType::Struct) => {
                v.push("{");
            },
            SonarFilter::EndOfOpen(SonarResultType::Module) => {
                v.push("{");
            },
            SonarFilter::EndOfOpen(SonarResultType::If) => {
                v.push("{");
            },
            SonarFilter::EndOfOpen(SonarResultType::Validation) => {
                v.push("(");
            },
            SonarFilter::EndOfOpen(SonarResultType::ContextAccounts) => {
                v.push("(");
            },
            SonarFilter::Closure(SonarResultType::Function) => {
                v.push("}");
            },
            SonarFilter::Closure(SonarResultType::Struct) => {
                v.push("}");
            },
            SonarFilter::Closure(SonarResultType::Module) => {
                v.push("}");
            },
            SonarFilter::Closure(SonarResultType::If) => {
                v.push("}");
            },
            SonarFilter::Closure(SonarResultType::Validation) => {
                v.push(");");
                v.push(")?;");
            },
            SonarFilter::Closure(SonarResultType::ContextAccounts) => {
                v.push("pub");
            },
        }
        v
    }
}

/// Whether any token of `toks` occurs in `line`.
pub open spec fn contains_any(line: Seq<char>, toks: Seq<Seq<char>>) -> bool {
    exists|i: int| 0 <= i < toks.len() && contains_sub(line, #[trigger] toks[i])
}

/// Whether `line` starts with some token of `toks`.
pub open spec fn starts_any(line: Seq<char>, toks: Seq<Seq<char>>) -> bool {
    exists|i: int| 0 <= i < toks.len() && is_prefix(#[trigger] toks[i], line)
}

/// A line is a candidate opening for `t` when it contains an opening token
/// and a confirmation token, and its trimmed text starts with an opening
/// token.
pub open spec fn is_open_line(line: Seq<char>, t: SonarResultType) -> bool {
    contains_any(line, open_tokens(t)) && contains_any(line, confirm_tokens(t)) && starts_any(
        trim_of(line),
        open_tokens(t),
    )
}

/// The number of leading white-space characters of `line`, a newline not
/// counted.
pub open spec fn indent_prefix_len(line: Seq<char>) -> int
    decreases line.len(),
{
    if line.len() == 0 {
        0
    } else if ws_char(line[0]) && line[0] != '\n' {
        1 + indent_prefix_len(line.drop_first())
    } else {
        0
    }
}

/// The width of the indentation of `line`: the UTF-8 byte length of its
/// leading white space.
pub open spec fn indent_of(line: Seq<char>) -> int {
    (encode_utf8(line.take(indent_prefix_len(line))).len() as usize) as int
}

/// A maximal indentation prefix determines `indent_prefix_len`.
proof fn lemma_indent_prefix_char(s: Seq<char>, a: int)
    requires
        0 <= a <= s.len(),
        forall|k: int| 0 <= k < a ==> ws_char(s[k]) && s[k] != '\n',
        a < s.len() ==> !(ws_char(s[a]) && s[a] != '\n'),
    ensures
        indent_prefix_len(s) == a,
    decreases s.len(),
{
    if s.len() == 0 {
    } else if ws_char(s[0]) && s[0] != '\n' {
        let sub = s.drop_first();
        assert(a >= 1);
        assert(forall|k: int| 0 <= k < a - 1 ==> sub[k] == s[k + 1]);
        if a - 1 < sub.len() {
            assert(sub[a - 1] == s[a]);
        }
        lemma_indent_prefix_char(sub, a - 1);
    } else {
        assert(a == 0);
    }
}

/// The candidate closing lines for kind `t` at indentation `w`: each
/// closing token reproduced behind `w` spaces.
pub open spec fn close_candidates(t: SonarResultType, w: int) -> Seq<Seq<char>> {
    close_tokens(t).map_values(|tok: Seq<char>| repeat_ch(' ', w) + tok)
}

/// Whether `line` closes a declaration of kind `t` opened at indentation
/// `w`.  For `ContextAccounts` the candidate need only occur in the line;
/// for every other kind the line must equal it.
pub open spec fn is_close_line(line: Seq<char>, t: SonarResultType, w: int) -> bool {
    if t == SonarResultType::ContextAccounts {
        exists|i: int|
            0 <= i < close_candidates(t, w).len() && contains_sub(
                line,
                #[trigger] close_candidates(t, w)[i],
            )
    } else {
        exists|i: int|
            0 <= i < close_candidates(t, w).len() && line == #[trigger] close_candidates(t, w)[i]
    }
}

/// Index of the first closing line for (`t`, `w`) at or after `from`, or -1
/// when there is none.
pub open spec fn find_close_from(
    lines: Seq<Seq<char>>,
    t: SonarResultType,
    w: int,
    from: int,
) -> int
    decreases lines.len() - from,
{
    if !(0 <= from < lines.len()) {
        -1
    } else if is_close_line(lines[from], t, w) {
        from
    } else {
        find_close_from(lines, t, w, from + 1)
    }
}

/// `find_close_from` finds the least closing line at or after `from`, or -1
/// when there is none.
pub proof fn lemma_find_close_from(lines: Seq<Seq<char>>, t: SonarResultType, w: int, from: int)
    requires
        0 <= from,
    ensures
        find_close_from(lines, t, w, from) == -1 ==> forall|k: int|
            from <= k < lines.len() ==> !is_close_line(#[trigger] lines[k], t, w),
        find_close_from(lines, t, w, from) != -1 ==> {
            let f = find_close_from(lines, t, w, from);
            from <= f < lines.len() && is_close_line(lines[f], t, w) && (forall|k: int|
                from <= k < f ==> !is_close_line(#[trigger] lines[k], t, w))
        },
    decreases lines.len() - from,
{
    if !(0 <= from < lines.len()) {
    } else if is_close_line(lines[from], t, w) {
    } else {
        lemma_find_close_from(lines, t, w, from + 1);
    }
}

/// The closing line index for a declaration of kind `t` opened at line `i`
/// with indentation `w`, where `inside` is the matching context of the
/// opening line itself: `i` when a validation call closes on its own line,
/// otherwise the first closing line after `i`, and -1 when there is none.
pub open spec fn end_line_for(
    lines: Seq<Seq<char>>,
    t: SonarResultType,
    i: int,
    w: int,
    inside: Seq<char>,
) -> int {
    if t == SonarResultType::Validation && contains_any(inside, close_tokens(t)) {
        i
    } else {
        find_close_from(lines, t, w, i + 1)
    }
}

/// Index of the first line at or after `from` that contains `marker`, or -1
/// when there is none.
pub open spec fn find_line_with(lines: Seq<Seq<char>>, marker: Seq<char>, from: int) -> int
    decreases lines.len() - from,
{
    if !(0 <= from < lines.len()) {
        -1
    } else if contains_sub(lines[from], marker) {
        from
    } else {
        find_line_with(lines, marker, from + 1)
    }
}

/// `find_line_with` finds the least line containing `marker`, or -1.
pub proof fn lemma_find_line_with(lines: Seq<Seq<char>>, marker: Seq<char>, from: int)
    requires
        0 <= from,
    ensures
        find_line_with(lines, marker, from) == -1 ==> forall|k: int|
            from <= k < lines.len() ==> !contains_sub(#[trigger] lines[k], marker),
        find_line_with(lines, marker, from) != -1 ==> {
            let f = find_line_with(lines, marker, from);
            from <= f < lines.len() && contains_sub(lines[f], marker) && (forall|k: int|
                from <= k < f ==> !contains_sub(#[trigger] lines[k], marker))
        },
    decreases lines.len() - from,
{
    if !(0 <= from < lines.len()) {
    } else if contains_sub(lines[from], marker) {
    } else {
        lemma_find_line_with(lines, marker, from + 1);
    }
}

/// A declaration found by a scan.
#[derive(Clone, Debug)]
pub struct SonarResult {
    pub name: String,
    pub content: String,
    pub trailing_whitespaces: usize,
    pub result_type: SonarResultType,
    pub start_line_index: usize,
    pub end_line_index: usize,
    pub is_public: bool,
}

/// The mathematical value of a scanner result.
#[verifier::ext_equal]
pub ghost struct ResV {
    pub name: Seq<char>,
    pub content: Seq<char>,
    pub trailing: int,
    pub kind: SonarResultType,
    pub start: int,
    pub end: int,
    pub is_public: bool,
}

impl View for SonarResult {
    type V = ResV;

    open spec fn view(&self) -> ResV {
        ResV {
            name: self.name@,
            content: self.content@,
            trailing: self.trailing_whitespaces as int,
            kind: self.result_type,
            start: self.start_line_index as int,
            end: self.end_line_index as int,
            is_public: self.is_public,
        }
    }
}

/// The views of a sequence of results.
pub open spec fn views_of_results(v: Seq<SonarResult>) -> Seq<ResV> {
    v.map_values(|r: SonarResult| r@)
}

/// The kinds whose opening line carries a name and a visibility marker.
pub open spec fn named_kind(t: SonarResultType) -> bool {
    t == SonarResultType::Function || t == SonarResultType::Struct || t
        == SonarResultType::Module
}

/// The space-separated tokens of the trimmed opening line.
pub open spec fn open_line_tokens(line: Seq<char>) -> Seq<Seq<char>> {
    split_sp(trim_of(line))
}

/// Whether the first token of the opening line is the visibility marker.
pub open spec fn line_is_public(line: Seq<char>) -> bool {
    open_line_tokens(line)[0] == "pub"@
}

/// The index of the name token on the opening line: the token after the
/// keyword, which follows the visibility marker if one is present.
pub open spec fn name_token_index(line: Seq<char>) -> int {
    if line_is_public(line) {
        2
    } else {
        1
    }
}

/// Whether the opening line has enough tokens to carry a name.
pub open spec fn has_name_tokens(line: Seq<char>) -> bool {
    open_line_tokens(line).len() > name_token_index(line)
}

/// The name on the opening line: the name token, stripped of any
/// generic-parameter suffix and any parameter-list suffix.
pub open spec fn name_of_line(line: Seq<char>) -> Seq<char> {
    before_ch(before_ch(open_line_tokens(line)[name_token_index(line)], '<'), '(')
}

impl SonarResult {
    /// Builds a result record from its parts.
    pub fn new(
        name: &str,
        content: &str,
        trailing_whitespaces: usize,
        result_type: SonarResultType,
        start_line_index: usize,
        end_line_index: usize,
        is_public: bool,
    ) -> (r: Self)
        ensures
            r.name@ == name@,
            r.content@ == content@,
            r.trailing_whitespaces == trailing_whitespaces,
            r.result_type == result_type,
            r.start_line_index == start_line_index,
            r.end_line_index == end_line_index,
            r.is_public == is_public,
    {
        SonarResult {
            name: name.to_owned(),
            content: content.to_owned(),
            trailing_whitespaces,
            result_type,
            start_line_index,
            end_line_index,
            is_public,
        }
    }

    /// Fills in the name and visibility from the opening line.  For a named
    /// kind the line is tokenized at spaces after trimming; the first token
    /// decides visibility and the following token carries the name.  Other
    /// kinds get the `NO_NAME` sentinel and are never public.  Fails with
    /// `MalformedSignature` when a named kind's line has too few tokens.
    pub fn get_name_and_is_public(&mut self, first_line: &str) -> (res: Result<(), ScanError>)
        ensures
            final(self).content == old(self).content,
            final(self).trailing_whitespaces == old(self).trailing_whitespaces,
            final(self).result_type == old(self).result_type,
            final(self).start_line_index == old(self).start_line_index,
            final(self).end_line_index == old(self).end_line_index,
            match res {
                Ok(()) => if named_kind(old(self).result_type) {
                    has_name_tokens(first_line@) && final(self).name@ == name_of_line(
                        first_line@,
                    ) && final(self).is_public == line_is_public(first_line@)
                } else {
                    final(self).name@ == "NO_NAME"@ && final(self).is_public == false
                },
                Err(e) => e == ScanError::MalformedSignature && named_kind(
                    old(self).result_type,
                ) && !has_name_tokens(first_line@) && *final(self) == *old(self),
            },
    {
        if self.result_type == SonarResultType::Function || self.result_type
            == SonarResultType::Struct || self.result_type == SonarResultType::Module {
            let trimmed = trim_str(first_line);
            let tokens = split_space(trimmed.as_str());
            proof {
                assert(views_of(tokens@) == open_line_tokens(first_line@));
                assert(split_sp(trimmed@).len() >= 1);
                assert(views_of(tokens@)[0] == tokens@[0]@);
            }
            let is_public = str_eq(tokens[0].as_str(), "pub");
            let idx: usize = if is_public {
                2
            } else {
                1
            };
            proof {
                assert(idx as int == name_token_index(first_line@));
            }
            if tokens.len() <= idx {
                return Err(ScanError::MalformedSignature);
            }
            proof {
                assert(views_of(tokens@)[idx as int] == tokens@[idx as int]@);
            }
            let c1 = before_char(tokens[idx].as_str(), '<');
            let c2 = before_char(c1.as_str(), '(');
            self.name = c2;
            self.is_public = is_public;
            Ok(())
        } else {
            self.name = String::from_str("NO_NAME");
            self.is_public = false;
            Ok(())
        }
    }
}

/// The result the scanner emits for a declaration of kind `t` opened at
/// line `i` and closed at line `j`.
pub open spec fn result_at(lines: Seq<Seq<char>>, t: SonarResultType, i: int, j: int) -> ResV {
    ResV {
        name: if named_kind(t) {
            name_of_line(lines[i])
        } else {
            "NO_NAME"@
        },
        content: join_nl(lines.subrange(i, j + 1)),
        trailing: indent_of(lines[i]),
        kind: t,
        start: i,
        end: j,
        is_public: if named_kind(t) {
            line_is_public(lines[i])
        } else {
            false
        },
    }
}

/// The scan of `lines` for kind `t` from line `i` on, in line order.  Every
/// candidate opening line yields one result; an opening with no closing
/// line aborts with `UnbalancedDeclaration`, and a named opening with too
/// few tokens with `MalformedSignature`.
pub open spec fn scan_from(lines: Seq<Seq<char>>, t: SonarResultType, i: int) -> Result<
    Seq<ResV>,
    ScanError,
>
    decreases lines.len() - i,
{
    if !(0 <= i < lines.len()) {
        Ok(Seq::empty())
    } else if !is_open_line(lines[i], t) {
        scan_from(lines, t, i + 1)
    } else {
        let w = indent_of(lines[i]);
        let j = end_line_for(lines, t, i, w, lines[i]);
        if j < 0 {
            Err(ScanError::UnbalancedDeclaration)
        } else if named_kind(t) && !has_name_tokens(lines[i]) {
            Err(ScanError::MalformedSignature)
        } else {
            match scan_from(lines, t, i + 1) {
                Ok(rest) => Ok(seq![result_at(lines, t, i, j)] + rest),
                Err(e) => Err(e),
            }
        }
    }
}

/// `r` inserted into `s` after every entry whose name comes no later:
/// stable insertion in name order.
pub open spec fn insert_by_name(r: ResV, s: Seq<ResV>) -> Seq<ResV>
    decreases s.len(),
{
    if s.len() == 0 {
        seq![r]
    } else if lex_le(s[0].name, r.name) {
        seq![s[0]] + insert_by_name(r, s.drop_first())
    } else {
        seq![r] + s
    }
}

/// `s` sorted by name, stably, by repeated insertion.
pub open spec fn sort_by_name(s: Seq<ResV>) -> Seq<ResV>
    decreases s.len(),
{
    if s.len() == 0 {
        Seq::empty()
    } else {
        insert_by_name(s.last(), sort_by_name(s.drop_last()))
    }
}

/// The full scan of `content` for kind `t`: every candidate opening yields
/// one result, and the results are sorted by name.
pub open spec fn scan_spec(content: Seq<char>, t: SonarResultType) -> Result<
    Seq<ResV>,
    ScanError,
> {
    match scan_from(lines_of(content), t, 0) {
        Ok(rs) => Ok(sort_by_name(rs)),
        Err(e) => Err(e),
    }
}

/// The scanner: the source content, the kind scanned for, the results, and
/// the three token filters of that kind.
#[derive(Clone, Debug)]
pub struct BatSonar {
    pub content: String,
    pub result_type: SonarResultType,
    pub results: Vec<SonarResult>,
    pub open_filters: SonarFilter,
    pub end_of_open_filters: SonarFilter,
    pub closure_filters: SonarFilter,
}

/// Tests whether any of `toks` occurs in `line`, against the spec token
/// set `spec_toks` that `toks` spells out.
pub(crate) fn contains_any_tokens(
    line: &str,
    toks: &Vec<&'static str>,
    Ghost(spec_toks): Ghost<Seq<Seq<char>>>,
) -> (r: bool)
    requires
        toks@.len() == spec_toks.len(),
        forall|i: int| 0 <= i < toks@.len() ==> (#[trigger] toks@[i])@ == spec_toks[i],
    ensures
        r == contains_any(line@, spec_toks),
{
    let mut i: usize = 0;
    let n: usize = toks.len();
    while i < n
        invariant
            i <= n,
            n == toks@.len(),
            toks@.len() == spec_toks.len(),
            forall|k: int| 0 <= k < toks@.len() ==> (#[trigger] toks@[k])@ == spec_toks[k],
            forall|k: int| 0 <= k < i ==> !contains_sub(line@, #[trigger] spec_toks[k]),
        decreases n - i,
    {
        if contains_str(line, toks[i]) {
            proof {
                assert(contains_sub(line@, spec_toks[i as int]));
            }
            return true;
        }
        i = i + 1;
    }
    false
}

/// Tests whether `line` starts with any of `toks`.
fn starts_with_any(
    line: &str,
    toks: &Vec<&'static str>,
    Ghost(spec_toks): Ghost<Seq<Seq<char>>>,
) -> (r: bool)
    requires
        toks@.len() == spec_toks.len(),
        forall|i: int| 0 <= i < toks@.len() ==> (#[trigger] toks@[i])@ == spec_toks[i],
    ensures
        r == starts_any(line@, spec_toks),
{
    let mut i: usize = 0;
    let n: usize = toks.len();
    while i < n
        invariant
            i <= n,
            n == toks@.len(),
            toks@.len() == spec_toks.len(),
            forall|k: int| 0 <= k < toks@.len() ==> (#[trigger] toks@[k])@ == spec_toks[k],
            forall|k: int| 0 <= k < i ==> !is_prefix(#[trigger] spec_toks[k], line@),
        decreases n - i,
    {
        if starts_with_str(line, toks[i]) {
            proof {
                assert(is_prefix(spec_toks[i as int], line@));
            }
            return true;
        }
        i = i + 1;
    }
    false
}

/// Tests whether `line` closes a declaration, against the candidate lines
/// in `cands`.
fn line_closes(
    line: &str,
    cands: &Vec<String>,
    is_ca: bool,
    Ghost(t): Ghost<SonarResultType>,
    Ghost(w): Ghost<int>,
) -> (r: bool)
    requires
        cands@.len() == close_candidates(t, w).len(),
        forall|i: int| 0 <= i < cands@.len() ==> (#[trigger] cands@[i])@ == close_candidates(
            t,
            w,
        )[i],
        is_ca == (t == SonarResultType::ContextAccounts),
    ensures
        r == is_close_line(line@, t, w),
{
    let mut i: usize = 0;
    let n: usize = cands.len();
    while i < n
        invariant
            i <= n,
            n == cands@.len(),
            cands@.len() == close_candidates(t, w).len(),
            forall|k: int| 0 <= k < cands@.len() ==> (#[trigger] cands@[k])@
                == close_candidates(t, w)[k],
            is_ca == (t == SonarResultType::ContextAccounts),
            forall|k: int| 0 <= k < i ==> !(if is_ca {
                contains_sub(line@, #[trigger] close_candidates(t, w)[k])
            } else {
                line@ == close_candidates(t, w)[k]
            }),
        decreases n - i,
    {
        let hit = if is_ca {
            contains_str(line, cands[i].as_str())
        } else {
            str_eq(line, cands[i].as_str())
        };
        if hit {
            proof {
                if is_ca {
                    assert(contains_sub(line@, close_candidates(t, w)[i as int]));
                } else {
                    assert(line@ == close_candidates(t, w)[i as int]);
                }
            }
            return true;
        }
        i = i + 1;
    }
    false
}

/// `insert_by_name` places `r` exactly at the boundary of the prefix whose
/// names come no later than `r`'s.
proof fn lemma_insert_by_name_at(r: ResV, s: Seq<ResV>, k: int)
    requires
        0 <= k <= s.len(),
        forall|j: int| 0 <= j < k ==> lex_le((#[trigger] s[j]).name, r.name),
        k < s.len() ==> !lex_le(s[k].name, r.name),
    ensures
        insert_by_name(r, s) == s.subrange(0, k) + seq![r] + s.subrange(k, s.len() as int),
    decreases s.len(),
{
    if s.len() == 0 {
        assert(insert_by_name(r, s) =~= s.subrange(0, 0) + seq![r] + s.subrange(0, 0));
    } else if k == 0 {
        assert(insert_by_name(r, s) =~= s.subrange(0, 0) + seq![r] + s.subrange(
            0,
            s.len() as int,
        ));
    } else {
        let sub = s.drop_first();
        assert(forall|j: int| 0 <= j < k - 1 ==> sub[j] == s[j + 1]);
        if k - 1 < sub.len() {
            assert(sub[k - 1] == s[k]);
        }
        lemma_insert_by_name_at(r, sub, k - 1);
        assert(seq![s[0]] + (sub.subrange(0, k - 1) + seq![r] + sub.subrange(
            k - 1,
            sub.len() as int,
        )) =~= s.subrange(0, k) + seq![r] + s.subrange(k, s.len() as int));
    }
}

/// Inserts `r` into `out` at its place in name order, equal to the
/// spec-level stable insertion.
fn insert_result_sorted(out: &mut Vec<SonarResult>, r: SonarResult)
    ensures
        views_of_results(final(out)@) == insert_by_name(r@, views_of_results(old(out)@)),
{
    let n: usize = out.len();
    let mut k: usize = 0;
    while k < n && lex_le_str(out[k].name.as_str(), r.name.as_str())
        invariant
            k <= n,
            n == out@.len(),
            *out == *old(out),
            forall|j: int| 0 <= j < k ==> lex_le(
                (#[trigger] views_of_results(out@)[j]).name,
                r@.name,
            ),
        decreases n - k,
    {
        proof {
            assert(views_of_results(out@)[k as int] == out@[k as int]@);
        }
        k = k + 1;
    }
    proof {
        let vs = views_of_results(out@);
        assert(k < n ==> vs[k as int] == out@[k as int]@);
        lemma_insert_by_name_at(r@, vs, k as int);
    }
    let ghost old_vec = out@;
    out.insert(k, r);
    proof {
        let vs = views_of_results(old_vec);
        assert(views_of_results(out@) =~= vs.subrange(0, k as int) + seq![r@] + vs.subrange(
            k as int,
            vs.len() as int,
        ));
    }
}

/// Sorts the results by name, equal to the spec-level insertion sort.
fn sort_results_by_name(input: Vec<SonarResult>) -> (out: Vec<SonarResult>)
    ensures
        views_of_results(out@) == sort_by_name(views_of_results(input@)),
    decreases input@.len(),
{
    let ghost input0 = input@;
    let mut input = input;
    match input.pop() {
        None => {
            proof {
                assert(views_of_results(input0).len() == 0);
                assert(views_of_results(input0) =~= Seq::<ResV>::empty());
            }
            input
        },
        Some(last) => {
            proof {
                assert(views_of_results(input@) =~= views_of_results(input0).drop_last());
                assert(views_of_results(input0).last() == last@);
                assert(views_of_results(input0).len() >= 1);
            }
            let mut sorted = sort_results_by_name(input);
            insert_result_sorted(&mut sorted, last);
            sorted
        },
    }
}

/// The region of `content` a marker scan restricts itself to: from the
/// first line containing `marker` to that region's closing line, carved
/// out with the kind's own close filter and an empty matching context.
pub open spec fn region_spec(content: Seq<char>, marker: Seq<char>, t: SonarResultType) -> Result<
    Seq<char>,
    ScanError,
> {
    let lines = lines_of(content);
    let idx = find_line_with(lines, marker, 0);
    if idx < 0 {
        Err(ScanError::RegionMarkerNotFound)
    } else {
        let w = indent_of(lines[idx]);
        let j = end_line_for(lines, t, idx, w, Seq::empty());
        if j < 0 {
            Err(ScanError::UnbalancedDeclaration)
        } else {
            Ok(join_nl(lines.subrange(idx, j + 1)))
        }
    }
}

/// First line of `lines` that contains `marker`, if any.
pub fn find_line_containing(lines: &Vec<String>, marker: &str) -> (r: Option<usize>)
    ensures
        match r {
            Some(i) => i as int == find_line_with(views_of(lines@), marker@, 0) && (i as int)
                < lines@.len(),
            None => find_line_with(views_of(lines@), marker@, 0) == -1,
        },
{
    let ghost lv = views_of(lines@);
    let n: usize = lines.len();
    let mut idx: usize = 0;
    while idx < n
        invariant
            idx <= n,
            n == lines@.len(),
            lv == views_of(lines@),
            forall|k: int| 0 <= k < idx ==> !contains_sub(#[trigger] lv[k], marker@),
        decreases n - idx,
    {
        proof {
            assert(lines@[idx as int]@ == lv[idx as int]);
        }
        if contains_str(lines[idx].as_str(), marker) {
            proof {
                lemma_find_line_with(lv, marker@, 0);
                let f = find_line_with(lv, marker@, 0);
                if f == -1 {
                    assert(!contains_sub(lv[idx as int], marker@));
                    assert(false);
                }
                if f < idx {
                    assert(!contains_sub(lv[f], marker@));
                    assert(false);
                }
                if f > idx {
                    assert(!contains_sub(lv[idx as int], marker@));
                    assert(false);
                }
            }
            return Some(idx);
        }
        idx = idx + 1;
    }
    proof {
        lemma_find_line_with(lv, marker@, 0);
        let f = find_line_with(lv, marker@, 0);
        if f != -1 {
            assert(!contains_sub(lv[f], marker@));
            assert(false);
        }
    }
    None
}

/// Whether the character at `k` belongs to the indentation of `line`.
fn is_indent_char_at(line: &str, k: usize) -> (r: bool)
    requires
        k < line@.len(),
    ensures
        r == (ws_char(line@[k as int]) && line@[k as int] != '\n'),
{
    let c = line.get_char(k);
    is_ws_char(c) && c != '\n'
}

impl BatSonar {
    /// The three filters agree with the scanned kind.
    pub open spec fn wf(&self) -> bool {
        self.open_filters == SonarFilter::Open(self.result_type) && self.end_of_open_filters
            == SonarFilter::EndOfOpen(self.result_type) && self.closure_filters
            == SonarFilter::Closure(self.result_type)
    }

    /// A fresh scanner over `content`, with no results yet.
    fn new(content: &str, result_type: SonarResultType) -> (s: Self)
        ensures
            s.wf(),
            s.content@ == content@,
            s.result_type == result_type,
            s.results@.len() == 0,
    {
        BatSonar {
            content: content.to_owned(),
            results: Vec::new(),
            result_type,
            open_filters: SonarFilter::Open(result_type),
            end_of_open_filters: SonarFilter::EndOfOpen(result_type),
            closure_filters: SonarFilter::Closure(result_type),
        }
    }

    /// The width in bytes of the leading white space of `line`.
    pub fn get_trailing_whitespaces(line: &str) -> (w: usize)
        ensures
            w as int == indent_of(line@),
    {
        let n: usize = line.unicode_len();
        let mut k: usize = 0;
        while k < n && is_indent_char_at(line, k)
            invariant
                k <= n,
                n == line@.len(),
                forall|j: int| 0 <= j < k ==> ws_char(line@[j]) && line@[j] != '\n',
            decreases n - k,
        {
            k = k + 1;
        }
        proof {
            lemma_indent_prefix_char(line@, k as int);
        }
        let prefix = line.substring_char(0, k);
        proof {
            assert(prefix@ =~= line@.take(indent_prefix_len(line@)));
        }
        prefix.len()
    }

    /// Whether `line` is a candidate opening line for the scanned kind.
    pub fn check_is_open(&self, line: &str) -> (r: bool)
        requires
            self.wf(),
        ensures
            r == is_open_line(line@, self.result_type),
    {
        let open_filters = self.open_filters.get_filters();
        let confirm_filters = self.end_of_open_filters.get_filters();
        if !contains_any_tokens(line, &open_filters, Ghost(open_tokens(self.result_type))) {
            return false;
        }
        if !contains_any_tokens(line, &confirm_filters, Ghost(confirm_tokens(self.result_type))) {
            return false;
        }
        let trimmed = trim_str(line);
        starts_with_any(trimmed.as_str(), &open_filters, Ghost(open_tokens(self.result_type)))
    }

    /// The candidate closing lines at indentation `trailing_whitespaces`.
    fn get_closing_lines_candidates(&self, trailing_whitespaces: usize) -> (r: Vec<String>)
        requires
            self.wf(),
        ensures
            r@.len() == close_candidates(self.result_type, trailing_whitespaces as int).len(),
            forall|i: int| 0 <= i < r@.len() ==> (#[trigger] r@[i])@ == close_candidates(
                self.result_type,
                trailing_whitespaces as int,
            )[i],
    {
        let toks = self.closure_filters.get_filters();
        let mut out: Vec<String> = Vec::new();
        let mut i: usize = 0;
        let n: usize = toks.len();
        while i < n
            invariant
                i <= n,
                n == toks@.len(),
                toks@.len() == close_tokens(self.result_type).len(),
                forall|k: int| 0 <= k < toks@.len() ==> (#[trigger] toks@[k])@ == close_tokens(
                    self.result_type,
                )[k],
                out@.len() == i,
                forall|k: int| 0 <= k < i ==> (#[trigger] out@[k])@ == close_candidates(
                    self.result_type,
                    trailing_whitespaces as int,
                )[k],
            decreases n - i,
        {
            let mut cand = repeat_spaces(trailing_whitespaces);
            cand.append(toks[i]);
            out.push(cand);
            i = i + 1;
        }
        out
    }

    /// Whether the opening line itself holds a closing token.
    fn first_line_contains_closure_filter(&self, line: &str) -> (r: bool)
        requires
            self.wf(),
        ensures
            r == contains_any(line@, close_tokens(self.result_type)),
    {
        let toks = self.closure_filters.get_filters();
        contains_any_tokens(line, &toks, Ghost(close_tokens(self.result_type)))
    }

    /// The closing line index for a declaration opened at `start_index`
    /// with indentation `trailing_whitespaces`, where `line` is the opening
    /// line's own text (empty for a region scan).  Fails with
    /// `UnbalancedDeclaration` when no closing line exists.
    pub fn get_end_line_index(
        &self,
        start_index: usize,
        trailing_whitespaces: usize,
        line: &str,
    ) -> (res: Result<usize, ScanError>)
        requires
            self.wf(),
        ensures
            match res {
                Ok(j) => end_line_for(
                    lines_of(self.content@),
                    self.result_type,
                    start_index as int,
                    trailing_whitespaces as int,
                    line@,
                ) == j as int && (j == start_index || (start_index < j && (j as int) < lines_of(
                    self.content@,
                ).len())),
                Err(e) => e == ScanError::UnbalancedDeclaration && end_line_for(
                    lines_of(self.content@),
                    self.result_type,
                    start_index as int,
                    trailing_whitespaces as int,
                    line@,
                ) == -1,
            },
    {
        let ghost lv = lines_of(self.content@);
        let ghost t = self.result_type;
        let ghost w = trailing_whitespaces as int;
        if self.result_type == SonarResultType::Validation
            && self.first_line_contains_closure_filter(line) {
            return Ok(start_index);
        }
        let cands = self.get_closing_lines_candidates(trailing_whitespaces);
        let lines = split_lines(self.content.as_str());
        let is_ca = self.result_type == SonarResultType::ContextAccounts;
        let n: usize = lines.len();
        proof {
            assert(views_of(lines@) == lv);
            assert(lines@.len() == lv.len());
        }
        if start_index >= n {
            proof {
                lemma_find_close_from(lv, t, w, start_index + 1);
                let f = find_close_from(lv, t, w, start_index + 1);
                if f != -1 {
                    assert(f < lv.len());
                    assert(false);
                }
            }
            return Err(ScanError::UnbalancedDeclaration);
        }
        let mut jj: usize = start_index + 1;
        while jj < n
            invariant
                start_index < jj <= n,
                n == lines@.len(),
                views_of(lines@) == lv,
                lv == lines_of(self.content@),
                self.wf(),
                t == self.result_type,
                w == trailing_whitespaces as int,
                is_ca == (t == SonarResultType::ContextAccounts),
                !(t == SonarResultType::Validation && contains_any(line@, close_tokens(t))),
                cands@.len() == close_candidates(t, w).len(),
                forall|i: int| 0 <= i < cands@.len() ==> (#[trigger] cands@[i])@
                    == close_candidates(t, w)[i],
                forall|k: int| start_index < k < jj ==> !is_close_line(#[trigger] lv[k], t, w),
            decreases n - jj,
        {
            proof {
                assert(lines@[jj as int]@ == lv[jj as int]);
            }
            if line_closes(lines[jj].as_str(), &cands, is_ca, Ghost(t), Ghost(w)) {
                proof {
                    lemma_find_close_from(lv, t, w, start_index + 1);
                    let f = find_close_from(lv, t, w, start_index + 1);
                    if f == -1 {
                        assert(!is_close_line(lv[jj as int], t, w));
                        assert(false);
                    }
                    if f < jj {
                        assert(!is_close_line(lv[f], t, w));
                        assert(false);
                    }
                    if f > jj {
                        assert(!is_close_line(lv[jj as int], t, w));
                        assert(false);
                    }
                    assert(f == jj as int);
                }
                return Ok(jj);
            }
            jj = jj + 1;
        }
        proof {
            lemma_find_close_from(lv, t, w, start_index + 1);
            let f = find_close_from(lv, t, w, start_index + 1);
            if f != -1 {
                assert(!is_close_line(lv[f], t, w));
                assert(false);
            }
        }
        Err(ScanError::UnbalancedDeclaration)
    }

    /// Scans the whole content and replaces the results with what the scan
    /// found, sorted by name.  A pass that fails leaves the previous
    /// results untouched: no partial results are ever kept.
    pub fn scan_content_to_get_results(&mut self) -> (res: Result<(), ScanError>)
        requires
            old(self).wf(),
        ensures
            final(self).wf(),
            final(self).content == old(self).content,
            final(self).result_type == old(self).result_type,
            match res {
                Ok(()) => scan_spec(final(self).content@, final(self).result_type) == Ok::<
                    Seq<ResV>,
                    ScanError,
                >(views_of_results(final(self).results@)),
                Err(e) => scan_spec(final(self).content@, final(self).result_type) == Err::<
                    Seq<ResV>,
                    ScanError,
                >(e) && final(self).results == old(self).results,
            },
    {
        let ghost lv = lines_of(self.content@);
        let ghost t0 = self.result_type;
        let lines = split_lines(self.content.as_str());
        let n: usize = lines.len();
        let mut collected: Vec<SonarResult> = Vec::new();
        let mut i: usize = 0;
        proof {
            assert(views_of_results(collected@) =~= Seq::<ResV>::empty());
            match scan_from(lv, t0, 0) {
                Ok(rest) => {
                    assert(views_of_results(collected@) + rest =~= rest);
                },
                Err(_) => {},
            }
        }
        while i < n
            invariant
                i <= n,
                n == lines@.len(),
                views_of(lines@) == lv,
                lv == lines_of(self.content@),
                self.wf(),
                t0 == self.result_type,
                *self == *old(self),
                scan_from(lv, t0, i as int) matches Ok(rest) ==> scan_from(lv, t0, 0) == Ok::<
                    Seq<ResV>,
                    ScanError,
                >(views_of_results(collected@) + rest),
                scan_from(lv, t0, i as int) matches Err(e) ==> scan_from(lv, t0, 0) == Err::<
                    Seq<ResV>,
                    ScanError,
                >(e),
            decreases n - i,
        {
            proof {
                assert(lines@[i as int]@ == lv[i as int]);
            }
            if self.check_is_open(lines[i].as_str()) {
                let w = Self::get_trailing_whitespaces(lines[i].as_str());
                match self.get_end_line_index(i, w, lines[i].as_str()) {
                    Err(e) => {
                        proof {
                            assert(scan_from(lv, t0, i as int) matches Err(e2) && e2 == e);
                        }
                        return Err(e);
                    },
                    Ok(j) => {
                        let content_str = self.get_result_content(i, j);
                        let mut r = SonarResult::new(
                            "",
                            content_str.as_str(),
                            w,
                            self.result_type,
                            i,
                            j,
                            true,
                        );
                        match r.get_name_and_is_public(lines[i].as_str()) {
                            Err(e) => {
                                proof {
                                    assert(scan_from(lv, t0, i as int) matches Err(e2) && e2
                                        == e);
                                }
                                return Err(e);
                            },
                            Ok(()) => {
                                let ghost old_views = views_of_results(collected@);
                                let ghost ri = result_at(lv, t0, i as int, j as int);
                                proof {
                                    assert(r@ =~= ri);
                                }
                                collected.push(r);
                                proof {
                                    assert(views_of_results(collected@) =~= old_views.push(
                                        ri,
                                    ));
                                    match scan_from(lv, t0, i + 1) {
                                        Ok(rest2) => {
                                            assert(scan_from(lv, t0, i as int) == Ok::<
                                                Seq<ResV>,
                                                ScanError,
                                            >(seq![ri] + rest2));
                                            assert(old_views + (seq![ri] + rest2) =~= (
                                            views_of_results(collected@) + rest2));
                                        },
                                        Err(_) => {},
                                    }
                                }
                            },
                        }
                    },
                }
            } else {
                proof {
                    assert(scan_from(lv, t0, i as int) == scan_from(lv, t0, i + 1));
                }
            }
            i = i + 1;
        }
        proof {
            assert(scan_from(lv, t0, n as int) == Ok::<Seq<ResV>, ScanError>(Seq::empty()));
            assert(views_of_results(collected@) + Seq::<ResV>::empty() =~= views_of_results(
                collected@,
            ));
        }
        let sorted = sort_results_by_name(collected);
        self.results = sorted;
        Ok(())
    }

    /// Scans `content` for declarations of kind `result_type`: builds the
    /// scanner and runs the pass.
    pub fn new_scanned(content: &str, result_type: SonarResultType) -> (r: Result<
        Self,
        ScanError,
    >)
        ensures
            match r {
                Ok(s) => s.wf() && s.content@ == content@ && s.result_type == result_type
                    && scan_spec(content@, result_type) == Ok::<Seq<ResV>, ScanError>(
                    views_of_results(s.results@),
                ),
                Err(e) => scan_spec(content@, result_type) == Err::<Seq<ResV>, ScanError>(e),
            },
    {
        let mut new_sonar = BatSonar::new(content, result_type);
        match new_sonar.scan_content_to_get_results() {
            Ok(()) => Ok(new_sonar),
            Err(e) => Err(e),
        }
    }

    /// Scans `content`, restricted to the region carved out around the
    /// first line containing `starting_line_content` when a marker is
    /// given; with no marker this is a whole-content scan.
    pub fn new_from_content(
        content: &str,
        starting_line_content: Option<&str>,
        result_type: SonarResultType,
    ) -> (r: Result<Self, ScanError>)
        ensures
            match r {
                Ok(s) => s.wf() && s.result_type == result_type && scan_spec(
                    s.content@,
                    result_type,
                ) == Ok::<Seq<ResV>, ScanError>(views_of_results(s.results@)) && (
                match starting_line_content {
                    None => s.content@ == content@,
                    Some(m) => region_spec(content@, m@, result_type) == Ok::<
                        Seq<char>,
                        ScanError,
                    >(s.content@),
                }),
                Err(e) => match starting_line_content {
                    None => scan_spec(content@, result_type) == Err::<Seq<ResV>, ScanError>(e),
                    Some(m) => match region_spec(content@, m@, result_type) {
                        Err(e2) => e == e2,
                        Ok(c2) => scan_spec(c2, result_type) == Err::<Seq<ResV>, ScanError>(e),
                    },
                },
            },
    {
        let mut new_sonar = BatSonar::new(content, result_type);
        match starting_line_content {
            None => {},
            Some(marker) => {
                let ghost lv = lines_of(content@);
                let lines = split_lines(content);
                match find_line_containing(&lines, marker) {
                    None => {
                        return Err(ScanError::RegionMarkerNotFound);
                    },
                    Some(idx) => {
                        proof {
                            assert(lines@[idx as int]@ == lv[idx as int]);
                        }
                        let w = Self::get_trailing_whitespaces(lines[idx].as_str());
                        match new_sonar.get_end_line_index(idx, w, "") {
                            Err(e) => {
                                proof {
                                    reveal_strlit("");
                                    assert(""@ =~= Seq::<char>::empty());
                                }
                                return Err(e);
                            },
                            Ok(j) => {
                                proof {
                                    reveal_strlit("");
                                    assert(""@ =~= Seq::<char>::empty());
                                }
                                let new_content = new_sonar.get_result_content(idx, j);
                                new_sonar.content = new_content;
                            },
                        }
                    },
                }
            },
        }
        match new_sonar.scan_content_to_get_results() {
            Ok(()) => Ok(new_sonar),
            Err(e) => Err(e),
        }
    }

    /// The exact text of lines `start_line_index..=end_line_index`, joined
    /// with newlines.
    pub fn get_result_content(&self, start_line_index: usize, end_line_index: usize) -> (r:
        String)
        requires
            start_line_index <= end_line_index < lines_of(self.content@).len(),
        ensures
            r@ == join_nl(
                lines_of(self.content@).subrange(
                    start_line_index as int,
                    end_line_index + 1,
                ),
            ),
    {
        let lines = split_lines(self.content.as_str());
        proof {
            assert(views_of(lines@).len() == lines_of(self.content@).len());
        }
        join_range(&lines, start_line_index, end_line_index)
    }
}

/// Whether the results stand in ascending name order.
pub open spec fn sorted_by_name(s: Seq<ResV>) -> bool {
    forall|i: int, j: int| 0 <= i <= j < s.len() ==> lex_le(s[i].name, s[j].name)
}

/// The number of candidate opening lines for `t` at or after `from`.
pub open spec fn count_opens(lines: Seq<Seq<char>>, t: SonarResultType, from: int) -> int
    decreases lines.len() - from,
{
    if !(0 <= from < lines.len()) {
        0
    } else {
        (if is_open_line(lines[from], t) {
            1int
        } else {
            0int
        }) + count_opens(lines, t, from + 1)
    }
}

/// Stable insertion adds one entry, takes its entries from `r` and `s`,
/// and keeps a sorted sequence sorted.
proof fn lemma_insert_by_name_props(r: ResV, s: Seq<ResV>)
    ensures
        insert_by_name(r, s).len() == s.len() + 1,
        forall|k: int|
            0 <= k < insert_by_name(r, s).len() ==> (#[trigger] insert_by_name(r, s)[k]) == r
                || exists|k2: int| 0 <= k2 < s.len() && s[k2] == insert_by_name(r, s)[k],
        sorted_by_name(s) ==> sorted_by_name(insert_by_name(r, s)),
    decreases s.len(),
{
    let out = insert_by_name(r, s);
    if s.len() == 0 {
        assert(out =~= seq![r]);
        lemma_lex_total(r.name, r.name);
    } else if lex_le(s[0].name, r.name) {
        let sub = s.drop_first();
        lemma_insert_by_name_props(r, sub);
        let rec = insert_by_name(r, sub);
        assert(out =~= seq![s[0]] + rec);
        assert forall|k: int|
            0 <= k < out.len() implies (#[trigger] out[k]) == r || exists|k2: int|
            0 <= k2 < s.len() && s[k2] == out[k] by {
            if k == 0 {
                assert(s[0] == out[0]);
            } else {
                assert(out[k] == rec[k - 1]);
                if rec[k - 1] == r {
                } else {
                    let k2 = choose|k2: int| 0 <= k2 < sub.len() && sub[k2] == rec[k - 1];
                    assert(s[k2 + 1] == out[k]);
                }
            }
        }
        if sorted_by_name(s) {
            assert forall|i: int, j: int| 0 <= i <= j < sub.len() implies lex_le(
                sub[i].name,
                sub[j].name,
            ) by {
                assert(sub[i] == s[i + 1]);
                assert(sub[j] == s[j + 1]);
            }
            assert(sorted_by_name(sub));
            assert forall|i: int, j: int| 0 <= i <= j < out.len() implies lex_le(
                out[i].name,
                out[j].name,
            ) by {
                if i == 0 {
                    if j == 0 {
                        lemma_lex_total(s[0].name, s[0].name);
                    } else {
                        assert(out[j] == rec[j - 1]);
                        if rec[j - 1] == r {
                        } else {
                            let k2 = choose|k2: int|
                                0 <= k2 < sub.len() && sub[k2] == rec[j - 1];
                            assert(lex_le(s[0].name, s[k2 + 1].name));
                        }
                    }
                } else {
                    assert(out[i] == rec[i - 1]);
                    assert(out[j] == rec[j - 1]);
                }
            }
        }
    } else {
        assert(out =~= seq![r] + s);
        lemma_lex_total(s[0].name, r.name);
        assert forall|k: int|
            0 <= k < out.len() implies (#[trigger] out[k]) == r || exists|k2: int|
            0 <= k2 < s.len() && s[k2] == out[k] by {
            if k >= 1 {
                assert(s[k - 1] == out[k]);
            }
        }
        if sorted_by_name(s) {
            assert forall|i: int, j: int| 0 <= i <= j < out.len() implies lex_le(
                out[i].name,
                out[j].name,
            ) by {
                if i == 0 {
                    if j == 0 {
                        lemma_lex_total(r.name, r.name);
                    } else {
                        assert(lex_le(s[0].name, s[j - 1].name));
                        lemma_lex_trans(r.name, s[0].name, s[j - 1].name);
                    }
                } else {
                    assert(out[i] == s[i - 1]);
                    assert(out[j] == s[j - 1]);
                }
            }
        }
    }
}

/// Sorting keeps the length, takes every entry from the input, and yields
/// a sequence sorted by name.
proof fn lemma_sort_by_name_props(s: Seq<ResV>)
    ensures
        sort_by_name(s).len() == s.len(),
        sorted_by_name(sort_by_name(s)),
        forall|k: int|
            0 <= k < sort_by_name(s).len() ==> exists|k2: int|
                0 <= k2 < s.len() && s[k2] == #[trigger] sort_by_name(s)[k],
    decreases s.len(),
{
    if s.len() == 0 {
    } else {
        let front = s.drop_last();
        lemma_sort_by_name_props(front);
        lemma_insert_by_name_props(s.last(), sort_by_name(front));
        let out = sort_by_name(s);
        assert forall|k: int| 0 <= k < out.len() implies exists|k2: int|
            0 <= k2 < s.len() && s[k2] == #[trigger] out[k] by {
            if out[k] == s.last() {
                assert(s[s.len() - 1] == out[k]);
            } else {
                let k3 = choose|k3: int|
                    0 <= k3 < sort_by_name(front).len() && sort_by_name(front)[k3] == out[k];
                let k2 = choose|k2: int| 0 <= k2 < front.len() && front[k2] == out[k];
                assert(s[k2] == out[k]);
            }
        }
    }
}

/// Every entry of a successful scan pass is the result derived from its
/// own opening line, and there are exactly as many entries as candidate
/// opening lines.
proof fn lemma_scan_from_results(lines: Seq<Seq<char>>, t: SonarResultType, i: int)
    requires
        0 <= i,
    ensures
        scan_from(lines, t, i) matches Ok(rs) ==> {
            &&& rs.len() == count_opens(lines, t, i)
            &&& forall|k: int|
                0 <= k < rs.len() ==> {
                    let r = #[trigger] rs[k];
                    &&& i <= r.start < lines.len()
                    &&& is_open_line(lines[r.start], t)
                    &&& r.end == end_line_for(
                        lines,
                        t,
                        r.start,
                        indent_of(lines[r.start]),
                        lines[r.start],
                    )
                    &&& r.start <= r.end < lines.len()
                    &&& r == result_at(lines, t, r.start, r.end)
                }
        },
    decreases lines.len() - i,
{
    if !(0 <= i < lines.len()) {
    } else if !is_open_line(lines[i], t) {
        lemma_scan_from_results(lines, t, i + 1);
    } else {
        let w = indent_of(lines[i]);
        let j = end_line_for(lines, t, i, w, lines[i]);
        lemma_scan_from_results(lines, t, i + 1);
        if j >= 0 && !(named_kind(t) && !has_name_tokens(lines[i])) {
            lemma_find_close_from(lines, t, w, i + 1);
            match scan_from(lines, t, i + 1) {
                Ok(rest) => {
                    let rs = seq![result_at(lines, t, i, j)] + rest;
                    assert(rs[0].start == i);
                    assert(rs[0].end == j);
                    assert(j == i || (i < j < lines.len()));
                    assert forall|k: int| 1 <= k < rs.len() implies rs[k] == rest[k - 1] by {}
                },
                Err(_) => {},
            }
        }
    }
}

/// Skipping over lines with no candidate opening does not change the scan.
proof fn lemma_scan_skip_to(lines: Seq<Seq<char>>, t: SonarResultType, a: int, i: int)
    requires
        0 <= a <= i <= lines.len(),
        forall|k: int| a <= k < i ==> !is_open_line(#[trigger] lines[k], t),
    ensures
        scan_from(lines, t, a) == scan_from(lines, t, i),
    decreases i - a,
{
    if a < i {
        lemma_scan_skip_to(lines, t, a + 1, i);
    }
}

/// Law: a scan that succeeds returns exactly one result per candidate
/// opening line of the content, and the results are sorted by name.
pub proof fn lemma_scan_exact_and_sorted(content: Seq<char>, t: SonarResultType)
    ensures
        scan_spec(content, t) matches Ok(rs) ==> rs.len() == count_opens(lines_of(content), t, 0)
            && sorted_by_name(rs),
{
    match scan_from(lines_of(content), t, 0) {
        Ok(pre) => {
            lemma_scan_from_results(lines_of(content), t, 0);
            lemma_sort_by_name_props(pre);
        },
        Err(_) => {},
    }
}

/// Law: for every result of a successful scan, re-extracting lines
/// `start..=end` from the content and joining them with newlines
/// reproduces the result's text exactly; the start line never comes after
/// the end line.
pub proof fn lemma_scan_round_trip(content: Seq<char>, t: SonarResultType)
    ensures
        scan_spec(content, t) matches Ok(rs) ==> forall|k: int|
            0 <= k < rs.len() ==> {
                let r = #[trigger] rs[k];
                &&& 0 <= r.start <= r.end < lines_of(content).len()
                &&& r.content == join_nl(lines_of(content).subrange(r.start, r.end + 1))
            },
{
    let lines = lines_of(content);
    match scan_from(lines, t, 0) {
        Ok(pre) => {
            lemma_scan_from_results(lines, t, 0);
            lemma_sort_by_name_props(pre);
            let rs = sort_by_name(pre);
            assert forall|k: int| 0 <= k < rs.len() implies {
                let r = #[trigger] rs[k];
                &&& 0 <= r.start <= r.end < lines.len()
                &&& r.content == join_nl(lines.subrange(r.start, r.end + 1))
            } by {
                let k2 = choose|k2: int| 0 <= k2 < pre.len() && pre[k2] == rs[k];
                assert(pre[k2] == result_at(lines, t, pre[k2].start, pre[k2].end));
            }
        },
        Err(_) => {},
    }
}

/// Law: a validation call whose opening line itself holds a closing token
/// is single-line: its start and end lines coincide.
pub proof fn lemma_validation_single_line(content: Seq<char>, t: SonarResultType)
    ensures
        scan_spec(content, t) matches Ok(rs) ==> forall|k: int|
            0 <= k < rs.len() ==> ((t == SonarResultType::Validation && contains_any(
                lines_of(content)[(#[trigger] rs[k]).start],
                close_tokens(t),
            )) ==> rs[k].end == rs[k].start),
{
    let lines = lines_of(content);
    match scan_from(lines, t, 0) {
        Ok(pre) => {
            lemma_scan_from_results(lines, t, 0);
            lemma_sort_by_name_props(pre);
            let rs = sort_by_name(pre);
            assert forall|k: int|
                0 <= k < rs.len() && t == SonarResultType::Validation && contains_any(
                    lines[(#[trigger] rs[k]).start],
                    close_tokens(t),
                ) implies rs[k].end == rs[k].start by {
                let k2 = choose|k2: int| 0 <= k2 < pre.len() && pre[k2] == rs[k];
                assert(pre[k2].end == end_line_for(
                    lines,
                    t,
                    pre[k2].start,
                    indent_of(lines[pre[k2].start]),
                    lines[pre[k2].start],
                ));
            }
        },
        Err(_) => {},
    }
}

/// Law: scanning is a function of the content and the kind alone, so
/// scanning the same content twice with the same kind yields identical
/// result sequences.
pub proof fn lemma_scan_deterministic(
    c1: Seq<char>,
    c2: Seq<char>,
    t1: SonarResultType,
    t2: SonarResultType,
)
    requires
        c1 == c2,
        t1 == t2,
    ensures
        scan_spec(c1, t1) == scan_spec(c2, t2),
{
}

/// Law: when the first candidate opening line of the content has no
/// matching closing line, the scan fails with `UnbalancedDeclaration` and
/// returns no results.
pub proof fn lemma_scan_unbalanced(content: Seq<char>, t: SonarResultType, i: int)
    requires
        0 <= i < lines_of(content).len(),
        is_open_line(lines_of(content)[i], t),
        forall|k: int| 0 <= k < i ==> !is_open_line(#[trigger] lines_of(content)[k], t),
        end_line_for(
            lines_of(content),
            t,
            i,
            indent_of(lines_of(content)[i]),
            lines_of(content)[i],
        ) == -1,
    ensures
        scan_spec(content, t) == Err::<Seq<ResV>, ScanError>(ScanError::UnbalancedDeclaration),
{
    lemma_scan_skip_to(lines_of(content), t, 0, i);
}

/// The parameters accumulated so far and the one being built: tokens are
/// regrouped by starting a new parameter at every token holding a `:`,
/// the prior accumulated parameter closed out first and the final one
/// flushed at the end.
pub open spec fn fold_params(toks: Seq<Seq<char>>, acc: Seq<char>) -> Seq<Seq<char>>
    decreases toks.len(),
{
    if toks.len() == 0 {
        if acc.len() == 0 {
            Seq::empty()
        } else {
            seq![acc]
        }
    } else {
        let tok = toks[0];
        if contains_sub(tok, ":"@) {
            if acc.len() == 0 {
                fold_params(toks.drop_first(), tok)
            } else {
                seq![acc] + fold_params(toks.drop_first(), tok)
            }
        } else {
            fold_params(toks.drop_first(), acc + seq![' '] + tok)
        }
    }
}

/// The lines of a multi-line signature that carry a `:`, trimmed: one
/// parameter each.
pub open spec fn param_lines(ls: Seq<Seq<char>>) -> Seq<Seq<char>>
    decreases ls.len(),
{
    if ls.len() == 0 {
        Seq::empty()
    } else if contains_sub(ls[0], ":"@) {
        seq![trim_of(ls[0])] + param_lines(ls.drop_first())
    } else {
        param_lines(ls.drop_first())
    }
}

/// The parameter list of the captured text of one function declaration.
/// The signature region is the text before the first `{` and before any
/// `->`; a signature whose first line closes its parentheses is split at
/// spaces and regrouped at `:` tokens, and a multi-line one contributes
/// each `:`-carrying line.  Empty content, or a single-line signature with
/// no parenthesis, is malformed.
pub open spec fn params_of(content: Seq<char>) -> Result<Seq<Seq<char>>, ScanError> {
    let lines = lines_of(content);
    if lines.len() == 0 {
        Err(ScanError::MalformedSignature)
    } else {
        let signature = before_sub(before_sub(content, "{"@), "->"@);
        if contains_sub(lines[0], ")"@) {
            let j = find_ch(signature, '(');
            if !(0 <= j < signature.len()) {
                Err(ScanError::MalformedSignature)
            } else {
                let part1 = before_ch(signature.skip(j + 1), '(');
                let inner = before_ch(part1, ')');
                Ok(fold_params(split_sp(inner), Seq::empty()))
            }
        } else {
            Ok(param_lines(lines_of(signature)))
        }
    }
}

/// Regroups the space-separated tokens into parameters, as `fold_params`
/// describes.
fn fold_params_exec(toks: &Vec<String>) -> (out: Vec<String>)
    ensures
        views_of(out@) == fold_params(views_of(toks@), Seq::empty()),
{
    let ghost tv = views_of(toks@);
    let mut out: Vec<String> = Vec::new();
    let mut acc: String = String::new();
    let n: usize = toks.len();
    let mut i: usize = 0;
    proof {
        assert(tv.skip(0) =~= tv);
        assert(views_of(out@) + fold_params(tv, acc@) =~= fold_params(tv, Seq::empty()));
    }
    while i < n
        invariant
            i <= n,
            n == toks@.len(),
            tv == views_of(toks@),
            fold_params(tv, Seq::empty()) == views_of(out@) + fold_params(
                tv.skip(i as int),
                acc@,
            ),
        decreases n - i,
    {
        let ghost rem = tv.skip(i as int);
        proof {
            assert(rem[0] == toks@[i as int]@);
            assert(rem.drop_first() =~= tv.skip(i + 1));
        }
        if contains_str(toks[i].as_str(), ":") {
            let ghost old_acc = acc@;
            let ghost old_out = out@;
            if !acc.as_str().is_empty() {
                out.push(acc);
                proof {
                    assert(views_of(out@) =~= views_of(old_out).push(old_acc));
                }
            }
            acc = toks[i].clone();
            proof {
                if old_acc.len() == 0 {
                    assert(fold_params(rem, old_acc) == fold_params(rem.drop_first(), acc@));
                } else {
                    assert(fold_params(rem, old_acc) == seq![old_acc] + fold_params(
                        rem.drop_first(),
                        acc@,
                    ));
                    assert(views_of(old_out) + (seq![old_acc] + fold_params(
                        rem.drop_first(),
                        acc@,
                    )) =~= views_of(out@) + fold_params(rem.drop_first(), acc@));
                }
            }
        } else {
            let ghost old_acc = acc@;
            acc.append(" ");
            acc.append(toks[i].as_str());
            proof {
                reveal_strlit(" ");
                assert(" "@ =~= seq![' ']);
                assert(acc@ =~= old_acc + seq![' '] + rem[0]);
                assert(fold_params(rem, old_acc) == fold_params(rem.drop_first(), acc@));
            }
        }
        i = i + 1;
    }
    proof {
        assert(tv.skip(i as int).len() == 0);
    }
    let ghost final_acc = acc@;
    let ghost pre_out = out@;
    if !acc.as_str().is_empty() {
        out.push(acc);
        proof {
            assert(fold_params(tv.skip(n as int), final_acc) == seq![final_acc]);
            assert(views_of(pre_out) + seq![final_acc] =~= views_of(out@));
        }
    } else {
        proof {
            assert(fold_params(tv.skip(n as int), final_acc) =~= Seq::<Seq<char>>::empty());
            assert(views_of(pre_out) + Seq::<Seq<char>>::empty() =~= views_of(out@));
        }
    }
    out
}

/// Collects the trimmed `:`-carrying lines, as `param_lines` describes.
fn param_lines_exec(ls: &Vec<String>) -> (out: Vec<String>)
    ensures
        views_of(out@) == param_lines(views_of(ls@)),
{
    let ghost lv = views_of(ls@);
    let mut out: Vec<String> = Vec::new();
    let n: usize = ls.len();
    let mut i: usize = 0;
    proof {
        assert(lv.skip(0) =~= lv);
        assert(views_of(out@) + param_lines(lv) =~= param_lines(lv));
    }
    while i < n
        invariant
            i <= n,
            n == ls@.len(),
            lv == views_of(ls@),
            param_lines(lv) == views_of(out@) + param_lines(lv.skip(i as int)),
        decreases n - i,
    {
        let ghost rem = lv.skip(i as int);
        proof {
            assert(rem[0] == ls@[i as int]@);
            assert(rem.drop_first() =~= lv.skip(i + 1));
        }
        if contains_str(ls[i].as_str(), ":") {
            let ghost old_out = out@;
            let t = trim_str(ls[i].as_str());
            out.push(t);
            proof {
                assert(views_of(out@) =~= views_of(old_out).push(trim_of(rem[0])));
                assert(param_lines(rem) == seq![trim_of(rem[0])] + param_lines(
                    rem.drop_first(),
                ));
                assert(views_of(old_out) + (seq![trim_of(rem[0])] + param_lines(
                    rem.drop_first(),
                )) =~= views_of(out@) + param_lines(rem.drop_first()));
            }
        }
        i = i + 1;
    }
    proof {
        assert(param_lines(lv.skip(i as int)) =~= Seq::<Seq<char>>::empty());
        assert(views_of(out@) + Seq::<Seq<char>>::empty() =~= views_of(out@));
    }
    out
}

/// Extracts the parameter list from the captured text of one function
/// declaration, as `params_of` describes.
pub fn get_function_parameters(function_content: String) -> (r: Result<Vec<String>, ScanError>)
    ensures
        match r {
            Ok(ps) => params_of(function_content@) == Ok::<Seq<Seq<char>>, ScanError>(
                views_of(ps@),
            ),
            Err(e) => params_of(function_content@) == Err::<Seq<Seq<char>>, ScanError>(e),
        },
{
    let lines = split_lines(function_content.as_str());
    if lines.len() == 0 {
        return Err(ScanError::MalformedSignature);
    }
    let sig1 = before_substr(function_content.as_str(), "{");
    let signature = before_substr(sig1.as_str(), "->");
    proof {
        assert(lines@[0]@ == lines_of(function_content@)[0]);
    }
    if contains_str(lines[0].as_str(), ")") {
        match find_char(signature.as_str(), '(') {
            None => Err(ScanError::MalformedSignature),
            Some(j) => {
                let n: usize = signature.as_str().unicode_len();
                let after = signature.as_str().substring_char(j + 1, n);
                proof {
                    assert(after@ =~= signature@.skip(find_ch(signature@, '(') + 1));
                }
                let part1 = before_char(after, '(');
                let inner = before_char(part1.as_str(), ')');
                let toks = split_space(inner.as_str());
                Ok(fold_params_exec(&toks))
            },
        }
    } else {
        let sig_lines = split_lines(signature.as_str());
        Ok(param_lines_exec(&sig_lines))
    }
}

} // verus!
