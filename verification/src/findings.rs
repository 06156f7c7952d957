//! Finding records: parsing a finding file's markdown into its data,
//! formatting its header with a finding code, and rendering the table and
//! list fragments of the findings report.

use vstd::prelude::*;
use vstd::string::*;

use crate::sonar::{contains_any, find_line_containing, find_line_with};
use crate::strutil::{
    before_char, before_ch, contains_str, contains_sub, dec_digits, eq_ignore_ascii_case,
    eq_ignore_case, find_ch, find_char, find_sub, find_substr, is_prefix, join_nl, join_range,
    join_all_nl, lemma_find_sub, lines_of, replace_all, replace_seq, split_ch, split_char_vec,
    split_lines,
    starts_with_str, strip_prefix_str, trim_of, trim_str, usize_to_string, views_of,
};

verus! {

/// The workflow status of a finding.
#[derive(Clone, Copy, Debug, PartialEq, Eq, Structural)]
pub enum StatusLevel {
    Open,
}

/// The severity scale of a finding, also used for its impact, likelihood
/// and difficulty.
#[derive(Clone, Copy, Debug, PartialEq, Eq, Structural)]
pub enum FindingLevel {
    High,
    Medium,
    Low,
    Informational,
}

/// Why a finding's markdown could not be parsed or rendered.
#[derive(Clone, Copy, Debug, PartialEq, Eq, Structural)]
pub enum FindingError {
    /// The content is empty or its first line does not open a `##` header.
    MissingHeader,
    /// The header line has no text after the finding code.
    MalformedHeader,
    /// No line holds the severity marker.
    MissingSeverity,
    /// The severity line does not start with the severity marker.
    MalformedSeverity,
    /// A severity text names no known level.
    UnknownSeverityLevel,
    /// No line holds the status marker.
    MissingStatus,
    /// The status line does not start with the status marker.
    MalformedStatus,
    /// A status text names no known status.
    UnknownStatusLevel,
    /// The impact table between the status marker and the description
    /// header is missing.
    MissingFindingTable,
    /// The impact table row does not hold three readable levels.
    MalformedFindingTable,
    /// No line opens the description section.
    MissingDescriptionSection,
    /// The description header comes before the severity line.
    MalformedContent,
    /// The audit file does not hold a findings section followed by a
    /// code-overhaul section.
    MissingResultSection,
}

/// The display name of a level.
pub open spec fn level_str(l: FindingLevel) -> Seq<char> {
    match l {
        FindingLevel::High => "High"@,
        FindingLevel::Medium => "Medium"@,
        FindingLevel::Low => "Low"@,
        FindingLevel::Informational => "Informational"@,
    }
}

/// The lower-case display name of a level.
pub open spec fn level_str_lower(l: FindingLevel) -> Seq<char> {
    match l {
        FindingLevel::High => "high"@,
        FindingLevel::Medium => "medium"@,
        FindingLevel::Low => "low"@,
        FindingLevel::Informational => "informational"@,
    }
}

/// The hex color of a level.
pub open spec fn level_hex(l: FindingLevel) -> Seq<char> {
    match l {
        FindingLevel::High => "#fd0011"@,
        FindingLevel::Medium => "#f58b45"@,
        FindingLevel::Low => "#16a54d"@,
        FindingLevel::Informational => "#0666b4"@,
    }
}

/// The display name of a status.
pub open spec fn status_str(s: StatusLevel) -> Seq<char> {
    match s {
        StatusLevel::Open => "Open"@,
    }
}

/// The lower-case display name of a status.
pub open spec fn status_str_lower(s: StatusLevel) -> Seq<char> {
    match s {
        StatusLevel::Open => "open"@,
    }
}

/// The hex color of a status.
pub open spec fn status_hex(s: StatusLevel) -> Seq<char> {
    match s {
        StatusLevel::Open => "#16a54d"@,
    }
}

/// The level a severity text names, compared without regard to ASCII
/// letter case.
pub open spec fn level_of(s: Seq<char>) -> Option<FindingLevel> {
    if eq_ignore_ascii_case(s, "high"@) {
        Some(FindingLevel::High)
    } else if eq_ignore_ascii_case(s, "medium"@) {
        Some(FindingLevel::Medium)
    } else if eq_ignore_ascii_case(s, "low"@) {
        Some(FindingLevel::Low)
    } else if eq_ignore_ascii_case(s, "informational"@) {
        Some(FindingLevel::Informational)
    } else {
        None
    }
}

/// The status a status text names, compared without regard to ASCII
/// letter case.
pub open spec fn status_of(s: Seq<char>) -> Option<StatusLevel> {
    if eq_ignore_ascii_case(s, "open"@) {
        Some(StatusLevel::Open)
    } else {
        None
    }
}

impl StatusLevel {
    /// Reads a status from its text, without regard to ASCII letter case.
    pub fn from_str(status_str: &str) -> (r: Result<StatusLevel, FindingError>)
        ensures
            match r {
                Ok(l) => status_of(status_str@) == Some(l),
                Err(e) => status_of(status_str@) is None && e
                    == FindingError::UnknownStatusLevel,
            },
    {
        if eq_ignore_case(status_str, "open") {
            Ok(StatusLevel::Open)
        } else {
            Err(FindingError::UnknownStatusLevel)
        }
    }

    /// The display name of this status.
    pub fn to_string(&self) -> (r: String)
        ensures
            r@ == status_str(*self),
    {
        String::from_str("Open")
    }

    /// The lower-case display name of this status.
    fn to_lower_string(&self) -> (r: String)
        ensures
            r@ == status_str_lower(*self),
    {
        String::from_str("open")
    }

    /// The hex color of this status.
    pub fn get_hex_color(&self) -> (r: String)
        ensures
            r@ == status_hex(*self),
    {
        String::from_str("#16a54d")
    }
}

impl FindingLevel {
    /// Reads a level from its text, without regard to ASCII letter case.
    pub fn from_str(severity_str: &str) -> (r: Result<FindingLevel, FindingError>)
        ensures
            match r {
                Ok(l) => level_of(severity_str@) == Some(l),
                Err(e) => level_of(severity_str@) is None && e
                    == FindingError::UnknownSeverityLevel,
            },
    {
        if eq_ignore_case(severity_str, "high") {
            Ok(FindingLevel::High)
        } else if eq_ignore_case(severity_str, "medium") {
            Ok(FindingLevel::Medium)
        } else if eq_ignore_case(severity_str, "low") {
            Ok(FindingLevel::Low)
        } else if eq_ignore_case(severity_str, "informational") {
            Ok(FindingLevel::Informational)
        } else {
            Err(FindingError::UnknownSeverityLevel)
        }
    }

    /// The display name of this level.
    pub fn to_string(&self) -> (r: String)
        ensures
            r@ == level_str(*self),
    {
        match self {
            FindingLevel::High => String::from_str("High"),
            FindingLevel::Medium => String::from_str("Medium"),
            FindingLevel::Low => String::from_str("Low"),
            FindingLevel::Informational => String::from_str("Informational"),
        }
    }

    /// The lower-case display name of this level.
    fn to_lower_string(&self) -> (r: String)
        ensures
            r@ == level_str_lower(*self),
    {
        match self {
            FindingLevel::High => String::from_str("high"),
            FindingLevel::Medium => String::from_str("medium"),
            FindingLevel::Low => String::from_str("low"),
            FindingLevel::Informational => String::from_str("informational"),
        }
    }

    /// The hex color of this level.
    pub fn get_hex_color(&self) -> (r: String)
        ensures
            r@ == level_hex(*self),
    {
        match self {
            FindingLevel::High => String::from_str("#fd0011"),
            FindingLevel::Medium => String::from_str("#f58b45"),
            FindingLevel::Low => String::from_str("#16a54d"),
            FindingLevel::Informational => String::from_str("#0666b4"),
        }
    }
}

/// The numeric severity flag the review-preparation step files a finding
/// under: 1 for high down to 4 for informational.
pub open spec fn severity_flag(l: FindingLevel) -> Seq<char> {
    match l {
        FindingLevel::High => "1"@,
        FindingLevel::Medium => "2"@,
        FindingLevel::Low => "3"@,
        FindingLevel::Informational => "4"@,
    }
}

impl FindingLevel {
    /// The numeric severity flag of this level, highest first.
    pub fn to_severity_flag(&self) -> (r: &'static str)
        ensures
            r@ == severity_flag(*self),
    {
        match self {
            FindingLevel::High => "1",
            FindingLevel::Medium => "2",
            FindingLevel::Low => "3",
            FindingLevel::Informational => "4",
        }
    }
}

/// The level a finding file's severity line names: the severity marker and
/// every space removed, the rest read without regard to letter case.
pub open spec fn severity_level_of_line(line: Seq<char>) -> Option<FindingLevel> {
    level_of(
        replace_seq(replace_seq(line, "**Severity:**"@, Seq::empty()), " "@, Seq::empty()),
    )
}

/// Reads the level off a finding file's severity line, as
/// `severity_level_of_line` describes.
pub fn severity_level_for_line(line: &str) -> (r: Option<FindingLevel>)
    ensures
        r == severity_level_of_line(line@),
{
    proof {
        reveal_strlit("");
        assert(""@ =~= Seq::<char>::empty());
    }
    let removed = replace_all(line, "**Severity:**", "");
    let despaced = replace_all(removed.as_str(), " ", "");
    match FindingLevel::from_str(despaced.as_str()) {
        Ok(l) => Some(l),
        Err(_) => None,
    }
}

/// One finding: its code, title, grading, status, full markdown content
/// and position in the report.
#[derive(Clone, Debug, PartialEq)]
pub struct Finding {
    pub code: String,
    pub title: String,
    pub severity: FindingLevel,
    pub impact: Option<FindingLevel>,
    pub likelihood: Option<FindingLevel>,
    pub difficulty: Option<FindingLevel>,
    pub status: StatusLevel,
    pub content: String,
    pub index: usize,
}

/// The mathematical value of a finding.
#[verifier::ext_equal]
pub ghost struct FindingV {
    pub code: Seq<char>,
    pub title: Seq<char>,
    pub severity: FindingLevel,
    pub impact: Option<FindingLevel>,
    pub likelihood: Option<FindingLevel>,
    pub difficulty: Option<FindingLevel>,
    pub status: StatusLevel,
    pub content: Seq<char>,
    pub index: int,
}

impl View for Finding {
    type V = FindingV;

    open spec fn view(&self) -> FindingV {
        FindingV {
            code: self.code@,
            title: self.title@,
            severity: self.severity,
            impact: self.impact,
            likelihood: self.likelihood,
            difficulty: self.difficulty,
            status: self.status,
            content: self.content@,
            index: self.index as int,
        }
    }
}

/// A finding's grading is consistent: an informational finding carries no
/// impact table, any other finding carries a full one, and the difficulty
/// is a real level.
pub open spec fn finding_wf(f: FindingV) -> bool {
    &&& (f.severity == FindingLevel::Informational ==> f.impact is None)
    &&& (f.impact is Some <==> f.likelihood is Some)
    &&& (f.impact is Some <==> f.difficulty is Some)
    &&& (match f.difficulty {
        Some(d) => d != FindingLevel::Informational,
        None => true,
    })
}

/// A graded finding that carries its impact table: the form the HTML
/// summary table can be rendered from.
pub open spec fn finding_gradable(f: FindingV) -> bool {
    f.severity != FindingLevel::Informational ==> f.impact is Some
}

/// The finding code for position `index`: the `KS` prefix, a dash, and the
/// one-based position, padded to two digits below ten.
pub open spec fn finding_code_of(index: int) -> Seq<char> {
    "KS-"@ + (if index < 9 {
        seq!['0']
    } else {
        Seq::empty()
    }) + dec_digits(index + 1)
}

/// `content` with its first line's `##` opening replaced by a `##` header
/// holding the finding code — unless the first line already starts with
/// that header, in which case the content stands unchanged.
pub open spec fn format_header_spec(content: Seq<char>, index: int) -> Seq<char> {
    let lines = lines_of(content);
    if lines.len() == 0 {
        content
    } else {
        let first = lines[0];
        let hdr = "## "@ + finding_code_of(index);
        if is_prefix(hdr, first) {
            content
        } else {
            replace_seq(content, first, replace_seq(first, "##"@, hdr))
        }
    }
}

impl Finding {
    /// Writes the finding code for `index` into the content's header, as
    /// `format_header_spec` describes.
    pub fn format_finding_content_header_with_finding_code(
        finding_content: &str,
        index: usize,
    ) -> (r: String)
        requires
            index < usize::MAX,
        ensures
            r@ == format_header_spec(finding_content@, index as int),
    {
        let lines = split_lines(finding_content);
        if lines.len() == 0 {
            return finding_content.to_owned();
        }
        proof {
            assert(lines@[0]@ == lines_of(finding_content@)[0]);
        }
        let mut hdr = String::from_str("## KS-");
        if index < 9 {
            hdr.append("0");
        }
        hdr.append(usize_to_string(index + 1).as_str());
        proof {
            reveal_strlit("## ");
            reveal_strlit("KS-");
            reveal_strlit("## KS-");
            reveal_strlit("0");
            assert("## KS-"@ =~= "## "@ + "KS-"@);
            assert("0"@ =~= seq!['0']);
            assert(hdr@ =~= "## "@ + finding_code_of(index as int));
        }
        if starts_with_str(lines[0].as_str(), hdr.as_str()) {
            return finding_content.to_owned();
        }
        let newfirst = replace_all(lines[0].as_str(), "##", hdr.as_str());
        replace_all(finding_content, lines[0].as_str(), newfirst.as_str())
    }

    /// One markdown table row for this finding: its code, severity, title
    /// and status between pipes.
    pub fn parse_finding_table_row_markdown(&self) -> (r: String)
        ensures
            r@ == "|"@ + self.code@ + "|"@ + level_str(self.severity) + "|"@ + self.title@
                + "|"@ + status_str(self.status) + "|"@,
    {
        let mut out = String::from_str("|");
        out.append(self.code.as_str());
        out.append("|");
        out.append(self.severity.to_string().as_str());
        out.append("|");
        out.append(self.title.as_str());
        out.append("|");
        out.append(self.status.to_string().as_str());
        out.append("|");
        out
    }

    /// One HTML table row for the list of findings: code, colored
    /// severity, title and colored status in table cells.
    pub fn parse_list_of_findings_table_row_html(&self) -> (r: String)
        ensures
            r@ == list_row_html_of(self@),
    {
        let mut out = String::from_str("<tr><td>");
        out.append(self.code.as_str());
        out.append("</td>  <td>");
        let sev_span = span_exec(
            self.severity.get_hex_color().as_str(),
            self.severity.to_string().as_str(),
        );
        out.append(sev_span.as_str());
        out.append("</td>  <td>");
        out.append(self.title.as_str());
        out.append("</td>  <td>");
        let st_span = span_exec(
            self.status.get_hex_color().as_str(),
            self.status.to_string().as_str(),
        );
        out.append(st_span.as_str());
        out.append("</td></tr>");
        out
    }

    /// The content with the shared figures path rewritten for a report
    /// that sits inside the audit folder.
    pub fn parse_finding_content_for_audit_folder_path(&self) -> (r: String)
        ensures
            r@ == replace_seq(self.content@, "../../figures"@, "./figures"@),
    {
        replace_all(self.content.as_str(), "../../figures", "./figures")
    }

    /// The content with the shared figures path rewritten to the given
    /// figures folder, for a report that sits at the repository root.
    pub fn parse_finding_content_for_root_path(&self, audit_result_figures_path: &str) -> (r:
        String)
        ensures
            r@ == replace_seq(self.content@, "../../figures"@, audit_result_figures_path@),
    {
        replace_all(self.content.as_str(), "../../figures", audit_result_figures_path)
    }
}

/// The three level names a finding table row is recognized by.
pub open spec fn severity_words() -> Seq<Seq<char>> {
    seq!["High"@, "Medium"@, "Low"@]
}

/// Index of the first line at or after `from` that contains one of
/// `pats`, or -1 when there is none.
pub open spec fn find_line_any(lines: Seq<Seq<char>>, pats: Seq<Seq<char>>, from: int) -> int
    decreases lines.len() - from,
{
    if !(0 <= from < lines.len()) {
        -1
    } else if contains_any(lines[from], pats) {
        from
    } else {
        find_line_any(lines, pats, from + 1)
    }
}

/// `find_line_any` finds the least line containing one of `pats`, or -1.
proof fn lemma_find_line_any(lines: Seq<Seq<char>>, pats: Seq<Seq<char>>, from: int)
    requires
        0 <= from,
    ensures
        find_line_any(lines, pats, from) == -1 ==> forall|k: int|
            from <= k < lines.len() ==> !contains_any(#[trigger] lines[k], pats),
        find_line_any(lines, pats, from) != -1 ==> {
            let f = find_line_any(lines, pats, from);
            from <= f < lines.len() && contains_any(lines[f], pats) && (forall|k: int|
                from <= k < f ==> !contains_any(#[trigger] lines[k], pats))
        },
    decreases lines.len() - from,
{
    if !(0 <= from < lines.len()) {
    } else if contains_any(lines[from], pats) {
    } else {
        lemma_find_line_any(lines, pats, from + 1);
    }
}

/// Tests whether `line` contains one of the three level names.
fn contains_severity_word(line: &str) -> (r: bool)
    ensures
        r == contains_any(line@, severity_words()),
{
    let hit = contains_str(line, "High") || contains_str(line, "Medium") || contains_str(
        line,
        "Low",
    );
    proof {
        if hit {
            if contains_sub(line@, "High"@) {
                assert(contains_sub(line@, severity_words()[0]));
            } else if contains_sub(line@, "Medium"@) {
                assert(contains_sub(line@, severity_words()[1]));
            } else {
                assert(contains_sub(line@, severity_words()[2]));
            }
        } else {
            assert forall|i: int| 0 <= i < severity_words().len() implies !contains_sub(
                line@,
                #[trigger] severity_words()[i],
            ) by {
                if i == 0 {
                } else if i == 1 {
                } else {
                    assert(severity_words()[i] == "Low"@);
                }
            }
        }
    }
    hit
}

/// First line of `lines` that contains one of the three level names.
fn find_severity_row(lines: &Vec<String>) -> (r: Option<usize>)
    ensures
        match r {
            Some(i) => i as int == find_line_any(views_of(lines@), severity_words(), 0) && (
            i as int) < lines@.len(),
            None => find_line_any(views_of(lines@), severity_words(), 0) == -1,
        },
{
    let ghost lv = views_of(lines@);
    let n: usize = lines.len();
    let mut idx: usize = 0;
    while idx < n
        invariant
            idx <= n,
            n == lines@.len(),
            lv == views_of(lines@),
            forall|k: int| 0 <= k < idx ==> !contains_any(#[trigger] lv[k], severity_words()),
        decreases n - idx,
    {
        proof {
            assert(lines@[idx as int]@ == lv[idx as int]);
        }
        if contains_severity_word(lines[idx].as_str()) {
            proof {
                lemma_find_line_any(lv, severity_words(), 0);
                let f = find_line_any(lv, severity_words(), 0);
                if f == -1 {
                    assert(!contains_any(lv[idx as int], severity_words()));
                    assert(false);
                }
                if f < idx {
                    assert(!contains_any(lv[f], severity_words()));
                    assert(false);
                }
                if f > idx {
                    assert(!contains_any(lv[idx as int], severity_words()));
                    assert(false);
                }
            }
            return Some(idx);
        }
        idx = idx + 1;
    }
    proof {
        lemma_find_line_any(lv, severity_words(), 0);
        let f = find_line_any(lv, severity_words(), 0);
        if f != -1 {
            assert(!contains_any(lv[f], severity_words()));
            assert(false);
        }
    }
    None
}

/// The trimmed cells of a table row that hold one of the three level
/// names.
pub open spec fn severity_cells(segs: Seq<Seq<char>>) -> Seq<Seq<char>>
    decreases segs.len(),
{
    if segs.len() == 0 {
        Seq::empty()
    } else {
        let t = trim_of(segs[0]);
        if contains_any(t, severity_words()) {
            seq![t] + severity_cells(segs.drop_first())
        } else {
            severity_cells(segs.drop_first())
        }
    }
}

/// Collects the trimmed level-naming cells, as `severity_cells` describes.
fn severity_cells_exec(segs: &Vec<String>) -> (out: Vec<String>)
    ensures
        views_of(out@) == severity_cells(views_of(segs@)),
{
    let ghost sv = views_of(segs@);
    let mut out: Vec<String> = Vec::new();
    let n: usize = segs.len();
    let mut i: usize = 0;
    proof {
        assert(sv.skip(0) =~= sv);
        assert(views_of(out@) + severity_cells(sv) =~= severity_cells(sv));
    }
    while i < n
        invariant
            i <= n,
            n == segs@.len(),
            sv == views_of(segs@),
            severity_cells(sv) == views_of(out@) + severity_cells(sv.skip(i as int)),
        decreases n - i,
    {
        let ghost rem = sv.skip(i as int);
        proof {
            assert(rem[0] == segs@[i as int]@);
            assert(rem.drop_first() =~= sv.skip(i + 1));
        }
        let t = trim_str(segs[i].as_str());
        if contains_severity_word(t.as_str()) {
            let ghost old_out = out@;
            out.push(t);
            proof {
                assert(views_of(out@) =~= views_of(old_out).push(trim_of(rem[0])));
                assert(severity_cells(rem) == seq![trim_of(rem[0])] + severity_cells(
                    rem.drop_first(),
                ));
                assert(views_of(old_out) + (seq![trim_of(rem[0])] + severity_cells(
                    rem.drop_first(),
                )) =~= views_of(out@) + severity_cells(rem.drop_first()));
            }
        }
        i = i + 1;
    }
    proof {
        assert(severity_cells(sv.skip(i as int)) =~= Seq::<Seq<char>>::empty());
        assert(views_of(out@) + Seq::<Seq<char>>::empty() =~= views_of(out@));
    }
    out
}

/// The data parsed from a finding's markdown: code, title, severity,
/// status, and the impact, likelihood and difficulty of a graded finding.
/// The header line gives the code (its first token after `## `, colons
/// removed) and the title (the trimmed text after that token); the
/// severity and status lines give the levels; a graded finding's levels
/// come from the first table row between the status marker and the
/// description header that names levels.
pub open spec fn parse_finding_spec(content: Seq<char>) -> Result<
    FindingDataV,
    FindingError,
> {
    let lines = lines_of(content);
    if lines.len() == 0 || !is_prefix("## "@, lines[0]) {
        Err(FindingError::MissingHeader)
    } else {
        let after = lines[0].skip("## "@.len() as int);
        let code = replace_seq(before_ch(after, ' '), ":"@, Seq::empty());
        let sp = find_ch(after, ' ');
        if !(0 <= sp < after.len()) {
            Err(FindingError::MalformedHeader)
        } else {
            let title = trim_of(after.skip(sp + 1));
            let sev_idx = find_line_with(lines, "**Severity:**"@, 0);
            if sev_idx < 0 {
                Err(FindingError::MissingSeverity)
            } else if !is_prefix("**Severity:** "@, lines[sev_idx]) {
                Err(FindingError::MalformedSeverity)
            } else {
                match level_of(lines[sev_idx].skip("**Severity:** "@.len() as int)) {
                    None => Err(FindingError::UnknownSeverityLevel),
                    Some(severity) => {
                        let st_idx = find_line_with(lines, "**Status:**"@, 0);
                        if st_idx < 0 {
                            Err(FindingError::MissingStatus)
                        } else if !is_prefix("**Status:** "@, lines[st_idx]) {
                            Err(FindingError::MalformedStatus)
                        } else {
                            match status_of(lines[st_idx].skip("**Status:** "@.len() as int)) {
                                None => Err(FindingError::UnknownStatusLevel),
                                Some(status) => {
                                    if severity == FindingLevel::Informational {
                                        Ok(
                                            FindingDataV {
                                                code,
                                                title,
                                                severity,
                                                status,
                                                impact: None,
                                                likelihood: None,
                                                difficulty: None,
                                            },
                                        )
                                    } else {
                                        parse_finding_table_spec(
                                            content,
                                            code,
                                            title,
                                            severity,
                                            status,
                                        )
                                    }
                                },
                            }
                        }
                    },
                }
            }
        }
    }
}

/// The impact table of a graded finding: the first level-naming row of the
/// text between the status marker and the description header, read as
/// impact, likelihood and difficulty.
pub open spec fn parse_finding_table_spec(
    content: Seq<char>,
    code: Seq<char>,
    title: Seq<char>,
    severity: FindingLevel,
    status: StatusLevel,
) -> Result<FindingDataV, FindingError> {
    let t1 = find_sub(content, "**Status:**"@);
    let t2 = find_sub(content, "### Description"@);
    if t1 < 0 || t2 < 0 || t1 + "**Status:**"@.len() > t2 {
        Ok(
            FindingDataV {
                code,
                title,
                severity,
                status,
                impact: None,
                likelihood: None,
                difficulty: None,
            },
        )
    } else {
        let table = content.subrange(t1 + "**Status:**"@.len(), t2);
        let tlines = lines_of(table);
        let row_idx = find_line_any(tlines, severity_words(), 0);
        if row_idx < 0 {
            Err(FindingError::MissingFindingTable)
        } else {
            let cells = severity_cells(split_ch(tlines[row_idx], '|'));
            if cells.len() < 3 {
                Err(FindingError::MalformedFindingTable)
            } else {
                match (level_of(cells[0]), level_of(cells[1]), level_of(cells[2])) {
                    (Some(impact), Some(likelihood), Some(difficulty)) => {
                        if difficulty == FindingLevel::Informational {
                            Err(FindingError::MalformedFindingTable)
                        } else {
                            Ok(
                                FindingDataV {
                                    code,
                                    title,
                                    severity,
                                    status,
                                    impact: Some(impact),
                                    likelihood: Some(likelihood),
                                    difficulty: Some(difficulty),
                                },
                            )
                        }
                    },
                    _ => Err(FindingError::UnknownSeverityLevel),
                }
            }
        }
    }
}

/// The data a finding's markdown parses to.
#[verifier::ext_equal]
pub ghost struct FindingDataV {
    pub code: Seq<char>,
    pub title: Seq<char>,
    pub severity: FindingLevel,
    pub status: StatusLevel,
    pub impact: Option<FindingLevel>,
    pub likelihood: Option<FindingLevel>,
    pub difficulty: Option<FindingLevel>,
}

impl Finding {
    /// Reads the impact table of a graded finding, as
    /// `parse_finding_table_spec` describes.
    fn parse_finding_table(
        finding_content: &str,
        code: String,
        title: String,
        severity: FindingLevel,
        status: StatusLevel,
    ) -> (r: Result<
        (
            String,
            String,
            FindingLevel,
            StatusLevel,
            Option<FindingLevel>,
            Option<FindingLevel>,
            Option<FindingLevel>,
        ),
        FindingError,
    >)
        ensures
            match r {
                Ok(d) => parse_finding_table_spec(
                    finding_content@,
                    code@,
                    title@,
                    severity,
                    status,
                ) == Ok::<FindingDataV, FindingError>(
                    FindingDataV {
                        code: d.0@,
                        title: d.1@,
                        severity: d.2,
                        status: d.3,
                        impact: d.4,
                        likelihood: d.5,
                        difficulty: d.6,
                    },
                ) && (d.4 is Some <==> d.5 is Some) && (d.4 is Some <==> d.6 is Some) && (
                match d.6 {
                    Some(x) => x != FindingLevel::Informational,
                    None => true,
                }) && d.2 == severity && d.3 == status,
                Err(e) => parse_finding_table_spec(
                    finding_content@,
                    code@,
                    title@,
                    severity,
                    status,
                ) == Err::<FindingDataV, FindingError>(e),
            },
    {
        let t1 = match find_substr(finding_content, "**Status:**") {
            Some(t1) => t1,
            None => {
                return Ok((code, title, severity, status, None, None, None));
            },
        };
        let t2 = match find_substr(finding_content, "### Description") {
            Some(t2) => t2,
            None => {
                return Ok((code, title, severity, status, None, None, None));
            },
        };
        let mlen: usize = "**Status:**".unicode_len();
        let n: usize = finding_content.unicode_len();
        proof {
            lemma_find_sub(finding_content@, "**Status:**"@);
            lemma_find_sub(finding_content@, "### Description"@);
            assert(t1 + mlen <= n);
        }
        if t1 + mlen > t2 {
            return Ok((code, title, severity, status, None, None, None));
        }
        let table = finding_content.substring_char(t1 + mlen, t2);
        proof {
            assert(table@ =~= finding_content@.subrange(
                t1 + "**Status:**"@.len(),
                t2 as int,
            ));
        }
        let tlines = split_lines(table);
        let row_idx = match find_severity_row(&tlines) {
            Some(row_idx) => row_idx,
            None => {
                return Err(FindingError::MissingFindingTable);
            },
        };
        proof {
            assert(tlines@[row_idx as int]@ == lines_of(table@)[row_idx as int]);
        }
        let segs = split_char_vec(tlines[row_idx].as_str(), '|');
        let cells = severity_cells_exec(&segs);
        if cells.len() < 3 {
            return Err(FindingError::MalformedFindingTable);
        }
        proof {
            assert(cells@[0]@ == severity_cells(split_ch(
                lines_of(table@)[row_idx as int],
                '|',
            ))[0]);
            assert(cells@[1]@ == severity_cells(split_ch(
                lines_of(table@)[row_idx as int],
                '|',
            ))[1]);
            assert(cells@[2]@ == severity_cells(split_ch(
                lines_of(table@)[row_idx as int],
                '|',
            ))[2]);
        }
        let impact = match FindingLevel::from_str(cells[0].as_str()) {
            Ok(l) => l,
            Err(_) => {
                return Err(FindingError::UnknownSeverityLevel);
            },
        };
        let likelihood = match FindingLevel::from_str(cells[1].as_str()) {
            Ok(l) => l,
            Err(_) => {
                return Err(FindingError::UnknownSeverityLevel);
            },
        };
        let difficulty = match FindingLevel::from_str(cells[2].as_str()) {
            Ok(l) => l,
            Err(_) => {
                return Err(FindingError::UnknownSeverityLevel);
            },
        };
        if difficulty == FindingLevel::Informational {
            return Err(FindingError::MalformedFindingTable);
        }
        Ok((code, title, severity, status, Some(impact), Some(likelihood), Some(difficulty)))
    }

    /// Parses finding data out of header-formatted content, as
    /// `parse_finding_spec` describes.
    fn parse_finding_data(finding_content: &str) -> (r: Result<
        (
            String,
            String,
            FindingLevel,
            StatusLevel,
            Option<FindingLevel>,
            Option<FindingLevel>,
            Option<FindingLevel>,
        ),
        FindingError,
    >)
        ensures
            match r {
                Ok(d) => parse_finding_spec(finding_content@) == Ok::<
                    FindingDataV,
                    FindingError,
                >(
                    FindingDataV {
                        code: d.0@,
                        title: d.1@,
                        severity: d.2,
                        status: d.3,
                        impact: d.4,
                        likelihood: d.5,
                        difficulty: d.6,
                    },
                ) && (d.2 == FindingLevel::Informational ==> d.4 is None) && (d.4 is Some
                    <==> d.5 is Some) && (d.4 is Some <==> d.6 is Some) && (match d.6 {
                    Some(x) => x != FindingLevel::Informational,
                    None => true,
                }),
                Err(e) => parse_finding_spec(finding_content@) == Err::<
                    FindingDataV,
                    FindingError,
                >(e),
            },
    {
        let ghost lv = lines_of(finding_content@);
        let lines = split_lines(finding_content);
        if lines.len() == 0 {
            return Err(FindingError::MissingHeader);
        }
        proof {
            assert(lines@[0]@ == lv[0]);
        }
        if !starts_with_str(lines[0].as_str(), "## ") {
            return Err(FindingError::MissingHeader);
        }
        proof {
            reveal_strlit("## ");
        }
        let n0: usize = lines[0].as_str().unicode_len();
        let after = lines[0].as_str().substring_char(3, n0).to_owned();
        proof {
            assert(after@ =~= lv[0].skip("## "@.len() as int));
        }
        let code_tok = before_char(after.as_str(), ' ');
        let code = replace_all(code_tok.as_str(), ":", "");
        proof {
            reveal_strlit("");
            assert(""@ =~= Seq::<char>::empty());
        }
        let sp = match find_char(after.as_str(), ' ') {
            Some(sp) => sp,
            None => {
                return Err(FindingError::MalformedHeader);
            },
        };
        let na: usize = after.as_str().unicode_len();
        let title_raw = after.as_str().substring_char(sp + 1, na);
        proof {
            assert(title_raw@ =~= after@.skip(sp + 1));
        }
        let title = trim_str(title_raw);
        let sev_idx = match find_line_containing(&lines, "**Severity:**") {
            Some(i) => i,
            None => {
                return Err(FindingError::MissingSeverity);
            },
        };
        proof {
            assert(lines@[sev_idx as int]@ == lv[sev_idx as int]);
        }
        let sev_rest = match strip_prefix_str(lines[sev_idx].as_str(), "**Severity:** ") {
            Some(x) => x,
            None => {
                return Err(FindingError::MalformedSeverity);
            },
        };
        let severity = match FindingLevel::from_str(sev_rest.as_str()) {
            Ok(l) => l,
            Err(_) => {
                return Err(FindingError::UnknownSeverityLevel);
            },
        };
        let st_idx = match find_line_containing(&lines, "**Status:**") {
            Some(i) => i,
            None => {
                return Err(FindingError::MissingStatus);
            },
        };
        proof {
            assert(lines@[st_idx as int]@ == lv[st_idx as int]);
        }
        let st_rest = match strip_prefix_str(lines[st_idx].as_str(), "**Status:** ") {
            Some(x) => x,
            None => {
                return Err(FindingError::MalformedStatus);
            },
        };
        let status = match StatusLevel::from_str(st_rest.as_str()) {
            Ok(s) => s,
            Err(_) => {
                return Err(FindingError::UnknownStatusLevel);
            },
        };
        if severity == FindingLevel::Informational {
            return Ok((code, title, severity, status, None, None, None));
        }
        Self::parse_finding_table(finding_content, code, title, severity, status)
    }

    /// Builds a finding from a finding file's markdown: the header is
    /// stamped with the code for `index`, and the data is parsed from the
    /// formatted content.
    pub fn new_from_str(finding_content: &str, index: usize) -> (r: Result<
        Finding,
        FindingError,
    >)
        requires
            index < usize::MAX,
        ensures
            match r {
                Ok(f) => parse_finding_spec(
                    format_header_spec(finding_content@, index as int),
                ) matches Ok(d) && f@.code == d.code && f@.title == d.title && f@.severity
                    == d.severity && f@.status == d.status && f@.impact == d.impact
                    && f@.likelihood == d.likelihood && f@.difficulty == d.difficulty
                    && f@.content == format_header_spec(finding_content@, index as int)
                    && f@.index == index as int && finding_wf(f@),
                Err(e) => parse_finding_spec(
                    format_header_spec(finding_content@, index as int),
                ) matches Err(e2) && e2 == e,
            },
    {
        let content = Self::format_finding_content_header_with_finding_code(
            finding_content,
            index,
        );
        match Self::parse_finding_data(content.as_str()) {
            Err(e) => Err(e),
            Ok(d) => {
                let (code, title, severity, status, impact, likelihood, difficulty) = d;
                Ok(
                    Finding {
                        code,
                        title,
                        severity,
                        impact,
                        likelihood,
                        difficulty,
                        status,
                        content,
                        index,
                    },
                )
            },
        }
    }
}

/// A colored HTML span around `txt`.
pub open spec fn span_of(hex: Seq<char>, txt: Seq<char>) -> Seq<char> {
    "<span style='color:"@ + hex + ";'>"@ + txt + "</span>"@
}

/// The HTML list row of a finding: code, colored severity, title and
/// colored status in table cells.
pub open spec fn list_row_html_of(f: FindingV) -> Seq<char> {
    "<tr><td>"@ + f.code + "</td>  <td>"@ + span_of(level_hex(f.severity), level_str(f.severity))
        + "</td>  <td>"@ + f.title + "</td>  <td>"@ + span_of(
        status_hex(f.status),
        status_str(f.status),
    ) + "</td></tr>"@
}

/// Builds a colored HTML span, as `span_of` describes.
fn span_exec(hex: &str, txt: &str) -> (r: String)
    ensures
        r@ == span_of(hex@, txt@),
{
    let mut out = String::from_str("<span style='color:");
    out.append(hex);
    out.append(";'>");
    out.append(txt);
    out.append("</span>");
    out
}

/// The style class of the difficulty cell, which grades inversely: a low
/// difficulty makes the finding worse.
pub open spec fn difficulty_class(d: FindingLevel) -> Seq<char> {
    match d {
        FindingLevel::Low => "high"@,
        FindingLevel::Medium => "medium"@,
        FindingLevel::High => "low"@,
        FindingLevel::Informational => "low"@,
    }
}

/// The severity/status summary table of a finding as HTML: a two-cell
/// table for an informational finding, and the full severity and
/// impact/likelihood/difficulty tables for a graded one.
pub open spec fn table_html_spec(f: FindingV) -> Seq<char> {
    if f.severity == FindingLevel::Informational {
        "<div style='width:50%; margin: auto'>\n            <table class='alg'>\n                <thead>\n                <tr>\n                    <th style='font-weight:bold'>Severity</th>    <th class='informational'>Informational</th>     \n                </thead>\n                </tr>\n                <tbody>\n                <tr>\n                    <td style='background: #043456; color: white; font-weight:bold'>Status</td>    <td class='"@
            + status_str_lower(f.status) + "'>"@ + status_str(f.status)
            + "</td>\n                </tr>\n                </tbody>\n            </table>\n        </div>\n"@
    } else {
        let impact = match f.impact {
            Some(x) => x,
            None => FindingLevel::High,
        };
        let likelihood = match f.likelihood {
            Some(x) => x,
            None => FindingLevel::High,
        };
        let difficulty = match f.difficulty {
            Some(x) => x,
            None => FindingLevel::High,
        };
        "\n<div style='width:50%; margin: auto'>\n    <table class='alg'>\n        <thead>\n        <tr>\n            <th style='font-weight:bold'>Severity</th>    <th class='"@
            + level_str_lower(f.severity) + "'>"@ + level_str(f.severity)
            + "</th>     \n        </thead>\n        </tr>\n        <tbody>\n        <tr>\n            <td style='background: #043456; color: white; font-weight:bold'>Status</td>    <td class='"@
            + status_str_lower(f.status) + "'>"@ + status_str(f.status)
            + "</td>\n        </tr>\n        </tbody>\n    </table>\n</div>\n<table>\n    <thead>\n    <tr>\n        <th>Impact</th>    <th>Likelihood</th>    <th>Difficulty</th>\n    </tr>\n    </thead>\n    <tbody>\n    <tr>\n        <td class='"@
            + level_str_lower(impact) + "'>"@ + level_str(impact) + "</td>    <td class='"@
            + level_str_lower(likelihood) + "'>"@ + level_str(likelihood)
            + "</td>    <td class='"@ + difficulty_class(difficulty) + "'>"@ + level_str(
            difficulty,
        ) + "</td>\n    </tr>\n    </tbody>\n</table>\n"@
    }
}

impl Finding {
    /// Renders the severity/status summary of this finding as HTML, as
    /// `table_html_spec` describes.
    pub fn parse_finding_table_html(&self) -> (r: String)
        requires
            finding_wf(self@),
            finding_gradable(self@),
        ensures
            r@ == table_html_spec(self@),
    {
        if self.severity == FindingLevel::Informational {
            let mut out = String::from_str(
                "<div style='width:50%; margin: auto'>\n            <table class='alg'>\n                <thead>\n                <tr>\n                    <th style='font-weight:bold'>Severity</th>    <th class='informational'>Informational</th>     \n                </thead>\n                </tr>\n                <tbody>\n                <tr>\n                    <td style='background: #043456; color: white; font-weight:bold'>Status</td>    <td class='",
            );
            out.append(self.status.to_lower_string().as_str());
            out.append("'>");
            out.append(self.status.to_string().as_str());
            out.append(
                "</td>\n                </tr>\n                </tbody>\n            </table>\n        </div>\n",
            );
            out
        } else {
            let impact = match self.impact {
                Some(x) => x,
                None => {
                    proof {
                        assert(false);
                    }
                    FindingLevel::High
                },
            };
            let likelihood = match self.likelihood {
                Some(x) => x,
                None => {
                    proof {
                        assert(false);
                    }
                    FindingLevel::High
                },
            };
            let difficulty = match self.difficulty {
                Some(x) => x,
                None => {
                    proof {
                        assert(false);
                    }
                    FindingLevel::High
                },
            };
            let difficulty_style = match difficulty {
                FindingLevel::Low => String::from_str("high"),
                FindingLevel::Medium => String::from_str("medium"),
                FindingLevel::High => String::from_str("low"),
                FindingLevel::Informational => {
                    proof {
                        assert(false);
                    }
                    String::from_str("low")
                },
            };
            let mut out = String::from_str(
                "\n<div style='width:50%; margin: auto'>\n    <table class='alg'>\n        <thead>\n        <tr>\n            <th style='font-weight:bold'>Severity</th>    <th class='",
            );
            out.append(self.severity.to_lower_string().as_str());
            out.append("'>");
            out.append(self.severity.to_string().as_str());
            out.append(
                "</th>     \n        </thead>\n        </tr>\n        <tbody>\n        <tr>\n            <td style='background: #043456; color: white; font-weight:bold'>Status</td>    <td class='",
            );
            out.append(self.status.to_lower_string().as_str());
            out.append("'>");
            out.append(self.status.to_string().as_str());
            out.append(
                "</td>\n        </tr>\n        </tbody>\n    </table>\n</div>\n<table>\n    <thead>\n    <tr>\n        <th>Impact</th>    <th>Likelihood</th>    <th>Difficulty</th>\n    </tr>\n    </thead>\n    <tbody>\n    <tr>\n        <td class='",
            );
            out.append(impact.to_lower_string().as_str());
            out.append("'>");
            out.append(impact.to_string().as_str());
            out.append("</td>    <td class='");
            out.append(likelihood.to_lower_string().as_str());
            out.append("'>");
            out.append(likelihood.to_string().as_str());
            out.append("</td>    <td class='");
            out.append(difficulty_style.as_str());
            out.append("'>");
            out.append(difficulty.to_string().as_str());
            out.append("</td>\n    </tr>\n    </tbody>\n</table>\n");
            out
        }
    }

    /// Replaces the markdown between the severity line and the line before
    /// the description header by the HTML summary table, as
    /// `format_markdown_to_html_spec` describes.
    pub fn format_markdown_to_html(&mut self) -> (r: Result<(), FindingError>)
        requires
            finding_wf(old(self)@),
            finding_gradable(old(self)@),
        ensures
            final(self).code == old(self).code,
            final(self).title == old(self).title,
            final(self).severity == old(self).severity,
            final(self).impact == old(self).impact,
            final(self).likelihood == old(self).likelihood,
            final(self).difficulty == old(self).difficulty,
            final(self).status == old(self).status,
            final(self).index == old(self).index,
            finding_wf(final(self)@),
            match r {
                Ok(()) => format_markdown_to_html_spec(old(self)@) matches Ok(c)
                    && final(self).content@ == c,
                Err(e) => format_markdown_to_html_spec(old(self)@) matches Err(e2) && e2 == e
                    && final(self).content == old(self).content,
            },
    {
        let ghost lv = lines_of(self.content@);
        let lines = split_lines(self.content.as_str());
        let sev_idx = match find_line_containing(&lines, "**Severity:**") {
            Some(i) => i,
            None => {
                return Err(FindingError::MissingSeverity);
            },
        };
        let desc_idx = match find_line_containing(&lines, "### Description") {
            Some(i) => i,
            None => {
                return Err(FindingError::MissingDescriptionSection);
            },
        };
        if desc_idx == 0 || sev_idx > desc_idx - 1 {
            return Err(FindingError::MalformedContent);
        }
        let data_content = join_range(&lines, sev_idx, desc_idx - 1);
        let html_content = self.parse_finding_table_html();
        let new_content = replace_all(
            self.content.as_str(),
            data_content.as_str(),
            html_content.as_str(),
        );
        self.content = new_content;
        Ok(())
    }
}

/// The markdown between the severity line and the line before the
/// description header, replaced in the content by the HTML summary table.
pub open spec fn format_markdown_to_html_spec(f: FindingV) -> Result<Seq<char>, FindingError> {
    let lines = lines_of(f.content);
    let sev_idx = find_line_with(lines, "**Severity:**"@, 0);
    let desc_idx = find_line_with(lines, "### Description"@, 0);
    if sev_idx < 0 {
        Err(FindingError::MissingSeverity)
    } else if desc_idx < 0 {
        Err(FindingError::MissingDescriptionSection)
    } else if sev_idx > desc_idx - 1 {
        Err(FindingError::MalformedContent)
    } else {
        let data = join_nl(lines.subrange(sev_idx, desc_idx as int));
        Ok(replace_seq(f.content, data, table_html_spec(f)))
    }
}

/// A finding file's content taken through the whole pipeline: the header
/// stamped with the code for `index`, the data parsed, and the summary
/// table rendered to HTML.
pub open spec fn processed_finding_spec(content: Seq<char>, index: int) -> Result<
    FindingV,
    FindingError,
> {
    let formatted = format_header_spec(content, index);
    match parse_finding_spec(formatted) {
        Err(e) => Err(e),
        Ok(d) => {
            let f = FindingV {
                code: d.code,
                title: d.title,
                severity: d.severity,
                impact: d.impact,
                likelihood: d.likelihood,
                difficulty: d.difficulty,
                status: d.status,
                content: formatted,
                index: index,
            };
            if !finding_gradable(f) {
                Err(FindingError::MissingFindingTable)
            } else {
                match format_markdown_to_html_spec(f) {
                    Err(e) => Err(e),
                    Ok(c) => Ok(FindingV { content: c, ..f }),
                }
            }
        },
    }
}

/// The style block shared by both findings reports.
pub open spec fn html_table_style() -> Seq<char> {
    "<style>\n\n\ntr th {\n    background: #043456;\n    color:white;\n    width: 2%;\n    text-align: center;\n    border: 2px solid black;\n}\n\n.alg tr {\n    width: 2%;\n    text-align: center;\n    border: 2px solid black;\n}\n.alg thead tr th:nth-of-type(2) {\n    width: 9%;\n    text-align: center;\n    border: 2px solid black;\n}\n\ntr td {\n    background: white;\n    width: 2%;\n    text-align: center;\n    border: 2px solid black;\n}\n.high {\n    background: #fd0011;\n    border: 2px solid yellow;\n    text-align: center;\n    color: white;\n} \n.medium {\n    background: #f58b45;\n    border: 2px solid yellow;\n    text-align: center;\n    color: white;\n}\n.low {\n    background: #16a54d;\n    border: 20px solid yellow;\n    text-align: center;\n    color: white;\n}\n.informational {\n    background: #0666b4;\n    border: 2px solid yellow;\n    text-align: center;\n    color: white;\n}\n.open {\n    background: #16a54d;\n    border: 2px solid yellow;\n    text-align: center;\n    color: white;\n}\n\n.list th{\n    background: #043456;\n    color: white\n}\n.list td{\n    color: black\n}\n\n</style>"@
}

/// The list-of-findings table shell, with a placeholder where the rows
/// go.
pub open spec fn html_list_of_findings_header() -> Seq<char> {
    "<table class='list'>\n<thead>\n    <tr>\n        <th style='width:2%'>#</th>  <th>Severity</th>  <th style='width:10%'>Description</th>  <th>Status</th>    \n    </tr>\n</thead>\n<tbody>\n    RESULT_TABLE_PLACEHOLDER\n</tbody>\n</table>\n"@
}

/// The list header both report bodies open with.
pub open spec fn list_of_findings_opening() -> Seq<char> {
    "\n## List of Findings\n\n"@
}

/// The fold that walks the finding files in order, processing each and
/// accumulating the HTML rows and the two report bodies.
pub open spec fn findings_fold(
    contents: Seq<Seq<char>>,
    figures: Seq<char>,
    i: int,
    rows: Seq<Seq<char>>,
    sub: Seq<char>,
    root: Seq<char>,
) -> Result<(Seq<Seq<char>>, Seq<char>, Seq<char>), FindingError>
    decreases contents.len() - i,
{
    if !(0 <= i < contents.len()) {
        Ok((rows, sub, root))
    } else {
        match processed_finding_spec(contents[i], i) {
            Err(e) => Err(e),
            Ok(f) => findings_fold(
                contents,
                figures,
                i + 1,
                rows.push(list_row_html_of(f)),
                sub + "\n"@ + replace_seq(f.content, "../../figures"@, "./figures"@)
                    + "\n---\n"@,
                root + "\n"@ + replace_seq(f.content, "../../figures"@, figures) + "\n---\n"@,
            ),
        }
    }
}

/// The two bodies of the findings report built from the finding files:
/// the one written at the repository root and the one written inside the
/// audit folder, each a findings table followed by the full findings.
pub open spec fn findings_result_spec(contents: Seq<Seq<char>>, figures: Seq<char>) -> Result<
    (Seq<char>, Seq<char>),
    FindingError,
> {
    let table0 = "# Findings result\n\n## Table of findings\n"@ + html_list_of_findings_header()
        + "\n"@;
    match findings_fold(
        contents,
        figures,
        0,
        Seq::empty(),
        list_of_findings_opening(),
        list_of_findings_opening(),
    ) {
        Err(e) => Err(e),
        Ok(acc) => {
            let table = replace_seq(table0, "RESULT_TABLE_PLACEHOLDER"@, join_nl(acc.0));
            Ok(
                (
                    table + "\n"@ + acc.2 + "\n\n\n\n"@ + html_table_style(),
                    table + "\n"@ + acc.1 + "\n\n\n"@ + html_table_style(),
                ),
            )
        },
    }
}

/// The audit file's content with its findings section — from the findings
/// header up to the code-overhaul header — replaced by `root_content`.
pub open spec fn update_audit_root_spec(content: Seq<char>, root_content: Seq<char>) -> Result<
    Seq<char>,
    FindingError,
> {
    let t1 = find_sub(content, "# Findings result"@);
    let t2 = find_sub(content, "# Code overhaul result"@);
    if t1 < 0 || t2 < 0 || t2 < t1 {
        Err(FindingError::MissingResultSection)
    } else {
        Ok(replace_seq(content, content.subrange(t1, t2), root_content))
    }
}

/// Replaces the findings section of the audit file's content by a freshly
/// built one, as `update_audit_root_spec` describes.
pub fn update_audit_result_root_content(
    audit_result_content: &str,
    root_content: &str,
) -> (r: Result<String, FindingError>)
    ensures
        match r {
            Ok(c) => update_audit_root_spec(audit_result_content@, root_content@) == Ok::<
                Seq<char>,
                FindingError,
            >(c@),
            Err(e) => update_audit_root_spec(audit_result_content@, root_content@) == Err::<
                Seq<char>,
                FindingError,
            >(e),
        },
{
    let t1 = match find_substr(audit_result_content, "# Findings result") {
        Some(t1) => t1,
        None => {
            return Err(FindingError::MissingResultSection);
        },
    };
    let t2 = match find_substr(audit_result_content, "# Code overhaul result") {
        Some(t2) => t2,
        None => {
            return Err(FindingError::MissingResultSection);
        },
    };
    if t2 < t1 {
        return Err(FindingError::MissingResultSection);
    }
    proof {
        lemma_find_sub(audit_result_content@, "# Findings result"@);
        lemma_find_sub(audit_result_content@, "# Code overhaul result"@);
    }
    let section = audit_result_content.substring_char(t1, t2);
    Ok(replace_all(audit_result_content, section, root_content))
}

/// Builds the two findings-report bodies from the finding files' contents
/// in report order and the figures folder of the root report, as
/// `findings_result_spec` describes.
pub fn findings_result_content(
    finding_contents: &Vec<String>,
    audit_result_figures_path: &str,
) -> (r: Result<(String, String), FindingError>)
    ensures
        match r {
            Ok(c) => findings_result_spec(
                views_of(finding_contents@),
                audit_result_figures_path@,
            ) == Ok::<(Seq<char>, Seq<char>), FindingError>((c.0@, c.1@)),
            Err(e) => findings_result_spec(
                views_of(finding_contents@),
                audit_result_figures_path@,
            ) == Err::<(Seq<char>, Seq<char>), FindingError>(e),
        },
{
    let ghost cv = views_of(finding_contents@);
    let ghost fig = audit_result_figures_path@;
    let mut rows: Vec<String> = Vec::new();
    let mut sub = String::from_str("\n## List of Findings\n\n");
    let mut root = String::from_str("\n## List of Findings\n\n");
    let n: usize = finding_contents.len();
    let mut i: usize = 0;
    proof {
        assert(views_of(rows@) =~= Seq::<Seq<char>>::empty());
    }
    while i < n
        invariant
            i <= n,
            n == finding_contents@.len(),
            cv == views_of(finding_contents@),
            fig == audit_result_figures_path@,
            findings_fold(
                cv,
                fig,
                0,
                Seq::empty(),
                list_of_findings_opening(),
                list_of_findings_opening(),
            ) == findings_fold(cv, fig, i as int, views_of(rows@), sub@, root@),
        decreases n - i,
    {
        proof {
            assert(finding_contents@[i as int]@ == cv[i as int]);
        }
        let mut f = match Finding::new_from_str(finding_contents[i].as_str(), i) {
            Ok(f) => f,
            Err(e) => {
                return Err(e);
            },
        };
        let ghost f_parsed = f@;
        if f.severity != FindingLevel::Informational && f.impact.is_none() {
            return Err(FindingError::MissingFindingTable);
        }
        match f.format_markdown_to_html() {
            Err(e) => {
                proof {
                    assert(processed_finding_spec(cv[i as int], i as int) == Err::<
                        FindingV,
                        FindingError,
                    >(e));
                }
                return Err(e);
            },
            Ok(()) => {},
        }
        proof {
            assert(processed_finding_spec(cv[i as int], i as int) == Ok::<
                FindingV,
                FindingError,
            >(f@)) by {
                match format_markdown_to_html_spec(f_parsed) {
                    Ok(c) => {
                        assert(f@ =~= FindingV { content: c, ..f_parsed });
                    },
                    Err(_) => {},
                }
            }
        }
        let row = f.parse_list_of_findings_table_row_html();
        let ghost old_rows = rows@;
        rows.push(row);
        sub.append("\n");
        sub.append(f.parse_finding_content_for_audit_folder_path().as_str());
        sub.append("\n---\n");
        root.append("\n");
        root.append(f.parse_finding_content_for_root_path(audit_result_figures_path).as_str());
        root.append("\n---\n");
        proof {
            assert(views_of(rows@) =~= views_of(old_rows).push(list_row_html_of(f@)));
        }
        i = i + 1;
    }
    let mut table0 = String::from_str("# Findings result\n\n## Table of findings\n");
    table0.append(
        "<table class='list'>\n<thead>\n    <tr>\n        <th style='width:2%'>#</th>  <th>Severity</th>  <th style='width:10%'>Description</th>  <th>Status</th>    \n    </tr>\n</thead>\n<tbody>\n    RESULT_TABLE_PLACEHOLDER\n</tbody>\n</table>\n",
    );
    table0.append("\n");
    let rows_joined = join_all_nl(&rows);
    let table = replace_all(table0.as_str(), "RESULT_TABLE_PLACEHOLDER", rows_joined.as_str());
    let style =
        "<style>\n\n\ntr th {\n    background: #043456;\n    color:white;\n    width: 2%;\n    text-align: center;\n    border: 2px solid black;\n}\n\n.alg tr {\n    width: 2%;\n    text-align: center;\n    border: 2px solid black;\n}\n.alg thead tr th:nth-of-type(2) {\n    width: 9%;\n    text-align: center;\n    border: 2px solid black;\n}\n\ntr td {\n    background: white;\n    width: 2%;\n    text-align: center;\n    border: 2px solid black;\n}\n.high {\n    background: #fd0011;\n    border: 2px solid yellow;\n    text-align: center;\n    color: white;\n} \n.medium {\n    background: #f58b45;\n    border: 2px solid yellow;\n    text-align: center;\n    color: white;\n}\n.low {\n    background: #16a54d;\n    border: 20px solid yellow;\n    text-align: center;\n    color: white;\n}\n.informational {\n    background: #0666b4;\n    border: 2px solid yellow;\n    text-align: center;\n    color: white;\n}\n.open {\n    background: #16a54d;\n    border: 2px solid yellow;\n    text-align: center;\n    color: white;\n}\n\n.list th{\n    background: #043456;\n    color: white\n}\n.list td{\n    color: black\n}\n\n</style>";
    let mut rootc = table.clone();
    rootc.append("\n");
    rootc.append(root.as_str());
    rootc.append("\n\n\n\n");
    rootc.append(style);
    let mut auditc = table;
    auditc.append("\n");
    auditc.append(sub.as_str());
    auditc.append("\n\n\n");
    auditc.append(style);
    Ok((rootc, auditc))
}

} // verus!
