//! Source-code pointers and screenshot options: the record that names a
//! slice of a source file, and the options a screenshot of it is rendered
//! with.

use vstd::prelude::*;
use vstd::string::*;

use crate::sonar::{contains_any, find_line_containing, find_line_with};
use crate::strutil::{
    before_sub, before_substr, contains_str, contains_sub, join_all_nl, join_nl, join_range,
    lines_of, replace_all, replace_seq, split_lines, split_sp, split_space, trim_of, trim_str,
    views_of,
};

verus! {

/// The families of metadata a screenshot can be taken for.
#[derive(Debug, PartialEq, Eq, Structural, Clone, Copy)]
pub enum BatMetadataType {
    Structs,
    Functions,
    Entrypoints,
}

/// How a source-code screenshot is rendered.
#[derive(Debug, Clone)]
pub struct SourceCodeScreenshotOptions {
    pub include_path: bool,
    pub offset_to_start_line: bool,
    pub filter_comments: bool,
    pub font_size: Option<usize>,
    pub filters: Option<Vec<String>>,
    pub show_line_number: bool,
}

impl SourceCodeScreenshotOptions {
    /// The default options used when screenshots are driven from
    /// metadata: path and line numbers included, offset to the starting
    /// line, comments kept, font size 20, no extra filters — the same for
    /// every metadata family.
    pub fn get_default_metadata_options(metadata_section: BatMetadataType) -> (r: Self)
        ensures
            r.include_path == true,
            r.offset_to_start_line == true,
            r.filter_comments == false,
            r.font_size == Some(20usize),
            r.filters is None,
            r.show_line_number == true,
    {
        match metadata_section {
            BatMetadataType::Structs => SourceCodeScreenshotOptions {
                include_path: true,
                offset_to_start_line: true,
                filter_comments: false,
                font_size: Some(20),
                filters: None,
                show_line_number: true,
            },
            BatMetadataType::Functions => SourceCodeScreenshotOptions {
                include_path: true,
                offset_to_start_line: true,
                filter_comments: false,
                font_size: Some(20),
                filters: None,
                show_line_number: true,
            },
            BatMetadataType::Entrypoints => SourceCodeScreenshotOptions {
                include_path: true,
                offset_to_start_line: true,
                filter_comments: false,
                font_size: Some(20),
                filters: None,
                show_line_number: true,
            },
        }
    }
}

/// A pointer into the sources: a named declaration and the file and
/// one-based line bounds it was found at.
#[derive(Debug, Clone)]
pub struct SourceCodeParser {
    pub name: String,
    pub path: String,
    pub start_line_index: usize,
    pub end_line_index: usize,
}

/// The field value found in a metadata info section: the first line
/// carrying the given prefix, with every occurrence of the prefix removed
/// and the rest trimmed.
pub open spec fn metadata_info_value(content: Seq<char>, section: Seq<char>) -> Option<
    Seq<char>,
> {
    let lines = lines_of(content);
    let idx = find_line_with(lines, section, 0);
    if idx < 0 {
        None
    } else {
        Some(trim_of(replace_seq(lines[idx], section, Seq::empty())))
    }
}

/// Whether a line opens with a comment: its first space-separated token,
/// after trimming, holds `//`.
pub open spec fn opens_with_comment(line: Seq<char>) -> bool {
    contains_sub(split_sp(trim_of(line))[0], "//"@)
}

/// The lines with comments removed: a line that opens with a comment is
/// dropped, and any other line is cut before its first `//`.
pub open spec fn comment_filtered(lines: Seq<Seq<char>>) -> Seq<Seq<char>>
    decreases lines.len(),
{
    if lines.len() == 0 {
        Seq::empty()
    } else if opens_with_comment(lines[0]) {
        comment_filtered(lines.drop_first())
    } else if contains_sub(lines[0], "//"@) {
        seq![before_sub(lines[0], "//"@)] + comment_filtered(lines.drop_first())
    } else {
        seq![lines[0]] + comment_filtered(lines.drop_first())
    }
}

/// The lines that contain none of the filter strings.
pub open spec fn keep_unfiltered(lines: Seq<Seq<char>>, pats: Seq<Seq<char>>) -> Seq<
    Seq<char>,
>
    decreases lines.len(),
{
    if lines.len() == 0 {
        Seq::empty()
    } else if contains_any(lines[0], pats) {
        keep_unfiltered(lines.drop_first(), pats)
    } else {
        seq![lines[0]] + keep_unfiltered(lines.drop_first(), pats)
    }
}

/// The body of a screenshot: the lines, comment text removed when asked,
/// lines holding a filter string dropped when filters are given, joined
/// with newlines.
pub open spec fn screenshot_body_spec(
    lines: Seq<Seq<char>>,
    filter_comments: bool,
    filters: Option<Seq<Seq<char>>>,
) -> Seq<char> {
    let pass1 = if filter_comments {
        comment_filtered(lines)
    } else {
        lines
    };
    let pass2 = match filters {
        Some(ps) => keep_unfiltered(pass1, ps),
        None => pass1,
    };
    join_nl(pass2)
}

/// Copies `lines[start..end_excl]`.
fn slice_lines(lines: &Vec<String>, start: usize, end_excl: usize) -> (out: Vec<String>)
    requires
        start <= end_excl <= lines@.len(),
    ensures
        views_of(out@) == views_of(lines@).subrange(start as int, end_excl as int),
{
    let mut out: Vec<String> = Vec::new();
    let mut k: usize = start;
    while k < end_excl
        invariant
            start <= k <= end_excl <= lines@.len(),
            views_of(out@) =~= views_of(lines@).subrange(start as int, k as int),
        decreases end_excl - k,
    {
        let ghost old_out = out@;
        out.push(lines[k].clone());
        proof {
            assert(views_of(out@) =~= views_of(old_out).push(lines@[k as int]@));
            assert(views_of(out@) =~= views_of(lines@).subrange(start as int, k + 1));
        }
        k = k + 1;
    }
    out
}

/// Removes comment text line by line, as `comment_filtered` describes.
fn comment_filter_exec(lines: &Vec<String>) -> (out: Vec<String>)
    ensures
        views_of(out@) == comment_filtered(views_of(lines@)),
{
    let ghost lv = views_of(lines@);
    let mut out: Vec<String> = Vec::new();
    let n: usize = lines.len();
    let mut i: usize = 0;
    proof {
        assert(lv.skip(0) =~= lv);
        assert(views_of(out@) + comment_filtered(lv) =~= comment_filtered(lv));
    }
    while i < n
        invariant
            i <= n,
            n == lines@.len(),
            lv == views_of(lines@),
            comment_filtered(lv) == views_of(out@) + comment_filtered(lv.skip(i as int)),
        decreases n - i,
    {
        let ghost rem = lv.skip(i as int);
        proof {
            assert(rem[0] == lines@[i as int]@);
            assert(rem.drop_first() =~= lv.skip(i + 1));
        }
        let trimmed = trim_str(lines[i].as_str());
        let tokens = split_space(trimmed.as_str());
        proof {
            assert(split_sp(trimmed@).len() >= 1);
            assert(views_of(tokens@)[0] == tokens@[0]@);
        }
        if contains_str(tokens[0].as_str(), "//") {
            // the line opens with a comment: drop it
        } else if contains_str(lines[i].as_str(), "//") {
            let cut = before_substr(lines[i].as_str(), "//");
            let ghost old_out = out@;
            out.push(cut);
            proof {
                assert(views_of(out@) =~= views_of(old_out).push(before_sub(rem[0], "//"@)));
                assert(views_of(old_out) + (seq![before_sub(rem[0], "//"@)] + comment_filtered(
                    rem.drop_first(),
                )) =~= views_of(out@) + comment_filtered(rem.drop_first()));
            }
        } else {
            let ghost old_out = out@;
            out.push(lines[i].clone());
            proof {
                assert(views_of(out@) =~= views_of(old_out).push(rem[0]));
                assert(views_of(old_out) + (seq![rem[0]] + comment_filtered(rem.drop_first()))
                    =~= views_of(out@) + comment_filtered(rem.drop_first()));
            }
        }
        i = i + 1;
    }
    proof {
        assert(comment_filtered(lv.skip(i as int)) =~= Seq::<Seq<char>>::empty());
        assert(views_of(out@) + Seq::<Seq<char>>::empty() =~= views_of(out@));
    }
    out
}

/// Tests whether `line` contains any of `pats`.
fn line_contains_any(line: &str, pats: &Vec<String>) -> (r: bool)
    ensures
        r == contains_any(line@, views_of(pats@)),
{
    let mut i: usize = 0;
    let n: usize = pats.len();
    while i < n
        invariant
            i <= n,
            n == pats@.len(),
            forall|k: int| 0 <= k < i ==> !contains_sub(line@, #[trigger] views_of(pats@)[k]),
        decreases n - i,
    {
        proof {
            assert(views_of(pats@)[i as int] == pats@[i as int]@);
        }
        if contains_str(line, pats[i].as_str()) {
            proof {
                assert(contains_sub(line@, views_of(pats@)[i as int]));
            }
            return true;
        }
        i = i + 1;
    }
    false
}

/// Keeps the lines free of every filter string, as `keep_unfiltered`
/// describes.
fn keep_unfiltered_exec(lines: &Vec<String>, pats: &Vec<String>) -> (out: Vec<String>)
    ensures
        views_of(out@) == keep_unfiltered(views_of(lines@), views_of(pats@)),
{
    let ghost lv = views_of(lines@);
    let ghost pv = views_of(pats@);
    let mut out: Vec<String> = Vec::new();
    let n: usize = lines.len();
    let mut i: usize = 0;
    proof {
        assert(lv.skip(0) =~= lv);
        assert(views_of(out@) + keep_unfiltered(lv, pv) =~= keep_unfiltered(lv, pv));
    }
    while i < n
        invariant
            i <= n,
            n == lines@.len(),
            lv == views_of(lines@),
            pv == views_of(pats@),
            keep_unfiltered(lv, pv) == views_of(out@) + keep_unfiltered(
                lv.skip(i as int),
                pv,
            ),
        decreases n - i,
    {
        let ghost rem = lv.skip(i as int);
        proof {
            assert(rem[0] == lines@[i as int]@);
            assert(rem.drop_first() =~= lv.skip(i + 1));
        }
        if !line_contains_any(lines[i].as_str(), pats) {
            let ghost old_out = out@;
            out.push(lines[i].clone());
            proof {
                assert(views_of(out@) =~= views_of(old_out).push(rem[0]));
                assert(views_of(old_out) + (seq![rem[0]] + keep_unfiltered(
                    rem.drop_first(),
                    pv,
                )) =~= views_of(out@) + keep_unfiltered(rem.drop_first(), pv));
            }
        }
        i = i + 1;
    }
    proof {
        assert(keep_unfiltered(lv.skip(i as int), pv) =~= Seq::<Seq<char>>::empty());
        assert(views_of(out@) + Seq::<Seq<char>>::empty() =~= views_of(out@));
    }
    out
}

impl SourceCodeParser {
    /// Builds a source pointer from its parts.
    pub fn new(name: String, path: String, start_line_index: usize, end_line_index: usize) -> (r:
        Self)
        ensures
            r.name == name,
            r.path == path,
            r.start_line_index == start_line_index,
            r.end_line_index == end_line_index,
    {
        SourceCodeParser { name, path, start_line_index, end_line_index }
    }

    /// The exact text this pointer names inside the file's content:
    /// one-based lines `start_line_index..=end_line_index` joined with
    /// newlines; nothing when the bounds name no lines of the content.
    pub fn get_source_code_content(&self, file_content: &str) -> (r: Option<String>)
        ensures
            match r {
                Some(x) => 1 <= self.start_line_index && self.start_line_index
                    <= self.end_line_index && self.end_line_index <= lines_of(
                    file_content@,
                ).len() && x@ == join_nl(
                    lines_of(file_content@).subrange(
                        self.start_line_index - 1,
                        self.end_line_index as int,
                    ),
                ),
                None => !(1 <= self.start_line_index && self.start_line_index
                    <= self.end_line_index && self.end_line_index <= lines_of(
                    file_content@,
                ).len()),
            },
    {
        let lines = split_lines(file_content);
        if self.start_line_index == 0 || self.end_line_index < self.start_line_index
            || self.end_line_index > lines.len() {
            return None;
        }
        Some(join_range(&lines, self.start_line_index - 1, self.end_line_index - 1))
    }

    /// The text of a screenshot of this pointer: its lines cut out of the
    /// file's content, comment text and filtered lines removed as the
    /// options ask, and a path header put in front when one is given;
    /// nothing when the line bounds name no lines of the content.
    pub fn create_screenshot_content(
        &self,
        file_content: &str,
        options: &SourceCodeScreenshotOptions,
        path_to_include: Option<&str>,
    ) -> (r: Option<String>)
        ensures
            match r {
                Some(x) => 1 <= self.start_line_index && self.start_line_index
                    <= self.end_line_index && self.end_line_index <= lines_of(
                    file_content@,
                ).len() && x@ == {
                    let body = screenshot_body_spec(
                        lines_of(file_content@).subrange(
                            self.start_line_index - 1,
                            self.end_line_index as int,
                        ),
                        options.filter_comments,
                        match options.filters {
                            Some(ps) => Some(views_of(ps@)),
                            None => None,
                        },
                    );
                    match path_to_include {
                        Some(p) => "// "@ + p@ + "\n\n"@ + body,
                        None => body,
                    }
                },
                None => !(1 <= self.start_line_index && self.start_line_index
                    <= self.end_line_index && self.end_line_index <= lines_of(
                    file_content@,
                ).len()),
            },
    {
        let lines = split_lines(file_content);
        if self.start_line_index == 0 || self.end_line_index < self.start_line_index
            || self.end_line_index > lines.len() {
            return None;
        }
        let sliced = slice_lines(&lines, self.start_line_index - 1, self.end_line_index);
        let pass1 = if options.filter_comments {
            comment_filter_exec(&sliced)
        } else {
            sliced
        };
        let pass2 = match &options.filters {
            Some(ps) => keep_unfiltered_exec(&pass1, ps),
            None => pass1,
        };
        let body = join_all_nl(&pass2);
        match path_to_include {
            Some(p) => {
                let mut out = String::from_str("// ");
                out.append(p);
                out.append("\n\n");
                out.append(body.as_str());
                Some(out)
            },
            None => Some(body),
        }
    }

    /// Reads the field stored under `section` out of a metadata info
    /// section, as `metadata_info_value` describes.
    pub fn parse_metadata_info_section(metadata_info_content: &str, section: &str) -> (r:
        Option<String>)
        ensures
            match r {
                Some(x) => metadata_info_value(metadata_info_content@, section@) == Some(x@),
                None => metadata_info_value(metadata_info_content@, section@) is None,
            },
    {
        let ghost lv = lines_of(metadata_info_content@);
        let lines = split_lines(metadata_info_content);
        match find_line_containing(&lines, section) {
            None => None,
            Some(idx) => {
                proof {
                    assert(lines@[idx as int]@ == lv[idx as int]);
                    reveal_strlit("");
                    assert(""@ =~= Seq::<char>::empty());
                }
                let removed = replace_all(lines[idx].as_str(), section, "");
                Some(trim_str(removed.as_str()))
            },
        }
    }
}

} // verus!
