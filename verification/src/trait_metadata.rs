//! Trait metadata: the record kept for one trait found in the scanned
//! sources, its markdown section text, and the parsing of such a section
//! back into a record.

use vstd::prelude::*;
use vstd::string::*;

use crate::sonar::{find_line_containing, find_line_with};
use crate::strutil::{
    all_digits, dec_digits, dec_val, lines_of, parse_usize, replace_all, replace_seq,
    split_lines, trim_of, trim_str, usize_to_string,
};

verus! {

/// Why a metadata markdown section could not be read back.
#[derive(Debug, PartialEq, Eq, Structural, Clone, Copy)]
pub enum MetadataError {
    /// No line of the section carries the wanted field prefix.
    SectionNotFound,
    /// A line-index field does not hold a decimal number that fits.
    MalformedNumber,
}

/// The fields of a trait's metadata section.
#[derive(Debug, PartialEq, Eq, Structural, Clone, Copy)]
pub enum TraitMetadataInfoSection {
    Path,
    Name,
    StartLineIndex,
    EndLineIndex,
}

/// The snake-case name of a section field.
pub open spec fn info_snake(s: TraitMetadataInfoSection) -> Seq<char> {
    match s {
        TraitMetadataInfoSection::Path => "path"@,
        TraitMetadataInfoSection::Name => "name"@,
        TraitMetadataInfoSection::StartLineIndex => "start_line_index"@,
        TraitMetadataInfoSection::EndLineIndex => "end_line_index"@,
    }
}

impl TraitMetadataInfoSection {
    /// The snake-case name of this field.
    pub fn to_snake_case(&self) -> (r: String)
        ensures
            r@ == info_snake(*self),
    {
        match self {
            TraitMetadataInfoSection::Path => String::from_str("path"),
            TraitMetadataInfoSection::Name => String::from_str("name"),
            TraitMetadataInfoSection::StartLineIndex => String::from_str("start_line_index"),
            TraitMetadataInfoSection::EndLineIndex => String::from_str("end_line_index"),
        }
    }

    /// The line prefix this field is stored under.
    pub fn get_prefix(&self) -> (r: String)
        ensures
            r@ == "- "@ + info_snake(*self) + ":"@,
    {
        let mut out = String::from_str("- ");
        out.append(self.to_snake_case().as_str());
        out.append(":");
        out
    }

    /// One rendered field line holding `content_value`.
    pub fn get_info_section_content(&self, content_value: &str) -> (r: String)
        ensures
            r@ == "- "@ + info_snake(*self) + ": "@ + content_value@,
    {
        let mut out = String::from_str("- ");
        out.append(self.to_snake_case().as_str());
        out.append(": ");
        out.append(content_value);
        proof {
            reveal_strlit(":");
            reveal_strlit(" ");
            reveal_strlit(": ");
            assert(": "@ =~= ":"@ + " "@);
        }
        out
    }
}

/// The record kept for one trait found in the scanned sources.
#[derive(Debug, Clone, PartialEq)]
pub struct TraitMetadata {
    pub path: String,
    pub name: String,
    pub metadata_id: String,
    pub start_line_index: usize,
    pub end_line_index: usize,
}

/// The field value found in a metadata section: the first line carrying
/// the field's prefix, with the prefix removed and the rest trimmed.
pub open spec fn info_section_value(content: Seq<char>, section: TraitMetadataInfoSection) -> Result<
    Seq<char>,
    MetadataError,
> {
    let prefix = "- "@ + info_snake(section) + ":"@;
    let lines = lines_of(content);
    let idx = find_line_with(lines, prefix, 0);
    if idx < 0 {
        Err(MetadataError::SectionNotFound)
    } else {
        Ok(trim_of(replace_seq(lines[idx], prefix, Seq::empty())))
    }
}

/// The record a trait's markdown section parses back to, given the
/// section's title.
pub open spec fn trait_from_section_spec(title: Seq<char>, content: Seq<char>) -> Result<
    (Seq<char>, Seq<char>, int, int),
    MetadataError,
> {
    match info_section_value(content, TraitMetadataInfoSection::Path) {
        Err(e) => Err(e),
        Ok(path) => match info_section_value(content, TraitMetadataInfoSection::StartLineIndex) {
            Err(e) => Err(e),
            Ok(s) => match info_section_value(content, TraitMetadataInfoSection::EndLineIndex) {
                Err(e) => Err(e),
                Ok(t) => {
                    if s.len() > 0 && all_digits(s) && dec_val(s) <= usize::MAX && t.len() > 0
                        && all_digits(t) && dec_val(t) <= usize::MAX {
                        Ok((path, title, dec_val(s), dec_val(t)))
                    } else {
                        Err(MetadataError::MalformedNumber)
                    }
                },
            },
        },
    }
}

impl TraitMetadata {
    /// Builds a trait record from its parts.  The identity is handed in by
    /// the caller that generated it.
    fn new(
        path: String,
        name: String,
        metadata_id: String,
        start_line_index: usize,
        end_line_index: usize,
    ) -> (r: Self)
        ensures
            r.path == path,
            r.name == name,
            r.metadata_id == metadata_id,
            r.start_line_index == start_line_index,
            r.end_line_index == end_line_index,
    {
        TraitMetadata { path, name, metadata_id, start_line_index, end_line_index }
    }

    /// The markdown section text of this record: a header with the name,
    /// then the path and line bounds as field lines.
    pub fn get_markdown_section_content_string(&self) -> (r: String)
        ensures
            r@ == "# "@ + self.name@ + "\n\n- path: "@ + self.path@ + "\n- start_line_index: "@
                + dec_digits(self.start_line_index as int) + "\n- end_line_index: "@
                + dec_digits(self.end_line_index as int),
    {
        let mut out = String::from_str("# ");
        out.append(self.name.as_str());
        out.append("\n\n- path: ");
        out.append(self.path.as_str());
        out.append("\n- start_line_index: ");
        out.append(usize_to_string(self.start_line_index).as_str());
        out.append("\n- end_line_index: ");
        out.append(usize_to_string(self.end_line_index).as_str());
        out
    }

    /// Reads the field named by `function_section` out of a metadata
    /// section's content, as `info_section_value` describes.
    pub fn parse_metadata_info_section(
        metadata_info_content: &str,
        function_section: TraitMetadataInfoSection,
    ) -> (r: Result<String, MetadataError>)
        ensures
            match r {
                Ok(x) => info_section_value(metadata_info_content@, function_section) == Ok::<
                    Seq<char>,
                    MetadataError,
                >(x@),
                Err(e) => info_section_value(metadata_info_content@, function_section) == Err::<
                    Seq<char>,
                    MetadataError,
                >(e),
            },
    {
        let prefix = function_section.get_prefix();
        let ghost lv = lines_of(metadata_info_content@);
        let lines = split_lines(metadata_info_content);
        match find_line_containing(&lines, prefix.as_str()) {
            None => Err(MetadataError::SectionNotFound),
            Some(idx) => {
                proof {
                    assert(lines@[idx as int]@ == lv[idx as int]);
                    reveal_strlit("");
                    assert(""@ =~= Seq::<char>::empty());
                }
                let removed = replace_all(lines[idx].as_str(), prefix.as_str(), "");
                Ok(trim_str(removed.as_str()))
            },
        }
    }

    /// Parses a trait record back out of its markdown section, given the
    /// section title, its content, and a freshly generated identity.
    pub fn from_markdown_section(
        section_title: &str,
        section_content: &str,
        metadata_id: String,
    ) -> (r: Result<TraitMetadata, MetadataError>)
        ensures
            match r {
                Ok(m) => trait_from_section_spec(section_title@, section_content@) == Ok::<
                    (Seq<char>, Seq<char>, int, int),
                    MetadataError,
                >((m.path@, m.name@, m.start_line_index as int, m.end_line_index as int))
                    && m.metadata_id == metadata_id,
                Err(e) => trait_from_section_spec(section_title@, section_content@) == Err::<
                    (Seq<char>, Seq<char>, int, int),
                    MetadataError,
                >(e),
            },
    {
        let path = match Self::parse_metadata_info_section(
            section_content,
            TraitMetadataInfoSection::Path,
        ) {
            Ok(x) => x,
            Err(e) => {
                return Err(e);
            },
        };
        let s = match Self::parse_metadata_info_section(
            section_content,
            TraitMetadataInfoSection::StartLineIndex,
        ) {
            Ok(x) => x,
            Err(e) => {
                return Err(e);
            },
        };
        let t = match Self::parse_metadata_info_section(
            section_content,
            TraitMetadataInfoSection::EndLineIndex,
        ) {
            Ok(x) => x,
            Err(e) => {
                return Err(e);
            },
        };
        let start_line_index = match parse_usize(s.as_str()) {
            Some(v) => v,
            None => {
                return Err(MetadataError::MalformedNumber);
            },
        };
        let end_line_index = match parse_usize(t.as_str()) {
            Some(v) => v,
            None => {
                return Err(MetadataError::MalformedNumber);
            },
        };
        Ok(
            TraitMetadata::new(
                path,
                section_title.to_owned(),
                metadata_id,
                start_line_index,
                end_line_index,
            ),
        )
    }
}

} // verus!
