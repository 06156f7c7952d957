//! Struct metadata: the typed records kept for the structs a scan found,
//! their grouping and ordering, and the markdown section text they are
//! stored as.

use vstd::prelude::*;
use vstd::string::*;

use crate::strutil::{
    before_ch, before_char, dec_digits, lex_le, lex_le_str, replace_all, replace_seq,
    split_whitespace_str, split_ws, usize_to_string, views_of,
};

verus! {

/// The audit classification of a struct.
#[derive(Debug, PartialEq, Eq, Structural, Clone, Copy)]
pub enum StructMetadataType {
    ContextAccounts,
    Account,
    Input,
    Other,
}

/// The position of a struct type in the type table.
pub open spec fn type_index(t: StructMetadataType) -> int {
    match t {
        StructMetadataType::ContextAccounts => 0,
        StructMetadataType::Account => 1,
        StructMetadataType::Input => 2,
        StructMetadataType::Other => 3,
    }
}

/// The snake-case name of a struct type.
pub open spec fn type_str(t: StructMetadataType) -> Seq<char> {
    match t {
        StructMetadataType::ContextAccounts => "context_accounts"@,
        StructMetadataType::Account => "account"@,
        StructMetadataType::Input => "input"@,
        StructMetadataType::Other => "other"@,
    }
}

impl StructMetadataType {
    /// The position of this type in the type table.
    pub fn get_struct_metadata_index(&self) -> (r: usize)
        ensures
            r as int == type_index(*self),
    {
        match self {
            StructMetadataType::ContextAccounts => 0,
            StructMetadataType::Account => 1,
            StructMetadataType::Input => 2,
            StructMetadataType::Other => 3,
        }
    }

    /// The snake-case name of this type.
    pub fn to_string(&self) -> (r: &'static str)
        ensures
            r@ == type_str(*self),
    {
        match self {
            StructMetadataType::ContextAccounts => "context_accounts",
            StructMetadataType::Account => "account",
            StructMetadataType::Input => "input",
            StructMetadataType::Other => "other",
        }
    }

    /// The type at position `index` of the type table.
    pub fn from_index(index: usize) -> (r: StructMetadataType)
        requires
            index < 4,
        ensures
            type_index(r) == index as int,
    {
        match index {
            0 => StructMetadataType::ContextAccounts,
            1 => StructMetadataType::Account,
            2 => StructMetadataType::Input,
            _ => StructMetadataType::Other,
        }
    }

    /// All four type names, in table order.
    pub fn get_struct_types() -> (r: Vec<&'static str>)
        ensures
            r@.len() == 4,
            r@[0]@ == "context_accounts"@,
            r@[1]@ == "account"@,
            r@[2]@ == "input"@,
            r@[3]@ == "other"@,
    {
        let mut v: Vec<&'static str> = Vec::new();
        v.push("context_accounts");
        v.push("account");
        v.push("input");
        v.push("other");
        v
    }
}

/// The record kept for one struct found in the scanned sources.
#[derive(Debug, Clone)]
pub struct StructMetadata {
    pub path: String,
    pub name: String,
    pub struct_type: StructMetadataType,
    pub start_line_index: usize,
    pub end_line_index: usize,
}

/// The mathematical value of a struct record.
#[verifier::ext_equal]
pub ghost struct StructMetaV {
    pub path: Seq<char>,
    pub name: Seq<char>,
    pub struct_type: StructMetadataType,
    pub start: int,
    pub end: int,
}

impl View for StructMetadata {
    type V = StructMetaV;

    open spec fn view(&self) -> StructMetaV {
        StructMetaV {
            path: self.path@,
            name: self.name@,
            struct_type: self.struct_type,
            start: self.start_line_index as int,
            end: self.end_line_index as int,
        }
    }
}

/// The views of a sequence of struct records.
pub open spec fn views_of_metas(v: Seq<StructMetadata>) -> Seq<StructMetaV> {
    v.map_values(|m: StructMetadata| m@)
}

impl StructMetadata {
    /// Builds a struct record from its parts.
    fn new(
        path: String,
        name: String,
        struct_type: StructMetadataType,
        start_line_index: usize,
        end_line_index: usize,
    ) -> (r: Self)
        ensures
            r.path == path,
            r.name == name,
            r.struct_type == struct_type,
            r.start_line_index == start_line_index,
            r.end_line_index == end_line_index,
    {
        StructMetadata { path, name, struct_type, start_line_index, end_line_index }
    }
}

/// The records of `s` whose type is `t`, in order.
pub open spec fn filter_by_type(s: Seq<StructMetaV>, t: StructMetadataType) -> Seq<StructMetaV>
    decreases s.len(),
{
    if s.len() == 0 {
        Seq::empty()
    } else if s[0].struct_type == t {
        seq![s[0]] + filter_by_type(s.drop_first(), t)
    } else {
        filter_by_type(s.drop_first(), t)
    }
}

/// `r` inserted into `s` after every record whose name comes no later:
/// stable insertion in name order.
pub open spec fn insert_meta_by_name(r: StructMetaV, s: Seq<StructMetaV>) -> Seq<StructMetaV>
    decreases s.len(),
{
    if s.len() == 0 {
        seq![r]
    } else if lex_le(s[0].name, r.name) {
        seq![s[0]] + insert_meta_by_name(r, s.drop_first())
    } else {
        seq![r] + s
    }
}

/// `s` sorted by name, stably, by repeated insertion.
pub open spec fn sort_metas_by_name(s: Seq<StructMetaV>) -> Seq<StructMetaV>
    decreases s.len(),
{
    if s.len() == 0 {
        Seq::empty()
    } else {
        insert_meta_by_name(s.last(), sort_metas_by_name(s.drop_last()))
    }
}

/// An exact copy of a struct record.
fn clone_meta(m: &StructMetadata) -> (r: StructMetadata)
    ensures
        r@ == m@,
{
    StructMetadata {
        path: m.path.clone(),
        name: m.name.clone(),
        struct_type: m.struct_type,
        start_line_index: m.start_line_index,
        end_line_index: m.end_line_index,
    }
}

/// Collects the records of type `t`, as `filter_by_type` describes.
fn filter_metas(input: &Vec<StructMetadata>, t: StructMetadataType) -> (out: Vec<
    StructMetadata,
>)
    ensures
        views_of_metas(out@) == filter_by_type(views_of_metas(input@), t),
{
    let ghost iv = views_of_metas(input@);
    let mut out: Vec<StructMetadata> = Vec::new();
    let n: usize = input.len();
    let mut i: usize = 0;
    proof {
        assert(iv.skip(0) =~= iv);
        assert(views_of_metas(out@) + filter_by_type(iv, t) =~= filter_by_type(iv, t));
    }
    while i < n
        invariant
            i <= n,
            n == input@.len(),
            iv == views_of_metas(input@),
            filter_by_type(iv, t) == views_of_metas(out@) + filter_by_type(
                iv.skip(i as int),
                t,
            ),
        decreases n - i,
    {
        let ghost rem = iv.skip(i as int);
        proof {
            assert(rem[0] == input@[i as int]@);
            assert(rem.drop_first() =~= iv.skip(i + 1));
        }
        if input[i].struct_type == t {
            let ghost old_out = out@;
            out.push(clone_meta(&input[i]));
            proof {
                assert(views_of_metas(out@) =~= views_of_metas(old_out).push(rem[0]));
                assert(views_of_metas(old_out) + (seq![rem[0]] + filter_by_type(
                    rem.drop_first(),
                    t,
                )) =~= views_of_metas(out@) + filter_by_type(rem.drop_first(), t));
            }
        }
        i = i + 1;
    }
    proof {
        assert(filter_by_type(iv.skip(i as int), t) =~= Seq::<StructMetaV>::empty());
        assert(views_of_metas(out@) + Seq::<StructMetaV>::empty() =~= views_of_metas(out@));
    }
    out
}

/// `insert_meta_by_name` places `r` exactly at the boundary of the prefix
/// whose names come no later than `r`'s.
proof fn lemma_insert_meta_at(r: StructMetaV, s: Seq<StructMetaV>, k: int)
    requires
        0 <= k <= s.len(),
        forall|j: int| 0 <= j < k ==> lex_le((#[trigger] s[j]).name, r.name),
        k < s.len() ==> !lex_le(s[k].name, r.name),
    ensures
        insert_meta_by_name(r, s) == s.subrange(0, k) + seq![r] + s.subrange(
            k,
            s.len() as int,
        ),
    decreases s.len(),
{
    if s.len() == 0 {
        assert(insert_meta_by_name(r, s) =~= s.subrange(0, 0) + seq![r] + s.subrange(0, 0));
    } else if k == 0 {
        assert(insert_meta_by_name(r, s) =~= s.subrange(0, 0) + seq![r] + s.subrange(
            0,
            s.len() as int,
        ));
    } else {
        let sub = s.drop_first();
        assert(forall|j: int| 0 <= j < k - 1 ==> sub[j] == s[j + 1]);
        if k - 1 < sub.len() {
            assert(sub[k - 1] == s[k]);
        }
        lemma_insert_meta_at(r, sub, k - 1);
        assert(seq![s[0]] + (sub.subrange(0, k - 1) + seq![r] + sub.subrange(
            k - 1,
            sub.len() as int,
        )) =~= s.subrange(0, k) + seq![r] + s.subrange(k, s.len() as int));
    }
}

/// Inserts `r` into `out` at its place in name order.
fn insert_meta_sorted(out: &mut Vec<StructMetadata>, r: StructMetadata)
    ensures
        views_of_metas(final(out)@) == insert_meta_by_name(r@, views_of_metas(old(out)@)),
{
    let n: usize = out.len();
    let mut k: usize = 0;
    while k < n && lex_le_str(out[k].name.as_str(), r.name.as_str())
        invariant
            k <= n,
            n == out@.len(),
            *out == *old(out),
            forall|j: int| 0 <= j < k ==> lex_le(
                (#[trigger] views_of_metas(out@)[j]).name,
                r@.name,
            ),
        decreases n - k,
    {
        proof {
            assert(views_of_metas(out@)[k as int] == out@[k as int]@);
        }
        k = k + 1;
    }
    proof {
        let vs = views_of_metas(out@);
        assert(k < n ==> vs[k as int] == out@[k as int]@);
        lemma_insert_meta_at(r@, vs, k as int);
    }
    let ghost old_vec = out@;
    out.insert(k, r);
    proof {
        let vs = views_of_metas(old_vec);
        assert(views_of_metas(out@) =~= vs.subrange(0, k as int) + seq![r@] + vs.subrange(
            k as int,
            vs.len() as int,
        ));
    }
}

/// Sorts the records by name, equal to the spec-level insertion sort.
fn sort_metas(input: Vec<StructMetadata>) -> (out: Vec<StructMetadata>)
    ensures
        views_of_metas(out@) == sort_metas_by_name(views_of_metas(input@)),
    decreases input@.len(),
{
    let ghost input0 = input@;
    let mut input = input;
    match input.pop() {
        None => {
            proof {
                assert(views_of_metas(input0).len() == 0);
                assert(views_of_metas(input0) =~= Seq::<StructMetaV>::empty());
            }
            input
        },
        Some(last) => {
            proof {
                assert(views_of_metas(input@) =~= views_of_metas(input0).drop_last());
                assert(views_of_metas(input0).last() == last@);
                assert(views_of_metas(input0).len() >= 1);
            }
            let mut sorted = sort_metas(input);
            insert_meta_sorted(&mut sorted, last);
            sorted
        },
    }
}

/// Groups the collected struct records by type — context accounts,
/// accounts, inputs and others, in that order — each group sorted by
/// name.
pub fn get_structs_metadata_from_program(structs_metadata: Vec<StructMetadata>) -> (r: (
    Vec<StructMetadata>,
    Vec<StructMetadata>,
    Vec<StructMetadata>,
    Vec<StructMetadata>,
))
    ensures
        views_of_metas(r.0@) == sort_metas_by_name(
            filter_by_type(views_of_metas(structs_metadata@), StructMetadataType::ContextAccounts),
        ),
        views_of_metas(r.1@) == sort_metas_by_name(
            filter_by_type(views_of_metas(structs_metadata@), StructMetadataType::Account),
        ),
        views_of_metas(r.2@) == sort_metas_by_name(
            filter_by_type(views_of_metas(structs_metadata@), StructMetadataType::Input),
        ),
        views_of_metas(r.3@) == sort_metas_by_name(
            filter_by_type(views_of_metas(structs_metadata@), StructMetadataType::Other),
        ),
{
    let context_accounts = sort_metas(
        filter_metas(&structs_metadata, StructMetadataType::ContextAccounts),
    );
    let accounts = sort_metas(filter_metas(&structs_metadata, StructMetadataType::Account));
    let inputs = sort_metas(filter_metas(&structs_metadata, StructMetadataType::Input));
    let others = sort_metas(filter_metas(&structs_metadata, StructMetadataType::Other));
    (context_accounts, accounts, inputs, others)
}

/// The struct name on a struct's opening line: its third white-space
/// token, stripped of any generic-parameter suffix, colons removed.
pub open spec fn struct_name_of(line: Seq<char>) -> Seq<char> {
    replace_seq(before_ch(split_ws(line)[2], '<'), ":"@, Seq::empty())
}

/// Reads the struct name off a struct's opening line, as `struct_name_of`
/// describes.  The line must hold at least three white-space tokens.
pub fn get_struct_name(struct_line: &str) -> (r: String)
    requires
        split_ws(struct_line@).len() >= 3,
    ensures
        r@ == struct_name_of(struct_line@),
{
    let toks = split_whitespace_str(struct_line);
    proof {
        assert(views_of(toks@)[2] == toks@[2]@);
    }
    let c1 = before_char(toks[2].as_str(), '<');
    let r = replace_all(c1.as_str(), ":", "");
    proof {
        reveal_strlit("");
        assert(""@ =~= Seq::<char>::empty());
    }
    r
}

/// The fields a metadata section records for a declaration.
#[derive(Debug, PartialEq, Eq, Structural, Clone, Copy)]
pub enum MetadataContent {
    Path,
    StartLineIndex,
    EndLineIndex,
}

/// The line prefix a metadata field is stored under.
pub open spec fn metadata_prefix(m: MetadataContent) -> Seq<char> {
    match m {
        MetadataContent::Path => "- path:"@,
        MetadataContent::StartLineIndex => "- start_line_index:"@,
        MetadataContent::EndLineIndex => "- end_line_index:"@,
    }
}

impl MetadataContent {
    /// The line prefix this field is stored under.
    pub fn get_prefix(&self) -> (r: &'static str)
        ensures
            r@ == metadata_prefix(*self),
    {
        match self {
            MetadataContent::Path => "- path:",
            MetadataContent::StartLineIndex => "- start_line_index:",
            MetadataContent::EndLineIndex => "- end_line_index:",
        }
    }
}

/// The markdown section text of a struct record: the header, then the
/// path and line bounds as field lines.
pub open spec fn structs_section_content_spec(header: Seq<char>, m: StructMetaV) -> Seq<char> {
    header + "\n\n"@ + "- path:"@ + " "@ + m.path + "\n"@ + "- start_line_index:"@ + " "@
        + dec_digits(m.start) + "\n"@ + "- end_line_index:"@ + " "@ + dec_digits(m.end) + "\n"@
}

/// Renders the markdown section of a struct record, as
/// `structs_section_content_spec` describes.
pub fn get_structs_section_content(header: &str, struct_metadata: StructMetadata) -> (r: String)
    ensures
        r@ == structs_section_content_spec(header@, struct_metadata@),
{
    let mut out = header.to_owned();
    out.append("\n\n");
    out.append(MetadataContent::Path.get_prefix());
    out.append(" ");
    out.append(struct_metadata.path.as_str());
    out.append("\n");
    out.append(MetadataContent::StartLineIndex.get_prefix());
    out.append(" ");
    out.append(usize_to_string(struct_metadata.start_line_index).as_str());
    out.append("\n");
    out.append(MetadataContent::EndLineIndex.get_prefix());
    out.append(" ");
    out.append(usize_to_string(struct_metadata.end_line_index).as_str());
    out.append("\n");
    out
}

} // verus!
