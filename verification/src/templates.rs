//! File templates: the markdown content of a fresh finding file, and the
//! script table of the project's package file.

use vstd::prelude::*;
use vstd::string::*;

use crate::strutil::views_of;

verus! {

/// What Inflector's `to_sentence_case` returns for the given characters;
/// the result depends on the characters alone.
pub uninterp spec fn sentence_case_of(s: Seq<char>) -> Seq<char>;

/// Relies on Inflector's `to_sentence_case`: a pure casing function of
/// its input string.
#[verifier::external_body]
fn sentence_case(s: &str) -> (r: String)
    ensures
        r@ == sentence_case_of(s@),
{
    inflector::cases::sentencecase::to_sentence_case(s)
}

/// The markdown of a fresh graded finding file with the given title.
pub open spec fn finding_content_spec(title: Seq<char>) -> Seq<char> {
    "## "@ + title
        + "\n\n**Severity:** High\n\n**Status:** Open\n\n| Impact | Likelihood | Difficulty |\n| :----: | :--------: | :--------: |\n|  High  |   Medium   |    Low     |\n\n### Description {-}\n\nFill the description\n\n### Impact {-}\n\nFill the impact\n\n### Evidence {-}\n\n<figure style=\"display:block\">\n    <img style=\"max-width:100%\" src=\"../../figures/finding-name-1.png\"/>\n</figure>\n<figure style=\"display:block\">\n    <img style=\"max-width:100%\" src=\"../../figures/finding-name-2.png\"/>\n</figure>\n\nAdd a description of the evidence here\n\n### Recommendation {-}\n\nAdd recommendations\n\n### Affected resources {-}\n\n- N/A\n\n### Reference {-}\n\n- N/A\n"@
}

/// The markdown of a fresh informational finding file with the given
/// title.
pub open spec fn informational_content_spec(title: Seq<char>) -> Seq<char> {
    "## "@ + title
        + "\n\n**Severity:** Informational\n\n**Status:** Open\n\n### Description {-}\n\nAdd a description\n\n### Evidence {-}\n\n<figure style=\"display:block\">\n    <img style=\"max-width:100%\" src=\"../../figures/observation-1.png\"/>\n</figure>\n<figure style=\"display:block\">\n    <img style=\"max-width:100%\" src=\"../../figures/observation-1.png\"/>\n</figure>\n\nAdd a description of the evidence here\n\n### Recommendation {-}\n\nAdd some recomendations\n\n### Affected resources {-}\n\n- Add affected resources\n\n### Reference {-}\n\n- N/A\n"@
}

/// The finding-file templates.
pub struct FindingTemplate;

impl FindingTemplate {
    /// The markdown of a fresh graded finding file, as
    /// `finding_content_spec` describes.
    pub fn get_finding_content(finding_title: &str) -> (r: String)
        ensures
            r@ == finding_content_spec(finding_title@),
    {
        let mut out = String::from_str("## ");
        out.append(finding_title);
        out.append(
            "\n\n**Severity:** High\n\n**Status:** Open\n\n| Impact | Likelihood | Difficulty |\n| :----: | :--------: | :--------: |\n|  High  |   Medium   |    Low     |\n\n### Description {-}\n\nFill the description\n\n### Impact {-}\n\nFill the impact\n\n### Evidence {-}\n\n<figure style=\"display:block\">\n    <img style=\"max-width:100%\" src=\"../../figures/finding-name-1.png\"/>\n</figure>\n<figure style=\"display:block\">\n    <img style=\"max-width:100%\" src=\"../../figures/finding-name-2.png\"/>\n</figure>\n\nAdd a description of the evidence here\n\n### Recommendation {-}\n\nAdd recommendations\n\n### Affected resources {-}\n\n- N/A\n\n### Reference {-}\n\n- N/A\n",
        );
        out
    }

    /// The markdown of a fresh informational finding file, as
    /// `informational_content_spec` describes.
    pub fn get_informational_content(finding_title: &str) -> (r: String)
        ensures
            r@ == informational_content_spec(finding_title@),
    {
        let mut out = String::from_str("## ");
        out.append(finding_title);
        out.append(
            "\n\n**Severity:** Informational\n\n**Status:** Open\n\n### Description {-}\n\nAdd a description\n\n### Evidence {-}\n\n<figure style=\"display:block\">\n    <img style=\"max-width:100%\" src=\"../../figures/observation-1.png\"/>\n</figure>\n<figure style=\"display:block\">\n    <img style=\"max-width:100%\" src=\"../../figures/observation-1.png\"/>\n</figure>\n\nAdd a description of the evidence here\n\n### Recommendation {-}\n\nAdd some recomendations\n\n### Affected resources {-}\n\n- Add affected resources\n\n### Reference {-}\n\n- N/A\n",
        );
        out
    }

    /// The full content of a new finding file: the finding name put into
    /// sentence case becomes the title of the graded or informational
    /// template.
    pub fn new_finding_file_content(finding_name: &str, is_informational: bool) -> (r: String)
        ensures
            r@ == if is_informational {
                informational_content_spec(sentence_case_of(finding_name@))
            } else {
                finding_content_spec(sentence_case_of(finding_name@))
            },
    {
        let finding_title = sentence_case(finding_name);
        if is_informational {
            Self::get_informational_content(finding_title.as_str())
        } else {
            Self::get_finding_content(finding_title.as_str())
        }
    }
}

/// The verbosity selector of the package file's scripts.
#[derive(Debug, PartialEq, Eq, Structural, Clone, Copy)]
pub enum VerbosityLevel {
    Error,
    Warn,
    Info,
    Debug,
    Trace,
}

/// The verbosity flag a level selects: one `v` per step below `Warn`'s
/// threshold, none for `Error`.
pub open spec fn verbosity_flag_of(l: Option<VerbosityLevel>) -> Seq<char> {
    match l {
        Some(VerbosityLevel::Warn) => "v"@,
        Some(VerbosityLevel::Info) => "vv"@,
        Some(VerbosityLevel::Debug) => "vvv"@,
        Some(VerbosityLevel::Trace) => "vvvv"@,
        _ => Seq::empty(),
    }
}

/// The display name a level contributes to a script key: the upper-case
/// level name, as the logging facade prints it; none for `Error`.
pub open spec fn verbosity_name_of(l: Option<VerbosityLevel>) -> Seq<char> {
    match l {
        Some(VerbosityLevel::Warn) => "WARN"@,
        Some(VerbosityLevel::Info) => "INFO"@,
        Some(VerbosityLevel::Debug) => "DEBUG"@,
        Some(VerbosityLevel::Trace) => "TRACE"@,
        _ => Seq::empty(),
    }
}

/// The views of a sequence of string pairs.
pub open spec fn pair_views(v: Seq<(String, String)>) -> Seq<(Seq<char>, Seq<char>)> {
    v.map_values(|p: (String, String)| (p.0@, p.1@))
}

/// The script pairs of one command's options: key
/// `prefix::command::option` and value `prefix command option` per
/// option.
pub open spec fn opt_pairs(
    opts: Seq<Seq<char>>,
    name: Seq<char>,
    kp: Seq<char>,
    vp: Seq<char>,
) -> Seq<(Seq<char>, Seq<char>)>
    decreases opts.len(),
{
    if opts.len() == 0 {
        Seq::empty()
    } else {
        seq![
            (kp + "::"@ + name + "::"@ + opts[0], vp + " "@ + name + " "@ + opts[0]),
        ] + opt_pairs(opts.drop_first(), name, kp, vp)
    }
}

/// The script pairs of the whole command table: a command without
/// options contributes one pair, one with options contributes one pair
/// per option.
pub open spec fn script_pairs_of(
    cmds: Seq<(Vec<String>, String)>,
    kp: Seq<char>,
    vp: Seq<char>,
) -> Seq<(Seq<char>, Seq<char>)>
    decreases cmds.len(),
{
    if cmds.len() == 0 {
        Seq::empty()
    } else {
        (if cmds[0].0@.len() == 0 {
            seq![(kp + "::"@ + cmds[0].1@, vp + " "@ + cmds[0].1@)]
        } else {
            opt_pairs(views_of(cmds[0].0@), cmds[0].1@, kp, vp)
        }) + script_pairs_of(cmds.drop_first(), kp, vp)
    }
}

/// The package-file templates.
pub struct PackageJsonTemplate;

impl PackageJsonTemplate {
    /// The verbosity flag and level name a selected log level puts into
    /// the script table.
    pub fn get_verbosity_parts(log_level: Option<VerbosityLevel>) -> (r: (String, String))
        ensures
            r.0@ == verbosity_flag_of(log_level),
            r.1@ == verbosity_name_of(log_level),
    {
        match log_level {
            Some(VerbosityLevel::Warn) => (String::from_str("v"), String::from_str("WARN")),
            Some(VerbosityLevel::Info) => (String::from_str("vv"), String::from_str("INFO")),
            Some(VerbosityLevel::Debug) => (
                String::from_str("vvv"),
                String::from_str("DEBUG"),
            ),
            Some(VerbosityLevel::Trace) => (
                String::from_str("vvvv"),
                String::from_str("TRACE"),
            ),
            _ => (String::new(), String::new()),
        }
    }

    /// The key and value prefixes of every script: the cargo invocation
    /// for a debug build, the installed binary otherwise, with the
    /// verbosity flag folded in when one was selected.
    pub fn get_script_prefixes(
        verbosity_flag: &str,
        verbosity_level_name: &str,
        is_debug: bool,
    ) -> (r: (String, String))
        ensures
            is_debug && verbosity_flag@.len() == 0 ==> r.0@ == "cargo::run"@ && r.1@
                == "cargo run"@,
            is_debug && verbosity_flag@.len() > 0 ==> r.0@ == "cargo::run::"@
                + verbosity_level_name@ && r.1@ == "cargo run -- -"@ + verbosity_flag@,
            !is_debug && verbosity_flag@.len() == 0 ==> r.0@ == "bat-cli"@ && r.1@
                == "bat-cli"@,
            !is_debug && verbosity_flag@.len() > 0 ==> r.0@ == "bat-cli::"@
                + verbosity_level_name@ && r.1@ == "bat-cli -"@ + verbosity_flag@,
    {
        if is_debug {
            if verbosity_flag.is_empty() {
                (String::from_str("cargo::run"), String::from_str("cargo run"))
            } else {
                let mut k = String::from_str("cargo::run::");
                k.append(verbosity_level_name);
                let mut v = String::from_str("cargo run -- -");
                v.append(verbosity_flag);
                (k, v)
            }
        } else {
            if verbosity_flag.is_empty() {
                (String::from_str("bat-cli"), String::from_str("bat-cli"))
            } else {
                let mut k = String::from_str("bat-cli::");
                k.append(verbosity_level_name);
                let mut v = String::from_str("bat-cli -");
                v.append(verbosity_flag);
                (k, v)
            }
        }
    }

    /// The script table's key/value pairs for the command table, as
    /// `script_pairs_of` describes.
    pub fn get_script_pairs(
        kebab_commands: &Vec<(Vec<String>, String)>,
        script_key_prefix: &str,
        script_value_prefix: &str,
    ) -> (out: Vec<(String, String)>)
        ensures
            pair_views(out@) == script_pairs_of(
                kebab_commands@,
                script_key_prefix@,
                script_value_prefix@,
            ),
    {
        let ghost kp = script_key_prefix@;
        let ghost vp = script_value_prefix@;
        let ghost cmds = kebab_commands@;
        let mut out: Vec<(String, String)> = Vec::new();
        let n: usize = kebab_commands.len();
        let mut i: usize = 0;
        proof {
            assert(cmds.skip(0) =~= cmds);
            assert(pair_views(out@) + script_pairs_of(cmds, kp, vp) =~= script_pairs_of(
                cmds,
                kp,
                vp,
            ));
        }
        while i < n
            invariant
                i <= n,
                n == kebab_commands@.len(),
                cmds == kebab_commands@,
                kp == script_key_prefix@,
                vp == script_value_prefix@,
                script_pairs_of(cmds, kp, vp) == pair_views(out@) + script_pairs_of(
                    cmds.skip(i as int),
                    kp,
                    vp,
                ),
            decreases n - i,
        {
            let ghost rem = cmds.skip(i as int);
            proof {
                assert(rem[0] == cmds[i as int]);
                assert(rem.drop_first() =~= cmds.skip(i + 1));
            }
            let name: &String = &kebab_commands[i].1;
            let opts: &Vec<String> = &kebab_commands[i].0;
            let m: usize = opts.len();
            if m == 0 {
                let mut key = script_key_prefix.to_owned();
                key.append("::");
                key.append(name.as_str());
                let mut value = script_value_prefix.to_owned();
                value.append(" ");
                value.append(name.as_str());
                let ghost old_out = out@;
                out.push((key, value));
                proof {
                    assert(views_of(rem[0].0@).len() == 0);
                    assert(pair_views(out@) =~= pair_views(old_out).push(
                        (kp + "::"@ + rem[0].1@, vp + " "@ + rem[0].1@),
                    ));
                    assert(pair_views(old_out) + (seq![
                        (kp + "::"@ + rem[0].1@, vp + " "@ + rem[0].1@),
                    ] + script_pairs_of(rem.drop_first(), kp, vp)) =~= pair_views(out@)
                        + script_pairs_of(rem.drop_first(), kp, vp));
                }
            } else {
                let ghost ov = views_of(opts@);
                let mut j: usize = 0;
                proof {
                    assert(ov.skip(0) =~= ov);
                    assert(ov.len() > 0);
                    assert(script_pairs_of(rem, kp, vp) == opt_pairs(ov, rem[0].1@, kp, vp)
                        + script_pairs_of(rem.drop_first(), kp, vp));
                }
                while j < m
                    invariant
                        j <= m,
                        m == opts@.len(),
                        ov == views_of(opts@),
                        kp == script_key_prefix@,
                        vp == script_value_prefix@,
                        cmds == kebab_commands@,
                        i < cmds.len(),
                        rem == cmds.skip(i as int),
                        opts == &kebab_commands@[i as int].0,
                        name == &kebab_commands@[i as int].1,
                        script_pairs_of(cmds, kp, vp) == pair_views(out@) + opt_pairs(
                            ov.skip(j as int),
                            rem[0].1@,
                            kp,
                            vp,
                        ) + script_pairs_of(rem.drop_first(), kp, vp),
                    decreases m - j,
                {
                    let ghost orem = ov.skip(j as int);
                    proof {
                        assert(orem[0] == opts@[j as int]@);
                        assert(orem.drop_first() =~= ov.skip(j + 1));
                    }
                    let mut key = script_key_prefix.to_owned();
                    key.append("::");
                    key.append(name.as_str());
                    key.append("::");
                    key.append(opts[j].as_str());
                    let mut value = script_value_prefix.to_owned();
                    value.append(" ");
                    value.append(name.as_str());
                    value.append(" ");
                    value.append(opts[j].as_str());
                    let ghost old_out = out@;
                    out.push((key, value));
                    proof {
                        assert(pair_views(out@) =~= pair_views(old_out).push(
                            (
                                kp + "::"@ + rem[0].1@ + "::"@ + orem[0],
                                vp + " "@ + rem[0].1@ + " "@ + orem[0],
                            ),
                        ));
                        assert(pair_views(old_out) + (seq![
                            (
                                kp + "::"@ + rem[0].1@ + "::"@ + orem[0],
                                vp + " "@ + rem[0].1@ + " "@ + orem[0],
                            ),
                        ] + opt_pairs(orem.drop_first(), rem[0].1@, kp, vp)) + script_pairs_of(
                            rem.drop_first(),
                            kp,
                            vp,
                        ) =~= pair_views(out@) + opt_pairs(orem.drop_first(), rem[0].1@, kp, vp)
                            + script_pairs_of(rem.drop_first(), kp, vp));
                    }
                    j = j + 1;
                }
                proof {
                    assert(opt_pairs(ov.skip(j as int), rem[0].1@, kp, vp) =~= Seq::<
                        (Seq<char>, Seq<char>),
                    >::empty());
                    assert(pair_views(out@) + Seq::<(Seq<char>, Seq<char>)>::empty()
                        + script_pairs_of(rem.drop_first(), kp, vp) =~= pair_views(out@)
                        + script_pairs_of(rem.drop_first(), kp, vp));
                }
            }
            i = i + 1;
        }
        proof {
            assert(script_pairs_of(cmds.skip(i as int), kp, vp) =~= Seq::<
                (Seq<char>, Seq<char>),
            >::empty());
            assert(pair_views(out@) + Seq::<(Seq<char>, Seq<char>)>::empty() =~= pair_views(
                out@,
            ));
        }
        out
    }
}

} // verus!
