use batsonar::templates::{FindingTemplate, PackageJsonTemplate, VerbosityLevel};

#[test]
fn test_title_parser() {
    let test_text = "hello_how Are-you";
    let file_name = inflector::cases::snakecase::to_snake_case(test_text);
    let title = inflector::cases::sentencecase::to_sentence_case(test_text);
    println!("file_name: {}", file_name);
    println!("title: {}", title);
}

#[test]
fn test_content() {
    let test_text = inflector::cases::sentencecase::to_sentence_case("hello_how Are-you");
    let finding_content = FindingTemplate::get_finding_content(&test_text);
    let info_content = FindingTemplate::get_informational_content(&test_text);
    println!("finding: {}", finding_content);
    println!("info: {}", info_content);
}

#[test]
fn test_finding_template_opens_with_title_and_grading() {
    let content = FindingTemplate::get_finding_content("Some finding");
    assert!(content.starts_with(
        "## Some finding\n\n**Severity:** High\n\n**Status:** Open\n\n| Impact | Likelihood | Difficulty |"
    ));
    assert!(content.ends_with("### Reference {-}\n\n- N/A\n"));
    let info = FindingTemplate::get_informational_content("Some note");
    assert!(info.starts_with("## Some note\n\n**Severity:** Informational\n\n**Status:** Open"));
}

#[test]
fn test_new_finding_file_content_uses_sentence_case() {
    let content = FindingTemplate::new_finding_file_content("hello_how Are-you", false);
    assert!(content.starts_with("## Hello how are you\n\n**Severity:** High"));
    let info = FindingTemplate::new_finding_file_content("hello_how Are-you", true);
    assert!(info.starts_with("## Hello how are you\n\n**Severity:** Informational"));
}

#[test]
fn test_verbosity_parts() {
    let (flag, name) = PackageJsonTemplate::get_verbosity_parts(Some(VerbosityLevel::Warn));
    assert_eq!((flag.as_str(), name.as_str()), ("v", "WARN"));
    let (flag, name) = PackageJsonTemplate::get_verbosity_parts(Some(VerbosityLevel::Trace));
    assert_eq!((flag.as_str(), name.as_str()), ("vvvv", "TRACE"));
    let (flag, name) = PackageJsonTemplate::get_verbosity_parts(Some(VerbosityLevel::Error));
    assert_eq!((flag.as_str(), name.as_str()), ("", ""));
    let (flag, name) = PackageJsonTemplate::get_verbosity_parts(None);
    assert_eq!((flag.as_str(), name.as_str()), ("", ""));
}

#[test]
fn test_script_prefixes() {
    let (k, v) = PackageJsonTemplate::get_script_prefixes("", "", true);
    assert_eq!((k.as_str(), v.as_str()), ("cargo::run", "cargo run"));
    let (k, v) = PackageJsonTemplate::get_script_prefixes("vv", "INFO", true);
    assert_eq!((k.as_str(), v.as_str()), ("cargo::run::INFO", "cargo run -- -vv"));
    let (k, v) = PackageJsonTemplate::get_script_prefixes("", "", false);
    assert_eq!((k.as_str(), v.as_str()), ("bat-cli", "bat-cli"));
    let (k, v) = PackageJsonTemplate::get_script_prefixes("v", "WARN", false);
    assert_eq!((k.as_str(), v.as_str()), ("bat-cli::WARN", "bat-cli -v"));
}

#[test]
fn test_script_pairs() {
    let commands: Vec<(Vec<String>, String)> = vec![
        (vec![], "sonar".to_string()),
        (
            vec!["open".to_string(), "package-json".to_string()],
            "tools".to_string(),
        ),
    ];
    let pairs = PackageJsonTemplate::get_script_pairs(&commands, "cargo::run", "cargo run");
    let rendered: Vec<(&str, &str)> = pairs
        .iter()
        .map(|p| (p.0.as_str(), p.1.as_str()))
        .collect();
    assert_eq!(
        rendered,
        vec![
            ("cargo::run::sonar", "cargo run sonar"),
            ("cargo::run::tools::open", "cargo run tools open"),
            (
                "cargo::run::tools::package-json",
                "cargo run tools package-json"
            ),
        ]
    );
}
