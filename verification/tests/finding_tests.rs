use batsonar::findings::{
    findings_result_content, severity_level_for_line, update_audit_result_root_content,
    Finding, FindingError, FindingLevel, StatusLevel,
};

#[test]
fn test_format_header_with_finding_code_with_index_smaller_than_9() {
    let finding_content = "## Super bad finding \n rest of description";
    let finding_index = 2;
    let expected_content = "## KS-03 Super bad finding \n rest of description";
    let content =
        Finding::format_finding_content_header_with_finding_code(finding_content, finding_index);
    assert_eq!(expected_content.to_string(), content);
}

#[test]
fn test_format_header_with_finding_code_with_index_bigger_than_9() {
    let finding_content = "## Super bad finding \n rest of description";
    let finding_index = 10;
    let expected_content = "## KS-11 Super bad finding \n rest of description";
    let content =
        Finding::format_finding_content_header_with_finding_code(finding_content, finding_index);
    assert_eq!(expected_content.to_string(), content);
}

#[test]
fn test_parse_finding_data() {
    let finding_content = "## This is the description \n\n**Severity:** High\n\n**Status:** Open\n\n| Impact | Likelihood | Difficulty |\n| :----: | :--------: | :--------: |\n|  High  |    Medium    |    Low     |\n\n### Description {-}\n\n";
    let finding = Finding::new_from_str(finding_content, 0).unwrap();
    assert_eq!(
        (
            finding.code,
            finding.title,
            finding.severity,
            finding.status,
            finding.impact.clone().unwrap(),
            finding.likelihood.clone().unwrap(),
            finding.difficulty.clone().unwrap(),
        ),
        (
            "KS-01".to_string(),
            "This is the description".to_string(),
            FindingLevel::High,
            StatusLevel::Open,
            FindingLevel::High,
            FindingLevel::Medium,
            FindingLevel::Low,
        )
    );
}

#[test]
fn test_parse_finding_table_row() {
    let finding_content =
        "## KS-01 This is the description \n\n**Severity:** High\n\n**Status:** Open";
    let finding = Finding::new_from_str(finding_content, 0).unwrap();
    let finding_table_row = finding.parse_finding_table_row_markdown();
    assert_eq!(
        finding_table_row,
        "|KS-01|High|This is the description|Open|"
    );
}

#[test]
fn test_get_html_content() {
    let finding_content = "## This is the description \n\n**Severity:** High\n\n**Status:** Open\n\n| Impact | Likelihood | Difficulty |\n| :----: | :--------: | :--------: |\n|  High  |    Medium    |    Low     |\n\n### Description {-}\n\n";
    let finding = Finding::new_from_str(finding_content, 0).unwrap();
    let finding_table_row = finding.parse_finding_table_html();
    println!("table {:#?}", finding_table_row);
}

#[test]
fn test_update_content() {
    let finding_content = "## This is the description \n\n**Severity:** High\n\n**Status:** Open\n\n| Impact | Likelihood | Difficulty |\n| :----: | :--------: | :--------: |\n|  High  |    Medium    |    Low     |\n\n### Description {-}\n\n";
    let mut finding = Finding::new_from_str(finding_content, 0).unwrap();
    finding.format_markdown_to_html().unwrap();
    println!("table {}", finding.content);
}

#[test]
fn test_informational_finding_has_no_impact_table() {
    let finding_content =
        "## Small note \n\n**Severity:** Informational\n\n**Status:** Open\n\n### Description {-}\n\ntext\n";
    let finding = Finding::new_from_str(finding_content, 0).unwrap();
    assert_eq!(finding.severity, FindingLevel::Informational);
    assert!(finding.impact.is_none());
    assert!(finding.likelihood.is_none());
    assert!(finding.difficulty.is_none());
}

#[test]
fn test_missing_header_is_rejected() {
    assert_eq!(
        Finding::new_from_str("no markdown header here", 0),
        Err(FindingError::MissingHeader)
    );
}

#[test]
fn test_missing_severity_is_rejected() {
    assert_eq!(
        Finding::new_from_str("## Some title \n rest", 0),
        Err(FindingError::MissingSeverity)
    );
}

#[test]
fn test_unknown_severity_is_rejected() {
    assert_eq!(
        Finding::new_from_str("## Some title \n\n**Severity:** Critical\n\n**Status:** Open", 0),
        Err(FindingError::UnknownSeverityLevel)
    );
}

#[test]
fn test_unknown_status_is_rejected() {
    assert_eq!(
        Finding::new_from_str("## Some title \n\n**Severity:** High\n\n**Status:** Closed", 0),
        Err(FindingError::UnknownStatusLevel)
    );
}

#[test]
fn test_levels_read_case_insensitively() {
    assert_eq!(FindingLevel::from_str("HIGH"), Ok(FindingLevel::High));
    assert_eq!(FindingLevel::from_str("medium"), Ok(FindingLevel::Medium));
    assert_eq!(FindingLevel::from_str("Low"), Ok(FindingLevel::Low));
    assert_eq!(
        FindingLevel::from_str("informational"),
        Ok(FindingLevel::Informational)
    );
    assert_eq!(StatusLevel::from_str("OPEN"), Ok(StatusLevel::Open));
    assert_eq!(
        StatusLevel::from_str("closed"),
        Err(FindingError::UnknownStatusLevel)
    );
}

#[test]
fn test_level_colors_and_names() {
    assert_eq!(FindingLevel::High.get_hex_color(), "#fd0011");
    assert_eq!(FindingLevel::Medium.get_hex_color(), "#f58b45");
    assert_eq!(FindingLevel::Low.get_hex_color(), "#16a54d");
    assert_eq!(FindingLevel::Informational.get_hex_color(), "#0666b4");
    assert_eq!(StatusLevel::Open.get_hex_color(), "#16a54d");
    assert_eq!(FindingLevel::High.to_string(), "High");
    assert_eq!(StatusLevel::Open.to_string(), "Open");
}

#[test]
fn test_list_row_html_colors_severity_and_status() {
    let finding_content =
        "## KS-01 This is the description \n\n**Severity:** High\n\n**Status:** Open";
    let finding = Finding::new_from_str(finding_content, 0).unwrap();
    assert_eq!(
        finding.parse_list_of_findings_table_row_html(),
        "<tr><td>KS-01</td>  <td><span style='color:#fd0011;'>High</span></td>  <td>This is the description</td>  <td><span style='color:#16a54d;'>Open</span></td></tr>"
    );
}

#[test]
fn test_figures_paths_are_rewritten() {
    let finding_content =
        "## KS-01 T \n\n**Severity:** High\n\n**Status:** Open\n\n![x](../../figures/a.png)";
    let finding = Finding::new_from_str(finding_content, 0).unwrap();
    assert_eq!(
        finding.parse_finding_content_for_audit_folder_path(),
        "## KS-01 T \n\n**Severity:** High\n\n**Status:** Open\n\n![x](./figures/a.png)"
    );
    assert_eq!(
        finding.parse_finding_content_for_root_path("audit/figures"),
        "## KS-01 T \n\n**Severity:** High\n\n**Status:** Open\n\n![x](audit/figures/a.png)"
    );
}

#[test]
fn test_severity_level_for_line() {
    assert_eq!(
        severity_level_for_line("**Severity:** High"),
        Some(FindingLevel::High)
    );
    assert_eq!(
        severity_level_for_line("**Severity:** informational"),
        Some(FindingLevel::Informational)
    );
    assert_eq!(severity_level_for_line("**Severity:** urgent"), None);
    assert_eq!(FindingLevel::Medium.to_severity_flag(), "2");
}

#[test]
fn test_update_audit_result_root_content_swaps_the_findings_section() {
    let audit = "intro\n# Findings result\nold findings\n# Code overhaul result\ntail";
    let updated =
        update_audit_result_root_content(audit, "# Findings result\nnew findings\n").unwrap();
    assert_eq!(
        updated,
        "intro\n# Findings result\nnew findings\n# Code overhaul result\ntail"
    );
    assert_eq!(
        update_audit_result_root_content("no sections here", "x"),
        Err(FindingError::MissingResultSection)
    );
}

#[test]
fn test_findings_result_content_builds_both_reports() {
    let finding = "## First problem \n\n**Severity:** High\n\n**Status:** Open\n\n| Impact | Likelihood | Difficulty |\n| :----: | :--------: | :--------: |\n|  High  |    Medium    |    Low     |\n\n### Description {-}\n\n../../figures/a.png\n";
    let contents = vec![finding.to_string()];
    let (root_content, audit_content) =
        findings_result_content(&contents, "notes/figures").unwrap();
    assert!(root_content.starts_with("# Findings result\n\n## Table of findings\n"));
    assert!(root_content.contains("<tr><td>KS-01</td>"));
    assert!(root_content.contains("notes/figures/a.png"));
    assert!(audit_content.contains("./figures/a.png"));
    assert!(root_content.ends_with("</style>"));
    assert!(!root_content.contains("RESULT_TABLE_PLACEHOLDER"));
}
