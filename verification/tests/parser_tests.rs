use batsonar::commands::{SonarCommand, ToolsCommands};
use batsonar::metadata::{
    get_struct_name, get_structs_metadata_from_program, get_structs_section_content,
    MetadataContent, StructMetadata, StructMetadataType,
};
use batsonar::miro::{MiroColor, MiroFrame, MiroItemType, MiroStickyNote};
use batsonar::parser::{BatMetadataType, SourceCodeParser, SourceCodeScreenshotOptions};
use batsonar::trait_metadata::{MetadataError, TraitMetadata, TraitMetadataInfoSection};
use batsonar::traits_metadata::TraitMetadataType;

#[test]
fn test_filter_comments() {
    let test_text = "this part should not be filtered //this part should be filtered
    // this line should be completely filtered

    previous line is empty
    ";
    let test_text_lines = test_text.lines();
    let filtered_lines = test_text_lines
        .filter_map(|line| {
            if !line.is_empty() {
                let starts_with_comment = line.trim().split(" ").next().unwrap().contains("//");
                if starts_with_comment {
                    return None;
                }
                // at this point it does not start with comment
                let line_contains_comment = line.contains("//");
                if line_contains_comment {
                    return Some(line.split("//").next().unwrap());
                }
            }
            return Some(line);
        })
        .collect::<Vec<_>>()
        .join("\n");

    println!("filtered \n{}", filtered_lines)
}

#[test]
fn test_include_path() {
    let test_path = "../star-atlas-programs/sol-programs/programs/cargo/src/instructions/update_token_account_for_invalid_type.rs";
    let test_program_name = "cargo/src/";
    let path = test_path.split(test_program_name).last().unwrap();
    println!("path {}", path);
    let path = format!("{}{}", test_program_name, path);
    println!("path {}", path)
}

#[test]
fn test_get_struct_name_strips_generics_and_colons() {
    assert_eq!(get_struct_name("pub struct Foo<T> {"), "Foo");
    assert_eq!(get_struct_name("pub struct Bar: {"), "Bar");
    assert_eq!(get_struct_name("    pub struct Baz {"), "Baz");
}

#[test]
fn test_structs_metadata_groups_and_sorts() {
    let m = |name: &str, t: StructMetadataType| StructMetadata {
        path: "src/lib.rs".to_string(),
        name: name.to_string(),
        struct_type: t,
        start_line_index: 1,
        end_line_index: 2,
    };
    let input = vec![
        m("zeta", StructMetadataType::Account),
        m("alpha", StructMetadataType::Account),
        m("ctx", StructMetadataType::ContextAccounts),
        m("input_one", StructMetadataType::Input),
    ];
    let (ca, accounts, inputs, others) = get_structs_metadata_from_program(input);
    assert_eq!(ca.len(), 1);
    assert_eq!(ca[0].name, "ctx");
    assert_eq!(accounts.len(), 2);
    assert_eq!(accounts[0].name, "alpha");
    assert_eq!(accounts[1].name, "zeta");
    assert_eq!(inputs.len(), 1);
    assert_eq!(others.len(), 0);
}

#[test]
fn test_struct_metadata_type_table() {
    assert_eq!(StructMetadataType::ContextAccounts.to_string(), "context_accounts");
    assert_eq!(StructMetadataType::from_index(3), StructMetadataType::Other);
    assert_eq!(StructMetadataType::Account.get_struct_metadata_index(), 1);
    let types = StructMetadataType::get_struct_types();
    assert_eq!(types, vec!["context_accounts", "account", "input", "other"]);
}

#[test]
fn test_structs_section_content() {
    let m = StructMetadata {
        path: "programs/src/state.rs".to_string(),
        name: "Foo".to_string(),
        struct_type: StructMetadataType::Account,
        start_line_index: 10,
        end_line_index: 25,
    };
    assert_eq!(
        get_structs_section_content("## Foo", m),
        "## Foo\n\n- path: programs/src/state.rs\n- start_line_index: 10\n- end_line_index: 25\n"
    );
    assert_eq!(MetadataContent::Path.get_prefix(), "- path:");
}

#[test]
fn test_trait_metadata_section_round_trip() {
    let section = "# MyTrait\n\n- path: src/traits.rs\n- start_line_index: 4\n- end_line_index: 9";
    let parsed =
        TraitMetadata::from_markdown_section("MyTrait", section, "id-1".to_string()).unwrap();
    assert_eq!(parsed.name, "MyTrait");
    assert_eq!(parsed.path, "src/traits.rs");
    assert_eq!(parsed.start_line_index, 4);
    assert_eq!(parsed.end_line_index, 9);
    assert_eq!(parsed.metadata_id, "id-1");
    assert_eq!(parsed.get_markdown_section_content_string(), section);
}

#[test]
fn test_trait_metadata_section_errors() {
    assert_eq!(
        TraitMetadata::from_markdown_section("T", "no fields here", "id".to_string()),
        Err(MetadataError::SectionNotFound)
    );
    assert_eq!(
        TraitMetadata::from_markdown_section(
            "T",
            "- path: x\n- start_line_index: abc\n- end_line_index: 2",
            "id".to_string()
        ),
        Err(MetadataError::MalformedNumber)
    );
}

#[test]
fn test_trait_info_section_rendering() {
    assert_eq!(TraitMetadataInfoSection::StartLineIndex.get_prefix(), "- start_line_index:");
    assert_eq!(TraitMetadataInfoSection::Path.to_snake_case(), "path");
    assert_eq!(
        TraitMetadataInfoSection::EndLineIndex.get_info_section_content("42"),
        "- end_line_index: 42"
    );
}

#[test]
fn test_trait_metadata_types() {
    assert_eq!(TraitMetadataType::Definition.to_string(), "Definition");
    assert_eq!(TraitMetadataType::Implementation.to_string(), "Implementation");
}

#[test]
fn test_parse_metadata_info_section() {
    let content = "# Foo\n\n- path: src/lib.rs\n- start_line_index: 3";
    assert_eq!(
        SourceCodeParser::parse_metadata_info_section(content, "- path:"),
        Some("src/lib.rs".to_string())
    );
    assert_eq!(
        SourceCodeParser::parse_metadata_info_section(content, "- end_line_index:"),
        None
    );
}

#[test]
fn test_source_code_parser_records_its_parts() {
    let parser = SourceCodeParser::new(
        "create_game".to_string(),
        "programs/src/lib.rs".to_string(),
        3,
        14,
    );
    assert_eq!(parser.name, "create_game");
    assert_eq!(parser.path, "programs/src/lib.rs");
    assert_eq!(parser.start_line_index, 3);
    assert_eq!(parser.end_line_index, 14);
}

#[test]
fn test_default_screenshot_options() {
    let options =
        SourceCodeScreenshotOptions::get_default_metadata_options(BatMetadataType::Structs);
    assert!(options.include_path);
    assert!(options.offset_to_start_line);
    assert!(!options.filter_comments);
    assert_eq!(options.font_size, Some(20));
    assert!(options.filters.is_none());
    assert!(options.show_line_number);
}

#[test]
fn test_miro_records() {
    let frame = MiroFrame::new("entrypoints", 1080, 1920, 100, -50);
    assert_eq!(frame.title, "entrypoints");
    assert_eq!(frame.item_id, "");
    assert!(frame.frame_url.is_none());
    assert_eq!(frame.height, 1080);
    assert_eq!(frame.width, 1920);
    assert_eq!(frame.x_position, 100);
    assert_eq!(frame.y_position, -50);
    let note = MiroStickyNote::new("check this", MiroColor::Red, "frame-1", 10, 20, 300);
    assert_eq!(note.content, "check this");
    assert_eq!(note.color, MiroColor::Red);
    assert_eq!(note.parent_id, "frame-1");
    assert_eq!(note.item_type, MiroItemType::StickyNote);
    assert_eq!(note.item_id, "");
    assert_eq!(note.width, 300);
    assert_eq!(MiroColor::LightGreen.to_str(), "light_green");
}

#[test]
fn test_get_source_code_content_slices_by_line() {
    let file_content = "zero\none\ntwo\nthree";
    let parser = SourceCodeParser::new("x".to_string(), "f.rs".to_string(), 2, 3);
    assert_eq!(
        parser.get_source_code_content(file_content),
        Some("one\ntwo".to_string())
    );
    let bad = SourceCodeParser::new("x".to_string(), "f.rs".to_string(), 2, 9);
    assert_eq!(bad.get_source_code_content(file_content), None);
}

#[test]
fn test_screenshot_content_filters_comments_and_lines() {
    let file_content =
        "keep this //cut this\n// drop this line entirely\nplain line\nsecret value\n";
    let parser = SourceCodeParser::new("x".to_string(), "f.rs".to_string(), 1, 4);
    let options = SourceCodeScreenshotOptions {
        include_path: true,
        offset_to_start_line: false,
        filter_comments: true,
        font_size: Some(20),
        filters: Some(vec!["secret".to_string()]),
        show_line_number: false,
    };
    let content = parser
        .create_screenshot_content(file_content, &options, Some("programs/src/f.rs"))
        .unwrap();
    assert_eq!(content, "// programs/src/f.rs\n\nkeep this \nplain line");
}

#[test]
fn test_command_flags() {
    assert!(!SonarCommand::Run.check_metadata_is_initialized());
    assert!(SonarCommand::Run.check_correct_branch());
    assert!(ToolsCommands::Open.check_metadata_is_initialized());
    assert!(!ToolsCommands::PackageJson.check_metadata_is_initialized());
    assert!(!ToolsCommands::Open.check_correct_branch());
}
