use batsonar::sonar::{BatSonar, ScanError, SonarResult, SonarResultType};
use batsonar::sonar::get_function_parameters;

#[test]
fn test_get_functions() {
    let expected_second_function = format!(
        "        pub fn create_game_2<'info>(
        ) -> Result<()> {{
            handle_create_game_2(&ctx, key_index, free_create)
        }}"
    );
    let expected_first_function = format!(
        "{}\n{}\n{}\n{}",
        "       pub fn create_game_1<'info>() -> Result<()> {",
        expected_second_function,
        "           handle_create_game_1(&ctx, key_index, free_create)",
        "       }"
    );
    let expected_third_function = format!(
        "        pub fn create_fleet(
            sector: [i64; 2],
        ) -> Result<()> {{
            handle_create_fleet(&ctx, key_index, stats.into(), sector)
        }}"
    );

    let content = format!("{}\n\n{}", expected_first_function, expected_third_function);
    let mut bat_sonar = BatSonar::new_scanned(&content, SonarResultType::Function).unwrap();
    bat_sonar.scan_content_to_get_results().unwrap();
    // the results come back sorted by name: create_fleet, create_game_1, create_game_2
    let first_result = bat_sonar.results[1].clone();
    let second_result = bat_sonar.results[2].clone();
    let third_result = bat_sonar.results[0].clone();
    assert_eq!(first_result.content, expected_first_function);
    assert_eq!(first_result.name, "create_game_1");
    assert_eq!(second_result.content, expected_second_function);
    assert_eq!(second_result.name, "create_game_2");
    assert_eq!(third_result.content, expected_third_function);
    assert_eq!(third_result.name, "create_fleet");
}

#[test]
fn test_get_structs() {
    let expected_first_struct = format!(
        "            pub struct StructName {{
                handle_create_game_2(&ctx, key_index, free_create)
            }}"
    );
    let expected_first_function = format!(
        "{}\n{}\n{}\n{}",
        "       pub fn create_game_1<'info>() -> Result<()> {",
        expected_first_struct,
        "           handle_create_game_1(&ctx, key_index, free_create)",
        "       }"
    );
    let expected_second_struct = format!(
        "        struct create_fleet {{
            sector: [i64; 2],
        ) -> Result<()> {{
            handle_create_fleet(&ctx, key_index, stats.into(), sector)
        }}"
    );

    let content = format!("{}\n\n{}", expected_first_function, expected_second_struct);
    let mut bat_sonar = BatSonar::new_scanned(&content, SonarResultType::Struct).unwrap();
    bat_sonar.scan_content_to_get_results().unwrap();
    let first_result = bat_sonar.results[0].clone();
    let second_result = bat_sonar.results[1].clone();
    assert_eq!(first_result.content, expected_first_struct);
    assert_eq!(first_result.name, "StructName");
    assert_eq!(second_result.content, expected_second_struct);
    assert_eq!(second_result.name, "create_fleet");
}

#[test]
fn test_get_modules() {
    let expected_first_mod = format!(
        "            pub mod modName {{
                handle_create_game_2(&ctx, key_index, free_create)
            }}"
    );
    let expected_first_function = format!(
        "{}\n{}\n{}\n{}",
        "       pub fn create_game_1<'info>() -> Result<()> {",
        expected_first_mod,
        "           handle_create_game_1(&ctx, key_index, free_create)",
        "       }"
    );
    let expected_second_mod = format!(
        "        mod create_fleet {{
            sector: [i64; 2],
        ) -> Result<()> {{
            handle_create_fleet(&ctx, key_index, stats.into(), sector)
        }}"
    );

    let content = format!("{}\n\n{}", expected_first_function, expected_second_mod);
    let bat_sonar = BatSonar::new_scanned(&content, SonarResultType::Module).unwrap();
    // the results come back sorted by name: create_fleet, modName
    let first_result = bat_sonar.results[1].clone();
    let second_result = bat_sonar.results[0].clone();
    assert_eq!(first_result.content, expected_first_mod);
    assert_eq!(first_result.name, "modName");
    assert_eq!(second_result.content, expected_second_mod);
    assert_eq!(second_result.name, "create_fleet");
}

#[test]
fn test_get_function_parameters() {
    let function_signature = "pub fn cancel_impulse<'info>(ctx: Context<'_, '_, '_, 'info, CancelImpulse<'info>>, key_index: Option<u16>)";
    let function_signature_tokenized = function_signature.split("(").collect::<Vec<_>>()[1]
        .split(")")
        .next()
        .unwrap()
        .split(" ")
        .collect::<Vec<_>>();
    let mut parameters: Vec<String> = vec![];
    function_signature_tokenized
        .iter()
        .enumerate()
        .fold("".to_string(), |total, current| {
            if current.1.contains(":") {
                if !total.is_empty() {
                    parameters.push(total);
                }
                current.1.to_string()
            } else if current.0 == function_signature_tokenized.len() - 1 {
                parameters.push(format!("{} {}", total, current.1));
                total
            } else {
                format!("{} {}", total, current.1)
            }
        });
    assert_eq!(
        parameters[0],
        "ctx: Context<'_, '_, '_, 'info, CancelImpulse<'info>>,"
    );
    assert_eq!(parameters[1], "key_index: Option<u16>");
}

#[test]
fn test_get_function_body() {
    let function = "pub fn cancel_impulse<'info>()->Result<String, String> { body }";
    let body = function.split("{").collect::<Vec<_>>()[1]
        .split("}")
        .next()
        .unwrap();
    println!("body {:#?}", body)
}

#[test]
fn test_get_if() {
    let test_text = "
    if thing > 1 {
        thing is correct
    } else if {
        thing might not be correct
    } else {
        thing is cool
    }

    this is not an if, even knowing i'm writing if {
        and it looks like an if
    }

    if the_if_dont_get_else {
        and is detected
    }
    ";
    let bat_sonar = BatSonar::new_scanned(test_text, SonarResultType::If).unwrap();
    println!("sonar \n{:#?}", bat_sonar);
}

#[test]
fn test_get_validation() {
    let test_text = "
    require_eq!(
        this is a valid require
    );

    require_eq!(
        this is not a valid require
    );
    ";
    let bat_sonar = BatSonar::new_scanned(test_text, SonarResultType::Validation).unwrap();
    println!("sonar \n{:#?}", bat_sonar);
}

#[test]
fn test_get_content_accounts() {
    let test_text = "
    #[derive(Accounts, Debug)]
    pub struct thing<'info> {
        pub acc_1: Signer<'info>,

        pub acc_2: AccountLoader<'info, Pf>,

        #[account(mut)]
        pub acc_3: Signer<'info>,

        #[account(
            mut,
            has_one = thing
        )]
        pub acc_4: AccountLoader<'info, Rc>,

        #[account(
            has_one = thing,
        )]
        pub acc_5: AccountLoader<'info, A>,

        pub acc_6: Account<'info, Mint>,

        pub acc_7: Program<'info, B>,
    }
    ";
    let bat_sonar = BatSonar::new_scanned(test_text, SonarResultType::ContextAccounts).unwrap();
    println!("sonar \n{:#?}", bat_sonar);
}

#[test]
fn test_scan_single_function_scenario() {
    let content = "pub fn create_game(x: u8) -> Result<()> {\n  body\n}";
    let sonar = BatSonar::new_scanned(content, SonarResultType::Function).unwrap();
    assert_eq!(sonar.results.len(), 1);
    let result = &sonar.results[0];
    assert_eq!(result.name, "create_game");
    assert!(result.is_public);
    assert_eq!(result.start_line_index, 0);
    assert_eq!(result.end_line_index, 2);
    assert_eq!(result.content, content);
}

#[test]
fn test_scan_struct_nested_in_function_scenario() {
    let content = "pub fn outer() {\n    pub struct Foo {\n        a: u8,\n    }\n    body\n}";
    let fn_scan = BatSonar::new_scanned(content, SonarResultType::Function).unwrap();
    assert_eq!(fn_scan.results.len(), 1);
    assert_eq!(fn_scan.results[0].name, "outer");
    assert_eq!(fn_scan.results[0].start_line_index, 0);
    assert_eq!(fn_scan.results[0].end_line_index, 5);
    let struct_scan = BatSonar::new_scanned(content, SonarResultType::Struct).unwrap();
    assert_eq!(struct_scan.results.len(), 1);
    assert_eq!(struct_scan.results[0].name, "Foo");
    assert_eq!(struct_scan.results[0].start_line_index, 1);
    assert_eq!(struct_scan.results[0].end_line_index, 3);
    assert_eq!(
        struct_scan.results[0].content,
        "    pub struct Foo {\n        a: u8,\n    }"
    );
}

#[test]
fn test_extract_parameters_scenario() {
    let signature = "pub fn cancel_impulse<'info>(ctx: Context<'_, '_, '_, 'info, CancelImpulse<'info>>, key_index: Option<u16>)";
    let parameters = get_function_parameters(signature.to_string()).unwrap();
    assert_eq!(parameters.len(), 2);
    assert_eq!(
        parameters[0],
        "ctx: Context<'_, '_, '_, 'info, CancelImpulse<'info>>,"
    );
    assert_eq!(parameters[1], "key_index: Option<u16>");
}

#[test]
fn test_extract_parameters_multiline() {
    let content = "pub fn create_fleet(\n    sector: [i64; 2],\n    name: String,\n) -> Result<()> {\n    body\n}";
    let parameters = get_function_parameters(content.to_string()).unwrap();
    assert_eq!(parameters, vec!["sector: [i64; 2],", "name: String,"]);
}

#[test]
fn test_extract_parameters_empty_content_fails() {
    assert_eq!(
        get_function_parameters(String::new()),
        Err(ScanError::MalformedSignature)
    );
}

#[test]
fn test_single_line_validation_boundary() {
    let content = "    require!(x > 1);\n    other();";
    let sonar = BatSonar::new_scanned(content, SonarResultType::Validation).unwrap();
    assert_eq!(sonar.results.len(), 1);
    assert_eq!(sonar.results[0].start_line_index, sonar.results[0].end_line_index);
    assert_eq!(sonar.results[0].name, "NO_NAME");
    assert!(!sonar.results[0].is_public);
}

#[test]
fn test_scan_is_idempotent() {
    let content = "fn alpha() {\n}\nfn beta() {\n}";
    let first = BatSonar::new_scanned(content, SonarResultType::Function).unwrap();
    let mut second = BatSonar::new_scanned(content, SonarResultType::Function).unwrap();
    second.scan_content_to_get_results().unwrap();
    assert_eq!(first.results.len(), second.results.len());
    for (a, b) in first.results.iter().zip(second.results.iter()) {
        assert_eq!(a.name, b.name);
        assert_eq!(a.content, b.content);
        assert_eq!(a.start_line_index, b.start_line_index);
        assert_eq!(a.end_line_index, b.end_line_index);
        assert_eq!(a.is_public, b.is_public);
        assert_eq!(a.trailing_whitespaces, b.trailing_whitespaces);
    }
}

#[test]
fn test_unbalanced_input_fails() {
    let content = "fn foo(\n  bar";
    let result = BatSonar::new_scanned(content, SonarResultType::Function);
    assert!(matches!(result, Err(ScanError::UnbalancedDeclaration)));
}

#[test]
fn test_malformed_signature_fails() {
    let content = "fn(\n}";
    let result = BatSonar::new_scanned(content, SonarResultType::Function);
    assert!(matches!(result, Err(ScanError::MalformedSignature)));
}

#[test]
fn test_region_scan_restricts_to_marker_block() {
    let content = "fn outer() {\n    fn inner() {\n        body\n    }\n}";
    let sonar =
        BatSonar::new_from_content(content, Some("fn inner"), SonarResultType::Function).unwrap();
    assert_eq!(sonar.content, "    fn inner() {\n        body\n    }");
    assert_eq!(sonar.results.len(), 1);
    assert_eq!(sonar.results[0].name, "inner");
}

#[test]
fn test_region_scan_marker_not_found() {
    let content = "fn outer() {\n}";
    let result =
        BatSonar::new_from_content(content, Some("does_not_occur"), SonarResultType::Function);
    assert!(matches!(result, Err(ScanError::RegionMarkerNotFound)));
}

#[test]
fn test_get_trailing_whitespaces_counts_bytes() {
    assert_eq!(BatSonar::get_trailing_whitespaces("    four"), 4);
    assert_eq!(BatSonar::get_trailing_whitespaces("\t\tx"), 2);
    assert_eq!(BatSonar::get_trailing_whitespaces("none"), 0);
}

#[test]
fn test_get_name_and_is_public_reads_the_opening_line() {
    let mut result = SonarResult::new(
        "",
        "",
        0,
        SonarResultType::Function,
        0,
        0,
        true,
    );
    result
        .get_name_and_is_public("pub fn create_game<T>(x: u8) -> Result<()> {")
        .unwrap();
    assert_eq!(result.name, "create_game");
    assert!(result.is_public);
    let mut private_result = SonarResult::new(
        "",
        "",
        0,
        SonarResultType::Function,
        0,
        0,
        true,
    );
    private_result.get_name_and_is_public("fn helper() {").unwrap();
    assert_eq!(private_result.name, "helper");
    assert!(!private_result.is_public);
}
