use acp_core::poller::{
    clean_option_text, extract_option_number, extract_selection_options, is_option_line,
    PollerConfig,
};
use acp_core::stream_parser::{parse_permission_request, parse_permission_request_with};

#[test]
fn test_poller_config_default() {
    let config = PollerConfig::default();
    assert_eq!(config.interval_ms, 500);
    assert_eq!(config.min_output_change, 10);
}

#[test]
fn test_extract_selection_options() {
    let content = "Which option?\n1. Option A\n2. Option B\n3. Option C\n\nEnter to select";
    let result = extract_selection_options(content);
    assert!(result.contains("1. Option A"));
    assert!(result.contains("2. Option B"));
    assert!(result.contains("3. Option C"));

    let content2 = "No options here\nEnter to select";
    let result2 = extract_selection_options(content2);
    assert!(result2.is_empty());

    let content3 = "2. Second\n3. Third\n\nEnter to select";
    let result3 = extract_selection_options(content3);
    assert!(result3.contains("※"));
}

#[test]
fn test_extract_option_number() {
    assert_eq!(extract_option_number("1. First"), Some(1));
    assert_eq!(extract_option_number("2. Second"), Some(2));
    assert_eq!(extract_option_number("10. Tenth"), Some(10));
    assert_eq!(extract_option_number("No number"), None);
    assert_eq!(extract_option_number("1abc"), None);

    assert_eq!(extract_option_number("❯ 1. First"), Some(1));
    assert_eq!(extract_option_number("> 2. Second"), Some(2));
    assert_eq!(extract_option_number("  3. Third"), Some(3));
}

#[test]
fn test_parse_permission_request() {
    let content = r#"Bash requires approval

Do you want to proceed?
1. Yes
2. No"#;

    let request = parse_permission_request(content);
    assert!(request.is_some());

    let request = request.unwrap();
    assert_eq!(request.tool_name, "Bash");
    assert!(request.options.contains(&"Yes".to_string()));
}

#[test]
fn option_numbers_need_a_full_stop_or_colon() {
    assert_eq!(extract_option_number("4: Four"), Some(4));
    assert_eq!(extract_option_number("4:Four"), None);
    assert_eq!(extract_option_number("5."), Some(5));
    assert_eq!(extract_option_number("○ 6. Six"), Some(6));
    assert_eq!(extract_option_number("● ◉ 7.x"), Some(7));
    assert_eq!(extract_option_number("4294967295. max"), Some(4294967295));
    assert_eq!(extract_option_number("4294967296. over"), None);
    assert_eq!(extract_option_number("99999999999999999999999. far over"), None);
    assert_eq!(extract_option_number(""), None);
    assert_eq!(extract_option_number("x 1. no"), None);
    assert_eq!(clean_option_text("❯ > 1. Yes  "), "1. Yes");
    assert_eq!(clean_option_text("   "), "");
    assert!(is_option_line("1. a"));
    assert!(is_option_line("12: b"));
    assert!(is_option_line("99999999999999999999999.c"));
    assert!(!is_option_line(" 1. a"));
    assert!(!is_option_line("1 a"));
    assert!(!is_option_line(""));
}

#[test]
fn a_selection_prompt_is_its_question_and_options() {
    let content = "old text\n\nWhich option\ndo you want?\n❯ 1. Option A\n  2. Option B\n  3. Type something.\n\nEnter to select · ↑/↓ to navigate\n4. Later";
    assert_eq!(
        extract_selection_options(content),
        "Which option\ndo you want?\n---\n1. Option A\n2. Option B"
    );
    assert_eq!(extract_selection_options("1. Only\n"), "1. Only");
    assert_eq!(
        extract_selection_options("Q?\n> typed\n2. Second\n3. Third"),
        "Q?\n---\n※ 先頭の選択肢が表示されていません\n2. Second\n3. Third"
    );
    assert_eq!(
        extract_selection_options("Q?\n───\n\n1. A\nEsc to cancel"),
        "Q?\n---\n1. A"
    );
    assert_eq!(extract_selection_options("Esc to cancel\n1. A"), "");
    assert_eq!(extract_selection_options(""), "");
}

#[test]
fn permission_prompts_name_the_tool_before_or_after_the_phrase() {
    let p = parse_permission_request_with("This tool requires approval: Write\n❯ 1. Yes\n2. No\n3.\n", "r".to_string()).unwrap();
    assert_eq!(p.tool_name, "Write");
    assert_eq!(p.options, vec!["1. Yes", "No"]);
    let bare = parse_permission_request_with("A requires approval\n❯1. Yes\n12..Maybe", "r".to_string()).unwrap();
    assert_eq!(bare.options, vec!["Yes", "Maybe"]);
    assert_eq!(p.request_id, "r");
    assert!(parse_permission_request("This requires approval").is_none());
    assert!(parse_permission_request("requires approval\nEdit requires approval").is_none());
    assert!(parse_permission_request("nothing to see").is_none());
    let q = parse_permission_request("x\n  Edit   requires approval::  \n").unwrap();
    assert_eq!(q.tool_name, "Edit");
    assert!(q.options.is_empty());
    assert_ne!(
        parse_permission_request("A requires approval").unwrap().request_id,
        parse_permission_request("A requires approval").unwrap().request_id
    );
}
