use menu_picker::source::looks_structured;
use menu_picker::source::parse_items;
use menu_picker::types::Alignment;
use menu_picker::types::ColumnConfig;
use menu_picker::types::ItemStyle;
use menu_picker::types::MenuConfig;
use menu_picker::types::MenuItem;

fn plain(label: &str, command: Option<&str>) -> MenuItem {
    MenuItem {
        id: label.to_string(),
        columns: vec![label.to_string()],
        command: command.map(|c| c.to_string()),
        action: None,
        style: ItemStyle { icon: None, color: None },
    }
}

#[test]
fn lines_become_items_in_order() {
    let items = parse_items("apple:run apple\nbanana\ngrape:run grape");
    assert_eq!(
        items,
        vec![
            plain("apple", Some("run apple")),
            plain("banana", None),
            plain("grape", Some("run grape")),
        ]
    );
}

#[test]
fn trailing_line_break_adds_no_item() {
    assert_eq!(parse_items("one\ntwo\n"), vec![plain("one", None), plain("two", None)]);
    assert_eq!(parse_items("one"), vec![plain("one", None)]);
}

#[test]
fn empty_text_has_no_items() {
    assert_eq!(parse_items(""), Vec::<MenuItem>::new());
    assert_eq!(parse_items("\n\n\n"), Vec::<MenuItem>::new());
}

#[test]
fn blank_lines_and_rules_are_skipped() {
    let items = parse_items("\none\n   \n---\n\t \ntwo:2\n--- section ---\n----\nthree\n");
    assert_eq!(items, vec![plain("one", None), plain("two", Some("2")), plain("three", None)]);
}

#[test]
fn two_dashes_are_a_label() {
    assert_eq!(parse_items("--\n -- -\n"), vec![plain("--", None), plain(" -- -", None)]);
}

#[test]
fn indented_rule_is_a_label() {
    assert_eq!(parse_items(" ---"), vec![plain(" ---", None)]);
}

#[test]
fn carriage_return_before_the_line_break_is_dropped() {
    let items = parse_items("one:1\r\ntwo\r\n\r\n---\r\nthree\r");
    assert_eq!(items, vec![plain("one", Some("1")), plain("two", None), plain("three", None)]);
    assert_eq!(parse_items("a\r\r\n"), vec![plain("a\r", None)]);
}

#[test]
fn label_ends_at_the_first_colon() {
    assert_eq!(parse_items("http://example.org"), vec![plain("http", Some("//example.org"))]);
    assert_eq!(parse_items("a:b:c"), vec![plain("a", Some("b:c"))]);
    assert_eq!(parse_items("label:"), vec![plain("label", Some(""))]);
    assert_eq!(parse_items(":cmd"), vec![plain("", Some("cmd"))]);
    assert_eq!(parse_items(":"), vec![plain("", Some(""))]);
}

#[test]
fn label_and_command_keep_their_spaces() {
    assert_eq!(parse_items(" a : b "), vec![plain(" a ", Some(" b "))]);
}

#[test]
fn non_ascii_lines_are_read_by_character() {
    assert_eq!(parse_items("žluťoučký:kůň\n日本語"), vec![plain("žluťoučký", Some("kůň")), plain("日本語", None)]);
}

#[test]
fn text_form_document_has_one_left_column() {
    let config = MenuConfig::from_text("Pick one", "apple:run apple\nbanana\nfig");
    assert_eq!(config.prompt, "Pick one");
    assert_eq!(
        config.columns,
        vec![ColumnConfig { title: String::new(), width: 6, align: Alignment::Left }]
    );
    assert_eq!(config.items.len(), 3);
    assert_eq!(config.items[2], plain("fig", None));
    assert_eq!(config.width, 0);
    assert_eq!(config.height, 0);
    assert!(config.validate().is_ok());
}

#[test]
fn text_form_document_of_empty_text() {
    let config = MenuConfig::from_text("", "");
    assert!(config.items.is_empty());
    assert_eq!(config.columns.len(), 1);
    assert_eq!(config.columns[0].width, 0);
    assert!(config.validate().is_ok());
}

#[test]
fn text_form_column_width_counts_characters() {
    let config = MenuConfig::from_text("", "日本語:x\nab");
    assert_eq!(config.columns[0].width, 3);
}

#[test]
fn structured_document_starts_with_a_brace() {
    assert!(looks_structured("{\"prompt\": \"x\"}"));
    assert!(looks_structured("  \r\n\t{"));
    assert!(!looks_structured(""));
    assert!(!looks_structured("   "));
    assert!(!looks_structured("apple:run apple"));
    assert!(!looks_structured("x{"));
    assert!(!looks_structured("[{}]"));
}
