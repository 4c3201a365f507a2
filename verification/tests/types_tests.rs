use menu_picker::types::resolve_dimension;
use menu_picker::types::Alignment;
use menu_picker::types::ColumnConfig;
use menu_picker::types::ItemStyle;
use menu_picker::types::MenuConfig;
use menu_picker::types::MenuItem;
use menu_picker::types::MenuResponse;
use menu_picker::types::ParseError;
use menu_picker::types::DEFAULT_HEIGHT;
use menu_picker::types::DEFAULT_WIDTH;

fn item(id: &str, columns: &[&str]) -> MenuItem {
    MenuItem {
        id: id.to_string(),
        columns: columns.iter().map(|c| c.to_string()).collect(),
        command: Some(format!("open {}", id)),
        action: None,
        style: ItemStyle { icon: Some("*".to_string()), color: None },
    }
}

fn config(items: Vec<MenuItem>) -> MenuConfig {
    MenuConfig {
        prompt: "p".to_string(),
        columns: vec![
            ColumnConfig { title: "a".to_string(), width: 3, align: Alignment::Left },
            ColumnConfig { title: "b".to_string(), width: 4, align: Alignment::Center },
        ],
        items,
        width: 0,
        height: 0,
    }
}

#[test]
fn alignment_defaults_to_left() {
    assert_eq!(Alignment::default(), Alignment::Left);
}

#[test]
fn item_style_defaults_to_nothing() {
    assert_eq!(ItemStyle::default(), ItemStyle { icon: None, color: None });
}

#[test]
fn clone_keeps_every_field() {
    let mut first = item("x", &["1", "2"]);
    first.action = Some("edit".to_string());
    first.style.color = Some("red".to_string());
    let copy = first.clone();
    assert_eq!(copy, first);
    assert_eq!(copy.id, "x");
    assert_eq!(copy.columns, vec!["1".to_string(), "2".to_string()]);
    assert_eq!(copy.command, Some("open x".to_string()));
    assert_eq!(copy.action, Some("edit".to_string()));
    assert_eq!(copy.style.clone(), first.style);
    assert_eq!(copy.style.icon, Some("*".to_string()));
    assert_eq!(copy.style.color, Some("red".to_string()));
}

#[test]
fn validate_takes_items_that_fit() {
    assert_eq!(config(vec![]).validate(), Ok(()));
    assert_eq!(config(vec![item("x", &["1", "2"]), item("y", &["", ""])]).validate(), Ok(()));
}

#[test]
fn validate_names_the_first_item_that_does_not_fit() {
    let c = config(vec![item("x", &["1", "2"]), item("y", &["1"]), item("z", &["1", "2", "3"])]);
    assert_eq!(c.validate(), Err(ParseError::ColumnCount { item: 1, expected: 2, found: 1 }));
    let c = config(vec![item("z", &["1", "2", "3"])]);
    assert_eq!(c.validate(), Err(ParseError::ColumnCount { item: 0, expected: 2, found: 3 }));
    let c = config(vec![item("x", &["1", "2"]), item("n", &[])]);
    assert_eq!(c.validate(), Err(ParseError::ColumnCount { item: 1, expected: 2, found: 0 }));
}

#[test]
fn explicit_size_wins() {
    assert_eq!(resolve_dimension(Some(80), 0, 120), 80);
    assert_eq!(resolve_dimension(Some(80), 60, 120), 80);
    assert_eq!(resolve_dimension(Some(0), 60, 120), 0);
}

#[test]
fn unset_size_becomes_the_default() {
    assert_eq!(resolve_dimension(None, 0, 120), 120);
    assert_eq!(resolve_dimension(None, 60, 120), 60);
    assert_eq!(DEFAULT_WIDTH, 120);
    assert_eq!(DEFAULT_HEIGHT, 20);
}

#[test]
fn response_action_defaults_to_select() {
    let response = MenuResponse::new(item("x", &["1", "2"]));
    assert_eq!(response.action, "select");
    assert_eq!(response.selected, Some(item("x", &["1", "2"])));
}

#[test]
fn response_action_is_the_items_own() {
    let mut it = item("x", &["1", "2"]);
    it.action = Some("edit".to_string());
    let response = MenuResponse::new(it);
    assert_eq!(response.action, "edit");
    assert_eq!(response.selected.unwrap().action, Some("edit".to_string()));
}
