use menu_picker::filter::matches_item;
use menu_picker::filter::recompute_filter;
use menu_picker::text::chars_of;
use menu_picker::text::contains_chars;
use menu_picker::text::string_of_range;
use menu_picker::types::ItemStyle;
use menu_picker::types::MenuItem;

fn item(id: &str, columns: &[&str]) -> MenuItem {
    MenuItem {
        id: id.to_string(),
        columns: columns.iter().map(|c| c.to_string()).collect(),
        command: None,
        action: None,
        style: ItemStyle::default(),
    }
}

fn chars(s: &str) -> Vec<char> {
    s.chars().collect()
}

#[test]
fn empty_filter_keeps_every_index() {
    let items = vec![item("a", &["x"]), item("b", &["y"]), item("c", &["z"])];
    assert_eq!(recompute_filter(&items, ""), vec![0, 1, 2]);
    assert_eq!(recompute_filter(&Vec::new(), ""), Vec::<usize>::new());
    assert_eq!(recompute_filter(&Vec::new(), "x"), Vec::<usize>::new());
}

#[test]
fn filter_keeps_items_in_document_order() {
    let items = vec![
        item("zebra", &["Striped"]),
        item("apple", &["Fruit"]),
        item("crab", &["Sea"]),
        item("bear", &["forest"]),
    ];
    assert_eq!(recompute_filter(&items, "r"), vec![0, 1, 2, 3]);
    assert_eq!(recompute_filter(&items, "ra"), vec![0, 2]);
    assert_eq!(recompute_filter(&items, "fruit"), vec![1]);
    assert_eq!(recompute_filter(&items, "q"), Vec::<usize>::new());
}

#[test]
fn filter_ignores_case_on_both_sides() {
    let items = vec![item("APPLE", &["Red Fruit"]), item("banana", &["yellow"])];
    assert_eq!(recompute_filter(&items, "app"), vec![0]);
    assert_eq!(recompute_filter(&items, "ApP"), vec![0]);
    assert_eq!(recompute_filter(&items, "RED F"), vec![0]);
    assert_eq!(recompute_filter(&items, "YELLOW"), vec![1]);
    assert_eq!(recompute_filter(&items, "BANANA"), vec![1]);
}

#[test]
fn filter_folds_non_ascii_letters() {
    let items = vec![item("ÉCOLE", &["Ärger"]), item("ecole", &["arger"])];
    assert_eq!(recompute_filter(&items, "école"), vec![0]);
    assert_eq!(recompute_filter(&items, "ÄRG"), vec![0]);
}

#[test]
fn match_may_not_span_two_fields() {
    let items = vec![item("ab", &["cd", "ef"])];
    assert_eq!(recompute_filter(&items, "bc"), Vec::<usize>::new());
    assert_eq!(recompute_filter(&items, "de"), Vec::<usize>::new());
    assert_eq!(recompute_filter(&items, "abcd"), Vec::<usize>::new());
    assert_eq!(recompute_filter(&items, "cd"), vec![0]);
    assert_eq!(recompute_filter(&items, "f"), vec![0]);
    assert_eq!(recompute_filter(&items, "ab"), vec![0]);
}

#[test]
fn command_and_action_are_not_searched() {
    let mut it = item("apple", &["fruit"]);
    it.command = Some("run zzz".to_string());
    it.action = Some("qqq".to_string());
    let items = vec![it];
    assert_eq!(recompute_filter(&items, "zzz"), Vec::<usize>::new());
    assert_eq!(recompute_filter(&items, "qqq"), Vec::<usize>::new());
}

#[test]
fn recompute_filter_is_deterministic() {
    let items = vec![item("one", &["1"]), item("two", &["2"]), item("twenty one", &["21"])];
    let first = recompute_filter(&items, "one");
    let second = recompute_filter(&items, "one");
    assert_eq!(first, second);
    assert_eq!(first, vec![0, 2]);
}

#[test]
fn matches_item_takes_the_needle_as_it_is() {
    let it = item("Apple", &["Red"]);
    assert!(matches_item(&it, &chars("app")));
    assert!(matches_item(&it, &chars("red")));
    assert!(matches_item(&it, &chars("")));
    assert!(!matches_item(&it, &chars("App")));
    assert!(!matches_item(&it, &chars("pear")));
}

#[test]
fn contains_finds_a_contiguous_part() {
    assert!(contains_chars(&chars("grape"), &chars("ap")));
    assert!(contains_chars(&chars("grape"), &chars("grape")));
    assert!(contains_chars(&chars("grape"), &chars("e")));
    assert!(contains_chars(&chars("grape"), &chars("g")));
    assert!(contains_chars(&chars("grape"), &chars("")));
    assert!(contains_chars(&chars(""), &chars("")));
    assert!(!contains_chars(&chars("grape"), &chars("gp")));
    assert!(!contains_chars(&chars("grape"), &chars("grapes")));
    assert!(!contains_chars(&chars(""), &chars("a")));
    assert!(!contains_chars(&chars("aab"), &chars("abb")));
    assert!(contains_chars(&chars("aaab"), &chars("aab")));
}

#[test]
fn contains_is_case_sensitive() {
    assert!(contains_chars(&chars("run apple"), &chars("n a")));
    assert!(!contains_chars(&chars("run apple"), &chars("N A")));
    assert!(contains_chars(&chars("naïve"), &chars("ïv")));
}

#[test]
fn strings_and_character_vectors_convert_both_ways() {
    assert_eq!(chars_of("héllo"), vec!['h', 'é', 'l', 'l', 'o']);
    assert_eq!(chars_of(""), Vec::<char>::new());
    assert_eq!(string_of_range(&vec!['a', 'ß', 'c', 'd'], 1, 3), "ßc");
    assert_eq!(string_of_range(&vec!['a', 'b'], 2, 2), "");
}
