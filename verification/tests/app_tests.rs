use menu_picker::app::App;
use menu_picker::app::Command;
use menu_picker::app::Key;
use menu_picker::app::KeyCode;
use menu_picker::app::PAGE_SIZE;
use menu_picker::menu::Menu;
use menu_picker::menu::Motion;
use menu_picker::types::MenuConfig;

fn fruit() -> Menu {
    Menu::new(MenuConfig::from_text("pick", "apple:run apple\nbanana\ngrape:run grape"))
}

fn numbered(count: usize) -> Menu {
    let mut text = String::new();
    for i in 0..count {
        text.push_str(&format!("item{}\n", i));
    }
    Menu::new(MenuConfig::from_text("pick", &text))
}

fn press(app: &mut App, code: KeyCode) {
    app.handle_key(Key::plain(code));
}

fn type_text(app: &mut App, text: &str) {
    for c in text.chars() {
        press(app, KeyCode::Char(c));
    }
}

#[test]
fn text_form_items_filtered_by_ap() {
    let mut app = App::new(fruit());
    type_text(&mut app, "ap");
    let menu = app.menu();
    let shown: Vec<&str> =
        menu.filtered_indices().iter().map(|&i| menu.config().items[i].id.as_str()).collect();
    assert_eq!(shown, vec!["apple", "grape"]);
    assert_eq!(menu.selected(), 0);
    assert_eq!(menu.get_selected().unwrap().id, "apple");
    assert_eq!(menu.get_selected().unwrap().command, Some("run apple".to_string()));
}

#[test]
fn text_form_items_filtered_by_app() {
    let mut app = App::new(fruit());
    type_text(&mut app, "app");
    let menu = app.menu();
    assert_eq!(menu.filtered_indices(), &vec![0]);
    assert_eq!(menu.selected(), 0);
    assert_eq!(menu.get_selected().unwrap().command, Some("run apple".to_string()));
}

#[test]
fn new_session_browses() {
    let app = App::new(fruit());
    assert!(!app.is_terminated());
    assert!(app.result().is_none());
    assert_eq!(app.menu().filtered_indices().len(), 3);
}

#[test]
fn enter_on_empty_list_does_nothing() {
    let mut app = App::new(fruit());
    type_text(&mut app, "zzz");
    assert!(app.menu().filtered_indices().is_empty());
    press(&mut app, KeyCode::Enter);
    assert!(!app.is_terminated());
    assert!(app.result().is_none());
    press(&mut app, KeyCode::Backspace);
    press(&mut app, KeyCode::Backspace);
    press(&mut app, KeyCode::Backspace);
    assert_eq!(app.menu().filter_text(), "");
    assert_eq!(app.menu().filtered_indices().len(), 3);
}

#[test]
fn escape_always_cancels() {
    let mut app = App::new(fruit());
    press(&mut app, KeyCode::Esc);
    assert!(app.is_terminated());
    assert!(app.result().is_none());

    let mut app = App::new(fruit());
    type_text(&mut app, "zzz");
    press(&mut app, KeyCode::Esc);
    assert!(app.is_terminated());
    assert!(app.into_result().is_none());

    let mut app = App::new(fruit());
    type_text(&mut app, "gr");
    press(&mut app, KeyCode::Down);
    app.handle_key(Key { code: KeyCode::Esc, control: true, alt: true });
    assert!(app.is_terminated());
    assert!(app.into_result().is_none());
}

#[test]
fn control_c_cancels() {
    let mut app = App::new(fruit());
    app.handle_key(Key { code: KeyCode::Char('c'), control: true, alt: false });
    assert!(app.is_terminated());
    assert!(app.result().is_none());
    assert_eq!(app.menu().filter_text(), "");
}

#[test]
fn enter_commits_the_selected_item() {
    let mut app = App::new(fruit());
    press(&mut app, KeyCode::Down);
    press(&mut app, KeyCode::Down);
    press(&mut app, KeyCode::Enter);
    assert!(app.is_terminated());
    assert_eq!(app.result().unwrap().id, "grape");
    let item = app.into_result().unwrap();
    assert_eq!(item.id, "grape");
    assert_eq!(item.columns, vec!["grape".to_string()]);
    assert_eq!(item.command, Some("run grape".to_string()));
    assert_eq!(item.action, None);
}

#[test]
fn enter_commits_after_filtering() {
    let mut app = App::new(fruit());
    type_text(&mut app, "BAN");
    press(&mut app, KeyCode::Enter);
    let item = app.into_result().unwrap();
    assert_eq!(item.id, "banana");
    assert_eq!(item.command, None);
}

#[test]
fn terminated_session_takes_no_key() {
    let mut app = App::new(fruit());
    press(&mut app, KeyCode::Enter);
    assert_eq!(app.result().unwrap().id, "apple");
    press(&mut app, KeyCode::Down);
    press(&mut app, KeyCode::Char('g'));
    press(&mut app, KeyCode::Esc);
    press(&mut app, KeyCode::Enter);
    assert_eq!(app.menu().selected(), 0);
    assert_eq!(app.menu().filter_text(), "");
    assert_eq!(app.result().unwrap().id, "apple");

    let mut app = App::new(fruit());
    press(&mut app, KeyCode::Esc);
    press(&mut app, KeyCode::Enter);
    assert!(app.is_terminated());
    assert!(app.result().is_none());
}

#[test]
fn arrow_and_paging_keys_move_the_selection() {
    let mut app = App::new(numbered(30));
    press(&mut app, KeyCode::Up);
    assert_eq!((app.menu().selected(), app.menu().scroll_offset()), (29, 15));
    press(&mut app, KeyCode::Down);
    assert_eq!((app.menu().selected(), app.menu().scroll_offset()), (0, 0));
    press(&mut app, KeyCode::PageDown);
    assert_eq!((app.menu().selected(), app.menu().scroll_offset()), (10, 0));
    press(&mut app, KeyCode::PageDown);
    assert_eq!((app.menu().selected(), app.menu().scroll_offset()), (20, 6));
    press(&mut app, KeyCode::PageUp);
    assert_eq!((app.menu().selected(), app.menu().scroll_offset()), (10, 6));
    press(&mut app, KeyCode::End);
    assert_eq!((app.menu().selected(), app.menu().scroll_offset()), (29, 15));
    press(&mut app, KeyCode::Home);
    assert_eq!((app.menu().selected(), app.menu().scroll_offset()), (0, 0));
    assert!(!app.is_terminated());
}

#[test]
fn other_keys_are_ignored() {
    let mut app = App::new(numbered(30));
    press(&mut app, KeyCode::PageDown);
    type_text(&mut app, "1");
    press(&mut app, KeyCode::Down);
    let before = (
        app.menu().selected(),
        app.menu().scroll_offset(),
        app.menu().filtered_indices().clone(),
        app.menu().filter_text().to_string(),
    );
    press(&mut app, KeyCode::Other);
    app.handle_key(Key { code: KeyCode::Char('x'), control: true, alt: false });
    app.handle_key(Key { code: KeyCode::Char('x'), control: false, alt: true });
    app.handle_key(Key { code: KeyCode::Char('c'), control: false, alt: true });
    app.handle_key(Key { code: KeyCode::Backspace, control: true, alt: false });
    app.handle_key(Key { code: KeyCode::Backspace, control: false, alt: true });
    let after = (
        app.menu().selected(),
        app.menu().scroll_offset(),
        app.menu().filtered_indices().clone(),
        app.menu().filter_text().to_string(),
    );
    assert_eq!(before, after);
    assert_eq!(before.0, 1);
    assert_eq!(before.3, "1");
    assert!(!app.is_terminated());
}

#[test]
fn typing_resets_selection_to_the_top() {
    let mut app = App::new(numbered(30));
    press(&mut app, KeyCode::End);
    type_text(&mut app, "item2");
    assert_eq!(app.menu().filter_text(), "item2");
    assert_eq!((app.menu().selected(), app.menu().scroll_offset()), (0, 0));
    assert_eq!(app.menu().filtered_indices(), &vec![2, 20, 21, 22, 23, 24, 25, 26, 27, 28, 29]);
    press(&mut app, KeyCode::Down);
    press(&mut app, KeyCode::Backspace);
    assert_eq!(app.menu().filter_text(), "item");
    assert_eq!(app.menu().filtered_indices().len(), 30);
    assert_eq!((app.menu().selected(), app.menu().scroll_offset()), (0, 0));
}

#[test]
fn shifted_character_is_typed_as_it_comes() {
    let mut app = App::new(fruit());
    press(&mut app, KeyCode::Char('G'));
    assert_eq!(app.menu().filter_text(), "G");
    assert_eq!(app.menu().filtered_indices(), &vec![2]);
}

#[test]
fn key_meanings() {
    assert_eq!(PAGE_SIZE, 10);
    assert_eq!(Key::plain(KeyCode::Esc).command(), Command::Cancel);
    assert_eq!(Key::plain(KeyCode::Enter).command(), Command::Commit);
    assert_eq!(Key::plain(KeyCode::Up).command(), Command::Move(Motion::Previous));
    assert_eq!(Key::plain(KeyCode::Down).command(), Command::Move(Motion::Next));
    assert_eq!(Key::plain(KeyCode::PageUp).command(), Command::Move(Motion::PageUp(10)));
    assert_eq!(Key::plain(KeyCode::PageDown).command(), Command::Move(Motion::PageDown(10)));
    assert_eq!(Key::plain(KeyCode::Home).command(), Command::Move(Motion::Start));
    assert_eq!(Key::plain(KeyCode::End).command(), Command::Move(Motion::End));
    assert_eq!(Key::plain(KeyCode::Char('c')).command(), Command::Insert('c'));
    assert_eq!(Key::plain(KeyCode::Backspace).command(), Command::Delete);
    assert_eq!(Key::plain(KeyCode::Other).command(), Command::Ignore);
    let ctrl = |code| Key { code, control: true, alt: false };
    assert_eq!(ctrl(KeyCode::Char('c')).command(), Command::Cancel);
    assert_eq!(ctrl(KeyCode::Char('C')).command(), Command::Ignore);
    assert_eq!(ctrl(KeyCode::Char('d')).command(), Command::Ignore);
    assert_eq!(ctrl(KeyCode::Enter).command(), Command::Commit);
    assert_eq!(ctrl(KeyCode::Up).command(), Command::Move(Motion::Previous));
    assert_eq!(Key::plain(KeyCode::Esc), Key { code: KeyCode::Esc, control: false, alt: false });
}
