use repo_finder::domain::{Org, Repo};
use repo_finder::session::{App, KeyCode, KeyEvent};

const NOW: i64 = 1_700_000_000;

fn repo(full_name: &str, uses: u32) -> Repo {
    let mut repo = Repo::new(
        1,
        full_name.to_string(),
        full_name.to_string(),
        1,
        "owner".to_string(),
        false,
        None,
        None,
        None,
    );
    repo.access_count = uses;
    if uses > 0 {
        repo.last_accessed_at = Some(NOW);
    }
    repo
}

fn app_with(names: &[&str]) -> App {
    let repos = names.iter().map(|name| repo(name, 0)).collect();
    let mut app = App::new_at(repos, vec![], NOW);
    settle(&mut app);
    app
}

fn settle(app: &mut App) {
    for _ in 0..1000 {
        app.tick();
    }
}

fn key(code: KeyCode) -> KeyEvent {
    KeyEvent { code, ctrl: false }
}

fn ctrl(c: char) -> KeyEvent {
    KeyEvent { code: KeyCode::Char(c), ctrl: true }
}

fn type_text(app: &mut App, text: &str) {
    for c in text.chars() {
        assert_eq!(app.handle_key_event(key(KeyCode::Char(c))), None);
    }
}

fn in_range(app: &App) -> bool {
    let count = app.match_count();
    if count == 0 {
        app.selected_index() == 0
    } else {
        app.selected_index() < count
    }
}

fn shown(app: &App) -> Vec<String> {
    app.matches().iter().map(|item| item.full_name.clone()).collect()
}

#[test]
fn a_new_session_is_empty_and_at_the_top() {
    let app = App::new_at(
        vec![repo("a/x", 0), repo("a/y", 0)],
        vec![Org::new(1, "a".to_string(), None, None)],
        NOW,
    );
    assert_eq!(app.input_pattern(), "");
    assert_eq!(app.selected_index(), 0);
    assert!(!app.should_exit());
    assert!(!app.show_help());
    assert_eq!(app.total_orgs(), 1);
    assert_eq!(app.total_repos(), 2);
    assert_eq!(app.match_count(), 0);
    assert!(app.selected_item().is_none());
    let timed = App::new(vec![repo("a/x", 0)], vec![]);
    assert_eq!(timed.total_repos(), 1);
    assert_eq!(timed.match_count(), 0);
}

#[test]
fn confirm_without_matches_gives_nothing_and_changes_nothing() {
    let mut app = app_with(&["a/x", "a/y"]);
    type_text(&mut app, "zzz");
    settle(&mut app);
    assert_eq!(app.match_count(), 0);
    assert_eq!(app.on_enter(), None);
    assert_eq!(app.handle_key_event(key(KeyCode::Enter)), None);
    assert_eq!(app.handle_key_event(ctrl('i')), None);
    assert_eq!(app.input_pattern(), "zzz");
    assert_eq!(app.selected_index(), 0);
    assert!(!app.should_exit());
    assert!(!app.show_help());
    assert_eq!(app.match_count(), 0);
    let mut empty = App::new_at(vec![], vec![], NOW);
    assert_eq!(empty.on_enter(), None);
    settle(&mut empty);
    assert_eq!(empty.on_enter(), None);
    assert_eq!(empty.selected_index(), 0);
}

#[test]
fn confirm_gives_the_address_of_the_selection() {
    let mut app = app_with(&["a/x", "a/y", "b/z"]);
    assert_eq!(
        app.on_enter(),
        Some("https://github.com/a/x".to_string())
    );
    app.on_down();
    app.on_down();
    assert_eq!(app.selected_item().unwrap().full_name, "b/z");
    assert_eq!(
        app.handle_key_event(key(KeyCode::Enter)),
        Some("https://github.com/b/z".to_string())
    );
    assert_eq!(app.selected_index(), 2);
    assert!(!app.should_exit());
}

#[test]
fn shortcuts_open_pages_of_the_selection() {
    let mut app = app_with(&["a/x"]);
    assert_eq!(
        app.handle_key_event(ctrl('a')),
        Some("https://github.com/a/x/actions".to_string())
    );
    assert_eq!(
        app.handle_key_event(ctrl('i')),
        Some("https://github.com/a/x/issues".to_string())
    );
    assert_eq!(
        app.handle_key_event(ctrl('p')),
        Some("https://github.com/a/x/pulls".to_string())
    );
    assert_eq!(
        app.on_ctrl_key('m'),
        Some("https://github.com/a/x/milestones".to_string())
    );
    assert_eq!(app.handle_key_event(ctrl('z')), None);
    assert_eq!(app.handle_key_event(ctrl('?')), None);
    assert_eq!(app.input_pattern(), "");
    assert!(!app.show_help());
}

#[test]
fn typing_and_deleting_edit_the_pattern() {
    let mut app = app_with(&["facebook/react", "rust-lang/rust"]);
    app.on_down();
    assert_eq!(app.selected_index(), 1);
    app.on_char('r');
    assert_eq!(app.input_pattern(), "r");
    assert_eq!(app.selected_index(), 0);
    type_text(&mut app, "ea");
    assert_eq!(app.input_pattern(), "rea");
    settle(&mut app);
    assert_eq!(shown(&app), vec!["facebook/react"]);
    app.on_backspace();
    app.handle_key_event(key(KeyCode::Backspace));
    assert_eq!(app.input_pattern(), "r");
    settle(&mut app);
    assert_eq!(app.match_count(), 2);
    assert!(shown(&app).contains(&"facebook/react".to_string()));
    assert!(shown(&app).contains(&"rust-lang/rust".to_string()));
    app.on_down();
    app.on_backspace();
    assert_eq!(app.input_pattern(), "");
    assert_eq!(app.selected_index(), 0);
    app.on_backspace();
    assert_eq!(app.input_pattern(), "");
    assert_eq!(app.selected_index(), 0);
}

#[test]
fn moving_stays_within_the_list() {
    let mut app = app_with(&["a/1", "a/2", "a/3"]);
    app.on_up();
    assert_eq!(app.selected_index(), 0);
    app.handle_key_event(key(KeyCode::Down));
    assert_eq!(app.selected_index(), 1);
    app.on_down();
    app.on_down();
    app.on_down();
    assert_eq!(app.selected_index(), 2);
    app.handle_key_event(key(KeyCode::Up));
    assert_eq!(app.selected_index(), 1);
    let mut empty = app_with(&[]);
    empty.on_down();
    empty.on_up();
    assert_eq!(empty.selected_index(), 0);
}

#[test]
fn the_selection_stays_in_range_through_any_events() {
    let mut app = app_with(&["facebook/react", "reach/ui", "rust-lang/rust", "a/x"]);
    let events = [
        key(KeyCode::Down),
        key(KeyCode::Down),
        key(KeyCode::Down),
        key(KeyCode::Down),
        key(KeyCode::Char('r')),
        key(KeyCode::Down),
        key(KeyCode::Down),
        key(KeyCode::Down),
        key(KeyCode::Char('e')),
        key(KeyCode::Char('a')),
        key(KeyCode::Down),
        key(KeyCode::Char('c')),
        key(KeyCode::Char('t')),
        key(KeyCode::Down),
        key(KeyCode::Up),
        key(KeyCode::Char('q')),
        key(KeyCode::Down),
        key(KeyCode::Backspace),
        key(KeyCode::Down),
        key(KeyCode::Backspace),
        key(KeyCode::Backspace),
        key(KeyCode::Down),
        key(KeyCode::Down),
        key(KeyCode::Other),
        key(KeyCode::Char('?')),
        key(KeyCode::Enter),
    ];
    for settle_between in [false, true] {
        for event in events {
            app.handle_key_event(event);
            assert!(in_range(&app));
            if settle_between {
                settle(&mut app);
            } else {
                app.tick();
            }
            assert!(in_range(&app));
        }
    }
}

#[test]
fn a_finished_scan_returns_the_selection_to_the_top() {
    let mut app = app_with(&["a/1", "a/2", "a/3", "b/1"]);
    app.on_char('a');
    app.on_down();
    app.on_down();
    app.on_down();
    assert_eq!(app.selected_index(), 3);
    app.tick();
    assert_eq!(shown(&app), vec!["a/1", "a/2", "a/3"]);
    assert_eq!(app.selected_index(), 0);
    app.on_down();
    app.tick();
    assert_eq!(app.selected_index(), 1);
}

#[test]
fn help_is_toggled_and_leaving_is_requested() {
    let mut app = app_with(&["a/x"]);
    assert_eq!(app.handle_key_event(key(KeyCode::Char('?'))), None);
    assert!(app.show_help());
    assert_eq!(app.input_pattern(), "");
    app.toggle_help();
    assert!(!app.show_help());
    app.toggle_help();
    assert_eq!(app.handle_key_event(key(KeyCode::Esc)), None);
    assert!(app.should_exit());
    assert!(app.show_help());
    let mut other = app_with(&["a/x"]);
    other.on_exit();
    assert!(other.should_exit());
    assert_eq!(other.handle_key_event(key(KeyCode::Other)), None);
    assert_eq!(other.match_count(), 1);
}

#[test]
fn more_used_entries_are_shown_first() {
    let repos = vec![repo("a/x", 0), repo("a/y", 2), repo("a/z", 1)];
    let mut app = App::new_at(repos, vec![], NOW);
    settle(&mut app);
    assert_eq!(shown(&app), vec!["a/y", "a/z", "a/x"]);
    assert_eq!(app.selected_item().unwrap().full_name, "a/y");
}
