use ukato::config::{editor_choices, expand_home, expand_path, new_config, validate_config, Config};
use ukato::paths::{
    choose_template, default_template_path, join_path, new_template_path, note_file_name, note_path,
    template_path, templates_dir,
};
use ukato::session::{plan_open, plan_open_today, plan_template, Action, Event, Session, Stage};
use ukato::store::{list_entries, most_recent, selection_name, DirEntry, StoreError};
use ukato::template::render;

fn file(name: &str, modified: i128) -> DirEntry {
    DirEntry { name: name.to_string(), modified, is_file: true, is_dir: false }
}

fn dir(name: &str, modified: i128) -> DirEntry {
    DirEntry { name: name.to_string(), modified, is_file: false, is_dir: true }
}

#[test]
fn render_leaves_text_without_tokens() {
    let text = "# plain\n\nno placeholders here, _TITLE or CREATION_DATE_ halves";
    assert_eq!(render(text, "todo", "2024-01-01"), text);
    assert_eq!(render("", "a", "b"), "");
}

#[test]
fn render_title_and_date() {
    assert_eq!(
        render("_TITLE_\n\nwritten _CREATION_DATE_", "todo", "2024-01-01"),
        "# todo\n\nwritten 2024-01-01"
    );
}

#[test]
fn render_replaces_every_occurrence() {
    assert_eq!(
        render("_TITLE_ _TITLE_ _CREATION_DATE_/_CREATION_DATE_", "x", "d"),
        "# x # x d/d"
    );
}

#[test]
fn render_date_token_in_title_is_replaced() {
    assert_eq!(render("_TITLE_", "_CREATION_DATE_", "2020-02-02"), "# 2020-02-02");
}

#[test]
fn render_overlapping_underscores() {
    assert_eq!(render("__TITLE__", "t", "d"), "_# t_");
}

#[test]
fn most_recent_any_listing_order() {
    let orders = [[0usize, 1, 2], [0, 2, 1], [1, 0, 2], [1, 2, 0], [2, 0, 1], [2, 1, 0]];
    let stamped = [("a.md", 10i128), ("b.md", 20), ("c.md", 30)];
    for order in orders.iter() {
        let entries: Vec<DirEntry> = order.iter().map(|&k| file(stamped[k].0, stamped[k].1)).collect();
        assert_eq!(most_recent(&entries), Ok("c.md".to_string()));
    }
}

#[test]
fn most_recent_skips_directories() {
    let entries = vec![file("old.md", 5), dir("templates", 100), file("new.md", 7)];
    assert_eq!(most_recent(&entries), Ok("new.md".to_string()));
}

#[test]
fn most_recent_tie_takes_last() {
    let entries = vec![file("first.md", 9), file("second.md", 9), file("older.md", 1)];
    assert_eq!(most_recent(&entries), Ok("second.md".to_string()));
}

#[test]
fn most_recent_empty_directory() {
    assert_eq!(most_recent(&Vec::new()), Err(StoreError::NoFilesFound));
}

#[test]
fn most_recent_only_directories() {
    assert_eq!(most_recent(&vec![dir("templates", 3)]), Err(StoreError::NoFilesFound));
}

#[test]
fn note_name_gets_extension_once() {
    assert_eq!(note_file_name("todo"), "todo.md");
    assert_eq!(note_file_name("todo.md"), "todo.md");
    assert_eq!(note_file_name(""), ".md");
    assert_eq!(note_file_name("md"), "md.md");
}

#[test]
fn note_path_in_directory() {
    assert_eq!(note_path("/home/u/notes", "todo"), "/home/u/notes/todo.md");
    assert_eq!(note_path("/home/u/notes", "todo.md"), "/home/u/notes/todo.md");
    assert_eq!(note_path("/home/u/notes/", "todo"), "/home/u/notes/todo.md");
}

#[test]
fn join_path_cases() {
    assert_eq!(join_path("", "a.md"), "a.md");
    assert_eq!(join_path("/n", "/abs.md"), "/abs.md");
    assert_eq!(join_path("/n/", "a.md"), "/n/a.md");
    assert_eq!(join_path("n", "a.md"), "n/a.md");
}

#[test]
fn template_paths() {
    assert_eq!(templates_dir("/n"), "/n/templates");
    assert_eq!(template_path("/n", "daily"), "/n/templates/daily.md");
    assert_eq!(default_template_path("/n"), "/n/templates/basic.md");
    assert_eq!(new_template_path("/n", "daily"), "/n/templates/daily.md");
    assert_eq!(new_template_path("/n", "daily.md"), "/n/templates/daily.md");
}

#[test]
fn missing_template_falls_back_with_warning() {
    let choice = choose_template("/n", Some("meeting"), false);
    assert_eq!(choice.path, "/n/templates/basic.md");
    assert_eq!(
        choice.warning,
        Some("Warning: Template 'meeting' not found. Using default.".to_string())
    );
}

#[test]
fn existing_template_is_used() {
    let choice = choose_template("/n", Some("meeting"), true);
    assert_eq!(choice.path, "/n/templates/meeting.md");
    assert_eq!(choice.warning, None);
    let default = choose_template("/n", None, false);
    assert_eq!(default.path, "/n/templates/basic.md");
    assert_eq!(default.warning, None);
}

#[test]
fn existing_note_is_not_rewritten() {
    let plan = plan_open("/n", "todo", "_TITLE_", true, "2024-01-01");
    assert_eq!(plan.path, "/n/todo.md");
    assert_eq!(plan.content, None);
    let today = plan_open_today("/n", "todo.md", "_TITLE_", true);
    assert_eq!(today.path, "/n/todo.md");
    assert_eq!(today.content, None);
}

#[test]
fn new_note_is_rendered() {
    let plan = plan_open("/n", "todo", "_TITLE_\n\nwritten _CREATION_DATE_", false, "2024-01-01");
    assert_eq!(plan.path, "/n/todo.md");
    assert_eq!(plan.content, Some("# todo\n\nwritten 2024-01-01".to_string()));
}

#[test]
fn new_note_gets_todays_date() {
    let plan = plan_open_today("/n", "todo", "_CREATION_DATE_", false);
    let content = plan.content.unwrap();
    assert_ne!(content, "_CREATION_DATE_");
    assert_eq!(content.len(), 10);
    let bytes = content.as_bytes();
    assert_eq!(bytes[4], b'-');
    assert_eq!(bytes[7], b'-');
}

#[test]
fn new_template_starts_empty() {
    let plan = plan_template("/n", "daily", false);
    assert_eq!(plan.path, "/n/templates/daily.md");
    assert_eq!(plan.content, Some(String::new()));
    assert_eq!(plan_template("/n", "daily.md", true).content, None);
}

#[test]
fn list_notes_keeps_markdown_files() {
    let entries = vec![file("a.md", 1), dir("templates", 2), file("b.txt", 3), file("c.md", 4)];
    assert_eq!(list_entries(&entries, false), Ok(vec!["a.md".to_string(), "c.md".to_string()]));
}

#[test]
fn list_templates_keeps_directories() {
    let entries = vec![file("basic.md", 1), dir("work", 2), file("notes.txt", 3)];
    assert_eq!(list_entries(&entries, true), Ok(vec!["basic.md".to_string(), "work".to_string()]));
}

#[test]
fn list_empty_is_an_error() {
    assert_eq!(list_entries(&Vec::new(), false), Err(StoreError::NoNotesFound));
    assert_eq!(list_entries(&vec![file("x.txt", 1)], false), Err(StoreError::NoNotesFound));
}

#[test]
fn selection_names() {
    assert_eq!(selection_name("basic.md", true), "templates/basic.md");
    assert_eq!(selection_name("todo.md", false), "todo.md");
}

#[test]
fn session_for_new_note_with_viewer() {
    let s = Session::new(true);
    let (s, a) = s.step(Event::Begin);
    assert_eq!(a, Action::WriteNote);
    let (s, a) = s.step(Event::Written { ok: true });
    assert_eq!(a, Action::StartViewer);
    let (s, a) = s.step(Event::ViewerStarted { ok: true });
    assert_eq!(a, Action::RunEditor);
    assert!(s.viewer_running);
    let (s, a) = s.step(Event::EditorExited { ok: false });
    assert_eq!(a, Action::StopViewer);
    let (s, a) = s.step(Event::ViewerStopped);
    assert_eq!(a, Action::Finish { ok: false });
    assert_eq!(s.stage, Stage::Finished);
    assert!(!s.viewer_running);
}

#[test]
fn session_for_existing_note_without_viewer() {
    let s = Session::new(false);
    let (s, a) = s.step(Event::Begin);
    assert_eq!(a, Action::StartViewer);
    let (s, a) = s.step(Event::ViewerStarted { ok: false });
    assert_eq!(a, Action::RunEditor);
    let (s, a) = s.step(Event::EditorExited { ok: true });
    assert_eq!(a, Action::Finish { ok: true });
    assert_eq!(s.stage, Stage::Finished);
}

#[test]
fn session_write_failure_finishes() {
    let (s, _) = Session::new(true).step(Event::Begin);
    let (s, a) = s.step(Event::Written { ok: false });
    assert_eq!(a, Action::Finish { ok: false });
    let (s2, a) = s.step(Event::Begin);
    assert_eq!(a, Action::Wait);
    assert_eq!(s2, s);
}

#[test]
fn config_defaults() {
    let c = Config::default();
    assert_eq!(c.directory, "~/notes");
    assert_eq!(c.editor, "vim");
}

#[test]
fn config_from_setup() {
    assert_eq!(editor_choices(), vec!["vim", "nano", "emacs", "micro"]);
    let c = new_config("/home/u/notes", 2).unwrap();
    assert_eq!(c.directory, "/home/u/notes");
    assert_eq!(c.editor, "emacs");
    assert!(new_config("/n", 4).is_none());
}

#[test]
fn validate_config_asks_for_missing_directory() {
    let c = new_config("/n", 0).unwrap();
    assert_eq!(validate_config(&c, false), Some("/n".to_string()));
    assert_eq!(validate_config(&c, true), None);
}

#[test]
fn expand_path_replaces_home_mark() {
    assert_eq!(expand_path("~/notes", "/home/u"), "/home/u/notes");
    assert_eq!(expand_path("/srv/notes", "/home/u"), "/srv/notes");
    assert_eq!(expand_path("~/a~b", "/h"), "/h/a~b");
    assert_eq!(expand_path("a~", "h"), "a~");
    assert_eq!(expand_path("~", "/~"), "/~");
    assert_eq!(expand_path(&expand_path("~", "/~"), "/~"), "/~");
    assert_eq!(expand_path("", "/h"), "");
}

#[test]
fn expand_home_keeps_inner_mark() {
    assert_eq!(expand_home("/srv/a~b"), Some("/srv/a~b".to_string()));
}

#[test]
fn most_recent_before_epoch() {
    let entries = vec![file("old.md", -5_000), file("older.md", -9_000)];
    assert_eq!(most_recent(&entries), Ok("old.md".to_string()));
}

#[test]
fn expand_home_without_mark_is_unchanged() {
    assert_eq!(expand_home("/srv/notes"), Some("/srv/notes".to_string()));
}

#[test]
fn expand_home_uses_home_directory() {
    if let Some(e) = expand_home("~/notes") {
        assert!(!e.starts_with('~'));
        assert!(e.ends_with("/notes"));
    }
}

#[test]
fn list_is_sorted_whatever_the_listing_order() {
    let entries = vec![file("zeta.md", 1), file("alpha.md", 2), file("al.md", 3), file("Beta.md", 4)];
    assert_eq!(
        list_entries(&entries, false),
        Ok(vec![
            "Beta.md".to_string(),
            "al.md".to_string(),
            "alpha.md".to_string(),
            "zeta.md".to_string()
        ])
    );
}

#[test]
fn replace_with_empty_pattern_copies() {
    let s: Vec<char> = "a_b".chars().collect();
    let rep: Vec<char> = "xy".chars().collect();
    assert_eq!(ukato::text::replace_all_exec(&s, &Vec::new(), &rep), s);
}

#[test]
fn session_keeps_editor_status() {
    let (s, _) = Session::new(false).step(Event::Begin);
    let (s, _) = s.step(Event::ViewerStarted { ok: true });
    let (s, _) = s.step(Event::EditorExited { ok: true });
    assert!(s.editor_ok);
    assert!(s.viewer_running);
    assert_eq!(s.stage, Stage::StoppingViewer);
    let (s, a) = s.step(Event::ViewerStopped);
    assert_eq!(a, Action::Finish { ok: true });
    assert!(!s.viewer_running);
}
