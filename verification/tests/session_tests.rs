use weld::app::App;
use weld::io::Content;
use weld::model::{DiffModel, DiffResult};
use weld::session::{compare_text, pane_labels, saved_report, sorted_unique, Order};

fn app() -> App {
    let mut left = Content::from_lines(&["a"]);
    left.path = "/w/left.txt".to_string();
    let mut right = Content::from_lines(&["a"]);
    right.path = "/w/right.txt".to_string();
    let model = DiffModel {
        left_content: left,
        right_content: right,
        left_dirty: false,
        right_dirty: false,
        diff: DiffResult { blocks: vec![] },
        display_rows: vec![],
        change_block_indices: vec![],
        current_block: 0,
        change_count: 0,
        max_content_width: 2,
        tab_width: 4,
    };
    let mut app = App::from_model(model, false);
    app.left_filename = "left.txt".to_string();
    app.right_filename = "right.txt".to_string();
    app
}

#[test]
fn text_order_is_lexicographic() {
    assert_eq!(compare_text("abc", "abd"), Order::Less);
    assert_eq!(compare_text("ab", "abc"), Order::Less);
    assert_eq!(compare_text("b", "abc"), Order::Greater);
    assert_eq!(compare_text("", ""), Order::Equal);
    assert_eq!(compare_text("xyz", "xyz"), Order::Equal);
}

#[test]
fn sorted_unique_sorts_and_drops_repeats() {
    let v: Vec<String> = vec!["c", "a", "c", "b", "a"].into_iter().map(String::from).collect();
    assert_eq!(sorted_unique(&v), vec!["a", "b", "c"]);
    assert!(sorted_unique(&vec![]).is_empty());
}

#[test]
fn saved_report_names_each_saved_file_once() {
    let mut app = app();
    app.saved_files = vec!["/w/right.txt".to_string(), "/w/left.txt".to_string(), "/w/right.txt".to_string()];
    assert_eq!(saved_report(&app), vec!["left.txt (left): saved", "right.txt (right): saved"]);
    app.saved_files.clear();
    assert!(saved_report(&app).is_empty());
}

#[test]
fn pane_labels_split_directory_and_name() {
    let (dir, name) = pane_labels("/home/someone/projects/weld/main.rs", Some("/home/someone"));
    assert_eq!(dir, "~/projects/weld");
    assert_eq!(name, "main.rs");
    let (dir, name) = pane_labels("/tmp/a.txt", Some("/home/someone"));
    assert_eq!(dir, "/tmp");
    assert_eq!(name, "a.txt");
    let (dir, name) = pane_labels("/", None);
    assert_eq!(dir, "");
    assert_eq!(name, "");
}

#[test]
fn label_panes_names_both_panes_and_asks_for_centering() {
    let mut app = app();
    app.label_panes("/home/someone/src/l.rs", "/srv/r.rs", Some("/home/someone"));
    assert_eq!(app.left_dir, "~/src");
    assert_eq!(app.left_filename, "l.rs");
    assert_eq!(app.right_dir, "/srv");
    assert_eq!(app.right_filename, "r.rs");
    assert!(app.needs_initial_scroll);
    assert!(app.running);
    assert!(app.saved_files.is_empty());
}
