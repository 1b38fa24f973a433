use std::collections::BTreeSet;

use gia_gui::execution::ExecutionState;
use gia_gui::form::FormState;
use gia_gui::walk::{DirectoryWalker, EntryKind, WalkEntry};

fn entry(path: &str, kind: EntryKind) -> WalkEntry {
    WalkEntry { path: String::from(path), kind, key: String::from(path) }
}

fn dropped_directory(entries: Vec<WalkEntry>) -> String {
    let mut walker = DirectoryWalker::new(String::from("/drop"), String::from("/drop"));
    while let Some(dir) = walker.next_directory() {
        if dir == "/drop" {
            walker.record(&entries);
        } else {
            walker.record(&Vec::new());
        }
    }
    let mut form = FormState::new(Vec::new(), Vec::new());
    form.attach_files(walker.files());
    form.options
}

#[test]
fn new_form_defaults() {
    let form = FormState::new(vec![String::from("t")], vec![String::from("r")]);
    assert_eq!(form.model, "gemini-2.5-flash-lite");
    assert!(form.prompt.is_empty() && form.options.is_empty() && form.response.is_empty());
    assert!(form.task.is_empty() && form.role.is_empty());
    assert!(!form.use_clipboard && !form.browser_output && !form.resume);
    assert_eq!(form.tasks, vec!["t"]);
    assert_eq!(form.roles, vec!["r"]);
}

#[test]
fn clear_keeps_model() {
    let mut form = FormState::new(Vec::new(), Vec::new());
    form.prompt = String::from("p");
    form.options = String::from("-x");
    form.response = String::from("r");
    form.use_clipboard = true;
    form.browser_output = true;
    form.resume = true;
    form.model = String::from("gemini-2.5-pro");
    form.clear();
    assert!(form.prompt.is_empty() && form.options.is_empty() && form.response.is_empty());
    assert!(!form.use_clipboard && !form.browser_output && !form.resume);
    assert_eq!(form.model, "gemini-2.5-pro");
}

#[test]
fn form_arguments() {
    let mut form = FormState::new(Vec::new(), Vec::new());
    form.resume = true;
    form.model = String::from("gemini-2.5-flash");
    form.prompt = String::from("hi");
    assert_eq!(form.arguments(false), vec!["-R", "--model", "gemini-2.5-flash", "hi"]);
    assert_eq!(
        form.arguments(true),
        vec!["--record-audio", "-R", "--model", "gemini-2.5-flash", "hi"]
    );
}

#[test]
fn receive_takes_result_and_turns_resume_on() {
    let mut form = FormState::new(Vec::new(), Vec::new());
    let mut state = ExecutionState::new();
    assert!(!form.receive(&mut state));
    assert!(!form.resume);
    assert!(state.begin());
    state.finish(String::from("answer"));
    assert!(form.receive(&mut state));
    assert_eq!(form.response, "answer");
    assert!(form.resume);
    assert!(!form.receive(&mut state));
    assert_eq!(form.response, "answer");
}

#[test]
fn append_option_line_separates_lines() {
    let mut form = FormState::new(Vec::new(), Vec::new());
    form.append_option_line("-fa");
    assert_eq!(form.options, "-fa");
    form.append_option_line("-ib");
    assert_eq!(form.options, "-fa\n-ib");
    form.options.push('\n');
    form.append_option_line("-fc");
    assert_eq!(form.options, "-fa\n-ib\n-fc");
}

#[test]
fn attach_files_in_order() {
    let mut form = FormState::new(Vec::new(), Vec::new());
    form.options = String::from("--flag");
    form.attach_files(&vec![String::from("/x/a.png"), String::from("/x/b.txt")]);
    assert_eq!(form.options, "--flag\n-i/x/a.png\n-f/x/b.txt");
    form.attach_files(&Vec::new());
    assert_eq!(form.options, "--flag\n-i/x/a.png\n-f/x/b.txt");
}

#[test]
fn directory_drop_adds_one_line_per_file() {
    let forward = dropped_directory(vec![
        entry("/drop/cat.png", EntryKind::File),
        entry("/drop/notes.txt", EntryKind::File),
    ]);
    let backward = dropped_directory(vec![
        entry("/drop/notes.txt", EntryKind::File),
        entry("/drop/cat.png", EntryKind::File),
    ]);
    let lines_f: BTreeSet<&str> = forward.lines().collect();
    let lines_b: BTreeSet<&str> = backward.lines().collect();
    assert_eq!(forward.lines().count(), 2);
    assert_eq!(lines_f, lines_b);
    let expected: BTreeSet<&str> = ["-i/drop/cat.png", "-f/drop/notes.txt"].into_iter().collect();
    assert_eq!(lines_f, expected);
}
