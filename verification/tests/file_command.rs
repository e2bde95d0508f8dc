use file_command::error::{InsertionError, IoErrorKind};
use file_command::file_store::FileStore;
use file_command::search::CancellationFlag;
use file_command::slash_command::{build_fenced_text, FilePlaceholder, FileSlashCommand};
use file_command::worktree::{PathEntry, Project, Worktree};

fn entry(path: &str) -> PathEntry {
    PathEntry { path: path.to_string(), is_dir: false, is_ignored: false }
}

fn worktree(root: &str, abs: &str, paths: &[&str]) -> Worktree {
    let mut entries = Vec::new();
    for p in paths {
        entries.push(entry(p));
    }
    Worktree {
        root_name: root.to_string(),
        abs_root: abs.to_string(),
        root_ignored: false,
        visible: true,
        entries,
    }
}

fn single_root_command() -> FileSlashCommand {
    let project = Project {
        worktrees: vec![worktree("root", "/abs/root", &["a.rs", "sub/file.txt"])],
    };
    FileSlashCommand::new(project)
}

#[test]
fn command_metadata() {
    let cmd = single_root_command();
    assert_eq!(cmd.name(), "file");
    assert_eq!(cmd.description(), "insert a file");
    assert_eq!(cmd.tooltip_text(), "insert file");
    assert!(cmd.requires_argument());
}

#[test]
fn completion_never_exceeds_cap() {
    let mut paths = Vec::new();
    for i in 0..150 {
        paths.push(format!("file{}.rs", i));
    }
    let refs: Vec<&str> = paths.iter().map(|s| s.as_str()).collect();
    let project = Project { worktrees: vec![worktree("root", "/abs/root", &refs)] };
    let cmd = FileSlashCommand::new(project);
    let flag = CancellationFlag::new();
    let completions = cmd.complete_argument("", &flag).unwrap();
    assert_eq!(completions.len(), 100);
    let hits = cmd.search_paths("file", &flag);
    assert_eq!(hits.len(), 100);
}

#[test]
fn cancelled_search_yields_no_more_results() {
    let cmd = single_root_command();
    let mut flag = CancellationFlag::new();
    flag.set();
    let cancelled = cmd.search_paths("a", &flag);
    let unflagged = cmd.search_paths("a", &CancellationFlag::new());
    assert!(cancelled.len() <= unflagged.len());
    assert_eq!(cancelled.len(), 0);
    let completions = cmd.complete_argument("a", &flag).unwrap();
    assert!(completions.is_empty());
}

#[test]
fn completion_strings_carry_root_prefix() {
    let cmd = single_root_command();
    let flag = CancellationFlag::new();
    let completions = cmd.complete_argument("a.rs", &flag).unwrap();
    assert!(completions.contains(&"root/a.rs".to_string()));
}

#[test]
fn completion_strings_resolve_back_into_the_project() {
    let cmd = single_root_command();
    let completions = cmd.complete_argument("file", &CancellationFlag::new()).unwrap();
    assert!(!completions.is_empty());
    for c in &completions {
        assert!(cmd.project.resolve(c).is_some());
    }
}

#[test]
fn matching_is_case_insensitive() {
    let cmd = single_root_command();
    let flag = CancellationFlag::new();
    let completions = cmd.complete_argument("A.RS", &flag).unwrap();
    assert!(completions.contains(&"root/a.rs".to_string()));
}

#[test]
fn results_are_ranked_by_score_descending() {
    let project = Project {
        worktrees: vec![worktree("root", "/abs/root", &["a_very_long_name.rs", "a.rs"])],
    };
    let cmd = FileSlashCommand::new(project);
    let hits = cmd.search_paths("a", &CancellationFlag::new());
    assert_eq!(hits.len(), 2);
    assert!(hits[0].score >= hits[1].score);
    assert_eq!(hits[0].path, "a.rs");
}

#[test]
fn ignored_entries_follow_root_flag() {
    let mut wt = worktree("root", "/abs/root", &["seen.rs"]);
    wt.entries.push(PathEntry {
        path: "hidden.rs".to_string(),
        is_dir: false,
        is_ignored: true,
    });
    let cmd = FileSlashCommand::new(Project { worktrees: vec![wt] });
    let completions = cmd.complete_argument("rs", &CancellationFlag::new()).unwrap();
    assert!(completions.contains(&"root/seen.rs".to_string()));
    assert!(!completions.contains(&"root/hidden.rs".to_string()));

    let mut wt2 = worktree("root", "/abs/root", &[]);
    wt2.root_ignored = true;
    wt2.entries.push(PathEntry {
        path: "hidden.rs".to_string(),
        is_dir: false,
        is_ignored: true,
    });
    let cmd2 = FileSlashCommand::new(Project { worktrees: vec![wt2] });
    let completions2 = cmd2.complete_argument("rs", &CancellationFlag::new()).unwrap();
    assert!(completions2.contains(&"root/hidden.rs".to_string()));
}

#[test]
fn invisible_worktrees_are_not_searched() {
    let mut wt = worktree("root", "/abs/root", &["a.rs"]);
    wt.visible = false;
    let cmd = FileSlashCommand::new(Project { worktrees: vec![wt] });
    let completions = cmd.complete_argument("a", &CancellationFlag::new()).unwrap();
    assert!(completions.is_empty());
}

#[test]
fn resolution_inside_known_root() {
    let project = Project {
        worktrees: vec![worktree("root", "/abs/root", &["sub/file.txt"])],
    };
    let abs = project.resolve("root/sub/file.txt");
    assert_eq!(abs, Some("/abs/root/sub/file.txt".to_string()));
    assert_eq!(project.resolve("other/sub/file.txt"), None);
}

#[test]
fn resolution_unknown_root_fails_with_path_not_found() {
    let cmd = single_root_command();
    let mut store = FileStore::new();
    let r = cmd.run(Some("other/sub/file.txt"), &mut store);
    assert_eq!(r.unwrap_err(), InsertionError::PathNotFound);
    assert_eq!(store.load_count, 0);
}

#[test]
fn resolution_first_match_wins() {
    let project = Project {
        worktrees: vec![
            worktree("root", "/first", &["a.rs"]),
            worktree("root", "/second", &["a.rs"]),
        ],
    };
    assert_eq!(project.resolve("root/a.rs"), Some("/first/a.rs".to_string()));
}

#[test]
fn escaping_relative_path_does_not_resolve() {
    let cmd = single_root_command();
    assert_eq!(cmd.project.resolve("root/../secret"), None);
    let mut store = FileStore::new();
    let r = cmd.run(Some("root/../secret"), &mut store);
    assert_eq!(r.unwrap_err(), InsertionError::PathNotFound);
    assert_eq!(store.load_count, 0);
}

#[test]
fn bare_root_resolves_to_root_itself() {
    let cmd = single_root_command();
    assert_eq!(cmd.project.resolve("root"), Some("/abs/root".to_string()));
}

#[test]
fn missing_argument_fails_without_filesystem_access() {
    let cmd = single_root_command();
    let mut store = FileStore::new();
    store.add_file("/abs/root/a.rs".to_string(), "fn main() {}".to_string());
    let r = cmd.run(None, &mut store);
    assert_eq!(r.unwrap_err(), InsertionError::MissingArgument);
    assert_eq!(store.load_count, 0);
}

#[test]
fn insertion_formats_exactly() {
    let cmd = single_root_command();
    let mut store = FileStore::new();
    store.add_file("/abs/root/a.rs".to_string(), "fn main() {}".to_string());
    let out = cmd.run(Some("root/a.rs"), &mut store).unwrap();
    assert_eq!(out.text, "```root/a.rs\nfn main() {}\n```");
    assert_eq!(out.path, "root/a.rs");
    assert_eq!(store.load_count, 1);
}

#[test]
fn insertion_is_idempotent_on_trailing_newline() {
    let first = build_fenced_text("root/a.rs", "fn main() {}\n");
    let second = build_fenced_text("root/a.rs", "fn main() {}\n");
    assert_eq!(first, "```root/a.rs\nfn main() {}\n```");
    assert_eq!(first, second);
}

#[test]
fn missing_trailing_newline_gets_exactly_one() {
    let text = build_fenced_text("root/b.txt", "no newline");
    assert_eq!(text, "```root/b.txt\nno newline\n```");
}

#[test]
fn empty_content_still_gets_one_newline() {
    let text = build_fenced_text("root/empty", "");
    assert_eq!(text, "```root/empty\n\n```");
}

#[test]
fn io_failure_when_file_is_not_in_store() {
    let cmd = single_root_command();
    let mut store = FileStore::new();
    let r = cmd.run(Some("root/a.rs"), &mut store);
    assert_eq!(r.unwrap_err(), InsertionError::IoFailure(IoErrorKind::NotFound));
    assert_eq!(store.load_count, 1);
}

#[test]
fn error_messages_are_descriptive() {
    assert_eq!(InsertionError::MissingArgument.message(), "missing path argument");
    assert_eq!(InsertionError::PathNotFound.message(), "path not found in any project root");
    assert_eq!(
        InsertionError::IoFailure(IoErrorKind::NotFound).message(),
        "failed to load file content: not found"
    );
    assert_eq!(
        InsertionError::IoFailure(IoErrorKind::PermissionDenied).message(),
        "failed to load file content: permission denied"
    );
    assert_eq!(
        InsertionError::IoFailure(IoErrorKind::Other).message(),
        "failed to load file content"
    );
}

#[test]
fn placeholder_carries_path_and_id() {
    let cmd = single_root_command();
    let mut store = FileStore::new();
    store.add_file("/abs/root/a.rs".to_string(), "x".to_string());
    let out = cmd.run(Some("root/a.rs"), &mut store).unwrap();
    let placeholder = out.render_placeholder(7);
    assert_eq!(placeholder.id, 7);
    assert_eq!(placeholder.title(), "root/a.rs");
    let untitled = FilePlaceholder { path: None, id: 0 };
    assert_eq!(untitled.title(), "untitled");
}
