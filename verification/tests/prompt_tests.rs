use familiar::path::{cwd, DisplayPath};
use familiar::prompt::{
    compose, familiar, layout, marker_glyph, plain_parts, style, Options, PromptParts,
};
use familiar::repository::RepositoryStatus;
use familiar::status::StatusMarker;

fn options(prompt_char: &str) -> Options {
    Options { prompt_char: prompt_char.to_string() }
}

fn on_branch(label: &str, state_marker: StatusMarker) -> Option<RepositoryStatus> {
    Some(RepositoryStatus { label: label.to_string(), state_marker })
}

fn parts(directory: &str, base_name: &str, label: &str, marker: &str) -> PromptParts {
    PromptParts {
        directory: directory.to_string(),
        base_name: base_name.to_string(),
        label: label.to_string(),
        marker: marker.to_string(),
    }
}

fn app_below_home() -> DisplayPath {
    cwd("/home/alice/projects/app", "/home/alice")
}

#[test]
fn three_markers_three_signs() {
    assert_eq!(marker_glyph(StatusMarker::Clean), "\u{b7}");
    assert_eq!(marker_glyph(StatusMarker::StagedChange), "\u{b1}");
    assert_eq!(marker_glyph(StatusMarker::UnstagedChange), "\u{d7}");
}

#[test]
fn plain_parts_without_repository() {
    assert_eq!(plain_parts(&app_below_home(), &None), parts("~/p/", "app", "", ""));
}

#[test]
fn plain_parts_with_repository() {
    assert_eq!(
        plain_parts(&app_below_home(), &on_branch("main", StatusMarker::StagedChange)),
        parts("~/p/", "app", "main", "\u{b1}")
    );
}

#[test]
fn empty_prefix_gets_no_separator() {
    let at_home = cwd("/home/alice", "/home/alice");
    assert_eq!(plain_parts(&at_home, &None), parts("", "~", "", ""));
    let below_root = cwd("/usr", "/home/alice");
    assert_eq!(plain_parts(&below_root, &None), parts("", "usr", "", ""));
    let at_root = cwd("/", "/home/alice");
    assert_eq!(plain_parts(&at_root, &None), parts("", "/", "", ""));
}

#[test]
fn layout_puts_spaces_and_prompt_line() {
    assert_eq!(layout(&parts("~/p/", "app", "main", "\u{d7}"), "$"), "~/p/app main \u{d7} \n$ ");
    assert_eq!(layout(&parts("", "", "", ""), ""), "   \n ");
    assert_eq!(layout(&parts("a", "b", "c", "d"), ">>"), "ab c d \n>> ");
}

#[test]
fn prompt_outside_a_repository() {
    colored::control::set_override(false);
    assert_eq!(compose(&app_below_home(), &None, &options("$")), "~/p/app   \n$ ");
    assert_eq!(layout(&plain_parts(&app_below_home(), &None), "$"), "~/p/app   \n$ ");
}

#[test]
fn prompt_on_a_branch_with_an_untracked_file() {
    colored::control::set_override(false);
    let status = on_branch("main", StatusMarker::UnstagedChange);
    assert_eq!(compose(&app_below_home(), &status, &options("$")), "~/p/app main \u{d7} \n$ ");
}

#[test]
fn prompt_on_a_clean_and_on_a_staged_branch() {
    colored::control::set_override(false);
    let clean = on_branch("main", StatusMarker::Clean);
    assert_eq!(compose(&app_below_home(), &clean, &options("$")), "~/p/app main \u{b7} \n$ ");
    let staged = on_branch("dev", StatusMarker::StagedChange);
    assert_eq!(compose(&app_below_home(), &staged, &options("%")), "~/p/app dev \u{b1} \n% ");
}

#[test]
fn prompt_always_ends_with_the_prompt_line() {
    colored::control::set_override(false);
    let paths = [cwd("/", "/h"), cwd("", "/h"), cwd("/h", "/h"), cwd("/a/b/c", "/h")];
    let statuses = [None, on_branch("", StatusMarker::Clean), on_branch("x", StatusMarker::StagedChange)];
    for path in &paths {
        for status in &statuses {
            for prompt_char in ["$", "", "\u{3bb}", ">>"] {
                let prompt = compose(path, status, &options(prompt_char));
                assert!(prompt.ends_with(&format!(" \n{} ", prompt_char)), "{:?}", prompt);
            }
        }
    }
}

#[test]
fn styling_without_colours_changes_nothing() {
    colored::control::set_override(false);
    for marker in [
        None,
        Some(StatusMarker::Clean),
        Some(StatusMarker::StagedChange),
        Some(StatusMarker::UnstagedChange),
    ] {
        assert_eq!(style(parts("~/p/", "app", "main", "x"), marker), parts("~/p/", "app", "main", "x"));
    }
}

#[test]
fn familiar_outside_a_repository() {
    colored::control::set_override(false);
    let prompt = familiar(
        "/home/alice/projects/app",
        "/nonexistent-familiar-directory/projects/app",
        "/home/alice",
        &options("$"),
    );
    assert_eq!(prompt, "~/p/app   \n$ ");
}

fn repository_with_untracked_file() -> String {
    let stamp = std::time::SystemTime::now()
        .duration_since(std::time::UNIX_EPOCH)
        .unwrap()
        .as_nanos();
    let dir = format!("/tmp/familiar-prompt-{}", stamp);
    let repository = git2::Repository::init(&dir).unwrap();
    repository.set_head("refs/heads/main").unwrap();
    let author = git2::Signature::new("A", "a@example.org", &git2::Time::new(0, 0)).unwrap();
    let mut index = repository.index().unwrap();
    let empty = repository.find_tree(index.write_tree().unwrap()).unwrap();
    repository.commit(Some("HEAD"), &author, &author, "start", &empty, &[]).unwrap();
    let entry = git2::IndexEntry {
        ctime: git2::IndexTime::new(0, 0),
        mtime: git2::IndexTime::new(0, 0),
        dev: 0,
        ino: 0,
        mode: 0o100644,
        uid: 0,
        gid: 0,
        file_size: 0,
        id: git2::Oid::zero(),
        flags: 0,
        flags_extended: 0,
        path: b"untracked.txt".to_vec(),
    };
    index.add_frombuffer(&entry, b"new").unwrap();
    let with_file = repository.find_object(index.write_tree().unwrap(), None).unwrap();
    index.read(true).unwrap();
    let mut checkout = git2::build::CheckoutBuilder::new();
    checkout.force().update_index(false);
    repository.checkout_tree(&with_file, Some(&mut checkout)).unwrap();
    dir
}

#[test]
fn familiar_inside_a_repository_with_an_untracked_file() {
    colored::control::set_override(false);
    let dir = repository_with_untracked_file();
    let prompt = familiar("/home/alice/projects/app", &dir, "/home/alice", &options("$"));
    assert_eq!(prompt, "~/p/app main \u{d7} \n$ ");
}
