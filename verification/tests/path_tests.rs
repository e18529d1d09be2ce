use familiar::path::{
    ancestors, basename, cwd, has_leading_marks_only, parent, replace_home_dir,
    shorten_directories, shorten_name, DisplayPath,
};

fn strings(items: &[&str]) -> Vec<String> {
    items.iter().map(|item| item.to_string()).collect()
}

fn shown(prefix: &[&str], base_name: &str) -> DisplayPath {
    DisplayPath { directory_prefix: strings(prefix), base_name: base_name.to_string() }
}

#[test]
fn home_itself_becomes_tilde() {
    assert_eq!(replace_home_dir("/home/alice", "/home/alice"), "~");
}

#[test]
fn path_below_home_gets_one_leading_tilde() {
    assert_eq!(replace_home_dir("/home/alice/projects/app", "/home/alice"), "~/projects/app");
    assert_eq!(replace_home_dir("/home/alice/", "/home/alice"), "~/");
}

#[test]
fn home_is_replaced_once_only() {
    assert_eq!(
        replace_home_dir("/home/alice/backup/home/alice/x", "/home/alice"),
        "~/backup/home/alice/x"
    );
}

#[test]
fn home_elsewhere_in_the_path_is_untouched() {
    assert_eq!(replace_home_dir("/mnt/home/alice/x", "/home/alice"), "/mnt/home/alice/x");
    assert_eq!(replace_home_dir("/srv/home/alice", "/home/alice"), "/srv/home/alice");
}

#[test]
fn home_needs_a_separator_after_it() {
    assert_eq!(replace_home_dir("/home/alicex/y", "/home/alice"), "/home/alicex/y");
    assert_eq!(replace_home_dir("/home/al", "/home/alice"), "/home/al");
}

#[test]
fn empty_home_matches_the_start_of_absolute_paths() {
    assert_eq!(replace_home_dir("", ""), "~");
    assert_eq!(replace_home_dir("/x", ""), "~/x");
    assert_eq!(replace_home_dir("x", ""), "x");
}

#[test]
fn root_as_home() {
    assert_eq!(replace_home_dir("/", "/"), "~");
    assert_eq!(replace_home_dir("//x", "/"), "~/x");
    assert_eq!(replace_home_dir("/x", "/"), "/x");
}

#[test]
fn basename_sets_the_last_segment_apart() {
    assert_eq!(basename("~/p/app", '/'), shown(&["~", "p"], "app"));
    assert_eq!(basename("/h/a/p/app", '/'), shown(&["", "h", "a", "p"], "app"));
}

#[test]
fn basename_without_separator_is_the_whole_path() {
    assert_eq!(basename("app", '/'), shown(&[], "app"));
    assert_eq!(basename("~", '/'), shown(&[], "~"));
    assert_eq!(basename("", '/'), shown(&[], ""));
}

#[test]
fn basename_of_the_root_is_the_root() {
    assert_eq!(basename("/", '/'), shown(&[], "/"));
    assert_eq!(basename(":", ':'), shown(&[], ":"));
}

#[test]
fn basename_after_a_trailing_separator_is_empty() {
    assert_eq!(basename("a/b/", '/'), shown(&["a", "b"], ""));
    assert_eq!(basename("//", '/'), shown(&["", ""], ""));
}

#[test]
fn basename_keeps_segments_equal_to_the_base_name() {
    assert_eq!(basename("/h/a/a", '/'), shown(&["", "h", "a"], "a"));
    assert_eq!(basename("/h/a/a", '/').prefix_text(), "/h/a");
    assert_eq!(basename("/a/b/a", '/'), shown(&["", "a", "b"], "a"));
    assert_eq!(basename("x/x/x", '/'), shown(&["x", "x"], "x"));
}

#[test]
fn prefix_separator_and_base_name_give_the_path_back() {
    for path in ["/h/a/a", "a/b", "/usr", "a/b/", "//", "~/.c/app", "/a//b"] {
        let shown = basename(path, '/');
        assert_eq!(format!("{}/{}", shown.prefix_text(), shown.base_name), path);
    }
}

#[test]
fn basename_splits_at_the_given_separator_only() {
    assert_eq!(basename("a/b:c/d", ':'), shown(&["a/b"], "c/d"));
}

#[test]
fn basename_is_never_shortened() {
    assert_eq!(basename("/u/a-very-long-directory-name", '/').base_name, "a-very-long-directory-name");
}

#[test]
fn prefix_text_joins_with_slashes() {
    assert_eq!(shown(&["~", "p"], "app").prefix_text(), "~/p");
    assert_eq!(shown(&["", "h", "a"], "app").prefix_text(), "/h/a");
    assert_eq!(shown(&["x"], "app").prefix_text(), "x");
    assert_eq!(shown(&[], "app").prefix_text(), "");
    assert_eq!(shown(&[""], "app").prefix_text(), "");
}

#[test]
fn cwd_below_home() {
    assert_eq!(cwd("/home/alice/projects/app", "/home/alice"), shown(&["~", "p"], "app"));
}

#[test]
fn cwd_at_home() {
    assert_eq!(cwd("/home/alice", "/home/alice"), shown(&[], "~"));
}

#[test]
fn cwd_outside_home() {
    assert_eq!(cwd("/var/log/nginx", "/home/alice"), shown(&["", "v", "l"], "nginx"));
    assert_eq!(cwd("/mnt/home/alice/x", "/home/alice"), shown(&["", "m", "h", "a"], "x"));
}

#[test]
fn cwd_at_the_root() {
    assert_eq!(cwd("/", "/home/alice"), shown(&[], "/"));
}

#[test]
fn cwd_directly_below_the_root() {
    assert_eq!(cwd("/usr", "/home/alice"), shown(&[""], "usr"));
}

#[test]
fn cwd_keeps_a_leading_dot_and_one_more() {
    assert_eq!(cwd("/home/alice/.config/nvim", "/home/alice"), shown(&["~", ".c"], "nvim"));
    assert_eq!(cwd("/home/.secret/path", "/root"), shown(&["", "h", ".s"], "path"));
}

#[test]
fn cwd_keeps_single_characters() {
    assert_eq!(cwd("/a/b/c", "/home/alice"), shown(&["", "a", "b"], "c"));
    assert_eq!(cwd("/x/./y", "/home/alice"), shown(&["", "x", "."], "y"));
}

#[test]
fn cwd_shortens_by_characters_not_bytes() {
    assert_eq!(
        cwd("/home/alice/work/\u{e9}\u{e9}\u{e9}/tico", "/home/alice"),
        shown(&["~", "w", "\u{e9}"], "tico")
    );
}

#[test]
fn cwd_leaves_the_base_name_whole() {
    assert_eq!(cwd("/srv/.hidden-directory", "/home/alice"), shown(&["", "s"], ".hidden-directory"));
    assert_eq!(cwd("/srv/~backup", "/home/alice"), shown(&["", "s"], "~backup"));
}

#[test]
fn cwd_keeps_a_short_form_equal_to_the_base_name() {
    let shown_path = cwd("/tmp/t", "/home/alice");
    assert_eq!(shown_path, shown(&["", "t"], "t"));
    assert_eq!(shown_path.prefix_text(), "/t");
}

#[test]
fn cwd_with_marks_inside_a_name() {
    assert_eq!(cwd("/tmp/foo.bar/x", "/home/alice"), shown(&["", "t", "f"], "x"));
    assert_eq!(cwd("/srv/my.site/src", "/home/alice"), shown(&["", "s", "m"], "src"));
    assert_eq!(cwd("/etc/conf.d", "/home/alice"), shown(&["", "e"], "conf.d"));
    assert_eq!(cwd("/srv/foo~bar", "/home/alice"), shown(&["", "s"], "foo~bar"));
    assert_eq!(cwd("/srv/a~b/.x.y/z", "/home/alice"), shown(&["", "s", "a", ".x"], "z"));
}

#[test]
fn marks_lead_where_they_only_begin_segments() {
    for path in ["", "/", "~", "~/.config/nvim", "/a/b", "./x", "/.a/~b/c", "a/.", "/~"] {
        assert!(has_leading_marks_only(path), "{:?}", path);
    }
    for path in ["a.b", "/etc/conf.d", "/srv/foo~bar", "..", "~~", "/a/..", "x~"] {
        assert!(!has_leading_marks_only(path), "{:?}", path);
    }
}

#[test]
fn short_form_of_a_name() {
    assert_eq!(shorten_name("projects"), "p");
    assert_eq!(shorten_name(".config"), ".c");
    assert_eq!(shorten_name("~backup"), "~b");
    assert_eq!(shorten_name("foo.bar"), "f");
    assert_eq!(shorten_name("a"), "a");
    assert_eq!(shorten_name("."), ".");
    assert_eq!(shorten_name("~"), "~");
    assert_eq!(shorten_name(".."), "..");
    assert_eq!(shorten_name(""), "");
    assert_eq!(shorten_name("\u{e9}\u{e9}"), "\u{e9}");
}

#[test]
fn directories_are_shortened_and_the_last_segment_is_not() {
    assert_eq!(shorten_directories("/home/alice/projects/app"), "/h/a/p/app");
    assert_eq!(shorten_directories("~/.config/nvim"), "~/.c/nvim");
    assert_eq!(shorten_directories("/srv/my.site/foo~bar"), "/s/m/foo~bar");
    assert_eq!(shorten_directories("~/work/personal/tico/"), "~/w/p/t/");
    assert_eq!(shorten_directories("app"), "app");
    assert_eq!(shorten_directories("/"), "/");
    assert_eq!(shorten_directories(""), "");
}

fn model_short_form(segment: &str) -> String {
    let chars: Vec<char> = segment.chars().collect();
    let keep = if chars.len() >= 2 && (chars[0] == '.' || chars[0] == '~') { 2 } else { 1 };
    chars.iter().take(keep).collect()
}

fn model_shortened(path: &str) -> String {
    let segments: Vec<&str> = path.split('/').collect();
    let last = segments.len() - 1;
    let pieces: Vec<String> = segments
        .iter()
        .enumerate()
        .map(|(k, segment)| if k < last { model_short_form(segment) } else { segment.to_string() })
        .collect();
    pieces.join("/")
}

fn marks_lead(path: &[char]) -> bool {
    (1..path.len()).all(|i| !(path[i] == '.' || path[i] == '~') || path[i - 1] == '/')
}

fn paths_over(alphabet: &[char], max_len: usize) -> Vec<Vec<char>> {
    let mut all: Vec<Vec<char>> = vec![Vec::new()];
    let mut last: Vec<Vec<char>> = vec![Vec::new()];
    for _ in 0..max_len {
        let mut next: Vec<Vec<char>> = Vec::new();
        for path in &last {
            for c in alphabet {
                let mut longer = path.clone();
                longer.push(*c);
                next.push(longer);
            }
        }
        all.extend(next.iter().cloned());
        last = next;
    }
    all
}

#[test]
fn shortening_follows_the_short_forms_where_marks_lead() {
    let mut checked: usize = 0;
    for path in paths_over(&['a', 'b', '.', '~', '/'], 7) {
        if !marks_lead(&path) {
            continue;
        }
        let path: String = path.iter().collect();
        assert!(has_leading_marks_only(&path), "path {:?}", path);
        assert_eq!(tico::tico(&path), model_shortened(&path), "path {:?}", path);
        checked += 1;
    }
    assert!(checked > 10000);
}

#[test]
fn every_path_is_shown_by_its_short_forms() {
    for path in paths_over(&['a', 'b', '.', '~', '/'], 6) {
        let leading = marks_lead(&path);
        let path: String = path.iter().collect();
        assert_eq!(has_leading_marks_only(&path), leading, "path {:?}", path);
        assert_eq!(shorten_directories(&path), model_shortened(&path), "path {:?}", path);
        assert_eq!(cwd(&path, "#"), basename(&model_shortened(&path), '/'), "path {:?}", path);
    }
}

#[test]
fn parent_cuts_at_the_last_separator() {
    assert_eq!(parent("/home/alice/app"), Some("/home/alice".to_string()));
    assert_eq!(parent("/home/alice/"), Some("/home".to_string()));
    assert_eq!(parent("a/b"), Some("a".to_string()));
}

#[test]
fn parent_directly_below_the_root_is_the_root() {
    assert_eq!(parent("/home"), Some("/".to_string()));
}

#[test]
fn parent_of_the_root_and_of_a_bare_name_is_none() {
    assert_eq!(parent("/"), None);
    assert_eq!(parent("app"), None);
    assert_eq!(parent(""), None);
}

#[test]
fn ancestors_run_from_the_directory_up_to_the_root() {
    assert_eq!(
        ancestors("/home/alice/projects/app"),
        strings(&["/home/alice/projects/app", "/home/alice/projects", "/home/alice", "/home", "/"])
    );
}

#[test]
fn ancestors_of_the_root_is_the_root_alone() {
    assert_eq!(ancestors("/"), strings(&["/"]));
    assert_eq!(ancestors("//"), strings(&["//"]));
    assert_eq!(ancestors("/."), strings(&["/."]));
}

#[test]
fn parent_never_names_the_same_directory() {
    assert_eq!(parent("/a/b/"), Some("/a".to_string()));
    assert_eq!(parent("/a//b"), Some("/a".to_string()));
    assert_eq!(parent("/a/./b"), Some("/a".to_string()));
    assert_eq!(parent("/a/b/."), Some("/a".to_string()));
    assert_eq!(parent("/a/b/./"), Some("/a".to_string()));
    assert_eq!(parent("//a"), Some("/".to_string()));
    assert_eq!(parent("/a/"), Some("/".to_string()));
    assert_eq!(parent("a/"), None);
    assert_eq!(parent("/a/.."), Some("/a".to_string()));
}

#[test]
fn ancestors_name_each_directory_once() {
    assert_eq!(ancestors("/a/b/"), strings(&["/a/b/", "/a", "/"]));
    assert_eq!(ancestors("/a//b"), strings(&["/a//b", "/a", "/"]));
    assert_eq!(ancestors("/a/./b/./"), strings(&["/a/./b/./", "/a", "/"]));
    for path in ["/a/b/", "/a//b", "/x/./y/z/.", "//a///b//"] {
        let chain = ancestors(path);
        let expected: Vec<String> = std::path::Path::new(path)
            .ancestors()
            .map(|ancestor| ancestor.to_str().unwrap().to_string())
            .collect();
        assert_eq!(chain.len(), expected.len(), "{:?}", path);
        for (ours, theirs) in chain.iter().zip(expected.iter()) {
            assert_eq!(
                std::path::Path::new(ours).components().collect::<Vec<_>>(),
                std::path::Path::new(theirs).components().collect::<Vec<_>>(),
                "{:?}",
                path
            );
        }
    }
}

#[test]
fn ancestors_of_a_relative_path_end_at_its_first_segment() {
    assert_eq!(ancestors("a/b/c"), strings(&["a/b/c", "a/b", "a"]));
    assert_eq!(ancestors("app"), strings(&["app"]));
}
