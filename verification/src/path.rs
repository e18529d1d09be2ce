//! Turning the working directory into its compact display form.

use crate::text::{
    chars_of, join, joined, lemma_joined_segments, lemma_segments_hold_no_separator,
    lemma_segments_nonempty, lemma_segments_of_joined, lemma_separator_splits, segments_of, split,
    starts_with, texts,
};
use vstd::prelude::*;

verus! {

/// `path` is the home directory itself or lies below it: it equals `home`, or
/// begins with `home` followed by a separator.
pub open spec fn under_home(path: Seq<char>, home: Seq<char>) -> bool {
    path == home || (home + seq!['/']).is_prefix_of(path)
}

/// `path` with a leading home directory replaced by `~`; any other path as it is.
pub open spec fn home_replaced(path: Seq<char>, home: Seq<char>) -> Seq<char> {
    if under_home(path, home) {
        seq!['~'] + path.skip(home.len() as int)
    } else {
        path
    }
}

/// Replaces the home directory at the start of `path` by a single `~`.
///
/// Only a leading home directory counts, and only where the path ends there or
/// goes on with a separator: `/home/al` is not replaced in `/home/alice`, nor
/// in `/mnt/home/al/x`.
pub fn replace_home_dir(path: &str, home: &str) -> (replaced: String)
    ensures
        replaced@ == home_replaced(path@, home@),
        under_home(path@, home@) ==> replaced@ == seq!['~'] + path@.skip(home@.len() as int),
        !under_home(path@, home@) ==> replaced@ == path@,
{
    let path_chars = chars_of(path);
    let home_chars = chars_of(home);
    let path_len: usize = path_chars.len();
    let home_len: usize = home_chars.len();
    let below = starts_with(&path_chars, &home_chars) && (path_len == home_len
        || path_chars[home_len] == '/');
    proof {
        let marked = home@ + seq!['/'];
        if below && path_len == home_len {
            assert(path@ == home@);
        }
        if !below && under_home(path@, home@) && path@ != home@ {
            assert(path@[home@.len() as int] == marked[home@.len() as int]);
        }
    }
    if below {
        let rest = path.substring_char(home_len, path_len);
        proof {
            reveal_strlit("~");
        }
        String::from_str("~").concat(rest)
    } else {
        path.to_owned()
    }
}

/// A directory as the prompt shows it: the abbreviated segments that lead to
/// it, and its own name in full.
#[derive(Debug, PartialEq, Eq)]
pub struct DisplayPath {
    pub directory_prefix: Vec<String>,
    pub base_name: String,
}

/// What a `DisplayPath` holds, as plain sequences of characters.
pub struct DisplayPathModel {
    pub directory_prefix: Seq<Seq<char>>,
    pub base_name: Seq<char>,
}

impl View for DisplayPath {
    type V = DisplayPathModel;

    open spec fn view(&self) -> DisplayPathModel {
        DisplayPathModel {
            directory_prefix: texts(self.directory_prefix@),
            base_name: self.base_name@,
        }
    }
}

impl DisplayPathModel {
    /// The prefix as one text, its segments joined by `/`.
    pub open spec fn prefix_text(self) -> Seq<char> {
        joined(self.directory_prefix, seq!['/'])
    }
}

impl DisplayPath {
    /// The prefix as one text, its segments joined by `/`.
    pub fn prefix_text(&self) -> (text: String)
        ensures
            text@ == self@.prefix_text(),
    {
        proof {
            reveal_strlit("/");
            assert("/"@ =~= seq!['/']);
        }
        join(&self.directory_prefix, "/")
    }
}

/// The display form of `path`. A path that is nothing but one separator is
/// its own base name. Any other path is split at `sep`: its last segment is
/// the base name, and all the segments before it are the prefix, in their order.
pub open spec fn display_form(path: Seq<char>, sep: char) -> DisplayPathModel {
    if path == seq![sep] {
        DisplayPathModel { directory_prefix: Seq::empty(), base_name: path }
    } else {
        let segments = segments_of(path, sep);
        DisplayPathModel { directory_prefix: segments.drop_last(), base_name: segments.last() }
    }
}

/// For a path that holds a `/` and is not the root, the prefix, a `/` and the
/// base name give the path back.
pub proof fn lemma_display_form_rejoins(path: Seq<char>)
    requires
        path.contains('/'),
        path != seq!['/'],
    ensures
        display_form(path, '/').prefix_text() + seq!['/'] + display_form(path, '/').base_name
            == path,
{
    lemma_separator_splits(path, '/');
    lemma_joined_segments(path, '/');
}

/// Separates the last segment of `path` from those before it.
///
/// The base name is never shortened: it is the text after the last `sep`, or
/// the whole path where there is none or where the path is the root.
pub fn basename(path: &str, sep: char) -> (shown: DisplayPath)
    ensures
        shown@ == display_form(path@, sep),
        path@ != seq![sep] ==> shown@.base_name == segments_of(path@, sep).last()
            && shown@.directory_prefix == segments_of(path@, sep).drop_last(),
{
    let chars = chars_of(path);
    if chars.len() == 1 && chars[0] == sep {
        assert(path@ =~= seq![sep]);
        let directory_prefix: Vec<String> = Vec::new();
        let shown = DisplayPath { directory_prefix, base_name: path.to_owned() };
        assert(shown@.directory_prefix =~= Seq::empty());
        return shown;
    }
    let mut directory_prefix = split(path, sep);
    let base_name = directory_prefix.pop().unwrap();
    assert(texts(directory_prefix@) =~= segments_of(path@, sep).drop_last());
    DisplayPath { directory_prefix, base_name }
}

/// A character after which a name is shown one character further.
pub open spec fn is_mark(c: char) -> bool {
    c == '.' || c == '~'
}

/// `.` and `~` stand nowhere in `path` but where a segment begins.
pub open spec fn marks_lead(path: Seq<char>) -> bool {
    forall|i: int| 0 < i < path.len() && is_mark(#[trigger] path[i]) ==> path[i - 1] == '/'
}

/// The short form of a directory's name: its first character, and the one
/// after it as well where the first is `.` or `~`.
pub open spec fn short_form(segment: Seq<char>) -> Seq<char> {
    if segment.len() >= 2 && is_mark(segment[0]) {
        segment.take(2)
    } else if segment.len() >= 1 {
        segment.take(1)
    } else {
        segment
    }
}

/// Every segment but the last in its short form, and the last one in full.
pub open spec fn shortened_segments(segments: Seq<Seq<char>>) -> Seq<Seq<char>> {
    Seq::new(
        segments.len(),
        |k: int|
            if k < segments.len() - 1 {
                short_form(segments[k])
            } else {
                segments[k]
            },
    )
}

/// `path` with every directory that leads to the last segment in its short form.
pub open spec fn shortened(path: Seq<char>) -> Seq<char> {
    joined(shortened_segments(segments_of(path, '/')), seq!['/'])
}

/// A short form is the beginning of the name it stands for, at most two
/// characters long, and empty only for an empty name. A name of one character
/// is its own short form.
pub proof fn lemma_short_form(segment: Seq<char>)
    ensures
        short_form(segment).is_prefix_of(segment),
        short_form(segment).len() <= 2,
        segment.len() > 0 ==> short_form(segment).len() > 0,
        segment.len() <= 1 ==> short_form(segment) == segment,
{
}

/// A shortened path has the segments of the path it was made from, each but
/// the last in its short form.
pub proof fn lemma_segments_of_shortened(path: Seq<char>)
    ensures
        segments_of(shortened(path), '/') == shortened_segments(segments_of(path, '/')),
{
    let segments = segments_of(path, '/');
    let pieces = shortened_segments(segments);
    lemma_segments_nonempty(path, '/');
    lemma_segments_hold_no_separator(path, '/');
    lemma_segments_of_joined(pieces, '/');
}

/// The display form of a shortened path, but for the root: the base name is
/// the last segment of the path in full, and the prefix holds the short form
/// of every segment before it, in their order.
pub proof fn lemma_display_of_shortened(path: Seq<char>)
    requires
        path != seq!['/'],
    ensures
        display_form(shortened(path), '/').base_name == segments_of(path, '/').last(),
        display_form(shortened(path), '/').directory_prefix == shortened_segments(
            segments_of(path, '/'),
        ).drop_last(),
{
    let segments = segments_of(path, '/');
    lemma_segments_nonempty(path, '/');
    lemma_segments_of_shortened(path);
    if shortened(path) == seq!['/'] {
        let empty = Seq::<char>::empty();
        assert(segments_of(seq!['/'], '/') =~= seq![empty, empty]) by {
            reveal_with_fuel(segments_of, 2);
        }
        assert(segments =~= seq![empty, empty]);
        lemma_joined_segments(path, '/');
    }
}

/// Whether `.` and `~` stand nowhere in `path` but where a segment begins.
pub fn has_leading_marks_only(path: &str) -> (yes: bool)
    ensures
        yes == marks_lead(path@),
{
    let chars = chars_of(path);
    let mut i: usize = 1;
    while i < chars.len()
        invariant
            1 <= i,
            chars@ == path@,
            forall|k: int| 0 < k < i && k < path@.len() && is_mark(#[trigger] path@[k]) ==> path@[k - 1]
                == '/',
        decreases chars.len() - i,
    {
        if (chars[i] == '.' || chars[i] == '~') && chars[i - 1] != '/' {
            return false;
        }
        i += 1;
    }
    true
}

/// The short form of the name of one directory.
pub fn shorten_name(segment: &str) -> (short: String)
    ensures
        short@ == short_form(segment@),
{
    let chars = chars_of(segment);
    if chars.len() >= 2 && (chars[0] == '.' || chars[0] == '~') {
        segment.substring_char(0, 2).to_owned()
    } else if chars.len() >= 1 {
        segment.substring_char(0, 1).to_owned()
    } else {
        segment.to_owned()
    }
}

/// Shortens every directory of `path` that leads to its last segment.
pub fn shorten_directories(path: &str) -> (short: String)
    ensures
        short@ == shortened(path@),
{
    let segments = split(path, '/');
    let ghost whole = segments_of(path@, '/');
    let mut pieces: Vec<String> = Vec::new();
    let mut i: usize = 0;
    while i < segments.len()
        invariant
            i <= segments.len(),
            texts(segments@) == whole,
            texts(pieces@) == shortened_segments(whole).take(i as int),
        decreases segments.len() - i,
    {
        let ghost done = texts(pieces@);
        if i + 1 < segments.len() {
            pieces.push(shorten_name(segments[i].as_str()));
        } else {
            pieces.push(segments[i].clone());
        }
        assert(whole[i as int] == segments@[i as int]@);
        assert(texts(pieces@) =~= done.push(shortened_segments(whole)[i as int]));
        assert(shortened_segments(whole).take(i + 1) =~= done.push(
            shortened_segments(whole)[i as int],
        ));
        i += 1;
    }
    assert(shortened_segments(whole).take(i as int) =~= shortened_segments(whole));
    proof {
        reveal_strlit("/");
        assert("/"@ =~= seq!['/']);
    }
    join(&pieces, "/")
}

/// Calls `tico::tico`, which shortens a path for display: it keeps only the
/// first letter of each directory on the way to the last segment, and a
/// leading `.` or `~` together with the letter after it.
///
/// For a path in which `.` and `~` stand only at the start of a segment the
/// result is claimed to be `shortened`. Nothing is claimed for any other
/// path: there tico goes by rules of its own, which reach the last segment too.
#[verifier::external_body]
fn shorten(path: &str) -> (short: String)
    ensures
        marks_lead(path@) ==> short@ == shortened(path@),
{
    tico::tico(path)
}

/// The display form of the working directory `current_dir` for a user whose
/// home directory is `home`: the home directory becomes `~`, every directory
/// on the way is shown in its short form, and the base name is set apart in
/// full.
///
/// The shortening is tico's wherever `.` and `~` only begin segments. A path
/// with one of them inside a name is shortened here, by the same rule.
pub fn cwd(current_dir: &str, home: &str) -> (shown: DisplayPath)
    ensures
        shown@ == display_form(shortened(home_replaced(current_dir@, home@)), '/'),
        home_replaced(current_dir@, home@) != seq!['/'] ==> {
            let segments = segments_of(home_replaced(current_dir@, home@), '/');
            &&& shown@.base_name == segments.last()
            &&& shown@.directory_prefix == shortened_segments(segments).drop_last()
            &&& shown@.directory_prefix.len() == segments.len() - 1
            &&& forall|k: int|
                0 <= k < segments.len() - 1 ==> #[trigger] shown@.directory_prefix[k]
                    == short_form(segments[k])
        },
{
    let replaced = replace_home_dir(current_dir, home);
    let short = if has_leading_marks_only(replaced.as_str()) {
        shorten(replaced.as_str())
    } else {
        shorten_directories(replaced.as_str())
    };
    proof {
        if replaced@ != seq!['/'] {
            lemma_display_of_shortened(replaced@);
            lemma_segments_nonempty(replaced@, '/');
        }
    }
    basename(short.as_str(), '/')
}

/// Where the last `/` of `path` stands, if it has one.
pub open spec fn last_separator(path: Seq<char>) -> Option<int>
    decreases path.len(),
{
    if path.len() == 0 {
        None
    } else if path.last() == '/' {
        Some(path.len() - 1)
    } else {
        last_separator(path.drop_last())
    }
}

/// `last_separator` finds a `/` after which no other follows, and finds none
/// only where there is none.
pub proof fn lemma_last_separator(path: Seq<char>)
    ensures
        match last_separator(path) {
            Some(at) => {
                &&& 0 <= at < path.len()
                &&& path[at] == '/'
                &&& forall|j: int| at < j < path.len() ==> path[j] != '/'
            },
            None => forall|j: int| 0 <= j < path.len() ==> path[j] != '/',
        },
    decreases path.len(),
{
    if path.len() > 0 && path.last() != '/' {
        let shorter = path.drop_last();
        lemma_last_separator(shorter);
        assert(forall|j: int| 0 <= j < shorter.len() ==> shorter[j] == path[j]);
    }
}

/// `path` ends in a character that adds nothing to the directory it names: a
/// `/` after something, or a `.` that is a segment of its own.
pub open spec fn ends_idly(path: Seq<char>) -> bool {
    path.len() >= 2 && (path.last() == '/' || (path.last() == '.' && path[path.len() - 2] == '/'))
}

/// `path` without the characters at its end that add nothing to the
/// directory it names.
pub open spec fn trimmed(path: Seq<char>) -> Seq<char>
    decreases path.len(),
{
    if ends_idly(path) {
        trimmed(path.drop_last())
    } else {
        path
    }
}

/// Trimming takes characters from the end only.
pub proof fn lemma_trimmed(path: Seq<char>)
    ensures
        trimmed(path).is_prefix_of(path),
        path.len() > 0 ==> trimmed(path).len() > 0,
        !ends_idly(trimmed(path)),
    decreases path.len(),
{
    if ends_idly(path) {
        lemma_trimmed(path.drop_last());
    }
}

/// The directory that holds the one `path` names: the path up to the last
/// `/` of its trimmed form, trimmed again, or the root where that `/` is the
/// first character. The root has no parent, and neither has a bare name. The
/// parent never names the directory that `path` names.
pub open spec fn parent_of(path: Seq<char>) -> Option<Seq<char>> {
    let named = trimmed(path);
    match last_separator(named) {
        None => None,
        Some(at) => if at > 0 {
            Some(trimmed(named.take(at)))
        } else if named.len() > 1 {
            Some(seq!['/'])
        } else {
            None
        },
    }
}

/// A parent is shorter than the path it was taken from.
pub proof fn lemma_parent_is_shorter(path: Seq<char>)
    ensures
        parent_of(path) matches Some(above) ==> above.len() < path.len(),
{
    let named = trimmed(path);
    lemma_trimmed(path);
    lemma_last_separator(named);
    if let Some(at) = last_separator(named) {
        if at > 0 {
            lemma_trimmed(named.take(at));
        }
    }
}

/// `path`, its parent, the parent of that, and so on to the last one that
/// has no parent: the nearest first, and each directory once.
pub open spec fn ancestors_of(path: Seq<char>) -> Seq<Seq<char>>
    decreases path.len(),
    via ancestors_of_decreases
{
    match parent_of(path) {
        None => seq![path],
        Some(above) => seq![path] + ancestors_of(above),
    }
}

#[via_fn]
proof fn ancestors_of_decreases(path: Seq<char>) {
    lemma_parent_is_shorter(path);
}

/// How much of the first `len` characters is left when they are trimmed.
fn trimmed_len(chars: &Vec<char>, len: usize) -> (kept: usize)
    requires
        len <= chars.len(),
    ensures
        kept <= len,
        chars@.take(kept as int) == trimmed(chars@.take(len as int)),
{
    let mut end: usize = len;
    while end >= 2 && (chars[end - 1] == '/' || (chars[end - 1] == '.' && chars[end - 2] == '/'))
        invariant
            end <= len <= chars.len(),
            trimmed(chars@.take(end as int)) == trimmed(chars@.take(len as int)),
        decreases end,
    {
        assert(chars@.take(end as int).drop_last() == chars@.take(end - 1));
        end -= 1;
    }
    end
}

/// The directory that holds the one `path` names, if there is one.
pub fn parent(path: &str) -> (above: Option<String>)
    ensures
        match above {
            Some(above) => parent_of(path@) == Some(above@),
            None => parent_of(path@) is None,
        },
{
    let chars = chars_of(path);
    assert(path@.take(chars.len() as int) == path@);
    let named_len: usize = trimmed_len(&chars, chars.len());
    let ghost named = trimmed(path@);
    let mut end: usize = named_len;
    assert(named.take(end as int) == named);
    while end > 0
        invariant
            end <= named_len <= chars.len(),
            chars@ == path@,
            named == trimmed(path@),
            named == path@.take(named_len as int),
            last_separator(named) == last_separator(named.take(end as int)),
        decreases end,
    {
        assert(named.take(end as int).drop_last() == named.take(end - 1));
        assert(named.take(end as int).last() == path@[end - 1]);
        if chars[end - 1] == '/' {
            let at: usize = end - 1;
            assert(last_separator(named) == Some(at as int));
            if at > 0 {
                assert(named.take(at as int) == chars@.take(at as int));
                let kept: usize = trimmed_len(&chars, at);
                return Some(path.substring_char(0, kept).to_owned());
            } else if named_len > 1 {
                proof {
                    reveal_strlit("/");
                }
                return Some("/".to_owned());
            } else {
                return None;
            }
        }
        end -= 1;
    }
    None
}

/// The directories in which a repository that holds `path` may lie, the
/// nearest first: `path` itself, then each directory above it up to the root.
pub fn ancestors(path: &str) -> (chain: Vec<String>)
    ensures
        texts(chain@) == ancestors_of(path@),
{
    let mut chain: Vec<String> = Vec::new();
    let mut current: String = path.to_owned();
    loop
        invariant
            texts(chain@) + ancestors_of(current@) == ancestors_of(path@),
        decreases current@.len(),
    {
        let above = parent(current.as_str());
        proof {
            lemma_parent_is_shorter(current@);
        }
        chain.push(current);
        match above {
            None => {
                return chain;
            },
            Some(above) => {
                current = above;
            },
        }
    }
}

} // verus!
