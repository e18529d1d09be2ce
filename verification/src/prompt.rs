//! Putting the prompt together from the display path, the repository status
//! and the options.

use crate::path::{cwd, display_form, home_replaced, shortened, DisplayPath, DisplayPathModel};
use crate::repository::{git, is_status_of, RepositoryStatus, Snapshot};
use crate::status::StatusMarker;
use vstd::prelude::*;

verus! {

/// What the user has configured.
#[derive(Debug, PartialEq, Eq)]
pub struct Options {
    pub prompt_char: String,
}

/// The four texts of the first line of the prompt.
#[derive(Debug, PartialEq, Eq)]
pub struct PromptParts {
    pub directory: String,
    pub base_name: String,
    pub label: String,
    pub marker: String,
}

/// What a `PromptParts` holds, as plain sequences of characters.
pub struct PromptPartsModel {
    pub directory: Seq<char>,
    pub base_name: Seq<char>,
    pub label: Seq<char>,
    pub marker: Seq<char>,
}

impl View for PromptParts {
    type V = PromptPartsModel;

    open spec fn view(&self) -> PromptPartsModel {
        PromptPartsModel {
            directory: self.directory@,
            base_name: self.base_name@,
            label: self.label@,
            marker: self.marker@,
        }
    }
}

/// The sign that stands for a marker: a middle dot for a clean repository, a
/// plus-minus for staged changes, a cross for unstaged ones.
pub open spec fn glyph(marker: StatusMarker) -> Seq<char> {
    match marker {
        StatusMarker::Clean => seq!['\u{b7}'],
        StatusMarker::StagedChange => seq!['\u{b1}'],
        StatusMarker::UnstagedChange => seq!['\u{d7}'],
    }
}

/// The sign that stands for `marker`.
pub fn marker_glyph(marker: StatusMarker) -> (sign: &'static str)
    ensures
        sign@ == glyph(marker),
{
    proof {
        reveal_strlit("\u{b7}");
        reveal_strlit("\u{b1}");
        reveal_strlit("\u{d7}");
    }
    match marker {
        StatusMarker::Clean => "\u{b7}",
        StatusMarker::StagedChange => "\u{b1}",
        StatusMarker::UnstagedChange => "\u{d7}",
    }
}

/// The prefix as the prompt shows it: followed by a separator, unless it is
/// empty, in which case nothing is shown for it.
pub open spec fn directory_text(path: DisplayPathModel) -> Seq<char> {
    let prefix = path.prefix_text();
    if prefix.len() == 0 {
        prefix
    } else {
        prefix + seq!['/']
    }
}

/// The label of a status, and nothing without a repository.
pub open spec fn label_part(status: Option<RepositoryStatus>) -> Seq<char> {
    match status {
        Some(status) => status.label@,
        None => Seq::empty(),
    }
}

/// The sign of a status, and nothing without a repository.
pub open spec fn marker_part(status: Option<RepositoryStatus>) -> Seq<char> {
    match status {
        Some(status) => glyph(status.state_marker),
        None => Seq::empty(),
    }
}

/// The four texts before any styling.
pub open spec fn plain_parts_of(
    path: DisplayPathModel,
    status: Option<RepositoryStatus>,
) -> PromptPartsModel {
    PromptPartsModel {
        directory: directory_text(path),
        base_name: path.base_name,
        label: label_part(status),
        marker: marker_part(status),
    }
}

/// The prompt made of four texts and the prompt character: the directory and
/// the base name, a space, the label, a space, the marker, a space, a line
/// break, the prompt character, a space.
pub open spec fn laid_out(parts: PromptPartsModel, prompt_char: Seq<char>) -> Seq<char> {
    parts.directory + parts.base_name + seq![' '] + parts.label + seq![' '] + parts.marker + seq![
        ' ',
        '\n',
    ] + prompt_char + seq![' ']
}

/// Every prompt ends with a line break, the prompt character and one space,
/// whatever the four texts are.
pub proof fn lemma_prompt_ending(parts: PromptPartsModel, prompt_char: Seq<char>)
    ensures
        (seq!['\n'] + prompt_char + seq![' ']).is_suffix_of(laid_out(parts, prompt_char)),
{
}

/// The four texts of the prompt for `path` and `status`, before any styling.
pub fn plain_parts(path: &DisplayPath, status: &Option<RepositoryStatus>) -> (parts: PromptParts)
    ensures
        parts@ == plain_parts_of(path@, *status),
{
    let mut directory = path.prefix_text();
    if !directory.as_str().is_empty() {
        proof {
            reveal_strlit("/");
            assert("/"@ =~= seq!['/']);
        }
        directory.append("/");
    }
    let (label, marker) = match status {
        Some(status) => (status.label.clone(), marker_glyph(status.state_marker).to_owned()),
        None => (String::new(), String::new()),
    };
    PromptParts { directory, base_name: path.base_name.clone(), label, marker }
}

/// Lays the four texts out as the prompt.
pub fn layout(parts: &PromptParts, prompt_char: &str) -> (prompt: String)
    ensures
        prompt@ == laid_out(parts@, prompt_char@),
{
    proof {
        reveal_strlit(" ");
        reveal_strlit(" \n");
    }
    let mut prompt = parts.directory.clone();
    prompt.append(parts.base_name.as_str());
    prompt.append(" ");
    prompt.append(parts.label.as_str());
    prompt.append(" ");
    prompt.append(parts.marker.as_str());
    prompt.append(" \n");
    prompt.append(prompt_char);
    prompt.append(" ");
    prompt
}

/// The sequence that ends a styled text on a terminal.
pub open spec fn reset_code() -> Seq<char> {
    seq!['\u{1b}', '[', '0', 'm']
}

/// `text` holds the sequence that ends a styled text.
pub open spec fn holds_reset(text: Seq<char>) -> bool {
    exists|at: int|
        0 <= at && at + 4 <= text.len() && #[trigger] text.subrange(at, at + 4) == reset_code()
}

/// `shown` is `text` as a terminal is to show it in some style: the text as
/// it is where colours are off, and the text between a style code and the
/// reset sequence where they are on. Nothing is said of a text that holds a
/// reset sequence itself.
pub open spec fn is_styling_of(shown: Seq<char>, text: Seq<char>) -> bool {
    !holds_reset(text) ==> shown == text || exists|code: Seq<char>|
        shown == #[trigger] (code + text) + reset_code()
}

/// Calls `colored::Colorize::black` and `colored::Colorize::bold` on the text
/// and writes the result out as `colored::ColoredString` displays itself.
/// Whether colours are on depends on the environment and the terminal: the
/// result is the text itself, or the text between a style code and the reset
/// sequence.
#[verifier::external_body]
fn black_bold(text: &str) -> (shown: String)
    ensures
        is_styling_of(shown@, text@),
{
    colored::Colorize::bold(colored::Colorize::black(text)).to_string()
}

/// Calls `colored::Colorize::cyan` on the text and writes the result out as
/// `colored::ColoredString` displays itself: the text itself, or the text
/// between a style code and the reset sequence.
#[verifier::external_body]
fn cyan(text: &str) -> (shown: String)
    ensures
        is_styling_of(shown@, text@),
{
    colored::Colorize::cyan(text).to_string()
}

/// Calls `colored::Colorize::blue`, `colored::Colorize::bold` and
/// `colored::Colorize::italic` on the text and writes the result out as
/// `colored::ColoredString` displays itself: the text itself, or the text
/// between a style code and the reset sequence.
#[verifier::external_body]
fn blue_bold_italic(text: &str) -> (shown: String)
    ensures
        is_styling_of(shown@, text@),
{
    colored::Colorize::italic(colored::Colorize::bold(colored::Colorize::blue(text))).to_string()
}

/// Calls `colored::Colorize::yellow` on the text and writes the result out as
/// `colored::ColoredString` displays itself: the text itself, or the text
/// between a style code and the reset sequence.
#[verifier::external_body]
fn yellow(text: &str) -> (shown: String)
    ensures
        is_styling_of(shown@, text@),
{
    colored::Colorize::yellow(text).to_string()
}

/// Calls `colored::Colorize::red` on the text and writes the result out as
/// `colored::ColoredString` displays itself: the text itself, or the text
/// between a style code and the reset sequence.
#[verifier::external_body]
fn red(text: &str) -> (shown: String)
    ensures
        is_styling_of(shown@, text@),
{
    colored::Colorize::red(text).to_string()
}

/// The marker of a status, where there is one.
pub open spec fn marker_in(status: Option<RepositoryStatus>) -> Option<StatusMarker> {
    match status {
        Some(status) => Some(status.state_marker),
        None => None,
    }
}

/// The four styled texts stand for the four plain ones: each is its plain
/// text in some style. A text that is never styled is the plain one: an empty
/// directory, the label and the marker where there is no repository, and the
/// sign of a clean one.
pub open spec fn styling_of(
    styled: PromptPartsModel,
    plain: PromptPartsModel,
    marker: Option<StatusMarker>,
) -> bool {
    &&& if plain.directory.len() == 0 {
        styled.directory == plain.directory
    } else {
        is_styling_of(styled.directory, plain.directory)
    }
    &&& is_styling_of(styled.base_name, plain.base_name)
    &&& if marker is None {
        styled.label == plain.label
    } else {
        is_styling_of(styled.label, plain.label)
    }
    &&& if marker is None || marker == Some(StatusMarker::Clean) {
        styled.marker == plain.marker
    } else {
        is_styling_of(styled.marker, plain.marker)
    }
}

/// Styles the four texts: the directory bold and black, the base name cyan,
/// the label bold, italic and blue, the sign yellow for staged and red for
/// unstaged changes.
pub fn style(plain: PromptParts, marker: Option<StatusMarker>) -> (styled: PromptParts)
    ensures
        styling_of(styled@, plain@, marker),
{
    let directory = if plain.directory.as_str().is_empty() {
        plain.directory
    } else {
        black_bold(plain.directory.as_str())
    };
    let base_name = cyan(plain.base_name.as_str());
    let (label, sign) = match marker {
        None => (plain.label, plain.marker),
        Some(marker) => {
            let label = blue_bold_italic(plain.label.as_str());
            let sign = match marker {
                StatusMarker::Clean => plain.marker,
                StatusMarker::StagedChange => yellow(plain.marker.as_str()),
                StatusMarker::UnstagedChange => red(plain.marker.as_str()),
            };
            (label, sign)
        },
    };
    PromptParts { directory, base_name, label, marker: sign }
}

/// `prompt` is a prompt for `path` and `status`: some styling of their four
/// texts, laid out with `prompt_char`.
pub open spec fn is_prompt(
    prompt: Seq<char>,
    path: DisplayPathModel,
    status: Option<RepositoryStatus>,
    prompt_char: Seq<char>,
) -> bool {
    exists|styled: PromptPartsModel|
        styling_of(styled, plain_parts_of(path, status), marker_in(status)) && prompt
            == #[trigger] laid_out(styled, prompt_char)
}

/// The plain texts laid out are a prompt: the one that is shown where colours
/// are off.
pub proof fn lemma_plain_prompt_is_a_prompt(
    path: DisplayPathModel,
    status: Option<RepositoryStatus>,
    prompt_char: Seq<char>,
)
    ensures
        is_prompt(laid_out(plain_parts_of(path, status), prompt_char), path, status, prompt_char),
{
    let plain = plain_parts_of(path, status);
    assert(styling_of(plain, plain, marker_in(status)));
}

/// Without a repository the label and the marker are empty, in every styling:
/// the prompt is the directory and the base name, three spaces, a line break,
/// the prompt character and a space.
pub proof fn lemma_prompt_without_repository(
    styled: PromptPartsModel,
    path: DisplayPathModel,
    prompt_char: Seq<char>,
)
    requires
        styling_of(styled, plain_parts_of(path, None), None),
    ensures
        laid_out(styled, prompt_char) == styled.directory + styled.base_name + seq![
            ' ',
            ' ',
            ' ',
            '\n',
        ] + prompt_char + seq![' '],
{
}

/// Before any styling, the prompt without a repository is the prefix with its
/// separator, the base name, three spaces, a line break, the prompt character
/// and a space.
pub proof fn lemma_plain_prompt_without_repository(path: DisplayPathModel, prompt_char: Seq<char>)
    ensures
        laid_out(plain_parts_of(path, None), prompt_char) == directory_text(path) + path.base_name
            + seq![' ', ' ', ' ', '\n'] + prompt_char + seq![' '],
{
    lemma_prompt_without_repository(plain_parts_of(path, None), path, prompt_char);
}

/// The prompt for `path` and `status`, styled for the terminal.
pub fn compose(path: &DisplayPath, status: &Option<RepositoryStatus>, options: &Options) -> (prompt:
    String)
    ensures
        is_prompt(prompt@, path@, *status, options.prompt_char@),
{
    let marker = match status {
        Some(status) => Some(status.state_marker),
        None => None,
    };
    let styled = style(plain_parts(path, status), marker);
    layout(&styled, options.prompt_char.as_str())
}

/// `status` is one that reading a repository may give: none, or the status of
/// some head and listing.
pub open spec fn may_be_read(status: Option<RepositoryStatus>) -> bool {
    status matches Some(found) ==> exists|snapshot: Snapshot| #[trigger]
        is_status_of(found, snapshot)
}

/// The prompt for a shell in `current_dir`, where `pwd` is the same directory
/// as the shell names it and `home` is the user's home directory: the prompt
/// for the display form of `current_dir` and for what git says of `pwd`.
pub fn familiar(current_dir: &str, pwd: &str, home: &str, options: &Options) -> (prompt: String)
    ensures
        exists|status: Option<RepositoryStatus>|
            may_be_read(status) && #[trigger] is_prompt(
                prompt@,
                display_form(shortened(home_replaced(current_dir@, home@)), '/'),
                status,
                options.prompt_char@,
            ),
{
    let path = cwd(current_dir, home);
    let status = git(pwd);
    compose(&path, &status, options)
}

} // verus!
