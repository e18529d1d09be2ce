//! Finding the enclosing git repository and describing its state.

use crate::path::ancestors;
use crate::status::{classify, marker_of, FileStatus, StatusMarker};
use crate::text::chars_of;
use vstd::prelude::*;

verus! {

/// How many characters of a commit identifier the prompt shows.
pub const SHORT_ID_LEN: usize = 6;

/// A digit of base sixteen, in either case.
pub open spec fn is_hex_digit(c: char) -> bool {
    ('0' <= c && c <= '9') || ('a' <= c && c <= 'f') || ('A' <= c && c <= 'F')
}

/// Every character is a hexadecimal digit.
pub open spec fn all_hex(text: Seq<char>) -> bool {
    forall|i: int| 0 <= i < text.len() ==> is_hex_digit(#[trigger] text[i])
}

/// A text that can stand for a commit: hexadecimal digits, and enough of them
/// to be shortened.
pub open spec fn is_commit_id(text: Seq<char>) -> bool {
    text.len() >= SHORT_ID_LEN && all_hex(text)
}

/// Whether `c` is a hexadecimal digit.
pub fn hex_digit(c: char) -> (yes: bool)
    ensures
        yes == is_hex_digit(c),
{
    ('0' <= c && c <= '9') || ('a' <= c && c <= 'f') || ('A' <= c && c <= 'F')
}

/// The identifier of a commit in hexadecimal, of whatever length the hash has.
#[derive(Debug, PartialEq, Eq)]
pub struct CommitId {
    hex: String,
}

impl View for CommitId {
    type V = Seq<char>;

    closed spec fn view(&self) -> Seq<char> {
        self.hex@
    }
}

impl Clone for CommitId {
    fn clone(&self) -> (copy: CommitId)
        ensures
            copy@ == self@,
    {
        proof {
            use_type_invariant(self);
        }
        CommitId { hex: self.hex.clone() }
    }
}

impl CommitId {
    #[verifier::type_invariant]
    spec fn well_formed(self) -> bool {
        is_commit_id(self.hex@)
    }

    /// Accepts `hex` where it is a commit identifier, and nothing else.
    pub fn new(hex: &str) -> (id: Option<CommitId>)
        ensures
            id is Some <==> is_commit_id(hex@),
            id matches Some(id) ==> id@ == hex@,
    {
        let chars = chars_of(hex);
        if chars.len() < SHORT_ID_LEN {
            return None;
        }
        let mut i: usize = 0;
        while i < chars.len()
            invariant
                i <= chars.len(),
                chars@ == hex@,
                all_hex(hex@.take(i as int)),
            decreases chars.len() - i,
        {
            if !hex_digit(chars[i]) {
                return None;
            }
            i += 1;
        }
        assert(hex@.take(i as int) == hex@);
        Some(CommitId { hex: hex.to_owned() })
    }

    /// The first six digits of the identifier.
    pub fn short(&self) -> (label: String)
        ensures
            label@ == self@.take(SHORT_ID_LEN as int),
            label@.len() == SHORT_ID_LEN,
            all_hex(label@),
    {
        proof {
            use_type_invariant(self);
        }
        self.hex.as_str().substring_char(0, SHORT_ID_LEN).to_owned()
    }
}

/// What the head of a repository points at.
#[derive(Debug, PartialEq, Eq)]
pub enum Head {
    /// A named branch, by its short name.
    Branch(String),
    /// A commit, with no branch checked out.
    Detached(CommitId),
}

/// A repository as far as the prompt looks at it: its head, and the flag word
/// of every path that git lists as changed, in git's order.
#[derive(Debug, PartialEq, Eq)]
pub struct Snapshot {
    pub head: Head,
    pub files: Vec<FileStatus>,
}

/// What the prompt says of a repository.
#[derive(Debug, PartialEq, Eq)]
pub struct RepositoryStatus {
    pub label: String,
    pub state_marker: StatusMarker,
}

/// The label of a head: a branch's short name as it is, or the first six
/// digits of the commit that a detached head points at.
pub open spec fn label_text(head: Head) -> Seq<char> {
    match head {
        Head::Branch(name) => name@,
        Head::Detached(id) => id@.take(SHORT_ID_LEN as int),
    }
}

/// The label under which the prompt shows `head`.
pub fn label_of(head: &Head) -> (label: String)
    ensures
        label@ == label_text(*head),
        head is Detached ==> label@.len() == SHORT_ID_LEN && all_hex(label@),
{
    match head {
        Head::Branch(name) => name.clone(),
        Head::Detached(id) => id.short(),
    }
}

/// Describes a repository: the label of its head, and the marker of its files.
pub fn describe(snapshot: &Snapshot) -> (status: RepositoryStatus)
    ensures
        status.label@ == label_text(snapshot.head),
        status.state_marker == marker_of(snapshot.files@),
        snapshot.head is Detached ==> status.label@.len() == SHORT_ID_LEN && all_hex(
            status.label@,
        ),
{
    RepositoryStatus { label: label_of(&snapshot.head), state_marker: classify(&snapshot.files) }
}

/// `git2::Repository`: an open repository, handed on as it is.
#[verifier::external_type_specification]
#[verifier::external_body]
pub struct ExRepository(git2::Repository);

/// `git2::Reference`: a reference of a repository, handed on as it is.
#[verifier::external_type_specification]
#[verifier::external_body]
pub struct ExReference<'repo>(git2::Reference<'repo>);

/// `git2::Commit`: a commit of a repository, handed on as it is.
#[verifier::external_type_specification]
#[verifier::external_body]
pub struct ExCommit<'repo>(git2::Commit<'repo>);

/// `git2::Error`: why a call into git failed. It is never looked into.
#[verifier::external_type_specification]
#[verifier::external_body]
pub struct ExError(git2::Error);

/// Calls `git2::Repository::open`, which opens the repository whose root is
/// `path`. Whether it succeeds depends on what is on disk.
#[verifier::external_body]
fn open_repository(path: &str) -> (opened: Result<git2::Repository, git2::Error>) {
    git2::Repository::open(path)
}

/// Calls `git2::Repository::head`, which resolves the reference that HEAD
/// points at. It fails where HEAD cannot be resolved, as on a branch
/// without a commit.
#[verifier::external_body]
fn head_reference<'repo>(repository: &'repo git2::Repository) -> (head: Result<
    git2::Reference<'repo>,
    git2::Error,
>) {
    repository.head()
}

/// Calls `git2::Reference::is_branch`, which tells whether the reference is a
/// local branch.
#[verifier::external_body]
fn is_branch(reference: &git2::Reference<'_>) -> (yes: bool) {
    reference.is_branch()
}

/// Calls `git2::Reference::shorthand`, which gives the short name of the
/// reference, or nothing where that name is not valid UTF-8.
#[verifier::external_body]
fn shorthand(reference: &git2::Reference<'_>) -> (name: Option<String>) {
    reference.shorthand().map(String::from)
}

/// Calls `git2::Reference::peel_to_commit`, which follows the reference to
/// the commit it stands for.
#[verifier::external_body]
fn peel_to_commit<'repo>(reference: &git2::Reference<'repo>) -> (commit: Result<
    git2::Commit<'repo>,
    git2::Error,
>) {
    reference.peel_to_commit()
}

/// Calls `git2::Commit::id` and writes the identifier out as `git2::Oid`
/// displays it, in hexadecimal. Nothing is claimed of the text: `CommitId::new`
/// looks at it.
#[verifier::external_body]
fn commit_hex(commit: &git2::Commit<'_>) -> (hex: String) {
    commit.id().to_string()
}

/// Calls `git2::Repository::statuses` with git's default options and hands
/// out the flag word (`git2::Status::bits`) of every entry, in the order of
/// the listing. What is listed depends on what is on disk.
#[verifier::external_body]
fn file_statuses(repository: &git2::Repository) -> (listing: Result<Vec<FileStatus>, git2::Error>) {
    let statuses = repository.statuses(None)?;
    Ok(statuses.iter().map(|entry| FileStatus::from_bits(entry.status().bits())).collect())
}

/// Looks for a repository at `start` and then at each directory above it,
/// and opens the first one found. A directory that cannot be opened as a
/// repository is passed over.
fn discover(start: &str) -> (found: Option<git2::Repository>) {
    let chain = ancestors(start);
    let mut i: usize = 0;
    while i < chain.len()
        invariant
            i <= chain.len(),
        decreases chain.len() - i,
    {
        match open_repository(chain[i].as_str()) {
            Ok(repository) => {
                return Some(repository);
            },
            Err(_) => {},
        }
        i += 1;
    }
    None
}

/// The head, from what git says of it: whether it is a branch, the short name
/// of the branch where it has a readable one, and the commit it leads to, in
/// hexadecimal, where it leads to one. A branch without a name is no head,
/// and neither is a commit whose identifier is none.
pub fn head_from(on_branch: bool, short_name: Option<String>, commit_hex: Option<String>) -> (head:
    Option<Head>)
    ensures
        on_branch ==> (match short_name {
            Some(name) => head matches Some(Head::Branch(branch)) && branch@ == name@,
            None => head is None,
        }),
        !on_branch ==> (match commit_hex {
            Some(hex) => (head is Some <==> is_commit_id(hex@)) && (head matches Some(
                Head::Detached(id),
            ) ==> id@ == hex@) && (head is Some ==> head->0 is Detached),
            None => head is None,
        }),
{
    if on_branch {
        match short_name {
            Some(name) => Some(Head::Branch(name)),
            None => None,
        }
    } else {
        match commit_hex {
            Some(hex) => match CommitId::new(hex.as_str()) {
                Some(id) => Some(Head::Detached(id)),
                None => None,
            },
            None => None,
        }
    }
}

/// `status` is what the prompt says of `snapshot`.
pub open spec fn is_status_of(status: RepositoryStatus, snapshot: Snapshot) -> bool {
    status.label@ == label_text(snapshot.head) && status.state_marker == marker_of(snapshot.files@)
}

/// The status, from what was read of a repository: its head and its listing.
/// Where either could not be read there is no status.
pub fn status_from(head: Option<Head>, files: Option<Vec<FileStatus>>) -> (status: Option<
    RepositoryStatus,
>)
    ensures
        (head is None || files is None) ==> status is None,
        (head is Some && files is Some) ==> (status matches Some(s) && s.label@ == label_text(
            head->0,
        ) && s.state_marker == marker_of(files->0@)),
        (head is Some && files is Some && head->0 is Detached) ==> status->0.label@.len()
            == SHORT_ID_LEN && all_hex(status->0.label@),
        status matches Some(s) ==> exists|snapshot: Snapshot| #[trigger] is_status_of(s, snapshot),
{
    match (head, files) {
        (Some(head), Some(files)) => {
            let snapshot = Snapshot { head, files };
            let status = describe(&snapshot);
            assert(is_status_of(status, snapshot));
            Some(status)
        },
        _ => None,
    }
}

/// Reads what the head of `repository` points at. A head that cannot be
/// resolved counts as no head.
fn read_head(repository: &git2::Repository) -> (head: Option<Head>) {
    match head_reference(repository) {
        Err(_) => None,
        Ok(reference) => {
            if is_branch(&reference) {
                head_from(true, shorthand(&reference), None)
            } else {
                let commit_hex = match peel_to_commit(&reference) {
                    Ok(commit) => Some(commit_hex(&commit)),
                    Err(_) => None,
                };
                head_from(false, None, commit_hex)
            }
        },
    }
}

/// Reads the head of `repository` and, where it has one, the listing of its
/// changed paths.
fn read_snapshot(repository: &git2::Repository) -> (read: (Option<Head>, Option<Vec<FileStatus>>))
    ensures
        read.0 is None ==> read.1 is None,
{
    let head = read_head(repository);
    let files = if head.is_some() {
        match file_statuses(repository) {
            Ok(files) => Some(files),
            Err(_) => None,
        }
    } else {
        None
    };
    (head, files)
}

/// The status of the repository that holds `current_dir`, or nothing where
/// there is none or where it cannot be read.
///
/// Which repository is found and what is read of it is git's to say. What is
/// made of it is `status_from`'s: a status describes a head and a listing
/// that were read.
pub fn git(current_dir: &str) -> (status: Option<RepositoryStatus>)
    ensures
        status matches Some(s) ==> exists|snapshot: Snapshot| #[trigger] is_status_of(s, snapshot),
{
    let (head, files) = match discover(current_dir) {
        None => (None, None),
        Some(repository) => read_snapshot(&repository),
    };
    status_from(head, files)
}

} // verus!
