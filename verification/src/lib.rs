//! A shell prompt in one line: the working directory in a compact form, the
//! branch and state of the git repository around it, and the prompt character.
//!
//! - [`path`] replaces the home directory by `~`, shortens the directories on
//!   the way and sets the base name apart.
//! - [`status`] reads the flag word git keeps for each changed path and
//!   collapses a listing into clean, staged or unstaged.
//! - [`repository`] finds the repository that holds a directory and describes
//!   its head and its files.
//! - [`prompt`] lays all of it out as the prompt.
//! - [`text`] splits and joins the strings the others work on.

pub mod path;
pub mod prompt;
pub mod repository;
pub mod status;
pub mod text;
