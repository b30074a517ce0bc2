use vstd::prelude::*;
use std::path::PathBuf;

verus! {

/// `std::path::PathBuf`, a path of the file system. Nothing is known here
/// of what a value holds.
#[verifier::external_type_specification]
#[verifier::external_body]
pub struct ExPathBuf(PathBuf);

/// `PathBuf::clone` of the standard library returns a copy of the path.
pub assume_specification[ <PathBuf as Clone>::clone ](path: &PathBuf) -> (copy: PathBuf)
    ensures
        copy == *path,
;

/// The path that `Path::join` of the standard library makes of `dir` and
/// `name`: `name` adjoined to `dir`. How it is spelled (the separator, and
/// where one is put) is the platform's affair and is not stated here.
pub uninterp spec fn adjoined(dir: PathBuf, name: Seq<char>) -> PathBuf;

/// Calls `Path::join` of the standard library, which adjoins `name` to
/// `dir` and depends on nothing else. The contract gives that result its
/// name and claims nothing of what it holds.
#[verifier::external_body]
fn join_path(dir: &PathBuf, name: &str) -> (path: PathBuf)
    ensures
        path == adjoined(*dir, name@),
{
    dir.join(name)
}

/// The switches of the display that are kept between runs.
#[derive(Debug, Clone, Copy, PartialEq, Eq, Structural)]
pub struct Settings {
    pub show_reactions: bool,
    pub show_notifications: bool,
    pub compact_mode: bool,
    pub show_emojis: bool,
    pub show_line_numbers: bool,
    pub show_timestamps: bool,
    pub show_user_colors: bool,
    pub show_borders: bool,
}

impl Settings {
    /// The settings of a first run: everything is shown, nothing is
    /// compact, lines carry no numbers.
    pub open spec fn initial() -> Settings {
        Settings {
            show_reactions: true,
            show_notifications: true,
            compact_mode: false,
            show_emojis: true,
            show_line_numbers: false,
            show_timestamps: true,
            show_user_colors: true,
            show_borders: true,
        }
    }
}

impl Default for Settings {
    fn default() -> (settings: Self)
        ensures
            settings == Settings::initial(),
    {
        Settings {
            show_reactions: true,
            show_notifications: true,
            compact_mode: false,
            show_emojis: true,
            show_line_numbers: false,
            show_timestamps: true,
            show_user_colors: true,
            show_borders: true,
        }
    }
}

/// What a switch is set to where the stored settings do not mention it.
pub fn default_true() -> (on: bool)
    ensures
        on,
{
    true
}

/// The account and the settings of one installation, and the directory
/// that its files lie in.
#[derive(Debug, Clone)]
pub struct Config {
    pub api_id: i32,
    pub api_hash: String,
    pub phone_number: Option<String>,
    pub settings: Settings,
    pub config_dir: PathBuf,
}

impl Config {
    /// The file that holds the session with the server: the file
    /// `telegram_session.session` in the directory of the installation.
    pub fn session_path(&self) -> (path: PathBuf)
        ensures
            path == adjoined(self.config_dir, "telegram_session.session"@),
    {
        join_path(&self.config_dir, "telegram_session.session")
    }

    /// The file that holds the layout of the panes: the file
    /// `telegram_layout.json` in the directory of the installation.
    pub fn layout_path(&self) -> (path: PathBuf)
        ensures
            path == adjoined(self.config_dir, "telegram_layout.json"@),
    {
        join_path(&self.config_dir, "telegram_layout.json")
    }

    /// The file that holds the aliases: the file `telegram_aliases.json` in
    /// the directory of the installation.
    pub fn aliases_path(&self) -> (path: PathBuf)
        ensures
            path == adjoined(self.config_dir, "telegram_aliases.json"@),
    {
        join_path(&self.config_dir, "telegram_aliases.json")
    }
}

} // verus!
