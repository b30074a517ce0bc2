use vstd::prelude::*;
use crate::text::{
    chars_of, has_prefix, lemma_scan_bounds, same, slice, split_words, starts_with, string_of,
    word_len, word_start, words,
};

verus! {

/// A command as it was typed: its name without the slash, its arguments,
/// and the whole text.
#[derive(Debug, PartialEq, Eq)]
pub struct Command {
    pub name: String,
    pub args: Vec<String>,
    pub full_text: String,
}

pub struct CommandView {
    pub name: Seq<char>,
    pub args: Seq<Seq<char>>,
    pub full_text: Seq<char>,
}

/// The views of the strings, one for one.
pub open spec fn string_views(strings: Seq<String>) -> Seq<Seq<char>> {
    Seq::new(strings.len(), |k: int| strings[k]@)
}

impl View for Command {
    type V = CommandView;

    open spec fn view(&self) -> CommandView {
        CommandView { name: self.name@, args: string_views(self.args@), full_text: self.full_text@ }
    }
}

/// The view of an optional command.
pub open spec fn command_view(command: Option<Command>) -> Option<CommandView> {
    match command {
        Some(c) => Some(c@),
        None => None,
    }
}

/// What a text is as a command: none where it does not begin with a slash;
/// else its first word without the slash is the name and the words behind
/// it are the arguments.
pub open spec fn parsed(text: Seq<char>) -> Option<CommandView> {
    if !has_prefix(text, "/"@) || words(text).len() == 0 {
        None
    } else {
        Some(
            CommandView {
                name: words(text)[0].skip(1),
                args: words(text).skip(1),
                full_text: text,
            },
        )
    }
}

impl Command {
    /// What `text` is as a command, if it is one.
    pub fn parse(text: &str) -> (command: Option<Command>)
        ensures
            command_view(command) == parsed(text@),
    {
        let chars = chars_of(text);
        let slash = chars_of("/");
        if !starts_with(&chars, &slash) {
            return None;
        }
        let parts = split_words(&chars);
        if parts.len() == 0 {
            return None;
        }
        proof {
            reveal_strlit("/");
            lemma_scan_bounds(chars@, 0);
            assert(parts@[0]@ == words(chars@)[0]);
            let start = word_start(chars@, 0);
            let len = word_len(chars@, start);
            assert(words(chars@)[0] == chars@.subrange(start, start + len));
            assert(parts@[0]@.len() >= 1);
        }
        let name_chars = slice(&parts[0], 1, parts[0].len());
        assert(name_chars@ =~= parts@[0]@.skip(1));
        let mut args: Vec<String> = Vec::new();
        let mut i: usize = 1;
        while i < parts.len()
            invariant
                1 <= i <= parts.len(),
                args.len() == i - 1,
                forall|k: int| 0 <= k < args.len() ==> (#[trigger] args@[k])@ == parts@[k + 1]@,
            decreases parts.len() - i,
        {
            args.push(string_of(&parts[i]));
            i = i + 1;
        }
        assert(string_views(args@) =~= words(chars@).skip(1));
        Some(Command { name: string_of(&name_chars), args, full_text: string_of(&chars) })
    }
}

/// What a command asks for, told by its name.
#[derive(Clone, Copy, Debug, PartialEq, Eq, Structural)]
pub enum CommandKind {
    Reply,
    Media,
    Edit,
    Delete,
    Alias,
    Unalias,
    Filter,
    Search,
    NewChat,
    NewGroup,
    AddMember,
    RemoveMember,
    Members,
    Forward,
}

/// The kind of the command with the name `name`, if there is such a
/// command.
pub open spec fn kind_of(name: Seq<char>) -> Option<CommandKind> {
    if name == "reply"@ || name == "r"@ {
        Some(CommandKind::Reply)
    } else if name == "media"@ || name == "m"@ {
        Some(CommandKind::Media)
    } else if name == "edit"@ || name == "e"@ {
        Some(CommandKind::Edit)
    } else if name == "delete"@ || name == "del"@ || name == "d"@ {
        Some(CommandKind::Delete)
    } else if name == "alias"@ {
        Some(CommandKind::Alias)
    } else if name == "unalias"@ {
        Some(CommandKind::Unalias)
    } else if name == "filter"@ {
        Some(CommandKind::Filter)
    } else if name == "search"@ || name == "s"@ {
        Some(CommandKind::Search)
    } else if name == "new"@ {
        Some(CommandKind::NewChat)
    } else if name == "newgroup"@ {
        Some(CommandKind::NewGroup)
    } else if name == "add"@ {
        Some(CommandKind::AddMember)
    } else if name == "kick"@ || name == "remove"@ {
        Some(CommandKind::RemoveMember)
    } else if name == "members"@ {
        Some(CommandKind::Members)
    } else if name == "forward"@ || name == "fwd"@ || name == "f"@ {
        Some(CommandKind::Forward)
    } else {
        None
    }
}

/// Whether `name` is the word `word`.
pub fn is_word(name: &Vec<char>, word: &str) -> (yes: bool)
    ensures
        yes == (name@ == word@),
{
    let chars = chars_of(word);
    same(name, &chars)
}

/// The kind of the command with the name `name`.
pub fn classify(name: &str) -> (kind: Option<CommandKind>)
    ensures
        kind == kind_of(name@),
{
    let n = chars_of(name);
    if is_word(&n, "reply") || is_word(&n, "r") {
        Some(CommandKind::Reply)
    } else if is_word(&n, "media") || is_word(&n, "m") {
        Some(CommandKind::Media)
    } else if is_word(&n, "edit") || is_word(&n, "e") {
        Some(CommandKind::Edit)
    } else if is_word(&n, "delete") || is_word(&n, "del") || is_word(&n, "d") {
        Some(CommandKind::Delete)
    } else if is_word(&n, "alias") {
        Some(CommandKind::Alias)
    } else if is_word(&n, "unalias") {
        Some(CommandKind::Unalias)
    } else if is_word(&n, "filter") {
        Some(CommandKind::Filter)
    } else if is_word(&n, "search") || is_word(&n, "s") {
        Some(CommandKind::Search)
    } else if is_word(&n, "new") {
        Some(CommandKind::NewChat)
    } else if is_word(&n, "newgroup") {
        Some(CommandKind::NewGroup)
    } else if is_word(&n, "add") {
        Some(CommandKind::AddMember)
    } else if is_word(&n, "kick") || is_word(&n, "remove") {
        Some(CommandKind::RemoveMember)
    } else if is_word(&n, "members") {
        Some(CommandKind::Members)
    } else if is_word(&n, "forward") || is_word(&n, "fwd") || is_word(&n, "f") {
        Some(CommandKind::Forward)
    } else {
        None
    }
}

/// The kind of the command that `text` is, if it is one that is known.
pub open spec fn command_kind(text: Seq<char>) -> Option<CommandKind> {
    match parsed(text) {
        Some(command) => kind_of(command.name),
        None => None,
    }
}

} // verus!
