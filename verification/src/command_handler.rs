use vstd::prelude::*;
use crate::app::{App, NOTE_SECONDS};
use crate::commands::{classify, parsed, string_views, Command, CommandKind, CommandView};
use crate::events::{lemma_fresh_pane_keeps_well_formed, one_pane_changed};
use crate::format_cache::FormatCache;
use crate::formatting::{excerpt, excerpt_of_first_line, first_line, lowercase};
use crate::message::{opt_text, FilterType, MessageData};
use crate::text::{
    append, append_str, chars_of, decimal_wide, digits, joined, matches_at, message_number,
    occurs_at, parse_message_number, signed_decimal, signed_digits, slice, string_of, texts,
};
use crate::widgets::ChatPane;

verus! {

/// The handling of the commands that are typed into a pane.
pub struct CommandHandler;

/// What a command leaves to be done outside.
#[derive(Debug, PartialEq, Eq)]
pub enum CommandRequest {
    /// Nothing: the command is done.
    Nothing,
    /// The text is to be sent as an answer to the message.
    Reply { pane_idx: usize, chat_id: i64, msg_num: i32, text: String },
    /// The media of the message are to be fetched and shown.
    Media { pane_idx: usize, chat_id: i64, msg_num: i32 },
    /// The text is to be put in place of the message's.
    Edit { pane_idx: usize, chat_id: i64, msg_num: i32, text: String },
    /// The message is to be deleted.
    Delete { pane_idx: usize, chat_id: i64, msg_num: i32 },
    /// The sender of the message is to be found, to be given the alias.
    Alias { pane_idx: usize, chat_id: i64, msg_num: i32, alias: String },
    /// The sender of the message is to be found, to lose its alias.
    Unalias { pane_idx: usize, chat_id: i64, msg_num: i32 },
    /// The messages that hold the query are to be searched for.
    Search { pane_idx: usize, chat_id: i64, query: String },
}

/// Whether `after` differs from `before` in the pane at position `at`
/// alone, which has one status line more: `line`. Without such a pane
/// nothing differs.
pub open spec fn told(before: Seq<ChatPane>, after: Seq<ChatPane>, at: int, line: Seq<char>) -> bool {
    &&& one_pane_changed(before, after, at)
    &&& 0 <= at < before.len() ==> {
        &&& string_views(after[at].messages@) == string_views(before[at].messages@).push(line)
        &&& after[at] == (ChatPane { messages: after[at].messages, ..before[at] })
    }
}

/// The arguments from position `from` on, with a blank between each two.
pub open spec fn rest_of(args: Seq<Seq<char>>, from: int) -> Seq<char> {
    joined(args.skip(from), seq![' '])
}

/// The text of the number of a message.
pub open spec fn number_text(msg_num: i32) -> Seq<char> {
    signed_digits(msg_num as int)
}

impl App {
    /// Appends the status line `line` to the pane at `pane_idx`, if there
    /// is such a pane.
    pub fn tell(&mut self, pane_idx: usize, line: &Vec<char>)
        ensures
            told(old(self).panes@, final(self).panes@, pane_idx as int, line@),
            *final(self) == (App { panes: final(self).panes, ..*old(self) }),
            old(self).well_formed() ==> final(self).well_formed(),
    {
        if pane_idx < self.panes.len() {
            let ghost before = string_views(self.panes@[pane_idx as int].messages@);
            self.panes[pane_idx].add_message(string_of(line));
            assert(string_views(self.panes@[pane_idx as int].messages@) =~= before.push(line@));
            proof {
                if old(self).well_formed() {
                    assert forall|k: int| 0 <= k < self.panes@.len() implies (
                    #[trigger] self.panes@[k]).cache_sound(self.aliases@) by {
                        assert(old(self).panes@[k].cache_sound(old(self).aliases@));
                    }
                }
            }
        }
    }

    /// The conversation that the pane at `pane_idx` shows, if there is
    /// such a pane and it shows one.
    pub open spec fn chat_of(self, pane_idx: int) -> Option<i64> {
        if 0 <= pane_idx < self.panes@.len() {
            self.panes@[pane_idx].chat_id
        } else {
            None
        }
    }

    /// The conversation that the pane at `pane_idx` shows.
    pub fn pane_chat(&self, pane_idx: usize) -> (chat: Option<i64>)
        ensures
            chat == self.chat_of(pane_idx as int),
    {
        if pane_idx < self.panes.len() {
            self.panes[pane_idx].chat_id
        } else {
            None
        }
    }
}

/// The arguments from position `from` on, with a blank between each two.
pub fn join_args(args: &Vec<String>, from: usize) -> (text: Vec<char>)
    requires
        from <= args.len(),
    ensures
        text@ == rest_of(string_views(args@), from as int),
{
    let mut parts: Vec<Vec<char>> = Vec::new();
    let mut i: usize = 0;
    while i < args.len()
        invariant
            i <= args.len(),
            parts.len() == i,
            forall|k: int| 0 <= k < i ==> (#[trigger] parts@[k])@ == args@[k]@,
        decreases args.len() - i,
    {
        parts.push(chars_of(args[i].as_str()));
        i = i + 1;
    }
    assert(texts(parts@) =~= string_views(args@));
    let blank = chars_of(" ");
    proof {
        reveal_strlit(" ");
        assert(blank@ =~= seq![' ']);
    }
    crate::text::join(&parts, from, &blank)
}

/// `before`, the number of a message, and `after`.
pub fn numbered(before: &str, msg_num: i32, after: &str) -> (text: Vec<char>)
    ensures
        text@ == before@ + number_text(msg_num) + after@,
{
    let mut text = chars_of(before);
    let number = signed_decimal(msg_num as i64);
    append(&mut text, &number);
    append_str(&mut text, after);
    text
}

/// `before`, the text `middle`, and `after`.
pub fn framed(before: &str, middle: &Vec<char>, after: &str) -> (text: Vec<char>)
    ensures
        text@ == before@ + middle@ + after@,
{
    let mut text = chars_of(before);
    append(&mut text, middle);
    append_str(&mut text, after);
    text
}

/// The number of the message that the first argument names, if there is a
/// first argument and it names one.
pub open spec fn first_number(args: Seq<Seq<char>>) -> Option<i32> {
    if args.len() > 0 {
        message_number(args[0])
    } else {
        None
    }
}

/// The number of the message that the first argument names.
pub fn first_arg_number(cmd: &Command) -> (number: Option<i32>)
    ensures
        number == first_number(cmd@.args),
{
    if cmd.args.len() > 0 {
        parse_message_number(cmd.args[0].as_str())
    } else {
        None
    }
}

/// The line that previews the message that an answer is begun to.
pub open spec fn reply_preview_text(msg_num: i32, text: Seq<char>) -> Seq<char> {
    "Reply to #"@ + number_text(msg_num) + ": "@ + excerpt(first_line(text), 60)
}

/// Whether `after` is the pane `before` with an answer begun to its
/// message number `msg_num`, counted from one.
pub open spec fn answering(before: ChatPane, after: ChatPane, msg_num: i32) -> bool {
    &&& after.reply_to_message == Some(before.msg_data@[msg_num - 1].msg_id)
    &&& opt_text(after.reply_preview) == Some(
        reply_preview_text(msg_num, before.msg_data@[msg_num - 1].text@),
    )
    &&& after == (ChatPane {
        reply_to_message: after.reply_to_message,
        reply_preview: after.reply_preview,
        ..before
    })
}

/// Whether `after` differs from `before` in the panes and in the status
/// bar at most.
pub open spec fn panes_and_note(before: App, after: App) -> bool {
    after == (App {
        panes: after.panes,
        status_message: after.status_message,
        status_seconds: after.status_seconds,
        status_pending: after.status_pending,
        ..before
    })
}

/// What the command `reply` does at first. Without a message's number it
/// tells how it is used. With text behind the number, the text is to be
/// sent as an answer, if the pane shows a conversation. With the number
/// alone, an answer to that message of the pane is begun, or the pane is
/// told that it has no such message.
pub open spec fn reply_begun(
    before: App,
    after: App,
    cmd: CommandView,
    pane_idx: int,
    request: CommandRequest,
) -> bool {
    match first_number(cmd.args) {
        None => {
            &&& request == CommandRequest::Nothing
            &&& after.says("Usage: /reply N [text]"@, NOTE_SECONDS)
            &&& after.panes == before.panes
        },
        Some(msg_num) => if !(0 <= pane_idx < before.panes@.len()) {
            request == CommandRequest::Nothing && after == before
        } else if cmd.args.len() > 1 {
            &&& after == before
            &&& match before.panes@[pane_idx].chat_id {
                Some(chat) => request matches CommandRequest::Reply {
                    pane_idx: p,
                    chat_id,
                    msg_num: n,
                    text,
                } && p == pane_idx && chat_id == chat && n == msg_num && text@ == rest_of(
                    cmd.args,
                    1,
                ),
                None => request == CommandRequest::Nothing,
            }
        } else if 1 <= msg_num <= before.panes@[pane_idx].msg_data@.len() {
            &&& request == CommandRequest::Nothing
            &&& one_pane_changed(before.panes@, after.panes@, pane_idx)
            &&& answering(before.panes@[pane_idx], after.panes@[pane_idx], msg_num)
            &&& after.says(
                "Replying to message #"@ + number_text(msg_num) + ". Type your reply."@,
                NOTE_SECONDS,
            )
        } else {
            &&& request == CommandRequest::Nothing
            &&& told(
                before.panes@,
                after.panes@,
                pane_idx,
                "\u{2717} Message #"@ + number_text(msg_num) + " not found"@,
            )
            &&& after.status_message == before.status_message
        },
    }
}

impl App {
    /// Begins an answer to the message number `msg_num` of the pane at
    /// `pane_idx`.
    fn begin_answer(&mut self, pane_idx: usize, msg_num: i32)
        requires
            pane_idx < old(self).panes@.len(),
            1 <= msg_num <= old(self).panes@[pane_idx as int].msg_data@.len(),
        ensures
            one_pane_changed(old(self).panes@, final(self).panes@, pane_idx as int),
            answering(
                old(self).panes@[pane_idx as int],
                final(self).panes@[pane_idx as int],
                msg_num,
            ),
            *final(self) == (App { panes: final(self).panes, ..*old(self) }),
            old(self).well_formed() ==> final(self).well_formed(),
    {
        let at = (msg_num - 1) as usize;
        let msg_id = self.panes[pane_idx].msg_data[at].msg_id;
        let text = chars_of(self.panes[pane_idx].msg_data[at].text.as_str());
        let cut = excerpt_of_first_line(&text, 60);
        let mut preview = numbered("Reply to #", msg_num, ": ");
        append(&mut preview, &cut);
        self.panes[pane_idx].reply_to_message = Some(msg_id);
        self.panes[pane_idx].reply_preview = Some(string_of(&preview));
        proof {
            if old(self).well_formed() {
                assert forall|k: int| 0 <= k < self.panes@.len() implies (#[trigger] self.panes@[k]).cache_sound(
                    self.aliases@,
                ) by {
                    assert(old(self).panes@[k].cache_sound(old(self).aliases@));
                }
            }
        }
    }
}

impl CommandHandler {
    /// The command `reply`: a message is answered, at once or with what is
    /// typed next.
    #[verifier::rlimit(40)]
    pub fn handle_reply(app: &mut App, cmd: &Command, pane_idx: usize) -> (request: CommandRequest)
        ensures
            reply_begun(*old(app), *final(app), cmd@, pane_idx as int, request),
            panes_and_note(*old(app), *final(app)),
            old(app).well_formed() ==> final(app).well_formed(),
    {
        let msg_num = match first_arg_number(cmd) {
            Some(n) => n,
            None => {
                app.notify("Usage: /reply N [text]");
                return CommandRequest::Nothing;
            },
        };
        if pane_idx >= app.panes.len() {
            return CommandRequest::Nothing;
        }
        if cmd.args.len() > 1 {
            return match app.panes[pane_idx].chat_id {
                Some(chat_id) => {
                    let text = join_args(&cmd.args, 1);
                    CommandRequest::Reply { pane_idx, chat_id, msg_num, text: string_of(&text) }
                },
                None => CommandRequest::Nothing,
            };
        }
        if msg_num >= 1 && (msg_num as usize) <= app.panes[pane_idx].msg_data.len() {
            app.begin_answer(pane_idx, msg_num);
            let note = numbered("Replying to message #", msg_num, ". Type your reply.");
            app.note(&note, NOTE_SECONDS);
        } else {
            let line = numbered("\u{2717} Message #", msg_num, " not found");
            app.tell(pane_idx, &line);
        }
        CommandRequest::Nothing
    }

    /// The answer of the command `reply` was sent, or failed with `error`.
    pub fn reply_done(app: &mut App, pane_idx: usize, msg_num: i32, error: Option<&str>)
        ensures
            told(
                old(app).panes@,
                final(app).panes@,
                pane_idx as int,
                match error {
                    None => "\u{2713} Replied to #"@ + number_text(msg_num),
                    Some(e) => "\u{2717} Reply failed: "@ + e@,
                },
            ),
            *final(app) == (App { panes: final(app).panes, ..*old(app) }),
            old(app).well_formed() ==> final(app).well_formed(),
    {
        let line = match error {
            None => numbered("\u{2713} Replied to #", msg_num, ""),
            Some(e) => {
                let mut line = chars_of("\u{2717} Reply failed: ");
                append_str(&mut line, e);
                line
            },
        };
        proof {
            reveal_strlit("");
            assert(""@ =~= Seq::<char>::empty());
            if error.is_none() {
                assert(line@ =~= "\u{2713} Replied to #"@ + number_text(msg_num));
            }
        }
        app.tell(pane_idx, &line);
    }
}

/// Whether `after` is `before` with one status line more in the pane at
/// `pane_idx`, if there is such a pane, and a fresh note in the status
/// bar.
pub open spec fn reported(before: App, after: App, pane_idx: int, line: Seq<char>, note: Seq<char>)
    -> bool {
    &&& told(before.panes@, after.panes@, pane_idx, line)
    &&& after.says(note, NOTE_SECONDS)
    &&& after == (App {
        panes: after.panes,
        status_message: after.status_message,
        status_seconds: NOTE_SECONDS,
        status_pending: true,
        ..before
    })
}

/// Whether `after` is `before` with a fresh note in the status bar.
pub open spec fn noted(before: App, after: App, note: Seq<char>) -> bool {
    &&& after.says(note, NOTE_SECONDS)
    &&& after == (App {
        status_message: after.status_message,
        status_seconds: NOTE_SECONDS,
        status_pending: true,
        ..before
    })
}

impl App {
    /// Appends the status line `line` to the pane at `pane_idx` and puts
    /// `note` in the status bar.
    pub fn report(&mut self, pane_idx: usize, line: &Vec<char>, note: &Vec<char>)
        ensures
            reported(*old(self), *final(self), pane_idx as int, line@, note@),
            old(self).well_formed() ==> final(self).well_formed(),
    {
        self.tell(pane_idx, line);
        self.note(note, NOTE_SECONDS);
    }
}

/// What a command that names a message and is carried out outside does at
/// first: without the arguments it needs, it tells how it is used; in a
/// pane that shows a conversation it asks for the work.
pub open spec fn asked(before: App, cmd: CommandView, pane_idx: int, enough: bool) -> Option<
    (i64, i32),
> {
    if !enough {
        None
    } else {
        match first_number(cmd.args) {
            None => None,
            Some(msg_num) => match before.chat_of(pane_idx) {
                Some(chat_id) => Some((chat_id, msg_num)),
                None => None,
            },
        }
    }
}

/// The note that a command leaves where it does not ask for work: how it
/// is used, where its arguments do not do.
pub open spec fn usage_note(
    cmd: CommandView,
    enough: bool,
    usage_short: Seq<char>,
    usage: Seq<char>,
) -> Option<Seq<char>> {
    if !enough {
        Some(usage_short)
    } else if first_number(cmd.args).is_none() {
        Some(usage)
    } else {
        None
    }
}

/// Whether `after` is `before` but for the note `note`, if one is left.
pub open spec fn noted_if(before: App, after: App, note: Option<Seq<char>>) -> bool {
    match note {
        Some(text) => noted(before, after, text),
        None => after == before,
    }
}

/// What the command `media` does at first: in a pane that shows a
/// conversation it asks for the media of the message and says so; without
/// a message's number it tells how it is used.
pub open spec fn media_begun(
    before: App,
    after: App,
    cmd: CommandView,
    pane_idx: int,
    request: CommandRequest,
) -> bool {
    match asked(before, cmd, pane_idx, cmd.args.len() > 0) {
        Some((chat, number)) => {
            &&& request == (CommandRequest::Media {
                pane_idx: pane_idx as usize,
                chat_id: chat,
                msg_num: number,
            })
            &&& noted(before, after, "Downloading media from #"@ + number_text(number) + "..."@)
        },
        None => {
            &&& request == CommandRequest::Nothing
            &&& noted_if(
                before,
                after,
                usage_note(cmd, cmd.args.len() > 0, "Usage: /media N or /m N"@, "Usage: /media N"@),
            )
        },
    }
}

/// What the command `edit` does at first: in a pane that shows a
/// conversation it asks for the message to get the text behind its number,
/// and changes nothing; without number and text it tells how it is used.
pub open spec fn edit_begun(
    before: App,
    after: App,
    cmd: CommandView,
    pane_idx: int,
    request: CommandRequest,
) -> bool {
    match asked(before, cmd, pane_idx, cmd.args.len() >= 2) {
        Some((chat, number)) => {
            &&& request matches CommandRequest::Edit { pane_idx: p, chat_id, msg_num, text }
            &&& p == pane_idx
            &&& chat_id == chat
            &&& msg_num == number
            &&& text@ == rest_of(cmd.args, 1)
            &&& after == before
        },
        None => {
            &&& request == CommandRequest::Nothing
            &&& noted_if(
                before,
                after,
                usage_note(
                    cmd,
                    cmd.args.len() >= 2,
                    "Usage: /edit N new_text"@,
                    "Usage: /edit N new_text"@,
                ),
            )
        },
    }
}

/// What the command `delete` does at first: in a pane that shows a
/// conversation it asks for the message to be deleted, and changes
/// nothing; without a message's number it tells how it is used.
pub open spec fn delete_begun(
    before: App,
    after: App,
    cmd: CommandView,
    pane_idx: int,
    request: CommandRequest,
) -> bool {
    match asked(before, cmd, pane_idx, cmd.args.len() > 0) {
        Some((chat, number)) => {
            &&& request == (CommandRequest::Delete {
                pane_idx: pane_idx as usize,
                chat_id: chat,
                msg_num: number,
            })
            &&& after == before
        },
        None => {
            &&& request == CommandRequest::Nothing
            &&& noted_if(
                before,
                after,
                usage_note(cmd, cmd.args.len() > 0, "Usage: /delete N"@, "Usage: /delete N"@),
            )
        },
    }
}

/// What the command `alias` does at first: in a pane that shows a
/// conversation it asks for the sender of the message, who is to get the
/// name behind the number, and changes nothing; without number and name it
/// tells how it is used.
pub open spec fn alias_begun(
    before: App,
    after: App,
    cmd: CommandView,
    pane_idx: int,
    request: CommandRequest,
) -> bool {
    match asked(before, cmd, pane_idx, cmd.args.len() >= 2) {
        Some((chat, number)) => {
            &&& request matches CommandRequest::Alias { pane_idx: p, chat_id, msg_num, alias }
            &&& p == pane_idx
            &&& chat_id == chat
            &&& msg_num == number
            &&& alias@ == rest_of(cmd.args, 1)
            &&& after == before
        },
        None => {
            &&& request == CommandRequest::Nothing
            &&& noted_if(
                before,
                after,
                usage_note(
                    cmd,
                    cmd.args.len() >= 2,
                    "Usage: /alias N name"@,
                    "Usage: /alias N name"@,
                ),
            )
        },
    }
}

/// What the command `unalias` does at first: in a pane that shows a
/// conversation it asks for the sender of the message, who is to lose the
/// alias, and changes nothing; without a message's number it tells how it
/// is used.
pub open spec fn unalias_begun(
    before: App,
    after: App,
    cmd: CommandView,
    pane_idx: int,
    request: CommandRequest,
) -> bool {
    match asked(before, cmd, pane_idx, cmd.args.len() > 0) {
        Some((chat, number)) => {
            &&& request == (CommandRequest::Unalias {
                pane_idx: pane_idx as usize,
                chat_id: chat,
                msg_num: number,
            })
            &&& after == before
        },
        None => {
            &&& request == CommandRequest::Nothing
            &&& noted_if(
                before,
                after,
                usage_note(cmd, cmd.args.len() > 0, "Usage: /unalias N"@, "Usage: /unalias N"@),
            )
        },
    }
}

impl CommandHandler {
    /// The conversation and the message that the command is about, or the
    /// note on how the command is used.
    fn target(
        app: &mut App,
        cmd: &Command,
        pane_idx: usize,
        enough: bool,
        usage_short: &str,
        usage: &str,
    ) -> (found: Option<(i64, i32)>)
        ensures
            found == asked(*old(app), cmd@, pane_idx as int, enough),
            noted_if(*old(app), *final(app), usage_note(cmd@, enough, usage_short@, usage@)),
            old(app).well_formed() ==> final(app).well_formed(),
    {
        if !enough {
            app.notify(usage_short);
            return None;
        }
        match first_arg_number(cmd) {
            None => {
                app.notify(usage);
                None
            },
            Some(msg_num) => match app.pane_chat(pane_idx) {
                Some(chat_id) => Some((chat_id, msg_num)),
                None => None,
            },
        }
    }

    /// The command `media`: the media of a message are to be fetched.
    pub fn handle_media(app: &mut App, cmd: &Command, pane_idx: usize) -> (request: CommandRequest)
        ensures
            media_begun(*old(app), *final(app), cmd@, pane_idx as int, request),
            old(app).well_formed() ==> final(app).well_formed(),
    {
        match Self::target(
            app,
            cmd,
            pane_idx,
            cmd.args.len() > 0,
            "Usage: /media N or /m N",
            "Usage: /media N",
        ) {
            Some((chat_id, msg_num)) => {
                let note = numbered("Downloading media from #", msg_num, "...");
                app.note(&note, NOTE_SECONDS);
                CommandRequest::Media { pane_idx, chat_id, msg_num }
            },
            None => CommandRequest::Nothing,
        }
    }

    /// The media were fetched into the file `path`, whose name is
    /// `file_name`, and shown.
    pub fn media_fetched(app: &mut App, pane_idx: usize, path: &str, file_name: &str)
        ensures
            reported(
                *old(app),
                *final(app),
                pane_idx as int,
                "\u{2713} Downloaded to "@ + path@,
                "Opened: "@ + file_name@,
            ),
            old(app).well_formed() ==> final(app).well_formed(),
    {
        let mut line = chars_of("\u{2713} Downloaded to ");
        append_str(&mut line, path);
        let mut note = chars_of("Opened: ");
        append_str(&mut note, file_name);
        app.report(pane_idx, &line, &note);
    }

    /// The media could not be fetched.
    pub fn media_failed(app: &mut App, pane_idx: usize, error: &str)
        ensures
            reported(
                *old(app),
                *final(app),
                pane_idx as int,
                "\u{2717} Download failed: "@ + error@,
                "Download failed: "@ + error@,
            ),
            old(app).well_formed() ==> final(app).well_formed(),
    {
        let mut line = chars_of("\u{2717} Download failed: ");
        append_str(&mut line, error);
        let mut note = chars_of("Download failed: ");
        append_str(&mut note, error);
        app.report(pane_idx, &line, &note);
    }

    /// The command `edit`: a message is to get a new text.
    pub fn handle_edit(app: &mut App, cmd: &Command, pane_idx: usize) -> (request: CommandRequest)
        ensures
            edit_begun(*old(app), *final(app), cmd@, pane_idx as int, request),
            old(app).well_formed() ==> final(app).well_formed(),
    {
        match Self::target(
            app,
            cmd,
            pane_idx,
            cmd.args.len() >= 2,
            "Usage: /edit N new_text",
            "Usage: /edit N new_text",
        ) {
            Some((chat_id, msg_num)) => {
                let text = join_args(&cmd.args, 1);
                CommandRequest::Edit { pane_idx, chat_id, msg_num, text: string_of(&text) }
            },
            None => CommandRequest::Nothing,
        }
    }

    /// The message was edited, or editing failed with `error`.
    pub fn edit_done(app: &mut App, pane_idx: usize, msg_num: i32, error: Option<&str>)
        ensures
            reported(
                *old(app),
                *final(app),
                pane_idx as int,
                match error {
                    None => "\u{2713} Edited message #"@ + number_text(msg_num),
                    Some(e) => "\u{2717} Edit failed: "@ + e@,
                },
                match error {
                    None => "Message edited"@,
                    Some(e) => "Edit failed: "@ + e@,
                },
            ),
            old(app).well_formed() ==> final(app).well_formed(),
    {
        match error {
            None => {
                let line = numbered("\u{2713} Edited message #", msg_num, "");
                proof {
                    reveal_strlit("");
                    assert(line@ =~= "\u{2713} Edited message #"@ + number_text(msg_num));
                }
                let note = chars_of("Message edited");
                app.report(pane_idx, &line, &note);
            },
            Some(e) => {
                let mut line = chars_of("\u{2717} Edit failed: ");
                append_str(&mut line, e);
                let mut note = chars_of("Edit failed: ");
                append_str(&mut note, e);
                app.report(pane_idx, &line, &note);
            },
        }
    }

    /// The command `delete`: a message is to be deleted.
    pub fn handle_delete(app: &mut App, cmd: &Command, pane_idx: usize) -> (request: CommandRequest)
        ensures
            delete_begun(*old(app), *final(app), cmd@, pane_idx as int, request),
            old(app).well_formed() ==> final(app).well_formed(),
    {
        match Self::target(
            app,
            cmd,
            pane_idx,
            cmd.args.len() > 0,
            "Usage: /delete N",
            "Usage: /delete N",
        ) {
            Some((chat_id, msg_num)) => CommandRequest::Delete { pane_idx, chat_id, msg_num },
            None => CommandRequest::Nothing,
        }
    }

    /// The message was deleted, or deleting failed with `error`.
    pub fn delete_done(app: &mut App, pane_idx: usize, msg_num: i32, error: Option<&str>)
        ensures
            reported(
                *old(app),
                *final(app),
                pane_idx as int,
                match error {
                    None => "\u{2713} Deleted message #"@ + number_text(msg_num),
                    Some(e) => "\u{2717} Delete failed: "@ + e@,
                },
                match error {
                    None => "Message deleted"@,
                    Some(e) => "Delete failed: "@ + e@,
                },
            ),
            old(app).well_formed() ==> final(app).well_formed(),
    {
        match error {
            None => {
                let line = numbered("\u{2713} Deleted message #", msg_num, "");
                proof {
                    reveal_strlit("");
                    assert(line@ =~= "\u{2713} Deleted message #"@ + number_text(msg_num));
                }
                let note = chars_of("Message deleted");
                app.report(pane_idx, &line, &note);
            },
            Some(e) => {
                let mut line = chars_of("\u{2717} Delete failed: ");
                append_str(&mut line, e);
                let mut note = chars_of("Delete failed: ");
                append_str(&mut note, e);
                app.report(pane_idx, &line, &note);
            },
        }
    }

    /// The command `alias`: the sender of a message is to get a name.
    pub fn handle_alias(app: &mut App, cmd: &Command, pane_idx: usize) -> (request: CommandRequest)
        ensures
            alias_begun(*old(app), *final(app), cmd@, pane_idx as int, request),
            old(app).well_formed() ==> final(app).well_formed(),
    {
        match Self::target(
            app,
            cmd,
            pane_idx,
            cmd.args.len() >= 2,
            "Usage: /alias N name",
            "Usage: /alias N name",
        ) {
            Some((chat_id, msg_num)) => {
                let alias = join_args(&cmd.args, 1);
                CommandRequest::Alias { pane_idx, chat_id, msg_num, alias: string_of(&alias) }
            },
            None => CommandRequest::Nothing,
        }
    }

    /// The command `unalias`: the sender of a message is to lose its name.
    pub fn handle_unalias(app: &mut App, cmd: &Command, pane_idx: usize) -> (request:
        CommandRequest)
        ensures
            unalias_begun(*old(app), *final(app), cmd@, pane_idx as int, request),
            old(app).well_formed() ==> final(app).well_formed(),
    {
        match Self::target(
            app,
            cmd,
            pane_idx,
            cmd.args.len() > 0,
            "Usage: /unalias N",
            "Usage: /unalias N",
        ) {
            Some((chat_id, msg_num)) => CommandRequest::Unalias { pane_idx, chat_id, msg_num },
            None => CommandRequest::Nothing,
        }
    }
}

/// Whether `after` differs from `before` in that no pane remembers lines
/// any more and the pane at position `at`, if there is one, has one
/// status line more: `line`.
pub open spec fn retold(before: Seq<ChatPane>, after: Seq<ChatPane>, at: int, line: Seq<char>)
    -> bool {
    &&& after.len() == before.len()
    &&& forall|k: int|
        #![trigger after[k]]
        0 <= k < before.len() ==> after[k] == (ChatPane {
            messages: after[k].messages,
            format_cache: FormatCache { entry: None },
            ..before[k]
        }) && string_views(after[k].messages@) == if k == at {
            string_views(before[k].messages@).push(line)
        } else {
            string_views(before[k].messages@)
        }
}

/// The names of the senders have changed: nothing that a pane remembers
/// can be trusted any more, so nothing is remembered.
pub proof fn lemma_renamed_keeps_well_formed(before: App, after: App)
    requires
        before.well_formed(),
        after.pane_tree == before.pane_tree,
        after.panes@.len() == before.panes@.len(),
        forall|k: int|
            0 <= k < after.panes@.len() ==> (#[trigger] after.panes@[k]).format_cache.entry.is_none(),
    ensures
        after.well_formed(),
{
}

impl App {
    /// Gives the sender the alias, and empties what the panes remember.
    fn rename_sender(&mut self, sender_id: i64, alias: &str)
        ensures
            final(self).aliases@ == old(self).aliases@.insert(sender_id, alias@),
            crate::app::caches_cleared(old(self).panes@, final(self).panes@),
            *final(self) == (App {
                aliases: final(self).aliases,
                panes: final(self).panes,
                ..*old(self)
            }),
            old(self).well_formed() ==> final(self).well_formed(),
    {
        let chars = chars_of(alias);
        self.aliases.insert(sender_id, string_of(&chars));
        self.refresh_all_pane_displays();
        proof {
            if old(self).well_formed() {
                lemma_renamed_keeps_well_formed(*old(self), *self);
            }
        }
    }

    /// Takes the alias of the sender away, and empties what the panes
    /// remember. Returns whether there was an alias.
    fn forget_sender(&mut self, sender_id: i64) -> (had: bool)
        ensures
            had == old(self).aliases@.contains_key(sender_id),
            final(self).aliases@ == old(self).aliases@.remove(sender_id),
            crate::app::caches_cleared(old(self).panes@, final(self).panes@),
            *final(self) == (App {
                aliases: final(self).aliases,
                panes: final(self).panes,
                ..*old(self)
            }),
            old(self).well_formed() ==> final(self).well_formed(),
    {
        let had = self.aliases.remove(sender_id).is_some();
        self.refresh_all_pane_displays();
        proof {
            if old(self).well_formed() {
                lemma_renamed_keeps_well_formed(*old(self), *self);
            }
        }
        had
    }
}

impl CommandHandler {
    /// The sender of the message that the command `alias` named was looked
    /// for. A sender that was found has the alias now, and the lines of
    /// every pane are made anew. Returns whether the aliases have changed
    /// and are to be stored.
    #[verifier::rlimit(40)]
    pub fn alias_found(app: &mut App, pane_idx: usize, sender: Option<i64>, alias: &str) -> (changed:
        bool)
        ensures
            changed == sender.is_some(),
            match sender {
                Some(sender_id) => {
                    &&& final(app).aliases@ == old(app).aliases@.insert(sender_id, alias@)
                    &&& retold(
                        old(app).panes@,
                        final(app).panes@,
                        pane_idx as int,
                        "\u{2713} Alias set: "@ + alias@,
                    )
                    &&& final(app).says("Alias set: "@ + alias@, NOTE_SECONDS)
                },
                None => reported(
                    *old(app),
                    *final(app),
                    pane_idx as int,
                    "\u{2717} Could not find message sender"@,
                    "Could not find message sender"@,
                ),
            },
            *final(app) == (App {
                aliases: final(app).aliases,
                panes: final(app).panes,
                status_message: final(app).status_message,
                status_seconds: NOTE_SECONDS,
                status_pending: true,
                ..*old(app)
            }),
            old(app).well_formed() ==> final(app).well_formed(),
    {
        match sender {
            Some(sender_id) => {
                app.rename_sender(sender_id, alias);
                let mut line = chars_of("\u{2713} Alias set: ");
                append_str(&mut line, alias);
                let mut note = chars_of("Alias set: ");
                append_str(&mut note, alias);
                app.report(pane_idx, &line, &note);
                true
            },
            None => {
                let line = chars_of("\u{2717} Could not find message sender");
                let note = chars_of("Could not find message sender");
                app.report(pane_idx, &line, &note);
                false
            },
        }
    }

    /// The sender of the message that the command `unalias` named was
    /// looked for. A sender that was found and had an alias has none now,
    /// and the lines of every pane are made anew. Returns whether the
    /// aliases have changed and are to be stored.
    #[verifier::rlimit(40)]
    pub fn unalias_found(app: &mut App, pane_idx: usize, sender: Option<i64>) -> (changed: bool)
        ensures
            changed == (sender matches Some(sender_id) && old(app).aliases@.contains_key(sender_id)),
            match sender {
                Some(sender_id) => if old(app).aliases@.contains_key(sender_id) {
                    &&& final(app).aliases@ == old(app).aliases@.remove(sender_id)
                    &&& retold(
                        old(app).panes@,
                        final(app).panes@,
                        pane_idx as int,
                        "\u{2713} Alias removed"@,
                    )
                    &&& final(app).says("Alias removed"@, NOTE_SECONDS)
                } else {
                    &&& final(app).aliases@ == old(app).aliases@
                    &&& retold(
                        old(app).panes@,
                        final(app).panes@,
                        pane_idx as int,
                        "\u{2717} No alias found"@,
                    )
                    &&& final(app).says("No alias set for this user"@, NOTE_SECONDS)
                },
                None => reported(
                    *old(app),
                    *final(app),
                    pane_idx as int,
                    "\u{2717} Could not find message sender"@,
                    "Could not find message sender"@,
                ),
            },
            *final(app) == (App {
                aliases: final(app).aliases,
                panes: final(app).panes,
                status_message: final(app).status_message,
                status_seconds: NOTE_SECONDS,
                status_pending: true,
                ..*old(app)
            }),
            old(app).well_formed() ==> final(app).well_formed(),
    {
        match sender {
            Some(sender_id) => {
                if app.forget_sender(sender_id) {
                    let line = chars_of("\u{2713} Alias removed");
                    let note = chars_of("Alias removed");
                    app.report(pane_idx, &line, &note);
                    true
                } else {
                    proof {
                        assert(app.aliases@ =~= old(app).aliases@);
                    }
                    let line = chars_of("\u{2717} No alias found");
                    let note = chars_of("No alias set for this user");
                    app.report(pane_idx, &line, &note);
                    false
                }
            },
            None => {
                let line = chars_of("\u{2717} Could not find message sender");
                let note = chars_of("Could not find message sender");
                app.report(pane_idx, &line, &note);
                false
            },
        }
    }
}

/// The position at which `pattern` first stands in `s` from position
/// `from` on, or the length of `s` where it stands nowhere.
pub open spec fn first_occurrence(s: Seq<char>, pattern: Seq<char>, from: int) -> int
    decreases s.len() - from,
{
    if 0 <= from < s.len() && !occurs_at(s, pattern, from) {
        first_occurrence(s, pattern, from + 1)
    } else if 0 <= from <= s.len() {
        from
    } else {
        s.len() as int
    }
}

pub proof fn lemma_first_occurrence(s: Seq<char>, pattern: Seq<char>, from: int, stop: int)
    requires
        0 <= from <= stop <= s.len(),
        forall|k: int| from <= k < stop ==> !occurs_at(s, pattern, k),
        stop < s.len() ==> occurs_at(s, pattern, stop),
    ensures
        first_occurrence(s, pattern, from) == stop,
    decreases stop - from,
{
    if from < stop {
        lemma_first_occurrence(s, pattern, from + 1, stop);
    }
}

/// The name of a conversation without what a search has put behind it.
pub open spec fn plain_title(name: Seq<char>) -> Seq<char> {
    name.take(first_occurrence(name, " | Search:"@, 0))
}

/// The name that a pane bears while it shows what a search has found.
pub open spec fn search_title(name: Seq<char>, query: Seq<char>, count: nat) -> Seq<char> {
    plain_title(name) + " | Search: '"@ + query + "' ("@ + digits(count) + " results)"@
}

/// Whether `after` is the pane `before` showing the `results` of a search
/// for `query`.
pub open spec fn showing_results(
    before: ChatPane,
    after: ChatPane,
    query: Seq<char>,
    results: Vec<MessageData>,
) -> bool {
    &&& after.chat_name@ == search_title(before.chat_name@, query, results@.len())
    &&& after == (ChatPane {
        msg_data: results,
        chat_name: after.chat_name,
        scroll_offset: 0,
        format_cache: FormatCache { entry: None },
        ..before
    })
}

/// The name of a conversation without what a search has put behind it.
pub fn plain_title_of(name: &Vec<char>) -> (plain: Vec<char>)
    ensures
        plain@ == plain_title(name@),
{
    let marker = chars_of(" | Search:");
    let mut at: usize = 0;
    while at < name.len() && !matches_at(name, &marker, at)
        invariant
            at <= name.len(),
            marker@ == " | Search:"@,
            forall|k: int| 0 <= k < at ==> !occurs_at(name@, marker@, k),
        decreases name.len() - at,
    {
        at = at + 1;
    }
    proof {
        lemma_first_occurrence(name@, marker@, 0, at as int);
    }
    let plain = slice(name, 0, at);
    assert(plain@ =~= name@.take(at as int));
    plain
}

impl App {
    /// Puts what a search for `query` has found into the pane at
    /// `pane_idx`.
    fn show_results(&mut self, pane_idx: usize, query: &str, results: Vec<MessageData>)
        requires
            pane_idx < old(self).panes@.len(),
        ensures
            one_pane_changed(old(self).panes@, final(self).panes@, pane_idx as int),
            showing_results(
                old(self).panes@[pane_idx as int],
                final(self).panes@[pane_idx as int],
                query@,
                results,
            ),
            *final(self) == (App { panes: final(self).panes, ..*old(self) }),
            old(self).well_formed() ==> final(self).well_formed(),
    {
        let name = chars_of(self.panes[pane_idx].chat_name.as_str());
        let mut title = plain_title_of(&name);
        append_str(&mut title, " | Search: '");
        append_str(&mut title, query);
        append_str(&mut title, "' (");
        let count = decimal_wide(results.len() as u128);
        append(&mut title, &count);
        append_str(&mut title, " results)");
        self.panes[pane_idx].set_messages(results);
        self.panes[pane_idx].chat_name = string_of(&title);
        self.panes[pane_idx].scroll_offset = 0;
        proof {
            if old(self).well_formed() {
                lemma_fresh_pane_keeps_well_formed(*old(self), *self, pane_idx as int);
            }
        }
    }
}

/// What the command `search` does at first: without words it tells how
/// it is used; in a pane that shows a conversation it asks for the search
/// and says so; in one that shows none it says that a conversation is to
/// be chosen first.
pub open spec fn search_begun(
    before: App,
    after: App,
    cmd: CommandView,
    pane_idx: int,
    request: CommandRequest,
) -> bool {
    if cmd.args.len() == 0 {
        request == CommandRequest::Nothing && noted(
            before,
            after,
            "Usage: /search <query> or /s <query>"@,
        )
    } else {
        match before.chat_of(pane_idx) {
            Some(chat) => {
                &&& request matches CommandRequest::Search { pane_idx: p, chat_id, query }
                &&& p == pane_idx
                &&& chat_id == chat
                &&& query@ == rest_of(cmd.args, 0)
                &&& noted(before, after, "Searching for '"@ + rest_of(cmd.args, 0) + "'..."@)
            },
            None => {
                &&& request == CommandRequest::Nothing
                &&& noted_if(
                    before,
                    after,
                    if 0 <= pane_idx < before.panes@.len() {
                        Some("Select a chat first"@)
                    } else {
                        None
                    },
                )
            },
        }
    }
}

impl CommandHandler {
    /// The command `search`: the messages of the pane's conversation that
    /// hold the words behind the command are to be searched for.
    pub fn handle_search(app: &mut App, cmd: &Command, pane_idx: usize) -> (request: CommandRequest)
        ensures
            search_begun(*old(app), *final(app), cmd@, pane_idx as int, request),
            old(app).well_formed() ==> final(app).well_formed(),
    {
        if cmd.args.len() == 0 {
            app.notify("Usage: /search <query> or /s <query>");
            return CommandRequest::Nothing;
        }
        let query = join_args(&cmd.args, 0);
        match app.pane_chat(pane_idx) {
            Some(chat_id) => {
                let note = framed("Searching for '", &query, "'...");
                app.note(&note, NOTE_SECONDS);
                CommandRequest::Search { pane_idx, chat_id, query: string_of(&query) }
            },
            None => {
                if pane_idx < app.panes.len() {
                    app.notify("Select a chat first");
                }
                CommandRequest::Nothing
            },
        }
    }

    /// The search for `query` has found `results`: the pane shows them
    /// under a name that tells of the search, unless there are none.
    pub fn search_done(app: &mut App, pane_idx: usize, query: &str, results: Vec<MessageData>)
        ensures
            results@.len() == 0 ==> noted(*old(app), *final(app), "No results found"@),
            results@.len() > 0 ==> {
                &&& one_pane_changed(old(app).panes@, final(app).panes@, pane_idx as int)
                &&& pane_idx < old(app).panes@.len() ==> showing_results(
                    old(app).panes@[pane_idx as int],
                    final(app).panes@[pane_idx as int],
                    query@,
                    results,
                )
                &&& final(app).says(
                    "Found "@ + digits(results@.len()) + " results"@,
                    NOTE_SECONDS,
                )
            },
            *final(app) == (App {
                panes: final(app).panes,
                status_message: final(app).status_message,
                status_seconds: NOTE_SECONDS,
                status_pending: true,
                ..*old(app)
            }),
            old(app).well_formed() ==> final(app).well_formed(),
    {
        let count = results.len();
        if count == 0 {
            app.notify("No results found");
            return;
        }
        if pane_idx < app.panes.len() {
            app.show_results(pane_idx, query, results);
        }
        let number = decimal_wide(count as u128);
        let note = framed("Found ", &number, " results");
        app.note(&note, NOTE_SECONDS);
    }

    /// The search has failed with `error`.
    pub fn search_failed(app: &mut App, error: &str)
        ensures
            noted(*old(app), *final(app), "Search failed: "@ + error@),
    {
        let mut note = chars_of("Search failed: ");
        append_str(&mut note, error);
        app.note(&note, NOTE_SECONDS);
    }
}

/// The kind of media, or `link`, that a word of the command `filter`
/// names, if it names one.
pub open spec fn media_word(word: Seq<char>) -> Option<Seq<char>> {
    if word == "photo"@ || word == "photos"@ {
        Some("photo"@)
    } else if word == "video"@ || word == "videos"@ {
        Some("video"@)
    } else if word == "audio"@ {
        Some("audio"@)
    } else if word == "voice"@ {
        Some("voice"@)
    } else if word == "doc"@ || word == "document"@ || word == "documents"@ || word == "file"@
        || word == "files"@ {
        Some("document"@)
    } else if word == "link"@ || word == "links"@ || word == "url"@ {
        Some("link"@)
    } else if word == "sticker"@ || word == "stickers"@ {
        Some("sticker"@)
    } else if word == "gif"@ || word == "gifs"@ {
        Some("gif"@)
    } else {
        None
    }
}

/// The kind of media, or `link`, that `word` names.
pub fn media_kind(word: &Vec<char>) -> (kind: Option<&'static str>)
    ensures
        match kind {
            Some(k) => media_word(word@) == Some(k@),
            None => media_word(word@).is_none(),
        },
{
    if crate::commands::is_word(word, "photo") || crate::commands::is_word(word, "photos") {
        Some("photo")
    } else if crate::commands::is_word(word, "video") || crate::commands::is_word(word, "videos") {
        Some("video")
    } else if crate::commands::is_word(word, "audio") {
        Some("audio")
    } else if crate::commands::is_word(word, "voice") {
        Some("voice")
    } else if crate::commands::is_word(word, "doc") || crate::commands::is_word(word, "document")
        || crate::commands::is_word(word, "documents") || crate::commands::is_word(word, "file")
        || crate::commands::is_word(word, "files") {
        Some("document")
    } else if crate::commands::is_word(word, "link") || crate::commands::is_word(word, "links")
        || crate::commands::is_word(word, "url") {
        Some("link")
    } else if crate::commands::is_word(word, "sticker") || crate::commands::is_word(
        word,
        "stickers",
    ) {
        Some("sticker")
    } else if crate::commands::is_word(word, "gif") || crate::commands::is_word(word, "gifs") {
        Some("gif")
    } else {
        None
    }
}

/// The word under which a kind of filter is named.
pub open spec fn filter_name(kind: FilterType) -> Seq<char> {
    match kind {
        FilterType::Sender => "sender"@,
        FilterType::Media => "media"@,
        FilterType::Link => "link"@,
    }
}

/// The note that tells which filter a pane has, or how the command
/// `filter` is used where it has none.
pub open spec fn filter_report(pane: ChatPane) -> Seq<char> {
    match pane.filter_type {
        Some(kind) => "Current filter: "@ + filter_name(kind) + "="@ + (match pane.filter_value {
            Some(value) => value@,
            None => Seq::empty(),
        }),
        None => "Usage: /filter off | photo | video | audio | doc | link | <name>"@,
    }
}

/// The filter that the arguments of the command `filter` ask for: none
/// for the word `off`; for a word that names a kind of media, that kind,
/// or links; else the sender whose name the arguments are. Capitals and
/// small letters in the first word are not told apart.
pub open spec fn filter_asked(args: Seq<Seq<char>>) -> (Option<FilterType>, Option<Seq<char>>) {
    let word = lowercase(args[0]);
    if word == "off"@ {
        (None, None)
    } else {
        match media_word(word) {
            Some(kind) => (
                Some(
                    if kind == "link"@ {
                        FilterType::Link
                    } else {
                        FilterType::Media
                    },
                ),
                Some(kind),
            ),
            None => (Some(FilterType::Sender), Some(rest_of(args, 0))),
        }
    }
}

/// The note that tells of the filter that was set.
pub open spec fn filter_note(args: Seq<Seq<char>>) -> Seq<char> {
    match filter_asked(args).0 {
        None => "Filter disabled"@,
        Some(FilterType::Sender) => "Filtering: messages from '"@ + filter_asked(args).1.unwrap()
            + "'"@,
        Some(_) => "Filtering: "@ + filter_asked(args).1.unwrap() + " only"@,
    }
}

/// Whether `after` is the pane `before` with the filter `kind` and
/// `value`, and nothing remembered.
pub open spec fn filter_set(
    before: ChatPane,
    after: ChatPane,
    kind: Option<FilterType>,
    value: Option<Seq<char>>,
) -> bool {
    &&& after.filter_type == kind
    &&& opt_text(after.filter_value) == value
    &&& after == (ChatPane {
        filter_type: kind,
        filter_value: after.filter_value,
        format_cache: FormatCache { entry: None },
        ..before
    })
}

impl App {
    /// Sets the filter of the pane at `pane_idx`, if there is such a pane.
    pub fn set_filter(&mut self, pane_idx: usize, kind: Option<FilterType>, value: Option<String>)
        ensures
            one_pane_changed(old(self).panes@, final(self).panes@, pane_idx as int),
            pane_idx < old(self).panes@.len() ==> final(self).panes@[pane_idx as int] == old(
                self,
            ).panes@[pane_idx as int].with_filter(kind, value),
            *final(self) == (App { panes: final(self).panes, ..*old(self) }),
            old(self).well_formed() ==> final(self).well_formed(),
    {
        if pane_idx < self.panes.len() {
            self.panes[pane_idx].set_filter(kind, value);
        }
        proof {
            if old(self).well_formed() {
                lemma_fresh_pane_keeps_well_formed(*old(self), *self, pane_idx as int);
            }
        }
    }
}

/// What the command `filter` does. Without arguments it tells which
/// filter the pane has. Else the pane gets the filter that the arguments
/// ask for, or loses its filter, and the status bar says which.
pub open spec fn filter_done(before: App, after: App, cmd: CommandView, pane_idx: int) -> bool {
    &&& if cmd.args.len() == 0 {
        noted_if(
            before,
            after,
            if 0 <= pane_idx < before.panes@.len() {
                Some(filter_report(before.panes@[pane_idx]))
            } else {
                None
            },
        )
    } else {
        &&& one_pane_changed(before.panes@, after.panes@, pane_idx)
        &&& 0 <= pane_idx < before.panes@.len() ==> filter_set(
            before.panes@[pane_idx],
            after.panes@[pane_idx],
            filter_asked(cmd.args).0,
            filter_asked(cmd.args).1,
        )
        &&& after.says(filter_note(cmd.args), NOTE_SECONDS)
    }
    &&& panes_and_note(before, after)
}

impl CommandHandler {
    /// The command `filter`. Without arguments it tells which filter the
    /// pane has. Else it sets the filter that the arguments ask for, or
    /// takes the filter away.
    #[verifier::rlimit(40)]
    pub fn handle_filter(app: &mut App, cmd: &Command, pane_idx: usize)
        ensures
            filter_done(*old(app), *final(app), cmd@, pane_idx as int),
            old(app).well_formed() ==> final(app).well_formed(),
    {
        if cmd.args.len() == 0 {
            if pane_idx < app.panes.len() {
                let note = Self::filter_report_of(&app.panes[pane_idx]);
                app.note(&note, NOTE_SECONDS);
            }
            return;
        }
        assert(string_views(cmd.args@)[0] == cmd.args@[0]@);
        let lower = cmd.args[0].as_str().to_lowercase();
        let word = chars_of(lower.as_str());
        if crate::commands::is_word(&word, "off") {
            app.set_filter(pane_idx, None, None);
            app.notify("Filter disabled");
            return;
        }
        match media_kind(&word) {
            Some(kind) => {
                let kind_chars = chars_of(kind);
                let is_link = crate::commands::is_word(&kind_chars, "link");
                let filter = if is_link {
                    FilterType::Link
                } else {
                    FilterType::Media
                };
                app.set_filter(pane_idx, Some(filter), Some(string_of(&kind_chars)));
                let note = framed("Filtering: ", &kind_chars, " only");
                app.note(&note, NOTE_SECONDS);
            },
            None => {
                let value = join_args(&cmd.args, 0);
                let note = framed("Filtering: messages from '", &value, "'");
                app.note(&note, NOTE_SECONDS);
                app.set_filter(pane_idx, Some(FilterType::Sender), Some(string_of(&value)));
            },
        }
    }

    fn filter_report_of(pane: &ChatPane) -> (note: Vec<char>)
        ensures
            note@ == filter_report(*pane),
    {
        match pane.filter_type {
            Some(kind) => {
                let mut note = chars_of("Current filter: ");
                match kind {
                    FilterType::Sender => append_str(&mut note, "sender"),
                    FilterType::Media => append_str(&mut note, "media"),
                    FilterType::Link => append_str(&mut note, "link"),
                }
                append_str(&mut note, "=");
                match &pane.filter_value {
                    Some(value) => append_str(&mut note, value.as_str()),
                    None => {},
                }
                assert(note@ =~= filter_report(*pane));
                note
            },
            None => chars_of("Usage: /filter off | photo | video | audio | doc | link | <name>"),
        }
    }
}

/// What a command of the groups does, of which nothing is carried out
/// yet but the telling. Without the arguments it needs, it tells how it is
/// used. In a pane that shows no conversation, a command that needs one
/// says so. Else the pane gets a status line and the status bar a note.
/// Without such a pane nothing happens.
pub open spec fn announced(
    before: App,
    after: App,
    pane_idx: int,
    enough: bool,
    usage: Seq<char>,
    needs_chat: bool,
    line: Seq<char>,
    note: Seq<char>,
) -> bool {
    if !enough {
        noted(before, after, usage)
    } else if !(0 <= pane_idx < before.panes@.len()) {
        after == before
    } else if needs_chat && before.panes@[pane_idx].chat_id.is_none() {
        noted(before, after, "Open a group chat first"@)
    } else {
        reported(before, after, pane_idx, line, note)
    }
}

/// What the command `new` does: it tells that a conversation with the
/// user named first is begun.
pub open spec fn new_chat_told(before: App, after: App, cmd: CommandView, pane_idx: int) -> bool {
    announced(
        before,
        after,
        pane_idx,
        cmd.args.len() > 0,
        "Usage: /new @username"@,
        false,
        "Starting chat with "@ + first_word(cmd.args) + "..."@,
        "Looking up "@ + first_word(cmd.args) + "..."@,
    )
}

/// What the command `newgroup` does: it tells that a group of the name
/// that the arguments give is made.
pub open spec fn new_group_told(before: App, after: App, cmd: CommandView, pane_idx: int) -> bool {
    announced(
        before,
        after,
        pane_idx,
        cmd.args.len() > 0,
        "Usage: /newgroup <name>"@,
        false,
        "Creating group: "@ + rest_of(cmd.args, 0) + "..."@,
        "Creating group '"@ + rest_of(cmd.args, 0) + "'..."@,
    )
}

/// What the command `add` does: in a pane that shows a conversation it
/// tells that the user named first joins the group.
pub open spec fn add_member_told(before: App, after: App, cmd: CommandView, pane_idx: int) -> bool {
    announced(
        before,
        after,
        pane_idx,
        cmd.args.len() > 0,
        "Usage: /add @username"@,
        true,
        "Adding "@ + first_word(cmd.args) + " to group..."@,
        "Adding "@ + first_word(cmd.args) + "..."@,
    )
}

/// What the commands `kick` and `remove` do: in a pane that shows a
/// conversation they tell that the user named first leaves the group.
pub open spec fn remove_member_told(before: App, after: App, cmd: CommandView, pane_idx: int)
    -> bool {
    announced(
        before,
        after,
        pane_idx,
        cmd.args.len() > 0,
        "Usage: /kick @username or /remove @username"@,
        true,
        "Removing "@ + first_word(cmd.args) + " from group..."@,
        "Removing "@ + first_word(cmd.args) + "..."@,
    )
}

/// What the command `members` does: in a pane that shows a conversation
/// it tells that the members of the group are fetched.
pub open spec fn members_told(before: App, after: App, pane_idx: int) -> bool {
    announced(
        before,
        after,
        pane_idx,
        true,
        Seq::empty(),
        true,
        "Fetching group members..."@,
        "Loading members..."@,
    )
}

/// What the command `forward` does: in a pane that shows a conversation
/// it tells that the message is passed on to the user named second;
/// without number and user it tells how it is used.
pub open spec fn forward_told(before: App, after: App, cmd: CommandView, pane_idx: int) -> bool {
    match asked(before, cmd, pane_idx, cmd.args.len() >= 2) {
        Some((chat, number)) => reported(
            before,
            after,
            pane_idx,
            "Forwarding message #"@ + number_text(number) + " to "@ + cmd.args[1] + "..."@,
            "Forwarding #"@ + number_text(number) + " to "@ + cmd.args[1] + "..."@,
        ),
        None => noted_if(
            before,
            after,
            usage_note(
                cmd,
                cmd.args.len() >= 2,
                "Usage: /forward N @username or /fwd N @username"@,
                "Usage: /forward N @username"@,
            ),
        ),
    }
}

impl CommandHandler {
    fn announce(
        app: &mut App,
        pane_idx: usize,
        enough: bool,
        usage: &str,
        needs_chat: bool,
        line: &Vec<char>,
        note: &Vec<char>,
    )
        ensures
            announced(
                *old(app),
                *final(app),
                pane_idx as int,
                enough,
                usage@,
                needs_chat,
                line@,
                note@,
            ),
            old(app).well_formed() ==> final(app).well_formed(),
    {
        if !enough {
            app.notify(usage);
        } else if pane_idx >= app.panes.len() {
        } else if needs_chat && app.panes[pane_idx].chat_id.is_none() {
            app.notify("Open a group chat first");
        } else {
            app.report(pane_idx, line, note);
        }
    }

    /// The first argument, or nothing where there is none.
    fn first_arg(cmd: &Command) -> (arg: Vec<char>)
        ensures
            arg@ == first_word(cmd@.args),
    {
        if cmd.args.len() > 0 {
            assert(string_views(cmd.args@)[0] == cmd.args@[0]@);
            chars_of(cmd.args[0].as_str())
        } else {
            Vec::new()
        }
    }

    /// The command `new`: a conversation with a user is to begin.
    pub fn handle_new_chat(app: &mut App, cmd: &Command, pane_idx: usize)
        ensures
            new_chat_told(*old(app), *final(app), cmd@, pane_idx as int),
            old(app).well_formed() ==> final(app).well_formed(),
    {
        let who = Self::first_arg(cmd);
        let line = framed("Starting chat with ", &who, "...");
        let note = framed("Looking up ", &who, "...");
        Self::announce(app, pane_idx, cmd.args.len() > 0, "Usage: /new @username", false, &line, &note);
    }

    /// The command `newgroup`: a group is to be made.
    pub fn handle_new_group(app: &mut App, cmd: &Command, pane_idx: usize)
        ensures
            new_group_told(*old(app), *final(app), cmd@, pane_idx as int),
            old(app).well_formed() ==> final(app).well_formed(),
    {
        let name = join_args(&cmd.args, 0);
        let line = framed("Creating group: ", &name, "...");
        let note = framed("Creating group '", &name, "'...");
        Self::announce(
            app,
            pane_idx,
            cmd.args.len() > 0,
            "Usage: /newgroup <name>",
            false,
            &line,
            &note,
        );
    }

    /// The command `add`: a user is to join the group.
    pub fn handle_add_member(app: &mut App, cmd: &Command, pane_idx: usize)
        ensures
            add_member_told(*old(app), *final(app), cmd@, pane_idx as int),
            old(app).well_formed() ==> final(app).well_formed(),
    {
        let who = Self::first_arg(cmd);
        let line = framed("Adding ", &who, " to group...");
        let note = framed("Adding ", &who, "...");
        Self::announce(app, pane_idx, cmd.args.len() > 0, "Usage: /add @username", true, &line, &note);
    }

    /// The commands `kick` and `remove`: a user is to leave the group.
    pub fn handle_remove_member(app: &mut App, cmd: &Command, pane_idx: usize)
        ensures
            remove_member_told(*old(app), *final(app), cmd@, pane_idx as int),
            old(app).well_formed() ==> final(app).well_formed(),
    {
        let who = Self::first_arg(cmd);
        let line = framed("Removing ", &who, " from group...");
        let note = framed("Removing ", &who, "...");
        Self::announce(
            app,
            pane_idx,
            cmd.args.len() > 0,
            "Usage: /kick @username or /remove @username",
            true,
            &line,
            &note,
        );
    }

    /// The command `members`: the members of the group are to be listed.
    pub fn handle_members(app: &mut App, pane_idx: usize)
        ensures
            members_told(*old(app), *final(app), pane_idx as int),
            old(app).well_formed() ==> final(app).well_formed(),
    {
        let line = chars_of("Fetching group members...");
        let note = chars_of("Loading members...");
        proof {
            reveal_strlit("");
        }
        Self::announce(app, pane_idx, true, "", true, &line, &note);
    }

    /// The command `forward`: a message is to be passed on to a user.
    pub fn handle_forward(app: &mut App, cmd: &Command, pane_idx: usize)
        ensures
            forward_told(*old(app), *final(app), cmd@, pane_idx as int),
            old(app).well_formed() ==> final(app).well_formed(),
    {
        match Self::target(
            app,
            cmd,
            pane_idx,
            cmd.args.len() >= 2,
            "Usage: /forward N @username or /fwd N @username",
            "Usage: /forward N @username",
        ) {
            Some((_chat_id, msg_num)) => {
                assert(string_views(cmd.args@)[1] == cmd.args@[1]@);
                let whom = chars_of(cmd.args[1].as_str());
                let mut line = numbered("Forwarding message #", msg_num, " to ");
                append(&mut line, &whom);
                append_str(&mut line, "...");
                let mut note = numbered("Forwarding #", msg_num, " to ");
                append(&mut note, &whom);
                append_str(&mut note, "...");
                app.report(pane_idx, &line, &note);
            },
            None => {},
        }
    }

    /// Carries out the command that `text` is for the pane at `pane_idx`,
    /// as far as that can be done here, and returns whether `text` is a
    /// known command and what is left to be done outside. Text that is no
    /// known command changes nothing.
    #[verifier::rlimit(40)]
    pub fn handle(app: &mut App, text: &str, pane_idx: usize) -> (result: (bool, CommandRequest))
        ensures
            result.0 == crate::commands::command_kind(text@).is_some(),
            !result.0 ==> result.1 == CommandRequest::Nothing && *final(app) == *old(app),
            result.0 ==> handled_as(
                crate::commands::command_kind(text@).unwrap(),
                *old(app),
                *final(app),
                parsed(text@).unwrap(),
                pane_idx as int,
                result.1,
            ),
            old(app).well_formed() ==> final(app).well_formed(),
    {
        let cmd = match Command::parse(text) {
            Some(c) => c,
            None => {
                return (false, CommandRequest::Nothing);
            },
        };
        let kind = match classify(cmd.name.as_str()) {
            Some(k) => k,
            None => {
                return (false, CommandRequest::Nothing);
            },
        };
        let request = match kind {
            CommandKind::Reply => Self::handle_reply(app, &cmd, pane_idx),
            CommandKind::Media => Self::handle_media(app, &cmd, pane_idx),
            CommandKind::Edit => Self::handle_edit(app, &cmd, pane_idx),
            CommandKind::Delete => Self::handle_delete(app, &cmd, pane_idx),
            CommandKind::Alias => Self::handle_alias(app, &cmd, pane_idx),
            CommandKind::Unalias => Self::handle_unalias(app, &cmd, pane_idx),
            CommandKind::Search => Self::handle_search(app, &cmd, pane_idx),
            CommandKind::Filter => {
                Self::handle_filter(app, &cmd, pane_idx);
                CommandRequest::Nothing
            },
            CommandKind::NewChat => {
                Self::handle_new_chat(app, &cmd, pane_idx);
                CommandRequest::Nothing
            },
            CommandKind::NewGroup => {
                Self::handle_new_group(app, &cmd, pane_idx);
                CommandRequest::Nothing
            },
            CommandKind::AddMember => {
                Self::handle_add_member(app, &cmd, pane_idx);
                CommandRequest::Nothing
            },
            CommandKind::RemoveMember => {
                Self::handle_remove_member(app, &cmd, pane_idx);
                CommandRequest::Nothing
            },
            CommandKind::Members => {
                Self::handle_members(app, pane_idx);
                CommandRequest::Nothing
            },
            CommandKind::Forward => {
                Self::handle_forward(app, &cmd, pane_idx);
                CommandRequest::Nothing
            },
        };
        (true, request)
    }
}

/// The first of the arguments, or nothing where there is none.
pub open spec fn first_word(args: Seq<Seq<char>>) -> Seq<char> {
    if args.len() > 0 {
        args[0]
    } else {
        Seq::empty()
    }
}

/// Whether `after` and `request` are what the command `cmd` of the kind
/// `kind` makes of `before` for the pane at `pane_idx`: what the handler
/// of that kind of command does. A command that is carried out here asks
/// for nothing.
pub open spec fn handled_as(
    kind: CommandKind,
    before: App,
    after: App,
    cmd: CommandView,
    pane_idx: int,
    request: CommandRequest,
) -> bool {
    match kind {
        CommandKind::Reply => reply_begun(before, after, cmd, pane_idx, request) && panes_and_note(
            before,
            after,
        ),
        CommandKind::Media => media_begun(before, after, cmd, pane_idx, request),
        CommandKind::Edit => edit_begun(before, after, cmd, pane_idx, request),
        CommandKind::Delete => delete_begun(before, after, cmd, pane_idx, request),
        CommandKind::Alias => alias_begun(before, after, cmd, pane_idx, request),
        CommandKind::Unalias => unalias_begun(before, after, cmd, pane_idx, request),
        CommandKind::Search => search_begun(before, after, cmd, pane_idx, request),
        CommandKind::Filter => request == CommandRequest::Nothing && filter_done(
            before,
            after,
            cmd,
            pane_idx,
        ),
        CommandKind::NewChat => request == CommandRequest::Nothing && new_chat_told(
            before,
            after,
            cmd,
            pane_idx,
        ),
        CommandKind::NewGroup => request == CommandRequest::Nothing && new_group_told(
            before,
            after,
            cmd,
            pane_idx,
        ),
        CommandKind::AddMember => request == CommandRequest::Nothing && add_member_told(
            before,
            after,
            cmd,
            pane_idx,
        ),
        CommandKind::RemoveMember => request == CommandRequest::Nothing && remove_member_told(
            before,
            after,
            cmd,
            pane_idx,
        ),
        CommandKind::Members => request == CommandRequest::Nothing && members_told(
            before,
            after,
            pane_idx,
        ),
        CommandKind::Forward => request == CommandRequest::Nothing && forward_told(
            before,
            after,
            cmd,
            pane_idx,
        ),
    }
}

} // verus!
