use vstd::prelude::*;
use crate::app::{input_edited, lemma_typing_keeps_well_formed, App, ChatInfo, NOTE_SECONDS};
use crate::commands::{command_kind, classify, Command};
use crate::geometry::Rect;
use crate::format_cache::FormatCache;
use crate::message::{copy_messages, copy_text, message_views, opt_text, MessageData};
use crate::text::{append, append_str, chars_of, slice, string_of};
use crate::utils::normalize_chat_id;
use crate::widgets::{typing_deadline, ChatPane};

verus! {

/// The position of the first conversation with the number `id`, or the
/// count of the conversations where none has it.
pub open spec fn chat_position(chats: Seq<ChatInfo>, id: i64, from: int) -> int
    decreases chats.len() - from,
{
    if 0 <= from < chats.len() && chats[from].id != id {
        chat_position(chats, id, from + 1)
    } else {
        from
    }
}

pub proof fn lemma_chat_position(chats: Seq<ChatInfo>, id: i64, from: int, stop: int)
    requires
        0 <= from <= stop <= chats.len(),
        forall|k: int| from <= k < stop ==> (#[trigger] chats[k]).id != id,
        stop < chats.len() ==> chats[stop].id == id,
    ensures
        chat_position(chats, id, from) == stop,
    decreases stop - from,
{
    if from < stop {
        lemma_chat_position(chats, id, from + 1, stop);
    }
}

/// Whether `after` differs from `before` in the count of unread messages of
/// the conversation at position `at` alone, which is `unread`.
pub open spec fn unread_set(before: Seq<ChatInfo>, after: Seq<ChatInfo>, at: int, unread: u32) -> bool {
    &&& after.len() == before.len()
    &&& forall|k: int| 0 <= k < before.len() && k != at ==> after[k] == before[k]
    &&& 0 <= at < before.len() ==> after[at] == (ChatInfo { unread, ..before[at] })
}

/// Whether `after` differs from `before` in the pane at position `at`
/// alone.
pub open spec fn one_pane_changed(before: Seq<ChatPane>, after: Seq<ChatPane>, at: int) -> bool {
    &&& after.len() == before.len()
    &&& forall|k: int| 0 <= k < before.len() && k != at ==> after[k] == before[k]
}

/// A change of one pane that leaves it with nothing remembered disturbs
/// neither the tree nor what the other panes remember.
pub proof fn lemma_fresh_pane_keeps_well_formed(before: App, after: App, at: int)
    requires
        before.well_formed(),
        after.pane_tree == before.pane_tree,
        after.aliases == before.aliases,
        one_pane_changed(before.panes@, after.panes@, at),
        0 <= at < after.panes@.len() ==> after.panes@[at].format_cache.entry.is_none(),
    ensures
        after.well_formed(),
{
    assert forall|k: int| 0 <= k < after.panes@.len() implies (#[trigger] after.panes@[k]).cache_sound(
        after.aliases@,
    ) by {
        assert(before.panes@[k].cache_sound(before.aliases@));
        if k != at {
            assert(after.panes@[k] == before.panes@[k]);
        }
    }
}

impl App {
    /// The position of the first conversation with the number `id`, or the
    /// count of the conversations where none has it.
    pub fn find_chat(&self, id: i64) -> (at: usize)
        ensures
            at == chat_position(self.chats@, id, 0),
            at <= self.chats@.len(),
            at < self.chats@.len() ==> self.chats@[at as int].id == id,
    {
        let mut at: usize = 0;
        while at < self.chats.len() && self.chats[at].id != id
            invariant
                at <= self.chats.len(),
                forall|k: int| 0 <= k < at ==> (#[trigger] self.chats@[k]).id != id,
            decreases self.chats.len() - at,
        {
            at = at + 1;
        }
        proof {
            lemma_chat_position(self.chats@, id, 0, at as int);
        }
        at
    }

    /// Whether the conversation `chat_id` is one of a group.
    pub open spec fn group_chat(self, chat_id: i64) -> bool {
        exists|k: int|
            0 <= k < self.chats@.len() && (#[trigger] self.chats@[k]).id == chat_id
                && self.chats@[k].is_group
    }

    /// Whether the conversation `chat_id` is one of a group.
    pub fn is_group_chat(&self, chat_id: i64) -> (yes: bool)
        ensures
            yes == self.group_chat(chat_id),
    {
        let mut i: usize = 0;
        while i < self.chats.len()
            invariant
                i <= self.chats.len(),
                forall|k: int|
                    0 <= k < i ==> !((#[trigger] self.chats@[k]).id == chat_id
                        && self.chats@[k].is_group),
            decreases self.chats.len() - i,
        {
            if self.chats[i].id == chat_id && self.chats[i].is_group {
                return true;
            }
            i = i + 1;
        }
        false
    }

    /// Marks the conversation `chat_id` as read.
    fn mark_read(&mut self, chat_id: i64)
        ensures
            unread_set(
                old(self).chats@,
                final(self).chats@,
                chat_position(old(self).chats@, chat_id, 0),
                0,
            ),
            *final(self) == (App { chats: final(self).chats, ..*old(self) }),
    {
        let at = self.find_chat(chat_id);
        if at < self.chats.len() {
            self.set_unread(at, 0);
        }
    }

    /// Opens the conversation `chat_id` with its `messages` in the pane at
    /// `pane_idx`, under the name `chat_name` and with the user name that
    /// the list of conversations knows for it, and marks the conversation
    /// as read.
    #[verifier::rlimit(40)]
    pub fn open_chat_in_pane(
        &mut self,
        pane_idx: usize,
        chat_id: i64,
        chat_name: &str,
        messages: Vec<MessageData>,
    )
        ensures
            one_pane_changed(old(self).panes@, final(self).panes@, pane_idx as int),
            pane_idx < old(self).panes@.len() ==> {
                let before = old(self).panes@[pane_idx as int];
                let after = final(self).panes@[pane_idx as int];
                let listed = chat_position(old(self).chats@, chat_id, 0);
                &&& after.chat_id == Some(chat_id)
                &&& after.chat_name@ == chat_name@
                &&& after.msg_data == messages
                &&& after.messages@.len() == 0
                &&& after.reply_to_message.is_none()
                &&& after.reply_preview.is_none()
                &&& after.scroll_offset == 0
                &&& after.format_cache.entry.is_none()
                &&& opt_text(after.username) == if listed < old(self).chats@.len() {
                    opt_text(old(self).chats@[listed].username)
                } else {
                    opt_text(before.username)
                }
                &&& after == (ChatPane {
                    chat_id: after.chat_id,
                    chat_name: after.chat_name,
                    username: after.username,
                    msg_data: after.msg_data,
                    messages: after.messages,
                    reply_to_message: None,
                    reply_preview: None,
                    scroll_offset: 0,
                    format_cache: after.format_cache,
                    ..before
                })
            },
            unread_set(
                old(self).chats@,
                final(self).chats@,
                chat_position(old(self).chats@, chat_id, 0),
                0,
            ),
            *final(self) == (App { panes: final(self).panes, chats: final(self).chats, ..*old(self) }),
            old(self).well_formed() ==> final(self).well_formed(),
    {
        if pane_idx < self.panes.len() {
            let name_chars = chars_of(chat_name);
            let name = string_of(&name_chars);
            self.panes[pane_idx].open_chat(chat_id, name, messages);
            let listed = self.find_chat(chat_id);
            if listed < self.chats.len() {
                let username = copy_text(&self.chats[listed].username);
                self.panes[pane_idx].username = username;
            }
        }
        proof {
            if old(self).well_formed() {
                lemma_fresh_pane_keeps_well_formed(*old(self), *self, pane_idx as int);
            }
        }
        self.mark_read(chat_id);
    }
}

/// How many inputs are kept to be brought back.
pub const HISTORY_LIMIT: usize = 100;

/// What is kept of the inputs after `text` was entered: an input that
/// repeats the last one is not kept twice, and the oldest one goes where
/// more than the limit would be kept.
pub open spec fn remembered(history: Seq<Seq<char>>, text: Seq<char>) -> Seq<Seq<char>> {
    if history.len() > 0 && history.last() == text {
        history
    } else if history.len() + 1 > HISTORY_LIMIT {
        history.push(text).drop_first()
    } else {
        history.push(text)
    }
}

/// Keeps `text` as the last of `history`, unless it repeats the last one;
/// the oldest entry goes where the limit is passed.
pub fn remember(history: &mut Vec<Vec<char>>, text: &Vec<char>)
    ensures
        crate::text::texts(final(history)@) == remembered(crate::text::texts(old(history)@), text@),
{
    let ghost before = crate::text::texts(history@);
    let n = history.len();
    let repeats = n > 0 && crate::text::same(&history[n - 1], text);
    if !repeats {
        let mut copy: Vec<char> = Vec::new();
        append(&mut copy, text);
        history.push(copy);
        assert(crate::text::texts(history@) =~= before.push(text@));
        if history.len() > HISTORY_LIMIT {
            let _ = history.remove(0);
            assert(crate::text::texts(history@) =~= before.push(text@).drop_first());
        }
    } else {
        assert(before.last() == history@[n - 1]@);
    }
}

/// What is to be done outside after the key Enter.
#[derive(Debug, PartialEq, Eq)]
pub enum EnterAction {
    /// Nothing.
    Nothing,
    /// The messages of the conversation at this place of the list are to be
    /// fetched and opened in the current pane.
    OpenChat { chat_index: usize, chat_id: i64 },
    /// The command is to be carried out for the pane.
    RunCommand { pane_idx: usize, text: String },
    /// The text is to be sent as an answer to a message.
    SendReply { chat_id: i64, reply_to: i32, text: String },
    /// The text is to be sent.
    SendMessage { chat_id: i64, text: String },
}

/// Whether `after` is the pane `before`, the pane at `at`, after what was
/// typed in it was sent off at the instant `now` by the user
/// `my_user_id`, with `action` left to be done outside. A known command
/// leaves the input empty and is handed on. Other text is shown as a
/// message of the user's own and handed on to be sent, as an answer where
/// one was begun; in a pane without conversation it stays.
pub open spec fn sent_from(
    before: ChatPane,
    after: ChatPane,
    at: int,
    my_user_id: i64,
    action: EnterAction,
    now: i64,
) -> bool {
    let text = before.input_buffer@;
    if command_kind(text).is_some() {
        &&& action matches EnterAction::RunCommand { pane_idx, text: t }
        &&& pane_idx == at
        &&& t@ == text
        &&& after.input_buffer@.len() == 0
        &&& after.input_cursor == 0
        &&& before.edited_to(after)
    } else if before.chat_id.is_none() {
        &&& action == EnterAction::Nothing
        &&& after == before
    } else {
        &&& after.echoed_from(before, my_user_id, text, now)
        &&& match before.reply_to_message {
            Some(reply_to) => action matches EnterAction::SendReply { chat_id, reply_to: r, text: t }
                && Some(chat_id) == before.chat_id && r == reply_to && t@ == text,
            None => action matches EnterAction::SendMessage { chat_id, text: t } && Some(chat_id)
                == before.chat_id && t@ == text,
        }
    }
}

impl App {
    /// Keeps `text` among the inputs that can be brought back, and ends
    /// the going through them.
    fn remember_input(&mut self, text: &Vec<char>)
        ensures
            crate::text::texts(final(self).input_history@) == remembered(
                crate::text::texts(old(self).input_history@),
                text@,
            ),
            final(self).history_idx.is_none(),
            final(self).history_temp@.len() == 0,
            *final(self) == (App {
                input_history: final(self).input_history,
                history_idx: None,
                history_temp: final(self).history_temp,
                ..*old(self)
            }),
    {
        remember(&mut self.input_history, text);
        self.history_idx = None;
        self.history_temp.clear();
    }

    /// What the key Enter asks for while nothing is typed: the
    /// conversation that is chosen in the list, if the keys go to the list
    /// and the list has it.
    pub open spec fn chosen_chat(self) -> Option<int> {
        if self.input_empty() && self.focus.focus_on_chat_list && self.selected_chat_idx
            < self.chats@.len() {
            Some(self.selected_chat_idx as int)
        } else {
            None
        }
    }

    /// Whether the key Enter sends off what is typed: something is typed,
    /// and the keys go to the pane.
    pub open spec fn submits(self) -> bool {
        !self.input_empty() && !self.focus.focus_on_chat_list
    }

    /// The key Enter at the instant `now`. With nothing typed and the keys
    /// on the list, the chosen conversation is asked for. With something
    /// typed in a pane, the input is kept to be brought back; a known
    /// command is handed on; any other text is shown at once as a message
    /// of the user's own and handed on to be sent, as an answer where an
    /// answer was begun. Text typed in a pane without conversation stays.
    #[verifier::rlimit(40)]
    pub fn handle_enter(&mut self, now: i64) -> (action: EnterAction)
        ensures
            old(self).chosen_chat() matches Some(at) ==> action == (EnterAction::OpenChat {
                chat_index: at as usize,
                chat_id: old(self).chats@[at].id,
            }) && *final(self) == *old(self),
            old(self).chosen_chat().is_none() && !old(self).submits() ==> action
                == EnterAction::Nothing && *final(self) == *old(self),
            old(self).submits() ==> final(self).submitted_from(*old(self), action, now),
            *final(self) == (App {
                panes: final(self).panes,
                input_history: final(self).input_history,
                history_idx: final(self).history_idx,
                history_temp: final(self).history_temp,
                ..*old(self)
            }),
            old(self).well_formed() ==> final(self).well_formed(),
    {
        let at = self.focus.focused_pane_idx;
        let input_empty = at >= self.panes.len() || self.panes[at].input_buffer.len() == 0;
        if input_empty {
            if self.focus.focus_on_chat_list && self.selected_chat_idx < self.chats.len() {
                return EnterAction::OpenChat {
                    chat_index: self.selected_chat_idx,
                    chat_id: self.chats[self.selected_chat_idx].id,
                };
            }
            return EnterAction::Nothing;
        }
        if self.focus.focus_on_chat_list {
            return EnterAction::Nothing;
        }
        self.submit(at, now)
    }

    /// Whether this is the state after what was typed in the current pane
    /// of `before` was entered at the instant `now`, with `action` left to
    /// be done outside.
    pub open spec fn submitted_from(self, before: App, action: EnterAction, now: i64) -> bool {
        let at = before.focus.focused_pane_idx as int;
        let text = before.panes@[at].input_buffer@;
        &&& crate::text::texts(self.input_history@) == remembered(
            crate::text::texts(before.input_history@),
            text,
        )
        &&& self.history_idx.is_none()
        &&& self.history_temp@.len() == 0
        &&& one_pane_changed(before.panes@, self.panes@, at)
        &&& sent_from(
            before.panes@[at],
            self.panes@[at],
            at,
            before.my_user_id,
            action,
            now,
        )
    }

    /// Enters what is typed in the pane at `at`.
    #[verifier::rlimit(40)]
    fn submit(&mut self, at: usize, now: i64) -> (action: EnterAction)
        requires
            at == old(self).focus.focused_pane_idx,
            at < old(self).panes@.len(),
        ensures
            final(self).submitted_from(*old(self), action, now),
            *final(self) == (App {
                panes: final(self).panes,
                input_history: final(self).input_history,
                history_idx: final(self).history_idx,
                history_temp: final(self).history_temp,
                ..*old(self)
            }),
            old(self).well_formed() ==> final(self).well_formed(),
    {
        let mut typed: Vec<char> = Vec::new();
        append(&mut typed, &self.panes[at].input_buffer);
        assert(typed@ =~= self.panes@[at as int].input_buffer@);
        self.remember_input(&typed);
        self.send_off(at, &typed, now)
    }

    /// Sends off `typed`, which is what is typed in the pane at `at`.
    #[verifier::rlimit(40)]
    fn send_off(&mut self, at: usize, typed: &Vec<char>, now: i64) -> (action: EnterAction)
        requires
            at < old(self).panes@.len(),
            typed@ == old(self).panes@[at as int].input_buffer@,
        ensures
            one_pane_changed(old(self).panes@, final(self).panes@, at as int),
            sent_from(
                old(self).panes@[at as int],
                final(self).panes@[at as int],
                at as int,
                old(self).my_user_id,
                action,
                now,
            ),
            *final(self) == (App { panes: final(self).panes, ..*old(self) }),
            old(self).well_formed() ==> final(self).well_formed(),
    {
        let text = string_of(typed);
        let known = match Command::parse(text.as_str()) {
            Some(command) => classify(command.name.as_str()).is_some(),
            None => false,
        };
        if known {
            self.empty_input(at);
            return EnterAction::RunCommand { pane_idx: at, text };
        }
        match self.panes[at].chat_id {
            Some(chat_id) => {
                let reply_to = self.panes[at].reply_to_message;
                self.echo_typed(at, typed, now);
                match reply_to {
                    Some(reply_to) => EnterAction::SendReply { chat_id, reply_to, text },
                    None => EnterAction::SendMessage { chat_id, text },
                }
            },
            None => EnterAction::Nothing,
        }
    }

    /// Empties what is typed in the pane at `at`.
    fn empty_input(&mut self, at: usize)
        requires
            at < old(self).panes@.len(),
        ensures
            final(self).panes@[at as int].input_buffer@.len() == 0,
            final(self).panes@[at as int].input_cursor == 0,
            input_edited(old(self).panes@, final(self).panes@, at as int),
            *final(self) == (App { panes: final(self).panes, ..*old(self) }),
            old(self).well_formed() ==> final(self).well_formed(),
    {
        self.panes[at].clear_input();
        proof {
            if old(self).well_formed() {
                lemma_typing_keeps_well_formed(*old(self), *self, at as int);
            }
        }
    }

    /// Shows `typed` at once as a message of the user's own in the pane at
    /// `at`, as an answer where one was begun, and empties the input.
    fn echo_typed(&mut self, at: usize, typed: &Vec<char>, now: i64)
        requires
            at < old(self).panes@.len(),
        ensures
            one_pane_changed(old(self).panes@, final(self).panes@, at as int),
            final(self).panes@[at as int].echoed_from(
                old(self).panes@[at as int],
                old(self).my_user_id,
                typed@,
                now,
            ),
            *final(self) == (App { panes: final(self).panes, ..*old(self) }),
            old(self).well_formed() ==> final(self).well_formed(),
    {
        let message = MessageData::echo(self.my_user_id, typed, self.panes[at].reply_to_message, now);
        let ghost before = self.panes@[at as int].msg_data@;
        self.panes[at].push_message(message);
        assert(self.panes@[at as int].msg_data@.drop_last() =~= before);
        self.panes[at].reply_to_message = None;
        self.panes[at].reply_preview = None;
        self.panes[at].clear_input();
        proof {
            if old(self).well_formed() {
                lemma_fresh_pane_keeps_well_formed(*old(self), *self, at as int);
            }
        }
    }
}

/// What is to be done outside after a message has come in.
#[derive(Debug, PartialEq, Eq)]
pub enum UpdateAction {
    /// Nothing.
    Nothing,
    /// The messages of the conversation are to be fetched anew and put
    /// into the panes that show it.
    Reload { chat_id: i64, panes: Vec<usize> },
    /// The desktop is to be told of the message.
    NotifyDesktop { title: String, preview: String },
}

/// The position on the list of the conversation that a message for
/// `chat_id` belongs to: the first whose number is `chat_id` or what is
/// left of it without the marks of a channel.
pub open spec fn listed_position(chats: Seq<ChatInfo>, chat_id: i64, from: int) -> int
    decreases chats.len() - from,
{
    if 0 <= from < chats.len() && chats[from].id != chat_id && chats[from].id
        != crate::utils::normalized(chat_id as int) {
        listed_position(chats, chat_id, from + 1)
    } else {
        from
    }
}

pub proof fn lemma_listed_position(chats: Seq<ChatInfo>, chat_id: i64, from: int, stop: int)
    requires
        0 <= from <= stop <= chats.len(),
        forall|k: int|
            from <= k < stop ==> (#[trigger] chats[k]).id != chat_id && chats[k].id
                != crate::utils::normalized(chat_id as int),
        stop < chats.len() ==> chats[stop].id == chat_id || chats[stop].id
            == crate::utils::normalized(chat_id as int),
    ensures
        listed_position(chats, chat_id, from) == stop,
    decreases stop - from,
{
    if from < stop {
        lemma_listed_position(chats, chat_id, from + 1, stop);
    }
}

/// Whether the pane shows the conversation that a message for `chat_id`
/// belongs to.
pub open spec fn shows_chat(pane: ChatPane, chat_id: i64) -> bool {
    pane.chat_id == Some(chat_id) || (pane.chat_id matches Some(id) && id
        == crate::utils::normalized(chat_id as int))
}

/// The positions among the first `upto` panes of those that show the
/// conversation, in their order.
pub open spec fn showing(panes: Seq<ChatPane>, chat_id: i64, upto: int) -> Seq<usize>
    decreases upto,
{
    if upto <= 0 || upto > panes.len() {
        Seq::empty()
    } else if shows_chat(panes[upto - 1], chat_id) {
        showing(panes, chat_id, upto - 1).push((upto - 1) as usize)
    } else {
        showing(panes, chat_id, upto - 1)
    }
}

/// Whether some pane shows the conversation under the very number
/// `chat_id`.
pub open spec fn shown_exactly(panes: Seq<ChatPane>, chat_id: i64) -> bool {
    exists|k: int| 0 <= k < panes.len() && (#[trigger] panes[k]).chat_id == Some(chat_id)
}

/// Whether `k` is one of `places`.
pub open spec fn among(places: Seq<usize>, k: int) -> bool {
    exists|j: int| 0 <= j < places.len() && places[j] == k
}

/// Whether `after` is `before` with the freshly fetched `messages` in it
/// and nothing remembered, where `hit` holds, and `before` itself where
/// not.
pub open spec fn reloaded(before: ChatPane, after: ChatPane, hit: bool, messages: Seq<MessageData>)
    -> bool {
    if hit {
        &&& message_views(after.msg_data@) == message_views(messages)
        &&& after == (ChatPane {
            msg_data: after.msg_data,
            format_cache: FormatCache { entry: None },
            ..before
        })
    } else {
        after == before
    }
}

/// Whether `after` is `before` with the note, made at the instant `now`,
/// that `user_name` is typing, where `hit` holds, and `before` itself
/// where not.
pub open spec fn typing_noted(
    before: ChatPane,
    after: ChatPane,
    hit: bool,
    user_name: Seq<char>,
    now: u64,
) -> bool {
    if hit {
        &&& opt_text(after.typing_user) == Some(user_name)
        &&& after.typing_until == typing_deadline(now)
        &&& after == (ChatPane {
            typing_user: after.typing_user,
            typing_until: after.typing_until,
            ..before
        })
    } else {
        after == before
    }
}

/// The beginning of a message as a note shows it: fifty characters, and
/// three dots where more follow.
pub open spec fn preview_of(text: Seq<char>) -> Seq<char> {
    crate::formatting::excerpt(text, 50)
}

/// The count of unread messages after one more has come in.
pub open spec fn one_more(unread: u32) -> u32 {
    if unread < u32::MAX {
        (unread + 1) as u32
    } else {
        unread
    }
}

impl App {
    /// The row `y` of the list of conversations in `list_area` as a place
    /// in the list, if the row is one of the list's and the list is that
    /// long.
    pub open spec fn row_chat(self, y: u16, list_area: Rect) -> Option<int> {
        let border: int = if self.show_borders {
            1
        } else {
            0
        };
        if y < list_area.y + border || y >= list_area.y + list_area.height - border || y
            - list_area.y - border >= self.chats@.len() {
            None
        } else {
            Some(y - list_area.y - border)
        }
    }

    /// Which conversation a click in row `y` of the list in `list_area`
    /// asks for.
    pub fn handle_chat_list_click(&self, y: u16, list_area: Rect) -> (chosen: Option<usize>)
        ensures
            match chosen {
                Some(at) => self.row_chat(y, list_area) == Some(at as int),
                None => self.row_chat(y, list_area).is_none(),
            },
    {
        let border: u32 = if self.show_borders {
            1
        } else {
            0
        };
        let row: u32 = y as u32;
        let top: u32 = list_area.y as u32 + border;
        let bottom: u32 = list_area.y as u32 + list_area.height as u32;
        if row < top || row + border >= bottom {
            return None;
        }
        let relative: usize = (row - top) as usize;
        if relative < self.chats.len() {
            Some(relative)
        } else {
            None
        }
    }

    /// Opens the conversation at place `chat_index` of the list with its
    /// `messages` in the current pane. The pane takes the conversation's
    /// user name and remembers how many of the messages were unread; the
    /// conversation counts as read; the keys go to the pane where
    /// `take_focus` holds.
    #[verifier::rlimit(40)]
    pub fn open_listed_chat(&mut self, chat_index: usize, messages: Vec<MessageData>, take_focus: bool)
        requires
            chat_index < old(self).chats@.len(),
        ensures
            one_pane_changed(
                old(self).panes@,
                final(self).panes@,
                old(self).focus.focused_pane_idx as int,
            ),
            old(self).focus.focused_pane_idx < old(self).panes@.len() ==> {
                let chat = old(self).chats@[chat_index as int];
                let before = old(self).panes@[old(self).focus.focused_pane_idx as int];
                let after = final(self).panes@[old(self).focus.focused_pane_idx as int];
                &&& after.chat_id == Some(chat.id)
                &&& after.chat_name@ == chat.name@
                &&& opt_text(after.username) == opt_text(chat.username)
                &&& after.msg_data == messages
                &&& after.messages@.len() == 0
                &&& after.unread_count_at_load == chat.unread
                &&& after == (ChatPane {
                    chat_id: after.chat_id,
                    chat_name: after.chat_name,
                    username: after.username,
                    msg_data: after.msg_data,
                    messages: after.messages,
                    unread_count_at_load: after.unread_count_at_load,
                    reply_to_message: None,
                    reply_preview: None,
                    scroll_offset: 0,
                    format_cache: FormatCache { entry: None },
                    ..before
                })
            },
            unread_set(old(self).chats@, final(self).chats@, chat_index as int, 0),
            final(self).focus.focused_pane_idx == old(self).focus.focused_pane_idx,
            final(self).focus.focus_on_chat_list == (old(self).focus.focus_on_chat_list
                && !take_focus),
            *final(self) == (App {
                panes: final(self).panes,
                chats: final(self).chats,
                focus: final(self).focus,
                ..*old(self)
            }),
            old(self).well_formed() ==> final(self).well_formed(),
    {
        let at = self.focus.focused_pane_idx;
        if at < self.panes.len() {
            let name = self.chats[chat_index].name.clone();
            let username = copy_text(&self.chats[chat_index].username);
            let chat_id = self.chats[chat_index].id;
            let unread = self.chats[chat_index].unread;
            self.panes[at].open_chat(chat_id, name, messages);
            self.panes[at].username = username;
            self.panes[at].unread_count_at_load = unread;
        }
        self.chats[chat_index].unread = 0;
        if take_focus {
            self.focus.focus_on_chat_list = false;
        }
        proof {
            if old(self).well_formed() {
                lemma_fresh_pane_keeps_well_formed(*old(self), *self, at as int);
            }
        }
    }

    /// The panes that show the conversation that a message for `chat_id`
    /// belongs to.
    pub fn panes_showing(&self, chat_id: i64) -> (found: Vec<usize>)
        ensures
            found@ == showing(self.panes@, chat_id, self.panes@.len() as int),
    {
        let normalized_id = normalize_chat_id(chat_id);
        let mut found: Vec<usize> = Vec::new();
        let mut i: usize = 0;
        while i < self.panes.len()
            invariant
                i <= self.panes.len(),
                normalized_id == crate::utils::normalized(chat_id as int),
                found@ == showing(self.panes@, chat_id, i as int),
            decreases self.panes.len() - i,
        {
            let shows = match self.panes[i].chat_id {
                Some(id) => id == chat_id || id == normalized_id,
                None => false,
            };
            if shows {
                found.push(i);
            }
            i = i + 1;
        }
        found
    }

    fn shows_exactly(&self, chat_id: i64) -> (yes: bool)
        ensures
            yes == shown_exactly(self.panes@, chat_id),
    {
        let mut i: usize = 0;
        while i < self.panes.len()
            invariant
                i <= self.panes.len(),
                forall|k: int| 0 <= k < i ==> (#[trigger] self.panes@[k]).chat_id != Some(chat_id),
            decreases self.panes.len() - i,
        {
            match self.panes[i].chat_id {
                Some(id) => {
                    if id == chat_id {
                        return true;
                    }
                },
                None => {},
            }
            i = i + 1;
        }
        false
    }

    /// A message with the text `text` has come in for the conversation
    /// `chat_id`. Where panes show the conversation, its messages are to
    /// be fetched anew, unless the message is one of the user's own, which
    /// the pane shows already. Where none does, the conversation on the
    /// list counts one more unread message, the status bar tells of the
    /// message, and the desktop is to be told too if that is switched on
    /// and the message is not the user's own.
    #[verifier::rlimit(40)]
    pub fn on_new_message(&mut self, chat_id: i64, text: &str, is_outgoing: bool) -> (action:
        UpdateAction)
        ensures
            showing(old(self).panes@, chat_id, old(self).panes@.len() as int).len() > 0 ==> {
                &&& *final(self) == *old(self)
                &&& is_outgoing ==> action == UpdateAction::Nothing
                &&& !is_outgoing ==> (action matches UpdateAction::Reload {
                    chat_id: target,
                    panes,
                } && panes@ == showing(old(self).panes@, chat_id, old(self).panes@.len() as int)
                    && target == if shown_exactly(old(self).panes@, chat_id) {
                    chat_id as int
                } else {
                    crate::utils::normalized(chat_id as int)
                })
            },
            showing(old(self).panes@, chat_id, old(self).panes@.len() as int).len() == 0 ==> {
                let at = listed_position(old(self).chats@, chat_id, 0);
                &&& at >= old(self).chats@.len() ==> *final(self) == *old(self) && action
                    == UpdateAction::Nothing
                &&& at < old(self).chats@.len() ==> {
                    let chat = old(self).chats@[at];
                    &&& unread_set(old(self).chats@, final(self).chats@, at, one_more(chat.unread))
                    &&& final(self).says(
                        chat.name@ + ": "@ + preview_of(text@),
                        NOTE_SECONDS,
                    )
                    &&& old(self).show_notifications && !is_outgoing ==> (action
                        matches UpdateAction::NotifyDesktop { title, preview } && title@
                        == chat.name@ && preview@ == preview_of(text@))
                    &&& !(old(self).show_notifications && !is_outgoing) ==> action
                        == UpdateAction::Nothing
                }
            },
            *final(self) == (App {
                chats: final(self).chats,
                status_message: final(self).status_message,
                status_seconds: final(self).status_seconds,
                status_pending: final(self).status_pending,
                ..*old(self)
            }),
            old(self).well_formed() ==> final(self).well_formed(),
    {
        let matching_panes = self.panes_showing(chat_id);
        if matching_panes.len() > 0 {
            if is_outgoing {
                return UpdateAction::Nothing;
            }
            let target = if self.shows_exactly(chat_id) {
                chat_id
            } else {
                normalize_chat_id(chat_id)
            };
            return UpdateAction::Reload { chat_id: target, panes: matching_panes };
        }
        let at = self.find_listed(chat_id);
        if at >= self.chats.len() {
            return UpdateAction::Nothing;
        }
        let text_chars = chars_of(text);
        let preview = excerpt_chars(&text_chars, 50);
        let name = chars_of(self.chats[at].name.as_str());
        let unread = self.chats[at].unread;
        let more: u32 = if unread < u32::MAX {
            unread + 1
        } else {
            unread
        };
        self.set_unread(at, more);
        let mut note = chars_of(self.chats[at].name.as_str());
        append_str(&mut note, ": ");
        append(&mut note, &preview);
        self.note(&note, NOTE_SECONDS);
        if self.show_notifications && !is_outgoing {
            UpdateAction::NotifyDesktop { title: string_of(&name), preview: string_of(&preview) }
        } else {
            UpdateAction::Nothing
        }
    }

    fn find_listed(&self, chat_id: i64) -> (at: usize)
        ensures
            at == listed_position(self.chats@, chat_id, 0),
            at <= self.chats@.len(),
    {
        let normalized_id = normalize_chat_id(chat_id);
        let mut at: usize = 0;
        while at < self.chats.len() && self.chats[at].id != chat_id && self.chats[at].id
            != normalized_id
            invariant
                at <= self.chats.len(),
                normalized_id == crate::utils::normalized(chat_id as int),
                forall|k: int|
                    0 <= k < at ==> (#[trigger] self.chats@[k]).id != chat_id && self.chats@[k].id
                        != normalized_id,
            decreases self.chats.len() - at,
        {
            at = at + 1;
        }
        proof {
            lemma_listed_position(self.chats@, chat_id, 0, at as int);
        }
        at
    }

    fn set_unread(&mut self, at: usize, unread: u32)
        requires
            at < old(self).chats@.len(),
        ensures
            unread_set(old(self).chats@, final(self).chats@, at as int, unread),
            *final(self) == (App { chats: final(self).chats, ..*old(self) }),
    {
        self.chats[at].unread = unread;
    }

    /// Puts the freshly fetched `messages` into each of the panes at
    /// `panes`.
    #[verifier::rlimit(40)]
    pub fn apply_reloaded(&mut self, panes: &Vec<usize>, messages: &Vec<MessageData>)
        ensures
            final(self).panes@.len() == old(self).panes@.len(),
            forall|k: int|
                #![trigger final(self).panes@[k]]
                0 <= k < old(self).panes@.len() ==> reloaded(
                    old(self).panes@[k],
                    final(self).panes@[k],
                    among(panes@, k),
                    messages@,
                ),
            *final(self) == (App { panes: final(self).panes, ..*old(self) }),
            old(self).well_formed() ==> final(self).well_formed(),
    {
        let mut i: usize = 0;
        while i < panes.len()
            invariant
                i <= panes.len(),
                self.panes@.len() == old(self).panes@.len(),
                *self == (App { panes: self.panes, ..*old(self) }),
                old(self).well_formed() ==> self.well_formed(),
                forall|k: int|
                    #![trigger self.panes@[k]]
                    0 <= k < old(self).panes@.len() ==> reloaded(
                        old(self).panes@[k],
                        self.panes@[k],
                        among(panes@.take(i as int), k),
                        messages@,
                    ),
            decreases panes.len() - i,
        {
            let at = panes[i];
            let ghost seen = panes@.take(i as int);
            let ghost now = panes@.take(i + 1);
            let ghost before = *self;
            proof {
                assert(now =~= seen.push(at));
                assert forall|k: int| among(now, k) <==> (among(seen, k) || k == at) by {
                    if among(seen, k) {
                        let j = choose|j: int| 0 <= j < seen.len() && seen[j] == k;
                        assert(now[j] == k);
                    }
                    if among(now, k) {
                        let j = choose|j: int| 0 <= j < now.len() && now[j] == k;
                        if j < seen.len() {
                            assert(seen[j] == k);
                        }
                    }
                    assert(now[i as int] == at);
                }
            }
            if at < self.panes.len() {
                self.reload_pane(at, messages);
                proof {
                    assert forall|k: int|
                        #![trigger self.panes@[k]]
                        0 <= k < old(self).panes@.len() implies reloaded(
                        old(self).panes@[k],
                        self.panes@[k],
                        among(now, k),
                        messages@,
                    ) by {
                        assert(reloaded(
                            old(self).panes@[k],
                            before.panes@[k],
                            among(seen, k),
                            messages@,
                        ));
                    }
                }
            }
            i = i + 1;
        }
        assert(panes@.take(panes@.len() as int) =~= panes@);
    }

    /// Puts a copy of `messages` into the pane at `at`.
    fn reload_pane(&mut self, at: usize, messages: &Vec<MessageData>)
        requires
            at < old(self).panes@.len(),
        ensures
            one_pane_changed(old(self).panes@, final(self).panes@, at as int),
            message_views(final(self).panes@[at as int].msg_data@) == message_views(messages@),
            final(self).panes@[at as int] == (ChatPane {
                msg_data: final(self).panes@[at as int].msg_data,
                format_cache: FormatCache { entry: None },
                ..old(self).panes@[at as int]
            }),
            *final(self) == (App { panes: final(self).panes, ..*old(self) }),
            old(self).well_formed() ==> final(self).well_formed(),
    {
        let copy = copy_messages(messages);
        self.panes[at].set_messages(copy);
        proof {
            if old(self).well_formed() {
                lemma_fresh_pane_keeps_well_formed(*old(self), *self, at as int);
            }
        }
    }

    /// Somebody is typing in the conversation `chat_id` at the instant
    /// `now`, in seconds: every pane that shows the conversation says so.
    pub fn on_user_typing(&mut self, chat_id: i64, user_name: &str, now: u64)
        ensures
            final(self).panes@.len() == old(self).panes@.len(),
            forall|k: int|
                #![trigger final(self).panes@[k]]
                0 <= k < old(self).panes@.len() ==> typing_noted(
                    old(self).panes@[k],
                    final(self).panes@[k],
                    shows_chat(old(self).panes@[k], chat_id),
                    user_name@,
                    now,
                ),
            *final(self) == (App { panes: final(self).panes, ..*old(self) }),
            old(self).well_formed() ==> final(self).well_formed(),
    {
        let normalized_id = normalize_chat_id(chat_id);
        let mut i: usize = 0;
        while i < self.panes.len()
            invariant
                i <= self.panes.len(),
                normalized_id == crate::utils::normalized(chat_id as int),
                self.panes@.len() == old(self).panes@.len(),
                *self == (App { panes: self.panes, ..*old(self) }),
                old(self).well_formed() ==> self.well_formed(),
                forall|k: int|
                    #![trigger self.panes@[k]]
                    0 <= k < i ==> typing_noted(
                        old(self).panes@[k],
                        self.panes@[k],
                        shows_chat(old(self).panes@[k], chat_id),
                        user_name@,
                        now,
                    ),
                forall|k: int|
                    #![trigger self.panes@[k]]
                    i <= k < self.panes@.len() ==> self.panes@[k] == old(self).panes@[k],
            decreases self.panes.len() - i,
        {
            let shows = match self.panes[i].chat_id {
                Some(id) => id == chat_id || id == normalized_id,
                None => false,
            };
            if shows {
                self.note_typing(i, user_name, now);
            }
            i = i + 1;
        }
    }

    /// Notes in the pane at `at` that `user_name` is typing.
    fn note_typing(&mut self, at: usize, user_name: &str, now: u64)
        requires
            at < old(self).panes@.len(),
        ensures
            one_pane_changed(old(self).panes@, final(self).panes@, at as int),
            typing_noted(
                old(self).panes@[at as int],
                final(self).panes@[at as int],
                true,
                user_name@,
                now,
            ),
            *final(self) == (App { panes: final(self).panes, ..*old(self) }),
            old(self).well_formed() ==> final(self).well_formed(),
    {
        self.panes[at].show_typing_indicator(user_name, now);
        proof {
            if old(self).well_formed() {
                assert forall|k: int| 0 <= k < self.panes@.len() implies (#[trigger] self.panes@[k]).cache_sound(
                    self.aliases@,
                ) by {
                    assert(old(self).panes@[k].cache_sound(old(self).aliases@));
                }
            }
        }
    }

    /// Forgets at the instant `now`, in seconds, in every pane who was
    /// typing there, if that was noted long enough ago.
    pub fn expire_typing(&mut self, now: u64)
        ensures
            final(self).panes@.len() == old(self).panes@.len(),
            forall|k: int|
                #![trigger final(self).panes@[k]]
                0 <= k < old(self).panes@.len() ==> typing_checked(
                    old(self).panes@[k],
                    final(self).panes@[k],
                    now,
                ),
            *final(self) == (App { panes: final(self).panes, ..*old(self) }),
            old(self).well_formed() ==> final(self).well_formed(),
    {
        let mut i: usize = 0;
        while i < self.panes.len()
            invariant
                i <= self.panes.len(),
                self.panes@.len() == old(self).panes@.len(),
                *self == (App { panes: self.panes, ..*old(self) }),
                old(self).well_formed() ==> self.well_formed(),
                forall|k: int|
                    #![trigger self.panes@[k]]
                    0 <= k < i ==> typing_checked(old(self).panes@[k], self.panes@[k], now),
                forall|k: int|
                    #![trigger self.panes@[k]]
                    i <= k < self.panes@.len() ==> self.panes@[k] == old(self).panes@[k],
            decreases self.panes.len() - i,
        {
            self.check_typing(i, now);
            i = i + 1;
        }
    }

    fn check_typing(&mut self, at: usize, now: u64)
        requires
            at < old(self).panes@.len(),
        ensures
            one_pane_changed(old(self).panes@, final(self).panes@, at as int),
            typing_checked(old(self).panes@[at as int], final(self).panes@[at as int], now),
            *final(self) == (App { panes: final(self).panes, ..*old(self) }),
            old(self).well_formed() ==> final(self).well_formed(),
    {
        self.panes[at].check_typing_expired(now);
        proof {
            if old(self).well_formed() {
                assert forall|k: int| 0 <= k < self.panes@.len() implies (#[trigger] self.panes@[k]).cache_sound(
                    self.aliases@,
                ) by {
                    assert(old(self).panes@[k].cache_sound(old(self).aliases@));
                }
            }
        }
    }
}

/// Whether `after` is `before` with the note of who is typing taken away
/// if its time has passed at the instant `now`.
pub open spec fn typing_checked(before: ChatPane, after: ChatPane, now: u64) -> bool {
    after == (ChatPane {
        typing_user: if now >= before.typing_until {
            None
        } else {
            before.typing_user
        },
        ..before
    })
}

/// The first `max` characters of `s`, with three dots behind them where
/// more follow.
pub fn excerpt_chars(s: &Vec<char>, max: usize) -> (out: Vec<char>)
    ensures
        out@ == crate::formatting::excerpt(s@, max as int),
{
    if s.len() > max {
        let mut out = slice(s, 0, max);
        append_str(&mut out, "...");
        assert(s@.take(max as int) =~= s@.subrange(0, max as int));
        out
    } else {
        let mut out: Vec<char> = Vec::new();
        append(&mut out, s);
        assert(out@ =~= s@);
        out
    }
}

impl App {
    /// Whether the pane at `pane_idx` shows a conversation of which it has
    /// no messages yet, so that they are to be fetched.
    pub open spec fn needs_messages(self, pane_idx: int) -> bool {
        &&& 0 <= pane_idx < self.panes@.len()
        &&& self.panes@[pane_idx].chat_id.is_some()
        &&& self.panes@[pane_idx].msg_data@.len() == 0
    }

    /// Whether the messages of the pane at `pane_idx` are to be fetched.
    pub fn pane_needs_messages(&self, pane_idx: usize) -> (needed: bool)
        ensures
            needed == self.needs_messages(pane_idx as int),
    {
        pane_idx < self.panes.len() && self.panes[pane_idx].chat_id.is_some()
            && self.panes[pane_idx].msg_data.len() == 0
    }

    /// What the giving up of an answer makes of `self`: the current pane
    /// answers no message any more and shows no preview of one. A pane in
    /// which no answer was begun stays as it is, and so do the others.
    pub open spec fn reply_given_up(self, after: App) -> bool {
        let at = self.focus.focused_pane_idx as int;
        &&& one_pane_changed(self.panes@, after.panes@, at)
        &&& at < self.panes@.len() ==> after.panes@[at] == if self.panes@[at].reply_to_message.is_some() {
            (ChatPane { reply_to_message: None, reply_preview: None, ..self.panes@[at] })
        } else {
            self.panes@[at]
        }
        &&& after == (App { panes: after.panes, ..self })
    }

    /// Gives up the answer that was begun in the current pane.
    pub fn cancel_reply(&mut self)
        ensures
            old(self).reply_given_up(*final(self)),
            old(self).well_formed() ==> final(self).well_formed(),
    {
        let at = self.focus.focused_pane_idx;
        if at < self.panes.len() && self.panes[at].reply_to_message.is_some() {
            self.panes[at].reply_to_message = None;
            self.panes[at].hide_reply_preview();
        }
        proof {
            if old(self).well_formed() {
                assert forall|k: int| 0 <= k < self.panes@.len() implies (
                #[trigger] self.panes@[k]).cache_sound(self.aliases@) by {
                    assert(old(self).panes@[k].cache_sound(old(self).aliases@));
                }
            }
        }
    }
}

} // verus!
