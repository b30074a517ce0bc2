use vstd::prelude::*;
use crate::aliases::Aliases;
use crate::format_cache::{CacheKey, DisplayOptions, FormatCache};
use crate::formatting::{format_messages_for_display, formatted, ConfigView, FormatConfig};
use crate::message::{
    copy_lines, line_views, message_views, opt_text, DisplayLine, FilterType, LineView,
    MessageData,
};
use crate::text::{append, append_str, chars_of, string_of};

verus! {

/// How many lines one press of a paging key moves a pane's view.
pub const SCROLL_STEP: usize = 5;

/// For how many seconds a pane says that somebody is typing.
pub const TYPING_SECONDS: u64 = 5;

/// The instant, in seconds, until which a note that somebody is typing,
/// made at the instant `now`, is kept: `TYPING_SECONDS` later, or the last
/// instant there is.
pub open spec fn typing_deadline(now: u64) -> u64 {
    if now <= u64::MAX - TYPING_SECONDS {
        (now + TYPING_SECONDS) as u64
    } else {
        u64::MAX
    }
}

/// The state of one pane: the conversation it shows, the messages and the
/// status lines, where its view stands, what is being typed, its filter,
/// and the memory of its formatted lines.
#[derive(Debug, PartialEq, Eq)]
pub struct ChatPane {
    pub chat_id: Option<i64>,
    pub chat_name: String,
    pub username: Option<String>,
    pub msg_data: Vec<MessageData>,
    pub messages: Vec<String>,
    pub scroll_offset: usize,
    pub input_buffer: Vec<char>,
    pub input_cursor: usize,
    pub filter_type: Option<FilterType>,
    pub filter_value: Option<String>,
    pub format_cache: FormatCache,
    pub reply_to_message: Option<i32>,
    pub reply_preview: Option<String>,
    pub unread_count_at_load: u32,
    pub typing_user: Option<String>,
    pub typing_until: u64,
}

impl ChatPane {
    /// What the pane's lines are made with at `width` and with `options`.
    pub open spec fn key(self, width: usize, options: DisplayOptions) -> CacheKey {
        CacheKey {
            width,
            options,
            unread_count: self.unread_count_at_load,
            message_count: self.msg_data.len(),
        }
    }

    /// The configuration that stands behind `key` for this pane and these
    /// aliases.
    pub open spec fn config(self, key: CacheKey, aliases: Map<i64, Seq<char>>) -> ConfigView {
        ConfigView {
            width: key.width as nat,
            compact: key.options.compact,
            show_emojis: key.options.show_emojis,
            show_reactions: key.options.show_reactions,
            show_timestamps: key.options.show_timestamps,
            show_line_numbers: key.options.show_line_numbers,
            filter_type: self.filter_type,
            filter_value: opt_text(self.filter_value),
            unread_count: key.unread_count as nat,
            aliases,
            now: key.options.now,
            utc_offset: key.options.utc_offset,
        }
    }

    /// The lines that the pane shows of its messages at `width` and with
    /// `options`.
    pub open spec fn lines(
        self,
        width: usize,
        options: DisplayOptions,
        aliases: Map<i64, Seq<char>>,
    ) -> Seq<LineView> {
        formatted(message_views(self.msg_data@), self.config(self.key(width, options), aliases))
    }

    /// What the memory holds is what formatting would give: the lines of
    /// the pane's messages as they are now, under the pane's filter as it
    /// is now, with the aliases as they are now.
    pub open spec fn cache_sound(self, aliases: Map<i64, Seq<char>>) -> bool {
        self.format_cache.entry matches Some(entry) ==> {
            &&& entry.key.message_count == self.msg_data.len()
            &&& entry.key.unread_count == self.unread_count_at_load
            &&& line_views(entry.lines@) == formatted(
                message_views(self.msg_data@),
                self.config(entry.key, aliases),
            )
        }
    }

    /// The pane with the filter set and the memory emptied.
    pub open spec fn with_filter(self, kind: Option<FilterType>, value: Option<String>) -> ChatPane {
        ChatPane {
            filter_type: kind,
            filter_value: value,
            format_cache: FormatCache { entry: None },
            ..self
        }
    }

    /// Whether the pane is as a new one: without conversation, messages,
    /// input, filter or anything remembered.
    pub open spec fn is_blank(self) -> bool {
        &&& self.chat_id.is_none()
        &&& self.chat_name@.len() == 0
        &&& self.username.is_none()
        &&& self.msg_data@.len() == 0
        &&& self.messages@.len() == 0
        &&& self.scroll_offset == 0
        &&& self.input_buffer@.len() == 0
        &&& self.input_cursor == 0
        &&& self.filter_type.is_none()
        &&& self.filter_value.is_none()
        &&& self.format_cache.entry.is_none()
        &&& self.reply_to_message.is_none()
        &&& self.reply_preview.is_none()
        &&& self.unread_count_at_load == 0
        &&& self.typing_user.is_none()
    }

    /// A pane that shows no conversation.
    pub fn new() -> (pane: ChatPane)
        ensures
            pane.is_blank(),
    {
        ChatPane {
            chat_id: None,
            chat_name: String::new(),
            username: None,
            msg_data: Vec::new(),
            messages: Vec::new(),
            scroll_offset: 0,
            input_buffer: Vec::new(),
            input_cursor: 0,
            filter_type: None,
            filter_value: None,
            format_cache: FormatCache::new(),
            reply_to_message: None,
            reply_preview: None,
            unread_count_at_load: 0,
            typing_user: None,
            typing_until: 0,
        }
    }

    /// Appends a status line.
    pub fn add_message(&mut self, line: String)
        ensures
            final(self).messages@ == old(self).messages@.push(line),
            *final(self) == (ChatPane { messages: final(self).messages, ..*old(self) }),
    {
        self.messages.push(line);
    }

    /// Empties the pane: its messages, its status lines and the memory of
    /// its lines go; the view returns to the newest line.
    pub fn clear(&mut self)
        ensures
            final(self).msg_data@.len() == 0,
            final(self).messages@.len() == 0,
            final(self).scroll_offset == 0,
            final(self).format_cache.entry.is_none(),
            *final(self) == (ChatPane {
                msg_data: final(self).msg_data,
                messages: final(self).messages,
                scroll_offset: 0,
                format_cache: final(self).format_cache,
                ..*old(self)
            }),
    {
        self.msg_data.clear();
        self.messages.clear();
        self.scroll_offset = 0;
        self.format_cache.clear();
    }

    /// Moves the view one step towards the oldest line.
    pub fn scroll_up(&mut self)
        ensures
            final(self).scroll_offset == if old(self).scroll_offset >= SCROLL_STEP {
                old(self).scroll_offset - SCROLL_STEP
            } else {
                0
            },
            *final(self) == (ChatPane { scroll_offset: final(self).scroll_offset, ..*old(self) }),
    {
        self.scroll_offset = if self.scroll_offset >= SCROLL_STEP {
            self.scroll_offset - SCROLL_STEP
        } else {
            0
        };
    }

    /// Moves the view one step towards the newest line.
    pub fn scroll_down(&mut self)
        ensures
            final(self).scroll_offset == if old(self).scroll_offset <= usize::MAX - SCROLL_STEP {
                old(self).scroll_offset + SCROLL_STEP
            } else {
                usize::MAX as int
            },
            *final(self) == (ChatPane { scroll_offset: final(self).scroll_offset, ..*old(self) }),
    {
        self.scroll_offset = if self.scroll_offset <= usize::MAX - SCROLL_STEP {
            self.scroll_offset + SCROLL_STEP
        } else {
            usize::MAX
        };
    }

    /// Shows `preview` as what the next message will answer.
    pub fn show_reply_preview(&mut self, preview: String)
        ensures
            *final(self) == (ChatPane { reply_preview: Some(preview), ..*old(self) }),
    {
        self.reply_preview = Some(preview);
    }

    /// Takes the preview of the answered message away.
    pub fn hide_reply_preview(&mut self)
        ensures
            *final(self) == (ChatPane { reply_preview: None, ..*old(self) }),
    {
        self.reply_preview = None;
    }

    /// Notes at the instant `now`, in seconds, that `user_name` is typing.
    pub fn show_typing_indicator(&mut self, user_name: &str, now: u64)
        ensures
            opt_text(final(self).typing_user) == Some(user_name@),
            final(self).typing_until == typing_deadline(now),
            *final(self) == (ChatPane {
                typing_user: final(self).typing_user,
                typing_until: final(self).typing_until,
                ..*old(self)
            }),
    {
        let chars = chars_of(user_name);
        self.typing_user = Some(string_of(&chars));
        self.typing_until = if now <= u64::MAX - TYPING_SECONDS {
            now + TYPING_SECONDS
        } else {
            u64::MAX
        };
    }

    /// Forgets at the instant `now`, in seconds, who was typing, if that
    /// was noted long enough ago.
    pub fn check_typing_expired(&mut self, now: u64)
        ensures
            *final(self) == (ChatPane {
                typing_user: if now >= old(self).typing_until {
                    None
                } else {
                    old(self).typing_user
                },
                ..*old(self)
            }),
    {
        if now >= self.typing_until {
            self.typing_user = None;
        }
    }

    /// Puts `messages` in place of the pane's messages.
    pub fn set_messages(&mut self, messages: Vec<MessageData>)
        ensures
            *final(self) == (ChatPane {
                msg_data: messages,
                format_cache: FormatCache { entry: None },
                ..*old(self)
            }),
    {
        self.msg_data = messages;
        self.format_cache.clear();
    }

    /// Appends a message.
    pub fn push_message(&mut self, message: MessageData)
        ensures
            final(self).msg_data@ == old(self).msg_data@.push(message),
            *final(self) == (ChatPane {
                msg_data: final(self).msg_data,
                format_cache: FormatCache { entry: None },
                ..*old(self)
            }),
    {
        self.msg_data.push(message);
        self.format_cache.clear();
    }

    /// Sets the filter, or takes it away.
    pub fn set_filter(&mut self, kind: Option<FilterType>, value: Option<String>)
        ensures
            *final(self) == old(self).with_filter(kind, value),
    {
        self.filter_type = kind;
        self.filter_value = value;
        self.format_cache.clear();
    }

    /// The lines that the pane shows of its messages at `width` and with
    /// `options`: out of the memory where that holds them, else made anew
    /// and kept.
    pub fn display_lines(&mut self, width: usize, options: DisplayOptions, aliases: &Aliases) -> (lines:
        Vec<DisplayLine>)
        requires
            old(self).cache_sound(aliases@),
        ensures
            line_views(lines@) == old(self).lines(width, options, aliases@),
            final(self).cache_sound(aliases@),
            final(self).format_cache.holds(old(self).key(width, options)),
            *final(self) == (ChatPane { format_cache: final(self).format_cache, ..*old(self) }),
    {
        let key = CacheKey {
            width,
            options,
            unread_count: self.unread_count_at_load,
            message_count: self.msg_data.len(),
        };
        match self.format_cache.lookup(key) {
            Some(lines) => lines,
            None => {
                let config = FormatConfig {
                    width,
                    compact: options.compact,
                    show_emojis: options.show_emojis,
                    show_reactions: options.show_reactions,
                    show_timestamps: options.show_timestamps,
                    show_line_numbers: options.show_line_numbers,
                    filter_type: self.filter_type,
                    filter_value: match &self.filter_value {
                        Some(value) => Some(value.as_str()),
                        None => None,
                    },
                    unread_count: self.unread_count_at_load,
                    aliases,
                    now: options.now,
                    utc_offset: options.utc_offset,
                };
                assert(config@ == self.config(key, aliases@));
                let lines = format_messages_for_display(&self.msg_data, &config);
                let kept = copy_lines(&lines);
                self.format_cache.store(key, kept);
                lines
            },
        }
    }

    /// The heading of the pane: the name of the conversation, the user name
    /// behind it where one is known, and who is typing.
    pub open spec fn heading(self) -> Seq<char> {
        (if self.chat_id.is_some() {
            self.chat_name@
        } else {
            "No chat selected"@
        }) + (match self.username {
            Some(name) => seq![' '] + name@,
            None => Seq::empty(),
        }) + (match self.typing_user {
            Some(name) => " ("@ + name@ + " is typing...)"@,
            None => Seq::empty(),
        })
    }

    /// The heading of the pane.
    pub fn header_text(&self) -> (text: String)
        ensures
            text@ == self.heading(),
    {
        let mut out: Vec<char> = Vec::new();
        if self.chat_id.is_some() {
            append_str(&mut out, self.chat_name.as_str());
        } else {
            append_str(&mut out, "No chat selected");
        }
        let ghost named = out@;
        match &self.username {
            Some(name) => {
                out.push(' ');
                append_str(&mut out, name.as_str());
            },
            None => {},
        }
        let ghost tagged = out@;
        match &self.typing_user {
            Some(name) => {
                append_str(&mut out, " (");
                append_str(&mut out, name.as_str());
                append_str(&mut out, " is typing...)");
            },
            None => {},
        }
        proof {
            assert(tagged =~= named + (match self.username {
                Some(name) => seq![' '] + name@,
                None => Seq::empty(),
            }));
            assert(out@ =~= tagged + (match self.typing_user {
                Some(name) => " ("@ + name@ + " is typing...)"@,
                None => Seq::empty(),
            }));
        }
        string_of(&out)
    }
}

impl ChatPane {
    /// Where the cursor stands in the input: at its place, or at the end
    /// where its place lies beyond.
    pub open spec fn cursor(self) -> int {
        if self.input_cursor <= self.input_buffer@.len() {
            self.input_cursor as int
        } else {
            self.input_buffer@.len() as int
        }
    }

    /// Whether `after` differs from this pane in its input alone.
    pub open spec fn edited_to(self, after: ChatPane) -> bool {
        after == (ChatPane {
            input_buffer: after.input_buffer,
            input_cursor: after.input_cursor,
            ..self
        })
    }

    fn clamp_cursor(&self) -> (at: usize)
        ensures
            at == self.cursor(),
    {
        if self.input_cursor <= self.input_buffer.len() {
            self.input_cursor
        } else {
            self.input_buffer.len()
        }
    }

    /// Types `c` at the cursor.
    pub fn insert_char(&mut self, c: char)
        ensures
            old(self).edited_to(*final(self)),
            final(self).input_buffer@ == old(self).input_buffer@.insert(old(self).cursor(), c),
            final(self).input_cursor == old(self).cursor() + 1,
    {
        let at = self.clamp_cursor();
        self.input_buffer.insert(at, c);
        let longer = self.input_buffer.len();
        assert(at < longer);
        self.input_cursor = at + 1;
    }

    /// Takes out the character before the cursor.
    pub fn backspace(&mut self)
        ensures
            old(self).edited_to(*final(self)),
            old(self).cursor() > 0 ==> final(self).input_buffer@ == old(self).input_buffer@.remove(
                old(self).cursor() - 1,
            ) && final(self).input_cursor == old(self).cursor() - 1,
            old(self).cursor() == 0 ==> final(self).input_buffer@ == old(self).input_buffer@
                && final(self).input_cursor == 0,
    {
        let at = self.clamp_cursor();
        if at > 0 {
            let _ = self.input_buffer.remove(at - 1);
            self.input_cursor = at - 1;
        } else {
            self.input_cursor = 0;
        }
    }

    /// Takes out the character at the cursor.
    pub fn delete_char(&mut self)
        ensures
            old(self).edited_to(*final(self)),
            final(self).input_cursor == old(self).input_cursor,
            old(self).input_cursor < old(self).input_buffer@.len() ==> final(self).input_buffer@
                == old(self).input_buffer@.remove(old(self).input_cursor as int),
            old(self).input_cursor >= old(self).input_buffer@.len() ==> final(self).input_buffer@
                == old(self).input_buffer@,
    {
        if self.input_cursor < self.input_buffer.len() {
            let _ = self.input_buffer.remove(self.input_cursor);
        }
    }

    /// Moves the cursor one character to the left.
    pub fn cursor_left(&mut self)
        ensures
            old(self).edited_to(*final(self)),
            final(self).input_buffer@ == old(self).input_buffer@,
            final(self).input_cursor == if old(self).cursor() > 0 {
                old(self).cursor() - 1
            } else {
                0
            },
    {
        let at = self.clamp_cursor();
        self.input_cursor = if at > 0 {
            at - 1
        } else {
            0
        };
    }

    /// Moves the cursor one character to the right.
    pub fn cursor_right(&mut self)
        ensures
            old(self).edited_to(*final(self)),
            final(self).input_buffer@ == old(self).input_buffer@,
            final(self).input_cursor == if old(self).cursor() < old(self).input_buffer@.len() {
                old(self).cursor() + 1
            } else {
                old(self).cursor()
            },
    {
        let at = self.clamp_cursor();
        self.input_cursor = if at < self.input_buffer.len() {
            at + 1
        } else {
            at
        };
    }

    /// Moves the cursor before the first character.
    pub fn cursor_home(&mut self)
        ensures
            old(self).edited_to(*final(self)),
            final(self).input_buffer@ == old(self).input_buffer@,
            final(self).input_cursor == 0,
    {
        self.input_cursor = 0;
    }

    /// Moves the cursor behind the last character.
    pub fn cursor_end(&mut self)
        ensures
            old(self).edited_to(*final(self)),
            final(self).input_buffer@ == old(self).input_buffer@,
            final(self).input_cursor == old(self).input_buffer@.len(),
    {
        self.input_cursor = self.input_buffer.len();
    }

    /// Puts `text` in place of the input, the cursor behind it.
    pub fn set_input(&mut self, text: &Vec<char>)
        ensures
            old(self).edited_to(*final(self)),
            final(self).input_buffer@ == text@,
            final(self).input_cursor == text@.len(),
    {
        let mut copy: Vec<char> = Vec::new();
        append(&mut copy, text);
        self.input_cursor = copy.len();
        self.input_buffer = copy;
    }

    /// Empties the input.
    pub fn clear_input(&mut self)
        ensures
            old(self).edited_to(*final(self)),
            final(self).input_buffer@.len() == 0,
            final(self).input_cursor == 0,
    {
        self.input_buffer.clear();
        self.input_cursor = 0;
    }

    /// The input as it is shown while the pane has the keys: with a block
    /// where the cursor stands.
    pub open spec fn input_shown(self) -> Seq<char> {
        self.input_buffer@.insert(self.cursor(), '\u{2588}')
    }

    /// The input with a block where the cursor stands.
    pub fn input_with_cursor(&self) -> (text: String)
        ensures
            text@ == self.input_shown(),
    {
        let at = self.clamp_cursor();
        let mut copy: Vec<char> = Vec::new();
        append(&mut copy, &self.input_buffer);
        copy.insert(at, '\u{2588}');
        string_of(&copy)
    }
}

impl ChatPane {
    /// Whether the pane shows the conversation `chat_id` under the name
    /// `chat_name` with `messages`, freshly opened: no status lines, no
    /// reply begun, the view on the newest line, nothing remembered; and is
    /// otherwise as `before`.
    pub open spec fn opened_from(
        self,
        before: ChatPane,
        chat_id: i64,
        chat_name: String,
        messages: Vec<MessageData>,
    ) -> bool {
        &&& self.messages@.len() == 0
        &&& self == (ChatPane {
            chat_id: Some(chat_id),
            chat_name,
            msg_data: messages,
            messages: self.messages,
            reply_to_message: None,
            reply_preview: None,
            scroll_offset: 0,
            format_cache: FormatCache { entry: None },
            ..before
        })
    }

    /// Whether the pane is `before` after the user `my_user_id` has sent
    /// off `text` at the instant `now`: the text stands as the last
    /// message, not yet confirmed, an answer where one was begun; nothing
    /// is remembered, no answer is begun any more, and the input is empty.
    pub open spec fn echoed_from(self, before: ChatPane, my_user_id: i64, text: Seq<char>, now: i64)
        -> bool {
        &&& self.msg_data@.len() == before.msg_data@.len() + 1
        &&& self.msg_data@.drop_last() == before.msg_data@
        &&& self.msg_data@.last().is_echo(my_user_id, text, before.reply_to_message, now)
        &&& self.input_buffer@.len() == 0
        &&& self == (ChatPane {
            msg_data: self.msg_data,
            format_cache: FormatCache { entry: None },
            reply_to_message: None,
            reply_preview: None,
            input_buffer: self.input_buffer,
            input_cursor: 0,
            ..before
        })
    }

    /// Opens the conversation `chat_id` in the pane.
    pub fn open_chat(&mut self, chat_id: i64, chat_name: String, messages: Vec<MessageData>)
        ensures
            final(self).opened_from(*old(self), chat_id, chat_name, messages),
    {
        self.chat_id = Some(chat_id);
        self.chat_name = chat_name;
        self.msg_data = messages;
        self.messages.clear();
        self.reply_to_message = None;
        self.reply_preview = None;
        self.scroll_offset = 0;
        self.format_cache.clear();
    }
}

} // verus!
