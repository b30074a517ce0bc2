use vstd::prelude::*;
use crate::aliases::Aliases;
use crate::message::{
    line_views, message_views, DisplayLine, FilterType, LineStyle, LineView, MessageData,
    MessageView, Reaction, ReactionView,
};
use crate::text::{
    append, append_str, chars_of, contains, decimal, digits, has_infix, same,
    signed_decimal, signed_digits, slice, split_words, string_of, texts, words,
};
use crate::utils::{format_message_time, message_time};
use crate::wrap::{wrap, wrap_lines};

verus! {

/// What `str::to_lowercase` of the standard library makes of a text.
pub uninterp spec fn lowercase(s: Seq<char>) -> Seq<char>;

/// `str::to_lowercase` of the standard library returns the lowercase
/// equivalent of the text as a new string. The result depends on the text
/// alone; it is given the name `lowercase` here.
pub assume_specification[ str::to_lowercase ](s: &str) -> (lower: String)
    ensures
        lower@ == lowercase(s@),
;

/// Whether `c` belongs to one of the blocks of code points in which emoji
/// and the marks that join or vary them lie.
pub open spec fn is_emoji(c: char) -> bool {
    let n = c as u32;
    ||| 0x1F000 <= n <= 0x1FAFF
    ||| 0x2600 <= n <= 0x27BF
    ||| 0x2300 <= n <= 0x23FF
    ||| 0x2B00 <= n <= 0x2BFF
    ||| 0xFE00 <= n <= 0xFE0F
    ||| n == 0x200D
    ||| n == 0x20E3
}

/// Whether `c` is an emoji or a mark that joins or varies emoji.
pub fn emoji(c: char) -> (yes: bool)
    ensures
        yes == is_emoji(c),
{
    let n: u32 = c as u32;
    (0x1F000 <= n && n <= 0x1FAFF) || (0x2600 <= n && n <= 0x27BF) || (0x2300 <= n && n <= 0x23FF)
        || (0x2B00 <= n && n <= 0x2BFF) || (0xFE00 <= n && n <= 0xFE0F) || n == 0x200D || n
        == 0x20E3
}

/// `s` without its emoji.
pub open spec fn without_emoji(s: Seq<char>) -> Seq<char>
    decreases s.len(),
{
    if s.len() == 0 {
        Seq::empty()
    } else if is_emoji(s.last()) {
        without_emoji(s.drop_last())
    } else {
        without_emoji(s.drop_last()).push(s.last())
    }
}

/// `s` as it is shown: as it is, or without its emoji.
pub open spec fn shown(s: Seq<char>, show_emojis: bool) -> Seq<char> {
    if show_emojis {
        s
    } else {
        without_emoji(s)
    }
}

/// `s` as it is shown: as it is, or without its emoji.
pub fn show(s: &Vec<char>, show_emojis: bool) -> (out: Vec<char>)
    ensures
        out@ == shown(s@, show_emojis),
{
    let mut out: Vec<char> = Vec::new();
    let mut i: usize = 0;
    while i < s.len()
        invariant
            i <= s.len(),
            out@ == shown(s@.take(i as int), show_emojis),
        decreases s.len() - i,
    {
        let ghost now = s@.take(i + 1);
        assert(now.drop_last() =~= s@.take(i as int));
        if show_emojis || !emoji(s[i]) {
            out.push(s[i]);
        }
        assert(out@ =~= shown(now, show_emojis));
        i = i + 1;
    }
    assert(s@.take(s@.len() as int) =~= s@);
    out
}

/// How many characters stand in `s` from position `from` on before the
/// next line feed.
pub open spec fn first_line_len(s: Seq<char>, from: int) -> int
    decreases s.len() - from,
{
    if 0 <= from < s.len() && s[from] != '\n' {
        1 + first_line_len(s, from + 1)
    } else {
        0
    }
}

/// The first line of `s`: what stands before the first line feed.
pub open spec fn first_line(s: Seq<char>) -> Seq<char> {
    s.take(first_line_len(s, 0))
}

pub proof fn lemma_first_line_len(s: Seq<char>, from: int, stop: int)
    requires
        0 <= from <= stop <= s.len(),
        forall|k: int| from <= k < stop ==> s[k] != '\n',
        stop < s.len() ==> s[stop] == '\n',
    ensures
        first_line_len(s, from) == stop - from,
    decreases stop - from,
{
    if from < stop {
        lemma_first_line_len(s, from + 1, stop);
    }
}

/// `s` cut down to `max` characters, with three dots behind them where
/// something was cut off.
pub open spec fn excerpt(s: Seq<char>, max: int) -> Seq<char> {
    if s.len() > max {
        s.take(max) + "..."@
    } else {
        s
    }
}

/// The first line of `s`, cut down to `max` characters.
pub fn excerpt_of_first_line(s: &Vec<char>, max: usize) -> (out: Vec<char>)
    ensures
        out@ == excerpt(first_line(s@), max as int),
{
    let mut end: usize = 0;
    while end < s.len() && s[end] != '\n'
        invariant
            end <= s.len(),
            forall|k: int| 0 <= k < end ==> s@[k] != '\n',
        decreases s.len() - end,
    {
        end = end + 1;
    }
    proof {
        lemma_first_line_len(s@, 0, end as int);
        assert(s@.take(end as int) =~= s@.subrange(0, end as int));
    }
    if end > max {
        let mut out = slice(s, 0, max);
        append_str(&mut out, "...");
        assert(s@.take(end as int).take(max as int) =~= s@.subrange(0, max as int));
        out
    } else {
        slice(s, 0, end)
    }
}

/// The reactions to a message in one bracket: each emoji with its count
/// right behind it, a blank between each two.
pub open spec fn reaction_items(reactions: Seq<ReactionView>) -> Seq<char>
    decreases reactions.len(),
{
    if reactions.len() == 0 {
        Seq::empty()
    } else {
        reaction_items(reactions.drop_last()) + (if reactions.len() > 1 {
            seq![' ']
        } else {
            Seq::empty()
        }) + reactions.last().emoji + digits(reactions.last().count as nat)
    }
}

/// The reactions to a message, in square brackets.
pub open spec fn reaction_summary(reactions: Seq<ReactionView>) -> Seq<char> {
    seq!['['] + reaction_items(reactions) + seq![']']
}

/// The reactions to a message, in square brackets.
pub fn summarize_reactions(reactions: &Vec<Reaction>) -> (out: Vec<char>)
    ensures
        out@ == reaction_summary(crate::message::reaction_views(reactions@)),
{
    let ghost all = crate::message::reaction_views(reactions@);
    let mut items: Vec<char> = Vec::new();
    let mut i: usize = 0;
    while i < reactions.len()
        invariant
            i <= reactions.len(),
            all == crate::message::reaction_views(reactions@),
            items@ == reaction_items(all.take(i as int)),
        decreases reactions.len() - i,
    {
        let ghost now = all.take(i + 1);
        let ghost before = items@;
        assert(now.drop_last() =~= all.take(i as int));
        assert(now.last() == reactions@[i as int]@);
        if i > 0 {
            items.push(' ');
        }
        append_str(&mut items, reactions[i].emoji.as_str());
        let count = decimal(reactions[i].count as u64);
        append(&mut items, &count);
        assert(items@ =~= before + (if now.len() > 1 {
            seq![' ']
        } else {
            Seq::empty()
        }) + now.last().emoji + digits(now.last().count as nat));
        i = i + 1;
    }
    assert(all.take(all.len() as int) =~= all);
    let mut out: Vec<char> = Vec::new();
    out.push('[');
    append(&mut out, &items);
    out.push(']');
    assert(out@ =~= reaction_summary(all));
    out
}

/// Whether the text holds something that looks like a link.
pub open spec fn has_link(text: Seq<char>) -> bool {
    has_infix(text, "http://"@) || has_infix(text, "https://"@) || has_infix(text, "www."@)
}

/// Whether the text holds something that looks like a link.
pub fn holds_link(text: &Vec<char>) -> (yes: bool)
    ensures
        yes == has_link(text@),
{
    let plain = chars_of("http://");
    let secure = chars_of("https://");
    let web = chars_of("www.");
    contains(text, &plain) || contains(text, &secure) || contains(text, &web)
}

/// Whether `needle` stands in `hay` when neither capitals nor small
/// letters are told apart.
pub open spec fn has_infix_folded(hay: Seq<char>, needle: Seq<char>) -> bool {
    has_infix(lowercase(hay), lowercase(needle))
}

/// Whether `needle` stands in `hay` when neither capitals nor small
/// letters are told apart.
pub fn contains_folded(hay: &str, needle: &str) -> (yes: bool)
    ensures
        yes == has_infix_folded(hay@, needle@),
{
    let hay_lower = hay.to_lowercase();
    let needle_lower = needle.to_lowercase();
    let hay_chars = chars_of(hay_lower.as_str());
    let needle_chars = chars_of(needle_lower.as_str());
    contains(&hay_chars, &needle_chars)
}

/// What the lines of a pane are made with: the width that a line may
/// have, the switches of the display, the pane's filter, how many of the
/// messages were unread when the conversation was opened, and the aliases.
pub struct FormatConfig<'a> {
    pub width: usize,
    pub compact: bool,
    pub show_emojis: bool,
    pub show_reactions: bool,
    pub show_timestamps: bool,
    pub show_line_numbers: bool,
    pub filter_type: Option<FilterType>,
    pub filter_value: Option<&'a str>,
    pub unread_count: u32,
    pub aliases: &'a Aliases,
    pub now: i64,
    pub utc_offset: i32,
}

pub struct ConfigView {
    pub width: nat,
    pub compact: bool,
    pub show_emojis: bool,
    pub show_reactions: bool,
    pub show_timestamps: bool,
    pub show_line_numbers: bool,
    pub filter_type: Option<FilterType>,
    pub filter_value: Option<Seq<char>>,
    pub unread_count: nat,
    pub aliases: Map<i64, Seq<char>>,
    pub now: i64,
    pub utc_offset: i32,
}

impl<'a> View for FormatConfig<'a> {
    type V = ConfigView;

    open spec fn view(&self) -> ConfigView {
        ConfigView {
            width: self.width as nat,
            compact: self.compact,
            show_emojis: self.show_emojis,
            show_reactions: self.show_reactions,
            show_timestamps: self.show_timestamps,
            show_line_numbers: self.show_line_numbers,
            filter_type: self.filter_type,
            filter_value: match self.filter_value {
                Some(v) => Some(v@),
                None => None,
            },
            unread_count: self.unread_count as nat,
            aliases: self.aliases@,
            now: self.now,
            utc_offset: self.utc_offset,
        }
    }
}

impl ConfigView {
    /// The same configuration without a filter.
    pub open spec fn unfiltered(self) -> ConfigView {
        ConfigView { filter_type: None, filter_value: None, ..self }
    }

    /// The same configuration with the given filter.
    pub open spec fn filtered(self, kind: FilterType, value: Option<Seq<char>>) -> ConfigView {
        ConfigView { filter_type: Some(kind), filter_value: value, ..self }
    }
}

/// Whether the filter of the configuration lets the message through. A
/// sender filter wants its value, in capitals or small letters, somewhere in
/// the sender's name or alias; a media filter wants the message's media to
/// be of the kind that its value names; a link filter wants a link in the
/// text. A sender or media filter without a value lets nothing through.
pub open spec fn keeps(message: MessageView, config: ConfigView) -> bool {
    match config.filter_type {
        None => true,
        Some(FilterType::Sender) => match config.filter_value {
            Some(value) => has_infix_folded(message.sender_name, value) || (
            config.aliases.contains_key(message.sender_id) && has_infix_folded(
                config.aliases[message.sender_id],
                value,
            )),
            None => false,
        },
        Some(FilterType::Media) => match config.filter_value {
            Some(value) => message.media_type == Some(value),
            None => false,
        },
        Some(FilterType::Link) => has_link(message.text),
    }
}

/// The name under which the sender of the message is shown: the alias
/// where the sender has one, else the sender's own name.
pub open spec fn sender_label(message: MessageView, config: ConfigView) -> Seq<char> {
    shown(
        if config.aliases.contains_key(message.sender_id) {
            config.aliases[message.sender_id]
        } else {
            message.sender_name
        },
        config.show_emojis,
    )
}

/// The position of the first message with the number `msg_id`, or the
/// count of the messages where none has it.
pub open spec fn position_of(messages: Seq<MessageView>, msg_id: i32, from: int) -> int
    decreases messages.len() - from,
{
    if 0 <= from < messages.len() && messages[from].msg_id != msg_id {
        position_of(messages, msg_id, from + 1)
    } else {
        from
    }
}

pub proof fn lemma_position_of(messages: Seq<MessageView>, msg_id: i32, from: int, stop: int)
    requires
        0 <= from <= stop <= messages.len(),
        forall|k: int| from <= k < stop ==> (#[trigger] messages[k]).msg_id != msg_id,
        stop < messages.len() ==> messages[stop].msg_id == msg_id,
    ensures
        position_of(messages, msg_id, from) == stop,
    decreases stop - from,
{
    if from < stop {
        lemma_position_of(messages, msg_id, from + 1, stop);
    }
}

/// Whether the message answers one of the user's own messages.
pub open spec fn answers_me(messages: Seq<MessageView>, message: MessageView) -> bool {
    match message.reply_to_msg_id {
        Some(msg_id) => {
            let at = position_of(messages, msg_id, 0);
            0 <= at < messages.len() && messages[at].is_outgoing
        },
        None => false,
    }
}

/// The style of the lines of a message.
pub open spec fn style_of(messages: Seq<MessageView>, message: MessageView) -> LineStyle {
    if message.is_outgoing {
        LineStyle::Outgoing
    } else if answers_me(messages, message) {
        LineStyle::ReplyToMe
    } else {
        LineStyle::Incoming
    }
}

/// The header of the message at position `at`: its number where lines are
/// numbered, the sender's label and a colon, then the time as it is read
/// on the clock of the configuration, and the reactions, where they are
/// shown.
pub open spec fn header(messages: Seq<MessageView>, at: int, config: ConfigView) -> Seq<char> {
    let message = messages[at];
    (if config.show_line_numbers {
        seq!['#'] + digits((at + 1) as nat) + seq![' ']
    } else {
        Seq::empty()
    }) + sender_label(message, config) + seq![':'] + (if config.show_timestamps {
        seq![' '] + message_time(message.timestamp, config.now, config.utc_offset)
    } else {
        Seq::empty()
    }) + (if config.show_reactions && message.reactions.len() > 0 {
        seq![' '] + reaction_summary(message.reactions)
    } else {
        Seq::empty()
    })
}

/// The line that says what a reply answers: the sender of the answered
/// message and the beginning of its first line. Where the answered message
/// is not among the messages, what the reply itself carries of it stands
/// in, or else the answered message's number.
pub open spec fn reference(messages: Seq<MessageView>, message: MessageView, config: ConfigView)
    -> Option<Seq<char>> {
    match message.reply_to_msg_id {
        None => None,
        Some(msg_id) => {
            let at = position_of(messages, msg_id, 0);
            let who = if 0 <= at < messages.len() {
                sender_label(messages[at], config)
            } else {
                match message.reply_sender {
                    Some(sender) => shown(sender, config.show_emojis),
                    None => seq!['#'] + signed_digits(msg_id as int),
                }
            };
            let what = if 0 <= at < messages.len() {
                messages[at].text
            } else {
                match message.reply_text {
                    Some(text) => text,
                    None => Seq::empty(),
                }
            };
            Some(
                "  \u{21b3} Reply to "@ + who + ": "@ + excerpt(
                    first_line(shown(what, config.show_emojis)),
                    60,
                ),
            )
        },
    }
}

/// The text that the body of a message is wrapped from: the label of its
/// media, or their kind, in square brackets, and the message's text.
pub open spec fn body_text(message: MessageView, config: ConfigView) -> Seq<char> {
    (match message.media_type {
        Some(kind) => seq!['['] + (match message.media_label {
            Some(label) => label,
            None => kind,
        }) + "] "@,
        None => Seq::empty(),
    }) + shown(message.text, config.show_emojis)
}

/// The lines of text in `style`, one for one.
pub open spec fn styled(lines: Seq<Seq<char>>, style: LineStyle, sender_id: Option<i64>) -> Seq<
    LineView,
> {
    Seq::new(lines.len(), |k: int| LineView { text: lines[k], style, sender_id })
}

/// The position of the first message that counts as unread: as many
/// messages at the end as were unread when the conversation was opened.
pub open spec fn unread_from(messages: Seq<MessageView>, config: ConfigView) -> int {
    if config.unread_count >= messages.len() {
        0
    } else {
        messages.len() - config.unread_count
    }
}

/// Whether the message at position `at` is the first unread one that the
/// filter lets through.
pub open spec fn opens_unread(messages: Seq<MessageView>, at: int, config: ConfigView) -> bool {
    &&& config.unread_count > 0
    &&& unread_from(messages, config) <= at
    &&& forall|j: int| unread_from(messages, config) <= j < at ==> !keeps(#[trigger] messages[j], config)
}

/// The lines of the message at position `at`: the mark of the unread
/// messages where they begin here, the reference of a reply, the header,
/// and the wrapped body.
pub open spec fn block(messages: Seq<MessageView>, at: int, config: ConfigView) -> Seq<LineView> {
    let message = messages[at];
    let style = style_of(messages, message);
    (if opens_unread(messages, at, config) {
        seq![
            LineView { text: "--- new messages ---"@, style: LineStyle::Default, sender_id: None },
        ]
    } else {
        Seq::empty()
    }) + (match reference(messages, message, config) {
        Some(text) => seq![LineView { text, style: LineStyle::ReplyReference, sender_id: None }],
        None => Seq::empty(),
    }) + seq![
        LineView {
            text: header(messages, at, config),
            style,
            sender_id: Some(message.sender_id),
        },
    ] + styled(
        wrap_lines(words(body_text(message, config)), config.width as int),
        style,
        Some(message.sender_id),
    )
}

/// The empty line that parts the lines of a message from those before
/// them, unless there are none before them or the display is compact.
pub open spec fn parting(before: Seq<LineView>, config: ConfigView) -> Seq<LineView> {
    if config.compact || before.len() == 0 {
        Seq::empty()
    } else {
        seq![LineView { text: Seq::empty(), style: LineStyle::Default, sender_id: None }]
    }
}

/// The lines of the first `upto` messages.
pub open spec fn formatted_upto(messages: Seq<MessageView>, config: ConfigView, upto: int) -> Seq<
    LineView,
>
    decreases upto,
{
    if upto <= 0 {
        Seq::empty()
    } else {
        formatted_upto(messages, config, upto - 1) + (if keeps(messages[upto - 1], config) {
            parting(formatted_upto(messages, config, upto - 1), config) + block(
                messages,
                upto - 1,
                config,
            )
        } else {
            Seq::empty()
        })
    }
}

/// The lines that a pane shows of its messages: the lines of every message
/// that the filter lets through, in the order of the messages, with an
/// empty line between the messages unless the display is compact. A pane
/// without width shows nothing.
#[verifier::opaque]
pub open spec fn formatted(messages: Seq<MessageView>, config: ConfigView) -> Seq<LineView> {
    if config.width == 0 {
        Seq::empty()
    } else {
        formatted_upto(messages, config, messages.len() as int)
    }
}

/// Whether the filter of the configuration lets the message through.
pub fn keeps_message(message: &MessageData, config: &FormatConfig) -> (kept: bool)
    ensures
        kept == keeps(message@, config@),
{
    match config.filter_type {
        None => true,
        Some(FilterType::Sender) => match config.filter_value {
            Some(value) => {
                if contains_folded(message.sender_name.as_str(), value) {
                    true
                } else {
                    match config.aliases.get(message.sender_id) {
                        Some(alias) => contains_folded(alias.as_str(), value),
                        None => false,
                    }
                }
            },
            None => false,
        },
        Some(FilterType::Media) => match config.filter_value {
            Some(value) => match &message.media_type {
                Some(kind) => {
                    let kind_chars = chars_of(kind.as_str());
                    let value_chars = chars_of(value);
                    same(&kind_chars, &value_chars)
                },
                None => false,
            },
            None => false,
        },
        Some(FilterType::Link) => {
            let text = chars_of(message.text.as_str());
            holds_link(&text)
        },
    }
}

/// The name under which the sender of the message is shown.
pub fn label_of(message: &MessageData, config: &FormatConfig) -> (label: Vec<char>)
    ensures
        label@ == sender_label(message@, config@),
{
    let raw = match config.aliases.get(message.sender_id) {
        Some(alias) => chars_of(alias.as_str()),
        None => chars_of(message.sender_name.as_str()),
    };
    show(&raw, config.show_emojis)
}

/// The position of the first message with the number `msg_id`, or the
/// count of the messages where none has it.
pub fn find_message(messages: &Vec<MessageData>, msg_id: i32) -> (at: usize)
    ensures
        at == position_of(message_views(messages@), msg_id, 0),
        at <= messages.len(),
{
    let mut at: usize = 0;
    while at < messages.len() && messages[at].msg_id != msg_id
        invariant
            at <= messages.len(),
            forall|k: int| 0 <= k < at ==> (#[trigger] message_views(messages@)[k]).msg_id != msg_id,
        decreases messages.len() - at,
    {
        at = at + 1;
    }
    proof {
        lemma_position_of(message_views(messages@), msg_id, 0, at as int);
    }
    at
}

/// The style of the lines of a message.
pub fn style_for(messages: &Vec<MessageData>, message: &MessageData) -> (style: LineStyle)
    ensures
        style == style_of(message_views(messages@), message@),
{
    if message.is_outgoing {
        return LineStyle::Outgoing;
    }
    match message.reply_to_msg_id {
        Some(msg_id) => {
            let at = find_message(messages, msg_id);
            if at < messages.len() && messages[at].is_outgoing {
                LineStyle::ReplyToMe
            } else {
                LineStyle::Incoming
            }
        },
        None => LineStyle::Incoming,
    }
}

/// The header of the message at position `at`.
pub fn header_of(messages: &Vec<MessageData>, at: usize, config: &FormatConfig) -> (text: Vec<char>)
    requires
        at < messages.len(),
    ensures
        text@ == header(message_views(messages@), at as int, config@),
{
    let message = &messages[at];
    let mut text: Vec<char> = Vec::new();
    if config.show_line_numbers {
        text.push('#');
        let number = decimal((at + 1) as u64);
        append(&mut text, &number);
        text.push(' ');
    }
    let ghost numbered = text@;
    let label = label_of(message, config);
    append(&mut text, &label);
    text.push(':');
    let ghost named = text@;
    if config.show_timestamps {
        text.push(' ');
        let time = format_message_time(message.timestamp, config.now, config.utc_offset);
        append_str(&mut text, time.as_str());
    }
    let ghost timed = text@;
    if config.show_reactions && message.reactions.len() > 0 {
        text.push(' ');
        let summary = summarize_reactions(&message.reactions);
        append(&mut text, &summary);
    }
    proof {
        let views = message_views(messages@);
        let view = config@;
        assert(views[at as int] == message@);
        assert(numbered =~= if view.show_line_numbers {
            seq!['#'] + digits((at + 1) as nat) + seq![' ']
        } else {
            Seq::empty()
        });
        assert(named =~= numbered + sender_label(message@, view) + seq![':']);
        assert(timed =~= named + if view.show_timestamps {
            seq![' '] + message_time(message.timestamp, view.now, view.utc_offset)
        } else {
            Seq::empty()
        });
        assert(text@ =~= timed + if view.show_reactions && message@.reactions.len() > 0 {
            seq![' '] + reaction_summary(message@.reactions)
        } else {
            Seq::empty()
        });
    }
    text
}

/// The line that says what a reply answers, if the message is a reply.
pub fn reference_of(messages: &Vec<MessageData>, message: &MessageData, config: &FormatConfig)
    -> (text: Option<Vec<char>>)
    ensures
        match text {
            Some(t) => reference(message_views(messages@), message@, config@) == Some(t@),
            None => reference(message_views(messages@), message@, config@).is_none(),
        },
{
    match message.reply_to_msg_id {
        None => None,
        Some(msg_id) => {
            let at = find_message(messages, msg_id);
            let ghost views = message_views(messages@);
            let who: Vec<char>;
            let what: Vec<char>;
            if at < messages.len() {
                assert(views[at as int] == messages@[at as int]@);
                who = label_of(&messages[at], config);
                what = chars_of(messages[at].text.as_str());
            } else {
                match &message.reply_sender {
                    Some(sender) => {
                        let raw = chars_of(sender.as_str());
                        who = show(&raw, config.show_emojis);
                    },
                    None => {
                        let mut number: Vec<char> = Vec::new();
                        number.push('#');
                        let id_text = signed_decimal(msg_id as i64);
                        append(&mut number, &id_text);
                        assert(number@ =~= seq!['#'] + signed_digits(msg_id as int));
                        who = number;
                    },
                }
                match &message.reply_text {
                    Some(text) => {
                        what = chars_of(text.as_str());
                    },
                    None => {
                        what = Vec::new();
                    },
                }
            }
            let plain = show(&what, config.show_emojis);
            let cut = excerpt_of_first_line(&plain, 60);
            let mut text = chars_of("  \u{21b3} Reply to ");
            append(&mut text, &who);
            append_str(&mut text, ": ");
            append(&mut text, &cut);
            Some(text)
        },
    }
}

/// The wrapped lines of the body of a message.
pub fn body_of(message: &MessageData, config: &FormatConfig) -> (lines: Vec<Vec<char>>)
    requires
        config.width > 0,
    ensures
        texts(lines@) == wrap_lines(words(body_text(message@, config@)), config.width as int),
{
    let mut text: Vec<char> = Vec::new();
    match &message.media_type {
        Some(kind) => {
            text.push('[');
            match &message.media_label {
                Some(label) => {
                    append_str(&mut text, label.as_str());
                },
                None => {
                    append_str(&mut text, kind.as_str());
                },
            }
            append_str(&mut text, "] ");
        },
        None => {},
    }
    let ghost tag = text@;
    let raw = chars_of(message.text.as_str());
    let plain = show(&raw, config.show_emojis);
    append(&mut text, &plain);
    proof {
        assert(tag =~= match message@.media_type {
            Some(kind) => seq!['['] + (match message@.media_label {
                Some(label) => label,
                None => kind,
            }) + "] "@,
            None => Seq::empty(),
        });
        assert(text@ =~= body_text(message@, config@));
    }
    let parts = split_words(&text);
    assert(texts(parts@) =~= words(text@));
    wrap(&parts, config.width)
}

/// Appends the lines of text, all in `style` and of the sender
/// `sender_id`.
pub fn push_styled(
    out: &mut Vec<DisplayLine>,
    lines: &Vec<Vec<char>>,
    style: LineStyle,
    sender_id: Option<i64>,
)
    ensures
        line_views(final(out)@) == line_views(old(out)@) + styled(texts(lines@), style, sender_id),
{
    let mut i: usize = 0;
    assert(line_views(out@) =~= line_views(old(out)@) + styled(
        texts(lines@).take(0),
        style,
        sender_id,
    ));
    while i < lines.len()
        invariant
            i <= lines.len(),
            line_views(out@) == line_views(old(out)@) + styled(
                texts(lines@).take(i as int),
                style,
                sender_id,
            ),
        decreases lines.len() - i,
    {
        let ghost before = line_views(out@);
        out.push(DisplayLine { text: string_of(&lines[i]), style, sender_id });
        assert(line_views(out@) =~= before.push(
            LineView { text: lines@[i as int]@, style, sender_id },
        ));
        assert(line_views(out@) =~= line_views(old(out)@) + styled(
            texts(lines@).take(i + 1),
            style,
            sender_id,
        ));
        i = i + 1;
    }
    assert(texts(lines@).take(lines@.len() as int) =~= texts(lines@));
}

/// Appends one line.
pub fn push_line(
    out: &mut Vec<DisplayLine>,
    text: &Vec<char>,
    style: LineStyle,
    sender_id: Option<i64>,
)
    ensures
        line_views(final(out)@) == line_views(old(out)@) + seq![
            LineView { text: text@, style, sender_id },
        ],
{
    let ghost before = line_views(out@);
    out.push(DisplayLine { text: string_of(text), style, sender_id });
    assert(line_views(out@) =~= before + seq![LineView { text: text@, style, sender_id }]);
}

/// Appends the lines of the message at position `at`.
pub fn push_block(
    out: &mut Vec<DisplayLine>,
    messages: &Vec<MessageData>,
    at: usize,
    config: &FormatConfig,
    opens_unread_here: bool,
)
    requires
        at < messages.len(),
        config.width > 0,
        opens_unread_here == opens_unread(message_views(messages@), at as int, config@),
    ensures
        line_views(final(out)@) == line_views(old(out)@) + block(
            message_views(messages@),
            at as int,
            config@,
        ),
{
    let ghost views = message_views(messages@);
    let ghost start = line_views(out@);
    let message = &messages[at];
    assert(views[at as int] == message@);
    let style = style_for(messages, message);
    if opens_unread_here {
        let mark = chars_of("--- new messages ---");
        push_line(out, &mark, LineStyle::Default, None);
    }
    let ghost marked = line_views(out@);
    match reference_of(messages, message, config) {
        Some(text) => {
            push_line(out, &text, LineStyle::ReplyReference, None);
        },
        None => {},
    }
    let ghost referred = line_views(out@);
    let head = header_of(messages, at, config);
    push_line(out, &head, style, Some(message.sender_id));
    let ghost headed = line_views(out@);
    let body = body_of(message, config);
    push_styled(out, &body, style, Some(message.sender_id));
    proof {
        let view = config@;
        let part_mark: Seq<LineView> = if opens_unread(views, at as int, view) {
            seq![
            LineView { text: "--- new messages ---"@, style: LineStyle::Default, sender_id: None },
        ]
        } else {
            Seq::empty()
        };
        let part_reference: Seq<LineView> = match reference(views, message@, view) {
            Some(text) => seq![LineView { text, style: LineStyle::ReplyReference, sender_id: None }],
            None => Seq::empty(),
        };
        let part_header = seq![
            LineView {
                text: header(views, at as int, view),
                style,
                sender_id: Some(message.sender_id),
            },
        ];
        let part_body = styled(
            wrap_lines(words(body_text(message@, view)), view.width as int),
            style,
            Some(message.sender_id),
        );
        assert(marked =~= start + part_mark);
        assert(referred =~= marked + part_reference);
        assert(headed =~= referred + part_header);
        assert(line_views(out@) =~= headed + part_body);
        assert(block(views, at as int, view) =~= part_mark + part_reference + part_header
            + part_body);
        assert(line_views(out@) =~= start + (part_mark + part_reference + part_header
            + part_body));
    }
}

/// The lines that a pane shows of its messages.
pub fn format_messages_for_display(messages: &Vec<MessageData>, config: &FormatConfig) -> (lines:
    Vec<DisplayLine>)
    ensures
        line_views(lines@) == formatted(message_views(messages@), config@),
{
    reveal(formatted);
    let mut lines: Vec<DisplayLine> = Vec::new();
    if config.width == 0 {
        assert(line_views(lines@) =~= Seq::<LineView>::empty());
        return lines;
    }
    let ghost views = message_views(messages@);
    let ghost view = config@;
    let unread: usize = config.unread_count as usize;
    let first_unread: usize = if unread >= messages.len() {
        0
    } else {
        messages.len() - unread
    };
    let mut seen_unread = false;
    let mut i: usize = 0;
    assert(line_views(lines@) =~= formatted_upto(views, view, 0));
    while i < messages.len()
        invariant
            i <= messages.len(),
            config.width > 0,
            views == message_views(messages@),
            view == config@,
            first_unread == unread_from(views, view),
            seen_unread <==> exists|j: int| first_unread <= j < i && keeps(#[trigger] views[j], view),
            line_views(lines@) == formatted_upto(views, view, i as int),
        decreases messages.len() - i,
    {
        assert(views[i as int] == messages@[i as int]@);
        let kept = keeps_message(&messages[i], config);
        if kept {
            let opens = config.unread_count > 0 && first_unread <= i && !seen_unread;
            let ghost before = line_views(lines@);
            if !config.compact && lines.len() > 0 {
                let blank: Vec<char> = Vec::new();
                push_line(&mut lines, &blank, LineStyle::Default, None);
            }
            assert(line_views(lines@) =~= before + parting(before, view));
            push_block(&mut lines, messages, i, config, opens);
            assert(line_views(lines@) =~= before + (parting(before, view) + block(
                views,
                i as int,
                view,
            )));
            if first_unread <= i {
                seen_unread = true;
            }
        } else {
            assert(line_views(lines@) + Seq::<LineView>::empty() =~= line_views(lines@));
        }
        i = i + 1;
    }
    lines
}

} // verus!
