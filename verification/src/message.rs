use vstd::prelude::*;

verus! {

/// How often one emoji was given to a message in reaction.
#[derive(Debug, PartialEq, Eq)]
pub struct Reaction {
    pub emoji: String,
    pub count: u32,
}

pub struct ReactionView {
    pub emoji: Seq<char>,
    pub count: u32,
}

impl View for Reaction {
    type V = ReactionView;

    open spec fn view(&self) -> ReactionView {
        ReactionView { emoji: self.emoji@, count: self.count }
    }
}

/// One message of a conversation as the server handed it out, or as it was
/// typed here and is shown before the server has confirmed it.
#[derive(Debug, PartialEq, Eq)]
pub struct MessageData {
    pub msg_id: i32,
    pub sender_id: i64,
    pub sender_name: String,
    pub text: String,
    pub is_outgoing: bool,
    pub timestamp: i64,
    pub media_type: Option<String>,
    pub media_label: Option<String>,
    /// The reactions, each emoji once, in the order in which the header
    /// of the message shows them.
    pub reactions: Vec<Reaction>,
    pub reply_to_msg_id: Option<i32>,
    pub reply_sender: Option<String>,
    pub reply_text: Option<String>,
}

pub struct MessageView {
    pub msg_id: i32,
    pub sender_id: i64,
    pub sender_name: Seq<char>,
    pub text: Seq<char>,
    pub is_outgoing: bool,
    pub timestamp: i64,
    pub media_type: Option<Seq<char>>,
    pub media_label: Option<Seq<char>>,
    pub reactions: Seq<ReactionView>,
    pub reply_to_msg_id: Option<i32>,
    pub reply_sender: Option<Seq<char>>,
    pub reply_text: Option<Seq<char>>,
}

/// The view of an optional string.
pub open spec fn opt_text(s: Option<String>) -> Option<Seq<char>> {
    match s {
        Some(s) => Some(s@),
        None => None,
    }
}

/// The views of the reactions, one for one.
pub open spec fn reaction_views(reactions: Seq<Reaction>) -> Seq<ReactionView> {
    Seq::new(reactions.len(), |k: int| reactions[k]@)
}

/// The views of the messages, one for one.
pub open spec fn message_views(messages: Seq<MessageData>) -> Seq<MessageView> {
    Seq::new(messages.len(), |k: int| messages[k]@)
}

impl View for MessageData {
    type V = MessageView;

    open spec fn view(&self) -> MessageView {
        MessageView {
            msg_id: self.msg_id,
            sender_id: self.sender_id,
            sender_name: self.sender_name@,
            text: self.text@,
            is_outgoing: self.is_outgoing,
            timestamp: self.timestamp,
            media_type: opt_text(self.media_type),
            media_label: opt_text(self.media_label),
            reactions: reaction_views(self.reactions@),
            reply_to_msg_id: self.reply_to_msg_id,
            reply_sender: opt_text(self.reply_sender),
            reply_text: opt_text(self.reply_text),
        }
    }
}

/// A copy of an optional string.
pub fn copy_text(s: &Option<String>) -> (copy: Option<String>)
    ensures
        opt_text(copy) == opt_text(*s),
{
    match s {
        Some(s) => Some(s.clone()),
        None => None,
    }
}

impl Clone for Reaction {
    fn clone(&self) -> (copy: Self)
        ensures
            copy@ == self@,
    {
        Reaction { emoji: self.emoji.clone(), count: self.count }
    }
}

impl Clone for MessageData {
    fn clone(&self) -> (copy: Self)
        ensures
            copy@ == self@,
    {
        let mut reactions: Vec<Reaction> = Vec::new();
        let mut i: usize = 0;
        while i < self.reactions.len()
            invariant
                i <= self.reactions.len(),
                reactions.len() == i,
                forall|k: int| 0 <= k < i ==> (#[trigger] reactions@[k])@ == self.reactions@[k]@,
            decreases self.reactions.len() - i,
        {
            reactions.push(self.reactions[i].clone());
            i = i + 1;
        }
        assert(reaction_views(reactions@) =~= reaction_views(self.reactions@));
        MessageData {
            msg_id: self.msg_id,
            sender_id: self.sender_id,
            sender_name: self.sender_name.clone(),
            text: self.text.clone(),
            is_outgoing: self.is_outgoing,
            timestamp: self.timestamp,
            media_type: copy_text(&self.media_type),
            media_label: copy_text(&self.media_label),
            reactions,
            reply_to_msg_id: self.reply_to_msg_id,
            reply_sender: copy_text(&self.reply_sender),
            reply_text: copy_text(&self.reply_text),
        }
    }
}

/// A copy of a list of messages.
pub fn copy_messages(messages: &Vec<MessageData>) -> (copy: Vec<MessageData>)
    ensures
        message_views(copy@) == message_views(messages@),
{
    let mut copy: Vec<MessageData> = Vec::new();
    let mut i: usize = 0;
    while i < messages.len()
        invariant
            i <= messages.len(),
            copy.len() == i,
            forall|k: int| 0 <= k < i ==> (#[trigger] copy@[k])@ == messages@[k]@,
        decreases messages.len() - i,
    {
        copy.push(messages[i].clone());
        i = i + 1;
    }
    assert(message_views(copy@) =~= message_views(messages@));
    copy
}

/// The style in which a line of a pane is painted.
#[derive(Clone, Copy, Debug, PartialEq, Eq, Structural)]
pub enum LineStyle {
    Default,
    Outgoing,
    Incoming,
    ReplyToMe,
    ReplyReference,
}

/// One line of a pane: its text, the style it is painted in, and, for a
/// line of a message, who sent the message.
#[derive(Debug, PartialEq, Eq)]
pub struct DisplayLine {
    pub text: String,
    pub style: LineStyle,
    pub sender_id: Option<i64>,
}

pub struct LineView {
    pub text: Seq<char>,
    pub style: LineStyle,
    pub sender_id: Option<i64>,
}

impl View for DisplayLine {
    type V = LineView;

    open spec fn view(&self) -> LineView {
        LineView { text: self.text@, style: self.style, sender_id: self.sender_id }
    }
}

impl Clone for DisplayLine {
    fn clone(&self) -> (copy: Self)
        ensures
            copy@ == self@,
    {
        DisplayLine { text: self.text.clone(), style: self.style, sender_id: self.sender_id }
    }
}

/// The views of the lines, one for one.
pub open spec fn line_views(lines: Seq<DisplayLine>) -> Seq<LineView> {
    Seq::new(lines.len(), |k: int| lines[k]@)
}

/// A copy of a list of lines.
pub fn copy_lines(lines: &Vec<DisplayLine>) -> (copy: Vec<DisplayLine>)
    ensures
        line_views(copy@) == line_views(lines@),
{
    let mut copy: Vec<DisplayLine> = Vec::new();
    let mut i: usize = 0;
    while i < lines.len()
        invariant
            i <= lines.len(),
            copy.len() == i,
            forall|k: int| 0 <= k < i ==> (#[trigger] copy@[k])@ == lines@[k]@,
        decreases lines.len() - i,
    {
        copy.push(lines[i].clone());
        i = i + 1;
    }
    assert(line_views(copy@) =~= line_views(lines@));
    copy
}

/// What a pane's messages are narrowed down by.
#[derive(Clone, Copy, Debug, PartialEq, Eq, Structural)]
pub enum FilterType {
    Sender,
    Media,
    Link,
}

impl MessageData {
    /// A message as it came from the server, seen at the instant `now` by
    /// the user `my_user_id`: it is outgoing exactly where that user sent
    /// it.
    pub fn received(
        msg_id: i32,
        sender_id: i64,
        sender_name: String,
        text: String,
        reply_to_msg_id: Option<i32>,
        media_type: Option<String>,
        reactions: Vec<Reaction>,
        my_user_id: i64,
        now: i64,
    ) -> (message: MessageData)
        ensures
            message == (MessageData {
                msg_id,
                sender_id,
                sender_name,
                text,
                is_outgoing: sender_id == my_user_id,
                timestamp: now,
                media_type,
                media_label: None,
                reactions,
                reply_to_msg_id,
                reply_sender: None,
                reply_text: None,
            }),
    {
        MessageData {
            msg_id,
            sender_id,
            sender_name,
            text,
            is_outgoing: sender_id == my_user_id,
            timestamp: now,
            media_type,
            media_label: None,
            reactions,
            reply_to_msg_id,
            reply_sender: None,
            reply_text: None,
        }
    }

    /// Whether the message is one that the user `my_user_id` has typed at
    /// the instant `now` and that the server has not confirmed: it has the
    /// number zero and the sender's name `You`.
    pub open spec fn is_echo(
        self,
        my_user_id: i64,
        text: Seq<char>,
        reply_to_msg_id: Option<i32>,
        now: i64,
    ) -> bool {
        &&& self.msg_id == 0
        &&& self.sender_id == my_user_id
        &&& self.sender_name@ == "You"@
        &&& self.text@ == text
        &&& self.is_outgoing
        &&& self.timestamp == now
        &&& self.media_type.is_none()
        &&& self.media_label.is_none()
        &&& self.reactions@.len() == 0
        &&& self.reply_to_msg_id == reply_to_msg_id
        &&& self.reply_sender.is_none()
        &&& self.reply_text.is_none()
    }

    /// A message that the user has just typed, to be shown before the
    /// server confirms it.
    pub fn echo(my_user_id: i64, text: &Vec<char>, reply_to_msg_id: Option<i32>, now: i64) -> (message:
        MessageData)
        ensures
            message.is_echo(my_user_id, text@, reply_to_msg_id, now),
    {
        let you = crate::text::chars_of("You");
        MessageData {
            msg_id: 0,
            sender_id: my_user_id,
            sender_name: crate::text::string_of(&you),
            text: crate::text::string_of(text),
            is_outgoing: true,
            timestamp: now,
            media_type: None,
            media_label: None,
            reactions: Vec::new(),
            reply_to_msg_id,
            reply_sender: None,
            reply_text: None,
        }
    }
}

} // verus!
