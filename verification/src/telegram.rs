use vstd::prelude::*;
use crate::message::{message_views, reaction_views, MessageData, MessageView, Reaction, ReactionView};
use crate::text::{
    append, append_str, chars_of, has_prefix, same, signed_decimal, signed_digits, starts_with,
    string_of, trim, trimmed,
};

verus! {

/// What the server reports while the client runs.
#[derive(Debug, PartialEq, Eq)]
pub enum TelegramUpdate {
    NewMessage { chat_id: i64, sender_name: String, text: String, is_outgoing: bool },
    UserTyping { chat_id: i64, user_name: String },
}

/// The kind of media that a document of the type `mime` counts as: video
/// and audio by the beginning of the type, anything else as a document.
pub open spec fn document_kind(mime: Option<Seq<char>>) -> Seq<char> {
    match mime {
        Some(m) => if has_prefix(m, "video/"@) {
            "video"@
        } else if has_prefix(m, "audio/"@) {
            "audio"@
        } else {
            "document"@
        },
        None => "document"@,
    }
}

/// The kind of media that a document of the type `mime` counts as.
pub fn media_kind_of_document(mime: Option<&str>) -> (kind: String)
    ensures
        kind@ == document_kind(
            match mime {
                Some(m) => Some(m@),
                None => None,
            },
        ),
{
    let word = match mime {
        Some(m) => {
            let chars = chars_of(m);
            let video = chars_of("video/");
            let audio = chars_of("audio/");
            if starts_with(&chars, &video) {
                chars_of("video")
            } else if starts_with(&chars, &audio) {
                chars_of("audio")
            } else {
                chars_of("document")
            }
        },
        None => chars_of("document"),
    };
    string_of(&word)
}

/// The ending of the file that media are stored in: that of a picture for
/// a photo, and for a document that of a film or of sound by its kind;
/// anything else gets the ending of plain data.
pub open spec fn file_ending(is_photo: bool, kind: Seq<char>) -> Seq<char> {
    if is_photo {
        "jpg"@
    } else if kind == "video"@ {
        "mp4"@
    } else if kind == "audio"@ {
        "mp3"@
    } else {
        "dat"@
    }
}

/// The ending of the file that media are stored in.
pub fn media_extension(is_photo: bool, kind: &str) -> (ending: String)
    ensures
        ending@ == file_ending(is_photo, kind@),
{
    let chars = chars_of(kind);
    let video = chars_of("video");
    let audio = chars_of("audio");
    let word = if is_photo {
        chars_of("jpg")
    } else if same(&chars, &video) {
        chars_of("mp4")
    } else if same(&chars, &audio) {
        chars_of("mp3")
    } else {
        chars_of("dat")
    };
    string_of(&word)
}

/// The name of the file that the media of a message are stored in.
pub open spec fn media_file_name(chat_id: i64, message_num: i32, ending: Seq<char>) -> Seq<char> {
    "telegram_msg_"@ + signed_digits(chat_id as int) + "_"@ + signed_digits(message_num as int)
        + "."@ + ending
}

/// The name of the file that the media of a message are stored in.
pub fn download_file_name(chat_id: i64, message_num: i32, ending: &str) -> (name: String)
    ensures
        name@ == media_file_name(chat_id, message_num, ending@),
{
    let mut out = chars_of("telegram_msg_");
    let chat = signed_decimal(chat_id);
    append(&mut out, &chat);
    append_str(&mut out, "_");
    let number = signed_decimal(message_num as i64);
    append(&mut out, &number);
    append_str(&mut out, ".");
    append_str(&mut out, ending);
    string_of(&out)
}

/// The name under which a conversation is listed: its own; where that is
/// empty or white space alone, its user name, or else the word `Chat` and
/// its number.
pub open spec fn listed_name(chat_name: Seq<char>, username: Option<Seq<char>>, chat_id: i64)
    -> Seq<char> {
    if trimmed(chat_name).len() > 0 {
        chat_name
    } else {
        match username {
            Some(name) => name,
            None => "Chat "@ + signed_digits(chat_id as int),
        }
    }
}

/// The name under which a conversation is listed.
pub fn dialog_display_name(chat_name: &str, username: Option<&str>, chat_id: i64) -> (name: String)
    ensures
        name@ == listed_name(
            chat_name@,
            match username {
                Some(u) => Some(u@),
                None => None,
            },
            chat_id,
        ),
{
    let chars = chars_of(chat_name);
    let bare = trim(&chars);
    if bare.len() > 0 {
        return string_of(&chars);
    }
    match username {
        Some(user) => {
            let user_chars = chars_of(user);
            string_of(&user_chars)
        },
        None => {
            let mut out = chars_of("Chat ");
            let number = signed_decimal(chat_id);
            append(&mut out, &number);
            string_of(&out)
        },
    }
}

/// The position of the first reaction with the emoji `emoji`, or the count
/// of the reactions where none has it.
pub open spec fn reaction_position(reactions: Seq<ReactionView>, emoji: Seq<char>, from: int) -> int
    decreases reactions.len() - from,
{
    if 0 <= from < reactions.len() && reactions[from].emoji != emoji {
        reaction_position(reactions, emoji, from + 1)
    } else {
        from
    }
}

pub proof fn lemma_reaction_position(
    reactions: Seq<ReactionView>,
    emoji: Seq<char>,
    from: int,
    stop: int,
)
    requires
        0 <= from <= stop <= reactions.len(),
        forall|k: int| from <= k < stop ==> (#[trigger] reactions[k]).emoji != emoji,
        stop < reactions.len() ==> reactions[stop].emoji == emoji,
    ensures
        reaction_position(reactions, emoji, from) == stop,
    decreases stop - from,
{
    if from < stop {
        lemma_reaction_position(reactions, emoji, from + 1, stop);
    }
}

/// The reactions after `count` more of the emoji `emoji` were counted: the
/// emoji's own count grows, up to the most that can be counted; an emoji
/// that was not there joins at the end.
pub open spec fn counted(reactions: Seq<ReactionView>, emoji: Seq<char>, count: u32) -> Seq<
    ReactionView,
> {
    let at = reaction_position(reactions, emoji, 0);
    if 0 <= at < reactions.len() {
        reactions.update(
            at,
            ReactionView {
                emoji,
                count: if reactions[at].count + count > u32::MAX {
                    u32::MAX
                } else {
                    (reactions[at].count + count) as u32
                },
            },
        )
    } else {
        reactions.push(ReactionView { emoji, count })
    }
}

/// Counts `count` more reactions with the emoji `emoji`.
pub fn add_reaction(reactions: &mut Vec<Reaction>, emoji: &str, count: u32)
    ensures
        reaction_views(final(reactions)@) == counted(reaction_views(old(reactions)@), emoji@, count),
{
    let ghost before = reaction_views(reactions@);
    let emoji_chars = chars_of(emoji);
    let mut at: usize = 0;
    let mut found = false;
    while at < reactions.len() && !found
        invariant
            at <= reactions.len(),
            reactions@ == old(reactions)@,
            before == reaction_views(reactions@),
            emoji_chars@ == emoji@,
            forall|k: int| 0 <= k < at ==> (#[trigger] before[k]).emoji != emoji@,
            found ==> at < reactions.len() && before[at as int].emoji == emoji@,
        decreases reactions.len() - at + (if found { 0int } else { 1int }),
    {
        let here = chars_of(reactions[at].emoji.as_str());
        assert(before[at as int] == reactions@[at as int]@);
        if same(&here, &emoji_chars) {
            found = true;
        } else {
            at = at + 1;
        }
    }
    proof {
        lemma_reaction_position(before, emoji@, 0, at as int);
    }
    if at < reactions.len() {
        let had = reactions[at].count;
        let sum: u32 = if had > u32::MAX - count {
            u32::MAX
        } else {
            had + count
        };
        reactions[at].count = sum;
        assert(reaction_views(reactions@) =~= counted(before, emoji@, count));
    } else {
        reactions.push(Reaction { emoji: string_of(&emoji_chars), count });
        assert(reaction_views(reactions@) =~= counted(before, emoji@, count));
    }
}

/// Whether a message is worth showing: it has text, or media.
pub open spec fn has_content(message: MessageView) -> bool {
    message.text.len() > 0 || message.media_type.is_some()
}

/// Whether a message is worth showing: it has text, or media.
pub fn is_worth_showing(message: &MessageData) -> (worth: bool)
    ensures
        worth == has_content(message@),
{
    !message.text.as_str().is_empty() || message.media_type.is_some()
}

/// The history that is shown of the messages `fetched`, which come with
/// the newest first: of the first `limit` of them those that are worth
/// showing, the oldest first.
pub open spec fn history_of(fetched: Seq<MessageView>, limit: int) -> Seq<MessageView>
    decreases fetched.len(),
{
    if fetched.len() == 0 {
        Seq::empty()
    } else {
        let older = history_of(fetched.drop_last(), limit);
        if fetched.len() <= limit && has_content(fetched.last()) {
            seq![fetched.last()] + older
        } else {
            older
        }
    }
}

/// The history that is shown of the messages `fetched`, which come with
/// the newest first.
pub fn gather_history(fetched: Vec<MessageData>, limit: usize) -> (history: Vec<MessageData>)
    ensures
        message_views(history@) == history_of(message_views(fetched@), limit as int),
{
    let mut rest = fetched;
    let mut history: Vec<MessageData> = Vec::new();
    assert(message_views(history@) =~= Seq::<MessageView>::empty());
    while rest.len() > 0
        invariant
            message_views(history@) + history_of(message_views(rest@), limit as int) == history_of(
                message_views(fetched@),
                limit as int,
            ),
        decreases rest.len(),
    {
        let ghost before = rest@;
        let ghost kept = history@;
        let at = rest.len();
        match rest.pop() {
            Some(message) => {
                assert(message_views(rest@) =~= message_views(before).drop_last());
                assert(message@ == message_views(before).last());
                if at <= limit && is_worth_showing(&message) {
                    history.push(message);
                    assert(message_views(history@) =~= message_views(kept) + seq![message@]);
                    assert(message_views(history@) + history_of(message_views(rest@), limit as int)
                        =~= message_views(kept) + history_of(message_views(before), limit as int));
                }
            },
            None => {},
        }
    }
    assert(message_views(history@) + Seq::<MessageView>::empty() =~= message_views(history@));
    history
}

/// How many of the latest messages are looked through for the message
/// whose media are wanted.
pub const MEDIA_LOOKBACK: usize = 100;

/// Where the message number `message_num`, counted from one with the
/// oldest first, stands among `count` messages that come with the newest
/// first; nowhere, where there is no message of that number.
pub open spec fn fetched_position(count: int, message_num: int) -> Option<int> {
    if 1 <= message_num <= count {
        Some(count - message_num)
    } else {
        None
    }
}

/// Where the message number `message_num` stands among `count` messages
/// that come with the newest first.
pub fn position_of_number(count: usize, message_num: i32) -> (position: Option<usize>)
    ensures
        match position {
            Some(at) => fetched_position(count as int, message_num as int) == Some(at as int),
            None => fetched_position(count as int, message_num as int).is_none(),
        },
{
    if message_num >= 1 && (message_num as usize) <= count {
        Some(count - (message_num as usize))
    } else {
        None
    }
}

} // verus!
