use vstd::prelude::*;
use std::collections::HashMap;
use crate::aliases::Aliases;
use crate::app::{App, ChatInfo};
use crate::format_cache::DisplayOptions;
use crate::geometry::Rect;
use crate::layout::{allocate, placed, tiles};
use crate::layout_laws::lemma_layout_tiles;
use crate::message::{line_views, DisplayLine, LineStyle, LineView};
use crate::commands::string_views;
use crate::formatting::{push_line, push_styled, styled};
use crate::text::{
    append, append_str, chars_of, decimal, digits, slice, split_words, string_of, texts, words,
};
use crate::widgets::ChatPane;
use crate::wrap::{wrap, wrap_lines};

verus! {

broadcast use vstd::std_specs::hash::group_hash_axioms;

/// How many colours there are to tell the senders of a group apart.
pub const USER_COLORS: u64 = 20;

/// The number that a sender's number is stirred into, from which the
/// sender's colour is taken.
pub open spec fn stirred(sender_id: i64) -> u64 {
    let magnitude: u64 = if sender_id < 0 {
        (-sender_id) as u64
    } else {
        sender_id as u64
    };
    let a = magnitude.wrapping_mul(2654435761);
    let b = a ^ (a >> 16);
    let c = b.wrapping_mul(0x85ebca6b);
    let d = c ^ (c >> 13);
    let e = d.wrapping_mul(0xc2b2ae35);
    e ^ (e >> 16)
}

/// Which of the colours the sender `sender_id` is shown in.
pub fn user_color_index(sender_id: i64) -> (index: usize)
    ensures
        index == stirred(sender_id) % USER_COLORS,
        index < USER_COLORS,
{
    let magnitude: u64 = if sender_id == i64::MIN {
        9223372036854775808u64
    } else if sender_id < 0 {
        (-sender_id) as u64
    } else {
        sender_id as u64
    };
    let a = magnitude.wrapping_mul(2654435761);
    let b = a ^ (a >> 16);
    let c = b.wrapping_mul(0x85ebca6b);
    let d = c ^ (c >> 13);
    let e = d.wrapping_mul(0xc2b2ae35);
    let f = e ^ (e >> 16);
    (f % USER_COLORS) as usize
}

/// What the list of conversations says of one conversation: its name, the
/// count of its unread messages in brackets where there are some, and its
/// user name where it has one.
pub open spec fn chat_entry(chat: ChatInfo) -> Seq<char> {
    chat.name@ + (if chat.unread > 0 {
        " ("@ + digits(chat.unread as nat) + ")"@
    } else {
        Seq::empty()
    }) + (match chat.username {
        Some(name) => if name@.len() > 0 {
            seq![' '] + name@
        } else {
            Seq::empty()
        },
        None => Seq::empty(),
    })
}

/// `text` made to fit into `max_width` characters, one at least: a text
/// that is longer keeps one character less than fit and ends in three
/// dots drawn as one character.
pub open spec fn fitted(text: Seq<char>, max_width: int) -> Seq<char> {
    let width = if max_width >= 1 {
        max_width
    } else {
        1
    };
    if text.len() > width {
        text.take(width - 1).push('\u{2026}')
    } else {
        text
    }
}

/// The line of the list of conversations for `chat`, in a list that is
/// `list_width` columns wide, six of which are not for text.
pub fn chat_list_label(chat: &ChatInfo, list_width: u16) -> (label: String)
    ensures
        label@ == fitted(chat_entry(*chat), list_width as int - 6),
{
    let mut content = chars_of(chat.name.as_str());
    if chat.unread > 0 {
        append_str(&mut content, " (");
        let count = decimal(chat.unread as u64);
        append(&mut content, &count);
        append_str(&mut content, ")");
    }
    let ghost counted = content@;
    match &chat.username {
        Some(name) => {
            let chars = chars_of(name.as_str());
            if chars.len() > 0 {
                content.push(' ');
                append(&mut content, &chars);
            }
        },
        None => {},
    }
    proof {
        assert(counted =~= chat.name@ + (if chat.unread > 0 {
            " ("@ + digits(chat.unread as nat) + ")"@
        } else {
            Seq::empty()
        }));
        assert(content@ =~= chat_entry(*chat));
    }
    let max_width: usize = if list_width > 6 {
        (list_width - 6) as usize
    } else {
        1
    };
    if content.len() > max_width {
        let mut cut = slice(&content, 0, max_width - 1);
        cut.push('\u{2026}');
        assert(cut@ =~= content@.take(max_width - 1).push('\u{2026}'));
        string_of(&cut)
    } else {
        string_of(&content)
    }
}

/// The line from which the view of a pane begins: the place that the pane
/// holds, but with the view on the newest line where it holds none and
/// the lines do not all fit.
pub open spec fn scroll_start(scroll_offset: int, total_lines: int, available_height: int) -> int {
    if scroll_offset == 0 && total_lines > available_height {
        total_lines - available_height
    } else {
        scroll_offset
    }
}

/// The line from which the view of a pane begins.
pub fn effective_scroll(scroll_offset: usize, total_lines: usize, available_height: usize) -> (start:
    usize)
    ensures
        start == scroll_start(scroll_offset as int, total_lines as int, available_height as int),
{
    if scroll_offset == 0 && total_lines > available_height {
        total_lines - available_height
    } else {
        scroll_offset
    }
}

/// How many rows a run of `len` characters takes in a field that is
/// `width` columns wide: one at least.
pub open spec fn rows_for(len: int, width: int) -> int {
    if len <= width || width <= 0 {
        1
    } else {
        (len + width - 1) / width
    }
}

/// How many rows the input `buffer` takes from position `from` on in a
/// field that is `width` columns wide, `run` characters of the current
/// line having been seen: every line of the input takes the rows that its
/// characters need, the last one with one character more, for the cursor.
pub open spec fn input_rows_from(buffer: Seq<char>, from: int, run: int, width: int) -> int
    decreases buffer.len() - from,
{
    if from < 0 || from >= buffer.len() {
        rows_for(run + 1, width)
    } else if buffer[from] == '\n' {
        rows_for(run, width) + input_rows_from(buffer, from + 1, 0, width)
    } else {
        input_rows_from(buffer, from + 1, run + 1, width)
    }
}

/// How many rows the input takes in a field that is `width` columns wide.
pub open spec fn input_rows(buffer: Seq<char>, width: int) -> int {
    input_rows_from(buffer, 0, 0, width)
}

fn rows(len: u128, width: usize) -> (n: u128)
    requires
        len <= usize::MAX + 1,
    ensures
        n == rows_for(len as int, width as int),
        1 <= n,
        n <= len || n == 1,
{
    if len <= width as u128 || width == 0 {
        1
    } else {
        let n = (len - 1) / (width as u128) + 1;
        assert(n == (len + width - 1) / (width as int)) by (nonlinear_arith)
            requires
                n == (len - 1) / (width as int) + 1,
                width > 0,
                len > width,
        ;
        assert(n <= len) by (nonlinear_arith)
            requires
                n == (len - 1) / (width as int) + 1,
                width > 0,
                len > width,
        ;
        n
    }
}

/// How many rows the input takes in a field that is `width` columns wide.
/// A count beyond what the machine counts to is cut down to that.
pub fn input_line_count(buffer: &Vec<char>, width: usize) -> (count: usize)
    ensures
        count == if input_rows(buffer@, width as int) <= usize::MAX {
            input_rows(buffer@, width as int)
        } else {
            usize::MAX as int
        },
{
    let mut total: u128 = 0;
    let mut run: usize = 0;
    let mut i: usize = 0;
    while i < buffer.len()
        invariant
            i <= buffer.len(),
            run <= i,
            total + run <= 2 * i,
            total + input_rows_from(buffer@, i as int, run as int, width as int) == input_rows(
                buffer@,
                width as int,
            ),
        decreases buffer.len() - i,
    {
        if buffer[i] == '\n' {
            total = total + rows(run as u128, width);
            run = 0;
        } else {
            run = run + 1;
        }
        i = i + 1;
    }
    total = total + rows(run as u128 + 1, width);
    if total > usize::MAX as u128 {
        usize::MAX
    } else {
        total as usize
    }
}

/// One line as it is painted into a field that is `width` columns wide:
/// a line that is longer is wrapped at its blanks.
pub open spec fn refold_one(line: LineView, width: int) -> Seq<LineView> {
    if width > 0 && line.text.len() > width {
        styled(wrap_lines(words(line.text), width), line.style, line.sender_id)
    } else {
        seq![line]
    }
}

/// The first `upto` of the lines as they are painted into a field that is
/// `width` columns wide.
pub open spec fn refolded(lines: Seq<LineView>, width: int, upto: int) -> Seq<LineView>
    decreases upto,
{
    if upto <= 0 {
        Seq::empty()
    } else {
        refolded(lines, width, upto - 1) + refold_one(lines[upto - 1], width)
    }
}

/// The lines as they are painted into a field that is `width` columns
/// wide.
pub fn rewrap(lines: &Vec<DisplayLine>, width: usize) -> (out: Vec<DisplayLine>)
    ensures
        line_views(out@) == refolded(line_views(lines@), width as int, lines@.len() as int),
{
    let ghost all = line_views(lines@);
    let mut out: Vec<DisplayLine> = Vec::new();
    let mut i: usize = 0;
    assert(line_views(out@) =~= refolded(all, width as int, 0));
    while i < lines.len()
        invariant
            i <= lines.len(),
            all == line_views(lines@),
            line_views(out@) == refolded(all, width as int, i as int),
        decreases lines.len() - i,
    {
        let text = chars_of(lines[i].text.as_str());
        assert(all[i as int] == lines@[i as int]@);
        if width > 0 && text.len() > width {
            let parts = split_words(&text);
            assert(texts(parts@) =~= words(text@));
            let folded = wrap(&parts, width);
            push_styled(&mut out, &folded, lines[i].style, lines[i].sender_id);
        } else {
            push_line(&mut out, &text, lines[i].style, lines[i].sender_id);
            assert(seq![
                LineView {
                    text: text@,
                    style: lines@[i as int].style,
                    sender_id: lines@[i as int].sender_id,
                },
            ] =~= seq![all[i as int]]);
        }
        i = i + 1;
    }
    out
}

impl ChatPane {
    /// All the lines that the pane shows: those of its messages, and,
    /// behind an empty line, its status lines. A pane without messages
    /// shows its status lines alone.
    pub open spec fn shown_lines(
        self,
        width: usize,
        options: DisplayOptions,
        aliases: Map<i64, Seq<char>>,
    ) -> Seq<LineView> {
        let status = styled(string_views(self.messages@), LineStyle::Default, None);
        if self.msg_data@.len() == 0 {
            status
        } else if self.messages@.len() == 0 {
            self.lines(width, options, aliases)
        } else {
            self.lines(width, options, aliases) + seq![
                LineView { text: Seq::empty(), style: LineStyle::Default, sender_id: None },
            ] + status
        }
    }

    /// All the lines that the pane shows at `width` and with `options`.
    pub fn render_lines(&mut self, width: usize, options: DisplayOptions, aliases: &Aliases) -> (lines:
        Vec<DisplayLine>)
        requires
            old(self).cache_sound(aliases@),
        ensures
            line_views(lines@) == old(self).shown_lines(width, options, aliases@),
            final(self).cache_sound(aliases@),
            *final(self) == (ChatPane { format_cache: final(self).format_cache, ..*old(self) }),
    {
        let mut lines: Vec<DisplayLine> = if self.msg_data.len() > 0 {
            self.display_lines(width, options, aliases)
        } else {
            Vec::new()
        };
        let ghost made = line_views(lines@);
        if self.msg_data.len() > 0 && self.messages.len() > 0 {
            let blank: Vec<char> = Vec::new();
            push_line(&mut lines, &blank, LineStyle::Default, None);
        }
        let ghost parted = line_views(lines@);
        let mut i: usize = 0;
        let ghost status = string_views(self.messages@);
        assert(line_views(lines@) =~= parted + styled(status.take(0), LineStyle::Default, None));
        while i < self.messages.len()
            invariant
                i <= self.messages.len(),
                status == string_views(self.messages@),
                line_views(lines@) == parted + styled(status.take(i as int), LineStyle::Default, None),
            decreases self.messages.len() - i,
        {
            let text = chars_of(self.messages[i].as_str());
            push_line(&mut lines, &text, LineStyle::Default, None);
            assert(line_views(lines@) =~= parted + styled(
                status.take(i + 1),
                LineStyle::Default,
                None,
            ));
            i = i + 1;
        }
        proof {
            assert(status.take(status.len() as int) =~= status);
            if self.msg_data@.len() == 0 {
                assert(parted =~= Seq::<LineView>::empty());
                assert(line_views(lines@) =~= styled(status, LineStyle::Default, None));
            } else if self.messages@.len() == 0 {
                assert(line_views(lines@) =~= made);
            }
        }
        lines
    }
}

impl App {
    /// All the lines that the pane at `pane_idx` shows at `width`, with
    /// the switches as they are.
    pub fn pane_lines(&mut self, pane_idx: usize, width: usize) -> (lines: Vec<DisplayLine>)
        requires
            old(self).well_formed(),
            pane_idx < old(self).panes@.len(),
        ensures
            line_views(lines@) == old(self).panes@[pane_idx as int].shown_lines(
                width,
                old(self).options(),
                old(self).aliases@,
            ),
            final(self).well_formed(),
            crate::events::one_pane_changed(old(self).panes@, final(self).panes@, pane_idx as int),
            final(self).panes@[pane_idx as int] == (ChatPane {
                format_cache: final(self).panes@[pane_idx as int].format_cache,
                ..old(self).panes@[pane_idx as int]
            }),
            *final(self) == (App { panes: final(self).panes, ..*old(self) }),
    {
        let options = self.display_options();
        let lines = self.panes[pane_idx].render_lines(width, options, &self.aliases);
        proof {
            assert forall|k: int| 0 <= k < self.panes@.len() implies (#[trigger] self.panes@[k]).cache_sound(
                self.aliases@,
            ) by {
                assert(old(self).panes@[k].cache_sound(old(self).aliases@));
            }
        }
        lines
    }

    /// Lays the panes out in `pane_area` and keeps the rectangle of every
    /// pane, for painting and for finding the pane under the pointer.
    pub fn arrange(&mut self, pane_area: Rect)
        ensures
            final(self).pane_areas@ == placed(
                Map::empty(),
                old(self).pane_tree@.layout(pane_area.clipped()),
            ),
            forall|pane: usize|
                #[trigger] final(self).pane_areas@.contains_key(pane) <==> old(
                    self,
                ).pane_tree@.has_leaf(pane),
            old(self).pane_tree@.well_formed() ==> tiles(
                old(self).pane_tree@.layout(pane_area.clipped()),
                pane_area.clipped(),
            ),
            *final(self) == (App { pane_areas: final(self).pane_areas, ..*old(self) }),
    {
        proof {
            if self.pane_tree@.well_formed() {
                lemma_layout_tiles(self.pane_tree@, pane_area.clipped());
            }
        }
        self.pane_areas = allocate(&self.pane_tree, pane_area);
    }

    /// The heading of the pane at `pane_idx`: while the keys go to the list
    /// of conversations, the current pane is marked as the one that the
    /// next conversation opens in.
    pub open spec fn pane_heading(self, pane_idx: int) -> Seq<char> {
        (if self.focus.focus_on_chat_list && self.focus.focused_pane_idx == pane_idx {
            "[TARGET] "@
        } else {
            Seq::empty()
        }) + self.panes@[pane_idx].heading()
    }

    /// The heading of the pane at `pane_idx`.
    pub fn pane_header(&self, pane_idx: usize) -> (text: String)
        requires
            pane_idx < self.panes@.len(),
        ensures
            text@ == self.pane_heading(pane_idx as int),
    {
        let mut out: Vec<char> = Vec::new();
        if self.focus.focus_on_chat_list && self.focus.focused_pane_idx == pane_idx {
            append_str(&mut out, "[TARGET] ");
        }
        let ghost marked = out@;
        let heading = self.panes[pane_idx].header_text();
        append_str(&mut out, heading.as_str());
        assert(out@ =~= marked + self.panes@[pane_idx as int].heading());
        string_of(&out)
    }
}

impl App {
    /// Whether the pane at position `k` shows the conversation of a group.
    pub open spec fn shows_group(self, k: int) -> bool {
        match self.panes@[k].chat_id {
            Some(chat_id) => self.group_chat(chat_id),
            None => false,
        }
    }

    /// Whether a message of the sender `sender_id` stands in a pane that
    /// shows a group, before the message at position `msg_upto` of the pane
    /// at position `pane_upto`.
    pub open spec fn group_sender_before(self, pane_upto: int, msg_upto: int, sender_id: i64)
        -> bool {
        exists|k: int, j: int|
            #![trigger self.panes@[k].msg_data@[j]]
            0 <= k < self.panes@.len() && self.shows_group(k) && 0 <= j
                < self.panes@[k].msg_data@.len() && self.panes@[k].msg_data@[j].sender_id
                == sender_id && (k < pane_upto || (k == pane_upto && j < msg_upto))
    }

    /// Whether a message of the sender `sender_id` stands in a pane that
    /// shows a group.
    pub open spec fn group_sender(self, sender_id: i64) -> bool {
        self.group_sender_before(self.panes@.len() as int, 0, sender_id)
    }

    /// The colours after those senders of `senders` that had none have got
    /// theirs: a sender that had a colour keeps it, another gets the one
    /// that its number gives.
    pub open spec fn coloured(colors: Map<i64, usize>, senders: spec_fn(i64) -> bool) -> Map<
        i64,
        usize,
    > {
        Map::new(
            |sender_id: i64| colors.contains_key(sender_id) || senders(sender_id),
            |sender_id: i64|
                if colors.contains_key(sender_id) {
                    colors[sender_id]
                } else {
                    (stirred(sender_id) % USER_COLORS) as usize
                },
        )
    }

    /// Gives a colour to every sender of a message in a pane that shows a
    /// group, unless the sender has one.
    pub fn assign_user_colors(&mut self)
        ensures
            final(self).user_colors@ == Self::coloured(
                old(self).user_colors@,
                |sender_id: i64| old(self).group_sender(sender_id),
            ),
            *final(self) == (App { user_colors: final(self).user_colors, ..*old(self) }),
    {
        let mut k: usize = 0;
        assert(self.user_colors@ =~= Self::coloured(
            old(self).user_colors@,
            |sender_id: i64| old(self).group_sender_before(0, 0, sender_id),
        ));
        while k < self.panes.len()
            invariant
                k <= self.panes.len(),
                *self == (App { user_colors: self.user_colors, ..*old(self) }),
                self.user_colors@ == Self::coloured(
                    old(self).user_colors@,
                    |sender_id: i64| old(self).group_sender_before(k as int, 0, sender_id),
                ),
            decreases self.panes.len() - k,
        {
            let in_group = match self.panes[k].chat_id {
                Some(chat_id) => self.is_group_chat(chat_id),
                None => false,
            };
            let count = if in_group {
                self.panes[k].msg_data.len()
            } else {
                0
            };
            let mut j: usize = 0;
            while j < count
                invariant
                    k < self.panes.len(),
                    j <= count,
                    in_group == old(self).shows_group(k as int),
                    count == if in_group {
                        self.panes@[k as int].msg_data@.len()
                    } else {
                        0
                    },
                    *self == (App { user_colors: self.user_colors, ..*old(self) }),
                    self.user_colors@ == Self::coloured(
                        old(self).user_colors@,
                        |sender_id: i64| old(self).group_sender_before(k as int, j as int, sender_id),
                    ),
                decreases count - j,
            {
                let sender_id = self.panes[k].msg_data[j].sender_id;
                if !self.user_colors.contains_key(&sender_id) {
                    let index = user_color_index(sender_id);
                    let _ = self.user_colors.insert(sender_id, index);
                }
                proof {
                    let is = |s: i64| old(self).group_sender_before(k as int, j + 1, s);
                    assert(old(self).panes@[k as int].msg_data@[j as int].sender_id == sender_id);
                    assert(old(self).group_sender_before(k as int, j + 1, sender_id));
                    assert forall|s: i64| #[trigger]
                        old(self).group_sender_before(k as int, j + 1, s) <==> (old(
                            self,
                        ).group_sender_before(k as int, j as int, s) || s == sender_id) by {
                        if old(self).group_sender_before(k as int, j as int, s) {
                            let (a, b) = choose|a: int, b: int|
                                #![trigger old(self).panes@[a].msg_data@[b]]
                                0 <= a < old(self).panes@.len() && old(self).shows_group(a) && 0
                                    <= b < old(self).panes@[a].msg_data@.len() && old(
                                    self,
                                ).panes@[a].msg_data@[b].sender_id == s && (a < k || (a == k
                                    && b < j));
                            assert(old(self).panes@[a].msg_data@[b].sender_id == s);
                        }
                    }
                    assert(self.user_colors@ =~= Self::coloured(old(self).user_colors@, is));
                }
                j = j + 1;
            }
            proof {
                let was = |s: i64| old(self).group_sender_before(k as int, count as int, s);
                let is = |s: i64| old(self).group_sender_before(k + 1, 0, s);
                assert forall|s: i64| #[trigger]
                    old(self).group_sender_before(k + 1, 0, s) <==> old(
                        self,
                    ).group_sender_before(k as int, count as int, s) by {
                    if old(self).group_sender_before(k + 1, 0, s) {
                        let (a, b) = choose|a: int, b: int|
                            #![trigger old(self).panes@[a].msg_data@[b]]
                            0 <= a < old(self).panes@.len() && old(self).shows_group(a) && 0 <= b
                                < old(self).panes@[a].msg_data@.len() && old(
                                self,
                            ).panes@[a].msg_data@[b].sender_id == s && (a < k + 1 || (a == k + 1
                                && b < 0));
                        assert(old(self).panes@[a].msg_data@[b].sender_id == s);
                    }
                    if old(self).group_sender_before(k as int, count as int, s) {
                        let (a, b) = choose|a: int, b: int|
                            #![trigger old(self).panes@[a].msg_data@[b]]
                            0 <= a < old(self).panes@.len() && old(self).shows_group(a) && 0 <= b
                                < old(self).panes@[a].msg_data@.len() && old(
                                self,
                            ).panes@[a].msg_data@[b].sender_id == s && (a < k || (a == k && b
                                < count));
                        assert(old(self).panes@[a].msg_data@[b].sender_id == s);
                    }
                }
                assert(Self::coloured(old(self).user_colors@, was) =~= Self::coloured(
                    old(self).user_colors@,
                    is,
                ));
            }
            k = k + 1;
        }
    }

    /// The colour of the sender `sender_id`, if it has one.
    pub fn user_color(&self, sender_id: i64) -> (color: Option<usize>)
        ensures
            color == if self.user_colors@.contains_key(sender_id) {
                Some(self.user_colors@[sender_id])
            } else {
                None
            },
    {
        match self.user_colors.get(&sender_id) {
            Some(index) => Some(*index),
            None => None,
        }
    }
}

} // verus!
