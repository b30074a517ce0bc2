use vstd::prelude::*;
use std::collections::HashMap;
use crate::aliases::Aliases;
use crate::focus::{position, FocusController};
use crate::format_cache::{DisplayOptions, FormatCache};
use crate::geometry::Rect;
use crate::layout::PaneRectMap;
use crate::message::opt_text;
use crate::pane_tree::{first_position, PaneNode, Shape, SplitDirection};
use crate::pane_tree_laws::{
    law_remove_leaves_pane_absent, lemma_first_position_found, lemma_many_leaves_is_split,
    lemma_remove_keeps_well_formed, law_remove_leaves_order, lemma_split_keeps_unique,
    lemma_split_keeps_well_formed, law_split_leaves_order, lemma_toggle_keeps_well_formed,
    lemma_toggle_leaves,
};
use crate::text::{append, append_str, chars_of, decimal_wide, digits, ordinal, string_of};
use crate::utils::{is_same_day, same_day};
use crate::widgets::ChatPane;

verus! {

/// For how many seconds a note stays in the status bar unless it asks for
/// more.
pub const NOTE_SECONDS: u64 = 3;

/// One conversation of the list beside the panes.
#[derive(Debug, PartialEq, Eq)]
pub struct ChatInfo {
    pub id: i64,
    pub name: String,
    pub username: Option<String>,
    pub unread: u32,
    pub is_channel: bool,
    pub is_group: bool,
}

impl Clone for ChatInfo {
    fn clone(&self) -> (copy: Self)
        ensures
            copy.id == self.id,
            copy.name@ == self.name@,
            opt_text(copy.username) == opt_text(self.username),
            copy.unread == self.unread,
            copy.is_channel == self.is_channel,
            copy.is_group == self.is_group,
    {
        ChatInfo {
            id: self.id,
            name: self.name.clone(),
            username: crate::message::copy_text(&self.username),
            unread: self.unread,
            is_channel: self.is_channel,
            is_group: self.is_group,
        }
    }
}

/// The state of the client between two events: the conversations, the
/// panes and the tree that arranges them, the focus, what was typed
/// before, the aliases, the note in the status bar and the switches of the
/// display.
pub struct App {
    pub my_user_id: i64,
    pub chats: Vec<ChatInfo>,
    pub selected_chat_idx: usize,
    pub panes: Vec<ChatPane>,
    pub focus: FocusController,
    pub pane_tree: PaneNode,
    pub input_history: Vec<Vec<char>>,
    pub history_idx: Option<usize>,
    pub history_temp: Vec<char>,
    pub aliases: Aliases,
    pub status_message: Option<String>,
    pub status_seconds: u64,
    pub status_pending: bool,
    pub pane_areas: PaneRectMap,
    pub chat_list_area: Option<Rect>,
    pub needs_redraw: bool,
    pub show_reactions: bool,
    pub show_notifications: bool,
    pub compact_mode: bool,
    pub show_emojis: bool,
    pub show_line_numbers: bool,
    pub show_timestamps: bool,
    pub show_chat_list: bool,
    pub show_user_colors: bool,
    pub show_borders: bool,
    /// The colours of the senders in groups: for each sender that has one,
    /// which of the colours it is.
    pub user_colors: HashMap<i64, usize>,
    /// The instant that the times of the messages are read against, in
    /// seconds since the beginning of 1970.
    pub now: i64,
    /// How many seconds east of Greenwich the times are read.
    pub utc_offset: i32,
}

/// `ON` or `OFF`.
pub open spec fn on_off(on: bool) -> Seq<char> {
    if on {
        "ON"@
    } else {
        "OFF"@
    }
}

/// The note that tells where the focus went.
pub open spec fn focus_note(focus: FocusController) -> Seq<char> {
    if focus.focus_on_chat_list {
        "Focus: Chat List"@
    } else {
        "Focus: Pane #"@ + digits((focus.focused_pane_idx + 1) as nat)
    }
}

/// The note that tells that a pane was closed.
pub open spec fn closed_note(pane: usize, before: nat, after: nat) -> Seq<char> {
    "Closed pane "@ + digits(pane as nat) + " ("@ + digits(before) + " -> "@ + digits(after)
        + " panes)"@
}

/// The panes, each with its memory of formatted lines emptied.
pub open spec fn caches_cleared(before: Seq<ChatPane>, after: Seq<ChatPane>) -> bool {
    &&& after.len() == before.len()
    &&& forall|k: int|
        0 <= k < before.len() ==> #[trigger] after[k] == (ChatPane {
            format_cache: FormatCache { entry: None },
            ..before[k]
        })
}

/// Removing a leaf from a tree of more than one leaf takes one leaf away
/// where the tree has the leaf, and changes nothing where not.
pub proof fn lemma_remove_effect(tree: Shape, target: usize)
    requires
        tree.leaves().len() > 1,
    ensures
        tree.encloses(target) <==> tree.has_leaf(target),
        tree.has_leaf(target) ==> tree.remove_leaf(target).leaves().len() == tree.leaves().len()
            - 1,
        !tree.has_leaf(target) ==> tree.remove_leaf(target) == tree,
{
    lemma_many_leaves_is_split(tree);
    if tree.has_leaf(target) {
        law_remove_leaves_order(tree, target);
        lemma_first_position_found(tree.leaves(), target);
    } else {
        crate::pane_tree::lemma_remove_absent(tree, target);
    }
}

/// Removing a leaf from a tree that can stand over a store of panes leaves
/// a tree that can.
pub proof fn lemma_remove_keeps_valid(tree: Shape, target: usize, pane_count: int)
    requires
        tree.well_formed(),
        tree.leaves_unique(),
        tree.leaves_below(pane_count),
        tree.leaves().len() > 1,
    ensures
        tree.remove_leaf(target).well_formed(),
        tree.remove_leaf(target).leaves_unique(),
        tree.remove_leaf(target).leaves_below(pane_count),
{
    lemma_many_leaves_is_split(tree);
    lemma_remove_keeps_well_formed(tree, target);
    if tree.has_leaf(target) {
        law_remove_leaves_order(tree, target);
        law_remove_leaves_pane_absent(tree, target);
        lemma_first_position_found(tree.leaves(), target);
        let at = first_position(tree.leaves(), target);
        let rest = tree.leaves().remove(at);
        assert forall|k: int| 0 <= k < rest.len() implies (#[trigger] rest[k]) < pane_count by {
            if k < at {
                assert(rest[k] == tree.leaves()[k]);
            } else {
                assert(rest[k] == tree.leaves()[k + 1]);
            }
        }
    } else {
        crate::pane_tree::lemma_remove_absent(tree, target);
    }
}

/// Whether `after` differs from `before` in the pane at position `at`
/// alone, and there in what is typed alone.
pub open spec fn input_edited(before: Seq<ChatPane>, after: Seq<ChatPane>, at: int) -> bool {
    &&& after.len() == before.len()
    &&& forall|k: int| 0 <= k < before.len() && k != at ==> after[k] == before[k]
    &&& 0 <= at < before.len() ==> before[at].edited_to(after[at])
}

/// Typing disturbs neither the tree nor what the panes remember.
pub proof fn lemma_typing_keeps_well_formed(before: App, after: App, at: int)
    requires
        before.well_formed(),
        after.pane_tree == before.pane_tree,
        after.aliases == before.aliases,
        input_edited(before.panes@, after.panes@, at),
    ensures
        after.well_formed(),
{
    assert forall|k: int| 0 <= k < after.panes@.len() implies (#[trigger] after.panes@[k]).cache_sound(
        after.aliases@,
    ) by {
        assert(before.panes@[k].cache_sound(before.aliases@));
        if k != at {
            assert(after.panes@[k] == before.panes@[k]);
        }
    }
}

/// Whether `after` differs from `before` in the pane at position `at`
/// alone, and there in where its view stands alone.
pub open spec fn view_moved(before: Seq<ChatPane>, after: Seq<ChatPane>, at: int) -> bool {
    &&& after.len() == before.len()
    &&& forall|k: int| 0 <= k < before.len() && k != at ==> after[k] == before[k]
    &&& 0 <= at < before.len() ==> after[at] == (ChatPane {
        scroll_offset: after[at].scroll_offset,
        ..before[at]
    })
}

impl App {
    /// The tree is one that can stand over the store of panes, and no pane
    /// remembers lines that formatting would not give.
    pub open spec fn well_formed(self) -> bool {
        &&& self.pane_tree@.well_formed()
        &&& self.pane_tree@.leaves_unique()
        &&& self.pane_tree@.leaves_below(self.panes@.len() as int)
        &&& forall|k: int|
            0 <= k < self.panes@.len() ==> (#[trigger] self.panes@[k]).cache_sound(self.aliases@)
    }

    /// Whether the status bar freshly shows `text` for `seconds` seconds.
    pub open spec fn says(self, text: Seq<char>, seconds: u64) -> bool {
        &&& opt_text(self.status_message) == Some(text)
        &&& self.status_seconds == seconds
        &&& self.status_pending
    }

    /// The switches that the lines of a pane depend on.
    pub open spec fn options(self) -> DisplayOptions {
        DisplayOptions {
            compact: self.compact_mode,
            show_emojis: self.show_emojis,
            show_reactions: self.show_reactions,
            show_timestamps: self.show_timestamps,
            show_line_numbers: self.show_line_numbers,
            now: self.now,
            utc_offset: self.utc_offset,
        }
    }

    /// The switches that the lines of a pane depend on.
    pub fn display_options(&self) -> (options: DisplayOptions)
        ensures
            options == self.options(),
    {
        DisplayOptions {
            compact: self.compact_mode,
            show_emojis: self.show_emojis,
            show_reactions: self.show_reactions,
            show_timestamps: self.show_timestamps,
            show_line_numbers: self.show_line_numbers,
            now: self.now,
            utc_offset: self.utc_offset,
        }
    }

    /// The instant that the clock stands at after it was set at the
    /// instant `now`, read `utc_offset` seconds east of Greenwich: the
    /// instant it stood at, where that is of the same day there, so that
    /// the lines that were made stay good for the day; else `now`.
    pub open spec fn clock_after(self, now: i64, utc_offset: i32) -> i64 {
        if utc_offset == self.utc_offset && same_day(self.now, now, utc_offset) {
            self.now
        } else {
            now
        }
    }

    /// Sets the clock that the times of the messages are read against.
    pub fn set_clock(&mut self, now: i64, utc_offset: i32)
        ensures
            *final(self) == (App {
                now: old(self).clock_after(now, utc_offset),
                utc_offset,
                ..*old(self)
            }),
            old(self).well_formed() ==> final(self).well_formed(),
    {
        if utc_offset != self.utc_offset || !is_same_day(self.now, now, utc_offset) {
            self.now = now;
            self.utc_offset = utc_offset;
        }
    }

    /// Puts a note in the status bar for the usual time.
    pub fn notify(&mut self, message: &str)
        ensures
            final(self).says(message@, NOTE_SECONDS),
            *final(self) == (App {
                status_message: final(self).status_message,
                status_seconds: NOTE_SECONDS,
                status_pending: true,
                ..*old(self)
            }),
    {
        self.notify_with_duration(message, NOTE_SECONDS);
    }

    /// Puts a note in the status bar for `duration_secs` seconds.
    pub fn notify_with_duration(&mut self, message: &str, duration_secs: u64)
        ensures
            final(self).says(message@, duration_secs),
            *final(self) == (App {
                status_message: final(self).status_message,
                status_seconds: duration_secs,
                status_pending: true,
                ..*old(self)
            }),
    {
        let chars = chars_of(message);
        self.note(&chars, duration_secs);
    }

    /// Puts the note `text` in the status bar for `seconds` seconds.
    pub fn note(&mut self, text: &Vec<char>, seconds: u64)
        ensures
            final(self).says(text@, seconds),
            *final(self) == (App {
                status_message: final(self).status_message,
                status_seconds: seconds,
                status_pending: true,
                ..*old(self)
            }),
    {
        self.status_message = Some(string_of(text));
        self.status_seconds = seconds;
        self.status_pending = true;
    }

    /// Takes the note out of the status bar: its time is over.
    pub fn clear_status(&mut self)
        ensures
            *final(self) == (App {
                status_message: None,
                status_pending: false,
                ..*old(self)
            }),
    {
        self.status_message = None;
        self.status_pending = false;
    }

    /// Tells that the clock for the note in the status bar has been set.
    pub fn status_armed(&mut self)
        ensures
            *final(self) == (App { status_pending: false, ..*old(self) }),
    {
        self.status_pending = false;
    }

    /// Says `label`, a colon, and `ON` or `OFF`.
    fn note_switch(&mut self, label: &str, on: bool)
        ensures
            final(self).says(label@ + ": "@ + on_off(on), NOTE_SECONDS),
            *final(self) == (App {
                status_message: final(self).status_message,
                status_seconds: NOTE_SECONDS,
                status_pending: true,
                ..*old(self)
            }),
    {
        let mut text = chars_of(label);
        append_str(&mut text, ": ");
        if on {
            append_str(&mut text, "ON");
        } else {
            append_str(&mut text, "OFF");
        }
        self.note(&text, NOTE_SECONDS);
    }

    /// Says where the focus is.
    fn note_focus(&mut self)
        ensures
            final(self).says(focus_note(old(self).focus), NOTE_SECONDS),
            *final(self) == (App {
                status_message: final(self).status_message,
                status_seconds: NOTE_SECONDS,
                status_pending: true,
                ..*old(self)
            }),
    {
        if self.focus.focus_on_chat_list {
            self.notify("Focus: Chat List");
        } else {
            let mut text = chars_of("Focus: Pane #");
            let number = ordinal(self.focus.focused_pane_idx);
            append(&mut text, &number);
            self.note(&text, NOTE_SECONDS);
        }
    }

    /// Empties the memory of formatted lines of every pane.
    pub fn refresh_all_pane_displays(&mut self)
        ensures
            caches_cleared(old(self).panes@, final(self).panes@),
            *final(self) == (App { panes: final(self).panes, ..*old(self) }),
            old(self).well_formed() ==> final(self).well_formed(),
    {
        let mut i: usize = 0;
        while i < self.panes.len()
            invariant
                i <= self.panes.len(),
                self.panes@.len() == old(self).panes@.len(),
                *self == (App { panes: self.panes, ..*old(self) }),
                forall|k: int|
                    0 <= k < i ==> #[trigger] self.panes@[k] == (ChatPane {
                        format_cache: FormatCache { entry: None },
                        ..old(self).panes@[k]
                    }),
                forall|k: int| i <= k < self.panes@.len() ==> self.panes@[k] == old(self).panes@[k],
            decreases self.panes.len() - i,
        {
            self.panes[i].format_cache.clear();
            i = i + 1;
        }
    }

    fn split_pane_in_tree(&mut self, target_idx: usize, direction: SplitDirection, new_idx: usize)
        ensures
            final(self).pane_tree@ == old(self).pane_tree@.split(target_idx, direction, new_idx),
            *final(self) == (App { pane_tree: final(self).pane_tree, ..*old(self) }),
    {
        let _ = self.pane_tree.split(target_idx, direction, new_idx);
    }

    /// What a split of the current pane along `direction` makes of `self`.
    /// Where the tree has the current pane, a new, empty pane joins the
    /// store and takes its place in the tree beside the current one, and
    /// the focus goes to it. Where the tree does not have it, nothing
    /// changes but the status bar, which says so.
    pub open spec fn split_into(self, after: App, direction: SplitDirection) -> bool {
        if self.pane_tree@.has_leaf(self.focus.focused_pane_idx) {
            &&& after.panes@.len() == self.panes@.len() + 1
            &&& after.panes@.drop_last() == self.panes@
            &&& after.panes@.last().is_blank()
            &&& after.pane_tree@ == self.pane_tree@.split(
                self.focus.focused_pane_idx,
                direction,
                self.panes@.len() as usize,
            )
            &&& after.focus == FocusController::on_leaf(self.panes@.len() as usize)
            &&& after == (App {
                panes: after.panes,
                pane_tree: after.pane_tree,
                focus: after.focus,
                ..self
            })
        } else {
            &&& after.says("Cannot split - pane is not in the layout"@, NOTE_SECONDS)
            &&& after == (App {
                status_message: after.status_message,
                status_seconds: NOTE_SECONDS,
                status_pending: true,
                ..self
            })
        }
    }

    /// Splits the current pane along `direction`.
    #[verifier::rlimit(40)]
    fn split_focused(&mut self, direction: SplitDirection)
        ensures
            old(self).well_formed() ==> final(self).well_formed(),
            old(self).split_into(*final(self), direction),
    {
        let target = self.focus.focused_pane_idx;
        if !self.pane_tree.contains_leaf(target) {
            self.notify("Cannot split - pane is not in the layout");
            return;
        }
        let new_pane = ChatPane::new();
        let new_idx = self.panes.len();
        proof {
            let tree = self.pane_tree@;
            if self.well_formed() {
                if tree.has_leaf(new_idx) {
                    let k = choose|k: int|
                        0 <= k < tree.leaves().len() && tree.leaves()[k] == new_idx;
                    assert(tree.leaves()[k] < self.panes@.len());
                }
                lemma_split_keeps_well_formed(tree, target, direction, new_idx);
                lemma_split_keeps_unique(tree, target, direction, new_idx);
                law_split_leaves_order(tree, target, direction, new_idx);
                lemma_first_position_found(tree.leaves(), target);
            }
        }
        self.panes.push(new_pane);
        self.split_pane_in_tree(target, direction, new_idx);
        self.focus.focus_leaf(new_idx);
        proof {
            assert(self.panes@.drop_last() =~= old(self).panes@);
            if old(self).well_formed() {
                assert forall|k: int| 0 <= k < self.panes@.len() implies (
                #[trigger] self.panes@[k]).cache_sound(self.aliases@) by {
                    if k < old(self).panes@.len() {
                        assert(self.panes@[k] == old(self).panes@[k]);
                    }
                }
            }
        }
    }

    /// Splits the current pane into two side by side. A pane that the
    /// layout does not have is not split: the status bar says so.
    pub fn split_vertical(&mut self)
        ensures
            old(self).well_formed() ==> final(self).well_formed(),
            old(self).split_into(*final(self), SplitDirection::Vertical),
    {
        self.split_focused(SplitDirection::Vertical);
    }

    /// Splits the current pane into two, one below the other. A pane that
    /// the layout does not have is not split: the status bar says so.
    pub fn split_horizontal(&mut self)
        ensures
            old(self).well_formed() ==> final(self).well_formed(),
            old(self).split_into(*final(self), SplitDirection::Horizontal),
    {
        self.split_focused(SplitDirection::Horizontal);
    }

    /// Flips the axis of the split that holds the current pane.
    pub fn toggle_split_direction(&mut self)
        ensures
            old(self).well_formed() ==> final(self).well_formed(),
            final(self).pane_tree@ == old(self).pane_tree@.toggle_axis(
                old(self).focus.focused_pane_idx,
            ),
            final(self).says(
                if old(self).pane_tree@.encloses(old(self).focus.focused_pane_idx) {
                    "Split direction toggled"@
                } else {
                    "No split to toggle - pane is not in a split"@
                },
                NOTE_SECONDS,
            ),
            *final(self) == (App {
                pane_tree: final(self).pane_tree,
                status_message: final(self).status_message,
                status_seconds: NOTE_SECONDS,
                status_pending: true,
                ..*old(self)
            }),
    {
        proof {
            if self.well_formed() {
                lemma_toggle_keeps_well_formed(self.pane_tree@, self.focus.focused_pane_idx);
            }
            lemma_toggle_leaves(self.pane_tree@, self.focus.focused_pane_idx);
        }
        if self.pane_tree.toggle_axis(self.focus.focused_pane_idx) {
            self.notify("Split direction toggled");
        } else {
            self.notify("No split to toggle - pane is not in a split");
        }
    }

    /// Closes the current pane: its leaf leaves the tree, and the first
    /// pane in display order becomes the current one. The last pane cannot
    /// be closed.
    #[verifier::rlimit(40)]
    pub fn close_pane(&mut self)
        ensures
            old(self).well_formed() ==> final(self).well_formed(),
            old(self).pane_tree@.leaves().len() <= 1 ==> {
                &&& final(self).pane_tree@ == old(self).pane_tree@
                &&& final(self).focus == old(self).focus
                &&& final(self).says("Cannot close the last pane"@, NOTE_SECONDS)
            },
            old(self).pane_tree@.leaves().len() > 1 && !old(self).pane_tree@.has_leaf(
                old(self).focus.focused_pane_idx,
            ) ==> {
                &&& final(self).pane_tree@ == old(self).pane_tree@
                &&& final(self).focus == old(self).focus
                &&& final(self).says("Failed to close pane"@, NOTE_SECONDS)
            },
            old(self).pane_tree@.leaves().len() > 1 && old(self).pane_tree@.has_leaf(
                old(self).focus.focused_pane_idx,
            ) ==> {
                &&& final(self).pane_tree@ == old(self).pane_tree@.remove_leaf(
                    old(self).focus.focused_pane_idx,
                )
                &&& final(self).focus == (FocusController {
                    focused_pane_idx: final(self).pane_tree@.leaves()[0],
                    ..old(self).focus
                })
                &&& final(self).says(
                    closed_note(
                        old(self).focus.focused_pane_idx,
                        old(self).pane_tree@.leaves().len(),
                        (old(self).pane_tree@.leaves().len() - 1) as nat,
                    ),
                    NOTE_SECONDS,
                )
            },
            *final(self) == (App {
                pane_tree: final(self).pane_tree,
                focus: final(self).focus,
                status_message: final(self).status_message,
                status_seconds: NOTE_SECONDS,
                status_pending: true,
                ..*old(self)
            }),
    {
        let pane_count_before = self.pane_tree.count_leaves();
        if pane_count_before <= 1 {
            self.notify("Cannot close the last pane");
            return;
        }
        let focused_idx = self.focus.focused_pane_idx;
        proof {
            lemma_remove_effect(self.pane_tree@, focused_idx);
            if self.well_formed() {
                lemma_remove_keeps_valid(self.pane_tree@, focused_idx, self.panes@.len() as int);
            }
        }
        let removed = self.pane_tree.remove_leaf(focused_idx);
        if removed {
            let pane_count_after = self.pane_tree.count_leaves();
            self.note_closed(focused_idx, pane_count_before, pane_count_after);
            let remaining = self.pane_tree.leaf_indices();
            if remaining.len() > 0 {
                self.focus.focused_pane_idx = remaining[0];
            }
        } else {
            self.notify("Failed to close pane");
        }
    }

    /// Says that a pane was closed.
    fn note_closed(&mut self, pane: usize, before: usize, after: usize)
        ensures
            final(self).says(closed_note(pane, before as nat, after as nat), NOTE_SECONDS),
            *final(self) == (App {
                status_message: final(self).status_message,
                status_seconds: NOTE_SECONDS,
                status_pending: true,
                ..*old(self)
            }),
    {
        let mut text = chars_of("Closed pane ");
        let number = decimal_wide(pane as u128);
        append(&mut text, &number);
        append_str(&mut text, " (");
        let before_text = decimal_wide(before as u128);
        append(&mut text, &before_text);
        append_str(&mut text, " -> ");
        let after_text = decimal_wide(after as u128);
        append(&mut text, &after_text);
        append_str(&mut text, " panes)");
        self.note(&text, NOTE_SECONDS);
    }

    /// Empties the current pane.
    pub fn clear_pane(&mut self)
        ensures
            old(self).focus.focused_pane_idx >= old(self).panes@.len() ==> *final(self) == *old(
                self,
            ),
            old(self).focus.focused_pane_idx < old(self).panes@.len() ==> {
                &&& final(self).panes@.len() == old(self).panes@.len()
                &&& forall|k: int|
                    0 <= k < old(self).panes@.len() && k != old(self).focus.focused_pane_idx
                        ==> final(self).panes@[k] == old(self).panes@[k]
                &&& final(self).panes@[old(self).focus.focused_pane_idx as int].msg_data@.len()
                    == 0
                &&& final(self).panes@[old(self).focus.focused_pane_idx as int].messages@.len()
                    == 0
            },
            *final(self) == (App { panes: final(self).panes, ..*old(self) }),
            old(self).well_formed() ==> final(self).well_formed(),
    {
        let at = self.focus.focused_pane_idx;
        if at < self.panes.len() {
            self.panes[at].clear();
            proof {
                assert forall|k: int| 0 <= k < self.panes@.len() && old(self).well_formed() implies (
                #[trigger] self.panes@[k]).cache_sound(self.aliases@) by {
                    if k != at {
                        assert(self.panes@[k] == old(self).panes@[k]);
                    }
                }
            }
        }
    }

    /// Moves the focus one step forward through the list and the panes.
    pub fn cycle_focus(&mut self)
        ensures
            final(self).focus == old(self).focus.forward(old(self).pane_tree@.leaves()),
            old(self).pane_tree@.leaves().len() == 0 ==> *final(self) == *old(self),
            old(self).pane_tree@.leaves().len() > 0 ==> final(self).says(
                focus_note(final(self).focus),
                NOTE_SECONDS,
            ),
            *final(self) == (App {
                focus: final(self).focus,
                status_message: final(self).status_message,
                status_seconds: final(self).status_seconds,
                status_pending: final(self).status_pending,
                ..*old(self)
            }),
    {
        let all_panes = self.pane_tree.leaf_indices();
        if all_panes.len() == 0 {
            return;
        }
        self.focus.cycle_forward(&all_panes);
        self.note_focus();
    }

    /// Moves the focus one step backward through the list and the panes.
    pub fn cycle_focus_reverse(&mut self)
        ensures
            final(self).focus == old(self).focus.backward(old(self).pane_tree@.leaves()),
            final(self).focus == old(self).focus ==> *final(self) == *old(self),
            final(self).focus != old(self).focus ==> final(self).says(
                focus_note(final(self).focus),
                NOTE_SECONDS,
            ),
            *final(self) == (App {
                focus: final(self).focus,
                status_message: final(self).status_message,
                status_seconds: final(self).status_seconds,
                status_pending: final(self).status_pending,
                ..*old(self)
            }),
    {
        let all_panes = self.pane_tree.leaf_indices();
        if all_panes.len() == 0 {
            return;
        }
        let before = self.focus;
        self.focus.cycle_backward(&all_panes);
        if self.focus.focus_on_chat_list != before.focus_on_chat_list
            || self.focus.focused_pane_idx != before.focused_pane_idx {
            self.note_focus();
        }
    }

    /// Moves the focus to the next pane, the first following the last.
    pub fn focus_next_pane(&mut self)
        ensures
            final(self).focus == old(self).focus.next(old(self).pane_tree@.leaves()),
            old(self).pane_tree@.leaves().len() >= 2 && old(self).pane_tree@.has_leaf(
                old(self).focus.focused_pane_idx,
            ) ==> final(self).says(focus_note(final(self).focus), NOTE_SECONDS),
            !(old(self).pane_tree@.leaves().len() >= 2 && old(self).pane_tree@.has_leaf(
                old(self).focus.focused_pane_idx,
            )) ==> *final(self) == *old(self),
            *final(self) == (App {
                focus: final(self).focus,
                status_message: final(self).status_message,
                status_seconds: final(self).status_seconds,
                status_pending: final(self).status_pending,
                ..*old(self)
            }),
    {
        let all_panes = self.pane_tree.leaf_indices();
        proof {
            lemma_first_position_found(all_panes@, self.focus.focused_pane_idx);
        }
        if self.focus.focus_next(&all_panes) {
            self.note_focus();
        }
    }

    /// Moves the focus to the pane before, the last preceding the first.
    pub fn focus_prev_pane(&mut self)
        ensures
            final(self).focus == old(self).focus.prev(old(self).pane_tree@.leaves()),
            old(self).pane_tree@.leaves().len() >= 2 && old(self).pane_tree@.has_leaf(
                old(self).focus.focused_pane_idx,
            ) ==> final(self).says(focus_note(final(self).focus), NOTE_SECONDS),
            !(old(self).pane_tree@.leaves().len() >= 2 && old(self).pane_tree@.has_leaf(
                old(self).focus.focused_pane_idx,
            )) ==> *final(self) == *old(self),
            *final(self) == (App {
                focus: final(self).focus,
                status_message: final(self).status_message,
                status_seconds: final(self).status_seconds,
                status_pending: final(self).status_pending,
                ..*old(self)
            }),
    {
        let all_panes = self.pane_tree.leaf_indices();
        proof {
            lemma_first_position_found(all_panes@, self.focus.focused_pane_idx);
        }
        if self.focus.focus_prev(&all_panes) {
            self.note_focus();
        }
    }

    /// Shows or hides the reactions to messages. The lines of every pane are made anew.
    pub fn toggle_reactions(&mut self)
        ensures
            final(self).show_reactions == !old(self).show_reactions,
            final(self).says("Reactions"@ + ": "@ + on_off(final(self).show_reactions), NOTE_SECONDS),
            caches_cleared(old(self).panes@, final(self).panes@),
            *final(self) == (App {
                show_reactions: final(self).show_reactions,
                panes: final(self).panes,
                status_message: final(self).status_message,
                status_seconds: NOTE_SECONDS,
                status_pending: true,
                ..*old(self)
            }),
            old(self).well_formed() ==> final(self).well_formed(),
    {
        self.show_reactions = !self.show_reactions;
        self.note_switch("Reactions", self.show_reactions);
        self.refresh_all_pane_displays();
    }

    /// Turns the notifications of the desktop on or off.
    pub fn toggle_notifications(&mut self)
        ensures
            final(self).show_notifications == !old(self).show_notifications,
            final(self).says("Desktop notifications"@ + ": "@ + on_off(final(self).show_notifications), NOTE_SECONDS),
            *final(self) == (App {
                show_notifications: final(self).show_notifications,
                status_message: final(self).status_message,
                status_seconds: NOTE_SECONDS,
                status_pending: true,
                ..*old(self)
            }),
            old(self).well_formed() ==> final(self).well_formed(),
    {
        self.show_notifications = !self.show_notifications;
        self.note_switch("Desktop notifications", self.show_notifications);
    }

    /// Turns the compact display on or off. The lines of every pane are made anew.
    pub fn toggle_compact(&mut self)
        ensures
            final(self).compact_mode == !old(self).compact_mode,
            final(self).says("Compact mode"@ + ": "@ + on_off(final(self).compact_mode), NOTE_SECONDS),
            caches_cleared(old(self).panes@, final(self).panes@),
            *final(self) == (App {
                compact_mode: final(self).compact_mode,
                panes: final(self).panes,
                status_message: final(self).status_message,
                status_seconds: NOTE_SECONDS,
                status_pending: true,
                ..*old(self)
            }),
            old(self).well_formed() ==> final(self).well_formed(),
    {
        self.compact_mode = !self.compact_mode;
        self.note_switch("Compact mode", self.compact_mode);
        self.refresh_all_pane_displays();
    }

    /// Shows or hides emoji. The lines of every pane are made anew.
    pub fn toggle_emojis(&mut self)
        ensures
            final(self).show_emojis == !old(self).show_emojis,
            final(self).says("Emojis"@ + ": "@ + on_off(final(self).show_emojis), NOTE_SECONDS),
            caches_cleared(old(self).panes@, final(self).panes@),
            *final(self) == (App {
                show_emojis: final(self).show_emojis,
                panes: final(self).panes,
                status_message: final(self).status_message,
                status_seconds: NOTE_SECONDS,
                status_pending: true,
                ..*old(self)
            }),
            old(self).well_formed() ==> final(self).well_formed(),
    {
        self.show_emojis = !self.show_emojis;
        self.note_switch("Emojis", self.show_emojis);
        self.refresh_all_pane_displays();
    }

    /// Shows or hides the numbers of the messages. The lines of every pane are made anew.
    pub fn toggle_line_numbers(&mut self)
        ensures
            final(self).show_line_numbers == !old(self).show_line_numbers,
            final(self).says("Line numbers"@ + ": "@ + on_off(final(self).show_line_numbers), NOTE_SECONDS),
            caches_cleared(old(self).panes@, final(self).panes@),
            *final(self) == (App {
                show_line_numbers: final(self).show_line_numbers,
                panes: final(self).panes,
                status_message: final(self).status_message,
                status_seconds: NOTE_SECONDS,
                status_pending: true,
                ..*old(self)
            }),
            old(self).well_formed() ==> final(self).well_formed(),
    {
        self.show_line_numbers = !self.show_line_numbers;
        self.note_switch("Line numbers", self.show_line_numbers);
        self.refresh_all_pane_displays();
    }

    /// Shows or hides the time of day of the messages. The lines of every pane are made anew.
    pub fn toggle_timestamps(&mut self)
        ensures
            final(self).show_timestamps == !old(self).show_timestamps,
            final(self).says("Timestamps"@ + ": "@ + on_off(final(self).show_timestamps), NOTE_SECONDS),
            caches_cleared(old(self).panes@, final(self).panes@),
            *final(self) == (App {
                show_timestamps: final(self).show_timestamps,
                panes: final(self).panes,
                status_message: final(self).status_message,
                status_seconds: NOTE_SECONDS,
                status_pending: true,
                ..*old(self)
            }),
            old(self).well_formed() ==> final(self).well_formed(),
    {
        self.show_timestamps = !self.show_timestamps;
        self.note_switch("Timestamps", self.show_timestamps);
        self.refresh_all_pane_displays();
    }

    /// Shows or hides the list of conversations.
    pub fn toggle_chat_list(&mut self)
        ensures
            final(self).show_chat_list == !old(self).show_chat_list,
            final(self).says("Chat list"@ + ": "@ + on_off(final(self).show_chat_list), NOTE_SECONDS),
            *final(self) == (App {
                show_chat_list: final(self).show_chat_list,
                status_message: final(self).status_message,
                status_seconds: NOTE_SECONDS,
                status_pending: true,
                ..*old(self)
            }),
            old(self).well_formed() ==> final(self).well_formed(),
    {
        self.show_chat_list = !self.show_chat_list;
        self.note_switch("Chat list", self.show_chat_list);
    }

    /// Turns the colours of the senders on or off. The lines of every pane are made anew.
    pub fn toggle_user_colors(&mut self)
        ensures
            final(self).show_user_colors == !old(self).show_user_colors,
            final(self).says("User colors"@ + ": "@ + on_off(final(self).show_user_colors), NOTE_SECONDS),
            caches_cleared(old(self).panes@, final(self).panes@),
            *final(self) == (App {
                show_user_colors: final(self).show_user_colors,
                panes: final(self).panes,
                status_message: final(self).status_message,
                status_seconds: NOTE_SECONDS,
                status_pending: true,
                ..*old(self)
            }),
            old(self).well_formed() ==> final(self).well_formed(),
    {
        self.show_user_colors = !self.show_user_colors;
        self.note_switch("User colors", self.show_user_colors);
        self.refresh_all_pane_displays();
    }

    /// Shows or hides the borders of the panes.
    pub fn toggle_borders(&mut self)
        ensures
            final(self).show_borders == !old(self).show_borders,
            final(self).says("Borders"@ + ": "@ + on_off(final(self).show_borders), NOTE_SECONDS),
            *final(self) == (App {
                show_borders: final(self).show_borders,
                status_message: final(self).status_message,
                status_seconds: NOTE_SECONDS,
                status_pending: true,
                ..*old(self)
            }),
            old(self).well_formed() ==> final(self).well_formed(),
    {
        self.show_borders = !self.show_borders;
        self.note_switch("Borders", self.show_borders);
    }

    /// Gives the keys to a pane under the pointer, if there is one: to a
    /// pane whose rectangle holds the cell at column `x`, row `y`. Where no
    /// rectangle holds the cell, nothing changes.
    pub fn handle_mouse_click(&mut self, x: u16, y: u16)
        ensures
            (forall|pane: usize|
                old(self).pane_areas@.contains_key(pane) ==> !(#[trigger] old(
                    self,
                ).pane_areas@[pane]).covers(x as int, y as int)) ==> *final(self) == *old(self),
            (exists|pane: usize|
                old(self).pane_areas@.contains_key(pane) && (#[trigger] old(
                    self,
                ).pane_areas@[pane]).covers(x as int, y as int)) ==> {
                &&& !final(self).focus.focus_on_chat_list
                &&& old(self).pane_areas@.contains_key(final(self).focus.focused_pane_idx)
                &&& old(self).pane_areas@[final(self).focus.focused_pane_idx].covers(
                    x as int,
                    y as int,
                )
                &&& final(self).says(
                    "Active: Pane #"@ + digits((final(self).focus.focused_pane_idx + 1) as nat),
                    NOTE_SECONDS,
                )
            },
            *final(self) == (App {
                focus: final(self).focus,
                status_message: final(self).status_message,
                status_seconds: final(self).status_seconds,
                status_pending: final(self).status_pending,
                ..*old(self)
            }),
    {
        match self.pane_areas.pane_at(x, y) {
            Some(pane) => {
                self.focus.focus_leaf(pane);
                let mut text = chars_of("Active: Pane #");
                let number = ordinal(pane);
                append(&mut text, &number);
                self.note(&text, NOTE_SECONDS);
            },
            None => {},
        }
    }

    /// Types `c` into the current pane, at its cursor.
    pub fn handle_char(&mut self, c: char)
        ensures
            input_edited(
                old(self).panes@,
                final(self).panes@,
                old(self).focus.focused_pane_idx as int,
            ),
            old(self).focus.focused_pane_idx < old(self).panes@.len() ==> {
                let before = old(self).panes@[old(self).focus.focused_pane_idx as int];
                let after = final(self).panes@[old(self).focus.focused_pane_idx as int];
                &&& after.input_buffer@ == before.input_buffer@.insert(before.cursor(), c)
                &&& after.input_cursor == before.cursor() + 1
            },
            *final(self) == (App {
                panes: final(self).panes,
                history_idx: None,
                ..*old(self)
            }),
            old(self).well_formed() ==> final(self).well_formed(),
    {
        let at = self.focus.focused_pane_idx;
        if at < self.panes.len() {
            self.panes[at].insert_char(c);
        }
        self.history_idx = None;
        proof {
            if old(self).well_formed() {
                lemma_typing_keeps_well_formed(*old(self), *self, at as int);
            }
        }
    }

    /// Takes out the character before the cursor of the current pane.
    pub fn handle_backspace(&mut self)
        ensures
            input_edited(
                old(self).panes@,
                final(self).panes@,
                old(self).focus.focused_pane_idx as int,
            ),
            old(self).focus.focused_pane_idx < old(self).panes@.len() ==> {
                let before = old(self).panes@[old(self).focus.focused_pane_idx as int];
                let after = final(self).panes@[old(self).focus.focused_pane_idx as int];
                &&& before.cursor() > 0 ==> after.input_buffer@ == before.input_buffer@.remove(
                    before.cursor() - 1,
                ) && after.input_cursor == before.cursor() - 1
                &&& before.cursor() == 0 ==> after.input_buffer@ == before.input_buffer@
                    && after.input_cursor == 0
            },
            *final(self) == (App {
                panes: final(self).panes,
                history_idx: None,
                ..*old(self)
            }),
            old(self).well_formed() ==> final(self).well_formed(),
    {
        let at = self.focus.focused_pane_idx;
        if at < self.panes.len() {
            self.panes[at].backspace();
        }
        self.history_idx = None;
        proof {
            if old(self).well_formed() {
                lemma_typing_keeps_well_formed(*old(self), *self, at as int);
            }
        }
    }

    /// Takes out the character at the cursor of the current pane.
    pub fn handle_delete(&mut self)
        ensures
            input_edited(
                old(self).panes@,
                final(self).panes@,
                old(self).focus.focused_pane_idx as int,
            ),
            old(self).focus.focused_pane_idx < old(self).panes@.len() ==> {
                let before = old(self).panes@[old(self).focus.focused_pane_idx as int];
                let after = final(self).panes@[old(self).focus.focused_pane_idx as int];
                &&& after.input_cursor == before.input_cursor
                &&& before.input_cursor < before.input_buffer@.len() ==> after.input_buffer@
                    == before.input_buffer@.remove(before.input_cursor as int)
                &&& before.input_cursor >= before.input_buffer@.len() ==> after.input_buffer@
                    == before.input_buffer@
            },
            *final(self) == (App {
                panes: final(self).panes,
                ..*old(self)
            }),
            old(self).well_formed() ==> final(self).well_formed(),
    {
        let at = self.focus.focused_pane_idx;
        if at < self.panes.len() {
            self.panes[at].delete_char();
        }
        proof {
            if old(self).well_formed() {
                lemma_typing_keeps_well_formed(*old(self), *self, at as int);
            }
        }
    }

    /// Moves the cursor of the current pane one character to the left.
    pub fn handle_input_left(&mut self)
        ensures
            input_edited(
                old(self).panes@,
                final(self).panes@,
                old(self).focus.focused_pane_idx as int,
            ),
            old(self).focus.focused_pane_idx < old(self).panes@.len() ==> {
                let before = old(self).panes@[old(self).focus.focused_pane_idx as int];
                let after = final(self).panes@[old(self).focus.focused_pane_idx as int];
                &&& after.input_buffer@ == before.input_buffer@
                &&& after.input_cursor == if before.cursor() > 0 {
                    before.cursor() - 1
                } else {
                    0
                }
            },
            *final(self) == (App {
                panes: final(self).panes,
                ..*old(self)
            }),
            old(self).well_formed() ==> final(self).well_formed(),
    {
        let at = self.focus.focused_pane_idx;
        if at < self.panes.len() {
            self.panes[at].cursor_left();
        }
        proof {
            if old(self).well_formed() {
                lemma_typing_keeps_well_formed(*old(self), *self, at as int);
            }
        }
    }

    /// Moves the cursor of the current pane one character to the right.
    pub fn handle_input_right(&mut self)
        ensures
            input_edited(
                old(self).panes@,
                final(self).panes@,
                old(self).focus.focused_pane_idx as int,
            ),
            old(self).focus.focused_pane_idx < old(self).panes@.len() ==> {
                let before = old(self).panes@[old(self).focus.focused_pane_idx as int];
                let after = final(self).panes@[old(self).focus.focused_pane_idx as int];
                &&& after.input_buffer@ == before.input_buffer@
                &&& after.input_cursor == if before.cursor() < before.input_buffer@.len() {
                    before.cursor() + 1
                } else {
                    before.cursor()
                }
            },
            *final(self) == (App {
                panes: final(self).panes,
                ..*old(self)
            }),
            old(self).well_formed() ==> final(self).well_formed(),
    {
        let at = self.focus.focused_pane_idx;
        if at < self.panes.len() {
            self.panes[at].cursor_right();
        }
        proof {
            if old(self).well_formed() {
                lemma_typing_keeps_well_formed(*old(self), *self, at as int);
            }
        }
    }

    /// Moves the cursor of the current pane before the first character.
    pub fn handle_home(&mut self)
        ensures
            input_edited(
                old(self).panes@,
                final(self).panes@,
                old(self).focus.focused_pane_idx as int,
            ),
            old(self).focus.focused_pane_idx < old(self).panes@.len() ==> {
                let before = old(self).panes@[old(self).focus.focused_pane_idx as int];
                let after = final(self).panes@[old(self).focus.focused_pane_idx as int];
                &&& after.input_buffer@ == before.input_buffer@
                &&& after.input_cursor == 0
            },
            *final(self) == (App {
                panes: final(self).panes,
                ..*old(self)
            }),
            old(self).well_formed() ==> final(self).well_formed(),
    {
        let at = self.focus.focused_pane_idx;
        if at < self.panes.len() {
            self.panes[at].cursor_home();
        }
        proof {
            if old(self).well_formed() {
                lemma_typing_keeps_well_formed(*old(self), *self, at as int);
            }
        }
    }

    /// Moves the cursor of the current pane behind the last character.
    pub fn handle_end(&mut self)
        ensures
            input_edited(
                old(self).panes@,
                final(self).panes@,
                old(self).focus.focused_pane_idx as int,
            ),
            old(self).focus.focused_pane_idx < old(self).panes@.len() ==> {
                let before = old(self).panes@[old(self).focus.focused_pane_idx as int];
                let after = final(self).panes@[old(self).focus.focused_pane_idx as int];
                &&& after.input_buffer@ == before.input_buffer@
                &&& after.input_cursor == before.input_buffer@.len()
            },
            *final(self) == (App {
                panes: final(self).panes,
                ..*old(self)
            }),
            old(self).well_formed() ==> final(self).well_formed(),
    {
        let at = self.focus.focused_pane_idx;
        if at < self.panes.len() {
            self.panes[at].cursor_end();
        }
        proof {
            if old(self).well_formed() {
                lemma_typing_keeps_well_formed(*old(self), *self, at as int);
            }
        }
    }

    /// Moves the view of the current pane towards the oldest line, while
    /// the keys go to a pane.
    pub fn handle_page_up(&mut self)
        ensures
            old(self).focus.focus_on_chat_list ==> *final(self) == *old(self),
            view_moved(
                old(self).panes@,
                final(self).panes@,
                old(self).focus.focused_pane_idx as int,
            ),
            !old(self).focus.focus_on_chat_list && old(self).focus.focused_pane_idx < old(
                self,
            ).panes@.len() ==> final(self).panes@[old(self).focus.focused_pane_idx as int].scroll_offset
                == if old(self).panes@[old(self).focus.focused_pane_idx as int].scroll_offset
                >= crate::widgets::SCROLL_STEP {
                old(self).panes@[old(self).focus.focused_pane_idx as int].scroll_offset
                    - crate::widgets::SCROLL_STEP
            } else {
                0
            },
            *final(self) == (App { panes: final(self).panes, ..*old(self) }),
            old(self).well_formed() ==> final(self).well_formed(),
    {
        let at = self.focus.focused_pane_idx;
        if !self.focus.focus_on_chat_list && at < self.panes.len() {
            self.panes[at].scroll_up();
        }
        proof {
            assert(view_moved(old(self).panes@, self.panes@, at as int));
            if old(self).well_formed() {
                assert forall|k: int| 0 <= k < self.panes@.len() implies (#[trigger] self.panes@[k]).cache_sound(
                    self.aliases@,
                ) by {
                    assert(old(self).panes@[k].cache_sound(old(self).aliases@));
                }
            }
        }
    }

    /// Moves the view of the current pane towards the newest line, while
    /// the keys go to a pane.
    pub fn handle_page_down(&mut self)
        ensures
            old(self).focus.focus_on_chat_list ==> *final(self) == *old(self),
            view_moved(
                old(self).panes@,
                final(self).panes@,
                old(self).focus.focused_pane_idx as int,
            ),
            !old(self).focus.focus_on_chat_list && old(self).focus.focused_pane_idx < old(
                self,
            ).panes@.len() ==> final(self).panes@[old(self).focus.focused_pane_idx as int].scroll_offset
                == if old(self).panes@[old(self).focus.focused_pane_idx as int].scroll_offset
                <= usize::MAX - crate::widgets::SCROLL_STEP {
                old(self).panes@[old(self).focus.focused_pane_idx as int].scroll_offset
                    + crate::widgets::SCROLL_STEP
            } else {
                usize::MAX as int
            },
            *final(self) == (App { panes: final(self).panes, ..*old(self) }),
            old(self).well_formed() ==> final(self).well_formed(),
    {
        let at = self.focus.focused_pane_idx;
        if !self.focus.focus_on_chat_list && at < self.panes.len() {
            self.panes[at].scroll_down();
        }
        proof {
            assert(view_moved(old(self).panes@, self.panes@, at as int));
            if old(self).well_formed() {
                assert forall|k: int| 0 <= k < self.panes@.len() implies (#[trigger] self.panes@[k]).cache_sound(
                    self.aliases@,
                ) by {
                    assert(old(self).panes@[k].cache_sound(old(self).aliases@));
                }
            }
        }
    }

    /// Which entry of what was typed before the key Up brings back into the
    /// current pane, if any: the last one where none was brought back yet,
    /// else the one before the one that was.
    pub open spec fn recalls_up(self) -> Option<int> {
        if self.focus.focus_on_chat_list || self.input_history@.len() == 0
            || self.focus.focused_pane_idx >= self.panes@.len() {
            None
        } else {
            match self.history_idx {
                None => Some(self.input_history@.len() - 1),
                Some(at) => if 0 < at <= self.input_history@.len() {
                    Some(at - 1)
                } else {
                    None
                },
            }
        }
    }

    /// The key Up: in the list of conversations the choice moves up; in a
    /// pane an earlier input comes back, what was being typed being put
    /// aside when the first one does.
    #[verifier::rlimit(40)]
    pub fn handle_up(&mut self)
        ensures
            old(self).focus.focus_on_chat_list ==> *final(self) == (App {
                selected_chat_idx: if old(self).selected_chat_idx > 0 {
                    (old(self).selected_chat_idx - 1) as usize
                } else {
                    0
                },
                ..*old(self)
            }),
            !old(self).focus.focus_on_chat_list && old(self).recalls_up().is_none() ==> *final(self)
                == *old(self),
            old(self).recalls_up() matches Some(entry) ==> {
                let at = old(self).focus.focused_pane_idx as int;
                &&& final(self).history_idx == Some(entry as usize)
                &&& final(self).panes@[at].input_buffer@ == old(self).input_history@[entry]@
                &&& final(self).panes@[at].input_cursor == old(self).input_history@[entry]@.len()
                &&& final(self).history_temp@ == if old(self).history_idx.is_none() {
                    old(self).panes@[at].input_buffer@
                } else {
                    old(self).history_temp@
                }
            },
            input_edited(
                old(self).panes@,
                final(self).panes@,
                old(self).focus.focused_pane_idx as int,
            ),
            *final(self) == (App {
                selected_chat_idx: final(self).selected_chat_idx,
                panes: final(self).panes,
                history_idx: final(self).history_idx,
                history_temp: final(self).history_temp,
                ..*old(self)
            }),
            old(self).well_formed() ==> final(self).well_formed(),
    {
        let at = self.focus.focused_pane_idx;
        if self.focus.focus_on_chat_list {
            if self.selected_chat_idx > 0 {
                self.selected_chat_idx = self.selected_chat_idx - 1;
            }
        } else if self.input_history.len() > 0 && at < self.panes.len() {
            match self.history_idx {
                None => {
                    let last = self.input_history.len() - 1;
                    self.put_aside(at);
                    self.recall_entry(at, last);
                },
                Some(idx) => {
                    if idx > 0 && idx <= self.input_history.len() {
                        self.recall_entry(at, idx - 1);
                    }
                },
            }
        }
    }

    /// Puts what is typed in the pane at `at` aside.
    fn put_aside(&mut self, at: usize)
        requires
            at < old(self).panes@.len(),
        ensures
            final(self).history_temp@ == old(self).panes@[at as int].input_buffer@,
            *final(self) == (App { history_temp: final(self).history_temp, ..*old(self) }),
    {
        let mut aside: Vec<char> = Vec::new();
        append(&mut aside, &self.panes[at].input_buffer);
        self.history_temp = aside;
    }

    /// Brings the entry `entry` of what was typed before back into the
    /// pane at `at`.
    fn recall_entry(&mut self, at: usize, entry: usize)
        requires
            at < old(self).panes@.len(),
            entry < old(self).input_history@.len(),
        ensures
            final(self).history_idx == Some(entry),
            final(self).panes@[at as int].input_buffer@ == old(self).input_history@[entry as int]@,
            final(self).panes@[at as int].input_cursor == old(self).input_history@[entry as int]@.len(),
            input_edited(old(self).panes@, final(self).panes@, at as int),
            *final(self) == (App {
                panes: final(self).panes,
                history_idx: final(self).history_idx,
                ..*old(self)
            }),
            old(self).well_formed() ==> final(self).well_formed(),
    {
        self.history_idx = Some(entry);
        self.panes[at].set_input(&self.input_history[entry]);
        proof {
            if old(self).well_formed() {
                lemma_typing_keeps_well_formed(*old(self), *self, at as int);
            }
        }
    }

    /// Brings what was put aside back into the pane at `at`.
    fn recall_aside(&mut self, at: usize)
        requires
            at < old(self).panes@.len(),
        ensures
            final(self).history_idx.is_none(),
            final(self).panes@[at as int].input_buffer@ == old(self).history_temp@,
            final(self).panes@[at as int].input_cursor == old(self).history_temp@.len(),
            input_edited(old(self).panes@, final(self).panes@, at as int),
            *final(self) == (App { panes: final(self).panes, history_idx: None, ..*old(self) }),
            old(self).well_formed() ==> final(self).well_formed(),
    {
        self.history_idx = None;
        self.panes[at].set_input(&self.history_temp);
        proof {
            if old(self).well_formed() {
                lemma_typing_keeps_well_formed(*old(self), *self, at as int);
            }
        }
    }

    /// The key Down: in the list of conversations the choice moves down; in
    /// a pane a later input comes back, and behind the last one what was
    /// put aside.
    #[verifier::rlimit(40)]
    pub fn handle_down(&mut self)
        ensures
            old(self).focus.focus_on_chat_list ==> *final(self) == (App {
                selected_chat_idx: if old(self).selected_chat_idx + 1 < old(self).chats@.len() {
                    (old(self).selected_chat_idx + 1) as usize
                } else {
                    old(self).selected_chat_idx
                },
                ..*old(self)
            }),
            !old(self).focus.focus_on_chat_list && (old(self).history_idx.is_none() || old(
                self,
            ).focus.focused_pane_idx >= old(self).panes@.len()) ==> *final(self) == *old(self),
            !old(self).focus.focus_on_chat_list && old(self).focus.focused_pane_idx < old(
                self,
            ).panes@.len() ==> (old(self).history_idx matches Some(idx) ==> {
                let at = old(self).focus.focused_pane_idx as int;
                let text = if idx + 1 < old(self).input_history@.len() {
                    old(self).input_history@[idx + 1]@
                } else {
                    old(self).history_temp@
                };
                &&& final(self).history_idx == if idx + 1 < old(self).input_history@.len() {
                    Some((idx + 1) as usize)
                } else {
                    None
                }
                &&& final(self).panes@[at].input_buffer@ == text
                &&& final(self).panes@[at].input_cursor == text.len()
            }),
            input_edited(
                old(self).panes@,
                final(self).panes@,
                old(self).focus.focused_pane_idx as int,
            ),
            *final(self) == (App {
                selected_chat_idx: final(self).selected_chat_idx,
                panes: final(self).panes,
                history_idx: final(self).history_idx,
                ..*old(self)
            }),
            old(self).well_formed() ==> final(self).well_formed(),
    {
        let at = self.focus.focused_pane_idx;
        if self.focus.focus_on_chat_list {
            if self.chats.len() > 0 && self.selected_chat_idx < self.chats.len() - 1 {
                self.selected_chat_idx = self.selected_chat_idx + 1;
            }
        } else if at < self.panes.len() {
            match self.history_idx {
                Some(idx) => {
                    if idx < self.input_history.len() && idx + 1 < self.input_history.len() {
                        self.recall_entry(at, idx + 1);
                    } else {
                        self.recall_aside(at);
                    }
                },
                None => {},
            }
        }
    }

    /// Whether nothing is typed in the current pane, or there is no such
    /// pane.
    pub open spec fn input_empty(self) -> bool {
        self.focus.focused_pane_idx >= self.panes@.len()
            || self.panes@[self.focus.focused_pane_idx as int].input_buffer@.len() == 0
    }

    /// What is typed in the current pane.
    pub open spec fn typed(self) -> Seq<char> {
        self.panes@[self.focus.focused_pane_idx as int].input_buffer@
    }

    /// The tabulator key: with nothing typed the focus moves on; else the
    /// typed command is completed, or the commands to choose from are
    /// named in the status bar, or, where the text is no beginning of a
    /// command, the focus moves on.
    #[verifier::rlimit(40)]
    pub fn handle_tab(&mut self)
        ensures
            old(self).input_empty() || (crate::utils::completion(old(self).typed()).0.is_none()
                && crate::utils::completion(old(self).typed()).1.is_none()) ==> {
                &&& final(self).focus == old(self).focus.forward(old(self).pane_tree@.leaves())
                &&& final(self).panes == old(self).panes
                &&& old(self).pane_tree@.leaves().len() > 0 ==> final(self).says(
                    focus_note(final(self).focus),
                    NOTE_SECONDS,
                )
            },
            !old(self).input_empty() ==> (crate::utils::completion(old(self).typed()).0 matches Some(
                text,
            ) ==> {
                let at = old(self).focus.focused_pane_idx as int;
                &&& final(self).panes@[at].input_buffer@ == text
                &&& final(self).panes@[at].input_cursor == text.len()
                &&& final(self).focus == old(self).focus
                &&& final(self).status_message == old(self).status_message
            }),
            !old(self).input_empty() && crate::utils::completion(old(self).typed()).0.is_none()
                ==> (crate::utils::completion(old(self).typed()).1 matches Some(hint) ==> {
                &&& final(self).says(hint, NOTE_SECONDS)
                &&& final(self).panes == old(self).panes
                &&& final(self).focus == old(self).focus
            }),
            input_edited(
                old(self).panes@,
                final(self).panes@,
                old(self).focus.focused_pane_idx as int,
            ),
            *final(self) == (App {
                panes: final(self).panes,
                focus: final(self).focus,
                status_message: final(self).status_message,
                status_seconds: final(self).status_seconds,
                status_pending: final(self).status_pending,
                ..*old(self)
            }),
            old(self).well_formed() ==> final(self).well_formed(),
    {
        let at = self.focus.focused_pane_idx;
        if at >= self.panes.len() || self.panes[at].input_buffer.len() == 0 {
            self.cycle_focus();
            return;
        }
        let typed = string_of(&self.panes[at].input_buffer);
        let (completed, hint) = crate::utils::try_autocomplete(typed.as_str());
        match completed {
            Some(text) => {
                let chars = chars_of(text.as_str());
                self.fill_input(at, &chars);
            },
            None => match hint {
                Some(hint) => {
                    self.notify(hint.as_str());
                },
                None => {
                    self.cycle_focus();
                },
            },
        }
    }

    /// Puts `text` in place of what is typed in the pane at `at`.
    fn fill_input(&mut self, at: usize, text: &Vec<char>)
        requires
            at < old(self).panes@.len(),
        ensures
            final(self).panes@[at as int].input_buffer@ == text@,
            final(self).panes@[at as int].input_cursor == text@.len(),
            input_edited(old(self).panes@, final(self).panes@, at as int),
            *final(self) == (App { panes: final(self).panes, ..*old(self) }),
            old(self).well_formed() ==> final(self).well_formed(),
    {
        self.panes[at].set_input(text);
        proof {
            if old(self).well_formed() {
                lemma_typing_keeps_well_formed(*old(self), *self, at as int);
            }
        }
    }
}

} // verus!
