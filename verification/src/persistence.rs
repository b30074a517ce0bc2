use vstd::prelude::*;
use std::collections::HashMap;
use crate::aliases::Aliases;
use crate::app::{App, ChatInfo};
use crate::command_handler::filter_name;
use crate::commands::is_word;
use crate::config::Settings;
use crate::focus::FocusController;
use crate::geometry::Rect;
use crate::layout::PaneRectMap;
use crate::message::{copy_text, opt_text, FilterType};
use crate::pane_tree::{PaneNode, Shape, SplitDirection};
use crate::pane_tree_laws::{
    lemma_first_position_found, lemma_split_keeps_unique, lemma_split_keeps_well_formed,
    law_split_leaves_order,
};
use crate::text::{chars_of, string_of};
use crate::widgets::ChatPane;

verus! {

/// What is kept of a pane between runs.
#[derive(Debug, PartialEq, Eq)]
pub struct PaneState {
    pub chat_id: Option<i64>,
    pub chat_name: String,
    pub scroll_offset: usize,
    pub filter_type: Option<String>,
    pub filter_value: Option<String>,
}

/// What is kept of the layout between runs: the panes, which of them was
/// the current one, and the tree.
#[derive(Debug, PartialEq, Eq)]
pub struct LayoutData {
    pub panes: Vec<PaneState>,
    pub focused_pane: Option<usize>,
    pub pane_tree: Option<PaneNode>,
}

/// The switches of the display as they are kept between runs.
#[derive(Clone, Copy, Debug, PartialEq, Eq, Structural)]
pub struct AppSettings {
    pub show_reactions: bool,
    pub show_notifications: bool,
    pub compact_mode: bool,
    pub show_emojis: bool,
    pub show_line_numbers: bool,
    pub show_timestamps: bool,
    pub show_chat_list: bool,
    pub show_user_colors: bool,
    pub show_borders: bool,
}

/// All that is kept between runs.
#[derive(Debug, PartialEq, Eq)]
pub struct AppState {
    pub settings: AppSettings,
    pub aliases: Aliases,
    pub layout: LayoutData,
}

impl Default for AppSettings {
    fn default() -> (settings: Self)
        ensures
            settings == (AppSettings {
                show_reactions: true,
                show_notifications: true,
                compact_mode: false,
                show_emojis: true,
                show_line_numbers: false,
                show_timestamps: true,
                show_chat_list: true,
                show_user_colors: true,
                show_borders: true,
            }),
    {
        AppSettings {
            show_reactions: true,
            show_notifications: true,
            compact_mode: false,
            show_emojis: true,
            show_line_numbers: false,
            show_timestamps: true,
            show_chat_list: true,
            show_user_colors: true,
            show_borders: true,
        }
    }
}

impl Default for LayoutData {
    fn default() -> (layout: Self)
        ensures
            layout.panes@.len() == 0,
            layout.focused_pane.is_none(),
            layout.pane_tree.is_none(),
    {
        LayoutData { panes: Vec::new(), focused_pane: None, pane_tree: None }
    }
}

/// The kind of filter that bears the name `name`, if one does.
pub open spec fn filter_kind(name: Seq<char>) -> Option<FilterType> {
    if name == "sender"@ {
        Some(FilterType::Sender)
    } else if name == "media"@ {
        Some(FilterType::Media)
    } else if name == "link"@ {
        Some(FilterType::Link)
    } else {
        None
    }
}

/// The kind of filter that bears the name `name`.
pub fn parse_filter_kind(name: &str) -> (kind: Option<FilterType>)
    ensures
        kind == filter_kind(name@),
{
    let chars = chars_of(name);
    if is_word(&chars, "sender") {
        Some(FilterType::Sender)
    } else if is_word(&chars, "media") {
        Some(FilterType::Media)
    } else if is_word(&chars, "link") {
        Some(FilterType::Link)
    } else {
        None
    }
}

/// The name under which a kind of filter is kept.
pub fn filter_kind_name(kind: FilterType) -> (name: String)
    ensures
        name@ == filter_name(kind),
{
    let chars = match kind {
        FilterType::Sender => chars_of("sender"),
        FilterType::Media => chars_of("media"),
        FilterType::Link => chars_of("link"),
    };
    string_of(&chars)
}

impl ChatPane {
    /// Whether the pane is a new one that has taken up what was kept: the
    /// conversation, its name, where the view stood, and the filter. A
    /// filter of a kind that is not known is dropped with its value.
    pub open spec fn restored_from(self, state: PaneState) -> bool {
        let kind = match state.filter_type {
            Some(name) => filter_kind(name@),
            None => None,
        };
        let dropped = state.filter_type.is_some() && kind.is_none();
        &&& self.chat_id == state.chat_id
        &&& self.chat_name@ == state.chat_name@
        &&& self.scroll_offset == state.scroll_offset
        &&& self.filter_type == kind
        &&& opt_text(self.filter_value) == if dropped {
            None
        } else {
            opt_text(state.filter_value)
        }
        &&& self.msg_data@.len() == 0
        &&& self.messages@.len() == 0
        &&& self.input_buffer@.len() == 0
        &&& self.format_cache.entry.is_none()
        &&& self.reply_to_message.is_none()
        &&& self.reply_preview.is_none()
        &&& self.typing_user.is_none()
        &&& self.username.is_none()
        &&& self.unread_count_at_load == 0
    }

    /// A new pane that takes up what was kept.
    pub fn restore(state: &PaneState) -> (pane: ChatPane)
        ensures
            pane.restored_from(*state),
    {
        let mut pane = ChatPane::new();
        pane.chat_id = state.chat_id;
        pane.chat_name = state.chat_name.clone();
        pane.scroll_offset = state.scroll_offset;
        match &state.filter_type {
            Some(name) => {
                match parse_filter_kind(name.as_str()) {
                    Some(kind) => {
                        pane.filter_type = Some(kind);
                        pane.filter_value = copy_text(&state.filter_value);
                    },
                    None => {},
                }
            },
            None => {
                pane.filter_value = copy_text(&state.filter_value);
            },
        }
        pane
    }

    /// Whether `state` is what is kept of the pane.
    pub open spec fn kept_as(self, state: PaneState) -> bool {
        &&& state.chat_id == self.chat_id
        &&& state.chat_name@ == self.chat_name@
        &&& state.scroll_offset == self.scroll_offset
        &&& opt_text(state.filter_type) == match self.filter_type {
            Some(kind) => Some(filter_name(kind)),
            None => None,
        }
        &&& opt_text(state.filter_value) == opt_text(self.filter_value)
    }

    /// What is kept of the pane.
    pub fn snapshot(&self) -> (state: PaneState)
        ensures
            self.kept_as(state),
    {
        PaneState {
            chat_id: self.chat_id,
            chat_name: self.chat_name.clone(),
            scroll_offset: self.scroll_offset,
            filter_type: match self.filter_type {
                Some(kind) => Some(filter_kind_name(kind)),
                None => None,
            },
            filter_value: copy_text(&self.filter_value),
        }
    }
}

/// The tree of a first run over `count` panes, one at least: the first
/// pane alone, then each further pane split off beside the one before it.
pub open spec fn default_shape(count: int) -> Shape
    decreases count,
{
    if count <= 1 {
        Shape::Leaf { pane: 0 }
    } else {
        default_shape(count - 1).split(
            (count - 2) as usize,
            SplitDirection::Vertical,
            (count - 1) as usize,
        )
    }
}

/// The tree of a first run names the panes from the first to the last, in
/// this order, and can stand over a store of that many panes.
pub proof fn lemma_default_shape(count: int)
    requires
        1 <= count <= usize::MAX,
    ensures
        default_shape(count).well_formed(),
        default_shape(count).leaves() == Seq::new(count as nat, |k: int| k as usize),
        default_shape(count).leaves_unique(),
        default_shape(count).leaves_below(count),
    decreases count,
{
    let row = Seq::new(count as nat, |k: int| k as usize);
    if count <= 1 {
        assert(default_shape(count).leaves() =~= row);
    } else {
        lemma_default_shape(count - 1);
        let before = default_shape(count - 1);
        let target = (count - 2) as usize;
        let new_pane = (count - 1) as usize;
        let shorter = Seq::new((count - 1) as nat, |k: int| k as usize);
        assert(shorter[count - 2] == target);
        assert(before.has_leaf(target));
        if before.has_leaf(new_pane) {
            let k = choose|k: int| 0 <= k < shorter.len() && shorter[k] == new_pane;
            assert(false);
        }
        lemma_split_keeps_well_formed(before, target, SplitDirection::Vertical, new_pane);
        lemma_split_keeps_unique(before, target, SplitDirection::Vertical, new_pane);
        law_split_leaves_order(before, target, SplitDirection::Vertical, new_pane);
        lemma_first_position_found(shorter, target);
        let at = crate::pane_tree::first_position(shorter, target);
        assert(at == count - 2) by {
            if at < count - 2 {
                assert(shorter[at] == at as usize);
            }
        }
        assert(shorter.insert(count - 1, new_pane) =~= row);
    }
}

/// The tree of a first run over `count` panes.
pub fn default_tree(count: usize) -> (tree: PaneNode)
    ensures
        tree@ == default_shape(count as int),
{
    let mut tree = PaneNode::new_single(0);
    let mut i: usize = 1;
    while i < count
        invariant
            1 <= i,
            i <= count || count == 0,
            tree@ == default_shape(if count == 0 {
                1
            } else {
                i as int
            }),
        decreases count - i,
    {
        let _ = tree.split(i - 1, SplitDirection::Vertical, i);
        i = i + 1;
    }
    assert(default_shape(0) == default_shape(1));
    tree
}

/// The greatest of `leaves`, or zero where there are none.
pub open spec fn greatest(leaves: Seq<usize>) -> usize
    decreases leaves.len(),
{
    if leaves.len() == 0 {
        0
    } else if leaves.last() > greatest(leaves.drop_last()) {
        leaves.last()
    } else {
        greatest(leaves.drop_last())
    }
}

pub proof fn lemma_greatest(leaves: Seq<usize>)
    ensures
        forall|k: int| 0 <= k < leaves.len() ==> #[trigger] leaves[k] <= greatest(leaves),
    decreases leaves.len(),
{
    if leaves.len() > 0 {
        lemma_greatest(leaves.drop_last());
        assert forall|k: int| 0 <= k < leaves.len() implies #[trigger] leaves[k] <= greatest(
            leaves,
        ) by {
            if k < leaves.len() - 1 {
                assert(leaves.drop_last()[k] == leaves[k]);
            }
        }
    }
}

/// The greatest of `leaves`, or zero where there are none.
pub fn greatest_of(leaves: &Vec<usize>) -> (top: usize)
    ensures
        top == greatest(leaves@),
{
    let mut top: usize = 0;
    let mut i: usize = 0;
    while i < leaves.len()
        invariant
            i <= leaves.len(),
            top == greatest(leaves@.take(i as int)),
        decreases leaves.len() - i,
    {
        assert(leaves@.take(i + 1).drop_last() =~= leaves@.take(i as int));
        if leaves[i] > top {
            top = leaves[i];
        }
        i = i + 1;
    }
    assert(leaves@.take(leaves@.len() as int) =~= leaves@);
    top
}

/// How many panes the store needs for a kept tree and `kept` kept panes:
/// one more than the greatest leaf of the tree, as many as were kept, and
/// one at least.
pub open spec fn store_size(tree: Shape, kept: int) -> int {
    let needed = greatest(tree.leaves()) + 1;
    if needed >= kept && needed >= 1 {
        needed
    } else if kept >= 1 {
        kept
    } else {
        1
    }
}

/// Whether a kept tree can be taken up: every split has two children or
/// more, no two leaves name the same pane, and the store that it needs can
/// be counted.
pub open spec fn usable(tree: Shape) -> bool {
    tree.well_formed() && tree.leaves_unique() && greatest(tree.leaves()) < usize::MAX
}

/// The tree that the run starts with, over a store of `count` panes: the
/// kept one where it can be taken up, else the tree of a first run.
pub fn restore_tree(saved: Option<PaneNode>, kept: usize) -> (result: (PaneNode, usize))
    ensures
        result.0@.well_formed(),
        result.0@.leaves_unique(),
        result.0@.leaves_below(result.1 as int),
        result.1 >= 1,
        result.1 >= kept,
        match saved {
            Some(tree) => if usable(tree@) {
                result.0@ == tree@ && result.1 == store_size(tree@, kept as int)
            } else {
                result.0@ == default_shape(result.1 as int) && result.1 == if kept >= 1 {
                    kept
                } else {
                    1
                }
            },
            None => result.0@ == default_shape(result.1 as int) && result.1 == if kept >= 1 {
                kept
            } else {
                1
            },
        },
{
    let count: usize = if kept >= 1 {
        kept
    } else {
        1
    };
    match saved {
        Some(tree) => {
            let leaves = tree.leaf_indices();
            let top = greatest_of(&leaves);
            if top < usize::MAX {
                let needed = top + 1;
                let size = if needed >= count {
                    needed
                } else {
                    count
                };
                proof {
                    lemma_greatest(tree@.leaves());
                }
                if tree.is_valid(size) {
                    return (tree, size);
                }
            }
            proof {
                lemma_default_shape(count as int);
            }
            (default_tree(count), count)
        },
        None => {
            proof {
                lemma_default_shape(count as int);
            }
            (default_tree(count), count)
        },
    }
}

/// The panes that a run starts with: the kept ones taken up, and new ones
/// behind them until the store has `count` panes.
pub fn restore_panes(kept: &Vec<PaneState>, count: usize) -> (panes: Vec<ChatPane>)
    requires
        count >= kept.len(),
    ensures
        panes@.len() == count,
        forall|k: int| 0 <= k < kept@.len() ==> (#[trigger] panes@[k]).restored_from(kept@[k]),
        forall|k: int| kept@.len() <= k < count ==> (#[trigger] panes@[k]).is_blank(),
        forall|k: int| 0 <= k < count ==> (#[trigger] panes@[k]).format_cache.entry.is_none(),
{
    let mut panes: Vec<ChatPane> = Vec::new();
    let mut i: usize = 0;
    while i < count
        invariant
            i <= count,
            count >= kept.len(),
            panes@.len() == i,
            forall|k: int|
                0 <= k < kept@.len() && k < i ==> (#[trigger] panes@[k]).restored_from(kept@[k]),
            forall|k: int| kept@.len() <= k < i ==> (#[trigger] panes@[k]).is_blank(),
            forall|k: int| 0 <= k < i ==> (#[trigger] panes@[k]).format_cache.entry.is_none(),
        decreases count - i,
    {
        if i < kept.len() {
            panes.push(ChatPane::restore(&kept[i]));
        } else {
            panes.push(ChatPane::new());
        }
        i = i + 1;
    }
    panes
}

impl App {
    /// The state that a run starts with, for the user `my_user_id` with
    /// the conversations `chats`, out of what was kept. The kept tree is
    /// taken up where it can be; the store has a pane for every leaf and
    /// for every kept pane; the keys go to the pane that had them, if it is
    /// a pane of the store, else to the list.
    pub fn new(my_user_id: i64, chats: Vec<ChatInfo>, state: AppState) -> (app: App)
        ensures
            app.well_formed(),
            app.my_user_id == my_user_id,
            app.chats == chats,
            app.aliases == state.aliases,
            app.panes@.len() >= 1,
            app.panes@.len() >= state.layout.panes@.len(),
            forall|k: int|
                0 <= k < state.layout.panes@.len() ==> (#[trigger] app.panes@[k]).restored_from(
                    state.layout.panes@[k],
                ),
            forall|k: int|
                state.layout.panes@.len() <= k < app.panes@.len() ==> (
                #[trigger] app.panes@[k]).is_blank(),
            match state.layout.pane_tree {
                Some(tree) => if usable(tree@) {
                    app.pane_tree@ == tree@ && app.panes@.len() == store_size(
                        tree@,
                        state.layout.panes@.len() as int,
                    )
                } else {
                    app.pane_tree@ == default_shape(app.panes@.len() as int)
                },
                None => app.pane_tree@ == default_shape(app.panes@.len() as int),
            },
            app.focus == FocusController::initial(state.layout.focused_pane, app.panes.len()),
            app.selected_chat_idx == 0,
            app.input_history@.len() == 0,
            app.history_idx.is_none(),
            app.status_message.is_none(),
            !app.status_pending,
            app.pane_areas@ == Map::<usize, Rect>::empty(),
            app.chat_list_area.is_none(),
            app.needs_redraw,
            app.switches() == state.settings,
            app.user_colors@ == Map::<i64, usize>::empty(),
            app.now == 0,
            app.utc_offset == 0,
    {
        let AppState { settings, aliases, layout } = state;
        let LayoutData { panes: kept, focused_pane, pane_tree: saved } = layout;
        let (pane_tree, count) = restore_tree(saved, kept.len());
        let panes = restore_panes(&kept, count);
        let focus = FocusController::new(focused_pane, panes.len());
        App {
            my_user_id,
            chats,
            selected_chat_idx: 0,
            panes,
            focus,
            pane_tree,
            input_history: Vec::new(),
            history_idx: None,
            history_temp: Vec::new(),
            aliases,
            status_message: None,
            status_seconds: 0,
            status_pending: false,
            pane_areas: PaneRectMap::new(),
            chat_list_area: None,
            needs_redraw: true,
            show_reactions: settings.show_reactions,
            show_notifications: settings.show_notifications,
            compact_mode: settings.compact_mode,
            show_emojis: settings.show_emojis,
            show_line_numbers: settings.show_line_numbers,
            show_timestamps: settings.show_timestamps,
            show_chat_list: settings.show_chat_list,
            show_user_colors: settings.show_user_colors,
            show_borders: settings.show_borders,
            user_colors: HashMap::new(),
            now: 0,
            utc_offset: 0,
        }
    }

    /// The switches of the display.
    pub open spec fn switches(self) -> AppSettings {
        AppSettings {
            show_reactions: self.show_reactions,
            show_notifications: self.show_notifications,
            compact_mode: self.compact_mode,
            show_emojis: self.show_emojis,
            show_line_numbers: self.show_line_numbers,
            show_timestamps: self.show_timestamps,
            show_chat_list: self.show_chat_list,
            show_user_colors: self.show_user_colors,
            show_borders: self.show_borders,
        }
    }

    /// The switches of the display, to be kept.
    pub fn settings_snapshot(&self) -> (settings: AppSettings)
        ensures
            settings == self.switches(),
    {
        AppSettings {
            show_reactions: self.show_reactions,
            show_notifications: self.show_notifications,
            compact_mode: self.compact_mode,
            show_emojis: self.show_emojis,
            show_line_numbers: self.show_line_numbers,
            show_timestamps: self.show_timestamps,
            show_chat_list: self.show_chat_list,
            show_user_colors: self.show_user_colors,
            show_borders: self.show_borders,
        }
    }

    /// The settings of the installation with the switches as they are now.
    pub fn settings_into(&self, settings: Settings) -> (updated: Settings)
        ensures
            updated == (Settings {
                show_reactions: self.show_reactions,
                show_notifications: self.show_notifications,
                compact_mode: self.compact_mode,
                show_emojis: self.show_emojis,
                show_line_numbers: self.show_line_numbers,
                show_timestamps: self.show_timestamps,
                show_user_colors: self.show_user_colors,
                show_borders: self.show_borders,
            }),
    {
        Settings {
            show_reactions: self.show_reactions,
            show_notifications: self.show_notifications,
            compact_mode: self.compact_mode,
            show_emojis: self.show_emojis,
            show_line_numbers: self.show_line_numbers,
            show_timestamps: self.show_timestamps,
            show_user_colors: self.show_user_colors,
            show_borders: self.show_borders,
        }
    }

    /// What is kept of the layout: every pane of the store, the current
    /// pane, and a copy of the tree.
    pub fn save_state(&self) -> (layout: LayoutData)
        ensures
            layout.panes@.len() == self.panes@.len(),
            forall|k: int|
                0 <= k < self.panes@.len() ==> (#[trigger] self.panes@[k]).kept_as(layout.panes@[k]),
            layout.focused_pane == Some(self.focus.focused_pane_idx),
            layout.pane_tree.is_some(),
            layout.pane_tree.unwrap()@ == self.pane_tree@,
    {
        let mut panes: Vec<PaneState> = Vec::new();
        let mut i: usize = 0;
        while i < self.panes.len()
            invariant
                i <= self.panes.len(),
                panes@.len() == i,
                forall|k: int| 0 <= k < i ==> (#[trigger] self.panes@[k]).kept_as(panes@[k]),
            decreases self.panes.len() - i,
        {
            panes.push(self.panes[i].snapshot());
            i = i + 1;
        }
        LayoutData {
            panes,
            focused_pane: Some(self.focus.focused_pane_idx),
            pane_tree: Some(self.pane_tree.clone()),
        }
    }
}

} // verus!
