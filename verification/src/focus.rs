use vstd::prelude::*;
use crate::pane_tree::{first_position, lemma_first_position};

verus! {

/// What the keys go to: the list of conversations beside the panes, or one
/// pane.
#[derive(Clone, Copy, Debug, PartialEq, Eq, Structural)]
pub enum FocusTarget {
    ExternalList,
    Leaf(usize),
}

/// Which pane is the current one, and whether the keys go to it or to the
/// list of conversations. The current pane is the one that a conversation
/// opens in and that a split or a close applies to, also while the keys go
/// to the list.
#[derive(Clone, Copy, Debug, PartialEq, Eq, Structural)]
pub struct FocusController {
    pub focus_on_chat_list: bool,
    pub focused_pane_idx: usize,
}

impl FocusController {
    /// What the keys go to.
    pub open spec fn target(self) -> FocusTarget {
        if self.focus_on_chat_list {
            FocusTarget::ExternalList
        } else {
            FocusTarget::Leaf(self.focused_pane_idx)
        }
    }

    /// The focus with the keys going to `pane`.
    pub open spec fn on_leaf(pane: usize) -> FocusController {
        FocusController { focus_on_chat_list: false, focused_pane_idx: pane }
    }

    /// The focus after one step forward through the list and the panes in
    /// display order: from the list to the first pane, from a pane to the
    /// next, from the last pane to the list. A current pane that is not
    /// among the leaves gives way to the first. Without leaves nothing
    /// moves.
    pub open spec fn forward(self, leaves: Seq<usize>) -> FocusController {
        let at = first_position(leaves, self.focused_pane_idx);
        if leaves.len() == 0 {
            self
        } else if self.focus_on_chat_list {
            Self::on_leaf(leaves[0])
        } else if at >= leaves.len() {
            Self::on_leaf(leaves[0])
        } else if at + 1 < leaves.len() {
            Self::on_leaf(leaves[at + 1])
        } else {
            FocusController { focus_on_chat_list: true, ..self }
        }
    }

    /// The focus after one step backward: from the list to the last pane,
    /// from a pane to the one before, from the first pane to the list. A
    /// current pane that is not among the leaves stays. Without leaves
    /// nothing moves.
    pub open spec fn backward(self, leaves: Seq<usize>) -> FocusController {
        let at = first_position(leaves, self.focused_pane_idx);
        if leaves.len() == 0 {
            self
        } else if self.focus_on_chat_list {
            Self::on_leaf(leaves.last())
        } else if at >= leaves.len() {
            self
        } else if at > 0 {
            Self::on_leaf(leaves[at - 1])
        } else {
            FocusController { focus_on_chat_list: true, ..self }
        }
    }

    /// The focus after a step to the next pane in display order, the first
    /// following the last. With fewer than two leaves, or a current pane
    /// that is not among them, nothing moves.
    pub open spec fn next(self, leaves: Seq<usize>) -> FocusController {
        let at = first_position(leaves, self.focused_pane_idx);
        if leaves.len() < 2 || at >= leaves.len() {
            self
        } else if at + 1 < leaves.len() {
            Self::on_leaf(leaves[at + 1])
        } else {
            Self::on_leaf(leaves[0])
        }
    }

    /// The focus after a step to the pane before in display order, the last
    /// preceding the first.
    pub open spec fn prev(self, leaves: Seq<usize>) -> FocusController {
        let at = first_position(leaves, self.focused_pane_idx);
        if leaves.len() < 2 || at >= leaves.len() {
            self
        } else if at > 0 {
            Self::on_leaf(leaves[at - 1])
        } else {
            Self::on_leaf(leaves.last())
        }
    }

    /// The focus at the start: on the pane that had it when the layout was
    /// saved, if that is a pane of the store; else on the list, the first
    /// pane being the current one.
    pub open spec fn initial(restored: Option<usize>, pane_count: usize) -> FocusController {
        match restored {
            Some(pane) => if pane < pane_count {
                Self::on_leaf(pane)
            } else {
                FocusController { focus_on_chat_list: true, focused_pane_idx: 0 }
            },
            None => FocusController { focus_on_chat_list: true, focused_pane_idx: 0 },
        }
    }

    /// The focus at the start.
    pub fn new(restored: Option<usize>, pane_count: usize) -> (focus: FocusController)
        ensures
            focus == Self::initial(restored, pane_count),
    {
        match restored {
            Some(pane) => {
                if pane < pane_count {
                    FocusController { focus_on_chat_list: false, focused_pane_idx: pane }
                } else {
                    FocusController { focus_on_chat_list: true, focused_pane_idx: 0 }
                }
            },
            None => FocusController { focus_on_chat_list: true, focused_pane_idx: 0 },
        }
    }

    /// What the keys go to.
    pub fn focus_target(&self) -> (target: FocusTarget)
        ensures
            target == self.target(),
    {
        if self.focus_on_chat_list {
            FocusTarget::ExternalList
        } else {
            FocusTarget::Leaf(self.focused_pane_idx)
        }
    }

    /// Steps forward through the list and the panes.
    pub fn cycle_forward(&mut self, leaves: &Vec<usize>)
        ensures
            *final(self) == old(self).forward(leaves@),
    {
        if leaves.len() == 0 {
            return;
        }
        if self.focus_on_chat_list {
            self.focus_on_chat_list = false;
            self.focused_pane_idx = leaves[0];
            return;
        }
        let at = position(leaves, self.focused_pane_idx);
        if at >= leaves.len() {
            self.focused_pane_idx = leaves[0];
        } else if at + 1 < leaves.len() {
            self.focused_pane_idx = leaves[at + 1];
        } else {
            self.focus_on_chat_list = true;
        }
    }

    /// Steps backward through the list and the panes.
    pub fn cycle_backward(&mut self, leaves: &Vec<usize>)
        ensures
            *final(self) == old(self).backward(leaves@),
    {
        if leaves.len() == 0 {
            return;
        }
        if self.focus_on_chat_list {
            self.focus_on_chat_list = false;
            self.focused_pane_idx = leaves[leaves.len() - 1];
            return;
        }
        let at = position(leaves, self.focused_pane_idx);
        if at >= leaves.len() {
        } else if at > 0 {
            self.focused_pane_idx = leaves[at - 1];
        } else {
            self.focus_on_chat_list = true;
        }
    }

    /// Steps to the next pane. Returns whether the focus moved to a pane.
    pub fn focus_next(&mut self, leaves: &Vec<usize>) -> (moved: bool)
        ensures
            *final(self) == old(self).next(leaves@),
            moved == (leaves@.len() >= 2 && first_position(leaves@, old(self).focused_pane_idx)
                < leaves@.len()),
    {
        if leaves.len() < 2 {
            return false;
        }
        let at = position(leaves, self.focused_pane_idx);
        if at >= leaves.len() {
            return false;
        }
        let to = if at + 1 < leaves.len() {
            at + 1
        } else {
            0
        };
        self.focused_pane_idx = leaves[to];
        self.focus_on_chat_list = false;
        true
    }

    /// Steps to the pane before. Returns whether the focus moved to a pane.
    pub fn focus_prev(&mut self, leaves: &Vec<usize>) -> (moved: bool)
        ensures
            *final(self) == old(self).prev(leaves@),
            moved == (leaves@.len() >= 2 && first_position(leaves@, old(self).focused_pane_idx)
                < leaves@.len()),
    {
        if leaves.len() < 2 {
            return false;
        }
        let at = position(leaves, self.focused_pane_idx);
        if at >= leaves.len() {
            return false;
        }
        let to = if at > 0 {
            at - 1
        } else {
            leaves.len() - 1
        };
        self.focused_pane_idx = leaves[to];
        self.focus_on_chat_list = false;
        true
    }

    /// Gives the keys to `pane`, whatever had them.
    pub fn focus_leaf(&mut self, pane: usize)
        ensures
            *final(self) == Self::on_leaf(pane),
    {
        self.focused_pane_idx = pane;
        self.focus_on_chat_list = false;
    }
}

/// The position of the first `pane` among `leaves`, or their count where
/// it is not among them.
pub fn position(leaves: &Vec<usize>, pane: usize) -> (at: usize)
    ensures
        at == first_position(leaves@, pane),
        at <= leaves.len(),
{
    let mut at: usize = 0;
    while at < leaves.len() && leaves[at] != pane
        invariant
            at <= leaves.len(),
            forall|j: int| 0 <= j < at ==> leaves@[j] != pane,
        decreases leaves.len() - at,
    {
        at = at + 1;
    }
    proof {
        lemma_first_position(leaves@, pane, at as int);
    }
    at
}

} // verus!
