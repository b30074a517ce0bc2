use vstd::prelude::*;
use crate::message::{copy_lines, line_views, DisplayLine, LineView};

verus! {

/// What the lines of a pane depend on beside the pane itself: the
/// switches of the display, and the clock, that is the present instant in
/// seconds since the beginning of 1970 and how many seconds east of
/// Greenwich it is read.
#[derive(Clone, Copy, Debug, PartialEq, Eq, Structural)]
pub struct DisplayOptions {
    pub compact: bool,
    pub show_emojis: bool,
    pub show_reactions: bool,
    pub show_timestamps: bool,
    pub show_line_numbers: bool,
    pub now: i64,
    pub utc_offset: i32,
}

/// What a pane's lines were made with, as far as the pane itself cannot
/// tell when it changes: the width, the switches and the clock, the count
/// of unread messages and the count of messages.
#[derive(Clone, Copy, Debug, PartialEq, Eq, Structural)]
pub struct CacheKey {
    pub width: usize,
    pub options: DisplayOptions,
    pub unread_count: u32,
    pub message_count: usize,
}

/// The lines that were made last, and what they were made with.
#[derive(Debug, PartialEq, Eq)]
pub struct CacheEntry {
    pub key: CacheKey,
    pub lines: Vec<DisplayLine>,
}

/// The memory of a pane's formatted lines. It is filled when the lines are
/// made and emptied whenever something changes that they were made from.
#[derive(Debug, PartialEq, Eq)]
pub struct FormatCache {
    pub entry: Option<CacheEntry>,
}

impl FormatCache {
    /// Whether lines are kept, and were made with `key`.
    pub open spec fn holds(self, key: CacheKey) -> bool {
        self.entry.is_some() && self.entry.unwrap().key == key
    }

    /// The lines that are kept.
    pub open spec fn kept(self) -> Seq<LineView> {
        line_views(self.entry.unwrap().lines@)
    }

    /// An empty memory.
    pub fn new() -> (cache: FormatCache)
        ensures
            cache.entry.is_none(),
    {
        FormatCache { entry: None }
    }

    /// Forgets the lines.
    pub fn clear(&mut self)
        ensures
            final(self).entry.is_none(),
    {
        self.entry = None;
    }

    /// Whether nothing is kept.
    pub fn is_empty(&self) -> (empty: bool)
        ensures
            empty == self.entry.is_none(),
    {
        self.entry.is_none()
    }

    /// A copy of the lines that are kept, if they were made with `key`.
    pub fn lookup(&self, key: CacheKey) -> (lines: Option<Vec<DisplayLine>>)
        ensures
            self.holds(key) ==> lines.is_some() && line_views(lines.unwrap()@) == self.kept(),
            !self.holds(key) ==> lines.is_none(),
    {
        match &self.entry {
            Some(entry) => {
                if entry.key == key {
                    Some(copy_lines(&entry.lines))
                } else {
                    None
                }
            },
            None => None,
        }
    }

    /// Keeps the lines, made with `key`, in place of what was kept.
    pub fn store(&mut self, key: CacheKey, lines: Vec<DisplayLine>)
        ensures
            final(self).holds(key),
            final(self).kept() == line_views(lines@),
    {
        self.entry = Some(CacheEntry { key, lines });
    }
}

} // verus!
