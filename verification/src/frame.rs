use vstd::prelude::*;
use ratatui::layout::{Constraint, Direction, Layout};
use crate::app::App;
use crate::geometry::Rect;
use crate::layout::placed;
use crate::render::{input_line_count, input_rows};

verus! {

/// What is asked of one part when an area is cut: at least so many cells,
/// exactly so many, or so many hundredths of the area.
#[derive(Clone, Copy, Debug, PartialEq, Eq, Structural)]
pub enum Span {
    Min(u16),
    Length(u16),
    Percentage(u16),
}

/// How the parts of a cut area follow each other: one below the other, or
/// side by side.
#[derive(Clone, Copy, Debug, PartialEq, Eq, Structural)]
pub enum Flow {
    Down,
    Across,
}

/// Calls `Layout::split` of `ratatui` on `area`, with the direction that
/// `flow` stands for and one constraint for each of `spans`, and returns
/// the rectangles that it gives. They come out of a solver; nothing is
/// claimed of them, and what is done with them is decided for whatever
/// comes back.
#[verifier::external_body]
fn cut(area: Rect, flow: Flow, spans: &Vec<Span>) -> (parts: Vec<Rect>) {
    let wanted = spans.iter().map(|span| match span {
        Span::Min(n) => Constraint::Min(*n),
        Span::Length(n) => Constraint::Length(*n),
        Span::Percentage(n) => Constraint::Percentage(*n),
    });
    let direction = match flow {
        Flow::Down => Direction::Vertical,
        Flow::Across => Direction::Horizontal,
    };
    let whole = ratatui::layout::Rect { x: area.x, y: area.y, width: area.width, height: area.height };
    let parts = Layout::default().direction(direction).constraints(wanted).split(whole);
    parts.iter().map(|r| Rect { x: r.x, y: r.y, width: r.width, height: r.height }).collect()
}

/// What the frame is cut into from top to bottom: the room of the lists
/// and the panes, and one row for the status bar where it shows a note.
pub open spec fn frame_rows(has_status: bool) -> Seq<Span> {
    if has_status {
        seq![Span::Min(0), Span::Length(1)]
    } else {
        seq![Span::Min(0)]
    }
}

/// What the room above the status bar is cut into from left to right
/// where the list of conversations is shown: a fifth for the list, the
/// rest for the panes.
pub open spec fn list_columns() -> Seq<Span> {
    seq![Span::Percentage(20), Span::Percentage(80)]
}

/// What the frame is cut into from top to bottom.
pub fn rows_of_frame(has_status: bool) -> (spans: Vec<Span>)
    ensures
        spans@ == frame_rows(has_status),
{
    let mut spans: Vec<Span> = Vec::new();
    spans.push(Span::Min(0));
    if has_status {
        spans.push(Span::Length(1));
    }
    assert(spans@ =~= frame_rows(has_status));
    spans
}

/// What the room above the status bar is cut into from left to right.
pub fn columns_of_list() -> (spans: Vec<Span>)
    ensures
        spans@ == list_columns(),
{
    let mut spans: Vec<Span> = Vec::new();
    spans.push(Span::Percentage(20));
    spans.push(Span::Percentage(80));
    assert(spans@ =~= list_columns());
    spans
}

/// The parts of the screen: where the list of conversations is painted,
/// if it is, where the panes are laid out, and where the status bar is
/// painted, if it is.
#[derive(Clone, Copy, Debug, PartialEq, Eq, Structural)]
pub struct FrameParts {
    pub chat_list: Option<Rect>,
    pub panes: Rect,
    pub status: Option<Rect>,
}

/// The room above the status bar: the first of the rows that the frame
/// was cut into, or the frame itself where there is no row.
pub open spec fn main_of(frame: Rect, rows: Seq<Rect>) -> Rect {
    if rows.len() > 0 {
        rows[0]
    } else {
        frame
    }
}

/// The parts of the screen, told from the rows that the frame was cut
/// into and the columns that the room `main` above the status bar was cut
/// into. The status bar has the second row, where it shows a note and
/// there is such a row. Where the list is shown and there are two
/// columns, the list has the first and the panes have the second; else
/// the panes have all of `main`.
pub open spec fn parts_of(
    main: Rect,
    rows: Seq<Rect>,
    columns: Seq<Rect>,
    has_status: bool,
    show_list: bool,
) -> FrameParts {
    FrameParts {
        chat_list: if show_list && columns.len() >= 2 {
            Some(columns[0])
        } else {
            None
        },
        panes: if show_list && columns.len() >= 2 {
            columns[1]
        } else {
            main
        },
        status: if has_status && rows.len() >= 2 {
            Some(rows[1])
        } else {
            None
        },
    }
}

/// The room above the status bar.
pub fn main_part(frame: Rect, rows: &Vec<Rect>) -> (main: Rect)
    ensures
        main == main_of(frame, rows@),
{
    if rows.len() > 0 {
        rows[0]
    } else {
        frame
    }
}

/// The parts of the screen, told from the rows and the columns.
pub fn choose_parts(
    main: Rect,
    rows: &Vec<Rect>,
    columns: &Vec<Rect>,
    has_status: bool,
    show_list: bool,
) -> (parts: FrameParts)
    ensures
        parts == parts_of(main, rows@, columns@, has_status, show_list),
{
    let with_list = show_list && columns.len() >= 2;
    FrameParts {
        chat_list: if with_list {
            Some(columns[0])
        } else {
            None
        },
        panes: if with_list {
            columns[1]
        } else {
            main
        },
        status: if has_status && rows.len() >= 2 {
            Some(rows[1])
        } else {
            None
        },
    }
}

/// The parts of a pane: where its heading, its messages, the preview of
/// the answered message, if there is one, and its input are painted.
#[derive(Clone, Copy, Debug, PartialEq, Eq, Structural)]
pub struct PaneParts {
    pub header: Rect,
    pub messages: Rect,
    pub reply: Option<Rect>,
    pub input: Rect,
}

/// `n`, or the greatest number of cells there is where `n` is beyond it.
pub open spec fn cells(n: int) -> u16 {
    if n <= u16::MAX {
        n as u16
    } else {
        u16::MAX
    }
}

/// How many rows the heading of a pane takes.
pub open spec fn header_height(show_borders: bool) -> u16 {
    if show_borders {
        3
    } else {
        1
    }
}

/// How many rows and columns the borders of a field take.
pub open spec fn border_overhead(show_borders: bool) -> u16 {
    if show_borders {
        2
    } else {
        0
    }
}

/// How many rows the input of a pane takes in an area `width` columns
/// wide: in the pane that has the keys, the rows of what was typed, in
/// another one row; the borders; and one row more.
pub open spec fn input_height(show_borders: bool, typed: Option<Seq<char>>, width: u16) -> u16 {
    let inner = if width - border_overhead(show_borders) >= 1 {
        width - border_overhead(show_borders)
    } else {
        1
    };
    let rows = match typed {
        Some(buffer) => cells(input_rows(buffer, inner)),
        None => 1,
    };
    cells(rows + border_overhead(show_borders) + 1)
}

/// What the area of a pane is cut into from top to bottom: the heading,
/// the messages, one row for the preview of the answered message where
/// there is one, and the input.
pub open spec fn pane_rows(
    show_borders: bool,
    typed: Option<Seq<char>>,
    has_reply_preview: bool,
    width: u16,
) -> Seq<Span> {
    if has_reply_preview {
        seq![
            Span::Length(header_height(show_borders)),
            Span::Min(0),
            Span::Length(1),
            Span::Length(input_height(show_borders, typed, width)),
        ]
    } else {
        seq![
            Span::Length(header_height(show_borders)),
            Span::Min(0),
            Span::Length(input_height(show_borders, typed, width)),
        ]
    }
}

/// The parts of a pane, told from the rows that its area was cut into. A
/// part for which there is no row is empty, at the corner of the area.
pub open spec fn pane_parts_of(area: Rect, rows: Seq<Rect>, has_reply_preview: bool) -> PaneParts {
    let none = Rect { x: area.x, y: area.y, width: 0, height: 0 };
    let at = |k: int|
        if 0 <= k < rows.len() {
            rows[k]
        } else {
            none
        };
    PaneParts {
        header: at(0),
        messages: at(1),
        reply: if has_reply_preview {
            Some(at(2))
        } else {
            None
        },
        input: if has_reply_preview {
            at(3)
        } else {
            at(2)
        },
    }
}

fn row_at(area: Rect, rows: &Vec<Rect>, k: usize) -> (row: Rect)
    ensures
        row == if k < rows@.len() {
            rows@[k as int]
        } else {
            (Rect { x: area.x, y: area.y, width: 0, height: 0 })
        },
{
    if k < rows.len() {
        rows[k]
    } else {
        Rect { x: area.x, y: area.y, width: 0, height: 0 }
    }
}

/// The parts of a pane, told from the rows that its area was cut into.
pub fn choose_pane_parts(area: Rect, rows: &Vec<Rect>, has_reply_preview: bool) -> (parts: PaneParts)
    ensures
        parts == pane_parts_of(area, rows@, has_reply_preview),
{
    PaneParts {
        header: row_at(area, rows, 0),
        messages: row_at(area, rows, 1),
        reply: if has_reply_preview {
            Some(row_at(area, rows, 2))
        } else {
            None
        },
        input: if has_reply_preview {
            row_at(area, rows, 3)
        } else {
            row_at(area, rows, 2)
        },
    }
}

impl App {
    /// What is typed in the pane at `pane_idx`, where that pane is the
    /// current one; the input of another pane is not shown.
    pub open spec fn typed_in(self, pane_idx: int) -> Option<Seq<char>> {
        if self.focus.focused_pane_idx == pane_idx {
            Some(self.panes@[pane_idx].input_buffer@)
        } else {
            None
        }
    }

    /// What the area of the pane at `pane_idx`, `width` columns wide, is
    /// cut into from top to bottom.
    pub fn pane_spans(&self, pane_idx: usize, width: u16) -> (spans: Vec<Span>)
        requires
            pane_idx < self.panes@.len(),
        ensures
            spans@ == pane_rows(
                self.show_borders,
                self.typed_in(pane_idx as int),
                self.panes@[pane_idx as int].reply_preview.is_some(),
                width,
            ),
    {
        let overhead: u16 = if self.show_borders {
            2
        } else {
            0
        };
        let header: u16 = if self.show_borders {
            3
        } else {
            1
        };
        let inner: u16 = if width > overhead {
            width - overhead
        } else {
            1
        };
        let rows: u16 = if self.focus.focused_pane_idx == pane_idx {
            let count = input_line_count(&self.panes[pane_idx].input_buffer, inner as usize);
            if count <= u16::MAX as usize {
                count as u16
            } else {
                u16::MAX
            }
        } else {
            1
        };
        let input: u16 = if rows <= u16::MAX - overhead - 1 {
            rows + overhead + 1
        } else {
            u16::MAX
        };
        let mut spans: Vec<Span> = Vec::new();
        spans.push(Span::Length(header));
        spans.push(Span::Min(0));
        if self.panes[pane_idx].reply_preview.is_some() {
            spans.push(Span::Length(1));
        }
        spans.push(Span::Length(input));
        assert(spans@ =~= pane_rows(
            self.show_borders,
            self.typed_in(pane_idx as int),
            self.panes@[pane_idx as int].reply_preview.is_some(),
            width,
        ));
        spans
    }

    /// Cuts the area of the pane at `pane_idx` into the parts of the pane.
    /// The rows come from the cutting; which of them is which part is told
    /// by `pane_parts_of` for whatever rows there are.
    pub fn pane_parts(&self, pane_idx: usize, area: Rect) -> (parts: PaneParts)
        requires
            pane_idx < self.panes@.len(),
        ensures
            parts.reply.is_some() == self.panes@[pane_idx as int].reply_preview.is_some(),
    {
        let spans = self.pane_spans(pane_idx, area.width);
        let rows = cut(area, Flow::Down, &spans);
        choose_pane_parts(area, &rows, self.panes[pane_idx].reply_preview.is_some())
    }

    /// Whether `after` is `self` with the list of conversations at its
    /// part of `parts` and the panes laid out in theirs.
    pub open spec fn placed_in(self, after: App, parts: FrameParts) -> bool {
        &&& after.chat_list_area == parts.chat_list
        &&& after.pane_areas@ == placed(Map::empty(), self.pane_tree@.layout(parts.panes.clipped()))
        &&& forall|pane: usize|
            #[trigger] after.pane_areas@.contains_key(pane) <==> self.pane_tree@.has_leaf(pane)
        &&& after == (App {
            pane_areas: after.pane_areas,
            chat_list_area: after.chat_list_area,
            ..self
        })
    }

    /// Takes up the parts of the screen: the list of conversations is at
    /// its part, and the panes are laid out in theirs.
    pub fn place(&mut self, parts: FrameParts)
        ensures
            old(self).placed_in(*final(self), parts),
            old(self).well_formed() ==> final(self).well_formed(),
    {
        self.chat_list_area = parts.chat_list;
        self.arrange(parts.panes);
    }

    /// Cuts the frame into the parts of the screen and takes them up. The
    /// rows and columns come from the cutting; which of them is which part
    /// is told by `parts_of` for whatever rows and columns there are. The
    /// list has a part only where it is shown, and the status bar only
    /// where it shows a note.
    pub fn arrange_frame(&mut self, frame: Rect) -> (parts: FrameParts)
        ensures
            parts.chat_list.is_some() ==> old(self).show_chat_list,
            parts.status.is_some() ==> old(self).status_message.is_some(),
            old(self).placed_in(*final(self), parts),
            old(self).well_formed() ==> final(self).well_formed(),
    {
        let has_status = self.status_message.is_some();
        let row_spans = rows_of_frame(has_status);
        let rows = cut(frame, Flow::Down, &row_spans);
        let main = main_part(frame, &rows);
        let columns = if self.show_chat_list {
            let column_spans = columns_of_list();
            cut(main, Flow::Across, &column_spans)
        } else {
            Vec::new()
        };
        let parts = choose_parts(main, &rows, &columns, has_status, self.show_chat_list);
        self.place(parts);
        parts
    }
}

} // verus!
