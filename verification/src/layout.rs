//! Where things stand on the screen.

use crate::app::{App, AppView};
use crate::focus::{BaseFocus, OverlayFocus};
use crate::navigation;
use crate::selection;
use crate::ui::{SelectionActionBarState, SelectionActionTarget, Ui, UiView};
use vstd::prelude::*;

verus! {

/// A rectangle of cells.
#[derive(Debug, Clone, Copy, PartialEq, Eq, Structural)]
pub struct Area {
    pub x: u16,
    pub y: u16,
    pub width: u16,
    pub height: u16,
}

/// How the height of a row is found.
#[derive(Debug, Clone, Copy, PartialEq, Eq, Structural)]
pub enum Row {
    Min(u16),
    Length(u16),
}

/// How much of the height the rows of fixed height take.
pub open spec fn fixed_height(rows: Seq<Row>) -> int
    decreases rows.len(),
{
    if rows.len() == 0 {
        0
    } else {
        fixed_height(rows.drop_last()) + match rows.last() {
            Row::Min(_) => 0int,
            Row::Length(n) => n as int,
        }
    }
}

/// Exactly one row, the one at `flexible`, takes what the others leave.
pub open spec fn has_one_flexible(rows: Seq<Row>, flexible: int) -> bool {
    &&& 0 <= flexible < rows.len()
    &&& forall|i: int|
        0 <= i < rows.len() ==> if i == flexible {
            #[trigger] rows[i] == Row::Min(0)
        } else {
            rows[i] is Length
        }
}

/// Where each row stands when there is room for all of them: one below the other from the top of
/// the area, the flexible row as high as the others leave.
pub open spec fn is_stacked(parts: Seq<Area>, area: Area, rows: Seq<Row>, flexible: int) -> bool {
    let spare = area.bottom_edge() - area.y - fixed_height(rows);
    &&& parts.len() == rows.len()
    &&& forall|i: int|
        0 <= i < rows.len() ==> {
            &&& (#[trigger] parts[i]).y == area.y + fixed_height(rows.take(i)) + (if i > flexible {
                spare
            } else {
                0
            })
            &&& parts[i].height == match rows[i] {
                Row::Min(_) => spare,
                Row::Length(n) => n as int,
            }
        }
}

/// `ratatui::layout::Layout::split`, from top to bottom: one rectangle for each row, as wide as
/// the area and inside it. Where one row is flexible and the others leave it room, a row of fixed
/// height gets that height, the flexible one gets the rest, and the rows stand one below the other.
/// How the height is shared out where it does not suffice is up to the solver, which chooses among
/// equally good answers by the order of its hash maps; that order differs from process to process,
/// so nothing more is claimed of it.
#[verifier::external_body]
pub(crate) fn split_rows(area: Area, rows: &Vec<Row>) -> (r: Vec<Area>)
    ensures
        r@.len() == rows@.len(),
        forall|i: int|
            0 <= i < r@.len() ==> (#[trigger] r@[i]).x == area.x && r@[i].width == area.width,
        forall|i: int|
            0 <= i < r@.len() ==> area.y <= (#[trigger] r@[i]).y && r@[i].y + r@[i].height
                <= area.bottom_edge(),
        forall|k: int|
            #[trigger] has_one_flexible(rows@, k) && fixed_height(rows@) <= area.bottom_edge()
                - area.y ==> is_stacked(r@, area, rows@, k),
{
    let to_constraint = |row: &Row| match row {
        Row::Min(n) => ratatui::layout::Constraint::Min(*n),
        Row::Length(n) => ratatui::layout::Constraint::Length(*n),
    };
    ratatui::layout::Layout::default()
        .direction(ratatui::layout::Direction::Vertical)
        .constraints(rows.iter().map(to_constraint))
        .split(ratatui::layout::Rect { x: area.x, y: area.y, width: area.width, height: area.height })
        .iter()
        .map(|r| Area { x: r.x, y: r.y, width: r.width, height: r.height })
        .collect()
}

/// The sum, or the largest number there is.
pub open spec fn capped(n: int) -> int {
    if n > 0xffff {
        0xffff
    } else {
        n
    }
}

/// The difference, or nothing.
pub open spec fn left_of(a: int, b: int) -> int {
    if a > b {
        a - b
    } else {
        0
    }
}

impl Area {
    pub open spec fn right_edge(self) -> int {
        capped(self.x + self.width)
    }

    pub open spec fn bottom_edge(self) -> int {
        capped(self.y + self.height)
    }

    pub open spec fn holds(self, column: u16, row: u16) -> bool {
        self.x <= column < self.right_edge() && self.y <= row < self.bottom_edge()
    }

    pub open spec fn fits(self) -> bool {
        self.x + self.width <= 0xffff && self.y + self.height <= 0xffff
    }

    pub fn right(&self) -> (r: u16)
        ensures
            r == self.right_edge(),
    {
        self.x.saturating_add(self.width)
    }

    pub fn bottom(&self) -> (r: u16)
        ensures
            r == self.bottom_edge(),
    {
        self.y.saturating_add(self.height)
    }

    pub fn contains(&self, column: u16, row: u16) -> (r: bool)
        ensures
            r == self.holds(column, row),
    {
        column >= self.x && column < self.right() && row >= self.y && row < self.bottom()
    }
}

/// A rectangle that ends inside the screen's coordinates.
pub open spec fn area_within(x: int, y: int, width: int, height: int) -> Area {
    Area {
        x: x as u16,
        y: y as u16,
        width: (if width > 0xffff - x {
            0xffff - x
        } else {
            width
        }) as u16,
        height: (if height > 0xffff - y {
            0xffff - y
        } else {
            height
        }) as u16,
    }
}

impl Area {
    pub fn new(x: u16, y: u16, width: u16, height: u16) -> (r: Area)
        ensures
            r == area_within(x as int, y as int, width as int, height as int),
    {
        Area {
            x,
            y,
            width: smaller(width, 0xffff - x),
            height: smaller(height, 0xffff - y),
        }
    }
}

/// How high the parts below the transcript are, as the caller has measured them.
#[derive(Debug, Clone, Copy, PartialEq, Eq, Structural)]
pub struct ChatHeights {
    pub input: u16,
    pub queue: u16,
    pub footer: u16,
}

/// The rows below the transcript: the queue, the input and the help line, or the footer of an
/// agent's session, and two lines of status.
pub open spec fn rows_below(h: ChatHeights, child: bool) -> int {
    if child {
        capped(h.footer + 2)
    } else {
        capped(h.queue + h.input + 3)
    }
}

/// Where the transcript and what is below it stand.
pub open spec fn chat_rows(h: ChatHeights, child: bool) -> Seq<Row> {
    seq![
        Row::Length(0),
        Row::Min(0),
        Row::Length(0),
        Row::Length(if child { 0 } else { h.queue }),
        Row::Length(if child { h.footer } else { h.input }),
        Row::Length(if child { 0 } else { 1 }),
        Row::Length(1),
    ]
}

fn make_chat_rows(h: ChatHeights, child: bool) -> (r: Vec<Row>)
    ensures
        r@ == chat_rows(h, child),
{
    let mut rows: Vec<Row> = Vec::new();
    rows.push(Row::Length(0));
    rows.push(Row::Min(0));
    rows.push(Row::Length(0));
    rows.push(
        Row::Length(
            if child {
                0
            } else {
                h.queue
            },
        ),
    );
    rows.push(
        Row::Length(
            if child {
                h.footer
            } else {
                h.input
            },
        ),
    );
    rows.push(
        Row::Length(
            if child {
                0
            } else {
                1
            },
        ),
    );
    rows.push(Row::Length(1));
    rows
}

impl App {
    pub fn dialog_below_chat_height(&self, h: ChatHeights) -> (r: u16)
        ensures
            r == rows_below(h, navigation::in_child(self@)),
    {
        if self.is_subagent_session_active() {
            h.footer.saturating_add(1).saturating_add(1)
        } else {
            h.queue.saturating_add(h.input).saturating_add(1).saturating_add(1).saturating_add(1)
        }
    }

    /// Where the transcript stands: at the top of the screen, as high as what is below it leaves.
    /// Where there is no room for all of that, only that it stays on the screen is certain.
    pub fn chat_area_for_size(&self, size: Area, h: ChatHeights) -> (r: Area)
        ensures
            is_chat_area(self@, size, h, r),
    {
        let mut outer: Vec<Row> = Vec::new();
        outer.push(Row::Min(0));
        outer.push(Row::Length(1));
        let main = split_rows(size, &outer);
        let child = self.is_subagent_session_active();
        let rows = make_chat_rows(h, child);
        let parts = split_rows(main[0], &rows);
        proof {
            reveal_with_fuel(fixed_height, 8);
            assert(has_one_flexible(outer@, 0));
            assert(outer@ =~= seq![Row::Min(0), Row::Length(1)]);
            assert(outer@.drop_last() =~= seq![Row::Min(0)]);
            assert(outer@.drop_last().drop_last() =~= Seq::<Row>::empty());
            assert(fixed_height(outer@) == 1);
            assert(has_one_flexible(rows@, 1));
            lemma_chat_rows(h, child);
            assert(outer@.take(0) =~= Seq::<Row>::empty());
            assert(parts@[1].y >= main@[0].y);
        }
        parts[1]
    }

    /// Where the popup of suggestions hangs: at the input, which is at the foot of the screen.
    pub fn suggestions_popup_anchor_area(&self, size: Area, h: ChatHeights) -> (r: Area)
        ensures
            is_anchor_area(self@, size, h, r),
    {
        let mut outer: Vec<Row> = Vec::new();
        outer.push(Row::Min(0));
        let main = split_rows(size, &outer);
        let queue: u16 = if self.base_focus == BaseFocus::Chat
            && !self.is_subagent_session_active() {
            h.queue
        } else {
            0
        };
        let mut rows: Vec<Row> = Vec::new();
        rows.push(Row::Min(0));
        rows.push(Row::Length(queue));
        rows.push(Row::Length(h.input));
        let parts = split_rows(main[0], &rows);
        proof {
            reveal_with_fuel(fixed_height, 4);
            assert(has_one_flexible(outer@, 0));
            assert(outer@.drop_last() =~= Seq::<Row>::empty());
            assert(fixed_height(outer@) == 0);
            assert(outer@.take(0) =~= Seq::<Row>::empty());
            assert(has_one_flexible(rows@, 0));
            let two = seq![Row::Min(0), Row::Length(queue)];
            assert(rows@.drop_last() =~= two);
            assert(rows@.take(2) =~= two);
            assert(two.drop_last() =~= seq![Row::Min(0)]);
            assert(seq![Row::Min(0)].drop_last() =~= Seq::<Row>::empty());
            assert(fixed_height(rows@) == queue + h.input);
            assert(parts@[2].y >= main@[0].y);
        }
        parts[2]
    }
}

/// The height of everything but the transcript.
pub open spec fn height_below(h: ChatHeights, child: bool) -> int {
    if child {
        h.footer + 2
    } else {
        h.queue + h.input + 3
    }
}

/// The height of the queue where it is shown: above the input of a chat.
pub open spec fn shown_queue(a: AppView, h: ChatHeights) -> int {
    if a.base_focus == BaseFocus::Chat && !navigation::in_child(a) {
        h.queue as int
    } else {
        0
    }
}

pub open spec fn is_chat_area(a: AppView, size: Area, h: ChatHeights, r: Area) -> bool {
    let below = height_below(h, navigation::in_child(a));
    let room = size.bottom_edge() - size.y;
    &&& r.x == size.x && r.width == size.width
    &&& size.y <= r.y && r.y + r.height <= size.bottom_edge()
    &&& below <= room ==> r.y == size.y && r.height == room - below
}

pub open spec fn is_anchor_area(a: AppView, size: Area, h: ChatHeights, r: Area) -> bool {
    &&& r.x == size.x && r.width == size.width
    &&& size.y <= r.y && r.y + r.height <= size.bottom_edge()
    &&& h.input + shown_queue(a, h) <= size.bottom_edge() - size.y ==> r.y == size.bottom_edge()
        - h.input && r.height == h.input
}

proof fn lemma_chat_rows(h: ChatHeights, child: bool)
    ensures
        fixed_height(chat_rows(h, child)) == height_below(h, child) - 1,
        fixed_height(chat_rows(h, child).take(1)) == 0,
{
    reveal_with_fuel(fixed_height, 8);
    let rows = chat_rows(h, child);
    assert(rows.drop_last() =~= rows.take(6));
    assert(rows.take(6).drop_last() =~= rows.take(5));
    assert(rows.take(5).drop_last() =~= rows.take(4));
    assert(rows.take(4).drop_last() =~= rows.take(3));
    assert(rows.take(3).drop_last() =~= rows.take(2));
    assert(rows.take(2).drop_last() =~= rows.take(1));
    assert(rows.take(1).drop_last() =~= Seq::<Row>::empty());
}

/// Where the wheel scrolls the transcript: over it, and over the header of a compact chat.
pub open spec fn scroll_region(chat: Area, compact: bool) -> Area {
    if compact {
        let top = left_of(chat.y as int, 3);
        Area {
            x: chat.x,
            y: top as u16,
            width: chat.width,
            height: left_of(chat.bottom_edge(), top) as u16,
        }
    } else {
        chat
    }
}

/// A turn of the wheel over the transcript is for it, unless a dialog is open.
pub open spec fn wheel_is_for_chat(a: AppView, chat: Area, column: u16, row: u16) -> bool {
    (a.overlay_focus == OverlayFocus::Nothing || a.overlay_focus == OverlayFocus::FindBar)
        && a.base_focus == BaseFocus::Chat && scroll_region(chat, a.ui.compact_mode).holds(
        column,
        row,
    )
}

impl App {
    pub fn chat_scroll_region(&self, chat: Area) -> (r: Area)
        ensures
            r == scroll_region(chat, self@.ui.compact_mode),
    {
        reveal(<Ui as View>::view);
        if !self.ui.compact_mode {
            return chat;
        }
        let top: u16 = chat.y.saturating_sub(3);
        Area {
            x: chat.x,
            y: top,
            width: chat.width,
            height: chat.bottom().saturating_sub(top),
        }
    }

    /// Whether a turn of the wheel is for the transcript.
    pub fn wheel_scrolls_chat(&self, chat: Area, column: u16, row: u16) -> (r: bool)
        ensures
            r == wheel_is_for_chat(self@, chat, column, row),
    {
        (self.overlay_focus == OverlayFocus::Nothing || self.overlay_focus
            == OverlayFocus::FindBar) && self.base_focus == BaseFocus::Chat
            && self.chat_scroll_region(chat).contains(column, row)
    }
}

pub open spec fn between(n: int, low: int, high: int) -> int {
    if n < low {
        low
    } else if n > high {
        high
    } else {
        n
    }
}

/// A bar of one line moved and cut so that it stands inside its container; none where there is
/// no room.
pub open spec fn clamped(container: Area, area: Area) -> Area {
    let width = if area.width < container.width {
        area.width
    } else {
        container.width
    };
    if width == 0 || container.height == 0 {
        Area { x: container.x, y: container.y, width: 0, height: 0 }
    } else {
        Area {
            x: between(
                area.x as int,
                container.x as int,
                capped(container.x + (container.width - width)),
            ) as u16,
            y: between(
                area.y as int,
                container.y as int,
                capped(container.y + (container.height - 1)),
            ) as u16,
            width,
            height: 1,
        }
    }
}

fn keep_between(n: u16, low: u16, high: u16) -> (r: u16)
    ensures
        r == between(n as int, low as int, high as int),
{
    if n < low {
        low
    } else if n > high {
        high
    } else {
        n
    }
}

fn smaller(a: u16, b: u16) -> (r: u16)
    ensures
        r == if a < b {
            a
        } else {
            b
        },
{
    if a < b {
        a
    } else {
        b
    }
}

pub fn clamp_action_bar_area(container: Area, area: Area) -> (r: Area)
    ensures
        r == clamped(container, area),
{
    let width: u16 = smaller(area.width, container.width);
    if width == 0 || container.height == 0 {
        return Area { x: container.x, y: container.y, width: 0, height: 0 };
    }
    let max_x: u16 = container.x.saturating_add(container.width - width);
    let max_y: u16 = container.y.saturating_add(container.height - 1);
    Area {
        x: keep_between(area.x, container.x, max_x),
        y: keep_between(area.y, container.y, max_y),
        width,
        height: 1,
    }
}

/// A bar stands inside its container, whatever was asked for.
pub proof fn law_bar_stays_inside(container: Area, area: Area)
    requires
        container.fits(),
    ensures
        ({
            let r = clamped(container, area);
            &&& container.x <= r.x
            &&& r.x + r.width <= container.x + container.width
            &&& container.y <= r.y
            &&& r.y + r.height <= container.y + container.height
        }),
{
}

/// The line over the selection, or under it where the selection begins at the top.
pub open spec fn anchor_row(area: Area, first: usize, last: usize) -> int {
    if first > 0 {
        capped(area.y + (first as u16) - 1)
    } else {
        let below = last + 1;
        let lowest = left_of(area.height as int, 1);
        capped(
            area.y + (if below < lowest {
                below
            } else {
                lowest
            }),
        )
    }
}

/// The column of the selection, moved so that the bar ends inside.
pub open spec fn anchor_column(area: Area, column: usize, width: u16) -> int {
    let wanted = capped(area.x + (column as u16));
    let last = capped(
        area.x + left_of(
            area.width as int,
            if width > 1 {
                width as int
            } else {
                1
            },
        ),
    );
    if wanted < last {
        wanted
    } else {
        last
    }
}

pub open spec fn anchored(
    area: Area,
    scroll: usize,
    start_line: usize,
    end_line: usize,
    start_col: usize,
    width: u16,
) -> Area {
    clamped(
        area,
        area_within(
            anchor_column(area, start_col, width),
            anchor_row(
                area,
                left_of(start_line as int, scroll as int) as usize,
                left_of(end_line as int, scroll as int) as usize,
            ),
            if width < area.width {
                width as int
            } else {
                area.width as int
            },
            1,
        ),
    )
}

/// Whether the lines of a selection can be told on the screen: a line that is to have one above
/// it must not count as the first when only the low half of its number is looked at.
pub open spec fn can_anchor(scroll: usize, start_line: usize, end_line: usize) -> bool {
    let first = left_of(start_line as int, scroll as int) as usize;
    &&& first > 0 ==> (first as u16) > 0
    &&& left_of(end_line as int, scroll as int) < usize::MAX
}

fn find_anchor_row(area: Area, first: usize, last: usize) -> (r: u16)
    requires
        first > 0 ==> (first as u16) > 0,
        last < usize::MAX,
    ensures
        r == anchor_row(area, first, last),
{
    if first > 0 {
        area.y.saturating_add(first as u16 - 1)
    } else {
        let below: usize = last + 1;
        let lowest: u16 = area.height.saturating_sub(1);
        if below < lowest as usize {
            area.y.saturating_add(below as u16)
        } else {
            area.y.saturating_add(lowest)
        }
    }
}

fn find_anchor_column(area: Area, column: usize, width: u16) -> (r: u16)
    ensures
        r == anchor_column(area, column, width),
{
    let wanted: u16 = area.x.saturating_add(column as u16);
    let least: u16 = if width > 1 {
        width
    } else {
        1
    };
    let last: u16 = area.x.saturating_add(area.width.saturating_sub(least));
    smaller(wanted, last)
}

pub fn selection_action_bar_area_for_anchor(
    area: Area,
    scroll_offset: usize,
    start_line: usize,
    end_line: usize,
    start_col: usize,
    width: u16,
) -> (r: Area)
    requires
        can_anchor(scroll_offset, start_line, end_line),
    ensures
        r == anchored(area, scroll_offset, start_line, end_line, start_col, width),
{
    let first: usize = start_line.saturating_sub(scroll_offset);
    let last: usize = end_line.saturating_sub(scroll_offset);
    clamp_action_bar_area(
        area,
        Area::new(
            find_anchor_column(area, start_col, width),
            find_anchor_row(area, first, last),
            smaller(width, area.width),
            1,
        ),
    )
}

/// Where a selection of the transcript begins and ends.
#[derive(Debug, Clone, Copy, PartialEq, Eq, Structural)]
pub struct SelectedRange {
    pub start_line: usize,
    pub start_col: usize,
    pub end_line: usize,
}

pub open spec fn chat_bar_area(
    chat: Area,
    scroll: usize,
    range: SelectedRange,
    bar: SelectionActionBarState,
) -> Area {
    anchored(
        Area { width: left_of(chat.width as int, 2) as u16, ..chat },
        scroll,
        range.start_line,
        range.end_line,
        range.start_col,
        selection::bar_width(bar),
    )
}

/// The bar beside a selection of the transcript, left of its scrollbar.
pub fn chat_selection_action_bar_area(
    chat: Area,
    scroll_offset: usize,
    range: SelectedRange,
    bar: SelectionActionBarState,
) -> (r: Area)
    requires
        can_anchor(scroll_offset, range.start_line, range.end_line),
    ensures
        r == chat_bar_area(chat, scroll_offset, range, bar),
{
    selection_action_bar_area_for_anchor(
        Area { x: chat.x, y: chat.y, width: chat.width.saturating_sub(2), height: chat.height },
        scroll_offset,
        range.start_line,
        range.end_line,
        range.start_col,
        selection::selection_action_bar_width(bar),
    )
}

pub open spec fn input_bar_area(frame: Area, input: Area) -> Area {
    clamped(
        frame,
        area_within(
            capped(input.x + 1),
            left_of(input.y as int, 1),
            if 12 < frame.width {
                12
            } else {
                frame.width as int
            },
            1,
        ),
    )
}

/// The bar over a selection of the input.
pub fn input_selection_action_bar_area(frame: Area, input: Area) -> (r: Area)
    ensures
        r == input_bar_area(frame, input),
{
    clamp_action_bar_area(
        frame,
        Area::new(
            input.x.saturating_add(1),
            input.y.saturating_sub(1),
            smaller(12, frame.width),
            1,
        ),
    )
}

} // verus!
