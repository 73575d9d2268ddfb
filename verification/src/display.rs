//! The display: where each cell is drawn, and what is written there.

use crate::cells::{ids, CellId, CellKey, CellTable};
use crate::check::{CheckResult, IoError};
use crate::clock::{duration_nanos, instant_nanos, NANOS_PER_SEC};
use crate::engine::{
    counter_counts_up, status_name, status_text, statuses_have_names, HostState,
};
use crate::text::{begins_with, decimal, push_decimal, shorten, shortened};
use ratatui::layout::{Constraint, Layout, Rect};
use std::time::{Duration, Instant};
use vstd::prelude::*;
use vstd::string::*;
use vstd::utf8::*;

verus! {

/// A colour: red, green and blue, eight bits each, red in the highest place.
pub type Color = u32;

/// The colour of a cell that is up.
pub const COLOR_UP: Color = 0x00FF00;

/// The colour of a cell that is down.
pub const COLOR_DOWN: Color = 0xFF0000;

/// The colour of a counter.
pub const COLOR_TEXT: Color = 0xFFFFFF;

/// The colour of the top bar.
pub const COLOR_DIM: Color = 0x888888;

/// How long the display waits for a key before it draws anew, in milliseconds.
pub const REFRESH_MILLIS: u64 = 250;

/// Why the display ended.
#[derive(Debug)]
pub enum DisplayError {
    Io(IoError),
}

impl DisplayError {
    /// The message of the error.
    pub open spec fn text(self) -> Seq<char> {
        match self {
            DisplayError::Io(e) => "terminal I/O error: "@ + e.message@,
        }
    }

    /// Writes the message of the error.
    pub fn message(&self) -> (message: String)
        ensures
            message@ == self.text(),
            match *self {
                DisplayError::Io(e) => message@ == "terminal I/O error: "@ + e.message@,
            },
    {
        match self {
            DisplayError::Io(e) => "terminal I/O error: ".to_owned().concat(e.message.as_str()),
        }
    }
}

// ------------------------------------------------------------------- time in words

/// A number of seconds in whole days, hours and minutes.
pub open spec fn days_hours_minutes(secs: nat) -> Seq<char> {
    decimal(secs / 86400) + "d "@ + decimal((secs % 86400) / 3600) + "h "@ + decimal(
        (secs % 3600) / 60,
    ) + "m"@
}

/// Writes a number of seconds as days, hours and minutes.
pub fn format_secs(secs: u64) -> (text: String)
    ensures
        text@ == days_hours_minutes(secs as nat),
{
    let mut text: String = String::new();
    push_decimal(&mut text, secs / 86400);
    text.append("d ");
    push_decimal(&mut text, (secs % 86400) / 3600);
    text.append("h ");
    push_decimal(&mut text, (secs % 3600) / 60);
    text.append("m");
    assert(text@ =~= days_hours_minutes(secs as nat));
    text
}

/// Writes a duration as days, hours and minutes.
pub fn format_duration(d: Duration) -> (text: String)
    ensures
        text@ == days_hours_minutes(duration_nanos(d) / NANOS_PER_SEC as nat),
{
    format_secs(d.as_secs())
}

/// Writes for how many seconds the machine has been up.
pub fn format_uptime(secs: u64) -> (text: String)
    ensures
        text@ == "up "@ + days_hours_minutes(secs as nat),
{
    "up ".to_owned().concat(format_secs(secs).as_str())
}

/// The days, hours and minutes that are written make up the time to the minute,
/// with fewer than twenty-four hours and sixty minutes.
pub proof fn time_is_told_to_the_minute(secs: nat)
    ensures
        (secs % 86400) / 3600 < 24,
        (secs % 3600) / 60 < 60,
        0 <= secs - (secs / 86400 * 86400 + (secs % 86400) / 3600 * 3600 + (secs % 3600) / 60 * 60)
            < 60,
{
}

// -------------------------------------------------------------------------- layout

/// How many cells fit into one column of a terminal of this height: every cell
/// takes two rows, below the two of the top bar.
pub open spec fn rows_per_column(height: nat) -> nat {
    if height >= 2 {
        ((height - 2) / 2) as nat
    } else {
        0
    }
}

/// The widest terminal that has one column if the cells have room in it.
pub const SINGLE_COLUMN_WIDTH: u16 = 80;

/// How wide a column is at least, where there are more than the cells need.
pub const COLUMN_WIDTH: u16 = 40;

/// The fewest columns of `rows` cells that hold `count` cells.
pub open spec fn fewest_columns(count: nat, rows: nat) -> nat {
    ((count + rows - 1) / rows as int) as nat
}

/// How many columns a terminal of this width is wide enough for.
pub open spec fn columns_across(width: nat) -> nat {
    if width > SINGLE_COLUMN_WIDTH {
        width / COLUMN_WIDTH as nat
    } else {
        1
    }
}

/// How many columns `count` cells are laid out in: as many as the width has room
/// for, but no more than there are cells, and no fewer than hold them all.
pub open spec fn columns_for(width: nat, count: nat, rows: nat) -> nat {
    let fewest = fewest_columns(count, rows);
    let across = columns_across(width);
    let wanted = if across < count {
        across
    } else {
        count
    };
    if wanted > fewest {
        wanted
    } else {
        fewest
    }
}

/// How `count` cells are laid out in a terminal: the number of columns, how many
/// cells a column has room for, and how wide a column is. A terminal that has
/// no room for a cell is laid out for one.
pub open spec fn layout_of(width: nat, height: nat, count: nat) -> (nat, nat, nat) {
    let rows = rows_per_column(height);
    if rows == 0 || count == 0 {
        (1, 1, width)
    } else {
        let columns = columns_for(width, count, rows);
        (columns, rows, width / columns)
    }
}

/// Computes how the cells are laid out.
pub fn compute_layout(terminal_size: (u16, u16), cell_count: usize) -> (layout: (
    usize,
    usize,
    usize,
))
    ensures
        (layout.0 as nat, layout.1 as nat, layout.2 as nat) == layout_of(
            terminal_size.0 as nat,
            terminal_size.1 as nat,
            cell_count as nat,
        ),
        terminal_size.1 < 4 || cell_count == 0 ==> layout == (1usize, 1usize, terminal_size.0 as usize),
        terminal_size.1 >= 4 && cell_count > 0 ==> is_layout(
            terminal_size.0 as int,
            terminal_size.1 as int,
            cell_count as int,
            layout.0 as int,
            layout.1 as int,
            layout.2 as int,
        ),
{
    proof {
        if terminal_size.1 >= 4 && cell_count > 0 {
            layout_is_settled(
                terminal_size.0 as nat,
                terminal_size.1 as nat,
                cell_count as nat,
            );
        }
    }
    let (width, height) = terminal_size;
    let data_rows: usize = (height as usize).saturating_sub(2);
    let max_rows_per_col: usize = data_rows / 2;
    if max_rows_per_col == 0 || cell_count == 0 {
        return (1, 1, width as usize);
    }
    let fewest: usize = (cell_count - 1) / max_rows_per_col + 1;
    proof {
        let n = cell_count as int;
        let r = max_rows_per_col as int;
        assert((n + r - 1) / r == (n - 1) / r + 1) by (nonlinear_arith)
            requires
                n >= 1,
                r >= 1,
        ;
    }
    let across: usize = if width > SINGLE_COLUMN_WIDTH {
        (width / COLUMN_WIDTH) as usize
    } else {
        1
    };
    let wanted: usize = if across < cell_count {
        across
    } else {
        cell_count
    };
    let columns: usize = if wanted > fewest {
        wanted
    } else {
        fewest
    };
    let cell_width: usize = (width as usize) / columns;
    (columns, max_rows_per_col, cell_width)
}

proof fn fewest_columns_hold(count: nat, rows: nat)
    requires
        count > 0,
        rows > 0,
    ensures
        1 <= fewest_columns(count, rows) <= count,
        fewest_columns(count, rows) * rows >= count,
        (fewest_columns(count, rows) - 1) * rows < count,
{
    let n = count as int;
    let r = rows as int;
    let c = fewest_columns(count, rows) as int;
    assert(1 <= c <= n && c * r >= n && (c - 1) * r < n) by (nonlinear_arith)
        requires
            n >= 1,
            r >= 1,
            c == (n + r - 1) / r,
    ;
}

/// All cells have room, and the columns have room side by side and are no more
/// than there are cells; unless the terminal has no room for a cell at all.
/// Columns beyond the fewest that hold the cells are as wide as a column should
/// be.
pub proof fn layout_has_room(width: nat, height: nat, count: nat)
    requires
        rows_per_column(height) > 0,
    ensures
        ({
            let (columns, rows, cell_width) = layout_of(width, height, count);
            &&& columns >= 1
            &&& columns * rows >= count
            &&& count > 0 ==> columns <= count
            &&& columns * cell_width <= width
            &&& 2 + 2 * rows <= height
            &&& count > 0 && (columns - 1) * rows >= count ==> cell_width >= COLUMN_WIDTH
        }),
{
    let (columns, rows, cell_width) = layout_of(width, height, count);
    if count > 0 {
        let fewest = fewest_columns(count, rows);
        fewest_columns_hold(count, rows);
        assert(columns * rows >= fewest * rows) by (nonlinear_arith)
            requires
                columns >= fewest,
        ;
        assert(columns * cell_width <= width) by (nonlinear_arith)
            requires
                columns >= 1,
                cell_width == width / columns,
        ;
        if columns > fewest {
            assert(cell_width >= 40) by (nonlinear_arith)
                requires
                    columns >= 1,
                    columns * 40 <= width,
                    cell_width == width / columns,
            ;
        }
    }
}

/// A wider terminal never shows fewer columns.
pub proof fn wider_shows_no_fewer(narrow: nat, wide: nat, height: nat, count: nat)
    requires
        narrow <= wide,
    ensures
        layout_of(narrow, height, count).0 <= layout_of(wide, height, count).0,
{
}

/// A narrow terminal shows fewer columns than a wide one exactly when the wide one
/// has room for a column more: it is wide enough for more columns than the narrow
/// one is and than the cells need, and there are cells for them.
pub proof fn narrow_shows_fewer(narrow: nat, wide: nat, height: nat, count: nat)
    requires
        narrow <= wide,
        rows_per_column(height) > 0,
        count > 0,
    ensures
        layout_of(narrow, height, count).0 < layout_of(wide, height, count).0 <==> {
            let fewest = fewest_columns(count, rows_per_column(height));
            &&& columns_across(narrow) < columns_across(wide)
            &&& fewest < columns_across(wide)
            &&& columns_across(narrow) < count
            &&& fewest < count
        },
{
}

/// How many of the first `count` cells stand in a column.
pub open spec fn column_cells(count: nat, columns: nat, column: nat) -> nat
    decreases count,
{
    if count == 0 {
        0
    } else {
        column_cells((count - 1) as nat, columns, column) + if (count - 1) as nat % columns
            == column {
            1nat
        } else {
            0
        }
    }
}

proof fn column_cells_closed(count: nat, columns: nat, column: nat)
    requires
        column < columns,
    ensures
        column_cells(count, columns, column) == count / columns + if column < count % columns {
            1nat
        } else {
            0
        },
    decreases count,
{
    let c = columns as int;
    if count == 0 {
        assert(0int / c == 0 && 0int % c == 0) by (nonlinear_arith)
            requires
                c > 0,
        ;
    } else {
        let n = (count - 1) as int;
        column_cells_closed(n as nat, columns, column);
        let q = n / c;
        let r = n % c;
        assert(0 <= r < c && n == q * c + r) by (nonlinear_arith)
            requires
                c > 0,
                q == n / c,
                r == n % c,
        ;
        if r + 1 < c {
            assert((n + 1) / c == q && (n + 1) % c == r + 1) by (nonlinear_arith)
                requires
                    0 <= r,
                    r + 1 < c,
                    n == q * c + r,
            ;
        } else {
            assert((n + 1) / c == q + 1 && (n + 1) % c == 0) by (nonlinear_arith)
                requires
                    r + 1 == c,
                    n == q * c + r,
                    c > 0,
            ;
        }
    }
}

/// The columns are balanced: no column holds two cells more than another. The
/// cell at place `i` stands in column `i % columns`.
pub proof fn columns_are_balanced(count: nat, columns: nat, a: nat, b: nat)
    requires
        a < columns,
        b < columns,
    ensures
        column_cells(count, columns, a) <= column_cells(count, columns, b) + 1,
{
    column_cells_closed(count, columns, a);
    column_cells_closed(count, columns, b);
}

// ------------------------------------------------------------------------- drawings

/// A part of the terminal.
#[derive(Debug, Clone, Copy, PartialEq, Eq, Structural)]
pub struct Area {
    pub x: u16,
    pub y: u16,
    pub width: u16,
    pub height: u16,
}

impl Area {
    /// Whether the far edges have coordinates.
    pub open spec fn fits(self) -> bool {
        self.x + self.width <= u16::MAX && self.y + self.height <= u16::MAX
    }
}

/// Whether `inner` lies in `outer`.
pub open spec fn inside(inner: Area, outer: Area) -> bool {
    &&& outer.x <= inner.x && inner.x + inner.width <= outer.x + outer.width
    &&& outer.y <= inner.y && inner.y + inner.height <= outer.y + outer.height
}

/// Whether `row` is a row of `area`: as wide as it, and nowhere outside it.
pub open spec fn is_row_of(row: Area, area: Area) -> bool {
    row.x == area.x && row.width == area.width && inside(row, area)
}

/// `ratatui::layout::Layout::split`, for a vertical layout of three rows: two of
/// a given height, and one that fills what they leave. The rows are as wide as
/// the area and lie in it. Where the area is high enough the first two have
/// their height and follow each other from the top, and the third has the rest.
/// How the rows share an area that is not is left open: the solver may settle
/// it in more than one way.
#[verifier::external_body]
fn split_rows(area: Area, first: u16, second: u16, fill: u16) -> (rows: (Area, Area, Area))
    requires
        area.fits(),
    ensures
        is_row_of(rows.0, area),
        is_row_of(rows.1, area),
        is_row_of(rows.2, area),
        first + second <= area.height ==> {
            &&& rows.0.y == area.y && rows.0.height == first
            &&& rows.1.y == area.y + first && rows.1.height == second
            &&& rows.2.y == area.y + first + second
            &&& rows.2.height == area.height - first - second
        },
{
    let rect = Rect::new(area.x, area.y, area.width, area.height);
    let heights = [Constraint::Length(first), Constraint::Length(second), Constraint::Fill(fill)];
    let rows = Layout::vertical(heights).split(rect);
    let (a, b, c) = (rows[0], rows[1], rows[2]);
    (
        Area { x: a.x, y: a.y, width: a.width, height: a.height },
        Area { x: b.x, y: b.y, width: b.width, height: b.height },
        Area { x: c.x, y: c.y, width: c.width, height: c.height },
    )
}

/// A piece of text in one colour.
#[derive(Debug)]
pub struct StyledText {
    pub text: String,
    pub color: Color,
}

impl View for StyledText {
    type V = (Seq<char>, Color);

    open spec fn view(&self) -> (Seq<char>, Color) {
        (self.text@, self.color)
    }
}

/// The pieces as they stand in a line.
pub open spec fn line_of(spans: Seq<StyledText>) -> Seq<(Seq<char>, Color)> {
    spans.map_values(|span: StyledText| span@)
}

/// A cell as it is drawn: where, and the pieces of its line.
#[derive(Debug)]
pub struct CellDrawing {
    pub area: Area,
    pub spans: Vec<StyledText>,
}

impl View for CellDrawing {
    type V = (Area, Seq<(Seq<char>, Color)>);

    open spec fn view(&self) -> (Area, Seq<(Seq<char>, Color)>) {
        (self.area, line_of(self.spans@))
    }
}

/// What is known of a cell when it is drawn: its status, and for how long.
#[derive(Debug)]
pub struct CellSnapshot {
    pub status: CheckResult,
    pub duration: Duration,
}

impl View for CellSnapshot {
    type V = (CheckResult, nat);

    open spec fn view(&self) -> (CheckResult, nat) {
        (self.status, duration_nanos(self.duration))
    }
}

/// `name` as it is written in a space of `width` characters.
pub open spec fn name_in(name: Seq<char>, width: nat) -> Seq<char> {
    shortened(
        name,
        width,
        if width > 0 {
            (width - 1) as nat
        } else {
            0
        },
    )
}

/// Writes a name in a space of `max_width` characters.
pub fn truncated_hostname(name: &str, max_width: usize) -> (text: String)
    ensures
        text@ == name_in(name@, max_width as nat),
        name@.len() <= max_width ==> text@ == name@,
        name@.len() > max_width && max_width > 0 ==> text@ == name@.subrange(0, max_width - 1).push(
            '\u{2026}',
        ),
        name@.len() > max_width && max_width == 0 ==> text@ == seq!['\u{2026}'],
{
    assert(name@.subrange(0, 0).push('\u{2026}') =~= seq!['\u{2026}']);
    shorten(name, max_width, max_width.saturating_sub(1))
}

/// A name takes no more room than there is, if there is any; and one that has
/// room is written whole.
pub proof fn name_has_room(name: Seq<char>, width: nat)
    ensures
        width > 0 ==> name_in(name, width).len() <= width,
        name.len() <= width ==> name_in(name, width) == name,
{
}

/// The colour of a status.
pub open spec fn status_color(status: CheckResult) -> Color {
    match status {
        CheckResult::Up => COLOR_UP,
        CheckResult::Down => COLOR_DOWN,
    }
}

/// The line of a cell in a column of `width` characters: the label, the status
/// and the counter where there is room, or only the first of these.
pub open spec fn cell_line(label: Seq<char>, snapshot: (CheckResult, nat), width: nat) -> Seq<
    (Seq<char>, Color),
> {
    let (status, nanos) = snapshot;
    let color = status_color(status);
    if width >= 22 {
        seq![
            (label + "  "@ + status_text(status), color),
            ("  "@ + days_hours_minutes(nanos / NANOS_PER_SEC as nat), COLOR_TEXT),
        ]
    } else if width >= 15 {
        seq![(label + "  "@ + status_text(status), color)]
    } else {
        seq![(name_in(label, width), color)]
    }
}

/// Writes the line of a cell.
pub fn draw_line(label: &str, snapshot: &CellSnapshot, width: usize) -> (spans: Vec<StyledText>)
    ensures
        line_of(spans@) == cell_line(label@, snapshot@, width as nat),
{
    let color: u32 = match snapshot.status {
        CheckResult::Up => COLOR_UP,
        CheckResult::Down => COLOR_DOWN,
    };
    let mut spans: Vec<StyledText> = Vec::new();
    if width >= 15 {
        let text: String = label.to_owned().concat("  ").concat(status_name(snapshot.status));
        spans.push(StyledText { text, color });
        if width >= 22 {
            let counter: String = format_duration(snapshot.duration);
            spans.push(
                StyledText { text: "  ".to_owned().concat(counter.as_str()), color: COLOR_TEXT },
            );
        }
    } else {
        spans.push(StyledText { text: truncated_hostname(label, width), color });
    }
    assert(line_of(spans@) =~= cell_line(label@, snapshot@, width as nat));
    spans
}

/// Where the cell at place `i` is drawn: cells fill the columns from left to
/// right, then the next row, two lines further down.
pub open spec fn cell_area(grid: Area, columns: nat, i: nat) -> Area {
    let width = grid.width as nat / columns;
    Area {
        x: (grid.x + i % columns * width) as u16,
        y: (grid.y + i / columns * 2) as u16,
        width: width as u16,
        height: 1,
    }
}

/// How many of `count` cells are drawn: all, but for a terminal that has no room
/// for a cell, where the first one is.
pub open spec fn drawn_count(height: nat, count: nat) -> nat {
    if rows_per_column(height) == 0 && count > 1 {
        1
    } else {
        count
    }
}

/// The cells of a terminal as they are drawn in `grid`.
pub open spec fn drawings(
    size: (nat, nat),
    grid: Area,
    cells: Seq<CellId>,
    snapshot: Seq<CellSnapshot>,
) -> Seq<(Area, Seq<(Seq<char>, Color)>)> {
    let (columns, rows, width) = layout_of(size.0, size.1, cells.len());
    Seq::new(
        drawn_count(size.1, cells.len()),
        |i: int|
            (
                cell_area(grid, columns, i as nat),
                cell_line(cells[i].label(), snapshot[i]@, width),
            ),
    )
}

/// The drawings as they stand in a list.
pub open spec fn drawing_views(cells: Seq<CellDrawing>) -> Seq<(Area, Seq<(Seq<char>, Color)>)> {
    cells.map_values(|cell: CellDrawing| cell@)
}

/// Each cell that is drawn has a row of its column, and its column has room.
proof fn drawn_cell_has_place(width: nat, height: nat, count: nat, grid_width: nat, i: nat)
    requires
        i < drawn_count(height, count),
    ensures
        ({
            let (columns, rows, _) = layout_of(width, height, count);
            &&& columns >= 1
            &&& i % columns < columns
            &&& i / columns < rows
            &&& 0 <= i % columns * (grid_width / columns)
            &&& i % columns * (grid_width / columns) + grid_width / columns <= grid_width
        }),
{
    let (columns, rows, _) = layout_of(width, height, count);
    if rows_per_column(height) > 0 {
        layout_has_room(width, height, count);
    }
    assert(i < columns * rows);
    assert(i % columns < columns && i / columns < rows) by (nonlinear_arith)
        requires
            i < columns * rows,
            columns >= 1,
    ;
    let c = i % columns;
    let w = grid_width / columns;
    assert(0 <= c * w && c * w + w <= grid_width) by (nonlinear_arith)
        requires
            c < columns,
            columns >= 1,
            w == grid_width / columns,
    ;
}

// --------------------------------------------------------------------------- top bar

/// The name of the program.
pub const TITLE: &'static str = "tmonitor";

/// A run of spaces.
pub open spec fn spaces(n: nat) -> Seq<char> {
    Seq::new(n, |i: int| ' ')
}

/// How many spaces stand between the title and the uptime, where the two and a
/// margin of two take up `used` of the width.
pub open spec fn bar_gap(width: nat, used: nat) -> nat {
    if used % 65536 < width {
        (width - used % 65536) as nat
    } else {
        0
    }
}

/// The top bar: the title on the left, and the uptime on the right.
pub open spec fn bar_text(width: nat, uptime: Seq<char>) -> Seq<char> {
    let used = encode_utf8(TITLE@).len() + 2 + encode_utf8(uptime).len();
    TITLE@ + spaces(bar_gap(width, used)) + uptime
}

/// The title takes a byte for each of its characters.
proof fn title_len()
    ensures
        encode_utf8(TITLE@).len() == 8,
{
    reveal_strlit("tmonitor");
    is_ascii_chars_encode_utf8(TITLE@);
}

/// Writes the top bar.
pub fn top_bar(width: u16, uptime: &str) -> (text: String)
    requires
        encode_utf8(uptime@).len() + 10 <= usize::MAX,
    ensures
        text@ == bar_text(width as nat, uptime@),
        begins_with(text@, "tmonitor"@),
        text@.len() >= 8 + uptime@.len(),
        text@.subrange(text@.len() - uptime@.len(), text@.len() as int) == uptime@,
        forall|i: int| 8 <= i < text@.len() - uptime@.len() ==> #[trigger] text@[i] == ' ',
{
    proof {
        title_len();
    }
    let used: usize = TITLE.as_bytes().len() + 2 + uptime.as_bytes().len();
    let gap: u16 = width.saturating_sub((used % 65536) as u16);
    let mut text: String = TITLE.to_owned();
    let mut filled: u16 = 0;
    assert(text@ =~= TITLE@ + spaces(0));
    while filled < gap
        invariant
            filled <= gap,
            text@ == TITLE@ + spaces(filled as nat),
        decreases gap - filled,
    {
        text.push(' ');
        filled = filled + 1;
        assert(text@ =~= TITLE@ + spaces(filled as nat));
    }
    text.append(uptime);
    proof {
        reveal_strlit("tmonitor");
        assert(text@.subrange(0, 8) =~= "tmonitor"@);
        assert(text@.subrange(text@.len() - uptime@.len(), text@.len() as int) =~= uptime@);
    }
    text
}

// ---------------------------------------------------------------------------- screen

/// All that is drawn.
#[derive(Debug)]
pub struct Screen {
    pub bar_area: Area,
    pub bar: StyledText,
    pub cells: Vec<CellDrawing>,
}

/// What is known of the cell `id` at `now`. A cell without a state counts as up
/// for no time.
pub open spec fn snapshot_of(board: Map<CellId, HostState>, id: CellId, now: Instant) -> (
    CheckResult,
    nat,
) {
    if board.contains_key(id) {
        (board[id].status, board[id].status_nanos(now))
    } else {
        (CheckResult::Up, 0)
    }
}

/// What the display shows: the cells, in order.
pub struct App {
    cell_order: Vec<CellKey>,
}

impl App {
    /// The cells, in order.
    pub closed spec fn cells(self) -> Seq<CellId> {
        ids(self.cell_order@)
    }

    /// A display of these cells.
    pub fn new(cell_order: Vec<CellKey>) -> (app: Self)
        ensures
            app.cells() == ids(cell_order@),
    {
        App { cell_order }
    }

    /// Takes down what is known of every cell at `now`.
    pub fn snapshot(&self, state: &CellTable<HostState>, now: Instant) -> (snapshot: Vec<
        CellSnapshot,
    >)
        requires
            state.wf(),
        ensures
            snapshot@.len() == self.cells().len(),
            forall|i: int|
                0 <= i < snapshot@.len() ==> (#[trigger] snapshot@[i])@ == snapshot_of(
                    state@,
                    self.cells()[i],
                    now,
                ),
            forall|i: int|
                0 <= i < snapshot@.len() && state@.contains_key(self.cells()[i]) ==> {
                    let cell = state@[self.cells()[i]];
                    &&& (#[trigger] snapshot@[i]).status == cell.status
                    &&& duration_nanos(snapshot@[i].duration) == cell.status_nanos(now)
                },
            forall|i: int|
                0 <= i < snapshot@.len() && !state@.contains_key(self.cells()[i]) ==> (
                #[trigger] snapshot@[i]).status == CheckResult::Up && duration_nanos(
                    snapshot@[i].duration,
                ) == 0,
    {
        let mut snapshot: Vec<CellSnapshot> = Vec::new();
        let mut i: usize = 0;
        while i < self.cell_order.len()
            invariant
                state.wf(),
                i <= self.cell_order@.len(),
                snapshot@.len() == i,
                forall|j: int|
                    0 <= j < i ==> (#[trigger] snapshot@[j])@ == snapshot_of(
                        state@,
                        self.cells()[j],
                        now,
                    ),
            decreases self.cell_order@.len() - i,
        {
            let key = &self.cell_order[i];
            assert(self.cells()[i as int] == key@);
            match state.get(key) {
                Some(cell) => {
                    snapshot.push(
                        CellSnapshot { status: cell.status, duration: cell.status_duration(now) },
                    );
                },
                None => {
                    snapshot.push(
                        CellSnapshot { status: CheckResult::Up, duration: Duration::from_secs(0) },
                    );
                },
            }
            i = i + 1;
        }
        snapshot
    }

    /// Draws the cells of a terminal of this size in `grid`.
    pub fn draw_cells(&self, size: (u16, u16), grid: Area, snapshot: &Vec<CellSnapshot>) -> (cells:
        Vec<CellDrawing>)
        requires
            snapshot@.len() == self.cells().len(),
            grid.x + grid.width <= u16::MAX,
            grid.y + 2 * rows_per_column(size.1 as nat) <= u16::MAX,
        ensures
            drawing_views(cells@) == drawings(
                (size.0 as nat, size.1 as nat),
                grid,
                self.cells(),
                snapshot@,
            ),
            cells@.len() == if size.1 < 4 && self.cells().len() > 1 {
                1
            } else {
                self.cells().len()
            },
            forall|i: int|
                0 <= i < cells@.len() ==> {
                    let width = layout_of(size.0 as nat, size.1 as nat, self.cells().len()).2;
                    let label = self.cells()[i].label();
                    let up = snapshot@[i].status == CheckResult::Up;
                    let status = if up {
                        "Up"@
                    } else {
                        "Down"@
                    };
                    let secs = duration_nanos(snapshot@[i].duration) / 1_000_000_000;
                    let spans = (#[trigger] cells@[i]).spans@;
                    &&& spans.len() == if width >= 22 {
                        2nat
                    } else {
                        1
                    }
                    &&& spans[0].color == if up {
                        0x00FF00u32
                    } else {
                        0xFF0000
                    }
                    &&& width >= 15 ==> spans[0].text@ == label + "  "@ + status
                    &&& width >= 22 ==> spans[1].text@ == "  "@ + days_hours_minutes(secs)
                        && spans[1].color == 0xFFFFFF
                    &&& width < 15 ==> spans[0].text@ == name_in(label, width)
                },
            forall|i: int|
                0 <= i < cells@.len() ==> {
                    let columns = layout_of(size.0 as nat, size.1 as nat, self.cells().len()).0;
                    let width = grid.width as int / columns as int;
                    let area = (#[trigger] cells@[i]).area;
                    &&& area.x == grid.x + i % columns as int * width
                    &&& area.y == grid.y + i / columns as int * 2
                    &&& area.width == width && area.height == 1
                },
    {
        let count: usize = self.cell_order.len();
        let (columns, rows, width) = compute_layout(size, count);
        let shown: usize = if size.1 < 4 && count > 1 {
            1
        } else {
            count
        };
        let ghost wanted = drawings((size.0 as nat, size.1 as nat), grid, self.cells(), snapshot@);
        proof {
            assert(shown == drawn_count(size.1 as nat, count as nat));
        }
        let mut cells: Vec<CellDrawing> = Vec::new();
        let mut i: usize = 0;
        assert(drawing_views(cells@) =~= wanted.take(0));
        while i < shown
            invariant
                i <= shown <= count,
                count == self.cell_order@.len(),
                snapshot@.len() == count,
                shown == drawn_count(size.1 as nat, count as nat),
                (columns as nat, rows as nat, width as nat) == layout_of(
                    size.0 as nat,
                    size.1 as nat,
                    count as nat,
                ),
                grid.x + grid.width <= u16::MAX,
                grid.y + 2 * rows_per_column(size.1 as nat) <= u16::MAX,
                wanted == drawings(
                    (size.0 as nat, size.1 as nat),
                    grid,
                    self.cells(),
                    snapshot@,
                ),
                drawing_views(cells@) == wanted.take(i as int),
            decreases shown - i,
        {
            proof {
                drawn_cell_has_place(
                    size.0 as nat,
                    size.1 as nat,
                    count as nat,
                    grid.width as nat,
                    i as nat,
                );
            }
            let column_width: usize = grid.width as usize / columns;
            let column: usize = i % columns;
            let row: usize = i / columns;
            let area = Area {
                x: grid.x + (column * column_width) as u16,
                y: grid.y + (row * 2) as u16,
                width: column_width as u16,
                height: 1,
            };
            let label: String = self.cell_order[i].label();
            let spans: Vec<StyledText> = draw_line(label.as_str(), &snapshot[i], width);
            let ghost sofar = cells@;
            cells.push(CellDrawing { area, spans });
            proof {
                assert(self.cells()[i as int] == self.cell_order@[i as int]@);
                assert(cells@.last()@ == wanted[i as int]);
                assert(drawing_views(cells@) =~= drawing_views(sofar).push(cells@.last()@));
                assert(wanted.take(i + 1) =~= wanted.take(i as int).push(wanted[i as int]));
            }
            i = i + 1;
        }
        assert(wanted.take(i as int) =~= wanted);
        proof {
            drawn_cells_are_told_in_full(
                (size.0 as nat, size.1 as nat),
                grid,
                self.cells(),
                snapshot@,
                cells@,
            );
        }
        cells
    }

    /// Draws the whole display: the top bar, and below it the cells. Nothing is
    /// drawn of cells for which there is no snapshot.
    pub fn render(&self, area: Area, snapshot: &Vec<CellSnapshot>, uptime: &str) -> (screen: Screen)
        requires
            area.fits(),
            encode_utf8(uptime@).len() + 10 <= usize::MAX,
        ensures
            screen.bar@ == (bar_text(area.width as nat, uptime@), COLOR_DIM),
            is_row_of(screen.bar_area, area),
            area.height >= 2 ==> screen.bar_area == (Area {
                x: area.x,
                y: area.y,
                width: area.width,
                height: 1,
            }),
            snapshot@.len() == self.cells().len() ==> exists|grid: Area|
                is_row_of(grid, area) && drawing_views(screen.cells@) == #[trigger] drawings(
                    (area.width as nat, area.height as nat),
                    grid,
                    self.cells(),
                    snapshot@,
                ),
            snapshot@.len() == self.cells().len() && area.height >= 2 ==> drawing_views(
                screen.cells@,
            ) == drawings(
                (area.width as nat, area.height as nat),
                grid_below_bar(area),
                self.cells(),
                snapshot@,
            ),
            snapshot@.len() != self.cells().len() ==> screen.cells@.len() == 0,
            snapshot@.len() == self.cells().len() ==> screen.cells@.len() == if area.height < 4
                && self.cells().len() > 1 {
                1
            } else {
                self.cells().len()
            },
            screen.bar.color == 0x888888,
            screen.bar.text@ == bar_text(area.width as nat, uptime@),
            forall|i: int|
                0 <= i < screen.cells@.len() ==> {
                    let width = layout_of(area.width as nat, area.height as nat, self.cells().len()).2;
                    let label = self.cells()[i].label();
                    let up = snapshot@[i].status == CheckResult::Up;
                    let status = if up {
                        "Up"@
                    } else {
                        "Down"@
                    };
                    let secs = duration_nanos(snapshot@[i].duration) / 1_000_000_000;
                    let spans = (#[trigger] screen.cells@[i]).spans@;
                    &&& spans.len() == if width >= 22 {
                        2nat
                    } else {
                        1
                    }
                    &&& spans[0].color == if up {
                        0x00FF00u32
                    } else {
                        0xFF0000
                    }
                    &&& width >= 15 ==> spans[0].text@ == label + "  "@ + status
                    &&& width >= 22 ==> spans[1].text@ == "  "@ + days_hours_minutes(secs)
                        && spans[1].color == 0xFFFFFF
                    &&& width < 15 ==> spans[0].text@ == name_in(label, width)
                },
            area.height >= 2 ==> forall|i: int|
                0 <= i < screen.cells@.len() ==> {
                    let columns = layout_of(
                        area.width as nat,
                        area.height as nat,
                        self.cells().len(),
                    ).0;
                    let width = area.width as int / columns as int;
                    let place = (#[trigger] screen.cells@[i]).area;
                    &&& place.x == area.x + i % columns as int * width
                    &&& place.y == area.y + 2 + i / columns as int * 2
                    &&& place.width == width && place.height == 1
                },
    {
        let (bar_area, _, grid) = split_rows(area, 1, 1, 1);
        let bar = StyledText { text: top_bar(bar_area.width, uptime), color: COLOR_DIM };
        let cells: Vec<CellDrawing> = if snapshot.len() == self.cell_order.len() {
            self.draw_cells((area.width, area.height), grid, snapshot)
        } else {
            Vec::new()
        };
        Screen { bar_area, bar, cells }
    }
}

/// The part of a terminal that is left for the cells.
pub open spec fn grid_below_bar(area: Area) -> Area {
    Area {
        x: area.x,
        y: (area.y + 2) as u16,
        width: area.width,
        height: (area.height - 2) as u16,
    }
}

// ------------------------------------------------------------------------------ keys

/// A key that was pressed.
#[derive(Debug, Clone, Copy)]
pub struct KeyPress {
    /// The character of the key, where it has one.
    pub character: Option<char>,
    /// Whether the control key was held.
    pub control: bool,
}

/// Tells whether the display ends, once it was drawn: on control-C, or when it is
/// cancelled.
pub fn run_display(key: Option<KeyPress>, cancelled: bool) -> (ends: bool)
    ensures
        ends <==> cancelled || (key matches Some(k) && k.character == Some('c') && k.control),
{
    match key {
        Some(k) => match k.character {
            Some(c) => cancelled || (c == 'c' && k.control),
            None => cancelled,
        },
        None => cancelled,
    }
}

// ------------------------------------------------------------------------------ laws

/// Whether no place of the terminal is in both areas.
pub open spec fn apart(a: Area, b: Area) -> bool {
    ||| a.x + a.width <= b.x
    ||| b.x + b.width <= a.x
    ||| a.y + a.height <= b.y
    ||| b.y + b.height <= a.y
}

/// Cells that are drawn do not overlap, and stand in the order of reading: a
/// later one stands in the same row and not further left, or further down.
pub proof fn cells_read_in_order(size: (nat, nat), grid: Area, count: nat, i: nat, j: nat)
    requires
        i < j < drawn_count(size.1, count),
        grid.x + grid.width <= u16::MAX,
        grid.y + 2 * rows_per_column(size.1) <= u16::MAX,
    ensures
        ({
            let columns = layout_of(size.0, size.1, count).0;
            let a = cell_area(grid, columns, i);
            let b = cell_area(grid, columns, j);
            &&& apart(a, b)
            &&& a.y < b.y || (a.y == b.y && a.x + a.width <= b.x)
        }),
{
    let (columns, rows, _) = layout_of(size.0, size.1, count);
    drawn_cell_has_place(size.0, size.1, count, grid.width as nat, i);
    drawn_cell_has_place(size.0, size.1, count, grid.width as nat, j);
    let w = grid.width as nat / columns;
    let (ci, ri) = (i % columns, i / columns);
    let (cj, rj) = (j % columns, j / columns);
    assert(ri < rj || (ri == rj && ci < cj)) by (nonlinear_arith)
        requires
            i < j,
            columns >= 1,
            ci == i % columns,
            cj == j % columns,
            ri == i / columns,
            rj == j / columns,
    ;
    if ri == rj {
        assert(ci * w + w <= cj * w) by (nonlinear_arith)
            requires
                ci < cj,
                0 <= w,
        ;
    }
}

/// In a terminal that has room for a cell, every cell is drawn, below the top bar
/// and within the terminal.
pub proof fn cells_are_in_sight(area: Area, count: nat, i: nat)
    requires
        area.fits(),
        area.height >= 4,
        i < count,
    ensures
        drawn_count(area.height as nat, count) == count,
        ({
            let columns = layout_of(area.width as nat, area.height as nat, count).0;
            inside(cell_area(grid_below_bar(area), columns, i), grid_below_bar(area))
        }),
        inside(grid_below_bar(area), area),
{
    drawn_cell_has_place(area.width as nat, area.height as nat, count, area.width as nat, i);
}

/// A cell is drawn in its place whatever its status and that of the others.
pub proof fn places_are_stable(
    size: (nat, nat),
    grid: Area,
    cells: Seq<CellId>,
    before: Seq<CellSnapshot>,
    after: Seq<CellSnapshot>,
    i: int,
)
    requires
        0 <= i < drawn_count(size.1, cells.len()),
    ensures
        drawings(size, grid, cells, before)[i].0 == drawings(size, grid, cells, after)[i].0,
        drawings(size, grid, cells, before).len() == drawings(size, grid, cells, after).len(),
{
}

/// The counter of a cell counts up from one snapshot to a later one, and its status
/// stays, as long as no check says otherwise.
pub proof fn shown_counter_counts_up(
    board: Map<CellId, HostState>,
    id: CellId,
    now: Instant,
    later: Instant,
)
    requires
        board.contains_key(id) ==> board[id].wf(),
        instant_nanos(now) <= instant_nanos(later),
    ensures
        snapshot_of(board, id, now).0 == snapshot_of(board, id, later).0,
        snapshot_of(board, id, now).1 <= snapshot_of(board, id, later).1,
{
    if board.contains_key(id) {
        counter_counts_up(board[id], now, later);
    }
}

/// The line of a cell begins in green when it is up, and in red when it is down.
pub proof fn color_tells_status(label: Seq<char>, snapshot: (CheckResult, nat), width: nat)
    ensures
        cell_line(label, snapshot, width).len() >= 1,
        cell_line(label, snapshot, width)[0].1 == COLOR_UP <==> snapshot.0 == CheckResult::Up,
        cell_line(label, snapshot, width)[0].1 == COLOR_DOWN <==> snapshot.0 == CheckResult::Down,
{
}

/// The top bar ends with the uptime, and leaves a margin of two where there is
/// room for both.
pub proof fn bar_fills_the_width(width: nat, uptime: Seq<char>)
    requires
        is_ascii_chars(uptime),
        10 + uptime.len() <= width <= u16::MAX,
    ensures
        bar_text(width, uptime).len() == width - 2,
        begins_with(bar_text(width, uptime), TITLE@),
        bar_text(width, uptime).subrange(
            width - 2 - uptime.len(),
            width - 2,
        ) == uptime,
{
    title_len();
    reveal_strlit("tmonitor");
    is_ascii_chars_encode_utf8(uptime);
    let text = bar_text(width, uptime);
    assert(text.subrange(0, TITLE@.len() as int) =~= TITLE@);
    assert(text.subrange(width - 2 - uptime.len(), width - 2) =~= uptime);
}

// -- the layout, the texts and the drawings in full

/// Whether cells are laid out as they should be: a column has as many places as the
/// height has pairs of rows below the top bar; all cells have a place; a terminal of up
/// to eighty characters has no column that the cells do not need, and a wider one has
/// more of them as long as there are cells and each column has forty characters; and
/// the columns share the width evenly.
pub open spec fn is_layout(
    width: int,
    height: int,
    count: int,
    columns: int,
    rows: int,
    cell_width: int,
) -> bool {
    &&& 2 + 2 * rows <= height < 4 + 2 * rows
    &&& 1 <= columns <= count
    &&& columns * rows >= count
    &&& width <= 80 ==> (columns - 1) * rows < count
    &&& width > 80 ==> (columns - 1) * rows < count || columns * 40 <= width
    &&& width > 80 ==> columns == count || (columns + 1) * 40 > width
    &&& columns * cell_width <= width < columns * (cell_width + 1)
}

/// The layout is as it should be. A column has a place for every two rows below the top
/// bar, and all cells have a place. Up to eighty characters there is no column that the
/// cells do not need; beyond, there are as many as have forty characters, as long as there
/// are cells. The columns share the width evenly. A terminal without room, or without
/// cells, has one place of its whole width.
pub proof fn layout_is_settled(width: nat, height: nat, count: nat)
    ensures
        height < 4 || count == 0 ==> layout_of(width, height, count) == (1nat, 1nat, width),
        height >= 4 && count > 0 ==> {
            let (columns, rows, cell_width) = layout_of(width, height, count);
            &&& 2 + 2 * rows <= height < 4 + 2 * rows
            &&& 1 <= columns <= count
            &&& columns * rows >= count
            &&& width <= 80 ==> (columns - 1) * rows < count
            &&& width > 80 ==> (columns - 1) * rows < count || columns * 40 <= width
            &&& width > 80 ==> columns == count || (columns + 1) * 40 > width
            &&& columns * cell_width <= width < columns * (cell_width + 1)
        },
{
    if height >= 4 && count > 0 {
        let (columns, rows, cell_width) = layout_of(width, height, count);
        let fewest = fewest_columns(count, rows);
        fewest_columns_hold(count, rows);
        layout_has_room(width, height, count);
        assert(width < columns * (cell_width + 1)) by (nonlinear_arith)
            requires
                columns >= 1,
                cell_width == width / columns,
        ;
    }
}

/// No other layout is as it should be.
pub proof fn layout_is_the_only_one(
    width: nat,
    height: nat,
    count: nat,
    columns: int,
    rows: int,
    cell_width: int,
)
    requires
        height >= 4,
        count > 0,
        cell_width >= 0,
        is_layout(width as int, height as int, count as int, columns, rows, cell_width),
    ensures
        (columns, rows, cell_width) == (
            layout_of(width, height, count).0 as int,
            layout_of(width, height, count).1 as int,
            layout_of(width, height, count).2 as int,
        ),
{
    let (c, r, w) = layout_of(width, height, count);
    let c = c as int;
    let w = w as int;
    layout_is_settled(width, height, count);
    assert(rows == r);
    if columns < c {
        assert((c - 1) * rows >= columns * rows) by (nonlinear_arith)
            requires
                columns <= c - 1,
                rows >= 0,
        ;
        assert((columns + 1) * 40 <= c * 40);
    }
    if c < columns {
        assert((columns - 1) * rows >= c * rows) by (nonlinear_arith)
            requires
                c <= columns - 1,
                rows >= 0,
        ;
        assert((c + 1) * 40 <= columns * 40);
    }
    assert(columns == c);
    if cell_width < w {
        assert(c * (cell_width + 1) <= c * w) by (nonlinear_arith)
            requires
                cell_width + 1 <= w,
                c >= 1,
        ;
    }
    if w < cell_width {
        assert(c * (w + 1) <= c * cell_width) by (nonlinear_arith)
            requires
                w + 1 <= cell_width,
                c >= 1,
        ;
    }
}

/// A time is told by its days, hours and minutes, whatever seconds are left.
pub proof fn time_is_told_by_its_parts(d: nat, h: nat, m: nat, s: nat)
    requires
        h < 24,
        m < 60,
        s < 60,
    ensures
        days_hours_minutes(((d * 24 + h) * 60 + m) * 60 + s) == decimal(d) + seq!['d', ' ']
            + decimal(h) + seq!['h', ' '] + decimal(m) + seq!['m'],
{
    reveal_strlit("d ");
    reveal_strlit("h ");
    reveal_strlit("m");
    let secs = ((d * 24 + h) * 60 + m) * 60 + s;
    assert(secs == d * 86400 + h * 3600 + m * 60 + s);
    assert(secs / 86400 == d && (secs % 86400) / 3600 == h && (secs % 3600) / 60 == m);
    assert(days_hours_minutes(secs) =~= decimal(d) + seq!['d', ' '] + decimal(h) + seq!['h', ' ']
        + decimal(m) + seq!['m']);
}

/// A name has the room of a column: it is written whole where it has room, and otherwise
/// an ellipsis takes the place of its end.
pub proof fn names_end_in_an_ellipsis(name: Seq<char>, width: nat)
    ensures
        name.len() <= width ==> name_in(name, width) == name,
        name.len() > width ==> {
            let text = name_in(name, width);
            &&& text.len() == if width > 0 {
                width
            } else {
                1
            }
            &&& text.last() == '\u{2026}'
            &&& forall|i: int| 0 <= i < text.len() - 1 ==> #[trigger] text[i] == name[i]
        },
{
}

/// The line of a cell tells its label first. Where there is room its status follows, and
/// where there is more the time since when it has it; the label and the status are green
/// for up and red for down, and the time is white.
pub proof fn line_tells_label_status_and_time(
    label: Seq<char>,
    status: CheckResult,
    nanos: nat,
    width: nat,
)
    ensures
        ({
            let line = cell_line(label, (status, nanos), width);
            let (name, color) = if status == CheckResult::Up {
                (seq!['U', 'p'], 0x00FF00u32)
            } else {
                (seq!['D', 'o', 'w', 'n'], 0xFF0000u32)
            };
            &&& line.len() == if width < 22 {
                1nat
            } else {
                2
            }
            &&& line[0].1 == color
            &&& width < 15 ==> line[0].0 == name_in(label, width)
            &&& width >= 15 ==> line[0].0 == label + seq![' ', ' '] + name
            &&& width >= 22 ==> line[1].0 == seq![' ', ' '] + days_hours_minutes(
                nanos / 1_000_000_000,
            ) && line[1].1 == 0xFFFFFF
        }),
{
    reveal_strlit("  ");
    statuses_have_names();
    let line = cell_line(label, (status, nanos), width);
    assert("  "@ =~= seq![' ', ' ']);
    assert(width >= 15 ==> line[0].0 =~= label + seq![' ', ' '] + status_text(status));
}

/// Each cell that is drawn tells of itself: the drawing at a place is made of the label
/// of the cell at that place and of the snapshot at that place, in its own colour, and
/// it stands in its own row and column.
pub proof fn drawn_cells_are_told_in_full(
    size: (nat, nat),
    grid: Area,
    cells: Seq<CellId>,
    snapshot: Seq<CellSnapshot>,
    drawn: Seq<CellDrawing>,
)
    requires
        drawing_views(drawn) == drawings(size, grid, cells, snapshot),
        snapshot.len() == cells.len(),
        grid.x + grid.width <= u16::MAX,
        grid.y + 2 * rows_per_column(size.1) <= u16::MAX,
    ensures
        drawn.len() == if size.1 < 4 && cells.len() > 1 {
            1
        } else {
            cells.len()
        },
        forall|i: int|
            0 <= i < drawn.len() ==> {
                let width = layout_of(size.0, size.1, cells.len()).2;
                let label = cells[i].label();
                let up = snapshot[i].status == CheckResult::Up;
                let status = if up {
                    "Up"@
                } else {
                    "Down"@
                };
                let secs = duration_nanos(snapshot[i].duration) / 1_000_000_000;
                let spans = (#[trigger] drawn[i]).spans@;
                &&& spans.len() == if width >= 22 {
                    2nat
                } else {
                    1
                }
                &&& spans[0].color == if up {
                    0x00FF00u32
                } else {
                    0xFF0000
                }
                &&& width >= 15 ==> spans[0].text@ == label + "  "@ + status
                &&& width >= 22 ==> spans[1].text@ == "  "@ + days_hours_minutes(secs)
                    && spans[1].color == 0xFFFFFF
                &&& width < 15 ==> spans[0].text@ == name_in(label, width)
            },
        forall|i: int|
            0 <= i < drawn.len() ==> {
                let columns = layout_of(size.0, size.1, cells.len()).0;
                let width = grid.width as int / columns as int;
                let area = (#[trigger] drawn[i]).area;
                &&& area.x == grid.x + i % columns as int * width
                &&& area.y == grid.y + i / columns as int * 2
                &&& area.width == width && area.height == 1
            },
{
    let wanted = drawings(size, grid, cells, snapshot);
    let (columns, rows, width) = layout_of(size.0, size.1, cells.len());
    assert(drawn.len() == wanted.len()) by {
        assert(drawing_views(drawn).len() == drawn.len());
    }
    assert forall|i: int| 0 <= i < drawn.len() implies (#[trigger] drawn[i])@ == wanted[i] && (
    drawn[i].area == cell_area(grid, columns, i as nat) && line_of(drawn[i].spans@) == cell_line(
        cells[i].label(),
        snapshot[i]@,
        width,
    )) by {
        assert(drawing_views(drawn)[i] == drawn[i]@);
    }
    assert forall|i: int| 0 <= i < drawn.len() implies {
        let spans = (#[trigger] drawn[i]).spans@;
        let line = cell_line(cells[i].label(), snapshot[i]@, width);
        &&& spans.len() == line.len()
        &&& spans[0].text@ == line[0].0 && spans[0].color == line[0].1
        &&& width >= 22 ==> spans[1].text@ == line[1].0 && spans[1].color == line[1].1
    } by {
        let spans = drawn[i].spans@;
        assert(drawn[i]@ == wanted[i]);
        assert(line_of(spans).len() == spans.len());
        assert(line_of(spans)[0] == spans[0]@);
        if width >= 22 {
            assert(line_of(spans)[1] == spans[1]@);
        }
    }
    assert forall|i: int| 0 <= i < drawn.len() implies {
        let area = (#[trigger] drawn[i]).area;
        &&& area.x == grid.x + i % columns as int * (grid.width as int / columns as int)
        &&& area.y == grid.y + i / columns as int * 2
        &&& area.width == grid.width as int / columns as int && area.height == 1
    } by {
        assert(drawn[i]@ == wanted[i]);
        drawn_cell_has_place(size.0, size.1, cells.len(), grid.width as nat, i as nat);
    }
}

/// A snapshot touches its own cell and no other: where two snapshots differ in one place
/// only, every cell but the one at that place is drawn alike.
pub proof fn snapshot_touches_its_own_cell(
    size: (nat, nat),
    grid: Area,
    cells: Seq<CellId>,
    before: Seq<CellSnapshot>,
    after: Seq<CellSnapshot>,
    drawn_before: Seq<CellDrawing>,
    drawn_after: Seq<CellDrawing>,
    changed: int,
)
    requires
        drawing_views(drawn_before) == drawings(size, grid, cells, before),
        drawing_views(drawn_after) == drawings(size, grid, cells, after),
        before.len() == cells.len() && after.len() == cells.len(),
        forall|i: int| 0 <= i < cells.len() && i != changed ==> (#[trigger] before[i])@ == after[i]@,
    ensures
        drawn_before.len() == drawn_after.len(),
        forall|i: int|
            0 <= i < drawn_before.len() && i != changed ==> (#[trigger] drawn_before[i]).area
                == drawn_after[i].area && line_of(drawn_before[i].spans@) == line_of(
                drawn_after[i].spans@,
            ),
{
    assert(drawing_views(drawn_before).len() == drawn_before.len());
    assert(drawing_views(drawn_after).len() == drawn_after.len());
    assert forall|i: int| 0 <= i < drawn_before.len() && i != changed implies (
    #[trigger] drawn_before[i])@ == drawn_after[i]@ by {
        assert(drawing_views(drawn_before)[i] == drawn_before[i]@);
        assert(drawing_views(drawn_after)[i] == drawn_after[i]@);
        assert(before[i]@ == after[i]@);
    }
}

/// A snapshot tells the status of a cell and how long the cell has had it; a cell without
/// a state counts as up for no time.
pub proof fn snapshot_tells_status_and_time(
    board: Map<CellId, HostState>,
    id: CellId,
    now: Instant,
)
    ensures
        board.contains_key(id) ==> snapshot_of(board, id, now).0 == board[id].status,
        board.contains_key(id) ==> snapshot_of(board, id, now).1 == board[id].status_nanos(now),
        !board.contains_key(id) ==> snapshot_of(board, id, now) == (CheckResult::Up, 0nat),
{
}

/// The top bar is the title, then spaces, then the uptime; there are as many spaces as
/// leave a margin of two, or none where there is no room.
pub proof fn bar_is_title_spaces_and_uptime(width: nat, uptime: Seq<char>)
    requires
        encode_utf8(uptime).len() + 10 < 65536,
    ensures
        ({
            let text = bar_text(width, uptime);
            let used = encode_utf8(uptime).len() + 10;
            let gap = if used < width {
                width - used
            } else {
                0
            };
            &&& text.len() == 8 + gap + uptime.len()
            &&& text.subrange(0, 8) == seq!['t', 'm', 'o', 'n', 'i', 't', 'o', 'r']
            &&& forall|i: int| 8 <= i < 8 + gap ==> #[trigger] text[i] == ' '
            &&& text.subrange(8 + gap, text.len() as int) == uptime
        }),
{
    title_len();
    reveal_strlit("tmonitor");
    let text = bar_text(width, uptime);
    assert(text.subrange(0, 8) =~= seq!['t', 'm', 'o', 'n', 'i', 't', 'o', 'r']);
    assert(text.subrange(text.len() - uptime.len(), text.len() as int) =~= uptime);
}

/// The colours are green, red, white and grey, and the display is drawn anew four times a
/// second.
pub proof fn colors_and_refresh()
    ensures
        COLOR_UP == 0x00FF00,
        COLOR_DOWN == 0xFF0000,
        COLOR_TEXT == 0xFFFFFF,
        COLOR_DIM == 0x888888,
        REFRESH_MILLIS == 250,
{
}

}
