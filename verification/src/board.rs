//! The picture of a level: which part of it is shown, the numbers beside its rows, and
//! what stands in each cell.

use crate::command::MotionKind;
use crate::edit::EditState;
use crate::grid::{GridState, GridView, Tile};
use crate::pos::Pos;
use crate::text;
use crate::token;
use crate::token::TokenState;
use vstd::prelude::*;

verus! {

/// How many columns the number beside a row takes.
pub const LABEL_WIDTH: usize = 5;

/// The first of `total` rows that is shown where `visible` fit: the cursor in the
/// middle, as far as that shows no row before the first or after the last.
pub open spec fn first_shown(cursor: nat, visible: nat, total: nat) -> nat {
    if visible >= total || cursor < visible / 2 {
        0
    } else if cursor - visible / 2 < total - visible {
        (cursor - visible / 2) as nat
    } else {
        (total - visible) as nat
    }
}

/// The first of `total` rows that is shown where `visible` fit.
pub fn viewport_start(cursor: usize, visible: usize, total: usize) -> (start: usize)
    ensures
        start == first_shown(cursor as nat, visible as nat, total as nat),
{
    if visible >= total {
        0
    } else {
        cursor.saturating_sub(visible / 2).min(total - visible)
    }
}

/// The number beside a row: its own on the cursor's row, counted from one, and the
/// distance to the cursor's row elsewhere.
pub open spec fn row_number(row: nat, cursor_row: nat) -> nat {
    if row == cursor_row {
        row + 1
    } else if row < cursor_row {
        (cursor_row - row) as nat
    } else {
        (row - cursor_row) as nat
    }
}

/// A number, set to the right in three columns and followed by a blank.
pub open spec fn label_text(number: nat) -> Seq<char> {
    text::padded_left(text::decimal(number), 3) + " "@
}

/// A number, set to the right in three columns and followed by a blank.
fn number_label(number: usize) -> (label: String)
    ensures
        label@ == label_text(number as nat),
{
    let mut digits: String = String::new();
    text::push_decimal(&mut digits, number);
    let mut label: String = String::new();
    text::push_padded_left(&mut label, digits.as_str(), 3);
    label.append(" ");
    assert(digits@ =~= text::decimal(number as nat));
    assert(label@ =~= label_text(number as nat));
    label
}

/// The number beside a row, as it is shown.
pub fn relative_line_label(row: usize, cursor_row: usize) -> (label: String)
    requires
        row == cursor_row ==> row < usize::MAX,
    ensures
        label@ == label_text(row_number(row as nat, cursor_row as nat)),
{
    if row == cursor_row {
        number_label(row + 1)
    } else if row < cursor_row {
        number_label(cursor_row - row)
    } else {
        number_label(row - cursor_row)
    }
}

/// What a cell of a grid shows.
#[derive(Debug, Clone, Copy, PartialEq, Eq, Structural)]
pub enum Cell {
    Player,
    Goal,
    Lava,
    Wall,
    Floor,
}

impl Cell {
    /// The two characters of the cell.
    pub open spec fn glyph_text(self) -> Seq<char> {
        match self {
            Cell::Player => "@ "@,
            Cell::Goal => "X "@,
            Cell::Lava => "~~"@,
            Cell::Wall => "##"@,
            Cell::Floor => ". "@,
        }
    }

    /// The two characters of the cell.
    pub fn glyph(self) -> (glyph: &'static str)
        ensures
            glyph@ == self.glyph_text(),
    {
        match self {
            Cell::Player => "@ ",
            Cell::Goal => "X ",
            Cell::Lava => "~~",
            Cell::Wall => "##",
            Cell::Floor => ". ",
        }
    }
}

/// The part of a grid that is shown: rows `top` to `bottom` and columns `left` to
/// `right`, the latter not included.
#[derive(Debug, Clone, Copy, PartialEq, Eq, Structural)]
pub struct Window {
    pub top: usize,
    pub bottom: usize,
    pub left: usize,
    pub right: usize,
}

impl Window {
    /// The window shows the cell at `pos`.
    pub open spec fn shows(self, pos: Pos) -> bool {
        self.top <= pos.y < self.bottom && self.left <= pos.x < self.right
    }
}

/// `n` brought between one and `most`; `most` wins.
pub open spec fn fitted(n: nat, most: nat) -> nat {
    let wanted = if n == 0 { 1 } else { n };
    if wanted <= most {
        wanted
    } else {
        most
    }
}

/// `n` less `less`, or nothing.
pub open spec fn less(n: nat, less: nat) -> nat {
    if n >= less {
        (n - less) as nat
    } else {
        0
    }
}

impl GridView {
    /// The length of the first row.
    pub open spec fn width(self) -> nat {
        if self.tiles.len() == 0 {
            0
        } else {
            self.tiles[0].len()
        }
    }

    /// How many rows a frame of `height` rows, border included, shows.
    pub open spec fn rows_shown(self, height: u16) -> nat {
        fitted(less(height as nat, 2), self.tiles.len())
    }

    /// How many columns of cells a frame of `width` columns, border and row numbers
    /// included, shows. A cell takes two.
    pub open spec fn columns_shown(self, width: u16) -> nat {
        fitted(less(less(width as nat, 2), LABEL_WIDTH as nat) / 2, self.width())
    }

    /// The part that a frame shows.
    pub open spec fn window(self, width: u16, height: u16) -> Window {
        let rows = self.rows_shown(height);
        let columns = self.columns_shown(width);
        let top = first_shown(self.player.y as nat, rows, self.tiles.len());
        let left = first_shown(self.player.x as nat, columns, self.width());
        Window {
            top: top as usize,
            bottom: (top + rows) as usize,
            left: left as usize,
            right: (left + columns) as usize,
        }
    }

    /// What the cell at `x` and `y` shows.
    pub open spec fn cell(self, x: int, y: int) -> Cell {
        if self.player.x == x && self.player.y == y {
            Cell::Player
        } else if self.goal.x == x && self.goal.y == y {
            Cell::Goal
        } else if self.lava && y >= self.lava_front() {
            Cell::Lava
        } else if self.tiles[y][x] == Tile::Wall {
            Cell::Wall
        } else {
            Cell::Floor
        }
    }

    /// The cells of row `y` that are shown.
    pub open spec fn row_cells(self, y: int, window: Window) -> Seq<Cell> {
        let right = if window.right as int <= self.tiles[y].len() {
            window.right as int
        } else {
            self.tiles[y].len() as int
        };
        Seq::new(
            if right <= window.left {
                0
            } else {
                (right - window.left) as nat
            },
            |i: int| self.cell(window.left + i, y),
        )
    }

    /// Row `y` as it is shown.
    pub open spec fn row_shown(self, y: int, window: Window) -> GridRowView {
        GridRowView {
            label: label_text(row_number(y as nat, self.player.y as nat)),
            cells: self.row_cells(y, window),
        }
    }

    /// The rows as they are shown.
    pub open spec fn picture(self, width: u16, height: u16) -> Seq<GridRowView> {
        let window = self.window(width, height);
        Seq::new(
            (window.bottom - window.top) as nat,
            |i: int| self.row_shown(window.top + i, window),
        )
    }
}

/// A row of a grid as it is shown.
#[derive(Debug)]
pub struct GridRow {
    pub label: String,
    pub cells: Vec<Cell>,
}

/// What a [`GridRow`] holds.
#[verifier::ext_equal]
pub struct GridRowView {
    pub label: Seq<char>,
    pub cells: Seq<Cell>,
}

impl View for GridRow {
    type V = GridRowView;

    open spec fn view(&self) -> GridRowView {
        GridRowView { label: self.label@, cells: self.cells@ }
    }
}

/// What each row holds.
pub open spec fn grid_rows_view(rows: Seq<GridRow>) -> Seq<GridRowView> {
    Seq::new(rows.len(), |i: int| rows[i]@)
}

impl GridState {
    /// The length of the first row.
    fn first_row_len(&self) -> (width: usize)
        ensures
            width == self@.width(),
    {
        if self.tiles.len() == 0 {
            0
        } else {
            self.tiles[0].len()
        }
    }

    /// The part that a frame of this size shows.
    pub fn visible_window(&self, width: u16, height: u16) -> (window: Window)
        ensures
            window == self@.window(width, height),
            window.top <= window.bottom <= self.tiles@.len(),
            window.left <= window.right <= self@.width(),
    {
        let rows: usize = (height.saturating_sub(2) as usize).max(1).min(self.tiles.len());
        let inner: usize = width.saturating_sub(2) as usize;
        let total: usize = self.first_row_len();
        let columns: usize = (inner.saturating_sub(LABEL_WIDTH) / 2).max(1).min(total);
        let top: usize = viewport_start(self.player.y, rows, self.tiles.len());
        let left: usize = viewport_start(self.player.x, columns, total);
        assert(self@.tiles.len() == self.tiles.len());
        Window { top, bottom: top + rows, left, right: left + columns }
    }

    /// What the cell at `x` and `y` shows.
    fn cell_at(&self, x: usize, y: usize) -> (cell: Cell)
        requires
            y < self@.tiles.len(),
            x < self@.tiles[y as int].len(),
        ensures
            cell == self@.cell(x as int, y as int),
    {
        if self.player.x == x && self.player.y == y {
            Cell::Player
        } else if self.goal.x == x && self.goal.y == y {
            Cell::Goal
        } else if self.lava && y >= self.tiles.len().saturating_sub(self.lava_rows) {
            Cell::Lava
        } else if self.tiles[y][x] == Tile::Wall {
            Cell::Wall
        } else {
            Cell::Floor
        }
    }

    /// Row `y` as it is shown.
    fn visible_row(&self, y: usize, window: Window) -> (row: GridRow)
        requires
            y < self@.tiles.len(),
        ensures
            row@ == self@.row_shown(y as int, window),
    {
        let right: usize = window.right.min(self.tiles[y].len());
        let mut cells: Vec<Cell> = Vec::new();
        let mut x: usize = window.left;
        assert(self@.tiles[y as int] == self.tiles@[y as int]@);
        while x < right
            invariant
                window.left <= x,
                x <= right || cells@.len() == 0,
                right <= self@.tiles[y as int].len(),
                y < self@.tiles.len(),
                cells@.len() == x - window.left,
                forall|i: int|
                    0 <= i < cells@.len() ==> #[trigger] cells@[i] == self@.cell(
                        window.left + i,
                        y as int,
                    ),
            decreases right - x,
        {
            cells.push(self.cell_at(x, y));
            x += 1;
        }
        assert(cells@ =~= self@.row_cells(y as int, window));
        assert(self@.tiles.len() == self.tiles.len());
        GridRow { label: relative_line_label(y, self.player.y), cells }
    }

    /// The rows as a frame of this size shows them.
    pub fn visible_rows(&self, width: u16, height: u16) -> (rows: Vec<GridRow>)
        ensures
            grid_rows_view(rows@) == self@.picture(width, height),
    {
        let window: Window = self.visible_window(width, height);
        let mut rows: Vec<GridRow> = Vec::new();
        let mut y: usize = window.top;
        assert(self@.tiles.len() == self.tiles@.len());
        while y < window.bottom
            invariant
                window.top <= y <= window.bottom <= self@.tiles.len(),
                rows@.len() == y - window.top,
                forall|i: int|
                    0 <= i < rows@.len() ==> (#[trigger] rows@[i])@ == self@.row_shown(
                        window.top + i,
                        window,
                    ),
            decreases window.bottom - y,
        {
            rows.push(self.visible_row(y, window));
            y += 1;
        }
        assert(grid_rows_view(rows@) =~= self@.picture(width, height));
        rows
    }
}

/// What marks a character of a text that is shown.
#[derive(Debug, Clone, Copy, PartialEq, Eq, Structural)]
pub struct Mark {
    pub target: bool,
    pub cursor: bool,
}

/// A line of a text as it is shown: its number, its characters, and how each of them
/// is marked.
#[derive(Debug)]
pub struct TextRow {
    pub label: String,
    pub line: String,
    pub marks: Vec<Mark>,
}

/// What a [`TextRow`] holds.
#[verifier::ext_equal]
pub struct TextRowView {
    pub label: Seq<char>,
    pub line: Seq<char>,
    pub marks: Seq<Mark>,
}

impl View for TextRow {
    type V = TextRowView;

    open spec fn view(&self) -> TextRowView {
        TextRowView { label: self.label@, line: self.line@, marks: self.marks@ }
    }
}

/// What each line holds.
pub open spec fn text_rows_view(rows: Seq<TextRow>) -> Seq<TextRowView> {
    Seq::new(rows.len(), |i: int| rows[i]@)
}

/// Line `y` as it is shown, with the cursor and the targets in it.
pub open spec fn line_shown(
    lines: Seq<Seq<char>>,
    targets: Seq<Pos>,
    cursor: Pos,
    y: int,
) -> TextRowView {
    TextRowView {
        label: label_text(row_number(y as nat, cursor.y as nat)),
        line: lines[y],
        marks: Seq::new(
            lines[y].len(),
            |x: int|
                Mark {
                    target: is_target(targets, x, y),
                    cursor: cursor.x == x && cursor.y == y,
                },
        ),
    }
}

/// One of `targets` stands at `x` and `y`.
pub open spec fn is_target(targets: Seq<Pos>, x: int, y: int) -> bool {
    exists|i: int| 0 <= i < targets.len() && (#[trigger] targets[i]).x == x && targets[i].y == y
}

/// A text as it is shown, with the cursor and the targets in it.
pub open spec fn text_shown(lines: Seq<Seq<char>>, targets: Seq<Pos>, cursor: Pos) -> Seq<
    TextRowView,
> {
    Seq::new(lines.len(), |y: int| line_shown(lines, targets, cursor, y))
}

/// Whether one of `targets` stands at `x` and `y`.
fn holds_target(targets: &Vec<Pos>, x: usize, y: usize) -> (holds: bool)
    ensures
        holds == is_target(targets@, x as int, y as int),
{
    let mut i: usize = 0;
    while i < targets.len()
        invariant
            i <= targets@.len(),
            forall|j: int|
                0 <= j < i ==> !((#[trigger] targets@[j]).x == x && targets@[j].y == y),
        decreases targets@.len() - i,
    {
        if targets[i].x == x && targets[i].y == y {
            return true;
        }
        i += 1;
    }
    false
}

/// How the characters of line `y` are marked.
fn marks_of(len: usize, targets: &Vec<Pos>, cursor: Pos, y: usize) -> (marks: Vec<Mark>)
    ensures
        marks@ == Seq::new(
            len as nat,
            |x: int|
                Mark {
                    target: is_target(targets@, x, y as int),
                    cursor: cursor.x == x && cursor.y == y as int,
                },
        ),
{
    let mut marks: Vec<Mark> = Vec::new();
    let mut x: usize = 0;
    while x < len
        invariant
            x <= len,
            marks@.len() == x,
            forall|i: int|
                0 <= i < x ==> #[trigger] marks@[i] == (Mark {
                    target: is_target(targets@, i, y as int),
                    cursor: cursor.x == i && cursor.y == y,
                }),
        decreases len - x,
    {
        let target: bool = holds_target(targets, x, y);
        let under_cursor: bool = cursor.x == x && cursor.y == y;
        marks.push(Mark { target, cursor: under_cursor });
        x += 1;
    }
    marks
}

/// A text as it is shown, with the cursor and the targets in it.
fn show_text(lines: &Vec<String>, targets: &Vec<Pos>, cursor: Pos) -> (rows: Vec<TextRow>)
    ensures
        text_rows_view(rows@) == text_shown(text::lines_view(lines@), targets@, cursor),
{
    let ghost shown = text::lines_view(lines@);
    let mut rows: Vec<TextRow> = Vec::new();
    let mut y: usize = 0;
    while y < lines.len()
        invariant
            y <= lines@.len(),
            shown == text::lines_view(lines@),
            rows@.len() == y,
            forall|i: int|
                0 <= i < y ==> (#[trigger] rows@[i])@ == line_shown(shown, targets@, cursor, i),
        decreases lines@.len() - y,
    {
        let marks: Vec<Mark> = marks_of(lines[y].as_str().unicode_len(), targets, cursor, y);
        let label: String = relative_line_label(y, cursor.y);
        let row: TextRow = TextRow { label, line: lines[y].clone(), marks };
        assert(row@ =~= line_shown(shown, targets@, cursor, y as int));
        rows.push(row);
        y += 1;
    }
    assert(text_rows_view(rows@) =~= text_shown(shown, targets@, cursor));
    rows
}

impl TokenState {
    /// The lines as they are shown, with the cursor and all targets in them.
    pub fn visible_rows(&self) -> (rows: Vec<TextRow>)
        ensures
            text_rows_view(rows@) == text_shown(self@.lines, self@.targets, self@.cursor),
    {
        show_text(&self.lines, &self.targets, self.cursor)
    }
}

/// A line of the text that is asked for, as it is shown.
#[derive(Debug)]
pub struct TargetRow {
    pub label: String,
    pub line: String,
}

/// What each line of the text that is asked for shows: its number and its characters.
pub open spec fn target_rows_view(rows: Seq<TargetRow>) -> Seq<(Seq<char>, Seq<char>)> {
    Seq::new(rows.len(), |i: int| (rows[i].label@, rows[i].line@))
}

impl EditState {
    /// The lines as they are shown, with the cursor in them.
    pub fn visible_rows(&self) -> (rows: Vec<TextRow>)
        ensures
            text_rows_view(rows@) == text_shown(self@.lines, Seq::empty(), self@.cursor),
    {
        let none: Vec<Pos> = Vec::new();
        show_text(&self.lines, &none, self.cursor)
    }

    /// The text that is asked for as it is shown: each line behind its number.
    pub fn target_rows(&self) -> (rows: Vec<TargetRow>)
        ensures
            target_rows_view(rows@) == Seq::new(
                self@.expected.len(),
                |y: int| (label_text((y + 1) as nat), self@.expected[y]),
            ),
    {
        let mut rows: Vec<TargetRow> = Vec::new();
        let mut y: usize = 0;
        while y < self.expected.len()
            invariant
                y <= self.expected@.len(),
                rows@.len() == y,
                forall|i: int|
                    0 <= i < y ==> (#[trigger] rows@[i]).label@ == label_text((i + 1) as nat)
                        && rows@[i].line@ == self.expected@[i]@,
            decreases self.expected@.len() - y,
        {
            rows.push(
                TargetRow { label: number_label(y + 1), line: self.expected[y].clone() },
            );
            y += 1;
        }
        assert(target_rows_view(rows@) =~= Seq::new(
            self@.expected.len(),
            |y: int| (label_text((y + 1) as nat), self@.expected[y]),
        ));
        rows
    }
}

/// The cursor's row is always shown, and no row outside the text is.
pub proof fn the_cursor_is_shown(cursor: nat, visible: nat, total: nat)
    requires
        cursor < total,
        0 < visible <= total,
    ensures
        first_shown(cursor, visible, total) <= cursor < first_shown(cursor, visible, total)
            + visible <= total,
{
}

/// However small the frame, it shows the player, and nothing outside the grid.
pub proof fn the_player_is_shown(grid: GridView, width: u16, height: u16)
    requires
        grid.player.y < grid.tiles.len() <= usize::MAX,
        grid.player.x < grid.width() <= usize::MAX,
    ensures
        grid.window(width, height).shows(grid.player),
        grid.window(width, height).bottom <= grid.tiles.len(),
        grid.window(width, height).right <= grid.width(),
{
    the_cursor_is_shown(grid.player.y as nat, grid.rows_shown(height), grid.tiles.len());
    the_cursor_is_shown(grid.player.x as nat, grid.columns_shown(width), grid.width());
}

proof fn lemma_rows_down(lines: Seq<Seq<char>>, pos: Pos, count: nat)
    requires
        lines.len() <= usize::MAX,
        pos.y + count < lines.len(),
    ensures
        token::moved_by(lines, pos, MotionKind::Down, count).y == pos.y + count,
    decreases count,
{
    if count > 0 {
        let next = token::moved_once(lines, pos, MotionKind::Down);
        lemma_rows_down(lines, next, (count - 1) as nat);
    }
}

proof fn lemma_rows_up(lines: Seq<Seq<char>>, pos: Pos, count: nat)
    requires
        count <= pos.y,
    ensures
        token::moved_by(lines, pos, MotionKind::Up, count).y == pos.y - count,
    decreases count,
{
    if count > 0 {
        let next = token::moved_once(lines, pos, MotionKind::Up);
        lemma_rows_up(lines, next, (count - 1) as nat);
    }
}

/// The number beside another row is the count that leads there with `j` or `k`.
pub proof fn labels_are_counts(lines: Seq<Seq<char>>, cursor: Pos, row: nat)
    requires
        lines.len() <= usize::MAX,
        cursor.y < lines.len(),
        row < lines.len(),
        row != cursor.y,
    ensures
        token::moved_by(
            lines,
            cursor,
            if row > cursor.y {
                MotionKind::Down
            } else {
                MotionKind::Up
            },
            row_number(row, cursor.y as nat),
        ).y == row,
{
    if row > cursor.y {
        lemma_rows_down(lines, cursor, row_number(row, cursor.y as nat));
    } else {
        lemma_rows_up(lines, cursor, row_number(row, cursor.y as nat));
    }
}

/// What is shown starts so that the cursor is in the middle, unless that would show rows
/// before the first or after the last: then it starts with the first row, or ends with the
/// last. Where all rows fit it starts with the first.
pub proof fn the_cursor_is_in_the_middle(cursor: nat, visible: nat, total: nat)
    ensures
        visible >= total ==> first_shown(cursor, visible, total) == 0,
        visible < total && cursor < visible / 2 ==> first_shown(cursor, visible, total) == 0,
        visible < total && visible / 2 <= cursor && cursor - visible / 2 <= total - visible
            ==> first_shown(cursor, visible, total) + visible / 2 == cursor,
        visible < total && cursor >= visible / 2 && cursor - visible / 2 > total - visible
            ==> first_shown(cursor, visible, total) + visible == total,
{
}

/// A row is labelled with its distance from the cursor's, and the cursor's own with its
/// number, counted from one; the label takes three columns at least and a blank.
pub proof fn labels_tell_distances(row: nat, cursor_row: nat)
    ensures
        row == cursor_row ==> row_number(row, cursor_row) == row + 1,
        row < cursor_row ==> row + row_number(row, cursor_row) == cursor_row,
        row > cursor_row ==> cursor_row + row_number(row, cursor_row) == row,
        label_text(row) == text::padded_left(text::decimal(row), 3).push(' '),
{
    reveal_strlit(" ");
    assert(label_text(row) =~= text::padded_left(text::decimal(row), 3).push(' '));
}

/// A frame shows as many rows as lie inside its border, and a cell for every two columns
/// inside the border and behind the five of the labels; at least one of each, and no more than
/// there are.
pub proof fn frames_show_what_fits(grid: GridView, width: u16, height: u16)
    requires
        0 < grid.tiles.len() <= usize::MAX,
        0 < grid.tiles[0].len() <= usize::MAX,
    ensures
        ({
            let window = grid.window(width, height);
            let rows = window.bottom - window.top;
            let columns = window.right - window.left;
            &&& window.top == first_shown(grid.player.y as nat, rows as nat, grid.tiles.len())
            &&& window.left == first_shown(grid.player.x as nat, columns as nat, grid.tiles[0].len())
            &&& rows == if height <= 3 {
                1
            } else if height - 2 <= grid.tiles.len() {
                height - 2
            } else {
                grid.tiles.len() as int
            }
            &&& columns == if width < 11 {
                1
            } else if (width - 7) / 2 <= grid.tiles[0].len() {
                (width - 7) / 2
            } else {
                grid.tiles[0].len() as int
            }
        }),
{
}

/// The picture of a grid has a row for each row that is shown, with its label, and a cell for
/// each column that is shown: the player above all, then the goal, then the lava in the rows
/// that it covers, then wall and floor.
pub proof fn pictures_show_the_grid(grid: GridView, width: u16, height: u16, x: int, y: int)
    requires
        0 < grid.tiles.len() <= usize::MAX,
        0 < grid.tiles[0].len() <= usize::MAX,
        forall|j: int| 0 <= j < grid.tiles.len() ==> (#[trigger] grid.tiles[j]).len()
            == grid.tiles[0].len(),
        grid.window(width, height).top <= y < grid.window(width, height).bottom,
        grid.window(width, height).left <= x < grid.window(width, height).right,
    ensures
        ({
            let window = grid.window(width, height);
            let picture = grid.picture(width, height);
            let row = picture[y - window.top];
            &&& picture.len() == window.bottom - window.top
            &&& row.label == label_text(row_number(y as nat, grid.player.y as nat))
            &&& row.cells.len() == window.right - window.left
            &&& row.cells[x - window.left] == if x == grid.player.x && y == grid.player.y {
                Cell::Player
            } else if x == grid.goal.x && y == grid.goal.y {
                Cell::Goal
            } else if grid.lava && y + grid.lava_rows >= grid.tiles.len() {
                Cell::Lava
            } else if grid.tiles[y][x] == Tile::Floor {
                Cell::Floor
            } else {
                Cell::Wall
            }
        }),
{
    frames_show_what_fits(grid, width, height);
    assert(grid.tiles[y].len() == grid.tiles[0].len());
}

/// A text is shown line by line, each with its label and all its characters; marked are the
/// place of the cursor and the places of all targets, and no others.
pub proof fn texts_are_shown_whole(
    lines: Seq<Seq<char>>,
    targets: Seq<Pos>,
    cursor: Pos,
    x: int,
    y: int,
)
    requires
        0 <= y < lines.len(),
        0 <= x < lines[y].len(),
    ensures
        ({
            let shown = text_shown(lines, targets, cursor);
            &&& shown.len() == lines.len()
            &&& shown[y].label == label_text(row_number(y as nat, cursor.y as nat))
            &&& shown[y].line == lines[y]
            &&& shown[y].marks.len() == lines[y].len()
            &&& shown[y].marks[x].cursor <==> cursor.x == x && cursor.y == y
            &&& shown[y].marks[x].target <==> exists|i: int|
                0 <= i < targets.len() && (#[trigger] targets[i]).x == x && targets[i].y == y
        }),
{
}

/// Each kind of cell has its own two characters.
pub proof fn cells_have_their_glyphs()
    ensures
        Cell::Player.glyph_text() == "@ "@,
        Cell::Goal.glyph_text() == "X "@,
        Cell::Lava.glyph_text() == "~~"@,
        Cell::Wall.glyph_text() == "##"@,
        Cell::Floor.glyph_text() == ". "@,
{
}

} // verus!
