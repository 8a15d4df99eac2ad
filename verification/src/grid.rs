//! The grid of tiles: where the focus is, and what each tile shows of itself.

use vstd::prelude::*;

use crate::number::to_decimal;

verus! {

/// How many rows of tiles there are.
pub const GRID_ROWS: usize = 2;

/// How many tiles stand in a row.
pub const GRID_COLS: usize = 3;

// ---------------------------------------------------------------------------------------------
// Focus
// ---------------------------------------------------------------------------------------------

/// A key.
#[derive(Debug, Clone, Copy, PartialEq, Eq, Structural)]
pub enum Key {
    Char(char),
    Up,
    Down,
    Left,
    Right,
    Other,
}

/// What a key leads to.
#[derive(Debug, Clone, Copy, PartialEq, Eq, Structural)]
pub enum Step {
    Quit,
    /// The tile that has the focus from then on, by row and column.
    Focus(usize, usize),
}

/// Whether a tile stands in the grid.
pub open spec fn in_grid(focused: (usize, usize)) -> bool {
    focused.0 < GRID_ROWS && focused.1 < GRID_COLS
}

/// One less, but not less than zero.
pub open spec fn stepped_back(n: usize) -> usize {
    if n == 0 {
        0
    } else {
        (n - 1) as usize
    }
}

/// One more, but within a limit.
pub open spec fn stepped_on(n: usize, limit: usize) -> usize {
    if n + 1 <= limit - 1 {
        (n + 1) as usize
    } else {
        (limit - 1) as usize
    }
}

/// What a key leads to: `q` quits; the arrow keys, or `k`, `j`, `h` and `l`, move the focus by one
/// tile and stop at the edge of the grid; nothing else does anything.
pub open spec fn key_step(focused: (usize, usize), key: Key) -> Step {
    match key {
        Key::Char('q') => Step::Quit,
        Key::Up | Key::Char('k') => Step::Focus(stepped_back(focused.0), focused.1),
        Key::Down | Key::Char('j') => Step::Focus(stepped_on(focused.0, GRID_ROWS), focused.1),
        Key::Left | Key::Char('h') => Step::Focus(focused.0, stepped_back(focused.1)),
        Key::Right | Key::Char('l') => Step::Focus(focused.0, stepped_on(focused.1, GRID_COLS)),
        _ => Step::Focus(focused.0, focused.1),
    }
}

/// What a key event leads to: only pressing a key counts, not holding or releasing it.
pub open spec fn key_event_step(focused: (usize, usize), key: Key, pressed: bool) -> Step {
    if pressed {
        key_step(focused, key)
    } else {
        Step::Focus(focused.0, focused.1)
    }
}

/// One more, but within a limit.
fn step_on(n: usize, limit: usize) -> (r: usize)
    requires
        limit > 0,
    ensures
        r == stepped_on(n, limit),
{
    if n < limit - 1 {
        n + 1
    } else {
        limit - 1
    }
}

/// One less, but not less than zero.
fn step_back(n: usize) -> (r: usize)
    ensures
        r == stepped_back(n),
{
    if n == 0 {
        0
    } else {
        n - 1
    }
}

/// Takes in a key event. Only pressing a key counts, not holding or releasing it.
pub fn on_key(focused: (usize, usize), key: Key, pressed: bool) -> (r: Step)
    ensures
        r == key_event_step(focused, key, pressed),
        r == if pressed {
            key_step(focused, key)
        } else {
            Step::Focus(focused.0, focused.1)
        },
{
    let (row, col) = focused;
    if !pressed {
        return Step::Focus(row, col);
    }
    match key {
        Key::Char(c) => {
            if c == 'q' {
                Step::Quit
            } else if c == 'k' {
                Step::Focus(step_back(row), col)
            } else if c == 'j' {
                Step::Focus(step_on(row, GRID_ROWS), col)
            } else if c == 'h' {
                Step::Focus(row, step_back(col))
            } else if c == 'l' {
                Step::Focus(row, step_on(col, GRID_COLS))
            } else {
                Step::Focus(row, col)
            }
        },
        Key::Up => Step::Focus(step_back(row), col),
        Key::Down => Step::Focus(step_on(row, GRID_ROWS), col),
        Key::Left => Step::Focus(row, step_back(col)),
        Key::Right => Step::Focus(row, step_on(col, GRID_COLS)),
        Key::Other => Step::Focus(row, col),
    }
}

// ---------------------------------------------------------------------------------------------
// Tiles
// ---------------------------------------------------------------------------------------------

/// A rectangle of terminal cells.
#[derive(Debug, Clone, Copy, PartialEq, Eq, Structural)]
pub struct Area {
    pub x: u16,
    pub y: u16,
    pub width: u16,
    pub height: u16,
}

/// One tile, ready to be drawn.
#[derive(Debug)]
pub struct Tile {
    pub area: Area,
    pub title: String,
    pub highlighted: bool,
}

/// The title of a tile.
pub open spec fn title_text(row: nat, col: nat) -> Seq<char> {
    " Tile "@ + crate::number::decimal(row) + ","@ + crate::number::decimal(col) + " "@
}

/// The tile at a place of the grid.
pub open spec fn is_tile_at(
    tile: Tile,
    row: int,
    col: int,
    area: Area,
    focused: (usize, usize),
) -> bool {
    &&& tile.area == area
    &&& tile.title@ == title_text(row as nat, col as nat)
    &&& tile.highlighted == (row == focused.0 && col == focused.1)
}

/// How far a stretch of cells reaches, where it starts at one of them: no coordinate goes beyond
/// the largest that there is.
pub open spec fn reach(start: u16, len: u16) -> int {
    if start + len <= u16::MAX {
        len as int
    } else {
        u16::MAX - start
    }
}

/// Whether one of `n` parts has an equal share of a length, to within one cell.
pub open spec fn is_share(part: u16, n: nat, total: int) -> bool {
    total - n <= n * part <= total + n
}

/// Whether an area lies within another.
pub open spec fn lies_within(part: Area, whole: Area) -> bool {
    &&& whole.x <= part.x
    &&& part.x + part.width <= whole.x + whole.width
    &&& whole.y <= part.y
    &&& part.y + part.height <= whole.y + whole.height
}

/// Whether some areas make up a whole from top to bottom, in equal shares: each is as wide as the
/// whole, the first begins where it begins, each begins where the one before ends, and the last
/// ends where it ends.
pub open spec fn stacked(parts: Seq<Area>, whole: Area) -> bool {
    let total = reach(whole.y, whole.height);
    &&& forall|i: int|
        0 <= i < parts.len() ==> {
            &&& (#[trigger] parts[i]).x == whole.x
            &&& parts[i].width == whole.width
            &&& lies_within(parts[i], whole)
            &&& is_share(parts[i].height, parts.len(), total)
        }
    &&& forall|i: int, j: int|
        0 <= i && j == i + 1 && j < parts.len() ==> (#[trigger] parts[i]).y + parts[i].height == (
        #[trigger] parts[j]).y
    &&& parts.len() > 0 ==> {
        &&& parts.first().y == whole.y
        &&& parts.last().y + parts.last().height == whole.y + total
    }
}

/// Whether some areas make up a whole from left to right, in equal shares: each is as high as the
/// whole, the first begins where it begins, each begins where the one before ends, and the last
/// ends where it ends.
pub open spec fn side_by_side(parts: Seq<Area>, whole: Area) -> bool {
    let total = reach(whole.x, whole.width);
    &&& forall|i: int|
        0 <= i < parts.len() ==> {
            &&& (#[trigger] parts[i]).y == whole.y
            &&& parts[i].height == whole.height
            &&& lies_within(parts[i], whole)
            &&& is_share(parts[i].width, parts.len(), total)
        }
    &&& forall|i: int, j: int|
        0 <= i && j == i + 1 && j < parts.len() ==> (#[trigger] parts[i]).x + parts[i].width == (
        #[trigger] parts[j]).x
    &&& parts.len() > 0 ==> {
        &&& parts.first().x == whole.x
        &&& parts.last().x + parts.last().width == whole.x + total
    }
}

/// `ratatui::layout::Layout::vertical` with equal shares, and `split`: the areas of the shares make
/// up the whole. Claimed for up to three shares. Into which share an odd cell goes comes out of a
/// solver that works in floating point, and is not stated.
#[verifier::external_body]
pub(crate) fn split_rows(area: Area, shares: u16, weight: u16) -> (r: Vec<Area>)
    requires
        0 < shares <= 3,
        weight > 0,
    ensures
        r@.len() == shares,
        stacked(r@, area),
{
    let rect = ratatui::layout::Rect { x: area.x, y: area.y, width: area.width, height: area.height };
    let fills = vec![ratatui::layout::Constraint::Fill(weight); shares.into()];
    let rects = ratatui::layout::Layout::vertical(fills).split(rect);
    rects.iter().map(|r| Area { x: r.x, y: r.y, width: r.width, height: r.height }).collect()
}

/// `ratatui::layout::Layout::horizontal` with equal shares, and `split`: the areas of the shares
/// make up the whole. Claimed for up to three shares. Into which share an odd cell goes comes out
/// of a solver that works in floating point, and is not stated.
#[verifier::external_body]
pub(crate) fn split_columns(area: Area, shares: u16, weight: u16) -> (r: Vec<Area>)
    requires
        0 < shares <= 3,
        weight > 0,
    ensures
        r@.len() == shares,
        side_by_side(r@, area),
{
    let rect = ratatui::layout::Rect { x: area.x, y: area.y, width: area.width, height: area.height };
    let fills = vec![ratatui::layout::Constraint::Fill(weight); shares.into()];
    let rects = ratatui::layout::Layout::horizontal(fills).split(rect);
    rects.iter().map(|r| Area { x: r.x, y: r.y, width: r.width, height: r.height }).collect()
}

/// The title of a tile.
pub fn tile_title(row: usize, col: usize) -> (r: String)
    ensures
        r@ == title_text(row as nat, col as nat),
{
    let mut title = " Tile ".to_owned();
    title.append(to_decimal(row as u64).as_str());
    title.append(",");
    title.append(to_decimal(col as u64).as_str());
    title.append(" ");
    title
}

/// Fills one row of the grid.
pub fn tile_row(row: usize, areas: &[Area], focused: (usize, usize)) -> (r: Vec<Tile>)
    ensures
        r@.len() == areas@.len(),
        forall|col: int|
            0 <= col < areas@.len() ==> is_tile_at(
                #[trigger] r@[col],
                row as int,
                col,
                areas@[col],
                focused,
            ),
{
    let mut tiles: Vec<Tile> = Vec::new();
    for i in 0..areas.len()
        invariant
            tiles@.len() == i,
            forall|col: int|
                0 <= col < i ==> is_tile_at(
                    #[trigger] tiles@[col],
                    row as int,
                    col,
                    areas@[col],
                    focused,
                ),
    {
        let highlighted = row == focused.0 && i == focused.1;
        tiles.push(Tile { area: areas[i], title: tile_title(row, i), highlighted });
    }
    tiles
}

/// The areas of some tiles.
pub open spec fn tile_areas(tiles: Seq<Tile>) -> Seq<Area> {
    tiles.map_values(|tile: Tile| tile.area)
}

/// Lays out the grid over an area: `GRID_ROWS` rows of `GRID_COLS` tiles each, of which only the
/// focused one is highlighted. The rows split the area evenly from top to bottom, and the tiles of
/// each split their row evenly from left to right.
pub fn layout_tiles(area: Area, focused: (usize, usize)) -> (r: Vec<Vec<Tile>>)
    ensures
        r@.len() == GRID_ROWS,
        forall|row: int|
            0 <= row < GRID_ROWS ==> (#[trigger] r@[row])@.len() == GRID_COLS,
        forall|row: int, col: int|
            0 <= row < GRID_ROWS && 0 <= col < GRID_COLS ==> is_tile_at(
                #[trigger] r@[row]@[col],
                row,
                col,
                r@[row]@[col].area,
                focused,
            ),
        forall|row: int, col: int|
            0 <= row < GRID_ROWS && 0 <= col < GRID_COLS ==> {
                &&& lies_within((#[trigger] r@[row]@[col]).area, area)
                &&& is_share(r@[row]@[col].area.width, GRID_COLS as nat, reach(area.x, area.width))
                &&& is_share(
                    r@[row]@[col].area.height,
                    GRID_ROWS as nat,
                    reach(area.y, area.height),
                )
            },
        exists|bands: Seq<Area>|
            {
                &&& bands.len() == GRID_ROWS
                &&& #[trigger] stacked(bands, area)
                &&& forall|row: int|
                    0 <= row < GRID_ROWS ==> side_by_side(
                        #[trigger] tile_areas(r@[row]@),
                        bands[row],
                    )
            },
{
    let rows = split_rows(area, GRID_ROWS as u16, 1);
    let mut grid: Vec<Vec<Tile>> = Vec::new();
    for i in 0..rows.len()
        invariant
            rows@.len() == GRID_ROWS,
            stacked(rows@, area),
            grid@.len() == i,
            forall|row: int| 0 <= row < i ==> (#[trigger] grid@[row])@.len() == GRID_COLS,
            forall|row: int, col: int|
                0 <= row < i && 0 <= col < GRID_COLS ==> is_tile_at(
                    #[trigger] grid@[row]@[col],
                    row,
                    col,
                    grid@[row]@[col].area,
                    focused,
                ),
            forall|row: int|
                0 <= row < i ==> side_by_side(#[trigger] tile_areas(grid@[row]@), rows@[row]),
    {
        let columns = split_columns(rows[i], GRID_COLS as u16, 1);
        let tiles = tile_row(i, &columns, focused);
        assert(tile_areas(tiles@) =~= columns@);
        grid.push(tiles);
    }
    proof {
        assert forall|row: int, col: int| 0 <= row < GRID_ROWS && 0 <= col < GRID_COLS implies {
            &&& lies_within((#[trigger] grid@[row]@[col]).area, area)
            &&& is_share(grid@[row]@[col].area.width, GRID_COLS as nat, reach(area.x, area.width))
            &&& is_share(
                grid@[row]@[col].area.height,
                GRID_ROWS as nat,
                reach(area.y, area.height),
            )
        } by {
            let areas = tile_areas(grid@[row]@);
            assert(areas[col] == grid@[row]@[col].area);
            assert(lies_within(rows@[row], area));
        }
        assert(stacked(rows@, area));
    }
    grid
}

// ---------------------------------------------------------------------------------------------
// Laws
// ---------------------------------------------------------------------------------------------

/// The focus never leaves the grid.
pub proof fn law_focus_stays_in_the_grid(focused: (usize, usize), key: Key)
    requires
        in_grid(focused),
    ensures
        match key_step(focused, key) {
            Step::Focus(row, col) => in_grid((row, col)),
            Step::Quit => true,
        },
{
}

/// Where each key leads from a tile of the grid. Up and down keep the column and go one row back or
/// on, left and right keep the row and go one column back or on, and at an edge the focus stays.
pub proof fn law_moves(row: usize, col: usize)
    requires
        row < 2,
        col < 3,
    ensures
        key_event_step((row, col), Key::Up, true) == if row > 0 {
            Step::Focus((row - 1) as usize, col)
        } else {
            Step::Focus(row, col)
        },
        key_event_step((row, col), Key::Down, true) == if row + 1 < 2 {
            Step::Focus((row + 1) as usize, col)
        } else {
            Step::Focus(row, col)
        },
        key_event_step((row, col), Key::Left, true) == if col > 0 {
            Step::Focus(row, (col - 1) as usize)
        } else {
            Step::Focus(row, col)
        },
        key_event_step((row, col), Key::Right, true) == if col + 1 < 3 {
            Step::Focus(row, (col + 1) as usize)
        } else {
            Step::Focus(row, col)
        },
{
}

/// From outside the grid, a key moves the same way and leads no further out: a row or column never
/// drops below zero nor, by moving on, ends up beyond the last.
pub proof fn law_moves_from_anywhere(row: usize, col: usize)
    ensures
        key_event_step((row, col), Key::Up, true) == Step::Focus(
            if row > 0 {
                (row - 1) as usize
            } else {
                0
            },
            col,
        ),
        key_event_step((row, col), Key::Down, true) == Step::Focus(1, col),
        key_event_step((row, col), Key::Left, true) == Step::Focus(
            row,
            if col > 0 {
                (col - 1) as usize
            } else {
                0
            },
        ),
        key_event_step((row, col), Key::Right, true) == Step::Focus(
            row,
            if col == 0 {
                1
            } else {
                2
            },
        ),
{
}

/// Pressing `q` quits, and nothing else does. Keys without a meaning, and keys that are not being
/// pressed, leave the focus where it is.
pub proof fn law_other_keys(focused: (usize, usize), key: Key, pressed: bool)
    ensures
        key_event_step(focused, key, pressed) == Step::Quit <==> pressed && key == Key::Char('q'),
        !pressed ==> key_event_step(focused, key, pressed) == Step::Focus(focused.0, focused.1),
        key == Key::Other ==> key_event_step(focused, key, pressed) == Step::Focus(
            focused.0,
            focused.1,
        ),
        match key {
            Key::Char(c) => c != 'q' && c != 'k' && c != 'j' && c != 'h' && c != 'l'
                ==> key_event_step(focused, key, pressed) == Step::Focus(focused.0, focused.1),
            _ => true,
        },
{
}

/// Moving one way and back leads to the tile that was left, wherever there was room to move.
pub proof fn law_moves_undo_each_other(focused: (usize, usize))
    requires
        in_grid(focused),
    ensures
        focused.0 + 1 < GRID_ROWS ==> match key_step(focused, Key::Down) {
            Step::Focus(row, col) => key_step((row, col), Key::Up) == Step::Focus(
                focused.0,
                focused.1,
            ),
            Step::Quit => false,
        },
        focused.1 + 1 < GRID_COLS ==> match key_step(focused, Key::Right) {
            Step::Focus(row, col) => key_step((row, col), Key::Left) == Step::Focus(
                focused.0,
                focused.1,
            ),
            Step::Quit => false,
        },
        focused.0 > 0 ==> match key_step(focused, Key::Up) {
            Step::Focus(row, col) => key_step((row, col), Key::Down) == Step::Focus(
                focused.0,
                focused.1,
            ),
            Step::Quit => false,
        },
        focused.1 > 0 ==> match key_step(focused, Key::Left) {
            Step::Focus(row, col) => key_step((row, col), Key::Right) == Step::Focus(
                focused.0,
                focused.1,
            ),
            Step::Quit => false,
        },
{
}

/// The tiles of a row that split it do not overlap, and every cell of the row that a coordinate
/// can reach lies in one of them.
pub proof fn law_tiles_cover_their_row(parts: Seq<Area>, whole: Area, x: int)
    requires
        side_by_side(parts, whole),
        parts.len() > 0,
        whole.x <= x < whole.x + reach(whole.x, whole.width),
    ensures
        exists|i: int|
            0 <= i < parts.len() && (#[trigger] parts[i]).x <= x < parts[i].x + parts[i].width,
        forall|i: int, j: int|
            0 <= i < j < parts.len() ==> (#[trigger] parts[i]).x + parts[i].width
                <= (#[trigger] parts[j]).x,
{
    let n = parts.len() as int;
    assert(parts[n - 1] == parts.last());
    assert forall|i: int, j: int| 0 <= i < j < n implies (#[trigger] parts[i]).x + parts[i].width
        <= (#[trigger] parts[j]).x by {
        lemma_columns_in_order(parts, whole, i, j);
    }
    lemma_column_at(parts, whole, x, n);
}

/// The rows that split an area do not overlap, and every cell of the area that a coordinate can
/// reach lies in one of them.
pub proof fn law_rows_cover_their_area(parts: Seq<Area>, whole: Area, y: int)
    requires
        stacked(parts, whole),
        parts.len() > 0,
        whole.y <= y < whole.y + reach(whole.y, whole.height),
    ensures
        exists|i: int|
            0 <= i < parts.len() && (#[trigger] parts[i]).y <= y < parts[i].y + parts[i].height,
        forall|i: int, j: int|
            0 <= i < j < parts.len() ==> (#[trigger] parts[i]).y + parts[i].height
                <= (#[trigger] parts[j]).y,
{
    let turned = parts.map_values(|part: Area| transposed(part));
    assert(side_by_side(turned, transposed(whole))) by {
        assert(turned.first() == transposed(parts.first()));
        assert(turned.last() == transposed(parts.last()));
    }
    law_tiles_cover_their_row(turned, transposed(whole), y);
    let i = choose|i: int|
        0 <= i < turned.len() && (#[trigger] turned[i]).x <= y < turned[i].x + turned[i].width;
    assert(parts[i].y <= y < parts[i].y + parts[i].height);
    assert forall|i: int, j: int| 0 <= i < j < parts.len() implies (#[trigger] parts[i]).y
        + parts[i].height <= (#[trigger] parts[j]).y by {
        assert(turned[i].x + turned[i].width <= turned[j].x);
    }
}

/// An area with rows and columns exchanged.
spec fn transposed(area: Area) -> Area {
    Area { x: area.y, y: area.x, width: area.height, height: area.width }
}

proof fn lemma_columns_in_order(parts: Seq<Area>, whole: Area, i: int, j: int)
    requires
        side_by_side(parts, whole),
        0 <= i < j < parts.len(),
    ensures
        parts[i].x + parts[i].width <= parts[j].x,
    decreases j - i,
{
    let next = i + 1;
    assert(parts[i].x + parts[i].width == parts[next].x);
    if next < j {
        lemma_columns_in_order(parts, whole, next, j);
    }
}

proof fn lemma_column_at(parts: Seq<Area>, whole: Area, x: int, n: int)
    requires
        side_by_side(parts, whole),
        0 < n <= parts.len(),
        whole.x <= x < parts[n - 1].x + parts[n - 1].width,
    ensures
        exists|i: int| 0 <= i < n && (#[trigger] parts[i]).x <= x < parts[i].x + parts[i].width,
    decreases n,
{
    if x < parts[n - 1].x {
        assert(n > 1) by {
            assert(parts[0] == parts.first());
        }
        assert(parts[n - 2].x + parts[n - 2].width == parts[n - 1].x);
        lemma_column_at(parts, whole, x, n - 1);
        let i = choose|i: int|
            0 <= i < n - 1 && (#[trigger] parts[i]).x <= x < parts[i].x + parts[i].width;
        assert(0 <= i < n && parts[i].x <= x < parts[i].x + parts[i].width);
    } else {
        assert(parts[n - 1].x <= x);
    }
}

/// Each letter moves as its arrow key does.
pub proof fn law_letters_move_as_arrows(focused: (usize, usize), pressed: bool)
    ensures
        key_event_step(focused, Key::Char('k'), pressed) == key_event_step(
            focused,
            Key::Up,
            pressed,
        ),
        key_event_step(focused, Key::Char('j'), pressed) == key_event_step(
            focused,
            Key::Down,
            pressed,
        ),
        key_event_step(focused, Key::Char('h'), pressed) == key_event_step(
            focused,
            Key::Left,
            pressed,
        ),
        key_event_step(focused, Key::Char('l'), pressed) == key_event_step(
            focused,
            Key::Right,
            pressed,
        ),
        key_step(focused, Key::Char('k')) == key_step(focused, Key::Up),
        key_step(focused, Key::Char('j')) == key_step(focused, Key::Down),
        key_step(focused, Key::Char('h')) == key_step(focused, Key::Left),
        key_step(focused, Key::Char('l')) == key_step(focused, Key::Right),
{
}

/// A title gives the row and the column of its tile, so tiles at different places have different
/// titles.
pub proof fn law_titles(row: u32, col: u32, other_row: u32, other_col: u32)
    ensures
        ({
            let title = title_text(row as nat, col as nat);
            let comma: int = 6int + crate::number::decimal(row as nat).len();
            &&& title.take(6) == " Tile "@
            &&& crate::number::parsed_u32(title.subrange(6, comma)) == Some(row)
            &&& title[comma] == ','
            &&& crate::number::parsed_u32(title.subrange(comma + 1, title.len() - 1)) == Some(col)
            &&& title.last() == ' '
        }),
        title_text(row as nat, col as nat) == title_text(other_row as nat, other_col as nat)
            ==> row == other_row && col == other_col,
{
    reveal_strlit(" Tile ");
    reveal_strlit(",");
    reveal_strlit(" ");
    lemma_title(row, col);
    lemma_title(other_row, other_col);
    let title = title_text(row as nat, col as nat);
    if title == title_text(other_row as nat, other_col as nat) {
        let first = crate::number::decimal(row as nat);
        let other = crate::number::decimal(other_row as nat);
        crate::number::law_decimal_digits(row as nat);
        crate::number::law_decimal_digits(other_row as nat);
        if first.len() < other.len() {
            assert(title[6 + first.len() as int] == other[first.len() as int]);
        }
        if other.len() < first.len() {
            assert(title[6 + other.len() as int] == first[other.len() as int]);
        }
    }
}

/// A tile at a place has the title of that place, the area that it was given, and a highlight
/// exactly when the focus is there. So no two tiles of a grid are highlighted.
pub proof fn law_tiles(
    tile: Tile,
    row: int,
    col: int,
    area: Area,
    other: Tile,
    other_row: int,
    other_col: int,
    other_area: Area,
    focused: (usize, usize),
)
    requires
        is_tile_at(tile, row, col, area, focused),
        is_tile_at(other, other_row, other_col, other_area, focused),
    ensures
        tile.area == area,
        tile.title@ == title_text(row as nat, col as nat),
        row == focused.0 && col == focused.1 ==> tile.highlighted,
        row != focused.0 || col != focused.1 ==> !tile.highlighted,
        tile.highlighted && other.highlighted ==> row == other_row && col == other_col,
{
}

/// An area within another holds no cell that the other does not, and an equal share of a length is
/// off by one cell at most.
pub proof fn law_parts_of_an_area(part: Area, whole: Area, x: int, y: int, len: u16, total: u16)
    requires
        lies_within(part, whole),
        part.x <= x < part.x + part.width,
        part.y <= y < part.y + part.height,
    ensures
        whole.x <= x < whole.x + whole.width,
        whole.y <= y < whole.y + whole.height,
        is_share(len, 2, total as int) ==> -1 <= len - total as int / 2 <= 1,
        is_share(len, 3, total as int) ==> -1 <= len - total as int / 3 <= 1,
{
}

proof fn lemma_title(row: u32, col: u32)
    ensures
        ({
            let title = title_text(row as nat, col as nat);
            let comma: int = 6int + crate::number::decimal(row as nat).len();
            &&& title.take(6) == " Tile "@
            &&& title.subrange(6, comma) == crate::number::decimal(row as nat)
            &&& crate::number::parsed_u32(title.subrange(6, comma)) == Some(row)
            &&& title[comma] == ','
            &&& crate::number::parsed_u32(title.subrange(comma + 1, title.len() - 1)) == Some(col)
            &&& title.last() == ' '
        }),
{
    reveal_strlit(" Tile ");
    reveal_strlit(",");
    reveal_strlit(" ");
    crate::number::law_decimal_round_trip(row);
    crate::number::law_decimal_round_trip(col);
    let title = title_text(row as nat, col as nat);
    let first = crate::number::decimal(row as nat);
    let comma: int = 6int + first.len();
    assert(title.take(6) =~= " Tile "@);
    assert(title.subrange(6, comma) =~= first);
    assert(title.subrange(comma + 1, title.len() - 1) =~= crate::number::decimal(col as nat));
}

} // verus!
