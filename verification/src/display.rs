//! The screen: how a sprite changes it, and which cells are lit.

use crate::model::{SCREEN_HEIGHT, SCREEN_WIDTH};
use vstd::prelude::*;

verus! {

/// Whether the sprite row `row` has a pixel in column `k`, counted from the
/// left: the row's most significant bit is column 0.
pub open spec fn sprite_bit(row: u8, k: int) -> bool {
    0 <= k < 8 && (row >> ((7 - k) as u8)) & 1 == 1
}

/// How many columns the screen cell `cell` lies to the right of column `x0`,
/// counted around the screen.
pub open spec fn column_offset(x0: int, cell: int) -> int {
    (cell % (SCREEN_WIDTH as int) - x0) % (SCREEN_WIDTH as int)
}

/// How many rows the screen cell `cell` lies below row `y0`, counted around
/// the screen.
pub open spec fn row_offset(y0: int, cell: int) -> int {
    (cell / (SCREEN_WIDTH as int) - y0) % (SCREEN_HEIGHT as int)
}

/// Whether the sprite, drawn with its top left corner at column `x0` and row
/// `y0`, has a pixel on the screen cell `cell`.
///
/// The sprite wraps around both edges of the screen, so the cell is covered
/// if it lies `dx` columns to the right of the corner and `dy` rows below it,
/// both counted around the screen, and the sprite has a pixel there.
pub open spec fn sprite_covers(sprite: Seq<u8>, x0: int, y0: int, cell: int) -> bool {
    let dx = column_offset(x0, cell);
    let dy = row_offset(y0, cell);
    dy < sprite.len() && sprite_bit(sprite[dy], dx)
}

/// The screen after the sprite was drawn onto `screen`: every cell that the
/// sprite covers is flipped, and no other.
pub open spec fn draw_sprite(screen: Seq<bool>, sprite: Seq<u8>, x0: int, y0: int) -> Seq<bool> {
    Seq::new(screen.len(), |cell: int| screen[cell] != sprite_covers(sprite, x0, y0, cell))
}

/// Whether drawing the sprite onto `screen` turns a lit cell off.
pub open spec fn sprite_collides(screen: Seq<bool>, sprite: Seq<u8>, x0: int, y0: int) -> bool {
    exists|cell: int|
        0 <= cell < screen.len() && screen[cell] && #[trigger] sprite_covers(
            sprite,
            x0,
            y0,
            cell,
        )
}

/// A screen with every cell dark.
pub open spec fn blank_screen(cells: nat) -> Seq<bool> {
    Seq::new(cells, |cell: int| false)
}

/// The screen cell on which the sprite's pixel in column `k` of row `j` falls.
pub open spec fn target_cell(x0: int, y0: int, j: int, k: int) -> int {
    (x0 + k) % (SCREEN_WIDTH as int) + (SCREEN_WIDTH as int) * ((y0 + j) % (SCREEN_HEIGHT as int))
}

/// A screen cell lies `k` columns and `j` rows from the corner exactly if it
/// is the target of the pixel `(j, k)`.
pub proof fn lemma_target_cell(x0: int, y0: int, j: int, k: int, cell: int)
    requires
        0 <= x0,
        0 <= y0,
        0 <= j < SCREEN_HEIGHT,
        0 <= k < SCREEN_WIDTH,
        0 <= cell < SCREEN_WIDTH * SCREEN_HEIGHT,
    ensures
        0 <= target_cell(x0, y0, j, k) < SCREEN_WIDTH * SCREEN_HEIGHT,
        (column_offset(x0, cell) == k && row_offset(y0, cell) == j) <==> cell == target_cell(
            x0,
            y0,
            j,
            k,
        ),
{
}

/// The sprite's pixel in column `k` of row `j` lands `k` columns to the right
/// of the corner and `j` rows below it, both counted around the screen, and
/// on no other cell.
pub proof fn lemma_pixel_lands_wrapped(sprite: Seq<u8>, x0: int, y0: int, j: int, k: int)
    requires
        0 <= x0,
        0 <= y0,
        0 <= j < sprite.len() <= SCREEN_HEIGHT,
        0 <= k < 8,
    ensures
        sprite_covers(sprite, x0, y0, target_cell(x0, y0, j, k)) == sprite_bit(sprite[j], k),
        target_cell(x0, y0, j, k) % (SCREEN_WIDTH as int) == (x0 + k) % (SCREEN_WIDTH as int),
        target_cell(x0, y0, j, k) / (SCREEN_WIDTH as int) == (y0 + j) % (SCREEN_HEIGHT as int),
{
    lemma_target_cell(x0, y0, j, k, target_cell(x0, y0, j, k));
}

/// Drawing the same sprite twice at the same place gives back the screen as
/// it was.
pub proof fn lemma_draw_twice_restores(screen: Seq<bool>, sprite: Seq<u8>, x0: int, y0: int)
    ensures
        draw_sprite(draw_sprite(screen, sprite, x0, y0), sprite, x0, y0) == screen,
{
}

/// The second of two draws of a sprite at the same place collides exactly if
/// the first one lit a cell, that is, if the sprite covers a cell that was
/// dark before the first.
pub proof fn lemma_second_draw_collides(screen: Seq<bool>, sprite: Seq<u8>, x0: int, y0: int)
    ensures
        sprite_collides(draw_sprite(screen, sprite, x0, y0), sprite, x0, y0) <==> exists|
            cell: int,
        |
            0 <= cell < screen.len() && !screen[cell] && #[trigger] sprite_covers(
                sprite,
                x0,
                y0,
                cell,
            ),
{
    let drawn = draw_sprite(screen, sprite, x0, y0);
    if sprite_collides(drawn, sprite, x0, y0) {
        let hit = choose|cell: int|
            0 <= cell < drawn.len() && drawn[cell] && #[trigger] sprite_covers(
                sprite,
                x0,
                y0,
                cell,
            );
        assert(!screen[hit] && sprite_covers(sprite, x0, y0, hit));
    }
    if exists|cell: int|
        0 <= cell < screen.len() && !screen[cell] && #[trigger] sprite_covers(
            sprite,
            x0,
            y0,
            cell,
        ) {
        let hit = choose|cell: int|
            0 <= cell < screen.len() && !screen[cell] && #[trigger] sprite_covers(
                sprite,
                x0,
                y0,
                cell,
            );
        assert(drawn[hit] && sprite_covers(sprite, x0, y0, hit));
    }
}

/// On a blank screen a draw lights exactly the cells that the sprite covers
/// and does not collide; and where the sprite has a pixel at all, drawing it
/// a second time at the same place collides and leaves the screen blank
/// again.
pub proof fn lemma_draw_on_blank(cells: nat, sprite: Seq<u8>, x0: int, y0: int, j: int, k: int)
    requires
        cells == SCREEN_WIDTH * SCREEN_HEIGHT,
        0 <= x0,
        0 <= y0,
        0 <= j < sprite.len() <= SCREEN_HEIGHT,
        0 <= k < 8,
        sprite_bit(sprite[j], k),
    ensures
        !sprite_collides(blank_screen(cells), sprite, x0, y0),
        forall|cell: int|
            0 <= cell < cells ==> draw_sprite(blank_screen(cells), sprite, x0, y0)[cell]
                == sprite_covers(sprite, x0, y0, cell),
        sprite_collides(draw_sprite(blank_screen(cells), sprite, x0, y0), sprite, x0, y0),
        draw_sprite(draw_sprite(blank_screen(cells), sprite, x0, y0), sprite, x0, y0)
            == blank_screen(cells),
{
    let blank = blank_screen(cells);
    lemma_draw_twice_restores(blank, sprite, x0, y0);
    lemma_second_draw_collides(blank, sprite, x0, y0);
    lemma_pixel_lands_wrapped(sprite, x0, y0, j, k);
    lemma_target_cell(x0, y0, j, k, 0);
    let target = target_cell(x0, y0, j, k);
    assert(0 <= target < blank.len() && !blank[target] && sprite_covers(sprite, x0, y0, target));
}

/// Whether the sprite covers `cell` with one of the pixels that come before
/// column `cols` of row `rows`, going through the sprite row after row.
pub(crate) open spec fn covers_before(
    sprite: Seq<u8>,
    x0: int,
    y0: int,
    rows: int,
    cols: int,
    cell: int,
) -> bool {
    let dx = column_offset(x0, cell);
    let dy = row_offset(y0, cell);
    sprite_covers(sprite, x0, y0, cell) && (dy < rows || (dy == rows && dx < cols))
}

/// The screen after the pixels of the sprite that come before column `cols`
/// of row `rows` were drawn onto `screen`.
pub(crate) open spec fn drawn_before(
    screen: Seq<bool>,
    sprite: Seq<u8>,
    x0: int,
    y0: int,
    rows: int,
    cols: int,
) -> Seq<bool> {
    Seq::new(
        screen.len(),
        |cell: int| screen[cell] != covers_before(sprite, x0, y0, rows, cols, cell),
    )
}

/// Whether one of the sprite's pixels before column `cols` of row `rows`
/// lies on a lit cell of `screen`.
pub(crate) open spec fn collides_before(
    screen: Seq<bool>,
    sprite: Seq<u8>,
    x0: int,
    y0: int,
    rows: int,
    cols: int,
) -> bool {
    exists|cell: int|
        0 <= cell < screen.len() && screen[cell] && #[trigger] covers_before(
            sprite,
            x0,
            y0,
            rows,
            cols,
            cell,
        )
}

/// Two ways of cutting the sprite that cover the same cells collide with the
/// same screens.
proof fn lemma_collides_before_equal(
    screen: Seq<bool>,
    sprite: Seq<u8>,
    x0: int,
    y0: int,
    rows_a: int,
    cols_a: int,
    rows_b: int,
    cols_b: int,
)
    requires
        forall|cell: int|
            0 <= cell < screen.len() ==> covers_before(sprite, x0, y0, rows_a, cols_a, cell)
                == covers_before(sprite, x0, y0, rows_b, cols_b, cell),
    ensures
        collides_before(screen, sprite, x0, y0, rows_a, cols_a) == collides_before(
            screen,
            sprite,
            x0,
            y0,
            rows_b,
            cols_b,
        ),
{
    if collides_before(screen, sprite, x0, y0, rows_a, cols_a) {
        let hit = choose|cell: int|
            0 <= cell < screen.len() && screen[cell] && #[trigger] covers_before(
                sprite,
                x0,
                y0,
                rows_a,
                cols_a,
                cell,
            );
        assert(covers_before(sprite, x0, y0, rows_b, cols_b, hit));
    }
    if collides_before(screen, sprite, x0, y0, rows_b, cols_b) {
        let hit = choose|cell: int|
            0 <= cell < screen.len() && screen[cell] && #[trigger] covers_before(
                sprite,
                x0,
                y0,
                rows_b,
                cols_b,
                cell,
            );
        assert(covers_before(sprite, x0, y0, rows_a, cols_a, hit));
    }
}

/// The test of a sprite row against the mask of column `k` finds the pixel of
/// that column.
pub(crate) proof fn lemma_sprite_bit_mask(row: u8, k: u8)
    requires
        k < 8,
    ensures
        (row & (0x80u8 >> k) != 0) == sprite_bit(row, k as int),
{
    let up: u8 = (7 - k) as u8;
    assert((row & (0x80u8 >> k) != 0) == ((row >> up) & 1 == 1)) by (bit_vector)
        requires
            k < 8,
            up == 7 - k,
    ;
}

/// Before the first pixel, nothing is drawn and nothing collides.
pub(crate) proof fn lemma_draw_starts(screen: Seq<bool>, sprite: Seq<u8>, x0: int, y0: int)
    ensures
        drawn_before(screen, sprite, x0, y0, 0, 0) == screen,
        !collides_before(screen, sprite, x0, y0, 0, 0),
{
}

/// Drawing the pixel in column `k` of row `j`: if the sprite has a pixel
/// there, the cell it falls on is flipped, and the draw collides if that cell
/// was lit; the cell is as it was before the draw, since no earlier pixel
/// fell on it. If the sprite has no pixel there, nothing changes.
pub(crate) proof fn lemma_draw_pixel(
    screen: Seq<bool>,
    sprite: Seq<u8>,
    x0: int,
    y0: int,
    j: int,
    k: int,
)
    requires
        screen.len() == SCREEN_WIDTH * SCREEN_HEIGHT,
        0 <= x0,
        0 <= y0,
        0 <= j < sprite.len() <= SCREEN_HEIGHT,
        0 <= k < 8,
    ensures
        0 <= target_cell(x0, y0, j, k) < screen.len(),
        drawn_before(screen, sprite, x0, y0, j, k)[target_cell(x0, y0, j, k)] == screen[target_cell(
            x0,
            y0,
            j,
            k,
        )],
        drawn_before(screen, sprite, x0, y0, j, k + 1) == if sprite_bit(sprite[j], k) {
            drawn_before(screen, sprite, x0, y0, j, k).update(
                target_cell(x0, y0, j, k),
                !screen[target_cell(x0, y0, j, k)],
            )
        } else {
            drawn_before(screen, sprite, x0, y0, j, k)
        },
        collides_before(screen, sprite, x0, y0, j, k + 1) == (collides_before(
            screen,
            sprite,
            x0,
            y0,
            j,
            k,
        ) || (sprite_bit(sprite[j], k) && screen[target_cell(x0, y0, j, k)])),
{
    let target = target_cell(x0, y0, j, k);
    let lit = sprite_bit(sprite[j], k);
    lemma_target_cell(x0, y0, j, k, target);
    assert forall|cell: int| 0 <= cell < screen.len() implies covers_before(
        sprite,
        x0,
        y0,
        j,
        k + 1,
        cell,
    ) == (covers_before(sprite, x0, y0, j, k, cell) || (cell == target && lit)) by {
        lemma_target_cell(x0, y0, j, k, cell);
    }
    assert(!covers_before(sprite, x0, y0, j, k, target));
    assert(drawn_before(screen, sprite, x0, y0, j, k + 1) =~= if lit {
        drawn_before(screen, sprite, x0, y0, j, k).update(target, !screen[target])
    } else {
        drawn_before(screen, sprite, x0, y0, j, k)
    });
    if collides_before(screen, sprite, x0, y0, j, k + 1) {
        let hit = choose|cell: int|
            0 <= cell < screen.len() && screen[cell] && #[trigger] covers_before(
                sprite,
                x0,
                y0,
                j,
                k + 1,
                cell,
            );
        if hit != target {
            assert(covers_before(sprite, x0, y0, j, k, hit));
        }
    }
    if collides_before(screen, sprite, x0, y0, j, k) {
        let hit = choose|cell: int|
            0 <= cell < screen.len() && screen[cell] && #[trigger] covers_before(
                sprite,
                x0,
                y0,
                j,
                k,
                cell,
            );
        assert(covers_before(sprite, x0, y0, j, k + 1, hit));
    }
    if lit && screen[target] {
        assert(covers_before(sprite, x0, y0, j, k + 1, target));
    }
}

/// After the last pixel of a row comes the first of the next.
pub(crate) proof fn lemma_draw_next_row(screen: Seq<bool>, sprite: Seq<u8>, x0: int, y0: int, j: int)
    ensures
        drawn_before(screen, sprite, x0, y0, j, 8) == drawn_before(screen, sprite, x0, y0, j + 1, 0),
        collides_before(screen, sprite, x0, y0, j, 8) == collides_before(
            screen,
            sprite,
            x0,
            y0,
            j + 1,
            0,
        ),
{
    assert(drawn_before(screen, sprite, x0, y0, j, 8) =~= drawn_before(
        screen,
        sprite,
        x0,
        y0,
        j + 1,
        0,
    ));
    lemma_collides_before_equal(screen, sprite, x0, y0, j, 8, j + 1, 0);
}

/// After the last row, the whole sprite is drawn.
pub(crate) proof fn lemma_draw_ends(screen: Seq<bool>, sprite: Seq<u8>, x0: int, y0: int)
    ensures
        drawn_before(screen, sprite, x0, y0, sprite.len() as int, 0) == draw_sprite(
            screen,
            sprite,
            x0,
            y0,
        ),
        collides_before(screen, sprite, x0, y0, sprite.len() as int, 0) == sprite_collides(
            screen,
            sprite,
            x0,
            y0,
        ),
{
    let rows = sprite.len() as int;
    assert(drawn_before(screen, sprite, x0, y0, rows, 0) =~= draw_sprite(screen, sprite, x0, y0));
    if collides_before(screen, sprite, x0, y0, rows, 0) {
        let hit = choose|cell: int|
            0 <= cell < screen.len() && screen[cell] && #[trigger] covers_before(
                sprite,
                x0,
                y0,
                rows,
                0,
                cell,
            );
        assert(sprite_covers(sprite, x0, y0, hit));
    }
    if sprite_collides(screen, sprite, x0, y0) {
        let hit = choose|cell: int|
            0 <= cell < screen.len() && screen[cell] && #[trigger] sprite_covers(
                sprite,
                x0,
                y0,
                cell,
            );
        assert(covers_before(sprite, x0, y0, rows, 0, hit));
    }
}

/// Row and column of the screen cell `cell`.
pub open spec fn cell_coordinates(cell: int) -> (usize, usize) {
    ((cell / (SCREEN_WIDTH as int)) as usize, (cell % (SCREEN_WIDTH as int)) as usize)
}

/// The test whether a cell of `screen` is lit.
pub open spec fn is_lit(screen: Seq<bool>) -> spec_fn(int) -> bool {
    |cell: int| screen[cell]
}

/// The function that gives a cell's row and column.
pub open spec fn to_coordinates() -> spec_fn(int) -> (usize, usize) {
    |cell: int| cell_coordinates(cell)
}

/// The lit cells among the first `n` of `screen`, in ascending order.
pub open spec fn lit_cells_below(screen: Seq<bool>, n: nat) -> Seq<int> {
    Seq::new(n, |cell: int| cell).filter(is_lit(screen))
}

/// The lit cells of `screen`, in ascending order.
pub open spec fn lit_cells(screen: Seq<bool>) -> Seq<int> {
    lit_cells_below(screen, screen.len())
}

/// Row and column of every lit cell of `screen`, row after row and from left
/// to right within a row.
pub open spec fn lit_coordinates(screen: Seq<bool>) -> Seq<(usize, usize)> {
    lit_cells(screen).map_values(to_coordinates())
}

/// Going one cell further adds that cell to the lit cells if it is lit.
pub(crate) proof fn lemma_lit_cells_next(screen: Seq<bool>, n: nat)
    ensures
        lit_cells_below(screen, n + 1) == if screen[n as int] {
            lit_cells_below(screen, n).push(n as int)
        } else {
            lit_cells_below(screen, n)
        },
        lit_cells_below(screen, n + 1).map_values(to_coordinates()) == if screen[n as int] {
            lit_cells_below(screen, n).map_values(to_coordinates()).push(cell_coordinates(n as int))
        } else {
            lit_cells_below(screen, n).map_values(to_coordinates())
        },
{
    let cells = Seq::new(n, |cell: int| cell);
    assert(Seq::new(n + 1, |cell: int| cell) =~= cells.push(n as int));
    cells.lemma_filter_push(n as int, is_lit(screen));
    lit_cells_below(screen, n).lemma_push_map_commute(to_coordinates(), n as int);
}

/// The lit cells among the first `n` are cells below `n` that are lit, in
/// strictly ascending order, and every lit cell below `n` is among them.
pub proof fn lemma_lit_cells_below(screen: Seq<bool>, n: nat)
    requires
        n <= screen.len(),
    ensures
        forall|i: int|
            0 <= i < lit_cells_below(screen, n).len() ==> {
                &&& 0 <= #[trigger] lit_cells_below(screen, n)[i] < n
                &&& screen[lit_cells_below(screen, n)[i]]
            },
        forall|i: int, j: int|
            0 <= i < j < lit_cells_below(screen, n).len() ==> lit_cells_below(screen, n)[i]
                < lit_cells_below(screen, n)[j],
        forall|cell: int|
            0 <= cell < n && screen[cell] ==> lit_cells_below(screen, n).contains(cell),
    decreases n,
{
    if n == 0 {
        assert(lit_cells_below(screen, 0) =~= Seq::empty()) by {
            reveal(Seq::filter);
        }
    } else {
        let smaller = lit_cells_below(screen, (n - 1) as nat);
        lemma_lit_cells_below(screen, (n - 1) as nat);
        lemma_lit_cells_next(screen, (n - 1) as nat);
        let cells = lit_cells_below(screen, n);
        assert forall|cell: int| 0 <= cell < n && screen[cell] implies cells.contains(cell) by {
            if cell < n - 1 {
                let i = choose|i: int| 0 <= i < smaller.len() && smaller[i] == cell;
                assert(cells[i] == cell);
            } else {
                assert(cells[cells.len() - 1] == cell);
            }
        }
    }
}

/// Whether the cell at the coordinates `a` comes before the one at `b` when
/// the screen is read row by row from the top, and each row from the left.
pub open spec fn reads_before(a: (usize, usize), b: (usize, usize)) -> bool {
    a.0 < b.0 || (a.0 == b.0 && a.1 < b.1)
}

/// The list of lit coordinates names cells of the screen that are lit, row
/// by row from the top and from left to right within a row, and it names
/// every lit cell.
pub proof fn lemma_lit_coordinates(screen: Seq<bool>)
    requires
        screen.len() == SCREEN_WIDTH * SCREEN_HEIGHT,
    ensures
        forall|i: int|
            0 <= i < lit_coordinates(screen).len() ==> {
                let (row, column) = #[trigger] lit_coordinates(screen)[i];
                &&& row < SCREEN_HEIGHT
                &&& column < SCREEN_WIDTH
                &&& screen[row * SCREEN_WIDTH + column]
            },
        forall|i: int, j: int|
            0 <= i < j < lit_coordinates(screen).len() ==> reads_before(
                #[trigger] lit_coordinates(screen)[i],
                #[trigger] lit_coordinates(screen)[j],
            ),
        forall|cell: int|
            0 <= cell < screen.len() && screen[cell] ==> lit_coordinates(screen).contains(
                #[trigger] cell_coordinates(cell),
            ),
{
    let cells = lit_cells(screen);
    let coordinates = lit_coordinates(screen);
    lemma_lit_cells_below(screen, screen.len());
    assert forall|i: int| 0 <= i < coordinates.len() implies {
        let (row, column) = #[trigger] coordinates[i];
        &&& row < SCREEN_HEIGHT
        &&& column < SCREEN_WIDTH
        &&& screen[row * SCREEN_WIDTH + column]
    } by {
        let cell = cells[i];
        assert(coordinates[i] == cell_coordinates(cell));
    }
    assert forall|i: int, j: int| 0 <= i < j < coordinates.len() implies reads_before(
        #[trigger] coordinates[i],
        #[trigger] coordinates[j],
    ) by {
        assert(cells[i] < cells[j]);
        assert(coordinates[i] == cell_coordinates(cells[i]));
        assert(coordinates[j] == cell_coordinates(cells[j]));
    }
    assert forall|cell: int| 0 <= cell < screen.len() && screen[cell] implies coordinates.contains(
        #[trigger] cell_coordinates(cell),
    ) by {
        assert(cells.contains(cell));
        let i = choose|i: int| 0 <= i < cells.len() && cells[i] == cell;
        assert(coordinates[i] == cell_coordinates(cell));
    }
}

/// The character that shows a cell in a text picture of the screen.
pub open spec fn cell_char(lit: bool) -> char {
    if lit {
        '0'
    } else {
        ' '
    }
}

/// The first `n` characters of the text picture of `screen`: each row of the
/// screen is a line of [`SCREEN_WIDTH`] characters, `0` for a lit cell and a
/// blank for a dark one, and ends with a line feed.
pub open spec fn screen_text_prefix(screen: Seq<bool>, n: nat) -> Seq<char> {
    Seq::new(
        n,
        |i: int|
            if i % (SCREEN_WIDTH + 1) == SCREEN_WIDTH as int {
                '\n'
            } else {
                cell_char(screen[(i / (SCREEN_WIDTH + 1)) * SCREEN_WIDTH + i % (SCREEN_WIDTH + 1)])
            },
    )
}

/// The text picture of `screen`: its [`SCREEN_HEIGHT`] rows, one per line.
pub open spec fn screen_text(screen: Seq<bool>) -> Seq<char> {
    screen_text_prefix(screen, ((SCREEN_WIDTH + 1) * SCREEN_HEIGHT) as nat)
}

/// Adding the character for the cell in column `column` of row `row`, or the
/// line feed that ends the row where `column` is the width of the screen,
/// makes the text picture one character longer.
pub(crate) proof fn lemma_screen_text_next(screen: Seq<bool>, row: int, column: int)
    requires
        0 <= row,
        0 <= column <= SCREEN_WIDTH,
    ensures
        screen_text_prefix(screen, (row * (SCREEN_WIDTH + 1) + column + 1) as nat)
            == screen_text_prefix(screen, (row * (SCREEN_WIDTH + 1) + column) as nat).push(
            if column == SCREEN_WIDTH {
                '\n'
            } else {
                cell_char(screen[row * SCREEN_WIDTH + column])
            },
        ),
{
    let n = row * (SCREEN_WIDTH + 1) + column;
    assert(n / (SCREEN_WIDTH + 1) == row && n % (SCREEN_WIDTH + 1) == column) by {
        vstd::arithmetic::div_mod::lemma_fundamental_div_mod_converse(
            n,
            SCREEN_WIDTH + 1,
            row,
            column,
        );
    }
    assert(screen_text_prefix(screen, (n + 1) as nat) =~= screen_text_prefix(
        screen,
        n as nat,
    ).push(
        if column == SCREEN_WIDTH {
            '\n'
        } else {
            cell_char(screen[row * SCREEN_WIDTH + column])
        },
    ));
}

} // verus!
