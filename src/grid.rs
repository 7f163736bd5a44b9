//! The playing field: a fixed-size grid of optionally filled cells.
use crate::tetromino::Color;
use vstd::prelude::*;

verus! {

/// Columns of the playing field.
pub const BOARD_WIDTH: usize = 10;

/// Rows of the playing field.
pub const BOARD_HEIGHT: usize = 20;

/// The grid, stored row by row; row 0 is the top, column 0 the left.
pub struct Grid {
    cells: Vec<Option<Color>>,
}

impl View for Grid {
    type V = Seq<Option<Color>>;

    /// The cells, row by row.
    closed spec fn view(&self) -> Seq<Option<Color>> {
        self.cells@
    }
}

/// Whether `(x, y)` lies within the grid.
pub open spec fn in_grid(x: int, y: int) -> bool {
    0 <= x < BOARD_WIDTH && 0 <= y < BOARD_HEIGHT
}

/// The cell in column `x`, row `y` of the row-major cells `g`.
pub open spec fn cell_in(g: Seq<Option<Color>>, x: int, y: int) -> Option<Color> {
    g[y * BOARD_WIDTH + x]
}

/// Every cell of row `y` of `g` is filled.
pub open spec fn row_full_in(g: Seq<Option<Color>>, y: int) -> bool {
    forall|x: int| 0 <= x < BOARD_WIDTH ==> #[trigger] cell_in(g, x, y) is Some
}

/// The rows of `g` from `y` down to the bottom that are not full, top to
/// bottom.
pub open spec fn kept_rows_in(g: Seq<Option<Color>>, y: int) -> Seq<int>
    decreases BOARD_HEIGHT - y,
{
    if y < 0 || y >= BOARD_HEIGHT {
        Seq::empty()
    } else if row_full_in(g, y) {
        kept_rows_in(g, y + 1)
    } else {
        seq![y] + kept_rows_in(g, y + 1)
    }
}

/// How many full rows `g` holds.
pub open spec fn full_rows_in(g: Seq<Option<Color>>) -> int {
    BOARD_HEIGHT - kept_rows_in(g, 0).len()
}

/// `after` is `g` with its full rows removed, the other rows moved down in
/// their order, and as many empty rows added at the top.
pub open spec fn cleared(g: Seq<Option<Color>>, after: Seq<Option<Color>>) -> bool {
    let kept = kept_rows_in(g, 0);
    let n = BOARD_HEIGHT - kept.len();
    &&& after.len() == BOARD_WIDTH * BOARD_HEIGHT
    &&& forall|x: int, y: int|
        in_grid(x, y) ==> #[trigger] cell_in(after, x, y) == if y < n {
            None
        } else {
            cell_in(g, x, kept[y - n])
        }
}

/// The kept rows from `y` on lie in `y..BOARD_HEIGHT`, are strictly
/// increasing, and are exactly the rows there that are not full.
pub proof fn lemma_kept_rows_in(g: Seq<Option<Color>>, y: int)
    requires
        0 <= y <= BOARD_HEIGHT,
    ensures
        kept_rows_in(g, y).len() <= BOARD_HEIGHT - y,
        forall|i: int|
            0 <= i < kept_rows_in(g, y).len() ==> y <= #[trigger] kept_rows_in(g, y)[i]
                < BOARD_HEIGHT,
        forall|i: int, j: int|
            0 <= i < j < kept_rows_in(g, y).len() ==> kept_rows_in(g, y)[i]
                < kept_rows_in(g, y)[j],
        forall|r: int|
            y <= r < BOARD_HEIGHT ==> (kept_rows_in(g, y).contains(r) <==> !row_full_in(g, r)),
    decreases BOARD_HEIGHT - y,
{
    if y < BOARD_HEIGHT {
        lemma_kept_rows_in(g, y + 1);
        let k = kept_rows_in(g, y);
        let k1 = kept_rows_in(g, y + 1);
        if !row_full_in(g, y) {
            assert(k =~= seq![y] + k1);
            assert forall|r: int| y <= r < BOARD_HEIGHT implies (k.contains(r)
                <==> !row_full_in(g, r)) by {
                if r == y {
                    assert(k[0] == y);
                } else if k.contains(r) {
                    let i = choose|i: int| 0 <= i < k.len() && k[i] == r;
                    assert(k1[i - 1] == r);
                } else if !row_full_in(g, r) {
                    let i = choose|i: int| 0 <= i < k1.len() && k1[i] == r;
                    assert(k[i + 1] == r);
                }
            }
        }
    }
}


/// Clearing keeps the height, removes a row exactly when it is full, keeps
/// the other rows in their order, and adds only empty rows at the top.
pub proof fn lemma_clear_rows(g: Seq<Option<Color>>, after: Seq<Option<Color>>)
    requires
        g.len() == BOARD_WIDTH * BOARD_HEIGHT,
        cleared(g, after),
    ensures
        after.len() == BOARD_WIDTH * BOARD_HEIGHT,
        forall|r: int|
            0 <= r < BOARD_HEIGHT ==> (kept_rows_in(g, 0).contains(r) <==> !row_full_in(g, r)),
        forall|i: int, j: int|
            0 <= i < j < kept_rows_in(g, 0).len() ==> kept_rows_in(g, 0)[i] < kept_rows_in(g, 0)[j],
        forall|x: int, y: int|
            in_grid(x, y) && y < full_rows_in(g) ==> #[trigger] cell_in(after, x, y) is None,
        forall|x: int, y: int|
            in_grid(x, y) && y >= full_rows_in(g) ==> #[trigger] cell_in(after, x, y) == cell_in(
                g,
                x,
                kept_rows_in(g, 0)[y - full_rows_in(g)],
            ),
{
    lemma_kept_rows_in(g, 0);
}

/// The row-major position of the cell that `e` names.
pub open spec fn cell_order(e: (usize, usize, Color)) -> int {
    e.1 * BOARD_WIDTH + e.0
}

/// The entries of `cells` name cells in strictly increasing row-major
/// order, before position `bound`.
pub open spec fn listed_in_order(cells: Seq<(usize, usize, Color)>, bound: int) -> bool {
    &&& forall|i: int, j: int|
        0 <= i < j < cells.len() ==> cell_order(#[trigger] cells[i]) < cell_order(#[trigger] cells[j])
    &&& forall|i: int| 0 <= i < cells.len() ==> cell_order(#[trigger] cells[i]) < bound
}

/// `e` names a filled cell of `g` and its color.
pub open spec fn listed(g: Seq<Option<Color>>, e: (usize, usize, Color)) -> bool {
    in_grid(e.0 as int, e.1 as int) && cell_in(g, e.0 as int, e.1 as int) == Some(e.2)
}

/// When `row` is the only full row of `g`, the rows kept from `y` on are all
/// the other rows from `y` on, in order.
pub proof fn lemma_kept_rows_one_full(g: Seq<Option<Color>>, row: int, y: int)
    requires
        0 <= row < BOARD_HEIGHT,
        0 <= y <= BOARD_HEIGHT,
        row_full_in(g, row),
        forall|r: int| 0 <= r < BOARD_HEIGHT && r != row ==> !#[trigger] row_full_in(g, r),
    ensures
        kept_rows_in(g, y) == if y <= row {
            Seq::new((BOARD_HEIGHT - y - 1) as nat, |i: int| if y + i < row { y + i } else { y + i + 1 })
        } else {
            Seq::new((BOARD_HEIGHT - y) as nat, |i: int| y + i)
        },
    decreases BOARD_HEIGHT - y,
{
    if y < BOARD_HEIGHT {
        lemma_kept_rows_one_full(g, row, y + 1);
        if y == row {
            assert(kept_rows_in(g, y + 1) =~= Seq::new(
                (BOARD_HEIGHT - y - 1) as nat,
                |i: int| if y + i < row { y + i } else { y + i + 1 },
            ));
        } else if y < row {
            assert(!row_full_in(g, y));
            assert(kept_rows_in(g, y) =~= Seq::new(
                (BOARD_HEIGHT - y - 1) as nat,
                |i: int| if y + i < row { y + i } else { y + i + 1 },
            ));
        } else {
            assert(!row_full_in(g, y));
            assert(kept_rows_in(g, y) =~= Seq::new((BOARD_HEIGHT - y) as nat, |i: int| y + i));
        }
    } else {
        assert(kept_rows_in(g, y) =~= Seq::new((BOARD_HEIGHT - y) as nat, |i: int| y + i));
    }
}

/// The 3 by 5 dot-matrix glyph of decimal digit `d`: one mask per row, top
/// to bottom, where bit `c` marks column `c`.
pub open spec fn glyph_rows(d: int) -> Seq<u8> {
    if d == 0 {
        seq![7u8, 5, 5, 5, 7]
    } else if d == 1 {
        seq![4u8, 6, 4, 4, 4]
    } else if d == 2 {
        seq![7u8, 4, 2, 1, 7]
    } else if d == 3 {
        seq![7u8, 4, 2, 4, 7]
    } else if d == 4 {
        seq![1u8, 1, 7, 2, 2]
    } else if d == 5 {
        seq![7u8, 1, 7, 4, 3]
    } else if d == 6 {
        seq![6u8, 1, 3, 5, 7]
    } else if d == 7 {
        seq![7u8, 4, 2, 2, 2]
    } else if d == 8 {
        seq![2u8, 5, 2, 5, 2]
    } else {
        seq![7u8, 5, 7, 4, 7]
    }
}

/// Whether the glyph of digit `d` marks column `c` of row `r`.
pub open spec fn glyph_cell(d: int, r: int, c: int) -> bool {
    let m = glyph_rows(d)[r];
    if c == 0 {
        m % 2 == 1
    } else if c == 1 {
        (m / 2) % 2 == 1
    } else {
        (m / 4) % 2 == 1
    }
}

/// The row masks of the glyph of digit `d`.
fn glyph(d: u64) -> (rows: [u8; 5])
    requires
        d < 10,
    ensures
        rows@ == glyph_rows(d as int),
{
    let rows: [u8; 5] = match d {
        0 => [7, 5, 5, 5, 7],
        1 => [4, 6, 4, 4, 4],
        2 => [7, 4, 2, 1, 7],
        3 => [7, 4, 2, 4, 7],
        4 => [1, 1, 7, 2, 2],
        5 => [7, 1, 7, 4, 3],
        6 => [6, 1, 3, 5, 7],
        7 => [7, 4, 2, 2, 2],
        8 => [2, 5, 2, 5, 2],
        _ => [7, 5, 7, 4, 7],
    };
    assert(rows@ =~= glyph_rows(d as int));
    rows
}

impl Grid {
    /// The grid holds exactly one entry per cell.
    pub open spec fn wf(&self) -> bool {
        self@.len() == BOARD_WIDTH * BOARD_HEIGHT
    }

    /// The content of the cell in column `x`, row `y`.
    #[verifier::inline]
    pub open spec fn cell(&self, x: int, y: int) -> Option<Color> {
        cell_in(self@, x, y)
    }

    /// Every cell of row `y` is filled.
    #[verifier::inline]
    pub open spec fn row_full(&self, y: int) -> bool {
        row_full_in(self@, y)
    }

    /// Every cell of the grid is empty.
    pub open spec fn all_empty(&self) -> bool {
        forall|x: int, y: int| in_grid(x, y) ==> #[trigger] self.cell(x, y) is None
    }

    /// The rows from `y` down to the bottom that are not full, top to bottom.
    #[verifier::inline]
    pub open spec fn kept_rows(&self, y: int) -> Seq<int> {
        kept_rows_in(self@, y)
    }

    /// How many full rows the grid holds.
    #[verifier::inline]
    pub open spec fn full_row_count(&self) -> int {
        full_rows_in(self@)
    }

    /// `after` is `self` with its full rows removed.
    #[verifier::inline]
    pub open spec fn cleared_into(&self, after: &Grid) -> bool {
        cleared(self@, after@)
    }

    /// An empty grid.
    pub fn empty() -> (g: Grid)
        ensures
            g.wf(),
            g.all_empty(),
    {
        let mut cells: Vec<Option<Color>> = Vec::new();
        let mut i: usize = 0;
        while i < BOARD_WIDTH * BOARD_HEIGHT
            invariant
                i <= BOARD_WIDTH * BOARD_HEIGHT,
                cells@.len() == i,
                forall|j: int| 0 <= j < i ==> #[trigger] cells@[j] is None,
            decreases BOARD_WIDTH * BOARD_HEIGHT - i,
        {
            cells.push(None);
            i = i + 1;
        }
        let g = Grid { cells };
        assert forall|x: int, y: int| in_grid(x, y) implies #[trigger] g.cell(x, y) is None by {
            assert(0 <= y * BOARD_WIDTH + x < BOARD_WIDTH * BOARD_HEIGHT);
        }
        g
    }

    /// The content of the cell in column `x`, row `y`.
    pub fn get(&self, x: usize, y: usize) -> (c: Option<Color>)
        requires
            self.wf(),
            x < BOARD_WIDTH,
            y < BOARD_HEIGHT,
        ensures
            c == self.cell(x as int, y as int),
    {
        self.cells[y * BOARD_WIDTH + x]
    }

    /// Sets the cell in column `x`, row `y` to `c`.
    pub fn set(&mut self, x: usize, y: usize, c: Option<Color>)
        requires
            old(self).wf(),
            x < BOARD_WIDTH,
            y < BOARD_HEIGHT,
        ensures
            final(self).wf(),
            forall|xx: int, yy: int|
                in_grid(xx, yy) ==> #[trigger] final(self).cell(xx, yy) == if xx == x && yy == y {
                    c
                } else {
                    old(self).cell(xx, yy)
                },
    {
        self.cells.set(y * BOARD_WIDTH + x, c);
        proof {
            assert forall|xx: int, yy: int| in_grid(xx, yy) implies #[trigger] self.cell(xx, yy)
                == if xx == x && yy == y {
                c
            } else {
                old(self).cell(xx, yy)
            } by {
                if xx != x || yy != y {
                    assert(yy * BOARD_WIDTH + xx != y * BOARD_WIDTH + x);
                }
            }
        }
    }

    /// Whether every cell of row `y` is filled.
    pub fn is_row_full(&self, y: usize) -> (r: bool)
        requires
            self.wf(),
            y < BOARD_HEIGHT,
        ensures
            r == self.row_full(y as int),
    {
        let mut x: usize = 0;
        while x < BOARD_WIDTH
            invariant
                self.wf(),
                y < BOARD_HEIGHT,
                x <= BOARD_WIDTH,
                forall|xx: int| 0 <= xx < x ==> #[trigger] cell_in(self@, xx, y as int) is Some,
            decreases BOARD_WIDTH - x,
        {
            if self.get(x, y).is_none() {
                return false;
            }
            x = x + 1;
        }
        true
    }

    /// The kept rows from `y` on lie in `y..BOARD_HEIGHT`, are strictly
    /// increasing, and are exactly the rows there that are not full.
    pub proof fn lemma_kept_rows(&self, y: int)
        requires
            0 <= y <= BOARD_HEIGHT,
        ensures
            self.kept_rows(y).len() <= BOARD_HEIGHT - y,
            forall|i: int|
                0 <= i < self.kept_rows(y).len() ==> y <= #[trigger] self.kept_rows(y)[i]
                    < BOARD_HEIGHT,
            forall|i: int, j: int|
                0 <= i < j < self.kept_rows(y).len() ==> self.kept_rows(y)[i]
                    < self.kept_rows(y)[j],
            forall|r: int|
                y <= r < BOARD_HEIGHT ==> (self.kept_rows(y).contains(r) <==> !self.row_full(r)),
    {
        lemma_kept_rows_in(self@, y);
    }

    /// Removes the full rows: the rows that are not full move down in their
    /// order and empty rows fill the top. Returns the grid and the number of
    /// rows removed.
    pub fn clear_full_rows(&self) -> (res: (Grid, usize))
        requires
            self.wf(),
        ensures
            self.cleared_into(&res.0),
            res.1 == self.full_row_count(),
    {
        let mut out = Grid::empty();
        let mut y: usize = BOARD_HEIGHT;
        let mut w: usize = BOARD_HEIGHT;
        proof {
            self.lemma_kept_rows(BOARD_HEIGHT as int);
        }
        while y > 0
            invariant
                self.wf(),
                out.wf(),
                y <= BOARD_HEIGHT,
                w == BOARD_HEIGHT - self.kept_rows(y as int).len(),
                w >= y,
                forall|x: int, yy: int|
                    in_grid(x, yy) && yy < w ==> #[trigger] out.cell(x, yy) is None,
                forall|x: int, yy: int|
                    in_grid(x, yy) && yy >= w ==> #[trigger] out.cell(x, yy) == self.cell(
                        x,
                        self.kept_rows(y as int)[yy - w],
                    ),
            decreases y,
        {
            y = y - 1;
            proof {
                self.lemma_kept_rows(y as int);
            }
            if !self.is_row_full(y) {
                let ghost k1 = self.kept_rows(y + 1);
                let ghost k = self.kept_rows(y as int);
                assert(k =~= seq![y as int] + k1);
                w = w - 1;
                let mut x: usize = 0;
                while x < BOARD_WIDTH
                    invariant
                        self.wf(),
                        out.wf(),
                        x <= BOARD_WIDTH,
                        y < BOARD_HEIGHT,
                        w < BOARD_HEIGHT,
                        w + 1 == BOARD_HEIGHT - k1.len(),
                        k == seq![y as int] + k1,
                        forall|xx: int, yy: int|
                            in_grid(xx, yy) && yy < w ==> #[trigger] out.cell(xx, yy) is None,
                        forall|xx: int| 0 <= xx < x ==> #[trigger] out.cell(xx, w as int) == self.cell(
                            xx,
                            y as int,
                        ),
                        forall|xx: int| x <= xx < BOARD_WIDTH ==> #[trigger] out.cell(xx, w as int) is None,
                        forall|xx: int, yy: int|
                            in_grid(xx, yy) && yy > w ==> #[trigger] out.cell(xx, yy) == self.cell(
                                xx,
                                k1[yy - w - 1],
                            ),
                    decreases BOARD_WIDTH - x,
                {
                    let c = self.get(x, y);
                    out.set(x, w, c);
                    x = x + 1;
                }
                assert forall|xx: int, yy: int| in_grid(xx, yy) && yy >= w implies #[trigger] out.cell(
                    xx,
                    yy,
                ) == self.cell(xx, k[yy - w]) by {
                    if yy > w {
                        assert(k[yy - w] == k1[yy - w - 1]);
                    }
                }
            }
        }
        proof {
            self.lemma_kept_rows(0);
            let kept = self.kept_rows(0);
            let n = BOARD_HEIGHT - kept.len();
            assert forall|x: int, yy: int| in_grid(x, yy) implies #[trigger] cell_in(out@, x, yy) == if yy
                < n {
                None
            } else {
                cell_in(self@, x, kept[yy - n])
            } by {
                assert(out.cell(x, yy) == cell_in(out@, x, yy));
            }
        }
        (out, w)
    }


    /// Draws the glyph of `digit` in the neutral color, in rows 1 to 5 and
    /// columns `x_offset` to `x_offset + 2`; a value above 9 draws nothing.
    pub fn print_digit(&mut self, digit: u64, x_offset: usize)
        requires
            old(self).wf(),
            x_offset + 3 <= BOARD_WIDTH,
        ensures
            final(self).wf(),
            forall|x: int, y: int|
                in_grid(x, y) ==> #[trigger] final(self).cell(x, y) == if digit < 10 && 1 <= y <= 5
                    && x_offset <= x < x_offset + 3 && glyph_cell(
                    digit as int,
                    y - 1,
                    x - x_offset,
                ) {
                    Some(Color::Grey)
                } else {
                    old(self).cell(x, y)
                },
    {
        if digit >= 10 {
            return;
        }
        let rows = glyph(digit);
        let mut r: usize = 0;
        while r < 5
            invariant
                self.wf(),
                r <= 5,
                digit < 10,
                x_offset + 3 <= BOARD_WIDTH,
                rows@ == glyph_rows(digit as int),
                forall|x: int, y: int|
                    in_grid(x, y) ==> #[trigger] self.cell(x, y) == if 1 <= y <= r && x_offset <= x
                        < x_offset + 3 && glyph_cell(digit as int, y - 1, x - x_offset) {
                        Some(Color::Grey)
                    } else {
                        old(self).cell(x, y)
                    },
            decreases 5 - r,
        {
            let m = rows[r];
            let mut c: usize = 0;
            while c < 3
                invariant
                    self.wf(),
                    r < 5,
                    c <= 3,
                    digit < 10,
                    x_offset + 3 <= BOARD_WIDTH,
                    m == glyph_rows(digit as int)[r as int],
                    forall|x: int, y: int|
                        in_grid(x, y) ==> #[trigger] self.cell(x, y) == if (1 <= y <= r || (y == r
                            + 1 && x < x_offset + c)) && x_offset <= x < x_offset + 3 && glyph_cell(
                            digit as int,
                            y - 1,
                            x - x_offset,
                        ) {
                            Some(Color::Grey)
                        } else {
                            old(self).cell(x, y)
                        },
                decreases 3 - c,
            {
                let bit = if c == 0 {
                    m % 2
                } else if c == 1 {
                    (m / 2) % 2
                } else {
                    (m / 4) % 2
                };
                if bit == 1 {
                    self.set(x_offset + c, r + 1, Some(Color::Grey));
                }
                c = c + 1;
            }
            r = r + 1;
        }
    }


    /// Fills with `c` each of `points` that lies within the grid. Returns
    /// whether any of them lies outside.
    pub fn stamp(&mut self, points: &[(i32, i32); 4], c: Color) -> (outside: bool)
        requires
            old(self).wf(),
        ensures
            final(self).wf(),
            forall|x: int, y: int|
                in_grid(x, y) ==> #[trigger] cell_in(final(self)@, x, y) == if exists|k: int|
                    0 <= k < 4 && points[k].0 == x && points[k].1 == y {
                    Some(c)
                } else {
                    cell_in(old(self)@, x, y)
                },
            outside == exists|k: int| 0 <= k < 4 && !in_grid(points[k].0 as int, points[k].1 as int),
    {
        let mut outside = false;
        let mut k: usize = 0;
        while k < 4
            invariant
                self.wf(),
                k <= 4,
                forall|x: int, y: int|
                    in_grid(x, y) ==> #[trigger] cell_in(self@, x, y) == if exists|j: int|
                        0 <= j < k && points[j].0 == x && points[j].1 == y {
                        Some(c)
                    } else {
                        cell_in(old(self)@, x, y)
                    },
                outside == exists|j: int| 0 <= j < k && !in_grid(points[j].0 as int, points[j].1 as int),
            decreases 4 - k,
        {
            let (x, y) = points[k];
            if 0 <= x && x < BOARD_WIDTH as i32 && 0 <= y && y < BOARD_HEIGHT as i32 {
                self.set(x as usize, y as usize, Some(c));
            } else {
                outside = true;
            }
            proof {
                assert forall|xx: int, yy: int| in_grid(xx, yy) implies #[trigger] cell_in(self@, xx, yy)
                    == if exists|j: int| 0 <= j < k + 1 && points[j].0 == xx && points[j].1 == yy {
                    Some(c)
                } else {
                    cell_in(old(self)@, xx, yy)
                } by {
                    if points[k as int].0 == xx && points[k as int].1 == yy {
                        assert(0 <= k < k + 1 && points[k as int].0 == xx && points[k as int].1 == yy);
                    }
                }
            }
            k = k + 1;
        }
        outside
    }


    /// The filled cells, as `(column, row, color)`, row by row.
    pub fn filled_cells(&self) -> (cells: Vec<(usize, usize, Color)>)
        requires
            self.wf(),
        ensures
            forall|i: int| 0 <= i < cells@.len() ==> listed(self@, #[trigger] cells@[i]),
            forall|x: int, y: int|
                in_grid(x, y) && #[trigger] cell_in(self@, x, y) is Some ==> exists|i: int|
                    0 <= i < cells@.len() && cells@[i] == (x as usize, y as usize, cell_in(
                        self@,
                        x,
                        y,
                    ).unwrap()),
            cells@.no_duplicates(),
    {
        let mut cells: Vec<(usize, usize, Color)> = Vec::new();
        let mut y: usize = 0;
        while y < BOARD_HEIGHT
            invariant
                self.wf(),
                y <= BOARD_HEIGHT,
                listed_in_order(cells@, y * BOARD_WIDTH),
                forall|i: int| 0 <= i < cells@.len() ==> listed(self@, #[trigger] cells@[i]),
                forall|xx: int, yy: int|
                    in_grid(xx, yy) && yy < y && #[trigger] cell_in(self@, xx, yy) is Some ==> exists|
                        i: int,
                    |
                        0 <= i < cells@.len() && cells@[i] == (xx as usize, yy as usize, cell_in(
                            self@,
                            xx,
                            yy,
                        ).unwrap()),
            decreases BOARD_HEIGHT - y,
        {
            let mut x: usize = 0;
            while x < BOARD_WIDTH
                invariant
                    self.wf(),
                    y < BOARD_HEIGHT,
                    x <= BOARD_WIDTH,
                    listed_in_order(cells@, y * BOARD_WIDTH + x),
                    forall|i: int| 0 <= i < cells@.len() ==> listed(self@, #[trigger] cells@[i]),
                    forall|xx: int, yy: int|
                        in_grid(xx, yy) && (yy < y || (yy == y && xx < x)) && #[trigger] cell_in(
                            self@,
                            xx,
                            yy,
                        ) is Some ==> exists|i: int|
                            0 <= i < cells@.len() && cells@[i] == (xx as usize, yy as usize, cell_in(
                                self@,
                                xx,
                                yy,
                            ).unwrap()),
                decreases BOARD_WIDTH - x,
            {
                if let Some(c) = self.get(x, y) {
                    let ghost before = cells@;
                    cells.push((x, y, c));
                    proof {
                        assert forall|xx: int, yy: int|
                            in_grid(xx, yy) && (yy < y || (yy == y && xx < x + 1)) && #[trigger] cell_in(
                                self@,
                                xx,
                                yy,
                            ) is Some implies exists|i: int|
                            0 <= i < cells@.len() && cells@[i] == (xx as usize, yy as usize, cell_in(
                                self@,
                                xx,
                                yy,
                            ).unwrap()) by {
                            if yy == y && xx == x {
                                assert(cells@[before.len() as int] == (xx as usize, yy as usize, c));
                            } else {
                                let i = choose|i: int|
                                    0 <= i < before.len() && before[i] == (xx as usize, yy as usize, cell_in(
                                        self@,
                                        xx,
                                        yy,
                                    ).unwrap());
                                assert(cells@[i] == before[i]);
                            }
                        }
                    }
                }
                x = x + 1;
            }
            y = y + 1;
        }
        assert forall|i: int, j: int|
            0 <= i < cells@.len() && 0 <= j < cells@.len() && i != j implies cells@[i] != cells@[j] by {
            if i < j {
                assert(cell_order(cells@[i]) < cell_order(cells@[j]));
            } else {
                assert(cell_order(cells@[j]) < cell_order(cells@[i]));
            }
        }
        cells
    }

}

} // verus!
