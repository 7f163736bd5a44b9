//! The falling piece: a shape at a position and rotation on the grid.
use crate::grid::{in_grid, Grid, BOARD_HEIGHT, BOARD_WIDTH};
use crate::tetromino::{Color, Rotation, Tetromino};
use vstd::prelude::*;

verus! {

/// Column of the frame's left edge when a piece enters the grid.
pub const SPAWN_X: i32 = 3;

/// Row of the frame's top edge when a piece enters the grid; rows above the
/// grid are negative.
pub const SPAWN_Y: i32 = -2;

/// A movement of the piece, tried against the grid.
#[derive(Clone, Copy, Debug, PartialEq, Eq, Structural)]
pub enum Shift {
    MoveLeft,
    MoveRight,
    MoveDown,
    RotateLeft,
    RotateRight,
}

/// A shape in play: the frame's top-left corner at `(x, y)`, in a rotation.
#[derive(Clone, Copy, Debug)]
pub struct ActiveTetromino {
    shape: Tetromino,
    x: i32,
    y: i32,
    rotation: Rotation,
}

/// Whether cell `k` of shape `t` in rotation `r`, with the frame at
/// `(x, y)`, may be occupied: within the columns, not below the bottom row,
/// and either above the grid or on an empty cell.
pub open spec fn cell_free(g: Grid, t: Tetromino, x: int, y: int, r: nat, k: int) -> bool {
    let cx = x + t.offset(r, k).0;
    let cy = y + t.offset(r, k).1;
    &&& 0 <= cx < BOARD_WIDTH
    &&& cy < BOARD_HEIGHT
    &&& (cy < 0 || g.cell(cx, cy) is None)
}

/// Whether shape `t` in rotation `r`, with the frame at `(x, y)`, fits.
pub open spec fn fits(g: Grid, t: Tetromino, x: int, y: int, r: nat) -> bool {
    forall|k: int| 0 <= k < 4 ==> #[trigger] cell_free(g, t, x, y, r, k)
}

impl ActiveTetromino {
    /// The shape of the piece.
    pub closed spec fn shape_spec(&self) -> Tetromino {
        self.shape
    }

    /// Column of the frame's left edge.
    pub closed spec fn x_spec(&self) -> int {
        self.x as int
    }

    /// Row of the frame's top edge.
    pub closed spec fn y_spec(&self) -> int {
        self.y as int
    }

    /// The rotation of the piece.
    pub closed spec fn rotation_spec(&self) -> Rotation {
        self.rotation
    }

    /// The shape is well formed and the frame lies near the grid.
    pub open spec fn wf(&self) -> bool {
        &&& self.shape_spec().wf()
        &&& -4 <= self.x_spec() <= BOARD_WIDTH
        &&& -4 <= self.y_spec() <= BOARD_HEIGHT
    }

    /// The grid cell covered by cell `k` of the piece.
    pub open spec fn cell(&self, k: int) -> (int, int) {
        let o = self.shape_spec().offset(self.rotation_spec().index(), k);
        (self.x_spec() + o.0, self.y_spec() + o.1)
    }

    /// Whether the piece would fit at `(x, y)` in rotation `r`.
    pub open spec fn fits_at(&self, g: Grid, x: int, y: int, r: nat) -> bool {
        fits(g, self.shape_spec(), x, y, r)
    }

    /// The piece moved to `(x, y)` in rotation `r`, its shape unchanged.
    pub open spec fn placed(&self, other: &ActiveTetromino, x: int, y: int, r: nat) -> bool {
        &&& other.shape_spec() == self.shape_spec()
        &&& other.x_spec() == x
        &&& other.y_spec() == y
        &&& other.rotation_spec().index() == r
    }

    /// The piece moved to `(x, y)` in rotation `r` if it fits there, and
    /// unchanged otherwise.
    pub closed spec fn attempt(&self, g: Grid, x: int, y: int, r: Rotation) -> ActiveTetromino {
        if self.fits_at(g, x, y, r.index()) {
            ActiveTetromino { x: x as i32, y: y as i32, rotation: r, ..*self }
        } else {
            *self
        }
    }

    /// An attempt moves the piece to `(x, y)` in rotation `r` when it fits
    /// there, and leaves it unchanged otherwise.
    pub proof fn lemma_attempt(&self, g: Grid, x: int, y: int, r: Rotation)
        requires
            -8 <= x <= BOARD_WIDTH + 8,
            -8 <= y <= BOARD_HEIGHT + 8,
        ensures
            self.fits_at(g, x, y, r.index()) ==> self.placed(&self.attempt(g, x, y, r), x, y, r.index())
                && self.attempt(g, x, y, r).rotation_spec() == r,
            !self.fits_at(g, x, y, r.index()) ==> self.attempt(g, x, y, r) == *self,
    {
    }

    /// The piece after one attempt of `s`.
    pub open spec fn shifted(&self, g: Grid, s: Shift) -> ActiveTetromino {
        let x = self.x_spec();
        let y = self.y_spec();
        let r = self.rotation_spec();
        match s {
            Shift::MoveLeft => self.attempt(g, x - 1, y, r),
            Shift::MoveRight => self.attempt(g, x + 1, y, r),
            Shift::MoveDown => self.attempt(g, x, y + 1, r),
            Shift::RotateLeft => self.attempt(g, x, y, Rotation::from_index(r.index() + 3)),
            Shift::RotateRight => self.attempt(g, x, y, Rotation::from_index(r.index() + 1)),
        }
    }

    /// The piece after `n` attempts of `s` in a row.
    pub open spec fn shifted_times(&self, g: Grid, s: Shift, n: nat) -> ActiveTetromino
        decreases n,
    {
        if n == 0 {
            *self
        } else {
            self.shifted(g, s).shifted_times(g, s, (n - 1) as nat)
        }
    }

    /// `other` is the piece moved straight down by zero or more rows.
    pub open spec fn fell_to(&self, other: ActiveTetromino) -> bool {
        &&& other.y_spec() >= self.y_spec()
        &&& self.placed(&other, self.x_spec(), other.y_spec(), self.rotation_spec().index())
    }

    /// `other` is the piece moved straight down row by row, each row
    /// fitting, until the next row down does not: a piece that already
    /// rests stays where it is.
    pub open spec fn dropped_to(&self, g: Grid, other: ActiveTetromino) -> bool {
        let r = self.rotation_spec().index();
        &&& self.fell_to(other)
        &&& forall|y: int|
            self.y_spec() < y <= other.y_spec() ==> #[trigger] self.fits_at(g, self.x_spec(), y, r)
        &&& !self.fits_at(g, self.x_spec(), other.y_spec() + 1, r)
    }

    /// `self` is a new piece of shape `t` at the spawn position, unrotated.
    pub open spec fn is_spawn_of(&self, t: Tetromino) -> bool {
        &&& self.shape_spec() == t
        &&& self.x_spec() == SPAWN_X
        &&& self.y_spec() == SPAWN_Y
        &&& self.rotation_spec() == Rotation::R0
    }

    /// The piece fits where it is.
    pub open spec fn fits_now(&self, g: Grid) -> bool {
        self.fits_at(g, self.x_spec(), self.y_spec(), self.rotation_spec().index())
    }

    /// A new piece of `shape` at the spawn position, unrotated.
    pub closed spec fn spawned(shape: Tetromino) -> ActiveTetromino {
        ActiveTetromino { shape, x: SPAWN_X, y: SPAWN_Y, rotation: Rotation::R0 }
    }

    /// A new piece of `shape` at the spawn position, unrotated.
    pub fn new(shape: Tetromino) -> (a: ActiveTetromino)
        requires
            shape.wf(),
        ensures
            a.wf(),
            a.shape_spec() == shape,
            a.x_spec() == SPAWN_X,
            a.y_spec() == SPAWN_Y,
            a.rotation_spec() == Rotation::R0,
            a == ActiveTetromino::spawned(shape),
            a.is_spawn_of(shape),
    {
        ActiveTetromino { shape, x: SPAWN_X, y: SPAWN_Y, rotation: Rotation::R0 }
    }

    /// The color of the piece.
    pub fn get_color(&self) -> (c: Color)
        ensures
            c == self.shape_spec().color_spec(),
    {
        self.shape.get_color()
    }

    /// The four grid cells the piece covers, as `(column, row)`.
    pub fn as_points(&self) -> (p: [(i32, i32); 4])
        requires
            self.wf(),
        ensures
            forall|k: int| 0 <= k < 4 ==> (#[trigger] p[k]).0 == self.cell(k).0 && p[k].1 == self.cell(k).1,
    {
        let pts = self.shape.points(self.rotation);
        let mut out: [(i32, i32); 4] = [(0, 0); 4];
        let mut k: usize = 0;
        while k < 4
            invariant
                self.wf(),
                k <= 4,
                forall|j: int| 0 <= j < 4 ==> #[trigger] pts[j] == self.shape_spec().offset(
                    self.rotation_spec().index(),
                    j,
                ),
                forall|j: int| 0 <= j < k ==> (#[trigger] out[j]).0 == self.cell(j).0 && out[j].1 == self.cell(j).1,
            decreases 4 - k,
        {
            let (ox, oy) = pts[k];
            assert(ox < 4 && oy < 4) by {
                assert(self.shape_spec().offset(self.rotation_spec().index(), k as int).0 < 4);
            }
            out[k] = (self.x + ox as i32, self.y + oy as i32);
            k = k + 1;
        }
        out
    }

    /// Whether the piece fits where it is.
    pub fn fits_here(&self, board: &Grid) -> (ok: bool)
        requires
            board.wf(),
            self.wf(),
        ensures
            ok == self.fits_now(*board),
    {
        self.fits_exec(board, self.x, self.y, self.rotation)
    }

    /// Whether the piece fits with the frame at `(x, y)` in `rotation`.
    fn fits_exec(&self, board: &Grid, x: i32, y: i32, rotation: Rotation) -> (ok: bool)
        requires
            board.wf(),
            self.wf(),
            -8 <= x <= BOARD_WIDTH + 8,
            -8 <= y <= BOARD_HEIGHT + 8,
        ensures
            ok == self.fits_at(*board, x as int, y as int, rotation.index()),
    {
        let pts = self.shape.points(rotation);
        let mut k: usize = 0;
        while k < 4
            invariant
                board.wf(),
                self.wf(),
                k <= 4,
                -8 <= x <= BOARD_WIDTH + 8,
                -8 <= y <= BOARD_HEIGHT + 8,
                forall|j: int| 0 <= j < 4 ==> #[trigger] pts[j] == self.shape_spec().offset(
                    rotation.index(),
                    j,
                ),
                forall|j: int|
                    0 <= j < k ==> #[trigger] cell_free(
                        *board,
                        self.shape_spec(),
                        x as int,
                        y as int,
                        rotation.index(),
                        j,
                    ),
            decreases 4 - k,
        {
            let (ox, oy) = pts[k];
            assert(ox < 4 && oy < 4) by {
                assert(self.shape_spec().offset(rotation.index(), k as int).0 < 4);
            }
            let cx = x + ox as i32;
            let cy = y + oy as i32;
            if cx < 0 || cx >= BOARD_WIDTH as i32 || cy >= BOARD_HEIGHT as i32 {
                assert(!cell_free(*board, self.shape_spec(), x as int, y as int, rotation.index(), k as int));
                return false;
            }
            if cy >= 0 && board.get(cx as usize, cy as usize).is_some() {
                assert(!cell_free(*board, self.shape_spec(), x as int, y as int, rotation.index(), k as int));
                return false;
            }
            k = k + 1;
        }
        true
    }

    /// Moves the piece to `(x, y)` in `rotation` if it fits there.
    fn try_place(&mut self, board: &Grid, x: i32, y: i32, rotation: Rotation) -> (moved: bool)
        requires
            board.wf(),
            old(self).wf(),
            -8 <= x <= BOARD_WIDTH + 8,
            -8 <= y <= BOARD_HEIGHT + 8,
            y >= old(self).y_spec(),
        ensures
            moved == old(self).fits_at(*board, x as int, y as int, rotation.index()),
            *final(self) == old(self).attempt(*board, x as int, y as int, rotation),
            moved ==> old(self).placed(final(self), x as int, y as int, rotation.index()),
            !moved ==> *final(self) == *old(self),
            final(self).wf(),
    {
        if self.fits_exec(board, x, y, rotation) {
            proof {
                let t = self.shape_spec();
                let r = rotation.index();
                assert(cell_free(*board, t, x as int, y as int, r, 0));
            }
            self.x = x;
            self.y = y;
            self.rotation = rotation;
            true
        } else {
            false
        }
    }

    /// Moves the piece one column left if it fits there.
    pub fn try_move_left(&mut self, board: &Grid) -> (moved: bool)
        requires
            board.wf(),
            old(self).wf(),
        ensures
            moved == old(self).fits_at(
                *board,
                old(self).x_spec() - 1,
                old(self).y_spec(),
                old(self).rotation_spec().index(),
            ),
            moved ==> old(self).placed(
                final(self),
                old(self).x_spec() - 1,
                old(self).y_spec(),
                old(self).rotation_spec().index(),
            ),
            *final(self) == old(self).shifted(*board, Shift::MoveLeft),
            !moved ==> *final(self) == *old(self),
            final(self).wf(),
    {
        self.try_place(board, self.x - 1, self.y, self.rotation)
    }

    /// Moves the piece one column right if it fits there.
    pub fn try_move_right(&mut self, board: &Grid) -> (moved: bool)
        requires
            board.wf(),
            old(self).wf(),
        ensures
            moved == old(self).fits_at(
                *board,
                old(self).x_spec() + 1,
                old(self).y_spec(),
                old(self).rotation_spec().index(),
            ),
            moved ==> old(self).placed(
                final(self),
                old(self).x_spec() + 1,
                old(self).y_spec(),
                old(self).rotation_spec().index(),
            ),
            *final(self) == old(self).shifted(*board, Shift::MoveRight),
            !moved ==> *final(self) == *old(self),
            final(self).wf(),
    {
        self.try_place(board, self.x + 1, self.y, self.rotation)
    }

    /// Moves the piece one row down if it fits there.
    pub fn try_move_down(&mut self, board: &Grid) -> (moved: bool)
        requires
            board.wf(),
            old(self).wf(),
        ensures
            moved == old(self).fits_at(
                *board,
                old(self).x_spec(),
                old(self).y_spec() + 1,
                old(self).rotation_spec().index(),
            ),
            moved ==> old(self).placed(
                final(self),
                old(self).x_spec(),
                old(self).y_spec() + 1,
                old(self).rotation_spec().index(),
            ),
            *final(self) == old(self).shifted(*board, Shift::MoveDown),
            !moved ==> *final(self) == *old(self),
            final(self).wf(),
    {
        self.try_place(board, self.x, self.y + 1, self.rotation)
    }

    /// Turns the piece to the previous rotation if it fits that way; no
    /// other position is tried.
    pub fn try_rotate_left(&mut self, board: &Grid) -> (moved: bool)
        requires
            board.wf(),
            old(self).wf(),
        ensures
            moved == old(self).fits_at(
                *board,
                old(self).x_spec(),
                old(self).y_spec(),
                (old(self).rotation_spec().index() + 3) % 4,
            ),
            moved ==> old(self).placed(
                final(self),
                old(self).x_spec(),
                old(self).y_spec(),
                (old(self).rotation_spec().index() + 3) % 4,
            ),
            *final(self) == old(self).shifted(*board, Shift::RotateLeft),
            !moved ==> *final(self) == *old(self),
            final(self).wf(),
    {
        let r = self.rotation.decrease();
        self.try_place(board, self.x, self.y, r)
    }

    /// Turns the piece to the next rotation if it fits that way; no other
    /// position is tried.
    pub fn try_rotate_right(&mut self, board: &Grid) -> (moved: bool)
        requires
            board.wf(),
            old(self).wf(),
        ensures
            moved == old(self).fits_at(
                *board,
                old(self).x_spec(),
                old(self).y_spec(),
                (old(self).rotation_spec().index() + 1) % 4,
            ),
            moved ==> old(self).placed(
                final(self),
                old(self).x_spec(),
                old(self).y_spec(),
                (old(self).rotation_spec().index() + 1) % 4,
            ),
            *final(self) == old(self).shifted(*board, Shift::RotateRight),
            !moved ==> *final(self) == *old(self),
            final(self).wf(),
    {
        let r = self.rotation.increase();
        self.try_place(board, self.x, self.y, r)
    }

    /// Attempts `s` once.
    pub fn try_shift(&mut self, board: &Grid, s: Shift) -> (moved: bool)
        requires
            board.wf(),
            old(self).wf(),
        ensures
            *final(self) == old(self).shifted(*board, s),
            final(self).wf(),
            old(self).fits_now(*board) ==> final(self).fits_now(*board),
    {
        match s {
            Shift::MoveLeft => self.try_move_left(board),
            Shift::MoveRight => self.try_move_right(board),
            Shift::MoveDown => self.try_move_down(board),
            Shift::RotateLeft => self.try_rotate_left(board),
            Shift::RotateRight => self.try_rotate_right(board),
        }
    }

    /// Attempts `s` `n` times in a row.
    pub fn try_shift_times(&mut self, board: &Grid, s: Shift, n: u32)
        requires
            board.wf(),
            old(self).wf(),
        ensures
            *final(self) == old(self).shifted_times(*board, s, n as nat),
            final(self).wf(),
            old(self).fits_now(*board) ==> final(self).fits_now(*board),
    {
        let mut i: u32 = 0;
        while i < n
            invariant
                board.wf(),
                self.wf(),
                i <= n,
                old(self).fits_now(*board) ==> self.fits_now(*board),
                old(self).shifted_times(*board, s, n as nat) == self.shifted_times(
                    *board,
                    s,
                    (n - i) as nat,
                ),
            decreases n - i,
        {
            self.try_shift(board, s);
            i = i + 1;
        }
    }

    /// Lets the piece fall as far as it fits; returns how many rows it fell.
    pub fn drop_fully(&mut self, board: &Grid) -> (rows: usize)
        requires
            board.wf(),
            old(self).wf(),
        ensures
            final(self).wf(),
            old(self).dropped_to(*board, *final(self)),
            old(self).fits_now(*board) ==> final(self).fits_now(*board),
            old(self).placed(
                final(self),
                old(self).x_spec(),
                old(self).y_spec() + rows,
                old(self).rotation_spec().index(),
            ),
            !final(self).fits_at(
                *board,
                final(self).x_spec(),
                final(self).y_spec() + 1,
                final(self).rotation_spec().index(),
            ),
    {
        let mut rows: usize = 0;
        loop
            invariant
                board.wf(),
                self.wf(),
                old(self).placed(
                    self,
                    old(self).x_spec(),
                    old(self).y_spec() + rows,
                    old(self).rotation_spec().index(),
                ),
                old(self).wf(),
                rows <= BOARD_HEIGHT + 4,
                forall|y: int|
                    old(self).y_spec() < y <= self.y_spec() ==> #[trigger] old(self).fits_at(
                        *board,
                        old(self).x_spec(),
                        y,
                        old(self).rotation_spec().index(),
                    ),
            ensures
                forall|y: int|
                    old(self).y_spec() < y <= self.y_spec() ==> #[trigger] old(self).fits_at(
                        *board,
                        old(self).x_spec(),
                        y,
                        old(self).rotation_spec().index(),
                    ),
                self.wf(),
                old(self).placed(
                    self,
                    old(self).x_spec(),
                    old(self).y_spec() + rows,
                    old(self).rotation_spec().index(),
                ),
                !self.fits_at(*board, self.x_spec(), self.y_spec() + 1, self.rotation_spec().index()),
            decreases BOARD_HEIGHT - self.y_spec(),
        {
            if !self.try_move_down(board) {
                break;
            }
            rows = rows + 1;
        }
        proof {
            if self.y_spec() > old(self).y_spec() {
                assert(old(self).fits_at(
                    *board,
                    old(self).x_spec(),
                    self.y_spec(),
                    old(self).rotation_spec().index(),
                ));
            }
        }
        rows
    }

}

/// A piece that rests on the bottom row, or on a filled cell right below one
/// of its cells, does not fit one row lower: `try_move_down` returns false
/// and leaves it where it was.
pub proof fn lemma_resting_piece_cannot_fall(piece: ActiveTetromino, board: Grid, k: int)
    requires
        board.wf(),
        piece.wf(),
        0 <= k < 4,
        piece.cell(k).1 + 1 == BOARD_HEIGHT || (in_grid(piece.cell(k).0, piece.cell(k).1 + 1)
            && board.cell(piece.cell(k).0, piece.cell(k).1 + 1) is Some),
    ensures
        !piece.fits_at(
            board,
            piece.x_spec(),
            piece.y_spec() + 1,
            piece.rotation_spec().index(),
        ),
{
    assert(!cell_free(
        board,
        piece.shape_spec(),
        piece.x_spec(),
        piece.y_spec() + 1,
        piece.rotation_spec().index(),
        k,
    ));
}

/// A rotation whose candidate cell `k` lies outside the columns, below the
/// bottom row, or on a filled cell does not fit: `try_rotate_left` and
/// `try_rotate_right` toward it return false and leave the rotation as it was.
pub proof fn lemma_blocked_rotation(piece: ActiveTetromino, board: Grid, r: nat, k: int)
    requires
        board.wf(),
        piece.wf(),
        r < 4,
        0 <= k < 4,
        ({
            let cx = piece.x_spec() + piece.shape_spec().offset(r, k).0;
            let cy = piece.y_spec() + piece.shape_spec().offset(r, k).1;
            !(0 <= cx < BOARD_WIDTH) || cy >= BOARD_HEIGHT || (cy >= 0 && board.cell(cx, cy) is Some)
        }),
    ensures
        !piece.fits_at(board, piece.x_spec(), piece.y_spec(), r),
{
    assert(!cell_free(board, piece.shape_spec(), piece.x_spec(), piece.y_spec(), r, k));
}

} // verus!
