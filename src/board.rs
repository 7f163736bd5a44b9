//! One player's board: the grid, the falling piece, the preview, the bag,
//! the debounced keys, gravity and the line count.
//!
//! Time is counted in microseconds and the gravity factor in millionths, so
//! the gravity accumulator counts microseconds times millionths.
use crate::active::{cell_free, ActiveTetromino, Shift};
use crate::grid::{
    cell_in, cleared, full_rows_in, glyph_cell, in_grid, kept_rows_in, lemma_kept_rows_one_full, listed,
    row_full_in, Grid, BOARD_HEIGHT, BOARD_WIDTH,
};
use crate::keys::{after_tick, Control, ControlState, KeyState};
use crate::tetris::{stacked, Tetris};
use crate::tetromino::{catalog, draw_step, lemma_unrotated_frame, Color, Rotation, Tetromino, TetrominoBag, SHAPE_COUNT};
use vstd::prelude::*;

verus! {

/// The accumulated gravity at which the piece takes one step down: 0.35
/// seconds at factor 1.
pub const GRAVITY_THRESHOLD: u128 = 350_000_000_000;

/// The gravity factor of a new session: 0.5.
pub const BASE_GRAVITY_FACTOR: u64 = 500_000;

/// The ceiling of the gravity factor; far beyond the point where every
/// update takes a step.
pub const MAX_GRAVITY_FACTOR: u64 = 1_000_000_000_000_000;

/// Extra time fed to gravity on each update while dropping: 0.12 seconds.
pub const DROP_BOOST: u64 = 120_000;

/// Locks between two speed-ups.
pub const LOCKS_PER_SPEEDUP: u32 = 10;

/// Where a board stands.
#[derive(Clone, Copy, Debug, PartialEq, Eq, Structural)]
pub enum GameState {
    Playing,
    Dropping,
    Defeated,
}

/// The gravity factor after one speed-up: 11/10 of it, rounded down to a
/// millionth, unless that passes the ceiling.
pub open spec fn ramped(f: int) -> int {
    if f * 11 / 10 <= MAX_GRAVITY_FACTOR {
        f * 11 / 10
    } else {
        f
    }
}

/// `a + b`, or the largest `u64` if that does not fit.
pub open spec fn saturating_sum(a: int, b: int) -> int {
    if a + b <= u64::MAX {
        a + b
    } else {
        u64::MAX as int
    }
}

/// The piece covers the cell `(x, y)`.
pub open spec fn covers(p: ActiveTetromino, x: int, y: int) -> bool {
    exists|k: int| 0 <= k < 4 && p.cell(k).0 == x && p.cell(k).1 == y
}

/// Some cell of the piece lies outside the grid.
pub open spec fn overflows(p: ActiveTetromino) -> bool {
    exists|k: int| 0 <= k < 4 && !in_grid(p.cell(k).0, p.cell(k).1)
}

/// `after` is `g` with the cells that the piece covers filled with its color.
pub open spec fn stamped(g: Seq<Option<Color>>, p: ActiveTetromino, after: Seq<Option<Color>>) -> bool {
    &&& after.len() == g.len()
    &&& forall|x: int, y: int|
        in_grid(x, y) ==> #[trigger] cell_in(after, x, y) == if covers(p, x, y) {
            Some(p.shape_spec().color_spec())
        } else {
            cell_in(g, x, y)
        }
}

/// Whether digit `d` drawn at column `off` marks the cell `(x, y)`.
pub open spec fn digit_mark(d: int, off: int, x: int, y: int) -> bool {
    0 <= d < 10 && 1 <= y <= 5 && off <= x < off + 3 && glyph_cell(d, y - 1, x - off)
}

/// `g` shows `lines` as two digits in the neutral color on an empty grid:
/// the ones from column 5, the tens from column 1 (no tens digit from 100).
pub open spec fn result_shown(g: Seq<Option<Color>>, lines: int) -> bool {
    &&& g.len() == crate::grid::BOARD_WIDTH * BOARD_HEIGHT
    &&& forall|x: int, y: int|
        in_grid(x, y) ==> #[trigger] cell_in(g, x, y) == if digit_mark(lines % 10, 5, x, y)
            || digit_mark(lines / 10, 1, x, y) {
            Some(Color::Grey)
        } else {
            None
        }
}

/// The movement that the key of `c` replays.
pub open spec fn shift_of(c: Control) -> Shift {
    match c {
        Control::RotateRight => Shift::RotateRight,
        Control::RotateLeft => Shift::RotateLeft,
        Control::MoveLeft => Shift::MoveLeft,
        Control::MoveRight => Shift::MoveRight,
    }
}

/// The movement that the key of `c` replays.
fn shift_for(c: Control) -> (s: Shift)
    ensures
        s == shift_of(c),
{
    match c {
        Control::RotateRight => Shift::RotateRight,
        Control::RotateLeft => Shift::RotateLeft,
        Control::MoveLeft => Shift::MoveLeft,
        Control::MoveRight => Shift::MoveRight,
    }
}

/// What a renderer needs of one board.
pub struct BoardSnapshot {
    /// The settled cells, as `(column, row, color)`.
    pub filled: Vec<(usize, usize, Color)>,
    /// The cells of the falling piece, as `(column, row)`; none once the
    /// board is defeated.
    pub active: Vec<(i32, i32)>,
    /// The color of the falling piece.
    pub active_color: Color,
    /// The cells of the previewed shape within its frame, unrotated.
    pub next: Vec<(usize, usize)>,
    /// The color of the previewed shape.
    pub next_color: Color,
    /// The board's horizontal place on screen, in cells.
    pub column_offset: usize,
    /// Rows cleared since the session began.
    pub line_count: u64,
    /// Where the board stands.
    pub state: GameState,
}

/// One player's board.
pub struct Board {
    initial_stack_size: usize,
    gravity_accumulator: u128,
    gravity_factor: u64,
    tetromino_count: u32,
    line_count: u64,
    active_tetromino: ActiveTetromino,
    next_shape: usize,
    board: Grid,
    state: GameState,
    control_state: ControlState,
    bag: TetrominoBag,
}

impl Board {
    /// The grid of settled cells.
    pub closed spec fn spec_grid(&self) -> Grid {
        self.board
    }

    /// The falling piece.
    pub closed spec fn spec_active(&self) -> ActiveTetromino {
        self.active_tetromino
    }

    /// The catalog index of the previewed shape.
    pub closed spec fn spec_next_shape(&self) -> usize {
        self.next_shape
    }

    /// The randomizer.
    pub closed spec fn spec_bag(&self) -> TetrominoBag {
        self.bag
    }

    /// The debounced keys.
    pub closed spec fn spec_controls(&self) -> ControlState {
        self.control_state
    }

    /// Where the board stands.
    pub closed spec fn spec_state(&self) -> GameState {
        self.state
    }

    /// Rows cleared since the session began.
    pub closed spec fn spec_line_count(&self) -> int {
        self.line_count as int
    }

    /// The gravity factor, in millionths.
    pub closed spec fn spec_gravity_factor(&self) -> int {
        self.gravity_factor as int
    }

    /// Locks since the last speed-up.
    pub closed spec fn spec_lock_count(&self) -> int {
        self.tetromino_count as int
    }

    /// The gravity accumulated since the last step.
    pub closed spec fn spec_accumulator(&self) -> int {
        self.gravity_accumulator as int
    }

    /// The number of random rows a new session starts with.
    pub closed spec fn spec_stack_size(&self) -> int {
        self.initial_stack_size as int
    }

    /// `a` agrees with `b` on the preview, the bag, the counters, the
    /// gravity factor and the stack size.
    pub open spec fn same_progress(b: Board, a: Board) -> bool {
        &&& a.spec_next_shape() == b.spec_next_shape()
        &&& a.spec_bag() == b.spec_bag()
        &&& a.spec_line_count() == b.spec_line_count()
        &&& a.spec_gravity_factor() == b.spec_gravity_factor()
        &&& a.spec_lock_count() == b.spec_lock_count()
        &&& a.spec_stack_size() == b.spec_stack_size()
    }

    /// `a` is `b` with the grid `g`, the piece `p`, the state `s` and the
    /// keys `k`, and nothing else changed.
    pub open spec fn is_with(
        b: Board,
        a: Board,
        g: Grid,
        p: ActiveTetromino,
        s: GameState,
        k: ControlState,
    ) -> bool {
        &&& a.spec_grid() == g
        &&& a.spec_active() == p
        &&& a.spec_state() == s
        &&& a.spec_controls() == k
        &&& a.spec_accumulator() == b.spec_accumulator()
        &&& Board::same_progress(b, a)
    }

    /// The board's invariant.
    pub open spec fn wf(&self) -> bool {
        &&& self.spec_grid().wf()
        &&& self.spec_active().wf()
        &&& self.spec_next_shape() < SHAPE_COUNT
        &&& self.spec_bag().wf()
        &&& 0 <= self.spec_lock_count() < LOCKS_PER_SPEEDUP
        &&& BASE_GRAVITY_FACTOR <= self.spec_gravity_factor() <= MAX_GRAVITY_FACTOR
        &&& 0 <= self.spec_accumulator() < GRAVITY_THRESHOLD
        &&& 0 <= self.spec_stack_size() < BOARD_HEIGHT
        &&& self.spec_state() != GameState::Defeated ==> self.spec_active().fits_now(self.spec_grid())
    }

    /// `b` is a new session with a stack of `stack` random rows: nothing
    /// cleared, base gravity, and the piece and preview dealt as the first
    /// two draws of a fresh bag.
    pub open spec fn fresh(b: Board, stack: int) -> bool {
        &&& b.spec_state() == GameState::Playing
        &&& b.spec_accumulator() == 0
        &&& b.spec_lock_count() == 0
        &&& b.spec_line_count() == 0
        &&& b.spec_gravity_factor() == BASE_GRAVITY_FACTOR
        &&& b.spec_stack_size() == stack
        &&& stacked(b.spec_grid()@, stack)
        &&& exists|first: usize, mid: Seq<usize>|
            #![trigger draw_step(Seq::empty(), mid, first)]
            draw_step(Seq::empty(), mid, first) && draw_step(mid, b.spec_bag()@, b.spec_next_shape())
                && b.spec_active().is_spawn_of(catalog(first as int))
    }

    /// A new session: the stack size is clamped to `BOARD_HEIGHT - 1`.
    pub fn new(initial_stack_size: usize) -> (b: Board)
        ensures
            b.wf(),
            Board::fresh(
                b,
                if initial_stack_size < BOARD_HEIGHT {
                    initial_stack_size as int
                } else {
                    BOARD_HEIGHT - 1
                },
            ),
            b.spec_controls().all_idle(),
    {
        let stack_size = if initial_stack_size < BOARD_HEIGHT {
            initial_stack_size
        } else {
            BOARD_HEIGHT - 1
        };
        let mut bag = TetrominoBag::new();
        let ghost empty = bag@;
        let first = bag.next();
        let ghost mid = bag@;
        let next_shape = bag.next();
        let b = Board {
            initial_stack_size: stack_size,
            gravity_accumulator: 0,
            gravity_factor: BASE_GRAVITY_FACTOR,
            tetromino_count: 0,
            line_count: 0,
            active_tetromino: ActiveTetromino::new(Tetromino::shape(first)),
            next_shape,
            board: Tetris::create_board(stack_size),
            state: GameState::Playing,
            control_state: ControlState::new(),
            bag,
        };
        assert(empty =~= Seq::<usize>::empty());
        assert(draw_step(Seq::empty(), mid, first));
        proof {
            lemma_spawn_fits(b.board, stack_size as int, b.active_tetromino, first as int);
        }
        b
    }

    /// A board in play with the settled cells `grid` and the falling piece
    /// `active`, nothing cleared, base gravity, and the preview drawn from a
    /// fresh bag; starting over gives `initial_stack_size` random rows.
    pub fn from_position(grid: Grid, active: ActiveTetromino, initial_stack_size: usize) -> (b: Board)
        requires
            grid.wf(),
            active.wf(),
            active.fits_now(grid),
            initial_stack_size < BOARD_HEIGHT,
        ensures
            b.wf(),
            b.spec_grid() == grid,
            b.spec_active() == active,
            b.spec_state() == GameState::Playing,
            b.spec_line_count() == 0,
            b.spec_gravity_factor() == BASE_GRAVITY_FACTOR,
            b.spec_lock_count() == 0,
            b.spec_accumulator() == 0,
            b.spec_stack_size() == initial_stack_size,
            b.spec_controls().all_idle(),
            draw_step(Seq::empty(), b.spec_bag()@, b.spec_next_shape()),
    {
        let mut bag = TetrominoBag::new();
        let ghost empty = bag@;
        let next_shape = bag.next();
        assert(empty =~= Seq::<usize>::empty());
        Board {
            initial_stack_size,
            gravity_accumulator: 0,
            gravity_factor: BASE_GRAVITY_FACTOR,
            tetromino_count: 0,
            line_count: 0,
            active_tetromino: active,
            next_shape,
            board: grid,
            state: GameState::Playing,
            control_state: ControlState::new(),
            bag,
        }
    }

    /// Starts a new session with the same stack size; the keys are kept.
    pub fn play_again(&mut self)
        requires
            old(self).wf(),
        ensures
            final(self).wf(),
            Board::fresh(*final(self), old(self).spec_stack_size()),
            final(self).spec_controls() == old(self).spec_controls(),
    {
        self.state = GameState::Playing;
        self.gravity_accumulator = 0;
        self.tetromino_count = 0;
        self.line_count = 0;
        self.gravity_factor = BASE_GRAVITY_FACTOR;
        self.board = Tetris::create_board(self.initial_stack_size);
        self.bag.clear();
        let ghost empty = self.bag@;
        let first = self.bag.next();
        let ghost mid = self.bag@;
        self.active_tetromino = ActiveTetromino::new(Tetromino::shape(first));
        self.next_shape = self.bag.next();
        assert(draw_step(Seq::empty(), mid, first));
        proof {
            lemma_spawn_fits(
                self.board,
                self.initial_stack_size as int,
                self.active_tetromino,
                first as int,
            );
        }
    }


    /// `a` is `b` after its piece locks: its cells are written into the
    /// grid; if one lies outside, the board is defeated; otherwise the full
    /// rows are cleared and counted, the previewed shape enters, a new one
    /// is drawn, and every tenth lock speeds gravity up.
    pub open spec fn locked(b: Board, a: Board) -> bool {
        let p = b.spec_active();
        exists|s: Seq<Option<Color>>|
            #![trigger stamped(b.spec_grid()@, p, s)]
            stamped(b.spec_grid()@, p, s) && if overflows(p) {
                &&& a.spec_grid()@ == s
                &&& a.spec_state() == GameState::Defeated
                &&& a.spec_active() == p
                &&& a.spec_controls() == b.spec_controls()
                &&& Board::same_progress(b, a)
            } else {
                &&& cleared(s, a.spec_grid()@)
                &&& a.spec_line_count() == saturating_sum(b.spec_line_count(), full_rows_in(s))
                &&& a.spec_active().is_spawn_of(catalog(b.spec_next_shape() as int))
                &&& a.spec_state() == if a.spec_active().fits_now(a.spec_grid()) {
                    GameState::Playing
                } else {
                    GameState::Defeated
                }
                &&& draw_step(b.spec_bag()@, a.spec_bag()@, a.spec_next_shape())
                &&& if b.spec_lock_count() + 1 >= LOCKS_PER_SPEEDUP {
                    a.spec_lock_count() == 0 && a.spec_gravity_factor() == ramped(
                        b.spec_gravity_factor(),
                    )
                } else {
                    a.spec_lock_count() == b.spec_lock_count() + 1 && a.spec_gravity_factor()
                        == b.spec_gravity_factor()
                }
                &&& a.spec_stack_size() == b.spec_stack_size()
                &&& a.spec_controls() == b.spec_controls()
            }
    }

    /// `a` is `b` after gravity is fed `amount` microseconds: the
    /// accumulator grows by `amount` times the factor; once it reaches the
    /// threshold it restarts from zero and the piece takes one step down,
    /// or locks if it cannot.
    pub open spec fn gravity_result(b: Board, a: Board, amount: int) -> bool {
        let acc = b.spec_accumulator() + amount * b.spec_gravity_factor();
        let p = b.spec_active();
        if acc < GRAVITY_THRESHOLD {
            &&& a.spec_accumulator() == acc
            &&& a.spec_grid() == b.spec_grid()
            &&& a.spec_active() == p
            &&& a.spec_state() == b.spec_state()
            &&& a.spec_controls() == b.spec_controls()
            &&& Board::same_progress(b, a)
        } else if p.fits_at(b.spec_grid(), p.x_spec(), p.y_spec() + 1, p.rotation_spec().index()) {
            &&& a.spec_accumulator() == 0
            &&& a.spec_grid() == b.spec_grid()
            &&& a.spec_active() == p.shifted(b.spec_grid(), Shift::MoveDown)
            &&& a.spec_state() == b.spec_state()
            &&& a.spec_controls() == b.spec_controls()
            &&& Board::same_progress(b, a)
        } else {
            a.spec_accumulator() == 0 && Board::locked(b, a)
        }
    }

    /// Locks the piece into the grid.
    fn lock(&mut self)
        requires
            old(self).wf(),
        ensures
            final(self).wf(),
            Board::locked(*old(self), *final(self)),
            final(self).spec_accumulator() == old(self).spec_accumulator(),
    {
        let ghost p = self.active_tetromino;
        let pts = self.active_tetromino.as_points();
        let color = self.active_tetromino.get_color();
        let outside = self.board.stamp(&pts, color);
        let ghost s = self.board@;
        proof {
            assert forall|x: int, y: int| in_grid(x, y) implies #[trigger] cell_in(s, x, y) == if covers(
                p,
                x,
                y,
            ) {
                Some(p.shape_spec().color_spec())
            } else {
                cell_in(old(self).board@, x, y)
            } by {
                if covers(p, x, y) {
                    let k = choose|k: int| 0 <= k < 4 && p.cell(k).0 == x && p.cell(k).1 == y;
                    assert(0 <= k < 4 && pts[k].0 == x && pts[k].1 == y);
                }
                if exists|k: int| 0 <= k < 4 && pts[k].0 == x && pts[k].1 == y {
                    let k = choose|k: int| 0 <= k < 4 && pts[k].0 == x && pts[k].1 == y;
                    assert(0 <= k < 4 && p.cell(k).0 == x && p.cell(k).1 == y);
                }
            }
            assert(stamped(old(self).board@, p, s));
            if outside {
                let k = choose|k: int| 0 <= k < 4 && !in_grid(pts[k].0 as int, pts[k].1 as int);
                assert(0 <= k < 4 && !in_grid(p.cell(k).0, p.cell(k).1));
            }
            if overflows(p) {
                let k = choose|k: int| 0 <= k < 4 && !in_grid(p.cell(k).0, p.cell(k).1);
                assert(0 <= k < 4 && !in_grid(pts[k].0 as int, pts[k].1 as int));
            }
        }
        if outside {
            self.state = GameState::Defeated;
            return;
        }
        let (cleared_grid, full) = self.board.clear_full_rows();
        self.board = cleared_grid;
        self.line_count = self.line_count.saturating_add(full as u64);
        self.active_tetromino = ActiveTetromino::new(Tetromino::shape(self.next_shape));
        // A piece that cannot enter the grid ends the session.
        self.state = if self.active_tetromino.fits_here(&self.board) {
            GameState::Playing
        } else {
            GameState::Defeated
        };
        self.next_shape = self.bag.next();
        self.tetromino_count = self.tetromino_count + 1;
        if self.tetromino_count >= LOCKS_PER_SPEEDUP {
            self.tetromino_count = 0;
            let sped_up = self.gravity_factor * 11 / 10;
            if sped_up <= MAX_GRAVITY_FACTOR {
                self.gravity_factor = sped_up;
            }
        }
    }

    /// Feeds `amount` microseconds to gravity.
    pub fn gravity(&mut self, amount: u64)
        requires
            old(self).wf(),
        ensures
            final(self).wf(),
            Board::gravity_result(*old(self), *final(self), amount as int),
    {
        let factor = self.gravity_factor;
        assert(amount as int * factor as int <= u64::MAX as int * MAX_GRAVITY_FACTOR as int) by (nonlinear_arith)
            requires
                amount <= u64::MAX,
                factor <= MAX_GRAVITY_FACTOR,
        ;
        let added: u128 = amount as u128 * factor as u128;
        self.gravity_accumulator = self.gravity_accumulator + added;
        if self.gravity_accumulator >= GRAVITY_THRESHOLD {
            self.gravity_accumulator = 0;
            if !self.active_tetromino.try_move_down(&self.board) {
                self.lock();
            }
        }
    }


    /// Replaces the grid of a defeated board with the line count drawn as
    /// digits; everything else is kept.
    pub fn show_result(&mut self)
        requires
            old(self).wf(),
            old(self).spec_state() == GameState::Defeated,
        ensures
            final(self).wf(),
            result_shown(final(self).spec_grid()@, old(self).spec_line_count()),
            Board::is_with(
                *old(self),
                *final(self),
                final(self).spec_grid(),
                old(self).spec_active(),
                old(self).spec_state(),
                old(self).spec_controls(),
            ),
    {
        let mut g = Grid::empty();
        let ones = self.line_count % 10;
        g.print_digit(ones, 5);
        g.print_digit(self.line_count / 10, 1);
        self.board = g;
    }

    /// `a` is `b` after the key of `c` is served at a tick: if its action
    /// is due, it is attempted as many times as the key was pressed, and the
    /// key then sees the tick.
    pub open spec fn served_control(b: Board, a: Board, c: Control) -> bool {
        let k = b.spec_controls().key(c);
        if k.press_count > 0 {
            Board::is_with(
                b,
                a,
                b.spec_grid(),
                b.spec_active().shifted_times(b.spec_grid(), shift_of(c), k.press_count as nat),
                b.spec_state(),
                b.spec_controls().with_key(c, after_tick(k)),
            )
        } else {
            Board::is_with(b, a, b.spec_grid(), b.spec_active(), b.spec_state(), b.spec_controls())
        }
    }

    /// `a` is `b` after a tick serves its keys in turn: rotate right,
    /// rotate left, move left, move right.
    pub open spec fn served(b: Board, a: Board) -> bool {
        exists|b1: Board, b2: Board, b3: Board|
            #![trigger Board::served_control(b, b1, Control::RotateRight), Board::served_control(b1, b2, Control::RotateLeft), Board::served_control(b2, b3, Control::MoveLeft)]
            Board::served_control(b, b1, Control::RotateRight) && Board::served_control(
                b1,
                b2,
                Control::RotateLeft,
            ) && Board::served_control(b2, b3, Control::MoveLeft) && Board::served_control(
                b3,
                a,
                Control::MoveRight,
            )
    }

    /// Serves the key of `c` at a tick.
    fn serve_control(&mut self, c: Control)
        requires
            old(self).wf(),
        ensures
            final(self).wf(),
            Board::served_control(*old(self), *final(self), c),
    {
        let k: KeyState = self.control_state.get(c);
        if k.is_active() {
            self.active_tetromino.try_shift_times(&self.board, shift_for(c), k.press_count);
            self.control_state.tick(c);
        }
    }

    /// Serves all four keys at a tick.
    pub fn process_controls(&mut self)
        requires
            old(self).wf(),
        ensures
            final(self).wf(),
            Board::served(*old(self), *final(self)),
    {
        self.serve_control(Control::RotateRight);
        let ghost b1 = *self;
        self.serve_control(Control::RotateLeft);
        let ghost b2 = *self;
        self.serve_control(Control::MoveLeft);
        let ghost b3 = *self;
        self.serve_control(Control::MoveRight);
        assert(Board::served_control(*old(self), b1, Control::RotateRight));
        assert(Board::served_control(b1, b2, Control::RotateLeft));
        assert(Board::served_control(b2, b3, Control::MoveLeft));
    }

    /// Serving the keys at a tick changes only the piece and the keys.
    pub proof fn lemma_served(b: Board, a: Board)
        requires
            Board::served(b, a),
        ensures
            a.spec_state() == b.spec_state(),
            a.spec_grid() == b.spec_grid(),
            a.spec_accumulator() == b.spec_accumulator(),
            Board::same_progress(b, a),
    {
        let (b1, b2, b3) = choose|b1: Board, b2: Board, b3: Board|
            Board::served_control(b, b1, Control::RotateRight) && Board::served_control(
                b1,
                b2,
                Control::RotateLeft,
            ) && Board::served_control(b2, b3, Control::MoveLeft) && Board::served_control(
                b3,
                a,
                Control::MoveRight,
            );
    }

    /// Records a raw press of the key of `c`.
    pub fn press(&mut self, c: Control)
        requires
            old(self).wf(),
        ensures
            final(self).wf(),
            Board::is_with(
                *old(self),
                *final(self),
                old(self).spec_grid(),
                old(self).spec_active(),
                old(self).spec_state(),
                old(self).spec_controls().with_key(
                    c,
                    crate::keys::after_press(old(self).spec_controls().key(c)),
                ),
            ),
    {
        self.control_state.press(c);
    }

    /// Records a raw release of the key of `c`.
    pub fn release(&mut self, c: Control)
        requires
            old(self).wf(),
        ensures
            final(self).wf(),
            Board::is_with(
                *old(self),
                *final(self),
                old(self).spec_grid(),
                old(self).spec_active(),
                old(self).spec_state(),
                old(self).spec_controls().with_key(
                    c,
                    crate::keys::after_release(old(self).spec_controls().key(c)),
                ),
            ),
    {
        self.control_state.release(c);
    }

    /// Starts a soft drop, unless the board is defeated.
    pub fn soft_drop(&mut self)
        requires
            old(self).wf(),
        ensures
            final(self).wf(),
            Board::is_with(
                *old(self),
                *final(self),
                old(self).spec_grid(),
                old(self).spec_active(),
                (if old(self).spec_state() == GameState::Defeated {
                    GameState::Defeated
                } else {
                    GameState::Dropping
                }),
                old(self).spec_controls(),
            ),
    {
        if self.state != GameState::Defeated {
            self.state = GameState::Dropping;
        }
    }

    /// Ends a soft drop, if one is going on.
    pub fn end_soft_drop(&mut self)
        requires
            old(self).wf(),
        ensures
            final(self).wf(),
            Board::is_with(
                *old(self),
                *final(self),
                old(self).spec_grid(),
                old(self).spec_active(),
                (if old(self).spec_state() == GameState::Dropping {
                    GameState::Playing
                } else {
                    old(self).spec_state()
                }),
                old(self).spec_controls(),
            ),
    {
        if self.state == GameState::Dropping {
            self.state = GameState::Playing;
        }
    }

    /// Lets the piece fall row by row while the next row fits.
    pub fn drop_fully(&mut self)
        requires
            old(self).wf(),
        ensures
            final(self).wf(),
            Board::is_with(
                *old(self),
                *final(self),
                old(self).spec_grid(),
                final(self).spec_active(),
                old(self).spec_state(),
                old(self).spec_controls(),
            ),
            old(self).spec_active().dropped_to(old(self).spec_grid(), final(self).spec_active()),
            old(self).spec_active().fits_now(old(self).spec_grid()) ==> final(self).spec_active().fits_now(
                old(self).spec_grid(),
            ),
    {
        self.active_tetromino.drop_fully(&self.board);
    }

    /// Starts a drop, unless the board is defeated: the piece falls as far
    /// as it fits and gravity is boosted until the drop ends.
    pub fn hard_drop(&mut self)
        requires
            old(self).wf(),
        ensures
            final(self).wf(),
            Board::is_with(
                *old(self),
                *final(self),
                old(self).spec_grid(),
                final(self).spec_active(),
                (if old(self).spec_state() == GameState::Defeated {
                    GameState::Defeated
                } else {
                    GameState::Dropping
                }),
                old(self).spec_controls(),
            ),
            old(self).spec_active().dropped_to(old(self).spec_grid(), final(self).spec_active()),
            old(self).spec_active().fits_now(old(self).spec_grid()) ==> final(self).spec_active().fits_now(
                old(self).spec_grid(),
            ),
    {
        if self.state != GameState::Defeated {
            self.state = GameState::Dropping;
        }
        self.drop_fully();
    }

    /// `a` is `b` advanced by `elapsed` microseconds, the match being over
    /// or not: see `advance`.
    pub open spec fn advanced(b: Board, a: Board, elapsed: int, over: bool) -> bool {
        &&& over || b.spec_state() == GameState::Defeated ==> result_shown(
            a.spec_grid()@,
            b.spec_line_count(),
        ) && Board::is_with(
            b,
            a,
            a.spec_grid(),
            b.spec_active(),
            GameState::Defeated,
            b.spec_controls(),
        )
        &&& !over && b.spec_state() == GameState::Playing ==> Board::gravity_result(b, a, elapsed)
        &&& !over && b.spec_state() == GameState::Dropping ==> Board::gravity_result(
            b,
            a,
            saturating_sum(elapsed, DROP_BOOST as int),
        )
    }

    /// Advances the board by `elapsed` microseconds: once the match is over
    /// the board is defeated too; a defeated board shows its line count;
    /// otherwise gravity is fed the time, boosted while dropping.
    pub fn advance(&mut self, elapsed: u64, match_over: bool)
        requires
            old(self).wf(),
        ensures
            final(self).wf(),
            Board::advanced(*old(self), *final(self), elapsed as int, match_over),
    {
        if match_over {
            // The end of the match ends every board.
            self.state = GameState::Defeated;
            self.show_result();
            return;
        }
        match self.state {
            GameState::Playing => self.gravity(elapsed),
            GameState::Dropping => self.gravity(elapsed.saturating_add(DROP_BOOST)),
            GameState::Defeated => self.show_result(),
        }
    }

    /// `r` is a snapshot of `b` placed `column_offset` cells from the left:
    /// every filled cell listed, the piece's cells unless defeated, the
    /// preview unrotated, and the counters.
    pub open spec fn snapshot_of(b: Board, r: BoardSnapshot, column_offset: usize) -> bool {
        &&& forall|i: int| 0 <= i < r.filled@.len() ==> listed(b.spec_grid()@, #[trigger] r.filled@[i])
        &&& r.filled@.no_duplicates()
        &&& forall|x: int, y: int|
            in_grid(x, y) && #[trigger] cell_in(b.spec_grid()@, x, y) is Some ==> exists|i: int|
                0 <= i < r.filled@.len() && r.filled@[i] == (x as usize, y as usize, cell_in(
                    b.spec_grid()@,
                    x,
                    y,
                ).unwrap())
        &&& b.spec_state() == GameState::Defeated ==> r.active@.len() == 0
        &&& b.spec_state() != GameState::Defeated ==> r.active@.len() == 4 && forall|k: int|
            0 <= k < 4 ==> (#[trigger] r.active@[k]).0 == b.spec_active().cell(k).0
                && r.active@[k].1 == b.spec_active().cell(k).1
        &&& r.active_color == b.spec_active().shape_spec().color_spec()
        &&& r.next@.len() == 4
        &&& forall|k: int|
            0 <= k < 4 ==> #[trigger] r.next@[k] == catalog(b.spec_next_shape() as int).offset(0, k)
        &&& r.next_color == catalog(b.spec_next_shape() as int).color_spec()
        &&& r.column_offset == column_offset
        &&& r.line_count == b.spec_line_count()
        &&& r.state == b.spec_state()
    }

    /// A snapshot of the board, placed `column_offset` cells from the left.
    pub fn snapshot(&self, column_offset: usize) -> (r: BoardSnapshot)
        requires
            self.wf(),
        ensures
            Board::snapshot_of(*self, r, column_offset),
    {
        let mut active: Vec<(i32, i32)> = Vec::new();
        if self.state != GameState::Defeated {
            let pts = self.active_tetromino.as_points();
            active = vec![pts[0], pts[1], pts[2], pts[3]];
        }
        let next_shape = Tetromino::shape(self.next_shape);
        let np = next_shape.points(Rotation::R0);
        let next = vec![np[0], np[1], np[2], np[3]];
        let filled = self.board.filled_cells();
        assert forall|x: int, y: int|
            in_grid(x, y) && #[trigger] cell_in(self.spec_grid()@, x, y) is Some implies exists|i: int|
            0 <= i < filled@.len() && filled@[i] == (x as usize, y as usize, cell_in(
                self.spec_grid()@,
                x,
                y,
            ).unwrap()) by {
            assert(cell_in(self.board@, x, y) is Some);
        }
        let r = BoardSnapshot {
            filled,
            active,
            active_color: self.active_tetromino.get_color(),
            next,
            next_color: next_shape.get_color(),
            column_offset,
            line_count: self.line_count,
            state: self.state,
        };
        assert(r.filled@ == filled@);
        r
    }

    /// Where the board stands.
    pub fn state(&self) -> (s: GameState)
        ensures
            s == self.spec_state(),
    {
        self.state
    }

    /// Rows cleared since the session began.
    pub fn line_count(&self) -> (n: u64)
        ensures
            n == self.spec_line_count(),
    {
        self.line_count
    }

    /// The gravity factor, in millionths.
    pub fn gravity_factor(&self) -> (f: u64)
        ensures
            f == self.spec_gravity_factor(),
    {
        self.gravity_factor
    }

    /// Locks since the last speed-up.
    pub fn lock_count(&self) -> (n: u32)
        ensures
            n == self.spec_lock_count(),
    {
        self.tetromino_count
    }

    /// The grid of settled cells.
    pub fn grid(&self) -> (g: &Grid)
        ensures
            *g == self.spec_grid(),
    {
        &self.board
    }

    /// The falling piece.
    pub fn active(&self) -> (p: &ActiveTetromino)
        ensures
            *p == self.spec_active(),
    {
        &self.active_tetromino
    }

    /// The previewed shape.
    pub fn next_shape(&self) -> (t: Tetromino)
        requires
            self.wf(),
        ensures
            t == catalog(self.spec_next_shape() as int),
    {
        Tetromino::shape(self.next_shape)
    }

    /// The debounced keys.
    pub fn controls(&self) -> (c: &ControlState)
        ensures
            *c == self.spec_controls(),
    {
        &self.control_state
    }

}

/// A new piece fits on a grid whose random stack leaves the top row empty.
proof fn lemma_spawn_fits(g: Grid, stack: int, p: ActiveTetromino, first: int)
    requires
        g.wf(),
        stacked(g@, stack),
        0 <= stack < BOARD_HEIGHT,
        0 <= first < SHAPE_COUNT,
        p.is_spawn_of(catalog(first)),
    ensures
        p.fits_now(g),
{
    lemma_unrotated_frame(first);
    assert forall|k: int| 0 <= k < 4 implies #[trigger] cell_free(
        g,
        p.shape_spec(),
        p.x_spec(),
        p.y_spec(),
        0,
        k,
    ) by {
        let o = catalog(first).offset(0, k);
        if p.y_spec() + o.1 >= 0 {
            assert(cell_in(g@, p.x_spec() + o.0, 0) is None);
        }
    }
}

/// Row `y` is full once the piece's cells are written into `g`.
pub open spec fn completes(g: Seq<Option<Color>>, p: ActiveTetromino, y: int) -> bool {
    forall|x: int| 0 <= x < BOARD_WIDTH ==> (#[trigger] cell_in(g, x, y)) is Some || covers(p, x, y)
}

/// A piece that locks inside the grid and completes exactly one row clears
/// that row: the line count grows by one, the top row is empty, the rows
/// above it move down by one, and the rows below it stay.
pub proof fn lemma_lock_clears_one_row(b: Board, a: Board, row: int)
    requires
        b.wf(),
        Board::locked(b, a),
        !overflows(b.spec_active()),
        0 <= row < BOARD_HEIGHT,
        completes(b.spec_grid()@, b.spec_active(), row),
        forall|r: int|
            0 <= r < BOARD_HEIGHT && r != row ==> !#[trigger] completes(
                b.spec_grid()@,
                b.spec_active(),
                r,
            ),
        b.spec_line_count() < u64::MAX,
    ensures
        a.spec_line_count() == b.spec_line_count() + 1,
        a.spec_grid()@.len() == BOARD_WIDTH * BOARD_HEIGHT,
        forall|x: int| 0 <= x < BOARD_WIDTH ==> #[trigger] cell_in(a.spec_grid()@, x, 0) is None,
        forall|x: int, y: int|
            in_grid(x, y) && y > row ==> #[trigger] cell_in(a.spec_grid()@, x, y) == if covers(
                b.spec_active(),
                x,
                y,
            ) {
                Some(b.spec_active().shape_spec().color_spec())
            } else {
                cell_in(b.spec_grid()@, x, y)
            },
        forall|x: int, y: int|
            in_grid(x, y) && 1 <= y <= row ==> #[trigger] cell_in(a.spec_grid()@, x, y) == if covers(
                b.spec_active(),
                x,
                y - 1,
            ) {
                Some(b.spec_active().shape_spec().color_spec())
            } else {
                cell_in(b.spec_grid()@, x, y - 1)
            },
{
    let p = b.spec_active();
    let g = b.spec_grid()@;
    let s = choose|s: Seq<Option<Color>>|
        stamped(g, p, s) && if overflows(p) {
            &&& a.spec_grid()@ == s
            &&& a.spec_state() == GameState::Defeated
            &&& a.spec_active() == p
            &&& a.spec_controls() == b.spec_controls()
            &&& Board::same_progress(b, a)
        } else {
            &&& cleared(s, a.spec_grid()@)
            &&& a.spec_line_count() == saturating_sum(b.spec_line_count(), full_rows_in(s))
            &&& a.spec_active().is_spawn_of(catalog(b.spec_next_shape() as int))
            &&& a.spec_state() == if a.spec_active().fits_now(a.spec_grid()) {
                GameState::Playing
            } else {
                GameState::Defeated
            }
            &&& draw_step(b.spec_bag()@, a.spec_bag()@, a.spec_next_shape())
            &&& if b.spec_lock_count() + 1 >= LOCKS_PER_SPEEDUP {
                a.spec_lock_count() == 0 && a.spec_gravity_factor() == ramped(
                    b.spec_gravity_factor(),
                )
            } else {
                a.spec_lock_count() == b.spec_lock_count() + 1 && a.spec_gravity_factor()
                    == b.spec_gravity_factor()
            }
            &&& a.spec_stack_size() == b.spec_stack_size()
            &&& a.spec_controls() == b.spec_controls()
        };
    assert forall|r: int| 0 <= r < BOARD_HEIGHT implies #[trigger] row_full_in(s, r) == completes(
        g,
        p,
        r,
    ) by {
        if completes(g, p, r) {
            assert forall|x: int| 0 <= x < BOARD_WIDTH implies #[trigger] cell_in(s, x, r) is Some by {
                assert(cell_in(g, x, r) is Some || covers(p, x, r));
            }
        }
        if row_full_in(s, r) {
            assert forall|x: int| 0 <= x < BOARD_WIDTH implies (#[trigger] cell_in(g, x, r)) is Some
                || covers(p, x, r) by {
                assert(cell_in(s, x, r) is Some);
            }
        }
    }
    assert(row_full_in(s, row));
    assert forall|r: int| 0 <= r < BOARD_HEIGHT && r != row implies !#[trigger] row_full_in(s, r) by {
        assert(!completes(g, p, r));
    }
    lemma_kept_rows_one_full(s, row, 0);
    let kept = kept_rows_in(s, 0);
    assert(kept.len() == BOARD_HEIGHT - 1);
    assert forall|x: int, y: int| in_grid(x, y) && y > row implies #[trigger] cell_in(
        a.spec_grid()@,
        x,
        y,
    ) == cell_in(s, x, y) by {
        assert(kept[y - 1] == y);
    }
    assert forall|x: int, y: int| in_grid(x, y) && 1 <= y <= row implies #[trigger] cell_in(
        a.spec_grid()@,
        x,
        y,
    ) == cell_in(s, x, y - 1) by {
        assert(kept[y - 1] == y - 1);
    }
    assert forall|x: int| 0 <= x < BOARD_WIDTH implies #[trigger] cell_in(a.spec_grid()@, x, 0) is None by {
        assert(in_grid(x, 0));
    }
}

/// A lock, with its clearing, leaves the grid at its full height of
/// `BOARD_HEIGHT` rows of `BOARD_WIDTH` cells.
pub proof fn lemma_lock_keeps_height(b: Board, a: Board)
    requires
        b.wf(),
        Board::locked(b, a),
    ensures
        a.spec_grid()@.len() == crate::grid::BOARD_WIDTH * BOARD_HEIGHT,
{
}

/// Gravity never slows down: a gravity step keeps the factor, except on the
/// tenth lock since the last speed-up, which multiplies it by 11/10 (rounded
/// down to a millionth, and not past the ceiling).
pub proof fn lemma_gravity_factor_ramp(b: Board, a: Board, amount: int)
    requires
        b.wf(),
        amount >= 0,
        Board::gravity_result(b, a, amount),
    ensures
        a.spec_gravity_factor() >= b.spec_gravity_factor(),
        a.spec_gravity_factor() == b.spec_gravity_factor() || (b.spec_lock_count()
            == LOCKS_PER_SPEEDUP - 1 && a.spec_lock_count() == 0 && a.spec_gravity_factor()
            == ramped(b.spec_gravity_factor())),
        b.spec_lock_count() == LOCKS_PER_SPEEDUP - 1 && a.spec_lock_count() == 0
            ==> a.spec_gravity_factor() == ramped(b.spec_gravity_factor()),
{
    assert(ramped(b.gravity_factor as int) >= b.gravity_factor);
}

/// The ramp multiplies by exactly 11/10 while the result is a whole number
/// of millionths below the ceiling.
pub proof fn lemma_ramp_exact(f: int)
    requires
        0 <= f,
        f % 10 == 0,
        f * 11 / 10 <= MAX_GRAVITY_FACTOR,
    ensures
        ramped(f) * 10 == f * 11,
{
}

} // verus!
