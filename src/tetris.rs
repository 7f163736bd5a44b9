//! The match: one board, or two in a duel, with shared pause, restart and
//! tick clock, and the routing of keys to boards.
use crate::board::{saturating_sum, Board, BoardSnapshot, GameState};
use crate::keys::Control;
use crate::grid::{cell_in, in_grid, Grid, BOARD_HEIGHT, BOARD_WIDTH};
use crate::random::coin_flip;
use crate::tetromino::Color;
use vstd::prelude::*;

verus! {

/// `g` holds a random stack of `n` rows at the bottom: every cell above it is
/// empty and every cell in it is empty or filled with the neutral color.
pub open spec fn stacked(g: Seq<Option<Color>>, n: int) -> bool {
    &&& g.len() == BOARD_WIDTH * BOARD_HEIGHT
    &&& forall|x: int, y: int|
        in_grid(x, y) ==> (#[trigger] cell_in(g, x, y) is None || (y >= BOARD_HEIGHT - n
            && cell_in(g, x, y) == Some(Color::Grey)))
}

/// The screen width of one board and its side bar, in cells.
pub const BOARD_COLUMNS_ON_SCREEN: usize = 15;

/// The input tick: 0.15 seconds, in microseconds.
pub const UPDATE_TIME: u64 = 150_000;

/// The keys the game listens to.
#[derive(Clone, Copy, Debug, PartialEq, Eq, Structural)]
pub enum Key {
    Up,
    Down,
    Left,
    Right,
    Space,
    RShift,
    W,
    A,
    S,
    D,
    F,
    Q,
    E,
    P,
    F1,
}

/// The two groups of player keys: arrows and space for the first board,
/// the letter keys for the last one.
#[derive(Clone, Copy, Debug, PartialEq, Eq, Structural)]
pub enum Cluster {
    Arrows,
    Letters,
}

/// What a player key asks of its board.
#[derive(Clone, Copy, Debug, PartialEq, Eq, Structural)]
pub enum Command {
    Control(Control),
    SoftDrop,
    HardDrop,
}

/// The cluster and command of a player key; none for pause and restart.
pub open spec fn route_spec(k: Key) -> Option<(Cluster, Command)> {
    match k {
        Key::Up => Some((Cluster::Arrows, Command::Control(Control::RotateLeft))),
        Key::Left => Some((Cluster::Arrows, Command::Control(Control::MoveLeft))),
        Key::Right => Some((Cluster::Arrows, Command::Control(Control::MoveRight))),
        Key::Down => Some((Cluster::Arrows, Command::SoftDrop)),
        Key::Space => Some((Cluster::Arrows, Command::HardDrop)),
        Key::RShift => Some((Cluster::Arrows, Command::Control(Control::RotateRight))),
        Key::W => Some((Cluster::Letters, Command::Control(Control::RotateLeft))),
        Key::Q => Some((Cluster::Letters, Command::Control(Control::RotateLeft))),
        Key::E => Some((Cluster::Letters, Command::Control(Control::RotateRight))),
        Key::A => Some((Cluster::Letters, Command::Control(Control::MoveLeft))),
        Key::D => Some((Cluster::Letters, Command::Control(Control::MoveRight))),
        Key::S => Some((Cluster::Letters, Command::SoftDrop)),
        Key::F => Some((Cluster::Letters, Command::HardDrop)),
        Key::P => None,
        Key::F1 => None,
    }
}

/// The cluster and command of a player key; none for pause and restart.
pub fn route(k: Key) -> (r: Option<(Cluster, Command)>)
    ensures
        r == route_spec(k),
{
    match k {
        Key::Up => Some((Cluster::Arrows, Command::Control(Control::RotateLeft))),
        Key::Left => Some((Cluster::Arrows, Command::Control(Control::MoveLeft))),
        Key::Right => Some((Cluster::Arrows, Command::Control(Control::MoveRight))),
        Key::Down => Some((Cluster::Arrows, Command::SoftDrop)),
        Key::Space => Some((Cluster::Arrows, Command::HardDrop)),
        Key::RShift => Some((Cluster::Arrows, Command::Control(Control::RotateRight))),
        Key::W => Some((Cluster::Letters, Command::Control(Control::RotateLeft))),
        Key::Q => Some((Cluster::Letters, Command::Control(Control::RotateLeft))),
        Key::E => Some((Cluster::Letters, Command::Control(Control::RotateRight))),
        Key::A => Some((Cluster::Letters, Command::Control(Control::MoveLeft))),
        Key::D => Some((Cluster::Letters, Command::Control(Control::MoveRight))),
        Key::S => Some((Cluster::Letters, Command::SoftDrop)),
        Key::F => Some((Cluster::Letters, Command::HardDrop)),
        Key::P => None,
        Key::F1 => None,
    }
}

/// A match in progress: one board, or two in a duel.
pub struct Tetris {
    boards: Vec<Board>,
    paused: bool,
    time: u64,
}

/// The board that a command of cluster `c` goes to, among `n` boards.
pub open spec fn board_of(c: Cluster, n: int) -> int {
    match c {
        Cluster::Arrows => 0,
        Cluster::Letters => n - 1,
    }
}

/// `a` is board `b` after an update of the match: if the clock passed a
/// tick, the board first served its keys; then it advanced by `elapsed`
/// microseconds, the match being `over` or not.
pub open spec fn board_updated(b: Board, a: Board, tick: bool, elapsed: int, over: bool) -> bool {
    if tick {
        exists|m: Board| Board::served(b, m) && Board::advanced(m, a, elapsed, over)
    } else {
        Board::advanced(b, a, elapsed, over)
    }
}

/// `a` is `b` after command `cmd` while playing.
pub open spec fn commanded(b: Board, a: Board, cmd: Command) -> bool {
    match cmd {
        Command::Control(c) => Board::is_with(
            b,
            a,
            b.spec_grid(),
            b.spec_active(),
            b.spec_state(),
            b.spec_controls().with_key(c, crate::keys::after_press(b.spec_controls().key(c))),
        ),
        Command::SoftDrop => Board::is_with(
            b,
            a,
            b.spec_grid(),
            b.spec_active(),
            GameState::Dropping,
            b.spec_controls(),
        ),
        Command::HardDrop => {
            &&& Board::is_with(
                b,
                a,
                b.spec_grid(),
                a.spec_active(),
                GameState::Dropping,
                b.spec_controls(),
            )
            &&& b.spec_active().dropped_to(b.spec_grid(), a.spec_active())
            &&& a.spec_active().fits_now(a.spec_grid())
        },
    }
}

/// `a` is `b` after the release of the key of command `cmd`.
pub open spec fn released(b: Board, a: Board, cmd: Command) -> bool {
    match cmd {
        Command::Control(c) => Board::is_with(
            b,
            a,
            b.spec_grid(),
            b.spec_active(),
            b.spec_state(),
            b.spec_controls().with_key(c, crate::keys::after_release(b.spec_controls().key(c))),
        ),
        Command::SoftDrop => Board::is_with(
            b,
            a,
            b.spec_grid(),
            b.spec_active(),
            (if b.spec_state() == GameState::Dropping {
                GameState::Playing
            } else {
                b.spec_state()
            }),
            b.spec_controls(),
        ),
        Command::HardDrop => a == b,
    }
}

impl Tetris {
    /// The boards.
    pub closed spec fn spec_boards(&self) -> Seq<Board> {
        self.boards@
    }

    /// Whether the match is paused.
    pub closed spec fn spec_paused(&self) -> bool {
        self.paused
    }

    /// Microseconds toward the next tick, counting from one tick before it.
    pub closed spec fn spec_time(&self) -> int {
        self.time as int
    }

    /// One or two boards, each well formed.
    pub open spec fn wf(&self) -> bool {
        &&& 1 <= self.spec_boards().len() <= 2
        &&& forall|i: int| 0 <= i < self.spec_boards().len() ==> #[trigger] self.spec_boards()[i].wf()
    }

    /// Some board is defeated, which ends the match for all.
    pub open spec fn over(&self) -> bool {
        exists|i: int|
            0 <= i < self.spec_boards().len() && #[trigger] self.spec_boards()[i].spec_state()
                == GameState::Defeated
    }

    /// Every board is playing, neither dropping nor defeated.
    pub open spec fn all_playing(&self) -> bool {
        forall|i: int|
            0 <= i < self.spec_boards().len() ==> #[trigger] self.spec_boards()[i].spec_state()
                == GameState::Playing
    }
    /// A new match: one board, or two in a duel, each a new session with
    /// the stack size clamped to `BOARD_HEIGHT - 1`; not paused.
    pub fn new(initial_stack_size: usize, duel: bool) -> (t: Tetris)
        ensures
            t.wf(),
            t.spec_boards().len() == if duel {
                2int
            } else {
                1int
            },
            forall|i: int|
                0 <= i < t.spec_boards().len() ==> Board::fresh(
                    #[trigger] t.spec_boards()[i],
                    if initial_stack_size < BOARD_HEIGHT {
                        initial_stack_size as int
                    } else {
                        BOARD_HEIGHT - 1
                    },
                ) && t.spec_boards()[i].spec_controls().all_idle(),
            !t.spec_paused(),
            t.spec_time() == UPDATE_TIME,
    {
        let mut boards: Vec<Board> = Vec::new();
        boards.push(Board::new(initial_stack_size));
        if duel {
            boards.push(Board::new(initial_stack_size));
        }
        Tetris { boards, paused: false, time: UPDATE_TIME }
    }

    /// Whether some board is defeated.
    pub fn is_over(&self) -> (r: bool)
        ensures
            r == self.over(),
    {
        let mut i: usize = 0;
        while i < self.boards.len()
            invariant
                i <= self.spec_boards().len(),
                forall|j: int| 0 <= j < i ==> #[trigger] self.spec_boards()[j].spec_state()
                    != GameState::Defeated,
            decreases self.spec_boards().len() - i,
        {
            if self.boards[i].state() == GameState::Defeated {
                return true;
            }
            i = i + 1;
        }
        false
    }

    /// Whether every board is playing.
    fn is_all_playing(&self) -> (r: bool)
        ensures
            r == self.all_playing(),
    {
        let mut i: usize = 0;
        while i < self.boards.len()
            invariant
                i <= self.spec_boards().len(),
                forall|j: int| 0 <= j < i ==> #[trigger] self.spec_boards()[j].spec_state()
                    == GameState::Playing,
            decreases self.spec_boards().len() - i,
        {
            if self.boards[i].state() != GameState::Playing {
                return false;
            }
            i = i + 1;
        }
        true
    }

    /// `a` is `b` with every board started over; the pause and the clock
    /// are kept.
    pub open spec fn restarted(b: Tetris, a: Tetris) -> bool {
        &&& a.spec_boards().len() == b.spec_boards().len()
        &&& forall|i: int|
            0 <= i < a.spec_boards().len() ==> Board::fresh(
                #[trigger] a.spec_boards()[i],
                b.spec_boards()[i].spec_stack_size(),
            ) && a.spec_boards()[i].spec_controls() == b.spec_boards()[i].spec_controls()
        &&& a.spec_paused() == b.spec_paused()
        &&& a.spec_time() == b.spec_time()
    }

    /// Whether the match is paused.
    pub fn is_paused(&self) -> (r: bool)
        ensures
            r == self.spec_paused(),
    {
        self.paused
    }

    /// The boards.
    pub fn boards(&self) -> (b: &Vec<Board>)
        ensures
            b@ == self.spec_boards(),
    {
        &self.boards
    }

    /// Starts every board over; the pause and the clock are kept.
    pub fn play_again(&mut self)
        requires
            old(self).wf(),
        ensures
            final(self).wf(),
            Tetris::restarted(*old(self), *final(self)),
    {
        let n = self.boards.len();
        let mut i: usize = 0;
        while i < n
            invariant
                n == old(self).spec_boards().len(),
                self.spec_boards().len() == n,
                1 <= n <= 2,
                i <= n,
                self.spec_paused() == old(self).spec_paused(),
                self.spec_time() == old(self).spec_time(),
                forall|j: int| 0 <= j < n ==> #[trigger] self.spec_boards()[j].wf(),
                forall|j: int|
                    0 <= j < i ==> Board::fresh(
                        #[trigger] self.spec_boards()[j],
                        old(self).spec_boards()[j].spec_stack_size(),
                    ) && self.spec_boards()[j].spec_controls()
                        == old(self).spec_boards()[j].spec_controls(),
                forall|j: int| i <= j < n ==> #[trigger] self.spec_boards()[j] == old(self).spec_boards()[j],
            decreases n - i,
        {
            self.boards[i].play_again();
            i = i + 1;
        }
    }

    /// `a` is `b` with board `i` replaced by one that `step` relates to it.
    pub open spec fn one_board_changed(b: Tetris, a: Tetris, i: int) -> bool {
        &&& a.spec_boards().len() == b.spec_boards().len()
        &&& 0 <= i < b.spec_boards().len()
        &&& forall|j: int|
            0 <= j < b.spec_boards().len() && j != i ==> #[trigger] a.spec_boards()[j]
                == b.spec_boards()[j]
        &&& a.spec_paused() == b.spec_paused()
        &&& a.spec_time() == b.spec_time()
    }

    /// Handles a key press. Once the match is over only restart (F1) is
    /// heard. P pauses or resumes while every board is playing; F1 starts
    /// over; while not paused, a player key goes to its board: arrows and
    /// space to the first, the letter keys to the last.
    pub fn key_press(&mut self, key: Key)
        requires
            old(self).wf(),
        ensures
            final(self).wf(),
            old(self).over() && key == Key::F1 ==> Tetris::restarted(*old(self), *final(self)),
            old(self).over() && key != Key::F1 ==> *final(self) == *old(self),
            !old(self).over() && key == Key::F1 ==> Tetris::restarted(*old(self), *final(self)),
            !old(self).over() && key == Key::P ==> final(self).spec_boards() == old(self).spec_boards()
                && final(self).spec_time() == old(self).spec_time() && final(self).spec_paused() == (
                old(self).spec_paused() != old(self).all_playing()),
            !old(self).over() && route_spec(key) is None && key != Key::F1 && key != Key::P
                ==> *final(self) == *old(self),
            !old(self).over() && route_spec(key) is Some && old(self).spec_paused() ==> *final(self)
                == *old(self),
            !old(self).over() && route_spec(key) is Some && !old(self).spec_paused() ==> ({
                let (cl, cmd) = route_spec(key).unwrap();
                let i = board_of(cl, old(self).spec_boards().len() as int);
                &&& Tetris::one_board_changed(*old(self), *final(self), i)
                &&& commanded(old(self).spec_boards()[i], final(self).spec_boards()[i], cmd)
            }),
    {
        if self.is_over() {
            if key == Key::F1 {
                self.play_again();
            }
            return;
        }
        match key {
            Key::P => {
                assert(route_spec(key) is None);
                if self.is_all_playing() {
                    self.paused = !self.paused;
                }
            },
            Key::F1 => {
                assert(route_spec(key) is None);
                self.play_again();
            },
            _ => {
                if !self.paused {
                    if let Some((cl, cmd)) = route(key) {
                        let i = match cl {
                            Cluster::Arrows => 0,
                            Cluster::Letters => self.boards.len() - 1,
                        };
                        match cmd {
                            Command::Control(c) => self.boards[i].press(c),
                            Command::SoftDrop => self.boards[i].soft_drop(),
                            Command::HardDrop => self.boards[i].hard_drop(),
                        }
                        assert(self.spec_boards()[i as int].wf());
                    }
                }
            },
        }
    }

    /// Handles a key release: while not paused, the key of a player's
    /// action is released on its board, and releasing a soft-drop key ends
    /// the drop.
    pub fn key_release(&mut self, key: Key)
        requires
            old(self).wf(),
        ensures
            final(self).wf(),
            old(self).spec_paused() || route_spec(key) is None ==> *final(self) == *old(self),
            !old(self).spec_paused() && route_spec(key) is Some ==> ({
                let (cl, cmd) = route_spec(key).unwrap();
                let i = board_of(cl, old(self).spec_boards().len() as int);
                &&& Tetris::one_board_changed(*old(self), *final(self), i)
                &&& released(old(self).spec_boards()[i], final(self).spec_boards()[i], cmd)
            }),
    {
        if self.paused {
            return;
        }
        if let Some((cl, cmd)) = route(key) {
            let i = match cl {
                Cluster::Arrows => 0,
                Cluster::Letters => self.boards.len() - 1,
            };
            match cmd {
                Command::Control(c) => self.boards[i].release(c),
                Command::SoftDrop => self.boards[i].end_soft_drop(),
                Command::HardDrop => {},
            }
            assert(self.spec_boards()[i as int].wf());
        }
    }

    /// Advances the match by `elapsed` microseconds; nothing happens while
    /// paused. When the clock passes a tick, every board serves its keys and
    /// the clock moves back by one tick; then every board advances, showing
    /// its line count if the match was over.
    pub fn update(&mut self, elapsed: u64)
        requires
            old(self).wf(),
        ensures
            final(self).wf(),
            old(self).spec_paused() ==> *final(self) == *old(self),
            !old(self).spec_paused() ==> ({
                let t = saturating_sum(old(self).spec_time(), elapsed as int);
                let tick = t > UPDATE_TIME;
                &&& !final(self).spec_paused()
                &&& final(self).spec_time() == if tick {
                    t - UPDATE_TIME
                } else {
                    t
                }
                &&& final(self).spec_boards().len() == old(self).spec_boards().len()
                &&& forall|i: int|
                    0 <= i < old(self).spec_boards().len() ==> board_updated(
                        old(self).spec_boards()[i],
                        #[trigger] final(self).spec_boards()[i],
                        tick,
                        elapsed as int,
                        old(self).over(),
                    )
            }),
    {
        if self.paused {
            return;
        }
        self.time = self.time.saturating_add(elapsed);
        let n = self.boards.len();
        let tick = self.time > UPDATE_TIME;
        let ghost t = self.spec_time();
        if tick {
            let mut i: usize = 0;
            while i < n
                invariant
                    !self.spec_paused(),
                    self.spec_time() == t,
                    t > UPDATE_TIME,
                    n == old(self).spec_boards().len(),
                    self.spec_boards().len() == n,
                    i <= n,
                    forall|j: int| 0 <= j < n ==> #[trigger] self.spec_boards()[j].wf(),
                    forall|j: int|
                        0 <= j < i ==> Board::served(
                            old(self).spec_boards()[j],
                            #[trigger] self.spec_boards()[j],
                        ),
                    forall|j: int| i <= j < n ==> #[trigger] self.spec_boards()[j] == old(self).spec_boards()[j],
                decreases n - i,
            {
                self.boards[i].process_controls();
                i = i + 1;
            }
            self.time = self.time - UPDATE_TIME;
        }
        let ghost mid = self.spec_boards();
        proof {
            assert forall|j: int| 0 <= j < n implies (#[trigger] mid[j]).spec_state()
                == old(self).spec_boards()[j].spec_state() by {
                if tick {
                    Board::lemma_served(old(self).spec_boards()[j], mid[j]);
                }
            }
        }
        let ghost t2 = self.spec_time();
        let over = self.is_over();
        proof {
            if over {
                let j = choose|j: int| 0 <= j < n && #[trigger] mid[j].spec_state() == GameState::Defeated;
                assert(old(self).spec_boards()[j].spec_state() == GameState::Defeated);
            }
            if old(self).over() {
                let j = choose|j: int|
                    0 <= j < n && #[trigger] old(self).spec_boards()[j].spec_state() == GameState::Defeated;
                assert(mid[j].spec_state() == GameState::Defeated);
            }
        }
        let mut i: usize = 0;
        while i < n
            invariant
                !self.spec_paused(),
                self.spec_time() == t2,
                over == old(self).over(),
                n == mid.len(),
                self.spec_boards().len() == n,
                i <= n,
                forall|j: int| 0 <= j < n ==> #[trigger] self.spec_boards()[j].wf(),
                forall|j: int|
                    0 <= j < i ==> Board::advanced(
                        mid[j],
                        #[trigger] self.spec_boards()[j],
                        elapsed as int,
                        over,
                    ),
                forall|j: int| i <= j < n ==> #[trigger] self.spec_boards()[j] == mid[j],
            decreases n - i,
        {
            self.boards[i].advance(elapsed, over);
            i = i + 1;
        }
        proof {
            assert forall|j: int| 0 <= j < n implies board_updated(
                old(self).spec_boards()[j],
                #[trigger] self.spec_boards()[j],
                tick,
                elapsed as int,
                old(self).over(),
            ) by {
                if tick {
                    assert(Board::served(old(self).spec_boards()[j], mid[j]));
                    assert(Board::advanced(mid[j], self.spec_boards()[j], elapsed as int, over));
                }
            }
        }
    }

    /// Lets the piece of board `player` fall as far as it fits.
    pub fn drop_fully(&mut self, player: usize)
        requires
            old(self).wf(),
            player < old(self).spec_boards().len(),
        ensures
            final(self).wf(),
            Tetris::one_board_changed(*old(self), *final(self), player as int),
            Board::is_with(
                old(self).spec_boards()[player as int],
                final(self).spec_boards()[player as int],
                old(self).spec_boards()[player as int].spec_grid(),
                final(self).spec_boards()[player as int].spec_active(),
                old(self).spec_boards()[player as int].spec_state(),
                old(self).spec_boards()[player as int].spec_controls(),
            ),
            old(self).spec_boards()[player as int].spec_active().dropped_to(
                old(self).spec_boards()[player as int].spec_grid(),
                final(self).spec_boards()[player as int].spec_active(),
            ),
            old(self).spec_boards()[player as int].spec_state() != GameState::Defeated
                ==> final(self).spec_boards()[player as int].spec_active().fits_now(
                final(self).spec_boards()[player as int].spec_grid(),
            ),
    {
        self.boards[player].drop_fully();
        assert(self.spec_boards()[player as int].wf());
    }

    /// A snapshot of every board, each placed one board width and side bar
    /// further right than the one before.
    pub fn render_snapshot(&self) -> (r: Vec<BoardSnapshot>)
        requires
            self.wf(),
        ensures
            r@.len() == self.spec_boards().len(),
            forall|i: int|
                0 <= i < r@.len() ==> Board::snapshot_of(
                    self.spec_boards()[i],
                    #[trigger] r@[i],
                    (i * BOARD_COLUMNS_ON_SCREEN) as usize,
                ),
    {
        let mut r: Vec<BoardSnapshot> = Vec::new();
        let n = self.boards.len();
        let mut i: usize = 0;
        while i < n
            invariant
                self.wf(),
                n == self.spec_boards().len(),
                i <= n,
                r@.len() == i,
                forall|j: int|
                    0 <= j < i ==> Board::snapshot_of(
                        self.spec_boards()[j],
                        #[trigger] r@[j],
                        (j * BOARD_COLUMNS_ON_SCREEN) as usize,
                    ),
            decreases n - i,
        {
            assert(self.spec_boards()[i as int].wf());
            r.push(self.boards[i].snapshot(i * BOARD_COLUMNS_ON_SCREEN));
            i = i + 1;
        }
        r
    }

    /// The grid whose bottom `n` rows are filled with the neutral color
    /// where the flips say so: flip `r * BOARD_WIDTH + x` decides column `x`
    /// of the `r`-th row from the bottom. The other rows are empty.
    pub fn stack_from_flips(n: usize, flips: &Vec<bool>) -> (g: Grid)
        requires
            n <= BOARD_HEIGHT,
            flips@.len() == n * BOARD_WIDTH,
        ensures
            g.wf(),
            forall|x: int, y: int|
                in_grid(x, y) ==> #[trigger] cell_in(g@, x, y) == if y >= BOARD_HEIGHT - n
                    && flips@[(BOARD_HEIGHT - 1 - y) * BOARD_WIDTH + x] {
                    Some(Color::Grey)
                } else {
                    None
                },
    {
        let mut g = Grid::empty();
        let mut r: usize = 0;
        while r < n
            invariant
                g.wf(),
                r <= n <= BOARD_HEIGHT,
                flips@.len() == n * BOARD_WIDTH,
                forall|x: int, y: int|
                    in_grid(x, y) ==> #[trigger] cell_in(g@, x, y) == if y >= BOARD_HEIGHT - r
                        && flips@[(BOARD_HEIGHT - 1 - y) * BOARD_WIDTH + x] {
                        Some(Color::Grey)
                    } else {
                        None
                    },
            decreases n - r,
        {
            let mut x: usize = 0;
            while x < BOARD_WIDTH
                invariant
                    g.wf(),
                    r < n <= BOARD_HEIGHT,
                    x <= BOARD_WIDTH,
                    flips@.len() == n * BOARD_WIDTH,
                    forall|xx: int, y: int|
                        in_grid(xx, y) ==> #[trigger] cell_in(g@, xx, y) == if (y >= BOARD_HEIGHT - r
                            || (y == BOARD_HEIGHT - 1 - r && xx < x)) && flips@[(BOARD_HEIGHT - 1 - y)
                            * BOARD_WIDTH + xx] {
                            Some(Color::Grey)
                        } else {
                            None
                        },
                decreases BOARD_WIDTH - x,
            {
                if flips[r * BOARD_WIDTH + x] {
                    g.set(x, (BOARD_HEIGHT - 1) - r, Some(Color::Grey));
                }
                x = x + 1;
            }
            r = r + 1;
        }
        g
    }

    /// A grid whose bottom `initial_stack_size` rows have each cell filled
    /// with the neutral color at random, and whose other rows are empty.
    pub fn create_board(initial_stack_size: usize) -> (g: Grid)
        requires
            initial_stack_size <= BOARD_HEIGHT,
        ensures
            g.wf(),
            stacked(g@, initial_stack_size as int),
    {
        let total = initial_stack_size * BOARD_WIDTH;
        let mut flips: Vec<bool> = Vec::new();
        let mut i: usize = 0;
        while i < total
            invariant
                i <= total,
                flips@.len() == i,
            decreases total - i,
        {
            flips.push(coin_flip());
            i = i + 1;
        }
        Tetris::stack_from_flips(initial_stack_size, &flips)
    }
}

} // verus!
