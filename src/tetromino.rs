//! Piece colors, rotations and the catalog of the seven shapes.
use crate::random::shuffle;
use vstd::multiset::Multiset;
use vstd::prelude::*;

verus! {

/// The seven piece colors and the neutral fill color.
#[derive(Clone, Copy, Debug, PartialEq, Eq, Structural)]
pub enum Color {
    Cyan,
    Blue,
    Orange,
    Yellow,
    Lime,
    Purple,
    Red,
    Grey,
}

/// One of the four orientations of a piece.
#[derive(Clone, Copy, Debug, PartialEq, Eq, Structural)]
pub enum Rotation {
    R0,
    R1,
    R2,
    R3,
}

impl Rotation {
    /// The ordinal of the rotation, in `0..4`.
    pub open spec fn index(self) -> nat {
        match self {
            Rotation::R0 => 0,
            Rotation::R1 => 1,
            Rotation::R2 => 2,
            Rotation::R3 => 3,
        }
    }

    /// The rotation with ordinal `n % 4`.
    pub open spec fn from_index(n: nat) -> Rotation {
        if n % 4 == 0 {
            Rotation::R0
        } else if n % 4 == 1 {
            Rotation::R1
        } else if n % 4 == 2 {
            Rotation::R2
        } else {
            Rotation::R3
        }
    }

    /// The ordinal as a `usize`.
    pub fn as_index(&self) -> (i: usize)
        ensures
            i == self.index(),
            i < 4,
    {
        match *self {
            Rotation::R0 => 0,
            Rotation::R1 => 1,
            Rotation::R2 => 2,
            Rotation::R3 => 3,
        }
    }

    /// The next rotation, wrapping from `R3` to `R0`.
    pub fn increase(&self) -> (r: Rotation)
        ensures
            r.index() == (self.index() + 1) % 4,
            r == Rotation::from_index(self.index() + 1),
    {
        match *self {
            Rotation::R0 => Rotation::R1,
            Rotation::R1 => Rotation::R2,
            Rotation::R2 => Rotation::R3,
            Rotation::R3 => Rotation::R0,
        }
    }

    /// The previous rotation, wrapping from `R0` to `R3`.
    pub fn decrease(&self) -> (r: Rotation)
        ensures
            r.index() == (self.index() + 3) % 4,
            r == Rotation::from_index(self.index() + 3),
    {
        match *self {
            Rotation::R0 => Rotation::R3,
            Rotation::R1 => Rotation::R0,
            Rotation::R2 => Rotation::R1,
            Rotation::R3 => Rotation::R2,
        }
    }
}


/// The number of distinct shapes in the catalog.
pub const SHAPE_COUNT: usize = 7;

/// The color of catalog shape `i`.
pub open spec fn shape_color(i: int) -> Color {
    if i == 0 {
        Color::Cyan
    } else if i == 1 {
        Color::Blue
    } else if i == 2 {
        Color::Orange
    } else if i == 3 {
        Color::Yellow
    } else if i == 4 {
        Color::Lime
    } else if i == 5 {
        Color::Purple
    } else {
        Color::Red
    }
}

/// The colors of the shapes that are not dealt first after a reshuffle.
pub open spec fn disallowed_start(c: Color) -> bool {
    c == Color::Yellow || c == Color::Lime || c == Color::Red
}

/// Catalog shape `i`.
pub open spec fn catalog(i: int) -> Tetromino {
    if i == 0 {
        Tetromino {
            color: Color::Cyan,
            points: [
                [(0, 2), (1, 2), (2, 2), (3, 2)],
                [(2, 0), (2, 1), (2, 2), (2, 3)],
                [(0, 2), (1, 2), (2, 2), (3, 2)],
                [(2, 0), (2, 1), (2, 2), (2, 3)],
            ],
        }
    } else if i == 1 {
        Tetromino {
            color: Color::Blue,
            points: [
                [(0, 1), (1, 1), (2, 1), (2, 2)],
                [(1, 0), (1, 1), (0, 2), (1, 2)],
                [(0, 0), (0, 1), (1, 1), (2, 1)],
                [(1, 0), (2, 0), (1, 1), (1, 2)],
            ],
        }
    } else if i == 2 {
        Tetromino {
            color: Color::Orange,
            points: [
                [(0, 1), (1, 1), (2, 1), (0, 2)],
                [(0, 0), (1, 0), (1, 1), (1, 2)],
                [(2, 0), (0, 1), (1, 1), (2, 1)],
                [(1, 0), (1, 1), (1, 2), (2, 2)],
            ],
        }
    } else if i == 3 {
        Tetromino {
            color: Color::Yellow,
            points: [
                [(1, 1), (2, 1), (1, 2), (2, 2)],
                [(1, 1), (2, 1), (1, 2), (2, 2)],
                [(1, 1), (2, 1), (1, 2), (2, 2)],
                [(1, 1), (2, 1), (1, 2), (2, 2)],
            ],
        }
    } else if i == 4 {
        Tetromino {
            color: Color::Lime,
            points: [
                [(1, 1), (2, 1), (0, 2), (1, 2)],
                [(1, 0), (1, 1), (2, 1), (2, 2)],
                [(1, 1), (2, 1), (0, 2), (1, 2)],
                [(1, 0), (1, 1), (2, 1), (2, 2)],
            ],
        }
    } else if i == 5 {
        Tetromino {
            color: Color::Purple,
            points: [
                [(0, 1), (1, 1), (2, 1), (1, 2)],
                [(1, 0), (0, 1), (1, 1), (1, 2)],
                [(1, 0), (0, 1), (1, 1), (2, 1)],
                [(1, 0), (1, 1), (2, 1), (1, 2)],
            ],
        }
    } else {
        Tetromino {
            color: Color::Red,
            points: [
                [(0, 1), (1, 1), (1, 2), (2, 2)],
                [(2, 0), (1, 1), (2, 1), (1, 2)],
                [(0, 1), (1, 1), (1, 2), (2, 2)],
                [(2, 0), (1, 1), (2, 1), (1, 2)],
            ],
        }
    }
}

/// In its first rotation every catalog shape lies in columns 0 to 3 and
/// rows 0 to 2 of its frame.
pub proof fn lemma_unrotated_frame(i: int)
    requires
        0 <= i < SHAPE_COUNT,
    ensures
        forall|k: int|
            0 <= k < 4 ==> #[trigger] catalog(i).offset(0, k).0 <= 3 && catalog(i).offset(0, k).1 <= 2,
{
    let t = catalog(i);
    assert(t.points[0][0].1 <= 2 && t.points[0][1].1 <= 2 && t.points[0][2].1 <= 2 && t.points[0][3].1 <= 2);
    assert(t.points[0][0].0 <= 3 && t.points[0][1].0 <= 3 && t.points[0][2].0 <= 3 && t.points[0][3].0 <= 3);
}

/// A shape: its color and, for each rotation, the four cells it covers
/// within a 4 by 4 frame, as `(column, row)` offsets.
#[derive(Clone, Copy, Debug)]
pub struct Tetromino {
    pub color: Color,
    pub points: [[(usize, usize); 4]; 4],
}

impl Tetromino {
    /// The color of the shape.
    pub open spec fn color_spec(&self) -> Color {
        self.color
    }

    /// The offset of cell `k` in rotation `r`.
    pub open spec fn offset(&self, r: nat, k: int) -> (usize, usize) {
        self.points[r as int][k]
    }

    /// Every offset lies within the 4 by 4 frame.
    pub open spec fn wf(&self) -> bool {
        forall|r: nat, k: int|
            r < 4 && 0 <= k < 4 ==> #[trigger] self.offset(r, k).0 < 4 && self.offset(r, k).1 < 4
    }

    /// Catalog shape `index`.
    pub fn shape(index: usize) -> (t: Tetromino)
        requires
            index < SHAPE_COUNT,
        ensures
            t == catalog(index as int),
            t.wf(),
            t.color_spec() == shape_color(index as int),
    {
        let t = match index {
            0 => Tetromino {
                color: Color::Cyan,
                points: [
                    [(0, 2), (1, 2), (2, 2), (3, 2)],
                    [(2, 0), (2, 1), (2, 2), (2, 3)],
                    [(0, 2), (1, 2), (2, 2), (3, 2)],
                    [(2, 0), (2, 1), (2, 2), (2, 3)],
                ],
            },
            1 => Tetromino {
                color: Color::Blue,
                points: [
                    [(0, 1), (1, 1), (2, 1), (2, 2)],
                    [(1, 0), (1, 1), (0, 2), (1, 2)],
                    [(0, 0), (0, 1), (1, 1), (2, 1)],
                    [(1, 0), (2, 0), (1, 1), (1, 2)],
                ],
            },
            2 => Tetromino {
                color: Color::Orange,
                points: [
                    [(0, 1), (1, 1), (2, 1), (0, 2)],
                    [(0, 0), (1, 0), (1, 1), (1, 2)],
                    [(2, 0), (0, 1), (1, 1), (2, 1)],
                    [(1, 0), (1, 1), (1, 2), (2, 2)],
                ],
            },
            3 => Tetromino {
                color: Color::Yellow,
                points: [
                    [(1, 1), (2, 1), (1, 2), (2, 2)],
                    [(1, 1), (2, 1), (1, 2), (2, 2)],
                    [(1, 1), (2, 1), (1, 2), (2, 2)],
                    [(1, 1), (2, 1), (1, 2), (2, 2)],
                ],
            },
            4 => Tetromino {
                color: Color::Lime,
                points: [
                    [(1, 1), (2, 1), (0, 2), (1, 2)],
                    [(1, 0), (1, 1), (2, 1), (2, 2)],
                    [(1, 1), (2, 1), (0, 2), (1, 2)],
                    [(1, 0), (1, 1), (2, 1), (2, 2)],
                ],
            },
            5 => Tetromino {
                color: Color::Purple,
                points: [
                    [(0, 1), (1, 1), (2, 1), (1, 2)],
                    [(1, 0), (0, 1), (1, 1), (1, 2)],
                    [(1, 0), (0, 1), (1, 1), (2, 1)],
                    [(1, 0), (1, 1), (2, 1), (1, 2)],
                ],
            },
            _ => Tetromino {
                color: Color::Red,
                points: [
                    [(0, 1), (1, 1), (1, 2), (2, 2)],
                    [(2, 0), (1, 1), (2, 1), (1, 2)],
                    [(0, 1), (1, 1), (1, 2), (2, 2)],
                    [(2, 0), (1, 1), (2, 1), (1, 2)],
                ],
            },
        };
        t
    }

    /// The four cells of the shape in `rotation`.
    pub fn points(&self, rotation: Rotation) -> (p: &[(usize, usize); 4])
        ensures
            forall|k: int| 0 <= k < 4 ==> #[trigger] p[k] == self.offset(rotation.index(), k),
    {
        &self.points[rotation.as_index()]
    }

    /// The color of the shape.
    pub fn get_color(&self) -> (c: Color)
        ensures
            c == self.color_spec(),
    {
        self.color
    }
}

/// The shape indices of a full bag, one of each.
pub open spec fn full_bag() -> Seq<usize> {
    seq![0usize, 1, 2, 3, 4, 5, 6]
}

/// One draw from a bag whose pending shapes were `before` and are `after`:
/// an empty bag is refilled with a permutation of all shapes that does not
/// start with a disallowed color, and the next pending shape is dealt.
pub open spec fn draw_step(before: Seq<usize>, after: Seq<usize>, drawn: usize) -> bool {
    if before.len() == 0 {
        &&& after.push(drawn).to_multiset() == full_bag().to_multiset()
        &&& !disallowed_start(shape_color(drawn as int))
    } else {
        drawn == before.last() && after == before.drop_last()
    }
}

/// A permutation of the full bag holds exactly the catalog indices.
proof fn lemma_full_bag_members(s: Seq<usize>)
    requires
        s.to_multiset() == full_bag().to_multiset(),
    ensures
        forall|i: int| 0 <= i < s.len() ==> #[trigger] s[i] < SHAPE_COUNT,
        forall|k: usize| k < SHAPE_COUNT ==> #[trigger] s.contains(k),
{
    broadcast use vstd::seq_lib::group_to_multiset_ensures;

    assert forall|i: int| 0 <= i < s.len() implies #[trigger] s[i] < SHAPE_COUNT by {
        assert(s.contains(s[i]));
        assert(s.to_multiset().count(s[i]) > 0);
        assert(full_bag().to_multiset().count(s[i]) > 0);
        assert(full_bag().contains(s[i]));
        let j = choose|j: int| 0 <= j < full_bag().len() && full_bag()[j] == s[i];
        assert(full_bag()[j] == j);
    }
    assert forall|k: usize| k < SHAPE_COUNT implies #[trigger] s.contains(k) by {
        assert(full_bag()[k as int] == k);
        assert(full_bag().contains(k));
        assert(full_bag().to_multiset().count(k) > 0);
        assert(s.to_multiset().count(k) > 0);
    }
}

/// After `k` draws from an empty bag, the pending shapes and the dealt ones
/// together make up one full bag.
proof fn lemma_draws_so_far(bags: Seq<Seq<usize>>, draws: Seq<usize>, k: int)
    requires
        bags.len() == 8,
        draws.len() == 7,
        bags[0].len() == 0,
        forall|i: int| 0 <= i < 7 ==> #[trigger] draw_step(bags[i], bags[i + 1], draws[i]),
        1 <= k <= 7,
    ensures
        bags[k].len() == 7 - k,
        bags[k].to_multiset().add(draws.take(k).to_multiset()) == full_bag().to_multiset(),
    decreases k,
{
    broadcast use vstd::seq_lib::group_to_multiset_ensures;

    let p = k - 1;
    assert(draw_step(bags[p], bags[p + 1], draws[p]));
    if k == 1 {
        assert(draws.take(1) =~= Seq::<usize>::empty().push(draws[0]));
        assert(bags[1].push(draws[0]).to_multiset().len() == 7);
        assert(bags[1].to_multiset().add(draws.take(1).to_multiset()) =~= bags[1].push(
            draws[0],
        ).to_multiset());
    } else {
        lemma_draws_so_far(bags, draws, k - 1);
        let before = bags[k - 1];
        assert(before =~= bags[k].push(draws[k - 1]));
        assert(draws.take(k) =~= draws.take(k - 1).push(draws[k - 1]));
        assert(bags[k].to_multiset().add(draws.take(k).to_multiset()) =~= before.to_multiset().add(
            draws.take(k - 1).to_multiset(),
        ));
    }
}

/// Seven consecutive draws that begin at an empty bag (a new bag, or one
/// just cleared or used up) deal each of the seven shapes exactly once.
pub proof fn lemma_seven_draws_deal_every_shape(bags: Seq<Seq<usize>>, draws: Seq<usize>)
    requires
        bags.len() == 8,
        draws.len() == 7,
        bags[0].len() == 0,
        forall|i: int| 0 <= i < 7 ==> #[trigger] draw_step(bags[i], bags[i + 1], draws[i]),
    ensures
        draws.to_multiset() == full_bag().to_multiset(),
        forall|k: usize| k < SHAPE_COUNT ==> #[trigger] draws.to_multiset().count(k) == 1,
{
    lemma_draws_so_far(bags, draws, 7);
    assert(draws.take(7) =~= draws);
    assert(bags[7] =~= Seq::<usize>::empty());
    assert(bags[7].to_multiset() =~= Multiset::<usize>::empty()) by {
        broadcast use vstd::seq_lib::group_to_multiset_ensures;
    }
    assert(draws.to_multiset() =~= full_bag().to_multiset());
    assert forall|k: usize| k < SHAPE_COUNT implies #[trigger] draws.to_multiset().count(k) == 1 by {
        lemma_full_bag_counts(k);
    }
}

/// Each catalog index occurs once in the full bag.
proof fn lemma_full_bag_counts(k: usize)
    requires
        k < SHAPE_COUNT,
    ensures
        full_bag().to_multiset().count(k) == 1,
{
    broadcast use vstd::seq_lib::group_to_multiset_ensures;

    let f = full_bag();
    assert(f =~= seq![0usize].push(1).push(2).push(3).push(4).push(5).push(6));
    assert(seq![0usize] =~= Seq::<usize>::empty().push(0));
    assert(Seq::<usize>::empty().to_multiset() =~= Multiset::<usize>::empty());
}

/// How many times a refill reshuffles at most while its first shape is a
/// disallowed one, before it swaps an allowed shape to the front.
const SHUFFLE_ATTEMPTS: u32 = 64;

/// The randomizer: a queue of pending shape indices, dealt from the back.
pub struct TetrominoBag {
    bag: Vec<usize>,
}

impl View for TetrominoBag {
    type V = Seq<usize>;

    /// The pending shapes; the last one is dealt next.
    closed spec fn view(&self) -> Seq<usize> {
        self.bag@
    }
}

impl TetrominoBag {
    /// Every pending index names a shape of the catalog.
    pub open spec fn wf(&self) -> bool {
        forall|i: int| 0 <= i < self@.len() ==> #[trigger] self@[i] < SHAPE_COUNT
    }

    /// An empty bag: the first draw fills it.
    pub fn new() -> (b: TetrominoBag)
        ensures
            b@ == Seq::<usize>::empty(),
            b.wf(),
    {
        TetrominoBag { bag: Vec::with_capacity(7) }
    }

    /// Whether the shape that would be dealt next has an allowed color.
    pub fn valid_start(&self) -> (r: bool)
        requires
            self@.len() > 0,
            self.wf(),
        ensures
            r == !disallowed_start(shape_color(self@.last() as int)),
    {
        let last = self.bag[self.bag.len() - 1];
        match Tetromino::shape(last).get_color() {
            Color::Yellow | Color::Lime | Color::Red => false,
            _ => true,
        }
    }

    /// Empties the bag, so that the next draw reshuffles.
    pub fn clear(&mut self)
        ensures
            final(self)@ == Seq::<usize>::empty(),
            final(self).wf(),
    {
        self.bag.clear();
    }

    /// Fills an empty bag with a shuffled full set whose last shape has an
    /// allowed color.
    fn refill(&mut self)
        requires
            old(self)@.len() == 0,
        ensures
            final(self)@.to_multiset() == full_bag().to_multiset(),
            final(self)@.len() == SHAPE_COUNT,
            final(self).wf(),
            !disallowed_start(shape_color(final(self)@.last() as int)),
    {
        broadcast use vstd::seq_lib::group_to_multiset_ensures;

        self.bag = vec![0, 1, 2, 3, 4, 5, 6];
        assert(self.bag@ =~= full_bag());
        shuffle(&mut self.bag);
        proof {
            lemma_full_bag_members(self@);
        }
        let mut attempts: u32 = 0;
        while attempts < SHUFFLE_ATTEMPTS && !self.valid_start()
            invariant
                self@.to_multiset() == full_bag().to_multiset(),
                self@.len() == SHAPE_COUNT,
                self.wf(),
            decreases SHUFFLE_ATTEMPTS - attempts,
        {
            shuffle(&mut self.bag);
            proof {
                lemma_full_bag_members(self@);
            }
            attempts = attempts + 1;
        }
        self.settle_start();
    }

    /// Makes a shuffled full bag start with an allowed shape: it is kept as
    /// it is when its next shape is allowed; otherwise the first shape 0 in
    /// it (always allowed) is moved to the back, to be dealt next.
    fn settle_start(&mut self)
        requires
            old(self)@.to_multiset() == full_bag().to_multiset(),
            old(self)@.len() == SHAPE_COUNT,
        ensures
            !disallowed_start(shape_color(old(self)@.last() as int)) ==> final(self)@ == old(self)@,
            disallowed_start(shape_color(old(self)@.last() as int)) ==> exists|j: int|
                0 <= j < old(self)@.len() && old(self)@[j] == 0usize && (forall|i: int|
                    0 <= i < j ==> old(self)@[i] != 0usize) && final(self)@ == old(self)@.remove(
                    j,
                ).push(0usize),
            final(self)@.to_multiset() == full_bag().to_multiset(),
            final(self)@.len() == SHAPE_COUNT,
            final(self).wf(),
            !disallowed_start(shape_color(final(self)@.last() as int)),
    {
        broadcast use vstd::seq_lib::group_to_multiset_ensures;

        proof {
            lemma_full_bag_members(self@);
        }
        if self.valid_start() {
            return;
        }
        let mut j: usize = 0;
        while j < self.bag.len() && self.bag[j] != 0
            invariant
                j <= self@.len(),
                self@ == old(self)@,
                self@.contains(0usize),
                forall|i: int| 0 <= i < j ==> self@[i] != 0usize,
            decreases self@.len() - j,
        {
            j = j + 1;
        }
        let ghost before = self@;
        let x = self.bag.remove(j);
        self.bag.push(x);
        assert(self@ == before.remove(j as int).push(x));
        assert(before.to_multiset().remove(x).insert(x) =~= before.to_multiset());
        proof {
            lemma_full_bag_members(self@);
        }
    }

    /// Deals the next shape index, refilling the bag first when it is empty.
    pub fn next(&mut self) -> (shape: usize)
        requires
            old(self).wf(),
        ensures
            shape < SHAPE_COUNT,
            final(self).wf(),
            draw_step(old(self)@, final(self)@, shape),
    {
        if self.bag.len() == 0 {
            self.refill();
        }
        let ghost full = self@;
        let shape = self.bag.pop().unwrap();
        assert(full == self@.push(shape));
        shape
    }
}

} // verus!
