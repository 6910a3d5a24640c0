//! Pieces: a shape held in a grid buffer, and whether it is still falling.
use vstd::prelude::*;
use rand::Rng;
use crate::buffer::{
    grid_ok, grid_width, lemma_rotated_shape, rotated, Buffer, Cell, Color,
};
use crate::units::Size;

verus! {

/// The number of shapes a piece can take.
pub const SHAPE_COUNT: usize = 7;

/// The number of distinct quarter turns.
pub const TURN_COUNT: usize = 4;

/// Whether a piece still falls or has come to rest and waits to be placed.
#[derive(Debug, Clone, Copy, PartialEq, Eq, Structural)]
pub enum TetroState {
    Descent,
    WaitToPlace,
}

/// A falling piece: its shape, in a coordinate space of its own, and its state.
#[derive(Clone, Debug)]
pub struct Tetro {
    pub state: TetroState,
    pub buffer: Buffer,
}

/// The cells of shape `k`: I, J, L, O, S, T and Z, in that order.
pub open spec fn shape_cells(k: int) -> Seq<Seq<Cell>> {
    let c = Some(Color::Cyan);
    let b = Some(Color::Blue);
    let l = Some(Color::LightMagenta);
    let y = Some(Color::Yellow);
    let g = Some(Color::Green);
    let m = Some(Color::Magenta);
    let r = Some(Color::Red);
    let e: Cell = None;
    if k == 0 {
        seq![seq![c, c, c, c]]
    } else if k == 1 {
        seq![seq![b, e, e], seq![b, b, b]]
    } else if k == 2 {
        seq![seq![e, e, l], seq![l, l, l]]
    } else if k == 3 {
        seq![seq![y, y], seq![y, y]]
    } else if k == 4 {
        seq![seq![e, g, g], seq![g, g, e]]
    } else if k == 5 {
        seq![seq![e, m, e], seq![m, m, m]]
    } else {
        seq![seq![r, r, e], seq![e, r, r]]
    }
}

/// The grid turned a quarter clockwise `n` times.
pub open spec fn turned(g: Seq<Seq<Cell>>, n: nat) -> Seq<Seq<Cell>>
    decreases n,
{
    if n == 0 {
        g
    } else {
        rotated(turned(g, (n - 1) as nat))
    }
}

/// A well-formed grid of at most four rows and four columns.
pub open spec fn small(g: Seq<Seq<Cell>>) -> bool {
    &&& grid_ok(g)
    &&& g.len() <= 4
    &&& grid_width(g) <= 4
}

/// Shape `k` turned `n` times, falling.
pub open spec fn is_shape(t: Tetro, k: int, n: int) -> bool {
    &&& 0 <= k < SHAPE_COUNT
    &&& 0 <= n < TURN_COUNT
    &&& t.state == TetroState::Descent
    &&& t.buffer@ == turned(shape_cells(k), n as nat)
    &&& t.buffer.wf()
}

/// One of the canonical shapes in one of its turns, falling.
pub open spec fn is_canonical(t: Tetro) -> bool {
    exists|k: int, n: int| is_shape(t, k, n)
}

/// Relies on rand's `thread_rng` and `Rng::gen_range(0..n)`: a value drawn
/// from `0..n`; it panics only on an empty range.
#[verifier::external_body]
fn random_below(n: usize) -> (r: usize)
    requires
        n > 0,
    ensures
        r < n,
{
    rand::thread_rng().gen_range(0..n)
}

/// A small grid stays small when turned.
proof fn lemma_turn_small(g: Seq<Seq<Cell>>)
    requires
        small(g),
    ensures
        small(rotated(g)),
{
    lemma_rotated_shape(g);
}

impl Tetro {

    /// A copy of the piece turned a quarter clockwise, falling; the piece
    /// itself is left as it is.
    pub fn rotate_right(&mut self) -> (r: Tetro)
        requires
            old(self).buffer.wf(),
        ensures
            *final(self) == *old(self),
            r.state == TetroState::Descent,
            r.buffer.wf(),
            r.buffer@ == rotated(old(self).buffer@),
    {
        Tetro { state: TetroState::Descent, buffer: self.buffer.rotate_right() }
    }

    pub fn size(&self) -> (r: Size)
        requires
            self.buffer.wf(),
        ensures
            r.width == grid_width(self.buffer@),
            r.height == self.buffer@.len(),
    {
        self.buffer.size()
    }

    /// A piece of a shape and a number of quarter turns drawn at random.
    pub fn new() -> (r: Tetro)
        ensures
            is_canonical(r),
            small(r.buffer@),
    {
        let kind = random_below(SHAPE_COUNT);
        let turns = random_below(TURN_COUNT);
        Tetro::from_choice(kind, turns)
    }

    /// Shape `kind` turned a quarter clockwise `turns` times, falling.
    pub fn from_choice(kind: usize, turns: usize) -> (r: Tetro)
        requires
            kind < SHAPE_COUNT,
            turns < TURN_COUNT,
        ensures
            is_shape(r, kind as int, turns as int),
            small(r.buffer@),
    {
        let mut t = Tetro::tetros(kind);
        let mut i: usize = 0;
        while i < turns
            invariant
                i <= turns,
                turns < TURN_COUNT,
                t.state == TetroState::Descent,
                t.buffer.wf(),
                t.buffer@ == turned(shape_cells(kind as int), i as nat),
                small(t.buffer@),
            decreases turns - i,
        {
            proof {
                lemma_turn_small(t.buffer@);
            }
            t = t.rotate_right();
            i = i + 1;
        }
        t
    }

    /// A falling piece of the given cells.
    pub fn from_vec(buffer: Vec<Vec<Cell>>) -> (r: Tetro)
        requires
            grid_ok(buffer@.map_values(|row: Vec<Cell>| row@)),
        ensures
            r.state == TetroState::Descent,
            r.buffer@ == buffer@.map_values(|row: Vec<Cell>| row@),
            r.buffer.wf(),
    {
        Tetro { state: TetroState::Descent, buffer: Buffer::from_vecs(buffer) }
    }

    /// Shape `kind`, unturned.
    fn tetros(kind: usize) -> (r: Tetro)
        requires
            kind < SHAPE_COUNT,
        ensures
            r.state == TetroState::Descent,
            r.buffer.wf(),
            r.buffer@ == shape_cells(kind as int),
            small(r.buffer@),
    {
        let c = Some(Color::Cyan);
        let b = Some(Color::Blue);
        let l = Some(Color::LightMagenta);
        let y = Some(Color::Yellow);
        let g = Some(Color::Green);
        let m = Some(Color::Magenta);
        let r = Some(Color::Red);
        let e: Cell = None;
        let cells: Vec<Vec<Cell>> = if kind == 0 {
            vec![vec![c, c, c, c]]
        } else if kind == 1 {
            vec![vec![b, e, e], vec![b, b, b]]
        } else if kind == 2 {
            vec![vec![e, e, l], vec![l, l, l]]
        } else if kind == 3 {
            vec![vec![y, y], vec![y, y]]
        } else if kind == 4 {
            vec![vec![e, g, g], vec![g, g, e]]
        } else if kind == 5 {
            vec![vec![e, m, e], vec![m, m, m]]
        } else {
            vec![vec![r, r, e], vec![e, r, r]]
        };
        assert(cells@.map_values(|row: Vec<Cell>| row@) =~= shape_cells(kind as int));
        Tetro::from_vec(cells)
    }
}

} // verus!
