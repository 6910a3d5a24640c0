//! The playing field: the active and the next piece, their movement against
//! the walls, the floor and the settled cells, placement, and line clearing.
use vstd::prelude::*;
use crate::buffer::{
    empty_grid, grid_ok, grid_width, lemma_removed_row_shape, removed_row, row_full, rotated,
    Buffer, Cell,
};
use crate::tetro::{is_canonical, Tetro, TetroState};
use crate::units::{Pos, Size};

verus! {

/// Columns of the field.
pub const FIELD_WIDTH: u16 = 12;

/// Rows of the field.
pub const FIELD_HEIGHT: u16 = 20;

/// The fastest descent level; at level `l` a piece falls one row every
/// `MAX_DESCENT_SPEED - l` ticks.
pub const MAX_DESCENT_SPEED: u32 = 10;

/// The descent level of a fresh field.
pub const START_DESCENT_SPEED: u32 = 1;

/// Points for each cleared row.
pub const LINE_SCORE: u32 = 10;

/// Points for each placed piece.
pub const PLACE_SCORE: u32 = 1;

/// A key that the field or the round reacts to.
#[derive(Debug, Clone, Copy, PartialEq, Eq, Structural)]
pub enum Key {
    Left,
    Right,
    Up,
    Down,
    Space,
    Other,
}

/// A grid of the field's dimensions.
pub open spec fn field_ok(g: Seq<Seq<Cell>>) -> bool {
    &&& grid_ok(g)
    &&& g.len() == FIELD_HEIGHT
    &&& grid_width(g) == FIELD_WIDTH
}

/// A well-formed piece no larger than the field.
pub open spec fn fits(t: Tetro) -> bool {
    &&& t.buffer.wf()
    &&& grid_width(t.buffer@) <= FIELD_WIDTH
    &&& t.buffer@.len() <= FIELD_HEIGHT
}

/// The piece's bounding box, with its top left at `(x, y)`, lies in the field.
pub open spec fn in_field(piece: Seq<Seq<Cell>>, x: int, y: int) -> bool {
    &&& 0 <= x
    &&& 0 <= y
    &&& x + grid_width(piece) <= FIELD_WIDTH
    &&& y + piece.len() <= FIELD_HEIGHT
}

/// Cell `(tx, ty)` of the piece is occupied, and so is the field cell under
/// it when the piece stands at `(x, y)`.
pub open spec fn hit(
    field: Seq<Seq<Cell>>,
    piece: Seq<Seq<Cell>>,
    x: int,
    y: int,
    tx: int,
    ty: int,
) -> bool {
    &&& 0 <= ty < piece.len()
    &&& 0 <= tx < grid_width(piece)
    &&& piece[ty][tx] is Some
    &&& field[y + ty][x + tx] is Some
}

/// Some occupied cell of the piece at `(x, y)` falls on an occupied field cell.
pub open spec fn overlaps(field: Seq<Seq<Cell>>, piece: Seq<Seq<Cell>>, x: int, y: int) -> bool {
    exists|tx: int, ty: int| #[trigger] hit(field, piece, x, y, tx, ty)
}

/// Field cell `(c, r)` lies under an occupied cell of the piece at `(x, y)`.
pub open spec fn covers(piece: Seq<Seq<Cell>>, x: int, y: int, c: int, r: int) -> bool {
    &&& y <= r < y + piece.len()
    &&& x <= c < x + grid_width(piece)
    &&& piece[r - y][c - x] is Some
}

/// The field with the piece's occupied cells copied into it at `(x, y)`.
pub open spec fn placed(field: Seq<Seq<Cell>>, piece: Seq<Seq<Cell>>, x: int, y: int) -> Seq<
    Seq<Cell>,
> {
    Seq::new(
        field.len(),
        |r: int|
            Seq::new(
                field[r].len(),
                |c: int|
                    if covers(piece, x, y, c, r) {
                        piece[r - y][c - x]
                    } else {
                        field[r][c]
                    },
            ),
    )
}

/// Where a move of a piece in state `state` towards `(x, y)` ends, and the
/// piece's state then: past the right wall the column goes back by one and
/// the state is kept; past the floor, or onto settled cells, the row goes back
/// by one (but not above the top row) and the piece waits to be placed;
/// otherwise the move stands and the piece falls on.
pub open spec fn resolve(
    field: Seq<Seq<Cell>>,
    piece: Seq<Seq<Cell>>,
    state: TetroState,
    x: int,
    y: int,
) -> (int, int, TetroState) {
    if x + grid_width(piece) > FIELD_WIDTH {
        (x - 1, y, state)
    } else if y + piece.len() > FIELD_HEIGHT {
        (x, y - 1, TetroState::WaitToPlace)
    } else if overlaps(field, piece, x, y) {
        (x, if y > 0 { y - 1 } else { 0 }, TetroState::WaitToPlace)
    } else {
        (x, y, TetroState::Descent)
    }
}

/// No row of the grid is full.
pub open spec fn no_full_row(g: Seq<Seq<Cell>>) -> bool {
    forall|y: int| 0 <= y < g.len() ==> !row_full(#[trigger] g[y])
}

/// Some row of the grid is full.
pub open spec fn has_full_row(g: Seq<Seq<Cell>>) -> bool {
    exists|y: int| 0 <= y < g.len() && row_full(#[trigger] g[y])
}

/// Row `y` is the topmost full row.
pub open spec fn is_first_full(g: Seq<Seq<Cell>>, y: int) -> bool {
    &&& 0 <= y < g.len()
    &&& row_full(g[y])
    &&& forall|k: int| 0 <= k < y ==> !row_full(#[trigger] g[k])
}

/// The topmost full row, where there is one.
pub open spec fn first_full(g: Seq<Seq<Cell>>) -> int {
    choose|y: int| is_first_full(g, y)
}

/// The field as `placed` makes it, with only the piece cells before row `ty`,
/// or in row `ty` before column `tx`, copied in.
spec fn placed_upto(
    field: Seq<Seq<Cell>>,
    piece: Seq<Seq<Cell>>,
    x: int,
    y: int,
    ty: int,
    tx: int,
) -> Seq<Seq<Cell>> {
    Seq::new(
        field.len(),
        |r: int|
            Seq::new(
                field[r].len(),
                |c: int|
                    if covers(piece, x, y, c, r) && (r - y < ty || (r - y == ty && c - x < tx)) {
                        piece[r - y][c - x]
                    } else {
                        field[r][c]
                    },
            ),
    )
}

/// The field keeps its dimensions when a piece in the field is copied into it.
proof fn lemma_placed_field_ok(field: Seq<Seq<Cell>>, piece: Seq<Seq<Cell>>, x: int, y: int)
    requires
        field_ok(field),
    ensures
        field_ok(placed(field, piece, x, y)),
{
    let p = placed(field, piece, x, y);
    assert(p[0].len() == field[0].len());
    assert forall|i: int| 0 <= i < p.len() implies #[trigger] p[i].len() == grid_width(p) by {
        assert(field[i].len() == grid_width(field));
    }
}

/// Placing a piece changes exactly the field cells under the piece's
/// occupied cells, which take the piece's cells; every other cell keeps its
/// content, and the field keeps its dimensions.
pub proof fn lemma_place_changes_only_footprint(
    field: Seq<Seq<Cell>>,
    piece: Seq<Seq<Cell>>,
    x: int,
    y: int,
)
    requires
        field_ok(field),
    ensures
        field_ok(placed(field, piece, x, y)),
        forall|r: int, c: int|
            0 <= r < FIELD_HEIGHT && 0 <= c < FIELD_WIDTH && !covers(piece, x, y, c, r)
                ==> #[trigger] placed(field, piece, x, y)[r][c] == field[r][c],
        forall|r: int, c: int|
            0 <= r < FIELD_HEIGHT && 0 <= c < FIELD_WIDTH && covers(piece, x, y, c, r)
                ==> #[trigger] placed(field, piece, x, y)[r][c] == piece[r - y][c - x],
{
    lemma_placed_field_ok(field, piece, x, y);
    assert forall|r: int, c: int|
        0 <= r < FIELD_HEIGHT && 0 <= c < FIELD_WIDTH implies #[trigger] placed(
        field,
        piece,
        x,
        y,
    )[r][c] == (if covers(piece, x, y, c, r) {
        piece[r - y][c - x]
    } else {
        field[r][c]
    }) by {
        assert(field[r].len() == FIELD_WIDTH);
    }
}

/// Placing the same piece at the same position a second time leaves the
/// field as the first placement made it.
pub proof fn lemma_place_twice_is_place_once(
    field: Seq<Seq<Cell>>,
    piece: Seq<Seq<Cell>>,
    x: int,
    y: int,
)
    requires
        field_ok(field),
    ensures
        placed(placed(field, piece, x, y), piece, x, y) == placed(field, piece, x, y),
{
    let once = placed(field, piece, x, y);
    let twice = placed(once, piece, x, y);
    assert forall|r: int| 0 <= r < twice.len() implies #[trigger] twice[r] =~= once[r] by {
        assert(field[r].len() == FIELD_WIDTH);
    }
    assert(twice =~= once);
}

/// From a position in the field where a falling piece overlaps nothing, a
/// move by one column, or down by one row, ends in the field, and ends in a
/// falling state only where the piece overlaps no settled cell.
pub proof fn lemma_resolve_never_overlaps(
    field: Seq<Seq<Cell>>,
    piece: Seq<Seq<Cell>>,
    state: TetroState,
    px: int,
    py: int,
    x: int,
    y: int,
)
    requires
        field_ok(field),
        grid_ok(piece),
        in_field(piece, px, py),
        state == TetroState::Descent ==> !overlaps(field, piece, px, py),
        0 <= x,
        (y == py && (x == px + 1 || x == px - 1)) || (x == px && y == py + 1),
    ensures
        in_field(piece, resolve(field, piece, state, x, y).0, resolve(field, piece, state, x, y).1),
        resolve(field, piece, state, x, y).2 == TetroState::Descent ==> !overlaps(
            field,
            piece,
            resolve(field, piece, state, x, y).0,
            resolve(field, piece, state, x, y).1,
        ),
{
}

/// The field, its pieces, the score and the descent timing.
#[derive(Debug)]
pub struct Playground {
    pub score: u32,
    pub tetro_pos: Pos,
    pub tetro: Option<Tetro>,
    pub next: Option<Tetro>,
    pub buffer: Buffer,
    pub descent_speed: u32,
    pub tick_count: u32,
}

/// Everything but the active piece, its position and the tick count is kept.
pub open spec fn keeps_field(old: Playground, new: Playground) -> bool {
    &&& new.buffer == old.buffer
    &&& new.next == old.next
    &&& new.score == old.score
    &&& new.descent_speed == old.descent_speed
}

/// The active piece moved towards `(x, y)` as `resolve` says.
pub open spec fn moved(old: Playground, new: Playground, x: int, y: int) -> bool {
    let t = old.tetro->0;
    let m = resolve(old.buffer@, t.buffer@, t.state, x, y);
    &&& new.tetro == Some(Tetro { state: m.2, buffer: t.buffer })
    &&& new.tetro_pos.x == m.0
    &&& new.tetro_pos.y == m.1
    &&& keeps_field(old, new)
}

/// A move one column to the left; none at the left wall or without a piece.
pub open spec fn after_move_left(old: Playground, new: Playground) -> bool {
    if old.tetro is Some && old.tetro_pos.x > 0 {
        &&& moved(old, new, old.tetro_pos.x - 1, old.tetro_pos.y as int)
        &&& new.tick_count == old.tick_count
    } else {
        new == old
    }
}

/// A move one column to the right; none without a piece.
pub open spec fn after_move_right(old: Playground, new: Playground) -> bool {
    if old.tetro is Some {
        &&& moved(old, new, old.tetro_pos.x + 1, old.tetro_pos.y as int)
        &&& new.tick_count == old.tick_count
    } else {
        new == old
    }
}

/// Where a turned piece is tried: the old position moved by half the old
/// piece's width and height, less one, and not below zero.
pub open spec fn rotate_target(piece: Seq<Seq<Cell>>, pos: Pos) -> (int, int) {
    let tx = pos.x + grid_width(piece) / 2 - 1;
    let ty = pos.y + piece.len() / 2 - 1;
    (
        if tx > 0 {
            tx
        } else {
            0
        },
        if ty > 0 {
            ty
        } else {
            0
        },
    )
}

/// The active piece turned a quarter clockwise and put at `rotate_target`,
/// falling, where it lies in the field and overlaps nothing; otherwise no
/// change.
pub open spec fn after_rotate(old: Playground, new: Playground) -> bool {
    if old.tetro is Some {
        let t = old.tetro->0;
        let turned = rotated(t.buffer@);
        let target = rotate_target(t.buffer@, old.tetro_pos);
        if in_field(turned, target.0, target.1) && !overlaps(
            old.buffer@,
            turned,
            target.0,
            target.1,
        ) {
            &&& new.tetro is Some
            &&& new.tetro->0.state == TetroState::Descent
            &&& new.tetro->0.buffer@ == turned
            &&& new.tetro_pos.x == target.0
            &&& new.tetro_pos.y == target.1
            &&& keeps_field(old, new)
            &&& new.tick_count == old.tick_count
        } else {
            new == old
        }
    } else {
        new == old
    }
}

/// The active piece was placed at `(x, y)` and no piece is active.
pub open spec fn settled(old: Playground, new: Playground, x: int, y: int) -> bool {
    let t = old.tetro->0;
    &&& new.tetro is None
    &&& new.buffer@ == placed(old.buffer@, t.buffer@, x, y)
    &&& new.score == old.score.saturating_add(PLACE_SCORE)
    &&& new.next == old.next
    &&& new.descent_speed == old.descent_speed
    &&& new.tetro_pos.x == x
    &&& new.tetro_pos.y == y
    &&& new.tick_count == 0
}

/// One soft descent: a falling piece tries the row below, a waiting piece is
/// placed where it is; the tick count restarts. No change without a piece.
pub open spec fn after_soft(old: Playground, new: Playground) -> bool {
    if old.tetro is Some {
        if old.tetro->0.state == TetroState::Descent {
            &&& moved(old, new, old.tetro_pos.x as int, old.tetro_pos.y + 1)
            &&& new.tick_count == 0
        } else {
            settled(old, new, old.tetro_pos.x as int, old.tetro_pos.y as int)
        }
    } else {
        new == old
    }
}

/// The row at which a piece falling from row `y` in column `x` comes to rest.
pub open spec fn drop_row(field: Seq<Seq<Cell>>, piece: Seq<Seq<Cell>>, x: int, y: int) -> int
    decreases FIELD_HEIGHT - y,
{
    if y + 1 + piece.len() > FIELD_HEIGHT || overlaps(field, piece, x, y + 1) {
        y
    } else {
        drop_row(field, piece, x, y + 1)
    }
}

/// A hard descent: the active piece is placed at the row where it comes to
/// rest (where it is, if it already waits). No change without a piece.
pub open spec fn after_hard(old: Playground, new: Playground) -> bool {
    if old.tetro is Some {
        let x = old.tetro_pos.x as int;
        let y = old.tetro_pos.y as int;
        let rest = if old.tetro->0.state == TetroState::Descent {
            drop_row(old.buffer@, old.tetro->0.buffer@, x, y)
        } else {
            y
        };
        settled(old, new, x, rest)
    } else {
        new == old
    }
}

/// The topmost full row was cleared and counted in the score.
pub open spec fn after_line_clear(old: Playground, new: Playground) -> bool {
    &&& new.buffer@ == removed_row(old.buffer@, first_full(old.buffer@))
    &&& new.score == old.score.saturating_add(LINE_SCORE)
    &&& new.tetro == old.tetro
    &&& new.next == old.next
    &&& new.tetro_pos == old.tetro_pos
    &&& new.descent_speed == old.descent_speed
    &&& new.tick_count == old.tick_count
}

/// The column at which a piece enters the field.
pub open spec fn spawn_x(piece: Seq<Seq<Cell>>) -> int {
    FIELD_WIDTH / 2 - grid_width(piece) / 2
}

/// `piece` entered the field at the top, centred, and `following` became the
/// next piece; where `piece` overlaps settled cells there it is placed there
/// instead, and the result is `false`.
pub open spec fn spawned(
    old: Playground,
    new: Playground,
    piece: Tetro,
    following: Tetro,
    r: bool,
) -> bool {
    let x = spawn_x(piece.buffer@);
    &&& new.next == Some(following)
    &&& new.descent_speed == old.descent_speed
    &&& new.tick_count == old.tick_count
    &&& if overlaps(old.buffer@, piece.buffer@, x, 0) {
        &&& !r
        &&& new.tetro is None
        &&& new.buffer@ == placed(old.buffer@, piece.buffer@, x, 0)
        &&& new.score == old.score.saturating_add(PLACE_SCORE)
        &&& new.tetro_pos == old.tetro_pos
    } else {
        &&& r
        &&& new.tetro == Some(piece)
        &&& new.tetro_pos.x == x
        &&& new.tetro_pos.y == 0
        &&& new.buffer == old.buffer
        &&& new.score == old.score
    }
}

/// One tick: a full row is cleared if there is one; else, without an active
/// piece, the next one (or a drawn one) enters and a drawn piece becomes the
/// next; else the tick count goes up, and past the descent level's count the
/// piece descends softly. The result is `false` only when an entering piece
/// overlaps settled cells.
pub open spec fn after_tick(old: Playground, new: Playground, r: bool) -> bool {
    if has_full_row(old.buffer@) {
        r && after_line_clear(old, new)
    } else if old.tetro is None {
        &&& new.next is Some
        &&& is_canonical(new.next->0)
        &&& old.next is Some ==> spawned(old, new, old.next->0, new.next->0, r)
        &&& old.next is None ==> exists|p: Tetro|
            is_canonical(p) && #[trigger] spawned(old, new, p, new.next->0, r)
    } else if old.tick_count + 1 > MAX_DESCENT_SPEED - old.descent_speed {
        r && after_soft(old, new)
    } else {
        &&& r
        &&& new.tick_count == old.tick_count + 1
        &&& new.tetro == old.tetro
        &&& new.tetro_pos == old.tetro_pos
        &&& keeps_field(old, new)
    }
}

/// What a key does while the round is being played.
pub open spec fn after_key(old: Playground, new: Playground, key: Key) -> bool {
    match key {
        Key::Left => after_move_left(old, new),
        Key::Right => after_move_right(old, new),
        Key::Up => after_rotate(old, new),
        Key::Down => after_soft(old, new),
        Key::Space => after_hard(old, new),
        Key::Other => new == old,
    }
}

/// The state of a fresh field: empty, no pieces, no score, the starting
/// descent level and no ticks counted.
pub open spec fn is_fresh(p: Playground) -> bool {
    &&& p.buffer@ == empty_grid(FIELD_WIDTH as int, FIELD_HEIGHT as int)
    &&& p.score == 0
    &&& p.tetro_pos == (Pos { x: 0, y: 0 })
    &&& p.tetro is None
    &&& p.next is None
    &&& p.descent_speed == START_DESCENT_SPEED
    &&& p.tick_count == 0
}

/// An empty field has no full row.
proof fn lemma_empty_field_has_no_full_row()
    ensures
        no_full_row(empty_grid(FIELD_WIDTH as int, FIELD_HEIGHT as int)),
{
    let g = empty_grid(FIELD_WIDTH as int, FIELD_HEIGHT as int);
    assert forall|y: int| 0 <= y < g.len() implies !row_full(#[trigger] g[y]) by {
        assert(!(g[y][0] is Some));
    }
}

/// In every well-formed state, and so after every operation, the active piece
/// lies in the field, and while it falls it overlaps no settled cell.
pub proof fn lemma_falling_piece_never_overlaps(p: Playground)
    requires
        p.wf(),
    ensures
        p.tetro is Some ==> in_field(
            p.tetro->0.buffer@,
            p.tetro_pos.x as int,
            p.tetro_pos.y as int,
        ),
        p.tetro is Some && p.tetro->0.state == TetroState::Descent ==> !overlaps(
            p.buffer@,
            p.tetro->0.buffer@,
            p.tetro_pos.x as int,
            p.tetro_pos.y as int,
        ),
{
}

/// A measure that every soft descent of an active piece lowers.
spec fn hard_measure(p: Playground) -> int {
    if p.tetro is Some {
        if p.tetro->0.state == TetroState::Descent {
            2 * FIELD_HEIGHT + 1 - p.tetro_pos.y
        } else {
            1
        }
    } else {
        0
    }
}

impl Playground {
    /// The field has its fixed size, the timing is in range, the pieces fit,
    /// the active piece lies in the field, a falling piece overlaps no settled
    /// cell, and while a piece is active no row is full.
    pub open spec fn wf(&self) -> bool {
        &&& self.buffer.wf()
        &&& field_ok(self.buffer@)
        &&& self.descent_speed <= MAX_DESCENT_SPEED
        &&& self.tick_count <= MAX_DESCENT_SPEED
        &&& (self.next is Some ==> fits(self.next->0))
        &&& (self.tetro is Some ==> {
            let t = self.tetro->0;
            &&& fits(t)
            &&& in_field(t.buffer@, self.tetro_pos.x as int, self.tetro_pos.y as int)
            &&& (t.state == TetroState::Descent ==> !overlaps(
                self.buffer@,
                t.buffer@,
                self.tetro_pos.x as int,
                self.tetro_pos.y as int,
            ))
            &&& no_full_row(self.buffer@)
        })
    }

    /// The field's dimensions.
    pub fn size(&self) -> (r: Size)
        ensures
            r.width == FIELD_WIDTH,
            r.height == FIELD_HEIGHT,
    {
        Size::new(FIELD_WIDTH, FIELD_HEIGHT)
    }

    pub fn new() -> (r: Playground)
        ensures
            r.wf(),
            is_fresh(r),
            no_full_row(r.buffer@),
    {
        let buffer = Buffer::new(Size::new(FIELD_WIDTH, FIELD_HEIGHT));
        proof {
            lemma_empty_field_has_no_full_row();
        }
        Playground {
            buffer,
            score: 0,
            tetro_pos: Pos::new(0, 0),
            tetro: None,
            next: None,
            descent_speed: START_DESCENT_SPEED,
            tick_count: 0,
        }
    }

    /// Back to the state of a fresh field.
    pub fn clear(&mut self)
        ensures
            final(self).wf(),
            is_fresh(*final(self)),
            no_full_row(final(self).buffer@),
    {
        self.buffer = Buffer::new(Size::new(FIELD_WIDTH, FIELD_HEIGHT));
        proof {
            lemma_empty_field_has_no_full_row();
        }
        self.score = 0;
        self.tetro_pos = Pos::new(0, 0);
        self.tetro = None;
        self.next = None;
        self.descent_speed = START_DESCENT_SPEED;
        self.tick_count = 0;
    }

    /// Whether the piece at `(pos_x, pos_y)` would overlap a settled cell.
    fn is_reach_bottom(&self, pos_x: u16, pos_y: u16, tetro: &Tetro) -> (r: bool)
        requires
            self.buffer.wf(),
            field_ok(self.buffer@),
            tetro.buffer.wf(),
            in_field(tetro.buffer@, pos_x as int, pos_y as int),
        ensures
            r == overlaps(self.buffer@, tetro.buffer@, pos_x as int, pos_y as int),
    {
        let ghost field = self.buffer@;
        let ghost piece = tetro.buffer@;
        let size = tetro.size();
        let width = size.width;
        let height = size.height;
        let mut ty: u16 = 0;
        while ty < height
            invariant
                self.buffer.wf(),
                field_ok(self.buffer@),
                tetro.buffer.wf(),
                field == self.buffer@,
                piece == tetro.buffer@,
                in_field(piece, pos_x as int, pos_y as int),
                width as int == grid_width(piece),
                height as int == piece.len(),
                ty <= height,
                forall|a: int, b: int|
                    0 <= a < ty && 0 <= b < width ==> !#[trigger] hit(
                        field,
                        piece,
                        pos_x as int,
                        pos_y as int,
                        b,
                        a,
                    ),
            decreases height - ty,
        {
            let mut tx: u16 = 0;
            while tx < width
                invariant
                    self.buffer.wf(),
                    field_ok(self.buffer@),
                    tetro.buffer.wf(),
                    field == self.buffer@,
                    piece == tetro.buffer@,
                    in_field(piece, pos_x as int, pos_y as int),
                    width as int == grid_width(piece),
                    height as int == piece.len(),
                    ty < height,
                    tx <= width,
                    forall|a: int, b: int|
                        (0 <= a < ty && 0 <= b < width) || (a == ty && 0 <= b < tx) ==> !#[trigger] hit(
                            field,
                            piece,
                            pos_x as int,
                            pos_y as int,
                            b,
                            a,
                        ),
                decreases width - tx,
            {
                if tetro.buffer.get(tx, ty).is_some() {
                    if self.buffer.get(pos_x + tx, pos_y + ty).is_some() {
                        assert(hit(field, piece, pos_x as int, pos_y as int, tx as int, ty as int));
                        return true;
                    }
                }
                tx = tx + 1;
            }
            ty = ty + 1;
        }
        assert forall|b: int, a: int| !hit(field, piece, pos_x as int, pos_y as int, b, a) by {
            if 0 <= a < ty && 0 <= b < width {
            }
        }
        false
    }

    /// Copies the piece's occupied cells into the field at `(x, y)`, and
    /// counts the placement in the score.
    pub fn place(&mut self, x: u16, y: u16, tetro: &Tetro)
        requires
            old(self).buffer.wf(),
            field_ok(old(self).buffer@),
            tetro.buffer.wf(),
            in_field(tetro.buffer@, x as int, y as int),
        ensures
            final(self).buffer.wf(),
            field_ok(final(self).buffer@),
            final(self).buffer@ == placed(old(self).buffer@, tetro.buffer@, x as int, y as int),
            final(self).score == old(self).score.saturating_add(PLACE_SCORE),
            final(self).tetro == old(self).tetro,
            final(self).next == old(self).next,
            final(self).tetro_pos == old(self).tetro_pos,
            final(self).descent_speed == old(self).descent_speed,
            final(self).tick_count == old(self).tick_count,
    {
        let ghost field = self.buffer@;
        let ghost piece = tetro.buffer@;
        let size = tetro.size();
        let width = size.width;
        let height = size.height;
        let mut ty: u16 = 0;
        proof {
            let a = placed_upto(field, piece, x as int, y as int, 0, 0);
            assert forall|r: int| 0 <= r < a.len() implies #[trigger] a[r] =~= field[r] by {}
            assert(a =~= field);
        }
        while ty < height
            invariant
                self.buffer.wf(),
                field_ok(self.buffer@),
                field_ok(field),
                tetro.buffer.wf(),
                piece == tetro.buffer@,
                in_field(piece, x as int, y as int),
                width as int == grid_width(piece),
                height as int == piece.len(),
                ty <= height,
                self.buffer@ == placed_upto(field, piece, x as int, y as int, ty as int, 0),
                self.score == old(self).score,
                self.tetro == old(self).tetro,
                self.next == old(self).next,
                self.tetro_pos == old(self).tetro_pos,
                self.descent_speed == old(self).descent_speed,
                self.tick_count == old(self).tick_count,
            decreases height - ty,
        {
            let mut tx: u16 = 0;
            while tx < width
                invariant
                    self.buffer.wf(),
                    field_ok(self.buffer@),
                    field_ok(field),
                    tetro.buffer.wf(),
                    piece == tetro.buffer@,
                    in_field(piece, x as int, y as int),
                    width as int == grid_width(piece),
                    height as int == piece.len(),
                    ty < height,
                    tx <= width,
                    self.buffer@ == placed_upto(field, piece, x as int, y as int, ty as int, tx as int),
                    self.score == old(self).score,
                    self.tetro == old(self).tetro,
                    self.next == old(self).next,
                    self.tetro_pos == old(self).tetro_pos,
                    self.descent_speed == old(self).descent_speed,
                    self.tick_count == old(self).tick_count,
                decreases width - tx,
            {
                let cell = tetro.buffer.get(tx, ty);
                let ghost before = self.buffer@;
                if cell.is_some() {
                    self.buffer.set(x + tx, y + ty, cell);
                }
                proof {
                    let next = placed_upto(field, piece, x as int, y as int, ty as int, tx + 1);
                    assert forall|r: int| 0 <= r < self.buffer@.len() implies #[trigger] self.buffer@[r]
                        =~= next[r] by {
                        assert(field[r].len() == FIELD_WIDTH);
                        assert(before[r].len() == FIELD_WIDTH);
                    }
                    assert(self.buffer@ =~= next);
                }
                tx = tx + 1;
            }
            proof {
                let a = placed_upto(field, piece, x as int, y as int, ty as int, width as int);
                let b = placed_upto(field, piece, x as int, y as int, ty + 1, 0);
                assert forall|r: int| 0 <= r < a.len() implies #[trigger] a[r] =~= b[r] by {
                    assert(field[r].len() == FIELD_WIDTH);
                }
                assert(a =~= b);
            }
            ty = ty + 1;
        }
        proof {
            let a = placed_upto(field, piece, x as int, y as int, height as int, 0);
            let b = placed(field, piece, x as int, y as int);
            assert forall|r: int| 0 <= r < a.len() implies #[trigger] a[r] =~= b[r] by {
                assert(field[r].len() == FIELD_WIDTH);
            }
            assert(a =~= b);
        }
        self.score = self.score.saturating_add(PLACE_SCORE);
    }

    /// Moves the piece towards `(x, y)` as `resolve` says, setting its state.
    fn move_to(&mut self, x: u16, y: u16, tetro: &mut Tetro)
        requires
            old(self).buffer.wf(),
            field_ok(old(self).buffer@),
            fits(*old(tetro)),
            x as int + grid_width(old(tetro).buffer@) > FIELD_WIDTH ==> x > 0,
            y as int + old(tetro).buffer@.len() > FIELD_HEIGHT ==> y > 0,
        ensures
            final(tetro).buffer == old(tetro).buffer,
            final(self).tetro_pos.x == resolve(
                old(self).buffer@,
                old(tetro).buffer@,
                old(tetro).state,
                x as int,
                y as int,
            ).0,
            final(self).tetro_pos.y == resolve(
                old(self).buffer@,
                old(tetro).buffer@,
                old(tetro).state,
                x as int,
                y as int,
            ).1,
            final(tetro).state == resolve(
                old(self).buffer@,
                old(tetro).buffer@,
                old(tetro).state,
                x as int,
                y as int,
            ).2,
            final(self).buffer == old(self).buffer,
            final(self).score == old(self).score,
            final(self).tetro == old(self).tetro,
            final(self).next == old(self).next,
            final(self).descent_speed == old(self).descent_speed,
            final(self).tick_count == old(self).tick_count,
    {
        let size = tetro.size();
        if (x as u32) + (size.width as u32) > FIELD_WIDTH as u32 {
            self.tetro_pos = Pos::new(x - 1, y);
        } else if (y as u32) + (size.height as u32) > FIELD_HEIGHT as u32 {
            self.tetro_pos = Pos::new(x, y - 1);
            tetro.state = TetroState::WaitToPlace;
        } else if self.is_reach_bottom(x, y, tetro) {
            let up = if y > 0 {
                y - 1
            } else {
                0
            };
            self.tetro_pos = Pos::new(x, up);
            tetro.state = TetroState::WaitToPlace;
        } else {
            self.tetro_pos = Pos::new(x, y);
            tetro.state = TetroState::Descent;
        }
    }

    pub fn move_left(&mut self)
        requires
            old(self).wf(),
        ensures
            final(self).wf(),
            after_move_left(*old(self), *final(self)),
    {
        if self.tetro_pos.x == 0 {
            return ;
        }
        match self.tetro.take() {
            Some(mut tetro) => {
                let x = self.tetro_pos.x - 1;
                let y = self.tetro_pos.y;
                proof {
                    lemma_resolve_never_overlaps(
                        self.buffer@,
                        tetro.buffer@,
                        tetro.state,
                        x + 1,
                        y as int,
                        x as int,
                        y as int,
                    );
                }
                self.move_to(x, y, &mut tetro);
                self.tetro = Some(tetro);
            },
            None => {},
        }
    }

    pub fn move_right(&mut self)
        requires
            old(self).wf(),
        ensures
            final(self).wf(),
            after_move_right(*old(self), *final(self)),
    {
        match self.tetro.take() {
            Some(mut tetro) => {
                let x = self.tetro_pos.x + 1;
                let y = self.tetro_pos.y;
                proof {
                    lemma_resolve_never_overlaps(
                        self.buffer@,
                        tetro.buffer@,
                        tetro.state,
                        x - 1,
                        y as int,
                        x as int,
                        y as int,
                    );
                }
                self.move_to(x, y, &mut tetro);
                self.tetro = Some(tetro);
            },
            None => {},
        }
    }

    /// Turns the active piece a quarter clockwise where the turned piece fits
    /// at `rotate_target`; otherwise leaves it as it is.
    pub fn rotate_right(&mut self)
        requires
            old(self).wf(),
        ensures
            final(self).wf(),
            after_rotate(*old(self), *final(self)),
    {
        match self.tetro.take() {
            Some(mut tetro) => {
                let turned = tetro.rotate_right();
                let size = tetro.size();
                let cx = self.tetro_pos.x + size.mid_x();
                let cy = self.tetro_pos.y + size.mid_y();
                let tx = if cx > 0 {
                    cx - 1
                } else {
                    0
                };
                let ty = if cy > 0 {
                    cy - 1
                } else {
                    0
                };
                let tsize = turned.size();
                if (tx as u32) + (tsize.width as u32) <= FIELD_WIDTH as u32 && (ty as u32) + (
                tsize.height as u32) <= FIELD_HEIGHT as u32 && !self.is_reach_bottom(
                    tx,
                    ty,
                    &turned,
                ) {
                    self.tetro_pos = Pos::new(tx, ty);
                    self.tetro = Some(turned);
                } else {
                    self.tetro = Some(tetro);
                }
            },
            None => {},
        }
    }

    /// Lets a falling piece try the row below, or places a waiting one.
    pub fn descend_soft(&mut self)
        requires
            old(self).wf(),
        ensures
            final(self).wf(),
            after_soft(*old(self), *final(self)),
    {
        match self.tetro.take() {
            Some(mut tetro) => {
                let x = self.tetro_pos.x;
                let y = self.tetro_pos.y;
                match tetro.state {
                    TetroState::Descent => {
                        proof {
                            lemma_resolve_never_overlaps(
                                self.buffer@,
                                tetro.buffer@,
                                tetro.state,
                                x as int,
                                y as int,
                                x as int,
                                y + 1,
                            );
                        }
                        self.move_to(x, y + 1, &mut tetro);
                        self.tetro = Some(tetro);
                    },
                    TetroState::WaitToPlace => {
                        self.place(x, y, &tetro);
                    },
                }
                self.tick_count = 0;
            },
            None => {},
        }
    }

    /// Drops the active piece to where it comes to rest and places it.
    pub fn descend_hard(&mut self)
        requires
            old(self).wf(),
        ensures
            final(self).wf(),
            after_hard(*old(self), *final(self)),
    {
        if self.tetro.is_none() {
            return ;
        }
        let ghost start = *self;
        let ghost t = self.tetro->0;
        let ghost x = self.tetro_pos.x as int;
        let ghost rest = if t.state == TetroState::Descent {
            drop_row(start.buffer@, t.buffer@, x, self.tetro_pos.y as int)
        } else {
            self.tetro_pos.y as int
        };
        while self.tetro.is_some()
            invariant
                self.wf(),
                self.tetro is Some ==> {
                    &&& self.tetro->0.buffer == t.buffer
                    &&& self.tetro_pos.x == x
                    &&& rest == if self.tetro->0.state == TetroState::Descent {
                        drop_row(start.buffer@, t.buffer@, x, self.tetro_pos.y as int)
                    } else {
                        self.tetro_pos.y as int
                    }
                    &&& self.buffer == start.buffer
                    &&& self.score == start.score
                },
                self.tetro is None ==> settled(start, *self, x, rest),
                self.next == start.next,
                self.descent_speed == start.descent_speed,
                start.tetro == Some(t),
            decreases hard_measure(*self),
        {
            self.descend_soft();
        }
    }

    /// Clears the topmost full row, if there is one, and says whether it did.
    pub fn remove_line_completed(&mut self) -> (r: bool)
        requires
            old(self).wf(),
        ensures
            final(self).wf(),
            r == has_full_row(old(self).buffer@),
            r ==> after_line_clear(*old(self), *final(self)),
            !r ==> *final(self) == *old(self),
    {
        let height = self.buffer.height();
        let mut y: u16 = 0;
        while y < height
            invariant
                self.wf(),
                *self == *old(self),
                height == FIELD_HEIGHT,
                y <= height,
                forall|k: int| 0 <= k < y ==> !row_full(#[trigger] self.buffer@[k]),
            decreases height - y,
        {
            if self.buffer.line_full(y) {
                proof {
                    let g = self.buffer@;
                    assert(is_first_full(g, y as int));
                    let f = first_full(g);
                    assert(is_first_full(g, f));
                    if f < y {
                        assert(!row_full(g[f]));
                    } else if f > y {
                        assert(!row_full(g[y as int]));
                    }
                    lemma_removed_row_shape(g, y as int);
                }
                self.buffer.remove_and_prepend_empty_row(y);
                self.score = self.score.saturating_add(LINE_SCORE);
                return true;
            }
            y = y + 1;
        }
        false
    }

    /// Brings `piece` into the field at the top, centred, and makes
    /// `following` the next piece. Where `piece` overlaps settled cells there,
    /// it is placed at once and the result is `false`: the round is over.
    pub fn spawn(&mut self, piece: Tetro, following: Tetro) -> (r: bool)
        requires
            old(self).wf(),
            old(self).tetro is None,
            no_full_row(old(self).buffer@),
            fits(piece),
            fits(following),
        ensures
            final(self).wf(),
            spawned(*old(self), *final(self), piece, following, r),
    {
        self.next = Some(following);
        let field_size = self.size();
        let size = piece.size();
        let x = field_size.mid_x() - size.mid_x();
        if self.is_reach_bottom(x, 0, &piece) {
            self.place(x, 0, &piece);
            return false;
        }
        self.tetro_pos = Pos::new(x, 0);
        self.tetro = Some(piece);
        true
    }

    /// Advances the field by one tick; `false` means the round is over.
    pub fn on_tick(&mut self) -> (r: bool)
        requires
            old(self).wf(),
        ensures
            final(self).wf(),
            after_tick(*old(self), *final(self), r),
    {
        if self.remove_line_completed() {
            return true;
        }
        if self.tetro.is_none() {
            let piece = match self.next.take() {
                Some(t) => t,
                None => Tetro::new(),
            };
            let following = Tetro::new();
            let r = self.spawn(piece, following);
            proof {
                if old(self).next is None {
                    assert(is_canonical(piece) && spawned(
                        *old(self),
                        *self,
                        piece,
                        self.next->0,
                        r,
                    ));
                }
            }
            return r;
        }
        let count = self.tick_count + 1;
        if count > MAX_DESCENT_SPEED - self.descent_speed {
            self.descend_soft();
        } else {
            self.tick_count = count;
        }
        true
    }

    /// Reacts to a key: left and right move, up turns, down descends
    /// softly, space drops the piece.
    pub fn on_keydown(&mut self, key: Key)
        requires
            old(self).wf(),
        ensures
            final(self).wf(),
            after_key(*old(self), *final(self), key),
    {
        match key {
            Key::Left => self.move_left(),
            Key::Right => self.move_right(),
            Key::Up => self.rotate_right(),
            Key::Down => self.descend_soft(),
            Key::Space => self.descend_hard(),
            Key::Other => {},
        }
    }
}

} // verus!
