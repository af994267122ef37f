use crate::rect::Rect;
use vstd::prelude::*;

verus! {

/// Side length of the square level, in grid cells.
pub const LEVEL_SIZE: u16 = 50;

/// Width of the level on screen, in character columns: each grid column
/// takes two of them.
pub const LEVEL_MAP_WIDTH: u16 = 100;

/// Side length of the square footprint of a tank, in grid cells.
pub const TANK_SIZE: u16 = 4;

/// Number of player slots, each holding at most one tank.
pub const PLAYER_COUNT: u8 = 4;

/// Number of cells of the level.
pub const CELL_COUNT: usize = 2500;

#[derive(Clone, Copy, Debug, PartialEq, Eq, Structural)]
pub enum BlockType {
    Brick,
    Concrete,
    Water,
    Leaves,
}

/// Which quadrant of a 2x2 full block a tile shows.
#[derive(Clone, Copy, Debug, PartialEq, Eq, Structural)]
pub enum BlockVariant {
    LeftTop,
    RightTop,
    LeftBottom,
    RightBottom,
}

#[derive(Clone, Copy, Debug, PartialEq, Eq, Structural)]
pub enum Direction {
    Up,
    Down,
    Left,
    Right,
}

/// A placed terrain tile. Two tiles are equal when they stand on the same
/// cell, whatever their kind and variant.
#[derive(Clone, Copy, Debug)]
pub struct Block {
    pub x: u16,
    pub y: u16,
    pub block_type: BlockType,
    pub block_variant: BlockVariant,
}

impl PartialEq for Block {
    fn eq(&self, other: &Self) -> (r: bool)
        ensures
            r == (self.x == other.x && self.y == other.y),
    {
        self.x == other.x && self.y == other.y
    }
}

impl vstd::std_specs::cmp::PartialEqSpecImpl for Block {
    open spec fn obeys_eq_spec() -> bool {
        true
    }

    open spec fn eq_spec(&self, other: &Block) -> bool {
        self.x == other.x && self.y == other.y
    }
}

impl Eq for Block {

}

/// A tank: the top-left cell of its footprint and the way it faces.
#[derive(Clone, Copy, Debug, PartialEq, Eq, Structural)]
pub struct Tank {
    pub x: u16,
    pub y: u16,
    pub direction: Direction,
}

/// The kind and quadrant of the tile on a cell.
pub type TileLook = (BlockType, BlockVariant);

pub open spec fn in_level(x: int, y: int) -> bool {
    0 <= x < LEVEL_SIZE && 0 <= y < LEVEL_SIZE
}

pub open spec fn cell_index(x: int, y: int) -> int {
    y * LEVEL_SIZE + x
}

impl Tank {
    /// The tank's 4x4 footprint covers the cell `(x, y)`.
    pub open spec fn covers(self, x: int, y: int) -> bool {
        self.x <= x < self.x + TANK_SIZE && self.y <= y < self.y + TANK_SIZE
    }

    /// The footprint lies wholly inside the level.
    pub open spec fn fits(self) -> bool {
        self.x + TANK_SIZE <= LEVEL_SIZE && self.y + TANK_SIZE <= LEVEL_SIZE
    }

    /// The footprints of the two tanks share a cell.
    pub open spec fn overlaps(self, other: Tank) -> bool {
        self.x < other.x + TANK_SIZE && other.x < self.x + TANK_SIZE && self.y < other.y
            + TANK_SIZE && other.y < self.y + TANK_SIZE
    }

    /// The footprint shares a cell with the rectangle.
    pub open spec fn meets(self, r: Rect) -> bool {
        self.x <= r.right && r.left < self.x + TANK_SIZE && self.y <= r.bottom && r.top < self.y
            + TANK_SIZE
    }

    /// The rectangle of cells under the tank.
    pub open spec fn footprint_spec(self) -> Rect {
        Rect {
            left: self.x,
            top: self.y,
            right: (self.x + TANK_SIZE - 1) as u16,
            bottom: (self.y + TANK_SIZE - 1) as u16,
        }
    }

    /// The rectangle of cells under a tank that fits in the level.
    pub fn footprint(&self) -> (r: Rect)
        requires
            self.fits(),
        ensures
            r == self.footprint_spec(),
            forall|x: int, y: int| r.contains(x, y) <==> self.covers(x, y),
    {
        Rect { left: self.x, top: self.y, right: self.x + 3, bottom: self.y + 3 }
    }
}

/// The footprint rectangle of a tank that fits holds exactly the cells
/// that the tank covers.
pub proof fn lemma_footprint_cells(t: Tank)
    requires
        t.fits(),
    ensures
        forall|x: int, y: int| t.footprint_spec().contains(x, y) <==> t.covers(x, y),
{
}

/// Two footprints overlap exactly when they share a cell.
pub proof fn lemma_overlap_is_shared_cell(a: Tank, b: Tank)
    ensures
        a.overlaps(b) <==> exists|x: int, y: int| a.covers(x, y) && b.covers(x, y),
        a.overlaps(b) == b.overlaps(a),
{
    if a.overlaps(b) {
        let x = if a.x < b.x { b.x as int } else { a.x as int };
        let y = if a.y < b.y { b.y as int } else { a.y as int };
        assert(a.covers(x, y) && b.covers(x, y));
    }
}


/// `after` is `before` with the tile `look` put on the cell `(x, y)`.
pub open spec fn inserted(before: Level, after: Level, x: int, y: int, look: TileLook) -> bool {
    &&& after.same_tanks(&before)
    &&& after.tile_at(x, y) == Some(look)
    &&& forall|a: int, b: int| !(a == x && b == y) ==> #[trigger] after.tile_at(a, b) == before.tile_at(a, b)
}

/// The tile on the cell `(x, y)` after the insertions `ops`, made in order
/// on a level where `initial` stood there: the last one made on that cell.
pub open spec fn last_inserted(ops: Seq<(int, int, TileLook)>, x: int, y: int, initial: Option<TileLook>) -> Option<TileLook>
    decreases ops.len(),
{
    if ops.len() == 0 {
        initial
    } else if ops.last().0 == x && ops.last().1 == y {
        Some(ops.last().2)
    } else {
        last_inserted(ops.drop_last(), x, y, initial)
    }
}

/// After any sequence of tile insertions, each cell holds one tile at
/// most, and it is the one inserted last on that cell.
pub proof fn lemma_last_insertion_wins(levels: Seq<Level>, ops: Seq<(int, int, TileLook)>, x: int, y: int)
    requires
        levels.len() == ops.len() + 1,
        forall|i: int| 0 <= i < ops.len() ==> inserted(#[trigger] levels[i], levels[i + 1], ops[i].0, ops[i].1, ops[i].2),
    ensures
        levels.last().tile_at(x, y) == last_inserted(ops, x, y, levels[0].tile_at(x, y)),
    decreases ops.len(),
{
    if ops.len() > 0 {
        let n = ops.len() - 1;
        assert(inserted(levels[n], levels[n + 1], ops[n].0, ops[n].1, ops[n].2));
        lemma_last_insertion_wins(levels.drop_last(), ops.drop_last(), x, y);
        assert(levels.drop_last().last() == levels[n]);
    }
}

/// `after` is `before` with the tank of `slot` put as `t`.
pub open spec fn placed(before: Level, after: Level, slot: int, t: Tank) -> bool {
    &&& after.tank_in(slot) == Some(t)
    &&& forall|s: int| 0 <= s < PLAYER_COUNT && s != slot ==> #[trigger] after.tank_in(s) == before.tank_in(s)
    &&& after.same_tiles(&before)
}

/// Why a tank could not be placed.
#[derive(Clone, Copy, Debug, PartialEq, Eq, Structural)]
pub enum PlaceTankError {
    /// The footprint would reach past the edge of the level.
    OutOfBounds,
    /// The footprint would cover a tile or another player's tank.
    Overlap,
}

/// What a rectangle of the level holds, for redrawing it.
pub struct RectContents {
    /// The tiles on cells of the rectangle.
    pub tiles: Vec<Block>,
    /// The tanks whose footprint meets the rectangle, with their slot.
    pub tanks: Vec<(u8, Tank)>,
    /// The cells of the rectangle that hold no tile, row by row.
    pub background: Vec<(u16, u16)>,
}

/// The placed content of a level: at most one tile per cell, and one
/// optional tank per player slot.
pub struct Level {
    cells: Vec<Option<TileLook>>,
    tanks: [Option<Tank>; 4],
}

impl Level {
    /// The tile on the cell `(x, y)`; none outside the level.
    pub closed spec fn tile_at(&self, x: int, y: int) -> Option<TileLook> {
        if in_level(x, y) {
            self.cells@[cell_index(x, y)]
        } else {
            None
        }
    }

    /// The tank in a player slot.
    pub closed spec fn tank_in(&self, slot: int) -> Option<Tank> {
        self.tanks@[slot]
    }

    /// The cell storage covers the whole level.
    pub closed spec fn repr_ok(&self) -> bool {
        self.cells@.len() == CELL_COUNT
    }

    /// Some tank's footprint covers the cell `(x, y)`.
    pub open spec fn covered(&self, x: int, y: int) -> bool {
        exists|s: int| 0 <= s < PLAYER_COUNT && #[trigger] self.tank_in(s) is Some && self.tank_in(s)->Some_0.covers(x, y)
    }

    /// The level's invariant: every tank fits in the level, no two tanks
    /// overlap, and no tank stands on a tile.
    pub open spec fn inv(&self) -> bool {
        &&& self.repr_ok()
        &&& forall|s: int| 0 <= s < PLAYER_COUNT && #[trigger] self.tank_in(s) is Some ==> self.tank_in(s)->Some_0.fits()
        &&& forall|s: int, t: int|
            0 <= s < PLAYER_COUNT && 0 <= t < PLAYER_COUNT && s != t && #[trigger] self.tank_in(s) is Some
                && #[trigger] self.tank_in(t) is Some ==> !self.tank_in(s)->Some_0.overlaps(self.tank_in(t)->Some_0)
        &&& forall|s: int, x: int, y: int|
            0 <= s < PLAYER_COUNT && #[trigger] self.tank_in(s) is Some && self.tank_in(s)->Some_0.covers(x, y)
                ==> #[trigger] self.tile_at(x, y) is None
    }

    /// The two levels hold the same tanks.
    pub open spec fn same_tanks(&self, other: &Level) -> bool {
        forall|s: int| 0 <= s < PLAYER_COUNT ==> #[trigger] self.tank_in(s) == other.tank_in(s)
    }

    /// The two levels hold the same tiles.
    pub open spec fn same_tiles(&self, other: &Level) -> bool {
        forall|x: int, y: int| #[trigger] self.tile_at(x, y) == other.tile_at(x, y)
    }

    /// Levels with the same tanks cover the same cells.
    pub proof fn lemma_same_tanks_cover_alike(&self, other: &Level, x: int, y: int)
        requires
            self.same_tanks(other),
        ensures
            self.covered(x, y) == other.covered(x, y),
    {
        if self.covered(x, y) {
            let s = choose|s: int| 0 <= s < PLAYER_COUNT && #[trigger] self.tank_in(s) is Some && self.tank_in(s)->Some_0.covers(x, y);
            assert(other.tank_in(s) is Some);
        }
        if other.covered(x, y) {
            let s = choose|s: int| 0 <= s < PLAYER_COUNT && #[trigger] other.tank_in(s) is Some && other.tank_in(s)->Some_0.covers(x, y);
            assert(self.tank_in(s) is Some);
        }
    }

    /// In a level, the tanks of two different slots never share a cell.
    pub proof fn lemma_tanks_apart(&self, s: int, t: int)
        requires
            self.inv(),
            0 <= s < PLAYER_COUNT,
            0 <= t < PLAYER_COUNT,
            s != t,
            self.tank_in(s) is Some,
            self.tank_in(t) is Some,
        ensures
            !self.tank_in(s)->Some_0.overlaps(self.tank_in(t)->Some_0),
            forall|x: int, y: int| !(self.tank_in(s)->Some_0.covers(x, y) && self.tank_in(t)->Some_0.covers(x, y)),
    {
        lemma_overlap_is_shared_cell(self.tank_in(s)->Some_0, self.tank_in(t)->Some_0);
    }

    /// Putting a tank back where it stands, facing the same way, is always
    /// allowed, and leaves the level's tanks and tiles as they were.
    pub proof fn lemma_place_in_place(&self, slot: int, after: Level)
        requires
            self.inv(),
            0 <= slot < PLAYER_COUNT,
            self.tank_in(slot) is Some,
        ensures
            self.can_place(slot, self.tank_in(slot)->Some_0),
            placed(*self, after, slot, self.tank_in(slot)->Some_0) ==> after.same_tanks(self) && after.same_tiles(self),
    {
    }

    /// An empty level: no tiles and no tanks.
    pub fn new() -> (r: Level)
        ensures
            r.inv(),
            forall|x: int, y: int| #[trigger] r.tile_at(x, y) is None,
            forall|s: int| 0 <= s < PLAYER_COUNT ==> #[trigger] r.tank_in(s) is None,
    {
        let mut cells: Vec<Option<TileLook>> = Vec::new();
        while cells.len() < CELL_COUNT
            invariant
                cells@.len() <= CELL_COUNT,
                forall|i: int| 0 <= i < cells@.len() ==> #[trigger] cells@[i] is None,
            decreases CELL_COUNT - cells@.len(),
        {
            cells.push(None);
        }
        Level { cells, tanks: [None, None, None, None] }
    }

    /// The tile on the cell `(x, y)` of the level.
    pub fn tile(&self, x: u16, y: u16) -> (r: Option<Block>)
        requires
            self.inv(),
        ensures
            r is Some <==> self.tile_at(x as int, y as int) is Some,
            r is Some ==> r->Some_0.x == x && r->Some_0.y == y && (r->Some_0.block_type, r->Some_0.block_variant) == self.tile_at(x as int, y as int)->Some_0,
    {
        if x < LEVEL_SIZE && y < LEVEL_SIZE {
            match self.cells[(y * LEVEL_SIZE + x) as usize] {
                Some((block_type, block_variant)) => Some(Block { x, y, block_type, block_variant }),
                None => None,
            }
        } else {
            None
        }
    }

    /// The tank in a player slot.
    pub fn tank(&self, slot: u8) -> (r: Option<Tank>)
        requires
            slot < PLAYER_COUNT,
        ensures
            r == self.tank_in(slot as int),
    {
        self.tanks[slot as usize]
    }

    /// Whether some tank's footprint covers the cell `(x, y)`.
    pub fn is_covered_by_tank(&self, x: u16, y: u16) -> (r: bool)
        ensures
            r == self.covered(x as int, y as int),
    {
        let mut s: usize = 0;
        while s < 4
            invariant
                s <= 4,
                forall|t: int| 0 <= t < s ==> !(#[trigger] self.tank_in(t) is Some && self.tank_in(t)->Some_0.covers(x as int, y as int)),
            decreases 4 - s,
        {
            if let Some(tank) = self.tanks[s] {
                if tank.x <= x && (x as u32) < tank.x as u32 + 4 && tank.y <= y && (y as u32) < tank.y as u32 + 4 {
                    assert(self.tank_in(s as int) is Some);
                    return true;
                }
            }
            s += 1;
        }
        false
    }

    /// Puts a tile of the given kind and quadrant on the cell `(x, y)`,
    /// replacing the tile that stood there. The caller makes sure that no
    /// tank covers the cell.
    pub fn insert_tile(&mut self, x: u16, y: u16, block_type: BlockType, block_variant: BlockVariant)
        requires
            old(self).inv(),
            x < LEVEL_SIZE,
            y < LEVEL_SIZE,
            !old(self).covered(x as int, y as int),
        ensures
            final(self).inv(),
            inserted(*old(self), *final(self), x as int, y as int, (block_type, block_variant)),
    {
        let i = (y * LEVEL_SIZE + x) as usize;
        self.cells.set(i, Some((block_type, block_variant)));
        assert(self.tanks == old(self).tanks);
        assert(forall|s: int| #[trigger] self.tank_in(s) == old(self).tank_in(s));
        assert forall|a: int, b: int| !(a == x && b == y) implies #[trigger] self.tile_at(a, b) == old(self).tile_at(a, b) by {
            if in_level(a, b) {
                assert(cell_index(a, b) != i);
            }
        }
        assert forall|s: int, a: int, b: int|
            0 <= s < PLAYER_COUNT && #[trigger] self.tank_in(s) is Some && self.tank_in(s)->Some_0.covers(a, b)
                implies #[trigger] self.tile_at(a, b) is None by {
            if a == x && b == y {
                assert(old(self).tank_in(s) is Some);
            }
        }
    }

    /// No tile lies under the footprint of `t`.
    pub open spec fn footprint_clear(&self, t: Tank) -> bool {
        forall|a: int, b: int| t.covers(a, b) ==> #[trigger] self.tile_at(a, b) is None
    }

    /// The footprint of `t` overlaps no tank of a slot other than `slot`.
    pub open spec fn apart_from_others(&self, slot: int, t: Tank) -> bool {
        forall|s: int|
            0 <= s < PLAYER_COUNT && s != slot && #[trigger] self.tank_in(s) is Some
                ==> !t.overlaps(self.tank_in(s)->Some_0)
    }

    /// The tank `t` may be put in `slot`: it fits in the level, covers no
    /// tile and overlaps no other player's tank.
    pub open spec fn can_place(&self, slot: int, t: Tank) -> bool {
        t.fits() && self.footprint_clear(t) && self.apart_from_others(slot, t)
    }

    /// Removes the tile on the cell `(x, y)` of the level, if any.
    fn clear_cell(&mut self, x: u16, y: u16)
        requires
            old(self).inv(),
            x < LEVEL_SIZE,
            y < LEVEL_SIZE,
        ensures
            final(self).inv(),
            final(self).same_tanks(old(self)),
            final(self).tile_at(x as int, y as int) is None,
            forall|a: int, b: int| !(a == x && b == y) ==> #[trigger] final(self).tile_at(a, b) == old(self).tile_at(a, b),
    {
        let i = (y * LEVEL_SIZE + x) as usize;
        self.cells.set(i, None);
        assert(self.tanks == old(self).tanks);
        assert(forall|s: int| #[trigger] self.tank_in(s) == old(self).tank_in(s));
        assert forall|a: int, b: int| !(a == x && b == y) implies #[trigger] self.tile_at(a, b) == old(self).tile_at(a, b) by {
            if in_level(a, b) {
                assert(cell_index(a, b) != i);
            }
        }
    }

    /// Removes every tile whose cell lies in the rectangle.
    pub fn remove_tiles_in_rect(&mut self, rect: Rect)
        requires
            old(self).inv(),
        ensures
            final(self).inv(),
            final(self).same_tanks(old(self)),
            forall|a: int, b: int| #[trigger] final(self).tile_at(a, b) == if rect.contains(a, b) {
                None
            } else {
                old(self).tile_at(a, b)
            },
    {
        let last_y: u16 = if rect.bottom < LEVEL_SIZE { rect.bottom } else { LEVEL_SIZE - 1 };
        let last_x: u16 = if rect.right < LEVEL_SIZE { rect.right } else { LEVEL_SIZE - 1 };
        let mut y: u16 = rect.top;
        while y <= last_y
            invariant
                self.inv(),
                self.same_tanks(old(self)),
                last_y < LEVEL_SIZE,
                last_x < LEVEL_SIZE,
                last_y == if rect.bottom < LEVEL_SIZE { rect.bottom } else { (LEVEL_SIZE - 1) as u16 },
                last_x == if rect.right < LEVEL_SIZE { rect.right } else { (LEVEL_SIZE - 1) as u16 },
                rect.top <= y <= last_y + 1 || (y == rect.top && rect.top > last_y),
                forall|a: int, b: int| #[trigger] self.tile_at(a, b) == if rect.contains(a, b) && b < y {
                    None
                } else {
                    old(self).tile_at(a, b)
                },
            decreases LEVEL_SIZE - y,
        {
            let mut x: u16 = rect.left;
            while x <= last_x
                invariant
                    self.inv(),
                    self.same_tanks(old(self)),
                    last_y < LEVEL_SIZE,
                    last_x < LEVEL_SIZE,
                    last_y == if rect.bottom < LEVEL_SIZE { rect.bottom } else { (LEVEL_SIZE - 1) as u16 },
                    last_x == if rect.right < LEVEL_SIZE { rect.right } else { (LEVEL_SIZE - 1) as u16 },
                    rect.top <= y <= last_y,
                    rect.left <= x <= last_x + 1 || (x == rect.left && rect.left > last_x),
                    forall|a: int, b: int| #[trigger] self.tile_at(a, b) == if rect.contains(a, b) && (b < y || (b == y && a < x)) {
                        None
                    } else {
                        old(self).tile_at(a, b)
                    },
                decreases LEVEL_SIZE - x,
            {
                let ghost prev = *self;
                self.clear_cell(x, y);
                assert(rect.contains(x as int, y as int));
                assert forall|a: int, b: int| #[trigger] self.tile_at(a, b) == if rect.contains(a, b) && (b < y || (b == y && a < x + 1)) {
                    None
                } else {
                    old(self).tile_at(a, b)
                } by {
                    if !(a == x && b == y) {
                        assert(self.tile_at(a, b) == prev.tile_at(a, b));
                    }
                }
                x += 1;
            }
            assert forall|a: int, b: int| #[trigger] self.tile_at(a, b) == if rect.contains(a, b) && b < y + 1 {
                None
            } else {
                old(self).tile_at(a, b)
            } by {
                if rect.contains(a, b) && b == y && a > last_x {
                    assert(!in_level(a, b));
                }
            }
            y += 1;
        }
        assert forall|a: int, b: int| #[trigger] self.tile_at(a, b) == if rect.contains(a, b) {
            None
        } else {
            old(self).tile_at(a, b)
        } by {
            if rect.contains(a, b) && b >= y {
                assert(!in_level(a, b));
            }
        }
    }

    /// Whether no tile lies under the footprint of `t`, a tank that fits in
    /// the level.
    fn footprint_is_clear(&self, t: Tank) -> (r: bool)
        requires
            self.inv(),
            t.fits(),
        ensures
            r == self.footprint_clear(t),
    {
        let mut b: u16 = t.y;
        while b < t.y + TANK_SIZE
            invariant
                self.inv(),
                t.fits(),
                t.y <= b <= t.y + TANK_SIZE,
                forall|p: int, c: int| t.covers(p, c) && c < b ==> #[trigger] self.tile_at(p, c) is None,
            decreases t.y + TANK_SIZE - b,
        {
            let mut a: u16 = t.x;
            while a < t.x + TANK_SIZE
                invariant
                    self.inv(),
                    t.fits(),
                    t.x <= a <= t.x + TANK_SIZE,
                    t.y <= b < t.y + TANK_SIZE,
                    forall|p: int, c: int| t.covers(p, c) && (c < b || (c == b && p < a)) ==> #[trigger] self.tile_at(p, c) is None,
                decreases t.x + TANK_SIZE - a,
            {
                match self.cells[(b * LEVEL_SIZE + a) as usize] {
                    Some(_) => {
                        assert(self.tile_at(a as int, b as int) is Some);
                        return false;
                    },
                    None => {},
                }
                a += 1;
            }
            b += 1;
        }
        true
    }

    /// Whether the footprint of `t` overlaps no tank of a slot other than
    /// `slot`.
    fn is_apart_from_others(&self, slot: u8, t: Tank) -> (r: bool)
        requires
            slot < PLAYER_COUNT,
        ensures
            r == self.apart_from_others(slot as int, t),
    {
        let mut s: usize = 0;
        while s < 4
            invariant
                s <= 4,
                forall|o: int|
                    0 <= o < s && o != slot && #[trigger] self.tank_in(o) is Some ==> !t.overlaps(self.tank_in(o)->Some_0),
            decreases 4 - s,
        {
            if s != slot as usize {
                if let Some(other) = self.tanks[s] {
                    if (t.x as u32) < other.x as u32 + 4 && (other.x as u32) < t.x as u32 + 4
                        && (t.y as u32) < other.y as u32 + 4 && (other.y as u32) < t.y as u32 + 4 {
                        assert(self.tank_in(s as int) is Some);
                        return false;
                    }
                }
            }
            s += 1;
        }
        true
    }

    /// Puts the tank of a player slot on the cell `(x, y)`, facing
    /// `direction`. A tank already in the slot moves, vacating its old
    /// footprint; its old value is returned. Fails, leaving the level as it
    /// was, when the footprint would reach past the edge of the level or
    /// cover a tile or another player's tank.
    pub fn place_tank(&mut self, slot: u8, x: u16, y: u16, direction: Direction) -> (r: Result<Option<Tank>, PlaceTankError>)
        requires
            old(self).inv(),
            slot < PLAYER_COUNT,
        ensures
            final(self).inv(),
            !(Tank { x, y, direction }).fits() ==> r == Err::<Option<Tank>, PlaceTankError>(PlaceTankError::OutOfBounds),
            (Tank { x, y, direction }).fits() && !old(self).can_place(slot as int, (Tank { x, y, direction }))
                ==> r == Err::<Option<Tank>, PlaceTankError>(PlaceTankError::Overlap),
            old(self).can_place(slot as int, (Tank { x, y, direction })) ==> r is Ok,
            r is Ok ==> r->Ok_0 == old(self).tank_in(slot as int) && placed(*old(self), *final(self), slot as int, (Tank { x, y, direction })),
            r is Err ==> *final(self) == *old(self),
    {
        let t = Tank { x, y, direction };
        if x > LEVEL_SIZE - TANK_SIZE || y > LEVEL_SIZE - TANK_SIZE {
            return Err(PlaceTankError::OutOfBounds);
        }
        if !self.footprint_is_clear(t) || !self.is_apart_from_others(slot, t) {
            return Err(PlaceTankError::Overlap);
        }
        let previous = self.tanks[slot as usize];
        self.tanks[slot as usize] = Some(t);
        assert(self.cells == old(self).cells);
        assert(forall|a: int, b: int| #[trigger] self.tile_at(a, b) == old(self).tile_at(a, b));
        assert(forall|s: int| 0 <= s < PLAYER_COUNT && s != slot ==> #[trigger] self.tank_in(s) == old(self).tank_in(s));
        Ok(previous)
    }

    /// Removes every tank whose footprint meets the rectangle, and returns
    /// them with their slots, in slot order.
    pub fn clear_tanks_in_rect(&mut self, rect: Rect) -> (removed: Vec<(u8, Tank)>)
        requires
            old(self).inv(),
        ensures
            final(self).inv(),
            final(self).same_tiles(old(self)),
            forall|s: int| 0 <= s < PLAYER_COUNT ==> #[trigger] final(self).tank_in(s) == if old(self).tank_in(s) is Some && old(self).tank_in(s)->Some_0.meets(rect) {
                None
            } else {
                old(self).tank_in(s)
            },
            forall|i: int| 0 <= i < removed@.len() ==> {
                &&& (#[trigger] removed@[i]).0 < PLAYER_COUNT
                &&& old(self).tank_in(removed@[i].0 as int) == Some(removed@[i].1)
                &&& removed@[i].1.meets(rect)
            },
            forall|s: int| 0 <= s < PLAYER_COUNT && #[trigger] old(self).tank_in(s) is Some && old(self).tank_in(s)->Some_0.meets(rect)
                ==> exists|i: int| 0 <= i < removed@.len() && (#[trigger] removed@[i]).0 == s,
            forall|i: int, j: int| 0 <= i < j < removed@.len() ==> (#[trigger] removed@[i]).0 < (#[trigger] removed@[j]).0,
    {
        let mut removed: Vec<(u8, Tank)> = Vec::new();
        let mut s: u8 = 0;
        while s < PLAYER_COUNT
            invariant
                self.inv(),
                self.same_tiles(old(self)),
                s <= PLAYER_COUNT,
                forall|o: int| 0 <= o < PLAYER_COUNT ==> #[trigger] self.tank_in(o) == if o < s && old(self).tank_in(o) is Some && old(self).tank_in(o)->Some_0.meets(rect) {
                    None
                } else {
                    old(self).tank_in(o)
                },
                forall|i: int| 0 <= i < removed@.len() ==> {
                    &&& (#[trigger] removed@[i]).0 < s
                    &&& old(self).tank_in(removed@[i].0 as int) == Some(removed@[i].1)
                    &&& removed@[i].1.meets(rect)
                },
                forall|o: int| 0 <= o < s && #[trigger] old(self).tank_in(o) is Some && old(self).tank_in(o)->Some_0.meets(rect)
                    ==> exists|i: int| 0 <= i < removed@.len() && (#[trigger] removed@[i]).0 == o,
                forall|i: int, j: int| 0 <= i < j < removed@.len() ==> (#[trigger] removed@[i]).0 < (#[trigger] removed@[j]).0,
            decreases PLAYER_COUNT - s,
        {
            if let Some(tank) = self.tanks[s as usize] {
                if tank.x <= rect.right && (rect.left as u32) < tank.x as u32 + 4 && tank.y <= rect.bottom
                    && (rect.top as u32) < tank.y as u32 + 4 {
                    let ghost before = *self;
                    let ghost before_removed = removed@;
                    self.tanks[s as usize] = None;
                    removed.push((s, tank));
                    assert(self.cells == before.cells);
                    assert(forall|a: int, b: int| #[trigger] self.tile_at(a, b) == before.tile_at(a, b));
                    assert(forall|o: int| 0 <= o < PLAYER_COUNT && o != s ==> #[trigger] self.tank_in(o) == before.tank_in(o));
                    assert(removed@[removed@.len() - 1].0 == s);
                    assert(forall|i: int| 0 <= i < before_removed.len() ==> removed@[i] == before_removed[i]);
                }
            }
            s += 1;
        }
        removed
    }

    /// What the rectangle holds: its tiles, the tanks that meet it, and its
    /// cells inside the level that hold no tile.
    #[verifier::rlimit(40)]
    pub fn query_rect(&self, rect: Rect) -> (r: RectContents)
        requires
            self.inv(),
        ensures
            forall|i: int| 0 <= i < r.tiles@.len() ==> {
                let b = #[trigger] r.tiles@[i];
                &&& rect.contains(b.x as int, b.y as int)
                &&& self.tile_at(b.x as int, b.y as int) == Some((b.block_type, b.block_variant))
            },
            forall|a: int, b: int| rect.contains(a, b) && #[trigger] self.tile_at(a, b) is Some
                ==> exists|i: int| 0 <= i < r.tiles@.len() && (#[trigger] r.tiles@[i]).x == a && r.tiles@[i].y == b,
            forall|i: int| 0 <= i < r.background@.len() ==> {
                let c = #[trigger] r.background@[i];
                &&& rect.contains(c.0 as int, c.1 as int)
                &&& in_level(c.0 as int, c.1 as int)
                &&& self.tile_at(c.0 as int, c.1 as int) is None
            },
            forall|a: int, b: int| rect.contains(a, b) && in_level(a, b) && #[trigger] self.tile_at(a, b) is None
                ==> exists|i: int| 0 <= i < r.background@.len() && #[trigger] r.background@[i] == (a as u16, b as u16),
            forall|i: int| 0 <= i < r.tanks@.len() ==> {
                &&& (#[trigger] r.tanks@[i]).0 < PLAYER_COUNT
                &&& self.tank_in(r.tanks@[i].0 as int) == Some(r.tanks@[i].1)
                &&& r.tanks@[i].1.meets(rect)
            },
            forall|s: int| 0 <= s < PLAYER_COUNT && #[trigger] self.tank_in(s) is Some && self.tank_in(s)->Some_0.meets(rect)
                ==> exists|i: int| 0 <= i < r.tanks@.len() && (#[trigger] r.tanks@[i]).0 == s,
    {
        let mut tanks: Vec<(u8, Tank)> = Vec::new();
        let mut s: u8 = 0;
        while s < PLAYER_COUNT
            invariant
                s <= PLAYER_COUNT,
                forall|i: int| 0 <= i < tanks@.len() ==> {
                    &&& (#[trigger] tanks@[i]).0 < s
                    &&& self.tank_in(tanks@[i].0 as int) == Some(tanks@[i].1)
                    &&& tanks@[i].1.meets(rect)
                },
                forall|o: int| 0 <= o < s && #[trigger] self.tank_in(o) is Some && self.tank_in(o)->Some_0.meets(rect)
                    ==> exists|i: int| 0 <= i < tanks@.len() && (#[trigger] tanks@[i]).0 == o,
            decreases PLAYER_COUNT - s,
        {
            if let Some(tank) = self.tanks[s as usize] {
                if tank.x <= rect.right && (rect.left as u32) < tank.x as u32 + 4 && tank.y <= rect.bottom
                    && (rect.top as u32) < tank.y as u32 + 4 {
                    let ghost before = tanks@;
                    tanks.push((s, tank));
                    assert(tanks@[tanks@.len() - 1].0 == s);
                    assert(forall|i: int| 0 <= i < before.len() ==> tanks@[i] == before[i]);
                }
            }
            s += 1;
        }
        let mut tiles: Vec<Block> = Vec::new();
        let mut background: Vec<(u16, u16)> = Vec::new();
        let last_y: u16 = if rect.bottom < LEVEL_SIZE { rect.bottom } else { LEVEL_SIZE - 1 };
        let last_x: u16 = if rect.right < LEVEL_SIZE { rect.right } else { LEVEL_SIZE - 1 };
        let mut y: u16 = rect.top;
        while y <= last_y
            invariant
                self.inv(),
                last_y == if rect.bottom < LEVEL_SIZE { rect.bottom } else { (LEVEL_SIZE - 1) as u16 },
                last_x == if rect.right < LEVEL_SIZE { rect.right } else { (LEVEL_SIZE - 1) as u16 },
                rect.top <= y <= last_y + 1 || (y == rect.top && rect.top > last_y),
                forall|i: int| 0 <= i < tiles@.len() ==> {
                    let b = #[trigger] tiles@[i];
                    &&& rect.contains(b.x as int, b.y as int)
                    &&& self.tile_at(b.x as int, b.y as int) == Some((b.block_type, b.block_variant))
                },
                forall|a: int, b: int| rect.contains(a, b) && b < y && #[trigger] self.tile_at(a, b) is Some
                    ==> exists|i: int| 0 <= i < tiles@.len() && (#[trigger] tiles@[i]).x == a && tiles@[i].y == b,
                forall|i: int| 0 <= i < background@.len() ==> {
                    let c = #[trigger] background@[i];
                    &&& rect.contains(c.0 as int, c.1 as int)
                    &&& in_level(c.0 as int, c.1 as int)
                    &&& self.tile_at(c.0 as int, c.1 as int) is None
                },
                forall|a: int, b: int| rect.contains(a, b) && b < y && in_level(a, b) && #[trigger] self.tile_at(a, b) is None
                    ==> exists|i: int| 0 <= i < background@.len() && #[trigger] background@[i] == (a as u16, b as u16),
            decreases LEVEL_SIZE - y,
        {
            let mut x: u16 = rect.left;
            while x <= last_x
                invariant
                    self.inv(),
                    last_y == if rect.bottom < LEVEL_SIZE { rect.bottom } else { (LEVEL_SIZE - 1) as u16 },
                    last_x == if rect.right < LEVEL_SIZE { rect.right } else { (LEVEL_SIZE - 1) as u16 },
                    rect.top <= y <= last_y,
                    rect.left <= x <= last_x + 1 || (x == rect.left && rect.left > last_x),
                    forall|i: int| 0 <= i < tiles@.len() ==> {
                        let b = #[trigger] tiles@[i];
                        &&& rect.contains(b.x as int, b.y as int)
                        &&& self.tile_at(b.x as int, b.y as int) == Some((b.block_type, b.block_variant))
                    },
                    forall|a: int, b: int| rect.contains(a, b) && (b < y || (b == y && a < x)) && #[trigger] self.tile_at(a, b) is Some
                        ==> exists|i: int| 0 <= i < tiles@.len() && (#[trigger] tiles@[i]).x == a && tiles@[i].y == b,
                    forall|i: int| 0 <= i < background@.len() ==> {
                        let c = #[trigger] background@[i];
                        &&& rect.contains(c.0 as int, c.1 as int)
                        &&& in_level(c.0 as int, c.1 as int)
                        &&& self.tile_at(c.0 as int, c.1 as int) is None
                    },
                    forall|a: int, b: int| rect.contains(a, b) && (b < y || (b == y && a < x)) && in_level(a, b) && #[trigger] self.tile_at(a, b) is None
                        ==> exists|i: int| 0 <= i < background@.len() && #[trigger] background@[i] == (a as u16, b as u16),
                decreases LEVEL_SIZE - x,
            {
                assert(rect.contains(x as int, y as int));
                match self.cells[(y * LEVEL_SIZE + x) as usize] {
                    Some((block_type, block_variant)) => {
                        let ghost before = tiles@;
                        tiles.push(Block { x, y, block_type, block_variant });
                        assert(tiles@[tiles@.len() - 1].x == x && tiles@[tiles@.len() - 1].y == y);
                        assert(forall|i: int| 0 <= i < before.len() ==> tiles@[i] == before[i]);
                    },
                    None => {
                        let ghost before = background@;
                        background.push((x, y));
                        assert(background@[background@.len() - 1] == (x, y));
                        assert(forall|i: int| 0 <= i < before.len() ==> background@[i] == before[i]);
                    },
                }
                x += 1;
            }
            assert forall|a: int, b: int| rect.contains(a, b) && b == y && a >= x implies !in_level(a, b) by {}
            y += 1;
        }
        assert forall|a: int, b: int| rect.contains(a, b) && b >= y implies !in_level(a, b) by {}
        RectContents { tiles, tanks, background }
    }
}

} // verus!
