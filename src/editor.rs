use crate::input::{ButtonState, MouseState, ScrollState};
use crate::layout::{margins_fit, screen_to_map};
use crate::level::{
    in_level, lemma_footprint_cells, placed, BlockType, BlockVariant, Direction, Level, Tank, LEVEL_MAP_WIDTH, LEVEL_SIZE,
    PLAYER_COUNT, TANK_SIZE,
};
use crate::rect::{lemma_spanning_order_independent, Rect};
use crate::tool::{scrolled, Tool};
use vstd::prelude::*;

verus! {

/// The quadrant that a full-block tool paints on a cell `dx` columns and
/// `dy` rows from the corner of its rectangle, so that each 2x2 group
/// forms one full block.
pub open spec fn full_block_variant(dx: int, dy: int) -> BlockVariant {
    if dx % 2 == 0 {
        if dy % 2 == 0 {
            BlockVariant::LeftTop
        } else {
            BlockVariant::LeftBottom
        }
    } else {
        if dy % 2 == 0 {
            BlockVariant::RightTop
        } else {
            BlockVariant::RightBottom
        }
    }
}

/// The quadrant painted on the cell `(x, y)` of `rect`: `fixed` where it is
/// given, else the full-block pattern.
pub open spec fn painted_variant(fixed: Option<BlockVariant>, rect: Rect, x: int, y: int) -> BlockVariant {
    match fixed {
        Some(v) => v,
        None => full_block_variant(x - rect.left, y - rect.top),
    }
}

/// The quadrant painted on the cell `(x, y)` of a rectangle whose top-left
/// cell is `(left, top)`: `fixed_variant` where it is given, else the
/// full-block pattern counted from that corner.
pub fn painted_variant_at(fixed_variant: Option<BlockVariant>, left: u16, top: u16, x: u16, y: u16) -> (r: BlockVariant)
    requires
        left <= x,
        top <= y,
    ensures
        forall|rect: Rect| rect.left == left && rect.top == top ==> r == #[trigger] painted_variant(fixed_variant, rect, x as int, y as int),
{
    match fixed_variant {
        Some(v) => v,
        None => {
            let is_left = (x - left) % 2 == 0;
            let is_top = (y - top) % 2 == 0;
            if is_left {
                if is_top {
                    BlockVariant::LeftTop
                } else {
                    BlockVariant::LeftBottom
                }
            } else {
                if is_top {
                    BlockVariant::RightTop
                } else {
                    BlockVariant::RightBottom
                }
            }
        },
    }
}

/// `after` is `before` with tiles of `block_type` painted on every cell of
/// `rect` that no tank covers.
pub open spec fn painted(before: Level, after: Level, rect: Rect, block_type: BlockType, fixed: Option<BlockVariant>) -> bool {
    &&& after.same_tanks(&before)
    &&& forall|a: int, b: int| #[trigger] after.tile_at(a, b) == if rect.contains(a, b) && !before.covered(a, b) {
        Some((block_type, painted_variant(fixed, rect, a, b)))
    } else {
        before.tile_at(a, b)
    }
}

/// `after` is `before` without the tiles on cells of `rect` and without the
/// tanks whose footprint meets `rect`.
pub open spec fn erased(before: Level, after: Level, rect: Rect) -> bool {
    &&& forall|a: int, b: int| #[trigger] after.tile_at(a, b) == if rect.contains(a, b) {
        None
    } else {
        before.tile_at(a, b)
    }
    &&& forall|s: int| 0 <= s < PLAYER_COUNT ==> #[trigger] after.tank_in(s) == if before.tank_in(s) is Some && before.tank_in(s)->Some_0.meets(rect) {
        None
    } else {
        before.tank_in(s)
    }
}

/// `after` is `before` with a rectangle tool applied to `rect`.
pub open spec fn tool_applied(before: Level, after: Level, tool: Tool, rect: Rect) -> bool {
    match tool {
        Tool::SmallBlock(k, v) => painted(before, after, rect, k, Some(v)),
        Tool::FullBlock(k) => painted(before, after, rect, k, None),
        Tool::Eraser => erased(before, after, rect),
        Tool::Tank(_, _) => after == before,
    }
}

/// The rectangles to redraw after the tank of a slot moved to `t` from
/// where `previous` had it.
pub open spec fn tank_move_dirty(previous: Option<Tank>, t: Tank) -> Seq<Rect> {
    match previous {
        Some(o) => seq![o.footprint_spec(), t.footprint_spec()],
        None => seq![t.footprint_spec()],
    }
}

/// The tile on the cell `(a, b)` changed, or a tank changed that covered
/// the cell before or covers it after.
pub open spec fn cell_changed(before: Level, after: Level, a: int, b: int) -> bool {
    ||| before.tile_at(a, b) != after.tile_at(a, b)
    ||| exists|s: int|
        0 <= s < PLAYER_COUNT && #[trigger] before.tank_in(s) != after.tank_in(s) && ((before.tank_in(s) is Some
            && before.tank_in(s)->Some_0.covers(a, b)) || (after.tank_in(s) is Some
            && after.tank_in(s)->Some_0.covers(a, b)))
}

/// The cell `(a, b)` lies in one of the rectangles.
pub open spec fn in_any(rects: Seq<Rect>, a: int, b: int) -> bool {
    exists|i: int| 0 <= i < rects.len() && #[trigger] rects[i].contains(a, b)
}

/// Every cell whose content changed lies in one of the rectangles.
pub open spec fn dirty_covers(before: Level, after: Level, dirty: Seq<Rect>) -> bool {
    forall|a: int, b: int| #[trigger] cell_changed(before, after, a, b) ==> in_any(dirty, a, b)
}

/// `after` is `before` once the button was released over the cell `(x, y)`
/// of the map: a tank tool puts its tank there where it may stand; another
/// tool, given a pending corner and a cell in the level, is applied to the
/// rectangle spanned by the two.
pub open spec fn release_applied(before: Level, after: Level, tool: Tool, corner: Option<(u16, u16)>, x: u16, y: u16) -> bool {
    match tool {
        Tool::Tank(p, d) => if before.can_place(p as int, (Tank { x, y, direction: d })) {
            placed(before, after, p as int, (Tank { x, y, direction: d }))
        } else {
            after == before
        },
        _ => match corner {
            Some(c) => if in_level(x as int, y as int) {
                tool_applied(before, after, tool, Rect::spanning(c.0, c.1, x, y))
            } else {
                after == before
            },
            None => after == before,
        },
    }
}

/// Painting changes no cell outside the painted rectangle.
pub proof fn lemma_painted_dirty(before: Level, after: Level, rect: Rect, block_type: BlockType, fixed: Option<BlockVariant>)
    requires
        painted(before, after, rect, block_type, fixed),
    ensures
        dirty_covers(before, after, seq![rect]),
{
    assert forall|a: int, b: int| #[trigger] cell_changed(before, after, a, b) implies in_any(seq![rect], a, b) by {
        assert(seq![rect][0] == rect);
    }
}

/// `after` is `before` once the left button, in the state that `mouse`
/// shows, was handled over the map cell `(x, y)`, with `dirty` to redraw.
pub open spec fn map_action_done(before: Editor, after: Editor, mouse: MouseState, x: u16, y: u16, dirty: Seq<Rect>) -> bool {
    &&& after.tool == before.tool
    &&& dirty_covers(before.level, after.level, dirty)
    &&& mouse.left_button == ButtonState::GettingPressed ==> {
        &&& after.level == before.level
        &&& dirty.len() == 0
        &&& after.first_selection_corner == if !(before.tool is Tank) && in_level(x as int, y as int) {
            Some((x, y))
        } else {
            before.first_selection_corner
        }
    }
    &&& mouse.left_button == ButtonState::GettingReleased ==> {
        &&& after.first_selection_corner is None
        &&& release_applied(before.level, after.level, before.tool, before.first_selection_corner, x, y)
    }
    &&& mouse.left_button == ButtonState::GettingReleased && !(before.tool is Tank)
        && before.first_selection_corner is Some && in_level(x as int, y as int) ==> {
        &&& dirty.len() >= 1
        &&& dirty[0] == Rect::spanning(
            before.first_selection_corner->Some_0.0,
            before.first_selection_corner->Some_0.1,
            x,
            y,
        )
    }
    &&& mouse.left_button == ButtonState::GettingReleased && before.tool is Tank ==> if before.level.can_place(
        before.tool->Tank_0 as int,
        (Tank { x, y, direction: before.tool->Tank_1 }),
    ) {
        dirty == tank_move_dirty(before.level.tank_in(before.tool->Tank_0 as int), (Tank { x, y, direction: before.tool->Tank_1 }))
    } else {
        dirty.len() == 0
    }
    &&& mouse.left_button == ButtonState::Pressed || mouse.left_button == ButtonState::Released ==> {
        &&& after == before
        &&& dirty.len() == 0
    }
}

/// Dragging a tool from one corner to another changes the level in the
/// same way as dragging it back from the second corner to the first.
pub proof fn lemma_drag_order_independent(
    before: Level,
    forward: Level,
    backward: Level,
    tool: Tool,
    ax: u16,
    ay: u16,
    bx: u16,
    by: u16,
)
    requires
        tool_applied(before, forward, tool, Rect::spanning(ax, ay, bx, by)),
        tool_applied(before, backward, tool, Rect::spanning(bx, by, ax, ay)),
    ensures
        forward.same_tiles(&backward),
        forward.same_tanks(&backward),
{
    lemma_spanning_order_independent(ax, ay, bx, by);
}

/// The tool picked by releasing the button on the sidebar cell `dx`
/// columns right of the map's edge and `dy` rows below its top, if that
/// cell is on a swatch.
pub open spec fn swatch_tool(dx: int, dy: int) -> Option<Tool> {
    let on = |x: int, y: int| x <= dx <= x + 8 && y <= dy <= y + 4;
    if on(3, 10) {
        Some(Tool::FullBlock(BlockType::Brick))
    } else if on(14, 10) {
        Some(Tool::FullBlock(BlockType::Concrete))
    } else if on(3, 15) {
        Some(Tool::FullBlock(BlockType::Water))
    } else if on(14, 15) {
        Some(Tool::FullBlock(BlockType::Leaves))
    } else if on(3, 20) {
        Some(Tool::Tank(0, Direction::Up))
    } else if on(14, 20) {
        Some(Tool::Tank(1, Direction::Up))
    } else if on(3, 25) {
        Some(Tool::Tank(2, Direction::Up))
    } else if on(13, 25) {
        Some(Tool::Tank(3, Direction::Up))
    } else if on(9, 30) {
        Some(Tool::Eraser)
    } else {
        None
    }
}

/// The rectangle to preview under the map cell `(x, y)`: the footprint of
/// a tank tool's tank where it fits; for another tool, the rectangle from a
/// pending corner, or the cell alone, where the cell is in the level.
pub open spec fn preview_spec(tool: Tool, corner: Option<(u16, u16)>, x: u16, y: u16) -> Option<Rect> {
    match tool {
        Tool::Tank(_, d) => if (Tank { x, y, direction: d }).fits() {
            Some((Tank { x, y, direction: d }).footprint_spec())
        } else {
            None
        },
        _ => if in_level(x as int, y as int) {
            match corner {
                Some(c) => Some(Rect::spanning(c.0, c.1, x, y)),
                None => Some(Rect { left: x, top: y, right: x, bottom: y }),
            }
        } else {
            None
        },
    }
}

/// What one frame of mouse input did to the editor.
pub struct EditorFrame {
    /// The map cell under the pointer, if the pointer is over the map.
    pub hovered_cell: Option<(u16, u16)>,
    /// The rectangle where the active tool is previewed, if any.
    pub preview: Option<Rect>,
    /// The rectangles of the map whose content may have changed.
    pub dirty: Vec<Rect>,
}

/// The level editor: the level being edited, the active tool, and the
/// first corner of a rectangle being dragged.
pub struct Editor {
    pub tool: Tool,
    pub level: Level,
    pub first_selection_corner: Option<(u16, u16)>,
}

impl Editor {
    /// The editor's invariant: the level's own, a tank tool names a player
    /// slot, and a pending corner lies in the level.
    pub open spec fn wf(&self) -> bool {
        &&& self.level.inv()
        &&& (self.tool is Tank ==> self.tool->Tank_0 < PLAYER_COUNT)
        &&& (self.first_selection_corner is Some ==> in_level(
            self.first_selection_corner->Some_0.0 as int,
            self.first_selection_corner->Some_0.1 as int,
        ))
    }

    /// A new editor: an empty level, the brick full-block tool, no corner.
    pub fn new() -> (r: Editor)
        ensures
            r.wf(),
            r.tool == Tool::FullBlock(BlockType::Brick),
            r.first_selection_corner is None,
            forall|x: int, y: int| #[trigger] r.level.tile_at(x, y) is None,
            forall|s: int| 0 <= s < PLAYER_COUNT ==> #[trigger] r.level.tank_in(s) is None,
    {
        Editor { tool: Tool::FullBlock(BlockType::Brick), level: Level::new(), first_selection_corner: None }
    }

    /// Paints tiles of `block_type` on every cell of the rectangle from
    /// `(left_top_x, left_top_y)` to `(right_bottom_x, right_bottom_y)`
    /// that no tank covers: all showing `fixed_variant` where it is given,
    /// else in the full-block pattern counted from the rectangle's corner.
    pub fn place_block(
        &mut self,
        left_top_x: u16,
        left_top_y: u16,
        right_bottom_x: u16,
        right_bottom_y: u16,
        block_type: BlockType,
        fixed_variant: Option<BlockVariant>,
    )
        requires
            old(self).level.inv(),
            left_top_x <= right_bottom_x < LEVEL_SIZE,
            left_top_y <= right_bottom_y < LEVEL_SIZE,
        ensures
            final(self).level.inv(),
            final(self).tool == old(self).tool,
            final(self).first_selection_corner == old(self).first_selection_corner,
            painted(
                old(self).level,
                final(self).level,
                (Rect { left: left_top_x, top: left_top_y, right: right_bottom_x, bottom: right_bottom_y }),
                block_type,
                fixed_variant,
            ),
    {
        let ghost rect = Rect { left: left_top_x, top: left_top_y, right: right_bottom_x, bottom: right_bottom_y };
        let mut x: u16 = left_top_x;
        while x <= right_bottom_x
            invariant
                self.level.inv(),
                self.level.same_tanks(&old(self).level),
                self.tool == old(self).tool,
                self.first_selection_corner == old(self).first_selection_corner,
                rect == (Rect { left: left_top_x, top: left_top_y, right: right_bottom_x, bottom: right_bottom_y }),
                left_top_x <= x <= right_bottom_x + 1,
                right_bottom_x < LEVEL_SIZE,
                left_top_y <= right_bottom_y < LEVEL_SIZE,
                forall|a: int, b: int| #[trigger] self.level.tile_at(a, b) == if rect.contains(a, b) && a < x && !old(self).level.covered(a, b) {
                    Some((block_type, painted_variant(fixed_variant, rect, a, b)))
                } else {
                    old(self).level.tile_at(a, b)
                },
            decreases LEVEL_SIZE - x,
        {
            let mut y: u16 = left_top_y;
            while y <= right_bottom_y
                invariant
                    self.level.inv(),
                    self.level.same_tanks(&old(self).level),
                    self.tool == old(self).tool,
                    self.first_selection_corner == old(self).first_selection_corner,
                    rect == (Rect { left: left_top_x, top: left_top_y, right: right_bottom_x, bottom: right_bottom_y }),
                    left_top_x <= x <= right_bottom_x,
                    left_top_y <= y <= right_bottom_y + 1,
                    right_bottom_x < LEVEL_SIZE,
                    right_bottom_y < LEVEL_SIZE,
                    forall|a: int, b: int| #[trigger] self.level.tile_at(a, b) == if rect.contains(a, b) && (a < x || (a == x && b < y)) && !old(self).level.covered(a, b) {
                        Some((block_type, painted_variant(fixed_variant, rect, a, b)))
                    } else {
                        old(self).level.tile_at(a, b)
                    },
                decreases LEVEL_SIZE - y,
            {
                let ghost prev = self.level;
                proof {
                    self.level.lemma_same_tanks_cover_alike(&old(self).level, x as int, y as int);
                }
                if !self.level.is_covered_by_tank(x, y) {
                    let block_variant = painted_variant_at(fixed_variant, left_top_x, left_top_y, x, y);
                    assert(block_variant == painted_variant(fixed_variant, rect, x as int, y as int));
                    self.level.insert_tile(x, y, block_type, block_variant);
                    assert(forall|s: int| 0 <= s < PLAYER_COUNT ==> #[trigger] self.level.tank_in(s) == prev.tank_in(s));
                }
                y += 1;
            }
            x += 1;
        }
    }

    /// Removes the tiles on cells of `rect` and the tanks whose footprint
    /// meets it. Returns the rectangles to redraw: `rect`, then the
    /// footprint of each tank removed.
    pub fn erase(&mut self, rect: Rect) -> (dirty: Vec<Rect>)
        requires
            old(self).level.inv(),
        ensures
            final(self).level.inv(),
            final(self).tool == old(self).tool,
            final(self).first_selection_corner == old(self).first_selection_corner,
            erased(old(self).level, final(self).level, rect),
            dirty_covers(old(self).level, final(self).level, dirty@),
            dirty@.len() >= 1 && dirty@[0] == rect,
    {
        self.level.remove_tiles_in_rect(rect);
        let ghost mid = self.level;
        let removed = self.level.clear_tanks_in_rect(rect);
        let mut dirty: Vec<Rect> = Vec::new();
        dirty.push(rect);
        let mut i: usize = 0;
        while i < removed.len()
            invariant
                old(self).level.inv(),
                mid.same_tanks(&old(self).level),
                i <= removed@.len(),
                dirty@.len() == i + 1,
                dirty@[0] == rect,
                forall|j: int| 0 <= j < removed@.len() ==> {
                    &&& (#[trigger] removed@[j]).0 < PLAYER_COUNT
                    &&& mid.tank_in(removed@[j].0 as int) == Some(removed@[j].1)
                },
                forall|j: int| 0 <= j < i ==> dirty@[j + 1] == (#[trigger] removed@[j]).1.footprint_spec(),
            decreases removed@.len() - i,
        {
            let tank = removed[i].1;
            assert(old(self).level.tank_in(removed@[i as int].0 as int) == Some(tank));
            dirty.push(tank.footprint());
            i += 1;
        }
        assert forall|a: int, b: int| #[trigger] cell_changed(old(self).level, self.level, a, b)
            implies in_any(dirty@, a, b) by {
            if old(self).level.tile_at(a, b) != self.level.tile_at(a, b) {
                assert(dirty@[0].contains(a, b));
            } else {
                let s = choose|s: int|
                    0 <= s < PLAYER_COUNT && #[trigger] old(self).level.tank_in(s) != self.level.tank_in(s) && ((old(self).level.tank_in(s) is Some
                        && old(self).level.tank_in(s)->Some_0.covers(a, b)) || (self.level.tank_in(s) is Some
                        && self.level.tank_in(s)->Some_0.covers(a, b)));
                assert(mid.tank_in(s) == old(self).level.tank_in(s));
                let j = choose|j: int| 0 <= j < removed@.len() && (#[trigger] removed@[j]).0 == s;
                let t = removed@[j].1;
                assert(old(self).level.tank_in(s) == Some(t));
                lemma_footprint_cells(t);
                assert(dirty@[j + 1].contains(a, b));
            }
        }
        assert(dirty_covers(old(self).level, self.level, dirty@));
        dirty
    }

    /// Puts the tank of `player_number` on the cell `(mouse_map_x,
    /// mouse_map_y)`, facing `direction`, where it fits and overlaps no
    /// tile and no other tank; else leaves the level as it is. Returns the
    /// rectangles to redraw: the tank's old footprint, if it had one, and
    /// its new one.
    pub fn place_tank(&mut self, mouse_map_x: u16, mouse_map_y: u16, player_number: u8, direction: Direction) -> (dirty: Vec<Rect>)
        requires
            old(self).level.inv(),
            player_number < PLAYER_COUNT,
        ensures
            final(self).level.inv(),
            final(self).tool == old(self).tool,
            final(self).first_selection_corner == old(self).first_selection_corner,
            old(self).level.can_place(player_number as int, (Tank { x: mouse_map_x, y: mouse_map_y, direction })) ==> {
                &&& placed(old(self).level, final(self).level, player_number as int, (Tank { x: mouse_map_x, y: mouse_map_y, direction }))
                &&& dirty@ == tank_move_dirty(old(self).level.tank_in(player_number as int), (Tank { x: mouse_map_x, y: mouse_map_y, direction }))
            },
            !old(self).level.can_place(player_number as int, (Tank { x: mouse_map_x, y: mouse_map_y, direction })) ==> {
                &&& final(self).level == old(self).level
                &&& dirty@.len() == 0
            },
            dirty_covers(old(self).level, final(self).level, dirty@),
    {
        let t = Tank { x: mouse_map_x, y: mouse_map_y, direction };
        match self.level.place_tank(player_number, mouse_map_x, mouse_map_y, direction) {
            Ok(previous) => {
                let mut dirty: Vec<Rect> = Vec::new();
                if let Some(o) = previous {
                    assert(old(self).level.tank_in(player_number as int) is Some);
                    dirty.push(o.footprint());
                }
                dirty.push(t.footprint());
                assert(dirty@ =~= tank_move_dirty(old(self).level.tank_in(player_number as int), t));
                assert forall|a: int, b: int| #[trigger] cell_changed(old(self).level, self.level, a, b)
                    implies in_any(dirty@, a, b) by {
                    assert(old(self).level.tile_at(a, b) == self.level.tile_at(a, b));
                    let s = choose|s: int|
                        0 <= s < PLAYER_COUNT && #[trigger] old(self).level.tank_in(s) != self.level.tank_in(s) && ((old(self).level.tank_in(s) is Some
                            && old(self).level.tank_in(s)->Some_0.covers(a, b)) || (self.level.tank_in(s) is Some
                            && self.level.tank_in(s)->Some_0.covers(a, b)));
                    assert(s == player_number);
                    lemma_footprint_cells(t);
                    if self.level.tank_in(s)->Some_0.covers(a, b) {
                        assert(dirty@[dirty@.len() - 1].contains(a, b));
                    } else {
                        lemma_footprint_cells(previous->Some_0);
                        assert(dirty@[0].contains(a, b));
                    }
                }
                dirty
            },
            Err(_) => Vec::new(),
        }
    }

    /// Handles the left button over the map cell `(mouse_map_x,
    /// mouse_map_y)`, which may lie past the level's edge. A press records
    /// the cell as the first corner of a rectangle, for any tool but a
    /// tank. A release places the tank of a tank tool there, or applies
    /// another tool to the rectangle from the pending corner, and clears
    /// the corner. Returns the rectangles to redraw.
    pub fn handle_map_mouse_actions(&mut self, mouse_state: &MouseState, mouse_map_x: u16, mouse_map_y: u16) -> (dirty: Vec<Rect>)
        requires
            old(self).wf(),
        ensures
            final(self).wf(),
            map_action_done(*old(self), *final(self), *mouse_state, mouse_map_x, mouse_map_y, dirty@),
    {
        match mouse_state.left_button {
            ButtonState::GettingPressed => {
                if !matches!(self.tool, Tool::Tank(_, _)) && mouse_map_x < LEVEL_SIZE && mouse_map_y < LEVEL_SIZE {
                    self.first_selection_corner = Some((mouse_map_x, mouse_map_y));
                }
                Vec::new()
            },
            ButtonState::GettingReleased => {
                let mut dirty: Vec<Rect> = Vec::new();
                if let Tool::Tank(player_number, direction) = self.tool {
                    dirty = self.place_tank(mouse_map_x, mouse_map_y, player_number, direction);
                } else if let Some((corner_x, corner_y)) = self.first_selection_corner {
                    if mouse_map_x < LEVEL_SIZE && mouse_map_y < LEVEL_SIZE {
                        let rect = Rect::from_corners(corner_x, corner_y, mouse_map_x, mouse_map_y);
                        match self.tool {
                            Tool::SmallBlock(block_type, block_variant) => {
                                self.place_block(rect.left, rect.top, rect.right, rect.bottom, block_type, Some(block_variant));
                                proof {
                                    lemma_painted_dirty(old(self).level, self.level, rect, block_type, Some(block_variant));
                                }
                                dirty.push(rect);
                                assert(dirty@ =~= seq![rect]);
                            },
                            Tool::FullBlock(block_type) => {
                                self.place_block(rect.left, rect.top, rect.right, rect.bottom, block_type, None);
                                proof {
                                    lemma_painted_dirty(old(self).level, self.level, rect, block_type, None);
                                }
                                dirty.push(rect);
                                assert(dirty@ =~= seq![rect]);
                            },
                            _ => {
                                dirty = self.erase(rect);
                            },
                        }
                    }
                }
                self.first_selection_corner = None;
                dirty
            },
            _ => Vec::new(),
        }
    }

    /// Handles the mouse over the sidebar: releasing the button on a
    /// swatch picks its tool. Any pending corner is dropped, since leaving
    /// the map cancels a drag.
    pub fn handle_sidebar_mouse_actions(&mut self, mouse_state: &MouseState, horizontal_margin: u16, vertical_margin: u16)
        requires
            old(self).wf(),
            margins_fit(horizontal_margin, vertical_margin),
        ensures
            final(self).wf(),
            final(self).level == old(self).level,
            final(self).first_selection_corner is None,
            final(self).tool == match swatch_tool(
                mouse_state.column - (horizontal_margin + LEVEL_MAP_WIDTH),
                mouse_state.row - vertical_margin,
            ) {
                Some(t) => if mouse_state.left_button == ButtonState::GettingReleased {
                    t
                } else {
                    old(self).tool
                },
                None => old(self).tool,
            },
    {
        self.first_selection_corner = None;
        if matches!(mouse_state.left_button, ButtonState::GettingReleased) {
            let x = horizontal_margin + LEVEL_MAP_WIDTH;
            let y = vertical_margin;
            if mouse_state.is_hovered(x + 3, y + 10, 8, 4) {
                self.tool = Tool::FullBlock(BlockType::Brick);
            } else if mouse_state.is_hovered(x + 14, y + 10, 8, 4) {
                self.tool = Tool::FullBlock(BlockType::Concrete);
            } else if mouse_state.is_hovered(x + 3, y + 15, 8, 4) {
                self.tool = Tool::FullBlock(BlockType::Water);
            } else if mouse_state.is_hovered(x + 14, y + 15, 8, 4) {
                self.tool = Tool::FullBlock(BlockType::Leaves);
            } else if mouse_state.is_hovered(x + 3, y + 20, 8, 4) {
                self.tool = Tool::Tank(0, Direction::Up);
            } else if mouse_state.is_hovered(x + 14, y + 20, 8, 4) {
                self.tool = Tool::Tank(1, Direction::Up);
            } else if mouse_state.is_hovered(x + 3, y + 25, 8, 4) {
                self.tool = Tool::Tank(2, Direction::Up);
            } else if mouse_state.is_hovered(x + 13, y + 25, 8, 4) {
                self.tool = Tool::Tank(3, Direction::Up);
            } else if mouse_state.is_hovered(x + 9, y + 30, 8, 4) {
                self.tool = Tool::Eraser;
            }
        }
    }

    /// The rectangle where the active tool is previewed under the map cell
    /// `(x, y)`.
    pub fn preview(&self, x: u16, y: u16) -> (r: Option<Rect>)
        ensures
            r == preview_spec(self.tool, self.first_selection_corner, x, y),
    {
        match self.tool {
            Tool::Tank(_, direction) => {
                let t = Tank { x, y, direction };
                if x <= LEVEL_SIZE - TANK_SIZE && y <= LEVEL_SIZE - TANK_SIZE {
                    Some(t.footprint())
                } else {
                    None
                }
            },
            _ => {
                if x < LEVEL_SIZE && y < LEVEL_SIZE {
                    match self.first_selection_corner {
                        Some((cx, cy)) => Some(Rect::from_corners(cx, cy, x, y)),
                        None => Some(Rect { left: x, top: y, right: x, bottom: y }),
                    }
                } else {
                    None
                }
            },
        }
    }

    /// Handles one frame's mouse snapshot, with the map drawn from
    /// `(horizontal_margin, vertical_margin)` and the sidebar right of it.
    /// Over the map, the scroll wheel steps the tool, the button acts on
    /// the cell under the pointer, and the tool is previewed there. Over
    /// the sidebar, the button picks a tool.
    pub fn handle_mouse(&mut self, mouse_state: &MouseState, horizontal_margin: u16, vertical_margin: u16) -> (r: EditorFrame)
        requires
            old(self).wf(),
            margins_fit(horizontal_margin, vertical_margin),
        ensures
            final(self).wf(),
            mouse_state.hovers(horizontal_margin as int, vertical_margin as int, LEVEL_MAP_WIDTH as int, LEVEL_SIZE as int) ==> {
                let x = ((mouse_state.column - horizontal_margin) / 2) as u16;
                let y = (mouse_state.row - vertical_margin) as u16;
                &&& r.hovered_cell == Some((x, y))
                &&& map_action_done(
                    (Editor { tool: scrolled(old(self).tool, mouse_state.scroll), ..*old(self) }),
                    *final(self),
                    *mouse_state,
                    x,
                    y,
                    r.dirty@,
                )
                &&& r.preview == preview_spec(final(self).tool, final(self).first_selection_corner, x, y)
            },
            !mouse_state.hovers(horizontal_margin as int, vertical_margin as int, LEVEL_MAP_WIDTH as int, LEVEL_SIZE as int) ==> {
                &&& r.hovered_cell is None
                &&& r.preview is None
                &&& r.dirty@.len() == 0
                &&& final(self).level == old(self).level
                &&& final(self).first_selection_corner is None
                &&& final(self).tool == match swatch_tool(
                    mouse_state.column - (horizontal_margin + LEVEL_MAP_WIDTH),
                    mouse_state.row - vertical_margin,
                ) {
                    Some(t) => if mouse_state.left_button == ButtonState::GettingReleased {
                        t
                    } else {
                        old(self).tool
                    },
                    None => old(self).tool,
                }
            },
    {
        if mouse_state.is_hovered(horizontal_margin, vertical_margin, LEVEL_MAP_WIDTH, LEVEL_SIZE) {
            let (x, y) = screen_to_map(mouse_state.column, mouse_state.row, horizontal_margin, vertical_margin);
            self.tool.handle_scroll(&mouse_state.scroll);
            let ghost mid = *self;
            assert(mid == (Editor { tool: scrolled(old(self).tool, mouse_state.scroll), ..*old(self) }));
            let dirty = self.handle_map_mouse_actions(mouse_state, x, y);
            let preview = self.preview(x, y);
            EditorFrame { hovered_cell: Some((x, y)), preview, dirty }
        } else {
            self.handle_sidebar_mouse_actions(mouse_state, horizontal_margin, vertical_margin);
            EditorFrame { hovered_cell: None, preview: None, dirty: Vec::new() }
        }
    }
}

} // verus!
