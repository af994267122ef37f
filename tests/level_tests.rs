use czougi_tui::level::{
    BlockType, BlockVariant, Direction, Level, PlaceTankError, Tank, LEVEL_SIZE, PLAYER_COUNT,
};
use czougi_tui::rect::Rect;

fn tank(x: u16, y: u16) -> Tank {
    Tank { x, y, direction: Direction::Up }
}

#[test]
fn new_level_is_empty() {
    let level = Level::new();
    for y in 0..LEVEL_SIZE {
        for x in 0..LEVEL_SIZE {
            assert!(level.tile(x, y).is_none());
        }
    }
    for slot in 0..PLAYER_COUNT {
        assert_eq!(level.tank(slot), None);
    }
}

#[test]
fn last_insertion_at_a_cell_wins() {
    let mut level = Level::new();
    level.insert_tile(3, 4, BlockType::Brick, BlockVariant::LeftTop);
    level.insert_tile(3, 4, BlockType::Water, BlockVariant::RightBottom);
    level.insert_tile(5, 4, BlockType::Leaves, BlockVariant::RightTop);
    let b = level.tile(3, 4).unwrap();
    assert_eq!((b.x, b.y), (3, 4));
    assert_eq!(b.block_type, BlockType::Water);
    assert_eq!(b.block_variant, BlockVariant::RightBottom);
    let contents = level.query_rect(Rect { left: 0, top: 0, right: 49, bottom: 49 });
    assert_eq!(contents.tiles.len(), 2);
    assert_eq!(contents.background.len(), 2500 - 2);
}

#[test]
fn blocks_are_equal_by_cell() {
    let mut level = Level::new();
    level.insert_tile(1, 1, BlockType::Brick, BlockVariant::LeftTop);
    let a = level.tile(1, 1).unwrap();
    level.insert_tile(1, 1, BlockType::Concrete, BlockVariant::RightTop);
    let b = level.tile(1, 1).unwrap();
    assert!(a == b);
    level.insert_tile(2, 1, BlockType::Brick, BlockVariant::LeftTop);
    assert!(a != level.tile(2, 1).unwrap());
}

#[test]
fn tile_outside_level_is_none() {
    let level = Level::new();
    assert!(level.tile(50, 0).is_none());
    assert!(level.tile(0, 50).is_none());
}

#[test]
fn second_tank_overlapping_first_is_refused() {
    let mut level = Level::new();
    assert_eq!(level.place_tank(0, 0, 0, Direction::Up), Ok(None));
    assert_eq!(level.place_tank(1, 2, 2, Direction::Up), Err(PlaceTankError::Overlap));
    assert_eq!(level.tank(1), None);
    assert_eq!(level.tank(0), Some(tank(0, 0)));
}

#[test]
fn tanks_side_by_side_are_accepted() {
    let mut level = Level::new();
    assert_eq!(level.place_tank(0, 0, 0, Direction::Up), Ok(None));
    assert_eq!(level.place_tank(1, 4, 0, Direction::Down), Ok(None));
    assert_eq!(level.tank(1), Some(Tank { x: 4, y: 0, direction: Direction::Down }));
}

#[test]
fn placing_tank_again_in_place_succeeds() {
    let mut level = Level::new();
    level.place_tank(2, 10, 10, Direction::Left).unwrap();
    let before = level.tank(2);
    assert_eq!(level.place_tank(2, 10, 10, Direction::Left), Ok(before));
    assert_eq!(level.tank(2), before);
}

#[test]
fn moving_tank_vacates_old_footprint() {
    let mut level = Level::new();
    level.place_tank(0, 10, 10, Direction::Up).unwrap();
    // The new footprint overlaps the old one of the same slot: that is a move.
    assert_eq!(level.place_tank(0, 12, 12, Direction::Right), Ok(Some(tank(10, 10))));
    assert_eq!(level.place_tank(1, 8, 8, Direction::Up), Ok(None));
}

#[test]
fn tank_on_tile_is_refused() {
    let mut level = Level::new();
    level.insert_tile(5, 5, BlockType::Concrete, BlockVariant::LeftTop);
    assert_eq!(level.place_tank(0, 2, 2, Direction::Up), Err(PlaceTankError::Overlap));
    assert_eq!(level.place_tank(0, 2, 1, Direction::Up), Ok(None));
}

#[test]
fn tank_past_edge_is_refused() {
    let mut level = Level::new();
    assert_eq!(level.place_tank(0, 47, 0, Direction::Up), Err(PlaceTankError::OutOfBounds));
    assert_eq!(level.place_tank(0, 0, 47, Direction::Up), Err(PlaceTankError::OutOfBounds));
    assert_eq!(level.place_tank(0, 46, 46, Direction::Up), Ok(None));
}

#[test]
fn tanks_never_overlap_after_many_placements() {
    let mut level = Level::new();
    let mut n: u32 = 7;
    for _ in 0..400 {
        n = n.wrapping_mul(1103515245).wrapping_add(12345);
        let slot = ((n >> 16) % 4) as u8;
        let x = ((n >> 8) % 50) as u16;
        let y = ((n >> 20) % 50) as u16;
        let _ = level.place_tank(slot, x, y, Direction::Up);
        for s in 0..4u8 {
            for t in 0..4u8 {
                if s == t {
                    continue;
                }
                if let (Some(a), Some(b)) = (level.tank(s), level.tank(t)) {
                    let apart = a.x + 4 <= b.x || b.x + 4 <= a.x || a.y + 4 <= b.y || b.y + 4 <= a.y;
                    assert!(apart);
                }
            }
        }
    }
}

#[test]
fn covered_cells_follow_footprint() {
    let mut level = Level::new();
    level.place_tank(3, 20, 30, Direction::Down).unwrap();
    assert!(level.is_covered_by_tank(20, 30));
    assert!(level.is_covered_by_tank(23, 33));
    assert!(!level.is_covered_by_tank(24, 33));
    assert!(!level.is_covered_by_tank(19, 30));
}

#[test]
fn remove_tiles_in_rect_keeps_the_rest() {
    let mut level = Level::new();
    for x in 0..6 {
        level.insert_tile(x, 0, BlockType::Brick, BlockVariant::LeftTop);
    }
    level.remove_tiles_in_rect(Rect { left: 2, top: 0, right: 3, bottom: 60 });
    for x in 0..6 {
        assert_eq!(level.tile(x, 0).is_some(), x < 2 || x > 3);
    }
}

#[test]
fn clear_tanks_in_rect_removes_only_those_it_meets() {
    let mut level = Level::new();
    level.place_tank(0, 0, 0, Direction::Up).unwrap();
    level.place_tank(2, 10, 0, Direction::Up).unwrap();
    let removed = level.clear_tanks_in_rect(Rect { left: 3, top: 3, right: 5, bottom: 5 });
    assert_eq!(removed, vec![(0, tank(0, 0))]);
    assert_eq!(level.tank(0), None);
    assert_eq!(level.tank(2), Some(tank(10, 0)));
}

#[test]
fn query_rect_lists_tiles_tanks_and_background() {
    let mut level = Level::new();
    level.insert_tile(1, 1, BlockType::Water, BlockVariant::LeftBottom);
    level.place_tank(1, 3, 0, Direction::Up).unwrap();
    let c = level.query_rect(Rect { left: 0, top: 0, right: 2, bottom: 2 });
    assert_eq!(c.tiles.len(), 1);
    assert_eq!((c.tiles[0].x, c.tiles[0].y), (1, 1));
    assert_eq!(c.tanks, vec![]);
    assert_eq!(c.background.len(), 8);
    let c = level.query_rect(Rect { left: 0, top: 0, right: 3, bottom: 0 });
    assert_eq!(c.tanks, vec![(1, tank(3, 0))]);
}

#[test]
fn footprint_of_tank() {
    assert_eq!(tank(7, 9).footprint(), Rect { left: 7, top: 9, right: 10, bottom: 12 });
}

#[test]
fn rect_from_corners_in_either_order() {
    assert_eq!(Rect::from_corners(5, 5, 2, 2), Rect::from_corners(2, 2, 5, 5));
    assert_eq!(Rect::from_corners(5, 1, 2, 7), Rect { left: 2, top: 1, right: 5, bottom: 7 });
    assert_eq!(Rect::from_corners(4, 4, 4, 4), Rect { left: 4, top: 4, right: 4, bottom: 4 });
}
