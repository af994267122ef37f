use czougi_tui::input::ScrollState;
use czougi_tui::level::{BlockType, BlockVariant, Direction};
use czougi_tui::tool::Tool;

fn scroll_n(mut t: Tool, s: ScrollState, n: usize) -> Tool {
    for _ in 0..n {
        t.handle_scroll(&s);
    }
    t
}

#[test]
fn full_block_scrolls_into_quadrants() {
    assert_eq!(
        scroll_n(Tool::FullBlock(BlockType::Brick), ScrollState::Up, 1),
        Tool::SmallBlock(BlockType::Brick, BlockVariant::RightBottom)
    );
    assert_eq!(
        scroll_n(Tool::FullBlock(BlockType::Water), ScrollState::Down, 1),
        Tool::SmallBlock(BlockType::Water, BlockVariant::LeftTop)
    );
}

#[test]
fn small_block_up_transitions() {
    let k = BlockType::Concrete;
    let up = |v| scroll_n(Tool::SmallBlock(k, v), ScrollState::Up, 1);
    assert_eq!(up(BlockVariant::LeftTop), Tool::FullBlock(k));
    assert_eq!(up(BlockVariant::RightTop), Tool::SmallBlock(k, BlockVariant::RightBottom));
    assert_eq!(up(BlockVariant::LeftBottom), Tool::SmallBlock(k, BlockVariant::LeftTop));
    assert_eq!(up(BlockVariant::RightBottom), Tool::SmallBlock(k, BlockVariant::RightTop));
}

#[test]
fn block_scroll_down_cycle_returns_after_five() {
    let start = Tool::FullBlock(BlockType::Leaves);
    assert_eq!(
        scroll_n(start, ScrollState::Down, 4),
        Tool::SmallBlock(BlockType::Leaves, BlockVariant::RightBottom)
    );
    assert_eq!(scroll_n(start, ScrollState::Down, 5), start);
}

#[test]
fn full_block_scroll_up_four_times() {
    // Up from a full block lands on the lower-right quadrant, and the two
    // right quadrants then lead into each other.
    assert_eq!(
        scroll_n(Tool::FullBlock(BlockType::Brick), ScrollState::Up, 4),
        Tool::SmallBlock(BlockType::Brick, BlockVariant::RightTop)
    );
}

#[test]
fn tank_scroll_cycles_in_four() {
    let t = Tool::Tank(1, Direction::Up);
    assert_eq!(scroll_n(t, ScrollState::Up, 1), Tool::Tank(1, Direction::Left));
    assert_eq!(scroll_n(t, ScrollState::Up, 2), Tool::Tank(1, Direction::Down));
    assert_eq!(scroll_n(t, ScrollState::Down, 1), Tool::Tank(1, Direction::Right));
    assert_eq!(scroll_n(t, ScrollState::Up, 4), t);
    assert_eq!(scroll_n(t, ScrollState::Down, 4), t);
}

#[test]
fn eraser_and_still_scroll_change_nothing() {
    assert_eq!(scroll_n(Tool::Eraser, ScrollState::Up, 3), Tool::Eraser);
    let t = Tool::SmallBlock(BlockType::Brick, BlockVariant::LeftBottom);
    assert_eq!(scroll_n(t, ScrollState::Still, 1), t);
}

#[test]
fn change_tank_direction_only_turns_tanks() {
    let mut t = Tool::Tank(0, Direction::Right);
    t.change_tank_direction(&ScrollState::Up);
    assert_eq!(t, Tool::Tank(0, Direction::Up));
    let mut b = Tool::FullBlock(BlockType::Brick);
    b.change_tank_direction(&ScrollState::Up);
    assert_eq!(b, Tool::FullBlock(BlockType::Brick));
}
