use czougi_tui::editor::{painted_variant_at, Editor};
use czougi_tui::input::{ButtonState, MouseState, ScrollState};
use czougi_tui::level::{BlockType, BlockVariant, Direction, Tank};
use czougi_tui::rect::Rect;
use czougi_tui::tool::Tool;

fn mouse(button: ButtonState) -> MouseState {
    MouseState { column: 0, row: 0, left_button: button, scroll: ScrollState::Still }
}

fn drag(editor: &mut Editor, from: (u16, u16), to: (u16, u16)) -> Vec<Rect> {
    editor.handle_map_mouse_actions(&mouse(ButtonState::GettingPressed), from.0, from.1);
    editor.handle_map_mouse_actions(&mouse(ButtonState::GettingReleased), to.0, to.1)
}

fn look(editor: &Editor, x: u16, y: u16) -> Option<(BlockType, BlockVariant)> {
    editor.level.tile(x, y).map(|b| (b.block_type, b.block_variant))
}

#[test]
fn new_editor() {
    let e = Editor::new();
    assert_eq!(e.tool, Tool::FullBlock(BlockType::Brick));
    assert_eq!(e.first_selection_corner, None);
}

#[test]
fn full_block_rectangle_forms_quadrants() {
    let mut e = Editor::new();
    let dirty = drag(&mut e, (0, 0), (1, 1));
    assert_eq!(dirty, vec![Rect { left: 0, top: 0, right: 1, bottom: 1 }]);
    assert_eq!(look(&e, 0, 0), Some((BlockType::Brick, BlockVariant::LeftTop)));
    assert_eq!(look(&e, 0, 1), Some((BlockType::Brick, BlockVariant::LeftBottom)));
    assert_eq!(look(&e, 1, 0), Some((BlockType::Brick, BlockVariant::RightTop)));
    assert_eq!(look(&e, 1, 1), Some((BlockType::Brick, BlockVariant::RightBottom)));
    assert_eq!(look(&e, 2, 0), None);
    assert_eq!(e.first_selection_corner, None);
}

#[test]
fn full_block_pattern_counts_from_rectangle_corner() {
    let mut e = Editor::new();
    drag(&mut e, (5, 5), (3, 3));
    assert_eq!(look(&e, 3, 3), Some((BlockType::Brick, BlockVariant::LeftTop)));
    assert_eq!(look(&e, 4, 3), Some((BlockType::Brick, BlockVariant::RightTop)));
    assert_eq!(look(&e, 5, 5), Some((BlockType::Brick, BlockVariant::LeftTop)));
    assert_eq!(look(&e, 5, 4), Some((BlockType::Brick, BlockVariant::LeftBottom)));
}

#[test]
fn drag_direction_does_not_matter() {
    let mut a = Editor::new();
    let mut b = Editor::new();
    a.tool = Tool::SmallBlock(BlockType::Water, BlockVariant::RightTop);
    b.tool = Tool::SmallBlock(BlockType::Water, BlockVariant::RightTop);
    drag(&mut a, (5, 5), (2, 2));
    drag(&mut b, (2, 2), (5, 5));
    for y in 0..10 {
        for x in 0..10 {
            assert_eq!(look(&a, x, y), look(&b, x, y));
            let inside = (2..=5).contains(&x) && (2..=5).contains(&y);
            assert_eq!(look(&a, x, y).is_some(), inside);
        }
    }
}

#[test]
fn painting_skips_cells_under_tanks() {
    let mut e = Editor::new();
    e.level.place_tank(0, 2, 2, Direction::Up).unwrap();
    e.tool = Tool::SmallBlock(BlockType::Concrete, BlockVariant::LeftTop);
    drag(&mut e, (0, 0), (9, 9));
    assert_eq!(look(&e, 2, 2), None);
    assert_eq!(look(&e, 5, 5), None);
    assert_eq!(look(&e, 6, 5), Some((BlockType::Concrete, BlockVariant::LeftTop)));
    assert_eq!(look(&e, 1, 1), Some((BlockType::Concrete, BlockVariant::LeftTop)));
}

#[test]
fn eraser_removes_tank_it_meets() {
    let mut e = Editor::new();
    e.tool = Tool::Tank(1, Direction::Up);
    let dirty = e.handle_map_mouse_actions(&mouse(ButtonState::GettingReleased), 10, 10);
    assert_eq!(dirty, vec![Rect { left: 10, top: 10, right: 13, bottom: 13 }]);
    assert!(e.level.tank(1).is_some());
    // Pick the eraser from its swatch on the sidebar.
    let pick = MouseState { column: 100 + 9, row: 30, left_button: ButtonState::GettingReleased, scroll: ScrollState::Still };
    e.handle_sidebar_mouse_actions(&pick, 0, 0);
    assert_eq!(e.tool, Tool::Eraser);
    let dirty = drag(&mut e, (8, 8), (10, 10));
    assert_eq!(e.level.tank(1), None);
    assert_eq!(dirty[0], Rect { left: 8, top: 8, right: 10, bottom: 10 });
    assert!(dirty.contains(&Rect { left: 10, top: 10, right: 13, bottom: 13 }));
}

#[test]
fn eraser_removes_exactly_the_rectangle() {
    let mut e = Editor::new();
    drag(&mut e, (0, 0), (9, 9));
    e.level.place_tank(0, 20, 0, Direction::Up).unwrap();
    e.level.place_tank(1, 30, 30, Direction::Up).unwrap();
    e.tool = Tool::Eraser;
    drag(&mut e, (3, 3), (23, 4));
    for y in 0..10 {
        for x in 0..10 {
            let erased = x >= 3 && y >= 3 && y <= 4;
            assert_eq!(look(&e, x, y).is_none(), erased);
        }
    }
    assert_eq!(e.level.tank(0), None);
    assert_eq!(e.level.tank(1), Some(Tank { x: 30, y: 30, direction: Direction::Up }));
}

#[test]
fn tank_click_moves_tank_and_redraws_both_places() {
    let mut e = Editor::new();
    e.tool = Tool::Tank(0, Direction::Down);
    e.handle_map_mouse_actions(&mouse(ButtonState::GettingReleased), 0, 0);
    let dirty = e.handle_map_mouse_actions(&mouse(ButtonState::GettingReleased), 20, 0);
    assert_eq!(
        dirty,
        vec![
            Rect { left: 0, top: 0, right: 3, bottom: 3 },
            Rect { left: 20, top: 0, right: 23, bottom: 3 }
        ]
    );
    assert_eq!(e.level.tank(0), Some(Tank { x: 20, y: 0, direction: Direction::Down }));
}

#[test]
fn overlapping_tank_click_is_ignored() {
    let mut e = Editor::new();
    e.tool = Tool::Tank(0, Direction::Up);
    e.handle_map_mouse_actions(&mouse(ButtonState::GettingReleased), 0, 0);
    e.tool = Tool::Tank(1, Direction::Up);
    let dirty = e.handle_map_mouse_actions(&mouse(ButtonState::GettingReleased), 2, 2);
    assert!(dirty.is_empty());
    assert_eq!(e.level.tank(1), None);
}

#[test]
fn tank_tool_does_not_start_a_drag() {
    let mut e = Editor::new();
    e.tool = Tool::Tank(0, Direction::Up);
    e.handle_map_mouse_actions(&mouse(ButtonState::GettingPressed), 4, 4);
    assert_eq!(e.first_selection_corner, None);
}

#[test]
fn press_outside_level_records_no_corner() {
    let mut e = Editor::new();
    e.handle_map_mouse_actions(&mouse(ButtonState::GettingPressed), 50, 3);
    assert_eq!(e.first_selection_corner, None);
    e.handle_map_mouse_actions(&mouse(ButtonState::GettingPressed), 4, 3);
    assert_eq!(e.first_selection_corner, Some((4, 3)));
    let dirty = e.handle_map_mouse_actions(&mouse(ButtonState::GettingReleased), 4, 50);
    assert!(dirty.is_empty());
    assert_eq!(e.first_selection_corner, None);
    assert_eq!(look(&e, 4, 3), None);
}

#[test]
fn steady_button_changes_nothing() {
    let mut e = Editor::new();
    e.handle_map_mouse_actions(&mouse(ButtonState::GettingPressed), 1, 1);
    let dirty = e.handle_map_mouse_actions(&mouse(ButtonState::Pressed), 2, 2);
    assert!(dirty.is_empty());
    assert_eq!(e.first_selection_corner, Some((1, 1)));
    e.handle_map_mouse_actions(&mouse(ButtonState::Released), 2, 2);
    assert_eq!(look(&e, 1, 1), None);
}

#[test]
fn place_block_with_fixed_variant() {
    let mut e = Editor::new();
    e.place_block(1, 1, 2, 1, BlockType::Leaves, Some(BlockVariant::RightBottom));
    assert_eq!(look(&e, 1, 1), Some((BlockType::Leaves, BlockVariant::RightBottom)));
    assert_eq!(look(&e, 2, 1), Some((BlockType::Leaves, BlockVariant::RightBottom)));
}

#[test]
fn sidebar_swatches_pick_tools() {
    let (hm, vm) = (3, 2);
    let click = |column: u16, row: u16| MouseState {
        column,
        row,
        left_button: ButtonState::GettingReleased,
        scroll: ScrollState::Still,
    };
    let mut e = Editor::new();
    e.first_selection_corner = Some((1, 1));
    e.handle_sidebar_mouse_actions(&click(hm + 100 + 14, vm + 10), hm, vm);
    assert_eq!(e.tool, Tool::FullBlock(BlockType::Concrete));
    assert_eq!(e.first_selection_corner, None);
    e.handle_sidebar_mouse_actions(&click(hm + 100 + 13, vm + 25), hm, vm);
    assert_eq!(e.tool, Tool::Tank(3, Direction::Up));
    e.handle_sidebar_mouse_actions(&click(hm + 100 + 17, vm + 34), hm, vm);
    assert_eq!(e.tool, Tool::Eraser);
    e.handle_sidebar_mouse_actions(&click(hm + 100 + 1, vm + 1), hm, vm);
    assert_eq!(e.tool, Tool::Eraser);
    let mut hover = click(hm + 100 + 3, vm + 10);
    hover.left_button = ButtonState::Pressed;
    e.handle_sidebar_mouse_actions(&hover, hm, vm);
    assert_eq!(e.tool, Tool::Eraser);
}

#[test]
fn frame_over_map_scrolls_acts_and_previews() {
    let mut e = Editor::new();
    let (hm, vm) = (10, 5);
    let m = MouseState { column: 10 + 2 * 7 + 1, row: 5 + 3, left_button: ButtonState::GettingPressed, scroll: ScrollState::Up };
    let frame = e.handle_mouse(&m, hm, vm);
    assert_eq!(frame.hovered_cell, Some((7, 3)));
    assert_eq!(e.tool, Tool::SmallBlock(BlockType::Brick, BlockVariant::RightBottom));
    assert_eq!(e.first_selection_corner, Some((7, 3)));
    assert_eq!(frame.preview, Some(Rect { left: 7, top: 3, right: 7, bottom: 3 }));
    let m = MouseState { column: 10 + 2 * 9, row: 5 + 4, left_button: ButtonState::Pressed, scroll: ScrollState::Still };
    let frame = e.handle_mouse(&m, hm, vm);
    assert_eq!(frame.preview, Some(Rect { left: 7, top: 3, right: 9, bottom: 4 }));
    assert!(frame.dirty.is_empty());
}

#[test]
fn frame_over_sidebar_cancels_drag() {
    let mut e = Editor::new();
    e.first_selection_corner = Some((2, 2));
    let m = MouseState { column: 200, row: 10, left_button: ButtonState::Pressed, scroll: ScrollState::Up };
    let frame = e.handle_mouse(&m, 0, 0);
    assert_eq!(frame.hovered_cell, None);
    assert_eq!(e.first_selection_corner, None);
    assert_eq!(e.tool, Tool::FullBlock(BlockType::Brick));
}

#[test]
fn tank_preview_only_where_it_fits() {
    let mut e = Editor::new();
    e.tool = Tool::Tank(2, Direction::Left);
    assert_eq!(e.preview(46, 0), Some(Rect { left: 46, top: 0, right: 49, bottom: 3 }));
    assert_eq!(e.preview(47, 0), None);
    e.tool = Tool::Eraser;
    assert_eq!(e.preview(49, 49), Some(Rect { left: 49, top: 49, right: 49, bottom: 49 }));
    assert_eq!(e.preview(50, 49), None);
}

#[test]
fn painted_variant_pattern() {
    assert_eq!(painted_variant_at(None, 2, 3, 2, 3), BlockVariant::LeftTop);
    assert_eq!(painted_variant_at(None, 2, 3, 3, 3), BlockVariant::RightTop);
    assert_eq!(painted_variant_at(None, 2, 3, 2, 4), BlockVariant::LeftBottom);
    assert_eq!(painted_variant_at(None, 2, 3, 5, 6), BlockVariant::RightBottom);
    assert_eq!(painted_variant_at(Some(BlockVariant::LeftBottom), 2, 3, 5, 6), BlockVariant::LeftBottom);
}
