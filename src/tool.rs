use crate::input::ScrollState;
use crate::level::{BlockType, BlockVariant, Direction};
use vstd::prelude::*;

verus! {

/// The editor's active tool.
#[derive(Clone, Copy, Debug, PartialEq, Eq, Structural)]
pub enum Tool {
    /// Paints tiles of one kind, all showing one quadrant.
    SmallBlock(BlockType, BlockVariant),
    /// Paints tiles of one kind that join into 2x2 full blocks.
    FullBlock(BlockType),
    /// Places the tank of a player slot, facing a direction.
    Tank(u8, Direction),
    /// Removes tiles and tanks.
    Eraser,
}

/// The direction after one scroll step: counterclockwise for `Up`,
/// clockwise for `Down`.
pub open spec fn rotated(d: Direction, scroll: ScrollState) -> Direction {
    match scroll {
        ScrollState::Up => match d {
            Direction::Up => Direction::Left,
            Direction::Left => Direction::Down,
            Direction::Down => Direction::Right,
            Direction::Right => Direction::Up,
        },
        ScrollState::Down => match d {
            Direction::Up => Direction::Right,
            Direction::Right => Direction::Down,
            Direction::Down => Direction::Left,
            Direction::Left => Direction::Up,
        },
        ScrollState::Still => d,
    }
}

/// The tool after one scroll step.
pub open spec fn scrolled(t: Tool, scroll: ScrollState) -> Tool {
    match (t, scroll) {
        (_, ScrollState::Still) => t,
        (Tool::FullBlock(k), ScrollState::Up) => Tool::SmallBlock(k, BlockVariant::RightBottom),
        (Tool::FullBlock(k), ScrollState::Down) => Tool::SmallBlock(k, BlockVariant::LeftTop),
        (Tool::SmallBlock(k, v), ScrollState::Up) => match v {
            BlockVariant::LeftTop => Tool::FullBlock(k),
            BlockVariant::RightTop => Tool::SmallBlock(k, BlockVariant::RightBottom),
            BlockVariant::LeftBottom => Tool::SmallBlock(k, BlockVariant::LeftTop),
            BlockVariant::RightBottom => Tool::SmallBlock(k, BlockVariant::RightTop),
        },
        (Tool::SmallBlock(k, v), _) => match v {
            BlockVariant::LeftTop => Tool::SmallBlock(k, BlockVariant::RightTop),
            BlockVariant::RightTop => Tool::SmallBlock(k, BlockVariant::LeftBottom),
            BlockVariant::LeftBottom => Tool::SmallBlock(k, BlockVariant::RightBottom),
            BlockVariant::RightBottom => Tool::FullBlock(k),
        },
        (Tool::Tank(p, d), _) => Tool::Tank(p, rotated(d, scroll)),
        (Tool::Eraser, _) => Tool::Eraser,
    }
}

/// The tool after `n` scroll steps the same way.
pub open spec fn scrolled_times(t: Tool, scroll: ScrollState, n: nat) -> Tool
    decreases n,
{
    if n == 0 {
        t
    } else {
        scrolled(scrolled_times(t, scroll, (n - 1) as nat), scroll)
    }
}

impl Tool {
    /// Turns the tank of a `Tank` tool one step with the scroll wheel;
    /// leaves any other tool as it is.
    pub fn change_tank_direction(&mut self, scroll: &ScrollState)
        ensures
            *final(self) == match *old(self) {
                Tool::Tank(p, d) => Tool::Tank(p, rotated(d, *scroll)),
                t => t,
            },
    {
        if let Tool::Tank(_, direction) = self {
            match scroll {
                ScrollState::Up => {
                    *direction = match direction {
                        Direction::Up => Direction::Left,
                        Direction::Left => Direction::Down,
                        Direction::Down => Direction::Right,
                        Direction::Right => Direction::Up,
                    };
                },
                ScrollState::Down => {
                    *direction = match direction {
                        Direction::Up => Direction::Right,
                        Direction::Right => Direction::Down,
                        Direction::Down => Direction::Left,
                        Direction::Left => Direction::Up,
                    };
                },
                ScrollState::Still => {},
            }
        }
    }

    /// Applies one scroll step: a full block steps into its quadrants and
    /// back out, a tank turns, the eraser stays.
    pub fn handle_scroll(&mut self, scroll: &ScrollState)
        ensures
            *final(self) == scrolled(*old(self), *scroll),
    {
        if matches!(scroll, ScrollState::Still) {
            return;
        }
        match *self {
            Tool::SmallBlock(block_type, block_variant) => {
                *self = match scroll {
                    ScrollState::Up => match block_variant {
                        BlockVariant::LeftTop => Tool::FullBlock(block_type),
                        BlockVariant::RightTop => Tool::SmallBlock(block_type, BlockVariant::RightBottom),
                        BlockVariant::LeftBottom => Tool::SmallBlock(block_type, BlockVariant::LeftTop),
                        BlockVariant::RightBottom => Tool::SmallBlock(block_type, BlockVariant::RightTop),
                    },
                    _ => match block_variant {
                        BlockVariant::LeftTop => Tool::SmallBlock(block_type, BlockVariant::RightTop),
                        BlockVariant::RightTop => Tool::SmallBlock(block_type, BlockVariant::LeftBottom),
                        BlockVariant::LeftBottom => Tool::SmallBlock(block_type, BlockVariant::RightBottom),
                        BlockVariant::RightBottom => Tool::FullBlock(block_type),
                    },
                };
            },
            Tool::FullBlock(block_type) => {
                *self = match scroll {
                    ScrollState::Up => Tool::SmallBlock(block_type, BlockVariant::RightBottom),
                    _ => Tool::SmallBlock(block_type, BlockVariant::LeftTop),
                };
            },
            Tool::Tank(_, _) => self.change_tank_direction(scroll),
            Tool::Eraser => {},
        }
    }
}

/// Scrolling four steps the same way brings a tank tool back to its
/// direction, and leaves the eraser as it is.
pub proof fn lemma_scroll_four_times_closes(t: Tool, scroll: ScrollState)
    requires
        t is Tank || t is Eraser,
    ensures
        scrolled_times(t, scroll, 4) == t,
{
    reveal_with_fuel(scrolled_times, 5);
}

/// Scrolling down five steps takes a block tool through its full block and
/// all four quadrants back to where it started.
pub proof fn lemma_block_scroll_down_closes(t: Tool)
    requires
        t is FullBlock || t is SmallBlock,
    ensures
        scrolled_times(t, ScrollState::Down, 5) == t,
{
    reveal_with_fuel(scrolled_times, 6);
}

} // verus!
