use vstd::prelude::*;

use crate::position::Position;

verus! {

/// Rows of the formation at the start of a round.
pub const FORMATION_ROWS: usize = 5;

/// Columns of the formation at the start of a round.
pub const FORMATION_COLS: usize = 11;

/// Distance between neighbouring members: 32 pixels, in thousandths of a pixel.
pub const FORMATION_SPACING: i32 = 32_000;

/// x of the leftmost column: -300 pixels, in thousandths of a pixel.
pub const FORMATION_LEFT: i32 = -300_000;

/// y of the top row: 200 pixels, in thousandths of a pixel.
pub const FORMATION_TOP: i32 = 200_000;

/// A kind of enemy: the points it is worth and its first sprite in the sheet.
#[derive(Clone, Copy, Debug, PartialEq, Eq, Structural)]
pub struct AlienTier {
    pub point_value: u32,
    pub sprite_index: usize,
}

impl AlienTier {
    /// The enemies of the two bottom rows.
    pub fn low_level() -> (t: AlienTier)
        ensures
            t.point_value == 10 && t.sprite_index == 4,
    {
        AlienTier { point_value: 10, sprite_index: 4 }
    }

    /// The enemies of the two middle rows.
    pub fn mid_level() -> (t: AlienTier)
        ensures
            t.point_value == 20 && t.sprite_index == 2,
    {
        AlienTier { point_value: 20, sprite_index: 2 }
    }

    /// The enemies of the top row.
    pub fn high_level() -> (t: AlienTier)
        ensures
            t.point_value == 30 && t.sprite_index == 0,
    {
        AlienTier { point_value: 30, sprite_index: 0 }
    }
}

/// The tier of the enemies of formation row `row`, counting from the top.
pub open spec fn tier_of_row(row: int) -> AlienTier {
    if row == 0 {
        AlienTier { point_value: 30, sprite_index: 0 }
    } else if row <= 2 {
        AlienTier { point_value: 20, sprite_index: 2 }
    } else {
        AlienTier { point_value: 10, sprite_index: 4 }
    }
}

/// An enemy of the starting formation: its tier and where it starts.
#[derive(Clone, Copy, Debug, PartialEq, Eq, Structural)]
pub struct AlienSpawn {
    pub tier: AlienTier,
    pub position: Position,
}

/// The member of the starting formation in row `row` and column `col`.
pub open spec fn formation_member(row: int, col: int) -> AlienSpawn {
    AlienSpawn {
        tier: tier_of_row(row),
        position: Position {
            x: (FORMATION_LEFT + col * FORMATION_SPACING) as i32,
            y: (FORMATION_TOP - row * FORMATION_SPACING) as i32,
        },
    }
}

/// The starting formation, row by row from the top, each row from the left:
/// `FORMATION_ROWS` rows of `FORMATION_COLS` enemies, 32 pixels apart, the
/// top row of the high tier, the next two of the mid tier, the rest low.
pub fn spawn_aliens() -> (spawns: Vec<AlienSpawn>)
    ensures
        spawns@.len() == FORMATION_ROWS * FORMATION_COLS,
        forall|row: int, col: int|
            0 <= row < FORMATION_ROWS && 0 <= col < FORMATION_COLS ==> #[trigger] spawns@[row * FORMATION_COLS + col]
                == formation_member(row, col),
{
    let mut spawns: Vec<AlienSpawn> = Vec::new();
    let mut row: usize = 0;
    while row < FORMATION_ROWS
        invariant
            row <= FORMATION_ROWS,
            spawns@.len() == row * FORMATION_COLS,
            forall|r: int, c: int|
                0 <= r < row && 0 <= c < FORMATION_COLS ==> #[trigger] spawns@[r * FORMATION_COLS + c]
                    == formation_member(r, c),
        decreases FORMATION_ROWS - row,
    {
        let tier = if row == 0 {
            AlienTier::high_level()
        } else if row <= 2 {
            AlienTier::mid_level()
        } else {
            AlienTier::low_level()
        };
        let y = FORMATION_TOP - row as i32 * FORMATION_SPACING;
        let mut col: usize = 0;
        while col < FORMATION_COLS
            invariant
                row < FORMATION_ROWS,
                col <= FORMATION_COLS,
                tier == tier_of_row(row as int),
                y == FORMATION_TOP - row * FORMATION_SPACING,
                spawns@.len() == row * FORMATION_COLS + col,
                forall|r: int, c: int|
                    0 <= r < row && 0 <= c < FORMATION_COLS ==> #[trigger] spawns@[r * FORMATION_COLS + c]
                        == formation_member(r, c),
                forall|c: int| 0 <= c < col ==> #[trigger] spawns@[row * FORMATION_COLS + c] == formation_member(row as int, c),
            decreases FORMATION_COLS - col,
        {
            let x = FORMATION_LEFT + col as i32 * FORMATION_SPACING;
            spawns.push(AlienSpawn { tier, position: Position { x, y } });
            col = col + 1;
        }
        row = row + 1;
    }
    spawns
}

/// Which of its two animation frames an enemy shows: its tier's sprite, or
/// the sprite after it.
#[derive(Clone, Copy, Debug, PartialEq, Eq, Structural)]
pub struct CurrentSpriteIndex {
    original: usize,
    current: usize,
}

impl CurrentSpriteIndex {
    /// Starts on the sprite `original`.
    pub fn new(original: usize) -> (s: CurrentSpriteIndex)
        requires
            original < usize::MAX,
        ensures
            s.spec_original() == original,
            s.spec_current() == original,
            s.wf(),
    {
        CurrentSpriteIndex { original, current: original }
    }

    pub closed spec fn spec_original(&self) -> usize {
        self.original
    }

    pub closed spec fn spec_current(&self) -> usize {
        self.current
    }

    /// The frame is one of the two: the original sprite or the next one.
    pub open spec fn wf(&self) -> bool {
        self.spec_original() < usize::MAX && (self.spec_current() == self.spec_original()
            || self.spec_current() == self.spec_original() + 1)
    }

    /// The tier's sprite.
    #[verifier::when_used_as_spec(spec_original)]
    pub fn original(&self) -> (i: usize)
        ensures
            i == self.spec_original(),
    {
        self.original
    }

    /// The sprite shown now, which the collision test uses.
    #[verifier::when_used_as_spec(spec_current)]
    pub fn current(&self) -> (i: usize)
        ensures
            i == self.spec_current(),
    {
        self.current
    }

    /// Flips to the other frame.
    pub fn alternate(&mut self)
        requires
            old(self).wf(),
        ensures
            final(self).wf(),
            final(self).original() == old(self).original(),
            final(self).current() == if old(self).current() == old(self).original() {
                (old(self).original() + 1) as usize
            } else {
                old(self).original()
            },
    {
        if self.current == self.original {
            self.current = self.original + 1;
        } else {
            self.current = self.original;
        }
    }
}

} // verus!
