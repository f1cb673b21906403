use vstd::prelude::*;

verus! {

/// One physical button of the 4x4 keypad grid.
///
/// The application layer observes `Zero`..`Seven` and `A`; the remaining grid
/// positions exist structurally even when unused. A `Key` is a pure value:
/// it is produced fresh on each scan and carries no ownership.
#[derive(Clone, Copy, Debug, PartialEq, Eq, Structural)]
pub enum Key {
    Zero,
    One,
    Two,
    Three,
    Four,
    Five,
    Six,
    Seven,
    Eight,
    Nine,
    A,
    B,
    C,
    D,
    Star,
    Hash,
}

/// The fixed (row, column) -> `Key` mapping, defined once and never mutated.
///
/// The placement is row-major: row 0 holds `Zero`..`Three`, row 1 holds
/// `Four`..`Seven`, row 2 holds `Eight`, `Nine`, `A`, `B`, and row 3 holds
/// `C`, `D`, `Star`, `Hash`.
pub open spec fn spec_key_at(row: int, col: int) -> Key
    recommends
        0 <= row < 4,
        0 <= col < 4,
{
    if row == 0 {
        if col == 0 {
            Key::Zero
        } else if col == 1 {
            Key::One
        } else if col == 2 {
            Key::Two
        } else {
            Key::Three
        }
    } else if row == 1 {
        if col == 0 {
            Key::Four
        } else if col == 1 {
            Key::Five
        } else if col == 2 {
            Key::Six
        } else {
            Key::Seven
        }
    } else if row == 2 {
        if col == 0 {
            Key::Eight
        } else if col == 1 {
            Key::Nine
        } else if col == 2 {
            Key::A
        } else {
            Key::B
        }
    } else {
        if col == 0 {
            Key::C
        } else if col == 1 {
            Key::D
        } else if col == 2 {
            Key::Star
        } else {
            Key::Hash
        }
    }
}

/// Looks up the key at a grid position, per the fixed mapping table.
pub fn key_at(row: usize, col: usize) -> (k: Key)
    requires
        row < 4,
        col < 4,
    ensures
        k == spec_key_at(row as int, col as int),
{
    if row == 0 {
        if col == 0 {
            Key::Zero
        } else if col == 1 {
            Key::One
        } else if col == 2 {
            Key::Two
        } else {
            Key::Three
        }
    } else if row == 1 {
        if col == 0 {
            Key::Four
        } else if col == 1 {
            Key::Five
        } else if col == 2 {
            Key::Six
        } else {
            Key::Seven
        }
    } else if row == 2 {
        if col == 0 {
            Key::Eight
        } else if col == 1 {
            Key::Nine
        } else if col == 2 {
            Key::A
        } else {
            Key::B
        }
    } else {
        if col == 0 {
            Key::C
        } else if col == 1 {
            Key::D
        } else if col == 2 {
            Key::Star
        } else {
            Key::Hash
        }
    }
}

/// The position-to-key mapping is injective: no two grid positions share a
/// key, so a reported key identifies the pressed position uniquely.
pub proof fn lemma_key_mapping_injective(r1: int, c1: int, r2: int, c2: int)
    requires
        0 <= r1 < 4,
        0 <= c1 < 4,
        0 <= r2 < 4,
        0 <= c2 < 4,
        spec_key_at(r1, c1) == spec_key_at(r2, c2),
    ensures
        r1 == r2,
        c1 == c2,
{
}

} // verus!
