//! The directions the camera is currently moving in, kept as bit flags.
use vstd::prelude::*;

verus! {

/// A direction the camera can move in.
#[derive(Clone, Copy, Debug, PartialEq, Eq, Structural)]
pub enum Direction {
    Forward,
    Backward,
    Left,
    Right,
    Up,
    Down,
}

/// Position of a direction's bit.
pub open spec fn direction_index(d: Direction) -> u8 {
    match d {
        Direction::Forward => 0,
        Direction::Backward => 1,
        Direction::Left => 2,
        Direction::Right => 3,
        Direction::Up => 4,
        Direction::Down => 5,
    }
}

/// The bit a direction sets.
pub open spec fn bit_of(d: Direction) -> u8 {
    1u8 << direction_index(d)
}

fn direction_bit(d: Direction) -> (b: u8)
    ensures
        b == bit_of(d),
{
    let i: u8 = match d {
        Direction::Forward => 0,
        Direction::Backward => 1,
        Direction::Left => 2,
        Direction::Right => 3,
        Direction::Up => 4,
        Direction::Down => 5,
    };
    1u8 << i
}

proof fn lemma_flag_bits(x: u8, i: u8, j: u8)
    by (bit_vector)
    requires
        i < 6,
        j < 6,
    ensures
        (x | (1u8 << i)) & (1u8 << i) != 0,
        (x & !(1u8 << i)) & (1u8 << i) == 0,
        i != j ==> (((x | (1u8 << i)) & (1u8 << j) != 0) == (x & (1u8 << j) != 0)),
        i != j ==> (((x & !(1u8 << i)) & (1u8 << j) != 0) == (x & (1u8 << j) != 0)),
        0u8 & (1u8 << i) == 0,
{
}

/// The set of directions the camera is moving in.
#[derive(Clone, Copy, Debug, PartialEq, Eq, Structural)]
pub struct Flags {
    pub bits: u8,
}

impl Flags {
    /// The camera moves in direction `d`.
    pub open spec fn has(self, d: Direction) -> bool {
        self.bits & bit_of(d) != 0
    }

    /// No direction.
    pub fn empty() -> (f: Self)
        ensures
            f.bits == 0,
            forall|d: Direction| !f.has(d),
    {
        proof {
            assert forall|d: Direction| !(#[trigger] Flags { bits: 0 }.has(d)) by {
                lemma_flag_bits(0, direction_index(d), direction_index(d));
            }
        }
        Flags { bits: 0 }
    }

    /// Whether the camera moves in direction `d`.
    pub fn contains(&self, d: Direction) -> (b: bool)
        ensures
            b == self.has(d),
    {
        let bit = direction_bit(d);
        self.bits & bit != 0
    }

    /// Adds `d` when `value` holds and removes it otherwise; the other directions stay.
    pub fn set(&mut self, d: Direction, value: bool)
        ensures
            final(self).bits == if value {
                old(self).bits | bit_of(d)
            } else {
                old(self).bits & !bit_of(d)
            },
            final(self).has(d) == value,
            forall|e: Direction| e != d ==> #[trigger] final(self).has(e) == old(self).has(e),
    {
        let bit = direction_bit(d);
        let before = self.bits;
        if value {
            self.bits = before | bit;
        } else {
            self.bits = before & !bit;
        }
        proof {
            lemma_flag_bits(before, direction_index(d), direction_index(d));
            assert forall|e: Direction| e != d implies #[trigger] self.has(e) == (Flags {
                bits: before,
            }).has(e) by {
                lemma_flag_bits(before, direction_index(d), direction_index(e));
            }
        }
    }
}

} // verus!
