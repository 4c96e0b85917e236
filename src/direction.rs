use vstd::prelude::*;

verus! {

/// Number of user LEDs on the board, one per direction.
pub const LED_COUNT: usize = 8;

/// Cardinal directions. Each one matches one of the user LEDs.
#[derive(Clone, Copy, PartialEq, Eq, Structural, Debug)]
pub enum Direction {
    /// North / LD3
    North,
    /// Northeast / LD5
    Northeast,
    /// East / LD7
    East,
    /// Southeast / LD9
    Southeast,
    /// South / LD10
    South,
    /// Southwest / LD8
    Southwest,
    /// West / LD6
    West,
    /// Northwest / LD4
    Northwest,
}

/// Position of a direction in the LED bank, clockwise from north.
pub open spec fn led_slot(d: Direction) -> nat {
    match d {
        Direction::North => 0,
        Direction::Northeast => 1,
        Direction::East => 2,
        Direction::Southeast => 3,
        Direction::South => 4,
        Direction::Southwest => 5,
        Direction::West => 6,
        Direction::Northwest => 7,
    }
}

/// Silkscreen label number (LDn) of the LED that shows a direction.
pub open spec fn led_label(d: Direction) -> nat {
    match d {
        Direction::North => 3,
        Direction::Northeast => 5,
        Direction::East => 7,
        Direction::Southeast => 9,
        Direction::South => 10,
        Direction::Southwest => 8,
        Direction::West => 6,
        Direction::Northwest => 4,
    }
}

/// The direction shown at a slot of the LED bank.
pub open spec fn direction_at(i: nat) -> Direction
    recommends
        i < LED_COUNT,
{
    if i == 0 {
        Direction::North
    } else if i == 1 {
        Direction::Northeast
    } else if i == 2 {
        Direction::East
    } else if i == 3 {
        Direction::Southeast
    } else if i == 4 {
        Direction::South
    } else if i == 5 {
        Direction::Southwest
    } else if i == 6 {
        Direction::West
    } else {
        Direction::Northwest
    }
}

impl Direction {
    /// Slot of this direction in the LED bank (0 is north, clockwise).
    pub fn led_index(&self) -> (r: usize)
        ensures
            r == led_slot(*self),
            r < LED_COUNT,
    {
        match self {
            Direction::North => 0,
            Direction::Northeast => 1,
            Direction::East => 2,
            Direction::Southeast => 3,
            Direction::South => 4,
            Direction::Southwest => 5,
            Direction::West => 6,
            Direction::Northwest => 7,
        }
    }

    /// Label number of the LED (LDn) that shows this direction.
    pub fn led_number(&self) -> (r: u8)
        ensures
            r == led_label(*self),
    {
        match self {
            Direction::North => 3,
            Direction::Northeast => 5,
            Direction::East => 7,
            Direction::Southeast => 9,
            Direction::South => 10,
            Direction::Southwest => 8,
            Direction::West => 6,
            Direction::Northwest => 4,
        }
    }

    /// The direction shown at a slot of the LED bank; `None` past the last slot.
    pub fn from_led_index(i: usize) -> (r: Option<Direction>)
        ensures
            r is Some <==> i < LED_COUNT,
            r is Some ==> r->0 == direction_at(i as nat),
    {
        if i == 0 {
            Some(Direction::North)
        } else if i == 1 {
            Some(Direction::Northeast)
        } else if i == 2 {
            Some(Direction::East)
        } else if i == 3 {
            Some(Direction::Southeast)
        } else if i == 4 {
            Some(Direction::South)
        } else if i == 5 {
            Some(Direction::Southwest)
        } else if i == 6 {
            Some(Direction::West)
        } else if i == 7 {
            Some(Direction::Northwest)
        } else {
            None
        }
    }
}

/// Every direction has its own slot, and every slot shows one direction:
/// the LED bank offers exactly one output per direction.
pub proof fn lemma_led_slots_are_one_to_one(d: Direction, e: Direction, i: nat)
    ensures
        led_slot(d) < LED_COUNT,
        direction_at(led_slot(d)) == d,
        i < LED_COUNT ==> led_slot(direction_at(i)) == i,
        led_slot(d) == led_slot(e) ==> d == e,
        led_label(d) == led_label(e) ==> d == e,
{
}

} // verus!
