use crate::error::GameError;
use vstd::prelude::*;
use vstd::string::*;

verus! {

/// A map cell: a pair of signed integers.
#[derive(Clone, Copy, Debug, PartialEq, Eq, Structural)]
pub struct Coordinate {
    pub x: i32,
    pub y: i32,
}

impl View for Coordinate {
    type V = (int, int);

    open spec fn view(&self) -> (int, int) {
        (self.x as int, self.y as int)
    }
}

/// The eight compass directions.
#[derive(Clone, Copy, Debug, PartialEq, Eq, Structural)]
pub enum Direction {
    North,
    NorthEast,
    East,
    SouthEast,
    South,
    SouthWest,
    West,
    NorthWest,
}

/// The unit step of a direction: north is +y, east is +x.
pub open spec fn delta(d: Direction) -> (int, int) {
    match d {
        Direction::North => (0, 1),
        Direction::NorthEast => (1, 1),
        Direction::East => (1, 0),
        Direction::SouthEast => (1, -1),
        Direction::South => (0, -1),
        Direction::SouthWest => (-1, -1),
        Direction::West => (-1, 0),
        Direction::NorthWest => (-1, 1),
    }
}

/// The direction pointing the other way.
pub open spec fn opposite(d: Direction) -> Direction {
    match d {
        Direction::North => Direction::South,
        Direction::NorthEast => Direction::SouthWest,
        Direction::East => Direction::West,
        Direction::SouthEast => Direction::NorthWest,
        Direction::South => Direction::North,
        Direction::SouthWest => Direction::NorthEast,
        Direction::West => Direction::East,
        Direction::NorthWest => Direction::SouthEast,
    }
}

/// The cell one step from `c` in direction `d`.
pub open spec fn shifted(c: (int, int), d: Direction) -> (int, int) {
    (c.0 + delta(d).0, c.1 + delta(d).1)
}

pub open spec fn in_i32(v: int) -> bool {
    i32::MIN <= v <= i32::MAX
}

pub open spec fn fits(c: (int, int)) -> bool {
    in_i32(c.0) && in_i32(c.1)
}

/// The direction that a word names: a full name or its abbreviation.
pub open spec fn direction_of(s: Seq<char>) -> Option<Direction> {
    if s == "north"@ || s == "n"@ {
        Some(Direction::North)
    } else if s == "east"@ || s == "e"@ {
        Some(Direction::East)
    } else if s == "west"@ || s == "w"@ {
        Some(Direction::West)
    } else if s == "south"@ || s == "s"@ {
        Some(Direction::South)
    } else if s == "northeast"@ || s == "ne"@ {
        Some(Direction::NorthEast)
    } else if s == "northwest"@ || s == "nw"@ {
        Some(Direction::NorthWest)
    } else if s == "southeast"@ || s == "se"@ {
        Some(Direction::SouthEast)
    } else if s == "southwest"@ || s == "sw"@ {
        Some(Direction::SouthWest)
    } else {
        None
    }
}

/// The full name of a direction.
pub open spec fn direction_name(d: Direction) -> Seq<char> {
    match d {
        Direction::North => "north"@,
        Direction::NorthEast => "northeast"@,
        Direction::East => "east"@,
        Direction::SouthEast => "southeast"@,
        Direction::South => "south"@,
        Direction::SouthWest => "southwest"@,
        Direction::West => "west"@,
        Direction::NorthWest => "northwest"@,
    }
}

/// What the coordinate one step from `c` in the direction word `s` is:
/// `None` where `s` names no direction.
pub open spec fn offset_spec(c: (int, int), s: Seq<char>) -> Option<(int, int)> {
    match direction_of(s) {
        Some(d) => Some(shifted(c, d)),
        None => None,
    }
}

/// Character-wise equality of two strings.
pub fn same_text(a: &str, b: &str) -> (r: bool)
    ensures
        r == (a@ == b@),
{
    let n = a.unicode_len();
    if n != b.unicode_len() {
        return false;
    }
    let mut i: usize = 0;
    while i < n
        invariant
            n == a@.len(),
            n == b@.len(),
            i <= n,
            forall|j: int| 0 <= j < i ==> a@[j] == b@[j],
        decreases n - i,
    {
        if a.get_char(i) != b.get_char(i) {
            return false;
        }
        i = i + 1;
    }
    assert(a@ =~= b@);
    true
}

impl Direction {
    /// Reads a direction word: a full name or its abbreviation.
    pub fn parse(s: &str) -> (r: Option<Direction>)
        ensures
            r == direction_of(s@),
    {
        if same_text(s, "north") || same_text(s, "n") {
            Some(Direction::North)
        } else if same_text(s, "east") || same_text(s, "e") {
            Some(Direction::East)
        } else if same_text(s, "west") || same_text(s, "w") {
            Some(Direction::West)
        } else if same_text(s, "south") || same_text(s, "s") {
            Some(Direction::South)
        } else if same_text(s, "northeast") || same_text(s, "ne") {
            Some(Direction::NorthEast)
        } else if same_text(s, "northwest") || same_text(s, "nw") {
            Some(Direction::NorthWest)
        } else if same_text(s, "southeast") || same_text(s, "se") {
            Some(Direction::SouthEast)
        } else if same_text(s, "southwest") || same_text(s, "sw") {
            Some(Direction::SouthWest)
        } else {
            None
        }
    }

    /// The full name of this direction.
    pub fn name(self) -> (r: &'static str)
        ensures
            r@ == direction_name(self),
    {
        match self {
            Direction::North => "north",
            Direction::NorthEast => "northeast",
            Direction::East => "east",
            Direction::SouthEast => "southeast",
            Direction::South => "south",
            Direction::SouthWest => "southwest",
            Direction::West => "west",
            Direction::NorthWest => "northwest",
        }
    }

    /// The direction pointing the other way.
    pub fn opposite(self) -> (r: Direction)
        ensures
            r == opposite(self),
    {
        match self {
            Direction::North => Direction::South,
            Direction::NorthEast => Direction::SouthWest,
            Direction::East => Direction::West,
            Direction::SouthEast => Direction::NorthWest,
            Direction::South => Direction::North,
            Direction::SouthWest => Direction::NorthEast,
            Direction::West => Direction::East,
            Direction::NorthWest => Direction::SouthEast,
        }
    }
}

fn step_axis(v: i32, dv: i32) -> (r: Option<i32>)
    requires
        -1 <= dv <= 1,
    ensures
        r is Some <==> in_i32(v + dv),
        r is Some ==> r->0 == v + dv,
{
    if dv > 0 && v == i32::MAX {
        None
    } else if dv < 0 && v == i32::MIN {
        None
    } else {
        Some(v + dv)
    }
}

impl Coordinate {
    /// The cell one step away in direction `d`; `None` where that cell lies
    /// outside the range of `i32`, where no location can be mapped.
    pub fn step(self, d: Direction) -> (r: Option<Coordinate>)
        ensures
            r is Some <==> fits(shifted(self@, d)),
            r is Some ==> r->0@ == shifted(self@, d),
    {
        let (dx, dy): (i32, i32) = match d {
            Direction::North => (0, 1),
            Direction::NorthEast => (1, 1),
            Direction::East => (1, 0),
            Direction::SouthEast => (1, -1),
            Direction::South => (0, -1),
            Direction::SouthWest => (-1, -1),
            Direction::West => (-1, 0),
            Direction::NorthWest => (-1, 1),
        };
        match (step_axis(self.x, dx), step_axis(self.y, dy)) {
            (Some(x), Some(y)) => Some(Coordinate { x, y }),
            _ => None,
        }
    }
}

/// The coordinate one step from `c` in the direction that the word `direction`
/// names. A word that names no direction gives `InvalidDirection`; a step out
/// of the range of `i32` gives `UnknownLocation`, since no location lies there.
pub fn offset(c: Coordinate, direction: &str) -> (r: Result<Coordinate, GameError>)
    ensures
        offset_spec(c@, direction@) is None ==> r == Err::<Coordinate, GameError>(
            GameError::InvalidDirection,
        ),
        offset_spec(c@, direction@) matches Some(t) ==> {
            &&& fits(t) ==> (r is Ok && r->Ok_0@ == t)
            &&& !fits(t) ==> r == Err::<Coordinate, GameError>(GameError::UnknownLocation)
        },
{
    match Direction::parse(direction) {
        None => Err(GameError::InvalidDirection),
        Some(d) => match c.step(d) {
            Some(t) => Ok(t),
            None => Err(GameError::UnknownLocation),
        },
    }
}

/// Stepping in a direction and then in the opposite one returns to the start,
/// and the two steps are additive inverses of each other.
pub proof fn lemma_offset_inverse(c: (int, int), d: Direction)
    ensures
        shifted(shifted(c, d), opposite(d)) == c,
        delta(opposite(d)).0 == -delta(d).0,
        delta(opposite(d)).1 == -delta(d).1,
        shifted(c, opposite(d)).0 - c.0 == -(shifted(c, d).0 - c.0),
        shifted(c, opposite(d)).1 - c.1 == -(shifted(c, d).1 - c.1),
        opposite(opposite(d)) == d,
{
}

/// The full name of a direction reads back as that direction.
pub proof fn lemma_name_parses(d: Direction)
    ensures
        direction_of(direction_name(d)) == Some(d),
{
    reveal_strlit("north");
    reveal_strlit("northeast");
    reveal_strlit("east");
    reveal_strlit("southeast");
    reveal_strlit("south");
    reveal_strlit("southwest");
    reveal_strlit("west");
    reveal_strlit("northwest");
    reveal_strlit("n");
    reveal_strlit("ne");
    reveal_strlit("e");
    reveal_strlit("se");
    reveal_strlit("s");
    reveal_strlit("sw");
    reveal_strlit("w");
    reveal_strlit("nw");
    assert("north"@.len() == 5 && "northeast"@.len() == 9 && "east"@.len() == 4);
    assert("west"@.len() == 4 && "south"@.len() == 5 && "n"@.len() == 1);
    assert("west"@[0] != "east"@[0]);
    assert("south"@[0] != "north"@[0]);
    assert("northwest"@[5] != "northeast"@[5]);
    assert("southeast"@[0] != "northeast"@[0] && "southeast"@[0] != "northwest"@[0]);
    assert("southwest"@[0] != "northeast"@[0] && "southwest"@[0] != "northwest"@[0]);
    assert("southwest"@[5] != "southeast"@[5]);
    assert("southeast"@.len() == 9 && "southwest"@.len() == 9 && "northwest"@.len() == 9);
    match d {
        Direction::North => assert(direction_of("north"@) == Some(Direction::North)),
        Direction::NorthEast => assert(direction_of("northeast"@) == Some(Direction::NorthEast)),
        Direction::East => assert(direction_of("east"@) == Some(Direction::East)),
        Direction::SouthEast => assert(direction_of("southeast"@) == Some(Direction::SouthEast)),
        Direction::South => assert(direction_of("south"@) == Some(Direction::South)),
        Direction::SouthWest => assert(direction_of("southwest"@) == Some(Direction::SouthWest)),
        Direction::West => assert(direction_of("west"@) == Some(Direction::West)),
        Direction::NorthWest => assert(direction_of("northwest"@) == Some(Direction::NorthWest)),
    }
}

/// Every direction word, applied and then followed by the full name of the
/// opposite direction, returns to the starting cell.
pub proof fn lemma_offset_word_round_trip(c: (int, int), s: Seq<char>)
    requires
        direction_of(s) is Some,
    ensures
        offset_spec(c, s) matches Some(t) && offset_spec(
            t,
            direction_name(opposite(direction_of(s)->0)),
        ) == Some(c),
{
    let d = direction_of(s)->0;
    lemma_name_parses(opposite(d));
    lemma_offset_inverse(c, d);
}

} // verus!
