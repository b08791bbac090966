use crate::assoc::{assoc, lemma_assoc_domain, lemma_assoc_last};
use crate::coordinate::{fits, Coordinate};
use crate::error::GameError;
use crate::text::{key_coordinate, parse_key};
use vstd::prelude::*;

verus! {

/// A named, described map cell.
#[derive(Debug)]
pub struct Location {
    pub name: String,
    pub description: String,
}

impl View for Location {
    type V = (Seq<char>, Seq<char>);

    open spec fn view(&self) -> (Seq<char>, Seq<char>) {
        (self.name@, self.description@)
    }
}

impl Location {
    pub fn new(name: String, description: String) -> (r: Location)
        ensures
            r@ == (name@, description@),
    {
        Location { name, description }
    }

    fn copy_of(&self) -> (r: Location)
        ensures
            r@ == self@,
    {
        Location { name: self.name.clone(), description: self.description.clone() }
    }
}

/// The coordinate at which play starts.
pub const START_X: i32 = -7;

pub const START_Y: i32 = -7;

pub open spec fn entries_view(v: Seq<(Coordinate, Location)>) -> Seq<
    ((int, int), (Seq<char>, Seq<char>)),
> {
    v.map_values(|e: (Coordinate, Location)| (e.0@, e.1@))
}

pub open spec fn records_view(v: Seq<(String, Location)>) -> Seq<(Seq<char>, (Seq<char>, Seq<char>))> {
    v.map_values(|e: (String, Location)| (e.0@, e.1@))
}

/// Every key of the records reads as a coordinate.
pub open spec fn keys_parse(rs: Seq<(Seq<char>, (Seq<char>, Seq<char>))>) -> bool {
    forall|i: int| 0 <= i < rs.len() ==> (#[trigger] key_coordinate(rs[i].0)) is Some
}

/// The map that records stand for, each key read as a coordinate; where two
/// keys read as the same coordinate, the later record wins.
pub open spec fn loaded(rs: Seq<(Seq<char>, (Seq<char>, Seq<char>))>) -> Map<
    (int, int),
    (Seq<char>, Seq<char>),
> {
    assoc(
        rs.map_values(
            |r: (Seq<char>, (Seq<char>, Seq<char>))| (key_coordinate(r.0)->0, r.1),
        ),
    )
}

/// The world: locations keyed by coordinate, and the current coordinate.
pub struct LocationManager {
    pub current_position: Coordinate,
    pub all_global_locations: Vec<(Coordinate, Location)>,
}

impl LocationManager {
    /// The locations, by coordinate.
    pub open spec fn locations(&self) -> Map<(int, int), (Seq<char>, Seq<char>)> {
        assoc(entries_view(self.all_global_locations@))
    }

    /// Builds the world from records of key text and location, starting at
    /// `(-7, -7)`. Fails with `DataFormat` exactly when some key does not read
    /// as a coordinate.
    pub fn new(records: Vec<(String, Location)>) -> (r: Result<LocationManager, GameError>)
        ensures
            r is Ok <==> keys_parse(records_view(records@)),
            r is Err ==> r == Err::<LocationManager, GameError>(GameError::DataFormat),
            r matches Ok(m) ==> {
                &&& m.locations() == loaded(records_view(records@))
                &&& m.current_position@ == (START_X as int, START_Y as int)
            },
    {
        let ghost rs = records_view(records@);
        let mut v: Vec<(Coordinate, Location)> = Vec::new();
        let mut i: usize = 0;
        while i < records.len()
            invariant
                i <= records.len(),
                rs == records_view(records@),
                forall|j: int| 0 <= j < i ==> (#[trigger] key_coordinate(rs[j].0)) is Some,
                entries_view(v@) == rs.subrange(0, i as int).map_values(
                    |r: (Seq<char>, (Seq<char>, Seq<char>))| (key_coordinate(r.0)->0, r.1),
                ),
            decreases records.len() - i,
        {
            let (key, loc) = (&records[i].0, &records[i].1);
            match parse_key(key.as_str()) {
                None => {
                    assert(key_coordinate(rs[i as int].0) is None);
                    return Err(GameError::DataFormat);
                },
                Some(c) => {
                    let ghost before = v@;
                    v.push((c, loc.copy_of()));
                    assert(entries_view(v@) =~= entries_view(before).push((c@, loc@)));
                    assert(rs.subrange(0, i + 1).map_values(
                        |r: (Seq<char>, (Seq<char>, Seq<char>))| (key_coordinate(r.0)->0, r.1),
                    ) =~= rs.subrange(0, i as int).map_values(
                        |r: (Seq<char>, (Seq<char>, Seq<char>))| (key_coordinate(r.0)->0, r.1),
                    ).push((c@, loc@)));
                },
            }
            i = i + 1;
        }
        assert(rs.subrange(0, i as int) =~= rs);
        Ok(LocationManager {
            current_position: Coordinate { x: START_X, y: START_Y },
            all_global_locations: v,
        })
    }

    /// Every mapped coordinate lies in the range of `i32`.
    pub proof fn lemma_keys_fit(&self, k: (int, int))
        ensures
            self.locations().contains_key(k) ==> fits(k),
    {
        lemma_assoc_domain(entries_view(self.all_global_locations@), k);
    }

    /// The location at `c`, if one is mapped there.
    pub fn location_at(&self, c: Coordinate) -> (r: Option<&Location>)
        ensures
            r is Some <==> self.locations().contains_key(c@),
            r matches Some(l) ==> l@ == self.locations()[c@],
    {
        let ghost s = entries_view(self.all_global_locations@);
        let mut i: usize = self.all_global_locations.len();
        while i > 0
            invariant
                i <= self.all_global_locations.len(),
                s == entries_view(self.all_global_locations@),
                forall|j: int| i <= j < s.len() ==> s[j].0 != c@,
            decreases i,
        {
            if self.all_global_locations[i - 1].0 == c {
                proof {
                    lemma_assoc_last(s, c@, i - 1);
                }
                return Some(&self.all_global_locations[i - 1].1);
            }
            i = i - 1;
        }
        proof {
            lemma_assoc_domain(s, c@);
        }
        None
    }

    /// The location at the current coordinate; `UnknownLocation` where none
    /// is mapped there.
    pub fn current_location(&self) -> (r: Result<&Location, GameError>)
        ensures
            r is Ok <==> self.locations().contains_key(self.current_position@),
            r is Err ==> r == Err::<&Location, GameError>(GameError::UnknownLocation),
            r matches Ok(l) ==> l@ == self.locations()[self.current_position@],
    {
        match self.location_at(self.current_position) {
            Some(l) => Ok(l),
            None => Err(GameError::UnknownLocation),
        }
    }

    /// The name of the current location.
    pub fn get_current_location_name(&self) -> (r: Result<String, GameError>)
        ensures
            r is Ok <==> self.locations().contains_key(self.current_position@),
            r is Err ==> r == Err::<String, GameError>(GameError::UnknownLocation),
            r matches Ok(n) ==> n@ == self.locations()[self.current_position@].0,
    {
        match self.current_location() {
            Ok(l) => Ok(l.name.clone()),
            Err(e) => Err(e),
        }
    }

    /// The description of the current location.
    pub fn get_current_location_description(&self) -> (r: Result<String, GameError>)
        ensures
            r is Ok <==> self.locations().contains_key(self.current_position@),
            r is Err ==> r == Err::<String, GameError>(GameError::UnknownLocation),
            r matches Ok(d) ==> d@ == self.locations()[self.current_position@].1,
    {
        match self.current_location() {
            Ok(l) => Ok(l.description.clone()),
            Err(e) => Err(e),
        }
    }
}

} // verus!
