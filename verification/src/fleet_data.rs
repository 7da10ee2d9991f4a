//! What a listing of fleet files holds for one file, and what a list of the
//! ships of a fleet holds for one ship.

use vstd::prelude::*;
use crate::error::{Error, ErrorKind, ErrorView};
use crate::numbers::{parse_i32, parsed_i32};
use crate::schema::{Fleet, Ship};

verus! {

/// A fleet file in a listing.
#[derive(Debug, Clone, PartialEq, Eq, Hash)]
pub struct FleetData {
    /// The path of the file.
    pub path: String,
    /// The directory of the file, from the directory that was listed.
    pub short_path: String,
    pub selected: bool,
    /// The name of the fleet.
    pub name: String,
}

impl FleetData {
    /// The entry for the fleet read from the file at `path`, not selected.
    pub fn new(path: String, short_path: String, fleet: &Fleet) -> (data: FleetData)
        ensures
            data.path == path,
            data.short_path == short_path,
            !data.selected,
            data.name@ == fleet.name@,
    {
        FleetData { path, short_path, selected: false, name: fleet.name.clone() }
    }
}

/// A ship in the list of the ships of a fleet.
#[derive(Debug, Clone, PartialEq, Eq)]
pub struct ShipData {
    /// The hull type of the ship.
    pub class: String,
    pub name: String,
    pub cost: i32,
}

/// The error for a fleet without a `Ships` container.
pub open spec fn no_ships() -> ErrorView {
    ErrorView {
        kind: ErrorKind::NotFound,
        title: "Failed to get ships list"@,
        error: "Fleet has no ships"@,
    }
}

/// The error for a ship whose cost is no number.
pub open spec fn invalid_ship_cost() -> ErrorView {
    ErrorView { kind: ErrorKind::Parse, title: "Invalid fleet file"@, error: "Failed to parse cost"@ }
}

/// Whether `data` is the entry of the list for `ship`.
pub open spec fn lists_ship(data: ShipData, ship: Ship) -> bool {
    &&& data.class@ == ship.hull_type@
    &&& data.name@ == ship.name@
    &&& parsed_i32(ship.cost@) == Some(data.cost as int)
}

/// The place of the first ship whose cost is no number, or the number of
/// ships.
pub open spec fn first_bad_cost(ships: Seq<Ship>) -> int
    decreases ships.len(),
{
    if ships.len() == 0 {
        0
    } else if parsed_i32(ships[0].cost@) is None {
        0
    } else {
        1 + first_bad_cost(ships.drop_first())
    }
}

/// The list of the ships of a fleet, in order: the hull type, the name and
/// the cost of each.
///
/// Fails where the fleet has no `Ships` container, and where the cost of a
/// ship is no number.
pub fn ship_list(fleet: &Fleet) -> (result: Result<Vec<ShipData>, Error>)
    ensures
        match fleet.ships {
            None => result matches Err(e) && e@ == no_ships(),
            Some(ships) => if first_bad_cost(ships.ship@) < ships.ship@.len() {
                result matches Err(e) && e@ == invalid_ship_cost()
            } else {
                &&& result matches Ok(list)
                &&& list.len() == ships.ship@.len()
                &&& forall|i: int|
                    0 <= i < list.len() ==> lists_ship(#[trigger] list[i], ships.ship@[i])
            },
        },
{
    let ships = match &fleet.ships {
        Some(ships) => &ships.ship,
        None => {
            return Err(Error::new(ErrorKind::NotFound, "Failed to get ships list", "Fleet has no ships"));
        },
    };
    let mut list: Vec<ShipData> = Vec::new();
    let mut i: usize = 0;
    proof {
        assert(ships@.skip(0) =~= ships@);
    }
    while i < ships.len()
        invariant
            i <= ships.len(),
            list.len() == i,
            fleet.ships matches Some(own) && own.ship@ == ships@,
            first_bad_cost(ships@) == i + first_bad_cost(ships@.skip(i as int)),
            forall|k: int| 0 <= k < i ==> lists_ship(#[trigger] list[k], ships@[k]),
        decreases ships.len() - i,
    {
        let ship = &ships[i];
        proof {
            assert(ships@.skip(i as int)[0] == ships@[i as int]);
            assert(ships@.skip(i as int).drop_first() =~= ships@.skip(i + 1));
        }
        let cost = match parse_i32(ship.cost.as_str()) {
            Some(cost) => cost,
            None => {
                proof {
                    assert(first_bad_cost(ships@.skip(i as int)) == 0);
                }
                return Err(Error::new(ErrorKind::Parse, "Invalid fleet file", "Failed to parse cost"));
            },
        };
        list.push(ShipData { class: ship.hull_type.clone(), name: ship.name.clone(), cost });
        i += 1;
    }
    proof {
        assert(ships@.skip(ships.len() as int) =~= Seq::empty());
    }
    Ok(list)
}

} // verus!
