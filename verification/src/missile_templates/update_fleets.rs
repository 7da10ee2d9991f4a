//! The update of a fleet that uses a missile template which has changed.
//!
//! The first template of the fleet with the identity in question is replaced
//! by the new template. On request, the munition keys of the launchers of the
//! fleet's ships that named the old template by designation and nickname are
//! rewritten to name the new one.

use vstd::prelude::*;
use crate::error::{Error, ErrorKind, ErrorView};
use crate::merge::missiles_of;
use crate::missile_templates::cache::{missile_ids, FleetsUsedMissilesView};
use crate::missile_templates::identity::{missile_id, MissileTemplateId, MissileTemplateIdView};
use crate::schema::{
    ComponentData, Fleet, HullSocket, MissileLoad, MissileLoadMagSaveData, MissileTemplate,
    MissileTypes, Ship, Ships, SocketMap,
};
use crate::lists::reversed;
use crate::text::str_eq;

verus! {

/// The munition key that names a missile by designation and nickname.
pub open spec fn munition_key(designation: Seq<char>, nickname: Seq<char>) -> Seq<char> {
    "$MODMIS$/"@ + designation + " "@ + nickname
}

/// The munition key after the rewrite of `from` to `to`.
pub open spec fn rewritten(key: Seq<char>, from: Seq<char>, to: Seq<char>) -> Seq<char> {
    if key == from {
        to
    } else {
        key
    }
}

/// Whether `new` is the magazine entry `old` with its munition key rewritten.
pub open spec fn renamed_entry(
    old: MissileLoadMagSaveData,
    new: MissileLoadMagSaveData,
    from: Seq<char>,
    to: Seq<char>,
) -> bool {
    &&& new == (MissileLoadMagSaveData { munition_key: new.munition_key, ..old })
    &&& new.munition_key@ == rewritten(old.munition_key@, from, to)
}

/// Whether `new` is the missile load `old` with its munition keys rewritten.
pub open spec fn renamed_load(old: MissileLoad, new: MissileLoad, from: Seq<char>, to: Seq<char>) -> bool {
    &&& new.text == old.text
    &&& new.mag_save_data@.len() == old.mag_save_data@.len()
    &&& forall|i: int|
        0 <= i < old.mag_save_data@.len() ==> renamed_entry(
            #[trigger] old.mag_save_data@[i],
            new.mag_save_data@[i],
            from,
            to,
        )
}

/// Whether a component is one whose missile load names missiles: a cell
/// launcher or a bulk magazine.
pub open spec fn holds_missiles(data: ComponentData) -> bool {
    data.xsi_type matches Some(kind) && (kind@ == "CellLauncherData"@ || kind@
        == "BulkMagazineData"@)
}

/// Whether `new` is the component `old` with the munition keys of its
/// missile load rewritten, where it is one that holds missiles.
pub open spec fn renamed_component(
    old: ComponentData,
    new: ComponentData,
    from: Seq<char>,
    to: Seq<char>,
) -> bool {
    &&& new == (ComponentData { missile_load: new.missile_load, ..old })
    &&& match old.missile_load {
        Some(load) => if holds_missiles(old) {
            new.missile_load matches Some(new_load) && renamed_load(load, new_load, from, to)
        } else {
            new.missile_load == old.missile_load
        },
        None => new.missile_load is None,
    }
}

/// Whether `new` is the socket `old` with the munition keys of its component
/// rewritten.
pub open spec fn renamed_socket(old: HullSocket, new: HullSocket, from: Seq<char>, to: Seq<char>) -> bool {
    &&& new == (HullSocket { component_data: new.component_data, ..old })
    &&& match old.component_data {
        Some(data) => new.component_data matches Some(new_data) && renamed_component(
            data,
            new_data,
            from,
            to,
        ),
        None => new.component_data is None,
    }
}

/// Whether `new` is the ship `old` with the munition keys of its sockets
/// rewritten.
pub open spec fn renamed_ship(old: Ship, new: Ship, from: Seq<char>, to: Seq<char>) -> bool {
    &&& new == (Ship { socket_map: new.socket_map, ..old })
    &&& new.socket_map == (SocketMap {
        hull_socket: new.socket_map.hull_socket,
        ..old.socket_map
    })
    &&& new.socket_map.hull_socket@.len() == old.socket_map.hull_socket@.len()
    &&& forall|i: int|
        0 <= i < old.socket_map.hull_socket@.len() ==> renamed_socket(
            #[trigger] old.socket_map.hull_socket@[i],
            new.socket_map.hull_socket@[i],
            from,
            to,
        )
}

/// Whether `new` is the list of ships `old` with the munition keys of every
/// ship rewritten.
pub open spec fn renamed_ships(
    old: Option<Ships>,
    new: Option<Ships>,
    from: Seq<char>,
    to: Seq<char>,
) -> bool {
    match old {
        Some(ships) => {
            &&& new matches Some(new_ships)
            &&& new_ships.text == ships.text
            &&& new_ships.ship@.len() == ships.ship@.len()
            &&& forall|i: int|
                0 <= i < ships.ship@.len() ==> renamed_ship(
                    #[trigger] ships.ship@[i],
                    new_ships.ship@[i],
                    from,
                    to,
                )
        },
        None => new is None,
    }
}

/// The place of the first template with the identity `id`, or the number of
/// templates where there is none.
pub open spec fn first_match(missiles: Seq<MissileTemplate>, id: MissileTemplateIdView) -> int
    decreases missiles.len(),
{
    if missiles.len() == 0 {
        0
    } else if missile_id(missiles[0]).same_as(id) {
        0
    } else {
        1 + first_match(missiles.drop_first(), id)
    }
}

/// Whether `new` is the fleet `old` with its first template of the identity
/// `id` replaced by `new_missile` and, where `rename` asks for it, with the
/// munition keys that named the old template rewritten to name the new one.
pub open spec fn is_update_of(
    old: Fleet,
    new: Fleet,
    id: MissileTemplateIdView,
    new_missile: MissileTemplate,
    rename: bool,
) -> bool {
    &&& old.missile_types matches Some(own)
    &&& first_match(own.missile_template@, id) < own.missile_template@.len()
    &&& new.missile_types matches Some(missiles)
    &&& missiles.text == own.text
    &&& missiles.missile_template@ == own.missile_template@.update(
        first_match(own.missile_template@, id),
        new_missile,
    )
    &&& new == (Fleet { missile_types: new.missile_types, ships: new.ships, ..old })
    &&& if rename {
        let replaced = own.missile_template@[first_match(own.missile_template@, id)];
        renamed_ships(
            old.ships,
            new.ships,
            munition_key(replaced.designation@, replaced.nickname@),
            munition_key(new_missile.designation@, new_missile.nickname@),
        )
    } else {
        new.ships == old.ships
    }
}

/// The error for a fleet without a `MissileTypes` container.
pub open spec fn no_missiles() -> ErrorView {
    ErrorView {
        kind: ErrorKind::NotFound,
        title: "Updating fleet with no missiles"@,
        error: "The fleet holds no missile templates"@,
    }
}

/// The error for a fleet without a template of the identity asked for.
pub open spec fn missile_not_found() -> ErrorView {
    ErrorView {
        kind: ErrorKind::NotFound,
        title: "Missile not found in fleet"@,
        error: "The fleet holds no missile template of this identity"@,
    }
}

/// What the update of a fleet returns.
pub open spec fn update_result(
    result: Result<Fleet, Error>,
    fleet: Fleet,
    id: MissileTemplateIdView,
    new_missile: MissileTemplate,
    rename: bool,
) -> bool {
    match fleet.missile_types {
        None => result matches Err(e) && e@ == no_missiles(),
        Some(own) => if first_match(own.missile_template@, id) < own.missile_template@.len() {
            result matches Ok(new) && is_update_of(fleet, new, id, new_missile, rename)
        } else {
            result matches Err(e) && e@ == missile_not_found()
        },
    }
}

/// A template of the identity `id` is found in a list exactly where one of
/// the identities of the list is that of `id`.
pub proof fn lemma_first_match_exists(missiles: Seq<MissileTemplate>, id: MissileTemplateIdView)
    ensures
        0 <= first_match(missiles, id) <= missiles.len(),
        first_match(missiles, id) < missiles.len() <==> exists|k: int|
            0 <= k < missiles.len() && missile_id(#[trigger] missiles[k]).same_as(id),
        first_match(missiles, id) < missiles.len() ==> missile_id(
            missiles[first_match(missiles, id)],
        ).same_as(id),
    decreases missiles.len(),
{
    if missiles.len() > 0 && !missile_id(missiles[0]).same_as(id) {
        let rest = missiles.drop_first();
        lemma_first_match_exists(rest, id);
        if first_match(rest, id) < rest.len() {
            let k = choose|k: int| 0 <= k < rest.len() && missile_id(#[trigger] rest[k]).same_as(id);
            assert(missile_id(missiles[k + 1]).same_as(id));
        }
        if exists|k: int| 0 <= k < missiles.len() && missile_id(#[trigger] missiles[k]).same_as(id) {
            let k = choose|k: int|
                0 <= k < missiles.len() && missile_id(#[trigger] missiles[k]).same_as(id);
            assert(missile_id(rest[k - 1]).same_as(id));
        }
    }
}

/// The update of a fleet succeeds exactly where the cache, brought up to
/// date from that fleet, says that the fleet uses the template: a fleet that
/// the cache does not list for a template is not changed by its update.
pub proof fn lemma_update_follows_cache(
    fleet: Fleet,
    hash: u64,
    id: MissileTemplateIdView,
    new_missile: MissileTemplate,
    rename: bool,
    result: Result<Fleet, Error>,
)
    requires
        update_result(result, fleet, id, new_missile, rename),
    ensures
        result is Ok <==> (FleetsUsedMissilesView {
            name: fleet.name@,
            hash,
            used_missiles: missile_ids(missiles_of(fleet)),
        }).uses(id),
{
    let missiles = missiles_of(fleet);
    let data = FleetsUsedMissilesView {
        name: fleet.name@,
        hash,
        used_missiles: missile_ids(missiles),
    };
    lemma_first_match_exists(missiles, id);
    if data.uses(id) {
        let k = choose|k: int|
            0 <= k < data.used_missiles.len() && (#[trigger] data.used_missiles[k]).same_as(id);
        assert(missile_id(missiles[k]).same_as(id));
    }
    if first_match(missiles, id) < missiles.len() {
        let k = first_match(missiles, id);
        assert(data.used_missiles[k].same_as(id));
    }
}

/// The munition key that names a missile by designation and nickname.
pub fn munition_key_of(designation: &str, nickname: &str) -> (key: String)
    ensures
        key@ == munition_key(designation@, nickname@),
{
    let mut key = "$MODMIS$/".to_owned();
    key.append(designation);
    key.append(" ");
    key.append(nickname);
    key
}

/// Rewrites the munition key of a magazine entry.
fn rename_entry(entry: MissileLoadMagSaveData, from: &str, to: &str) -> (new:
    MissileLoadMagSaveData)
    ensures
        renamed_entry(entry, new, from@, to@),
{
    if str_eq(entry.munition_key.as_str(), from) {
        MissileLoadMagSaveData {
            text: entry.text,
            magazine_key: entry.magazine_key,
            munition_key: to.to_owned(),
            quantity: entry.quantity,
        }
    } else {
        entry
    }
}

/// Rewrites the munition keys of a missile load.
fn rename_load(load: MissileLoad, from: &str, to: &str) -> (new: MissileLoad)
    ensures
        renamed_load(load, new, from@, to@),
{
    let ghost all = load.mag_save_data@;
    let mut rest = reversed(load.mag_save_data);
    let mut entries: Vec<MissileLoadMagSaveData> = Vec::new();
    proof {
        assert(rest@.reverse() =~= all);
        assert(all.skip(0) =~= all);
    }
    loop
        invariant
            rest@.len() <= all.len(),
            rest@.reverse() == all.skip(all.len() - rest@.len()),
            entries@.len() == all.len() - rest@.len(),
            forall|i: int|
                0 <= i < entries@.len() ==> renamed_entry(
                    #[trigger] all[i],
                    entries@[i],
                    from@,
                    to@,
                ),
        ensures
            entries@.len() == all.len(),
            forall|i: int|
                0 <= i < all.len() ==> renamed_entry(#[trigger] all[i], entries@[i], from@, to@),
        decreases rest@.len(),
    {
        let ghost done = entries@.len() as int;
        let ghost stack = rest@;
        match rest.pop() {
            Some(entry) => {
                proof {
                    assert(stack.reverse()[0] == entry);
                    assert(all[done] == entry);
                    assert(rest@.reverse() =~= stack.reverse().drop_first());
                    assert(all.skip(done).drop_first() =~= all.skip(done + 1));
                }
                entries.push(rename_entry(entry, from, to));
            },
            None => {
                break ;
            },
        }
    }
    MissileLoad { text: load.text, mag_save_data: entries }
}

/// Whether a component is one whose missile load names missiles.
fn component_holds_missiles(data: &ComponentData) -> (res: bool)
    ensures
        res == holds_missiles(*data),
{
    match &data.xsi_type {
        Some(kind) => str_eq(kind.as_str(), "CellLauncherData") || str_eq(
            kind.as_str(),
            "BulkMagazineData",
        ),
        None => false,
    }
}

/// Rewrites the munition keys of a component.
fn rename_component(data: ComponentData, from: &str, to: &str) -> (new: ComponentData)
    ensures
        renamed_component(data, new, from@, to@),
{
    if !component_holds_missiles(&data) {
        return data;
    }
    let missile_load = match data.missile_load {
        Some(load) => Some(rename_load(load, from, to)),
        None => None,
    };
    ComponentData {
        xsi_type: data.xsi_type,
        component_data_type: data.component_data_type,
        text: data.text,
        identity_option: data.identity_option,
        configured_size: data.configured_size,
        stored_craft: data.stored_craft,
        fire_outside_limits: data.fire_outside_limits,
        missile_load,
        load: data.load,
    }
}

/// Rewrites the munition keys of a socket.
fn rename_socket(socket: HullSocket, from: &str, to: &str) -> (new: HullSocket)
    ensures
        renamed_socket(socket, new, from@, to@),
{
    let component_data = match socket.component_data {
        Some(data) => Some(rename_component(data, from, to)),
        None => None,
    };
    HullSocket {
        text: socket.text,
        component_data,
        key: socket.key,
        component_name: socket.component_name,
    }
}

/// Rewrites the munition keys of a ship.
pub fn rename_ship(ship: Ship, from: &str, to: &str) -> (new: Ship)
    ensures
        renamed_ship(ship, new, from@, to@),
{
    let ghost all = ship.socket_map.hull_socket@;
    let mut rest = reversed(ship.socket_map.hull_socket);
    let mut sockets: Vec<HullSocket> = Vec::new();
    proof {
        assert(rest@.reverse() =~= all);
        assert(all.skip(0) =~= all);
    }
    loop
        invariant
            rest@.len() <= all.len(),
            rest@.reverse() == all.skip(all.len() - rest@.len()),
            sockets@.len() == all.len() - rest@.len(),
            forall|i: int|
                0 <= i < sockets@.len() ==> renamed_socket(
                    #[trigger] all[i],
                    sockets@[i],
                    from@,
                    to@,
                ),
        ensures
            sockets@.len() == all.len(),
            forall|i: int|
                0 <= i < all.len() ==> renamed_socket(#[trigger] all[i], sockets@[i], from@, to@),
        decreases rest@.len(),
    {
        let ghost done = sockets@.len() as int;
        let ghost stack = rest@;
        match rest.pop() {
            Some(socket) => {
                proof {
                    assert(stack.reverse()[0] == socket);
                    assert(all[done] == socket);
                    assert(rest@.reverse() =~= stack.reverse().drop_first());
                    assert(all.skip(done).drop_first() =~= all.skip(done + 1));
                }
                sockets.push(rename_socket(socket, from, to));
            },
            None => {
                break ;
            },
        }
    }
    Ship {
        text: ship.text,
        hull_config: ship.hull_config,
        template_spacecraft_types: ship.template_spacecraft_types,
        callsign: ship.callsign,
        save_id: ship.save_id,
        key: ship.key,
        name: ship.name,
        cost: ship.cost,
        number: ship.number,
        symbol_option: ship.symbol_option,
        hull_type: ship.hull_type,
        socket_map: SocketMap { text: ship.socket_map.text, hull_socket: sockets },
        weapon_groups: ship.weapon_groups,
        template_missile_types: ship.template_missile_types,
        initial_formation: ship.initial_formation,
    }
}

/// Rewrites the munition keys of every ship of a list.
pub fn rename_ships(ships: Option<Ships>, from: &str, to: &str) -> (new: Option<Ships>)
    ensures
        renamed_ships(ships, new, from@, to@),
{
    let ships = match ships {
        Some(ships) => ships,
        None => {
            return None;
        },
    };
    let ghost all = ships.ship@;
    let mut rest = reversed(ships.ship);
    let mut renamed: Vec<Ship> = Vec::new();
    proof {
        assert(rest@.reverse() =~= all);
        assert(all.skip(0) =~= all);
    }
    loop
        invariant
            rest@.len() <= all.len(),
            rest@.reverse() == all.skip(all.len() - rest@.len()),
            renamed@.len() == all.len() - rest@.len(),
            forall|i: int|
                0 <= i < renamed@.len() ==> renamed_ship(#[trigger] all[i], renamed@[i], from@, to@),
        ensures
            renamed@.len() == all.len(),
            forall|i: int|
                0 <= i < all.len() ==> renamed_ship(#[trigger] all[i], renamed@[i], from@, to@),
        decreases rest@.len(),
    {
        let ghost done = renamed@.len() as int;
        let ghost stack = rest@;
        match rest.pop() {
            Some(ship) => {
                proof {
                    assert(stack.reverse()[0] == ship);
                    assert(all[done] == ship);
                    assert(rest@.reverse() =~= stack.reverse().drop_first());
                    assert(all.skip(done).drop_first() =~= all.skip(done + 1));
                }
                renamed.push(rename_ship(ship, from, to));
            },
            None => {
                break ;
            },
        }
    }
    Some(Ships { text: ships.text, ship: renamed })
}

/// The place of the first template with the identity `id`.
pub fn find_missile(missiles: &Vec<MissileTemplate>, id: &MissileTemplateId) -> (place: Option<
    usize,
>)
    ensures
        match place {
            Some(i) => i == first_match(missiles@, id@) && i < missiles.len(),
            None => first_match(missiles@, id@) == missiles.len(),
        },
{
    let mut i: usize = 0;
    proof {
        assert(missiles@.skip(0) =~= missiles@);
    }
    while i < missiles.len()
        invariant
            i <= missiles.len(),
            first_match(missiles@, id@) == i + first_match(missiles@.skip(i as int), id@),
        decreases missiles.len() - i,
    {
        let candidate = MissileTemplateId::from_missile(&missiles[i]);
        proof {
            assert(missiles@.skip(i as int)[0] == missiles@[i as int]);
            assert(missiles@.skip(i as int).drop_first() =~= missiles@.skip(i + 1));
        }
        if candidate == *id {
            return Some(i);
        }
        i += 1;
    }
    proof {
        assert(missiles@.skip(missiles.len() as int) =~= Seq::empty());
    }
    None
}

/// Replaces the first missile template of `fleet` with the identity `id` by
/// `new_missile`; where `update_missile_names` is set, also rewrites the
/// munition keys that named the replaced template to name the new one.
///
/// Fails where the fleet has no `MissileTypes` container or no template of
/// that identity.
pub fn update_fleet_missile(
    fleet: Fleet,
    id: &MissileTemplateId,
    new_missile: MissileTemplate,
    update_missile_names: bool,
) -> (result: Result<Fleet, Error>)
    ensures
        update_result(result, fleet, id@, new_missile, update_missile_names),
{
    let own = match fleet.missile_types {
        Some(own) => own,
        None => {
            return Err(
                Error::new(
                    ErrorKind::NotFound,
                    "Updating fleet with no missiles",
                    "The fleet holds no missile templates",
                ),
            );
        },
    };
    let place = match find_missile(&own.missile_template, id) {
        Some(place) => place,
        None => {
            return Err(
                Error::new(
                    ErrorKind::NotFound,
                    "Missile not found in fleet",
                    "The fleet holds no missile template of this identity",
                ),
            );
        },
    };
    let to = munition_key_of(new_missile.designation.as_str(), new_missile.nickname.as_str());
    let mut missiles = own.missile_template;
    let ghost before = missiles@;
    let replaced = missiles.remove(place);
    missiles.insert(place, new_missile);
    proof {
        assert(missiles@ =~= before.update(place as int, new_missile));
    }
    let ships = if update_missile_names {
        let from = munition_key_of(replaced.designation.as_str(), replaced.nickname.as_str());
        rename_ships(fleet.ships, from.as_str(), to.as_str())
    } else {
        fleet.ships
    };
    Ok(
        Fleet {
            xmlns_xsd: fleet.xmlns_xsd,
            xmlns_xsi: fleet.xmlns_xsi,
            text: fleet.text,
            mod_dependencies: fleet.mod_dependencies,
            description: fleet.description,
            craft_types: fleet.craft_types,
            missile_types: Some(MissileTypes { text: own.text, missile_template: missiles }),
            name: fleet.name,
            version: fleet.version,
            total_points: fleet.total_points,
            faction_key: fleet.faction_key,
            sort_override_order: fleet.sort_override_order,
            ships,
        },
    )
}

} // verus!
