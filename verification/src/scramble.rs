//! The scrambler: a fleet with the names of its missiles, craft and ships
//! replaced by names that tell nothing, and with every key that named a
//! missile or a craft by its old name rewritten to its new one.

use vstd::prelude::*;
use vstd::string::StrSliceExecFns;
use crate::error::{Error, ErrorKind, ErrorView};
use crate::lists::{map_in, map_named_in};
use crate::missile_templates::update_fleets::{munition_key, munition_key_of};
use crate::numbers::{hexadecimal, hexadecimal_text};
use crate::random::random_u32;
use crate::schema::{
    ComponentData, CraftLoadout, CraftTemplate, CraftTypes, Elements, Fleet,
    GeneralLoadoutElement, GeneralLoadoutElementMissileKeys,
    GeneralLoadoutElementMissileKeysString, HullSocket, Load, LoadMagSaveData, Loadout,
    LoadoutMissileKeys, LoadoutMissileKeysString, Loadouts, MissileLoad, MissileLoadMagSaveData,
    MissileTemplate, MissileTypes, SavedStoredCraft, Ship, Ships, SocketMap, StoredCraft,
};
use crate::text::str_eq;

verus! {

/// A rewrite of keys: pairs of an old key and the new key that replaces it.
pub struct Dictionary {
    pub entries: Vec<(String, String)>,
}

impl View for Dictionary {
    type V = Seq<(Seq<char>, Seq<char>)>;

    open spec fn view(&self) -> Seq<(Seq<char>, Seq<char>)> {
        self.entries@.map_values(|e: (String, String)| (e.0@, e.1@))
    }
}

/// The new key for an old one: that of the last pair with the old key.
pub open spec fn lookup(dict: Seq<(Seq<char>, Seq<char>)>, key: Seq<char>) -> Option<Seq<char>>
    decreases dict.len(),
{
    if dict.len() == 0 {
        None
    } else if dict.last().0 == key {
        Some(dict.last().1)
    } else {
        lookup(dict.drop_last(), key)
    }
}

/// A key after the rewrite: the new key where the rewrite has one for it,
/// else the key itself.
pub open spec fn applied(key: Seq<char>, dict: Seq<(Seq<char>, Seq<char>)>) -> Seq<char> {
    match lookup(dict, key) {
        Some(new_key) => new_key,
        None => key,
    }
}

impl Dictionary {
    /// A rewrite that changes nothing.
    pub fn new() -> (dict: Dictionary)
        ensures
            dict@ == Seq::<(Seq<char>, Seq<char>)>::empty(),
    {
        let dict = Dictionary { entries: Vec::new() };
        proof {
            assert(dict@ =~= Seq::empty());
        }
        dict
    }

    /// Adds a pair, which wins over the pairs with the same old key.
    pub fn insert(&mut self, old_key: String, new_key: String)
        ensures
            final(self)@ == old(self)@.push((old_key@, new_key@)),
    {
        self.entries.push((old_key, new_key));
        proof {
            assert(self@ =~= old(self)@.push((old_key@, new_key@)));
        }
    }

    /// A key after the rewrite.
    pub fn apply(&self, key: String) -> (res: String)
        ensures
            res@ == applied(key@, self@),
    {
        let mut i: usize = self.entries.len();
        proof {
            assert(self@.take(i as int) =~= self@);
        }
        while i > 0
            invariant
                i <= self.entries.len(),
                lookup(self@, key@) == lookup(self@.take(i as int), key@),
            decreases i,
        {
            proof {
                assert(self@.take(i as int).last() == self@[i - 1]);
                assert(self@.take(i as int).drop_last() =~= self@.take(i - 1));
            }
            if str_eq(self.entries[i - 1].0.as_str(), key.as_str()) {
                return self.entries[i - 1].1.clone();
            }
            i -= 1;
        }
        key
    }
}

/// The text with an underscore in place of each space.
pub open spec fn underscored(text: Seq<char>) -> Seq<char> {
    text.map_values(
        |c: char|
            if c == ' ' {
                '_'
            } else {
                c
            },
    )
}

/// The text with an underscore in place of each space.
pub fn underscored_text(text: &str) -> (res: String)
    ensures
        res@ == underscored(text@),
{
    let n = text.unicode_len();
    let mut res = String::new();
    let mut i: usize = 0;
    proof {
        assert(underscored(text@.take(0)) =~= Seq::empty());
    }
    while i < n
        invariant
            i <= n,
            n == text@.len(),
            res@ == underscored(text@.take(i as int)),
        decreases n - i,
    {
        let c = text.get_char(i);
        proof {
            reveal_strlit("_");
            assert(text@.take(i + 1) =~= text@.take(i as int).push(text@[i as int]));
            assert(underscored(text@.take(i as int).push(text@[i as int])) =~= underscored(
                text@.take(i as int),
            ).push(
                if text@[i as int] == ' ' {
                    '_'
                } else {
                    text@[i as int]
                },
            ));
        }
        if c == ' ' {
            res.append("_");
            proof {
                assert("_"@ =~= seq!['_']);
                assert(res@ =~= underscored(text@.take(i + 1)));
            }
        } else {
            let piece = text.substring_char(i, i + 1);
            res.append(piece);
            proof {
                assert(piece@ =~= seq![text@[i as int]]);
                assert(res@ =~= underscored(text@.take(i + 1)));
            }
        }
        i += 1;
    }
    proof {
        assert(text@.take(n as int) =~= text@);
    }
    res
}

/// The designation of the craft of a frame, where the frame is known.
pub open spec fn frame_designation(frame_key: Seq<char>) -> Option<Seq<char>> {
    if frame_key == "Stock/AN Skiff"@ {
        Some("RS-35"@)
    } else if frame_key == "Stock/AN Interceptor"@ {
        Some("PF-440"@)
    } else if frame_key == "Stock/AN SEWAC"@ {
        Some("E-44"@)
    } else if frame_key == "Stock/AN Bomber"@ {
        Some("B-86"@)
    } else if frame_key == "Stock/OSP Skiff"@ {
        Some("RS-35"@)
    } else if frame_key == "Stock/OSP Interceptor"@ {
        Some("PF-386"@)
    } else if frame_key == "Stock/OSP Scout"@ {
        Some("RF-286"@)
    } else if frame_key == "Stock/OSP Bomber"@ {
        Some("B-45"@)
    } else {
        None
    }
}

/// The designation of the craft of a frame; nothing for an unknown frame.
pub fn frame_key_to_designation(frame_key: &str) -> (designation: Option<&'static str>)
    ensures
        match designation {
            Some(text) => frame_designation(frame_key@) == Some(text@),
            None => frame_designation(frame_key@) is None,
        },
{
    if str_eq(frame_key, "Stock/AN Skiff") {
        Some("RS-35")
    } else if str_eq(frame_key, "Stock/AN Interceptor") {
        Some("PF-440")
    } else if str_eq(frame_key, "Stock/AN SEWAC") {
        Some("E-44")
    } else if str_eq(frame_key, "Stock/AN Bomber") {
        Some("B-86")
    } else if str_eq(frame_key, "Stock/OSP Skiff") {
        Some("RS-35")
    } else if str_eq(frame_key, "Stock/OSP Interceptor") {
        Some("PF-386")
    } else if str_eq(frame_key, "Stock/OSP Scout") {
        Some("RF-286")
    } else if str_eq(frame_key, "Stock/OSP Bomber") {
        Some("B-45")
    } else {
        None
    }
}

/// Whether `new` is the missile `old` with the nickname `name`.
pub open spec fn scrambled_missile(old: MissileTemplate, new: MissileTemplate, name: Seq<char>) -> bool {
    &&& new == (MissileTemplate { nickname: new.nickname, ..old })
    &&& new.nickname@ == name
}

/// The rewrite of the munition keys of the missiles of a fleet: for each
/// missile, in order, from the key with its old nickname to the key with its
/// new one.
pub open spec fn missile_dict(missiles: Seq<MissileTemplate>, names: Seq<String>) -> Seq<
    (Seq<char>, Seq<char>),
> {
    Seq::new(
        missiles.len(),
        |i: int|
            (
                munition_key(missiles[i].designation@, missiles[i].nickname@),
                munition_key(missiles[i].designation@, names[i]@),
            ),
    )
}

/// The missile with another nickname.
fn scramble_missile(missile: MissileTemplate, name: &String) -> (new: MissileTemplate)
    ensures
        scrambled_missile(missile, new, name@),
{
    MissileTemplate {
        text: missile.text,
        associated_template_name: missile.associated_template_name,
        designation: missile.designation,
        nickname: name.clone(),
        description: missile.description,
        long_description: missile.long_description,
        cost: missile.cost,
        body_key: missile.body_key,
        template_key: missile.template_key,
        base_color: missile.base_color,
        stripe_color: missile.stripe_color,
        sockets: missile.sockets,
    }
}

/// The rewrite of the munition keys of a list of missiles.
fn missile_dictionary(missiles: &Vec<MissileTemplate>, names: &Vec<String>) -> (dict: Dictionary)
    requires
        names.len() == missiles.len(),
    ensures
        dict@ == missile_dict(missiles@, names@),
{
    let mut dict = Dictionary::new();
    let mut i: usize = 0;
    while i < missiles.len()
        invariant
            i <= missiles.len(),
            names.len() == missiles.len(),
            dict@ == missile_dict(missiles@, names@).take(i as int),
        decreases missiles.len() - i,
    {
        let missile = &missiles[i];
        let old_key = munition_key_of(missile.designation.as_str(), missile.nickname.as_str());
        let new_key = munition_key_of(missile.designation.as_str(), names[i].as_str());
        dict.insert(old_key, new_key);
        proof {
            let all = missile_dict(missiles@, names@);
            assert(all.take(i + 1) =~= all.take(i as int).push(all[i as int]));
        }
        i += 1;
    }
    proof {
        let all = missile_dict(missiles@, names@);
        assert(all.take(missiles.len() as int) =~= all);
    }
    dict
}

/// Whether `new` is the magazine entry `old` with its munition key
/// rewritten.
pub open spec fn scrambled_missile_entry(
    old: MissileLoadMagSaveData,
    new: MissileLoadMagSaveData,
    dict: Seq<(Seq<char>, Seq<char>)>,
) -> bool {
    &&& new == (MissileLoadMagSaveData { munition_key: new.munition_key, ..old })
    &&& new.munition_key@ == applied(old.munition_key@, dict)
}

/// Whether `new` is the magazine entry `old` with its munition key
/// rewritten.
pub open spec fn scrambled_load_entry(
    old: LoadMagSaveData,
    new: LoadMagSaveData,
    dict: Seq<(Seq<char>, Seq<char>)>,
) -> bool {
    &&& new == (LoadMagSaveData { munition_key: new.munition_key, ..old })
    &&& new.munition_key@ == applied(old.munition_key@, dict)
}

/// Whether `new` is the stored craft `old` with its craft key rewritten.
pub open spec fn scrambled_stored_craft(
    old: SavedStoredCraft,
    new: SavedStoredCraft,
    dict: Seq<(Seq<char>, Seq<char>)>,
) -> bool {
    &&& new == (SavedStoredCraft { craft_template_key: new.craft_template_key, ..old })
    &&& new.craft_template_key@ == applied(old.craft_template_key@, dict)
}

/// What a component holds that the scrambler rewrites.
#[derive(Clone, Copy, Debug, PartialEq, Eq, Structural)]
pub enum Holding {
    /// Missiles in the cells of a launcher.
    Cells,
    /// Munitions in a bulk magazine.
    Magazine,
    /// Craft in a hangar.
    Hangar,
    /// Nothing that names a missile or a craft.
    Other,
}

/// What a component of a kind holds.
pub open spec fn holding_of(kind: Option<String>) -> Holding {
    match kind {
        Some(kind) => if kind@ == "CellLauncherData"@ || kind@ == "ResizableCellLauncherData"@ {
            Holding::Cells
        } else if kind@ == "BulkMagazineData"@ {
            Holding::Magazine
        } else if kind@ == "CraftHangarData"@ {
            Holding::Hangar
        } else {
            Holding::Other
        },
        None => Holding::Other,
    }
}

/// Whether `new` is the component `old` with the keys it holds rewritten:
/// the munition keys of the cells of a launcher or of a bulk magazine by
/// `missiles`, the craft keys of a hangar by `crafts`.
pub open spec fn scrambled_component(
    old: ComponentData,
    new: ComponentData,
    missiles: Seq<(Seq<char>, Seq<char>)>,
    crafts: Seq<(Seq<char>, Seq<char>)>,
) -> bool {
    &&& new == (ComponentData {
        missile_load: new.missile_load,
        load: new.load,
        stored_craft: new.stored_craft,
        ..old
    })
    &&& match old.missile_load {
        Some(cells) => if holding_of(old.xsi_type) == Holding::Cells {
            &&& new.missile_load matches Some(new_cells)
            &&& new_cells.text == cells.text
            &&& new_cells.mag_save_data.len() == cells.mag_save_data.len()
            &&& forall|i: int|
                0 <= i < cells.mag_save_data.len() ==> scrambled_missile_entry(
                    #[trigger] cells.mag_save_data[i],
                    new_cells.mag_save_data[i],
                    missiles,
                )
        } else {
            new.missile_load == old.missile_load
        },
        None => new.missile_load is None,
    }
    &&& match old.load {
        Some(load) => if holding_of(old.xsi_type) == Holding::Magazine {
            &&& new.load matches Some(new_load)
            &&& new_load.text == load.text
            &&& new_load.mag_save_data.len() == load.mag_save_data.len()
            &&& forall|i: int|
                0 <= i < load.mag_save_data.len() ==> scrambled_load_entry(
                    #[trigger] load.mag_save_data[i],
                    new_load.mag_save_data[i],
                    missiles,
                )
        } else {
            new.load == old.load
        },
        None => new.load is None,
    }
    &&& match old.stored_craft {
        Some(stored) => if holding_of(old.xsi_type) == Holding::Hangar {
            &&& new.stored_craft matches Some(new_stored)
            &&& new_stored.text == stored.text
            &&& new_stored.saved_stored_craft.len() == stored.saved_stored_craft.len()
            &&& forall|i: int|
                0 <= i < stored.saved_stored_craft.len() ==> scrambled_stored_craft(
                    #[trigger] stored.saved_stored_craft[i],
                    new_stored.saved_stored_craft[i],
                    crafts,
                )
        } else {
            new.stored_craft == old.stored_craft
        },
        None => new.stored_craft is None,
    }
}

/// Whether `new` is the socket `old` with the keys of its component
/// rewritten.
pub open spec fn scrambled_socket(
    old: HullSocket,
    new: HullSocket,
    missiles: Seq<(Seq<char>, Seq<char>)>,
    crafts: Seq<(Seq<char>, Seq<char>)>,
) -> bool {
    &&& new == (HullSocket { component_data: new.component_data, ..old })
    &&& match old.component_data {
        Some(data) => new.component_data matches Some(new_data) && scrambled_component(
            data,
            new_data,
            missiles,
            crafts,
        ),
        None => new.component_data is None,
    }
}

/// The callsign of a scrambled ship: its own where it has one that is not
/// empty, else its old name.
pub open spec fn scrambled_callsign(old: Ship) -> Seq<char> {
    match old.callsign {
        Some(callsign) => if callsign@.len() == 0 {
            old.name@
        } else {
            callsign@
        },
        None => old.name@,
    }
}

/// Whether `new` is the ship `old` with the name `name`, with its old name
/// for a callsign where it had none, and with the keys of its sockets
/// rewritten.
pub open spec fn scrambled_ship(
    old: Ship,
    new: Ship,
    name: Seq<char>,
    missiles: Seq<(Seq<char>, Seq<char>)>,
    crafts: Seq<(Seq<char>, Seq<char>)>,
) -> bool {
    &&& new == (Ship { name: new.name, callsign: new.callsign, socket_map: new.socket_map, ..old })
    &&& new.name@ == name
    &&& new.callsign matches Some(callsign) && callsign@ == scrambled_callsign(old)
    &&& new.socket_map.text == old.socket_map.text
    &&& new.socket_map.hull_socket.len() == old.socket_map.hull_socket.len()
    &&& forall|i: int|
        0 <= i < old.socket_map.hull_socket.len() ==> scrambled_socket(
            #[trigger] old.socket_map.hull_socket[i],
            new.socket_map.hull_socket[i],
            missiles,
            crafts,
        )
}

/// The magazine entry with its munition key rewritten.
fn scramble_missile_entry(entry: MissileLoadMagSaveData, dict: &Dictionary) -> (new:
    MissileLoadMagSaveData)
    ensures
        scrambled_missile_entry(entry, new, dict@),
{
    MissileLoadMagSaveData {
        text: entry.text,
        magazine_key: entry.magazine_key,
        munition_key: dict.apply(entry.munition_key),
        quantity: entry.quantity,
    }
}

/// The magazine entry with its munition key rewritten.
fn scramble_load_entry(entry: LoadMagSaveData, dict: &Dictionary) -> (new: LoadMagSaveData)
    ensures
        scrambled_load_entry(entry, new, dict@),
{
    LoadMagSaveData {
        text: entry.text,
        magazine_key: entry.magazine_key,
        munition_key: dict.apply(entry.munition_key),
        quantity: entry.quantity,
    }
}

/// The stored craft with its craft key rewritten.
fn scramble_stored_craft(craft: SavedStoredCraft, dict: &Dictionary) -> (new: SavedStoredCraft)
    ensures
        scrambled_stored_craft(craft, new, dict@),
{
    SavedStoredCraft { text: craft.text, craft_template_key: dict.apply(craft.craft_template_key) }
}

/// The rewrites of a scramble: of munition keys and of craft keys.
pub struct Rewrites {
    pub missiles: Dictionary,
    pub crafts: Dictionary,
}

/// What a component of a kind holds.
fn holding(kind: &Option<String>) -> (res: Holding)
    ensures
        res == holding_of(*kind),
{
    match kind {
        Some(kind) => {
            let kind = kind.as_str();
            if str_eq(kind, "CellLauncherData") || str_eq(kind, "ResizableCellLauncherData") {
                Holding::Cells
            } else if str_eq(kind, "BulkMagazineData") {
                Holding::Magazine
            } else if str_eq(kind, "CraftHangarData") {
                Holding::Hangar
            } else {
                Holding::Other
            }
        },
        None => Holding::Other,
    }
}

/// The component with the keys it holds rewritten.
fn scramble_component(data: ComponentData, rewrites: &Rewrites) -> (new: ComponentData)
    ensures
        scrambled_component(data, new, rewrites.missiles@, rewrites.crafts@),
{
    let held = holding(&data.xsi_type);
    let missile_load = match data.missile_load {
        Some(cells) => if held == Holding::Cells {
            Some(
                MissileLoad {
                    text: cells.text,
                    mag_save_data: map_in(
                        cells.mag_save_data,
                        &rewrites.missiles,
                        scramble_missile_entry,
                    ),
                },
            )
        } else {
            Some(cells)
        },
        None => None,
    };
    let load = match data.load {
        Some(load) => if held == Holding::Magazine {
            Some(
                Load {
                    text: load.text,
                    mag_save_data: map_in(
                        load.mag_save_data,
                        &rewrites.missiles,
                        scramble_load_entry,
                    ),
                },
            )
        } else {
            Some(load)
        },
        None => None,
    };
    let stored_craft = match data.stored_craft {
        Some(stored) => if held == Holding::Hangar {
            Some(
                StoredCraft {
                    text: stored.text,
                    saved_stored_craft: map_in(
                        stored.saved_stored_craft,
                        &rewrites.crafts,
                        scramble_stored_craft,
                    ),
                },
            )
        } else {
            Some(stored)
        },
        None => None,
    };
    ComponentData {
        xsi_type: data.xsi_type,
        component_data_type: data.component_data_type,
        text: data.text,
        identity_option: data.identity_option,
        configured_size: data.configured_size,
        stored_craft,
        fire_outside_limits: data.fire_outside_limits,
        missile_load,
        load,
    }
}

/// The socket with the keys of its component rewritten.
fn scramble_socket(socket: HullSocket, rewrites: &Rewrites) -> (new: HullSocket)
    ensures
        scrambled_socket(socket, new, rewrites.missiles@, rewrites.crafts@),
{
    let component_data = match socket.component_data {
        Some(data) => Some(scramble_component(data, rewrites)),
        None => None,
    };
    HullSocket {
        text: socket.text,
        component_data,
        key: socket.key,
        component_name: socket.component_name,
    }
}

/// The ship with another name and the keys of its sockets rewritten.
fn scramble_ship(ship: Ship, name: &String, rewrites: &Rewrites) -> (new: Ship)
    ensures
        scrambled_ship(ship, new, name@, rewrites.missiles@, rewrites.crafts@),
{
    let callsign = match ship.callsign {
        Some(callsign) => if callsign.as_str().unicode_len() == 0 {
            ship.name
        } else {
            callsign
        },
        None => ship.name,
    };
    let sockets = map_in(ship.socket_map.hull_socket, rewrites, scramble_socket);
    Ship {
        text: ship.text,
        hull_config: ship.hull_config,
        template_spacecraft_types: ship.template_spacecraft_types,
        callsign: Some(callsign),
        save_id: ship.save_id,
        key: ship.key,
        name: name.clone(),
        cost: ship.cost,
        number: ship.number,
        symbol_option: ship.symbol_option,
        hull_type: ship.hull_type,
        socket_map: SocketMap { text: ship.socket_map.text, hull_socket: sockets },
        weapon_groups: ship.weapon_groups,
        template_missile_types: ship.template_missile_types,
        initial_formation: ship.initial_formation,
    }
}

/// The key that names a craft by the designation of its frame, its suffix
/// and its nickname.
pub open spec fn craft_key(designation: Seq<char>, suffix: Seq<char>, nickname: Seq<char>) -> Seq<
    char,
> {
    "$CRAFT$/"@ + designation + suffix + " "@ + nickname
}

/// The designation suffix of a craft, empty where it has none.
pub open spec fn suffix_of(craft: CraftTemplate) -> Seq<char> {
    match craft.designation_suffix {
        Some(suffix) => suffix@,
        None => Seq::empty(),
    }
}

/// The rewrite of the craft keys of the craft of a fleet: for each craft, in
/// order, from the key with its old nickname to the key with its new one.
pub open spec fn craft_dict(crafts: Seq<CraftTemplate>, names: Seq<String>) -> Seq<
    (Seq<char>, Seq<char>),
> {
    Seq::new(
        crafts.len(),
        |i: int|
            (
                craft_key(
                    frame_designation(crafts[i].frame_key@)->0,
                    suffix_of(crafts[i]),
                    crafts[i].nickname@,
                ),
                craft_key(
                    frame_designation(crafts[i].frame_key@)->0,
                    suffix_of(crafts[i]),
                    names[i]@,
                ),
            ),
    )
}

/// The place of the first craft whose frame is unknown, or the number of
/// craft.
pub open spec fn first_unknown_frame(crafts: Seq<CraftTemplate>) -> int
    decreases crafts.len(),
{
    if crafts.len() == 0 {
        0
    } else if frame_designation(crafts[0].frame_key@) is None {
        0
    } else {
        1 + first_unknown_frame(crafts.drop_first())
    }
}

/// Whether `new` is the text of a key `old` after the rewrite.
pub open spec fn scrambled_key_text(
    old: Option<String>,
    new: Option<String>,
    dict: Seq<(Seq<char>, Seq<char>)>,
) -> bool {
    match old {
        Some(key) => new matches Some(new_key) && new_key@ == applied(key@, dict),
        None => new is None,
    }
}

/// Whether `new` is the missile key `old` of an element after the rewrite.
pub open spec fn scrambled_general_key(
    old: GeneralLoadoutElementMissileKeysString,
    new: GeneralLoadoutElementMissileKeysString,
    dict: Seq<(Seq<char>, Seq<char>)>,
) -> bool {
    new.xsi_nil == old.xsi_nil && scrambled_key_text(old.text, new.text, dict)
}

/// Whether `new` is the missile key `old` of a loadout after the rewrite.
pub open spec fn scrambled_loadout_key(
    old: LoadoutMissileKeysString,
    new: LoadoutMissileKeysString,
    dict: Seq<(Seq<char>, Seq<char>)>,
) -> bool {
    new.xsi_nil == old.xsi_nil && scrambled_key_text(old.text, new.text, dict)
}

/// Whether `new` is the list of missile keys `old` of an element after the
/// rewrite.
pub open spec fn scrambled_general_keys(
    old: Option<GeneralLoadoutElementMissileKeys>,
    new: Option<GeneralLoadoutElementMissileKeys>,
    dict: Seq<(Seq<char>, Seq<char>)>,
) -> bool {
    match old {
        Some(keys) => {
            &&& new matches Some(new_keys)
            &&& new_keys.text == keys.text
            &&& new_keys.string.len() == keys.string.len()
            &&& forall|i: int|
                0 <= i < keys.string.len() ==> scrambled_general_key(
                    #[trigger] keys.string[i],
                    new_keys.string[i],
                    dict,
                )
        },
        None => new is None,
    }
}

/// Whether `new` is the list of missile keys `old` of a loadout after the
/// rewrite.
pub open spec fn scrambled_loadout_keys(
    old: Option<LoadoutMissileKeys>,
    new: Option<LoadoutMissileKeys>,
    dict: Seq<(Seq<char>, Seq<char>)>,
) -> bool {
    match old {
        Some(keys) => {
            &&& new matches Some(new_keys)
            &&& new_keys.text == keys.text
            &&& new_keys.string.len() == keys.string.len()
            &&& forall|i: int|
                0 <= i < keys.string.len() ==> scrambled_loadout_key(
                    #[trigger] keys.string[i],
                    new_keys.string[i],
                    dict,
                )
        },
        None => new is None,
    }
}

/// Whether `new` is the loadout `old` of a variable socket after the
/// rewrite: with its missile keys rewritten where it is a selection of
/// missiles.
pub open spec fn scrambled_loadout(
    old: Option<Loadout>,
    new: Option<Loadout>,
    dict: Seq<(Seq<char>, Seq<char>)>,
) -> bool {
    match old {
        Some(loadout) => {
            &&& new matches Some(new_loadout)
            &&& new_loadout == (Loadout { missile_keys: new_loadout.missile_keys, ..loadout })
            &&& if loadout.xsi_type@ == "MissileSelection"@ {
                scrambled_loadout_keys(loadout.missile_keys, new_loadout.missile_keys, dict)
            } else {
                new_loadout.missile_keys == loadout.missile_keys
            }
        },
        None => new is None,
    }
}

/// Whether `new` is the element `old` of a loadout after the rewrite: a
/// selection of missiles with its missile keys rewritten, a variable socket
/// with its loadout rewritten, any other as it was.
pub open spec fn scrambled_element(
    old: GeneralLoadoutElement,
    new: GeneralLoadoutElement,
    dict: Seq<(Seq<char>, Seq<char>)>,
) -> bool {
    &&& new == (GeneralLoadoutElement {
        missile_keys: new.missile_keys,
        loadout: new.loadout,
        ..old
    })
    &&& if old.xsi_type@ == "MissileSelection"@ {
        scrambled_general_keys(old.missile_keys, new.missile_keys, dict) && new.loadout
            == old.loadout
    } else if old.xsi_type@ == "VariableSocketLoadout"@ {
        new.missile_keys == old.missile_keys && scrambled_loadout(old.loadout, new.loadout, dict)
    } else {
        new.missile_keys == old.missile_keys && new.loadout == old.loadout
    }
}

/// Whether `new` is the loadout `old` of a craft with every element
/// rewritten.
pub open spec fn scrambled_craft_loadout(
    old: CraftLoadout,
    new: CraftLoadout,
    dict: Seq<(Seq<char>, Seq<char>)>,
) -> bool {
    &&& new == (CraftLoadout { elements: new.elements, ..old })
    &&& new.elements.text == old.elements.text
    &&& new.elements.general_loadout_element.len() == old.elements.general_loadout_element.len()
    &&& forall|i: int|
        0 <= i < old.elements.general_loadout_element.len() ==> scrambled_element(
            #[trigger] old.elements.general_loadout_element[i],
            new.elements.general_loadout_element[i],
            dict,
        )
}

/// Whether `new` is the craft `old` with the nickname `name` and with the
/// missile keys of its loadouts rewritten.
pub open spec fn scrambled_craft(
    old: CraftTemplate,
    new: CraftTemplate,
    name: Seq<char>,
    dict: Seq<(Seq<char>, Seq<char>)>,
) -> bool {
    &&& new == (CraftTemplate { nickname: new.nickname, loadouts: new.loadouts, ..old })
    &&& new.nickname@ == name
    &&& new.loadouts.text == old.loadouts.text
    &&& new.loadouts.craft_loadout.len() == old.loadouts.craft_loadout.len()
    &&& forall|i: int|
        0 <= i < old.loadouts.craft_loadout.len() ==> scrambled_craft_loadout(
            #[trigger] old.loadouts.craft_loadout[i],
            new.loadouts.craft_loadout[i],
            dict,
        )
}

/// The text of a key after the rewrite.
fn scramble_key_text(text: Option<String>, dict: &Dictionary) -> (new: Option<String>)
    ensures
        scrambled_key_text(text, new, dict@),
{
    match text {
        Some(key) => Some(dict.apply(key)),
        None => None,
    }
}

/// The missile key of an element after the rewrite.
fn scramble_general_key(key: GeneralLoadoutElementMissileKeysString, dict: &Dictionary) -> (new:
    GeneralLoadoutElementMissileKeysString)
    ensures
        scrambled_general_key(key, new, dict@),
{
    GeneralLoadoutElementMissileKeysString {
        xsi_nil: key.xsi_nil,
        text: scramble_key_text(key.text, dict),
    }
}

/// The missile key of a loadout after the rewrite.
fn scramble_loadout_key(key: LoadoutMissileKeysString, dict: &Dictionary) -> (new:
    LoadoutMissileKeysString)
    ensures
        scrambled_loadout_key(key, new, dict@),
{
    LoadoutMissileKeysString { xsi_nil: key.xsi_nil, text: scramble_key_text(key.text, dict) }
}

/// The list of missile keys of an element after the rewrite.
fn scramble_general_keys(keys: Option<GeneralLoadoutElementMissileKeys>, dict: &Dictionary) -> (new:
    Option<GeneralLoadoutElementMissileKeys>)
    ensures
        scrambled_general_keys(keys, new, dict@),
{
    match keys {
        Some(keys) => Some(
            GeneralLoadoutElementMissileKeys {
                text: keys.text,
                string: map_in(keys.string, dict, scramble_general_key),
            },
        ),
        None => None,
    }
}

/// The list of missile keys of a loadout after the rewrite.
fn scramble_loadout_keys(keys: Option<LoadoutMissileKeys>, dict: &Dictionary) -> (new: Option<
    LoadoutMissileKeys,
>)
    ensures
        scrambled_loadout_keys(keys, new, dict@),
{
    match keys {
        Some(keys) => Some(
            LoadoutMissileKeys {
                text: keys.text,
                string: map_in(keys.string, dict, scramble_loadout_key),
            },
        ),
        None => None,
    }
}

/// The loadout of a variable socket after the rewrite.
fn scramble_loadout(loadout: Option<Loadout>, dict: &Dictionary) -> (new: Option<Loadout>)
    ensures
        scrambled_loadout(loadout, new, dict@),
{
    match loadout {
        Some(loadout) => {
            let selects = str_eq(loadout.xsi_type.as_str(), "MissileSelection");
            let missile_keys = if selects {
                scramble_loadout_keys(loadout.missile_keys, dict)
            } else {
                loadout.missile_keys
            };
            Some(
                Loadout {
                    xsi_type: loadout.xsi_type,
                    text: loadout.text,
                    ammo_key: loadout.ammo_key,
                    missile_keys,
                    socket_key: loadout.socket_key,
                },
            )
        },
        None => None,
    }
}

/// The element of a loadout after the rewrite.
fn scramble_element(element: GeneralLoadoutElement, dict: &Dictionary) -> (new:
    GeneralLoadoutElement)
    ensures
        scrambled_element(element, new, dict@),
{
    let selects = str_eq(element.xsi_type.as_str(), "MissileSelection");
    let varies = str_eq(element.xsi_type.as_str(), "VariableSocketLoadout");
    let missile_keys = if selects {
        scramble_general_keys(element.missile_keys, dict)
    } else {
        element.missile_keys
    };
    let loadout = if !selects && varies {
        scramble_loadout(element.loadout, dict)
    } else {
        element.loadout
    };
    GeneralLoadoutElement {
        xsi_type: element.xsi_type,
        text: element.text,
        missile_keys,
        ammo_key: element.ammo_key,
        loadout,
        component_key: element.component_key,
        socket_key: element.socket_key,
    }
}

/// The loadout of a craft with every element rewritten.
fn scramble_craft_loadout(loadout: CraftLoadout, dict: &Dictionary) -> (new: CraftLoadout)
    ensures
        scrambled_craft_loadout(loadout, new, dict@),
{
    CraftLoadout {
        text: loadout.text,
        loadout_name: loadout.loadout_name,
        elements: Elements {
            text: loadout.elements.text,
            general_loadout_element: map_in(
                loadout.elements.general_loadout_element,
                dict,
                scramble_element,
            ),
        },
    }
}

/// The craft with another nickname and the missile keys of its loadouts
/// rewritten.
fn scramble_craft(craft: CraftTemplate, name: &String, dict: &Dictionary) -> (new: CraftTemplate)
    ensures
        scrambled_craft(craft, new, name@, dict@),
{
    CraftTemplate {
        text: craft.text,
        associated_template_name: craft.associated_template_name,
        nickname: name.clone(),
        cost: craft.cost,
        frame_key: craft.frame_key,
        template_key: craft.template_key,
        installed_components: craft.installed_components,
        loadouts: Loadouts {
            text: craft.loadouts.text,
            craft_loadout: map_in(craft.loadouts.craft_loadout, dict, scramble_craft_loadout),
        },
        template_missile_types: craft.template_missile_types,
        mod_dependencies: craft.mod_dependencies,
        long_description: craft.long_description,
        designation_suffix: craft.designation_suffix,
    }
}

/// The key that names a craft.
fn craft_key_of(designation: &str, suffix: &str, nickname: &str) -> (key: String)
    ensures
        key@ == craft_key(designation@, suffix@, nickname@),
{
    let mut key = "$CRAFT$/".to_owned();
    key.append(designation);
    key.append(suffix);
    key.append(" ");
    key.append(nickname);
    key
}

/// The rewrite of the craft keys of a list of craft, or the place of the
/// first craft whose frame is unknown.
fn craft_dictionary(crafts: &Vec<CraftTemplate>, names: &Vec<String>) -> (res: Result<
    Dictionary,
    usize,
>)
    requires
        names.len() == crafts.len(),
    ensures
        match res {
            Ok(dict) => first_unknown_frame(crafts@) == crafts.len() && dict@ == craft_dict(
                crafts@,
                names@,
            ),
            Err(place) => place == first_unknown_frame(crafts@) && place < crafts.len(),
        },
{
    let mut dict = Dictionary::new();
    let mut i: usize = 0;
    proof {
        assert(crafts@.skip(0) =~= crafts@);
    }
    while i < crafts.len()
        invariant
            i <= crafts.len(),
            names.len() == crafts.len(),
            first_unknown_frame(crafts@) == i + first_unknown_frame(crafts@.skip(i as int)),
            dict@ == craft_dict(crafts@, names@).take(i as int),
        decreases crafts.len() - i,
    {
        let craft = &crafts[i];
        proof {
            assert(crafts@.skip(i as int)[0] == crafts@[i as int]);
            assert(crafts@.skip(i as int).drop_first() =~= crafts@.skip(i + 1));
        }
        let designation = match frame_key_to_designation(craft.frame_key.as_str()) {
            Some(designation) => designation,
            None => {
                return Err(i);
            },
        };
        let empty = String::new();
        let suffix = match &craft.designation_suffix {
            Some(suffix) => suffix,
            None => &empty,
        };
        let old_key = craft_key_of(designation, suffix.as_str(), craft.nickname.as_str());
        let new_key = craft_key_of(designation, suffix.as_str(), names[i].as_str());
        dict.insert(old_key, new_key);
        proof {
            let all = craft_dict(crafts@, names@);
            assert(all.take(i + 1) =~= all.take(i as int).push(all[i as int]));
        }
        i += 1;
    }
    proof {
        let all = craft_dict(crafts@, names@);
        assert(all.take(crafts.len() as int) =~= all);
        assert(crafts@.skip(crafts.len() as int) =~= Seq::empty());
    }
    Ok(dict)
}

/// The new names of a scramble: one for each missile, one for each craft,
/// one for the end of the name of the fleet and one for each ship.
#[derive(Debug, Clone, PartialEq, Eq)]
pub struct ScrambleNames {
    pub missiles: Vec<String>,
    pub crafts: Vec<String>,
    pub fleet: String,
    pub ships: Vec<String>,
}

/// The missiles of a fleet, none where it has no container for them.
pub open spec fn missiles_in(missiles: Option<MissileTypes>) -> Seq<MissileTemplate> {
    match missiles {
        Some(missiles) => missiles.missile_template@,
        None => Seq::empty(),
    }
}

/// The craft of a fleet, none where it has no container for them.
pub open spec fn crafts_in(crafts: Option<CraftTypes>) -> Seq<CraftTemplate> {
    match crafts {
        Some(crafts) => crafts.craft_template@,
        None => Seq::empty(),
    }
}

/// The ships of a fleet, none where it has no container for them.
pub open spec fn ships_in(ships: Option<Ships>) -> Seq<Ship> {
    match ships {
        Some(ships) => ships.ship@,
        None => Seq::empty(),
    }
}

/// Whether there is a name for each missile, each craft and each ship.
pub open spec fn names_fit(fleet: Fleet, names: ScrambleNames) -> bool {
    &&& names.missiles.len() == missiles_in(fleet.missile_types).len()
    &&& names.crafts.len() == crafts_in(fleet.craft_types).len()
    &&& names.ships.len() == ships_in(fleet.ships).len()
}

/// Whether `new` is the fleet `old` scrambled with `names`: each missile,
/// craft and ship under its new name, the fleet under its old name with
/// underscores for spaces, `_SCRAMBLED_` and the name for its end, and every
/// key that named a missile or a craft of the fleet rewritten.
pub open spec fn is_scramble_of(old: Fleet, new: Fleet, names: ScrambleNames) -> bool {
    let missiles = missile_dict(missiles_in(old.missile_types), names.missiles@);
    let crafts = craft_dict(crafts_in(old.craft_types), names.crafts@);
    &&& new == (Fleet {
        name: new.name,
        missile_types: new.missile_types,
        craft_types: new.craft_types,
        ships: new.ships,
        ..old
    })
    &&& new.name@ == underscored(old.name@) + "_SCRAMBLED_"@ + names.fleet@
    &&& match old.missile_types {
        Some(own) => {
            &&& new.missile_types matches Some(scrambled)
            &&& scrambled.text == own.text
            &&& scrambled.missile_template.len() == own.missile_template.len()
            &&& forall|i: int|
                0 <= i < own.missile_template.len() ==> scrambled_missile(
                    #[trigger] own.missile_template[i],
                    scrambled.missile_template[i],
                    names.missiles[i]@,
                )
        },
        None => new.missile_types is None,
    }
    &&& match old.craft_types {
        Some(own) => {
            &&& new.craft_types matches Some(scrambled)
            &&& scrambled.text == own.text
            &&& scrambled.craft_template.len() == own.craft_template.len()
            &&& forall|i: int|
                0 <= i < own.craft_template.len() ==> scrambled_craft(
                    #[trigger] own.craft_template[i],
                    scrambled.craft_template[i],
                    names.crafts[i]@,
                    missiles,
                )
        },
        None => new.craft_types is None,
    }
    &&& match old.ships {
        Some(own) => {
            &&& new.ships matches Some(scrambled)
            &&& scrambled.text == own.text
            &&& scrambled.ship.len() == own.ship.len()
            &&& forall|i: int|
                0 <= i < own.ship.len() ==> scrambled_ship(
                    #[trigger] own.ship[i],
                    scrambled.ship[i],
                    names.ships[i]@,
                    missiles,
                    crafts,
                )
        },
        None => new.ships is None,
    }
}

/// The error for names that do not fit a fleet.
pub open spec fn names_do_not_fit() -> ErrorView {
    ErrorView {
        kind: ErrorKind::Validation,
        title: "Names do not fit the fleet"@,
        error: "There must be one name for each missile, craft and ship"@,
    }
}

/// The error for a craft whose frame is unknown.
pub open spec fn unknown_craft(frame_key: Seq<char>) -> ErrorView {
    ErrorView { kind: ErrorKind::NotFound, title: "Unknown craft type"@, error: frame_key }
}

/// What scrambling a fleet with `names` returns: the scrambled fleet, or an
/// error where the names do not fit the fleet or the frame of a craft is
/// unknown.
pub open spec fn scramble_result(result: Result<Fleet, Error>, fleet: Fleet, names: ScrambleNames) -> bool {
    let crafts = crafts_in(fleet.craft_types);
    if !names_fit(fleet, names) {
        result matches Err(e) && e@ == names_do_not_fit()
    } else if first_unknown_frame(crafts) < crafts.len() {
        result matches Err(e) && e@ == unknown_craft(
            crafts[first_unknown_frame(crafts)].frame_key@,
        )
    } else {
        result matches Ok(new) && is_scramble_of(fleet, new, names)
    }
}

/// Scrambles a fleet with the names given.
pub fn scramble_fleet(fleet: Fleet, names: &ScrambleNames) -> (result: Result<Fleet, Error>)
    ensures
        scramble_result(result, fleet, *names),
{
    let missile_count = match &fleet.missile_types {
        Some(own) => own.missile_template.len(),
        None => 0,
    };
    let craft_count = match &fleet.craft_types {
        Some(own) => own.craft_template.len(),
        None => 0,
    };
    let ship_count = match &fleet.ships {
        Some(own) => own.ship.len(),
        None => 0,
    };
    if names.missiles.len() != missile_count || names.crafts.len() != craft_count
        || names.ships.len() != ship_count {
        return Err(
            Error::new(
                ErrorKind::Validation,
                "Names do not fit the fleet",
                "There must be one name for each missile, craft and ship",
            ),
        );
    }
    let missiles = match &fleet.missile_types {
        Some(own) => missile_dictionary(&own.missile_template, &names.missiles),
        None => {
            let dict = Dictionary::new();
            proof {
                assert(dict@ =~= missile_dict(Seq::empty(), names.missiles@));
            }
            dict
        },
    };
    let crafts = match &fleet.craft_types {
        Some(own) => match craft_dictionary(&own.craft_template, &names.crafts) {
            Ok(dict) => dict,
            Err(place) => {
                let mut e = Error::new(ErrorKind::NotFound, "Unknown craft type", "");
                e.error = own.craft_template[place].frame_key.clone();
                return Err(e);
            },
        },
        None => {
            let dict = Dictionary::new();
            proof {
                assert(dict@ =~= craft_dict(Seq::empty(), names.crafts@));
            }
            dict
        },
    };
    let rewrites = Rewrites { missiles, crafts };
    let missile_types = match fleet.missile_types {
        Some(own) => Some(
            MissileTypes {
                text: own.text,
                missile_template: map_named_in(
                    own.missile_template,
                    &names.missiles,
                    &rewrites,
                    scramble_missile_in,
                ),
            },
        ),
        None => None,
    };
    let craft_types = match fleet.craft_types {
        Some(own) => Some(
            CraftTypes {
                text: own.text,
                craft_template: map_named_in(
                    own.craft_template,
                    &names.crafts,
                    &rewrites,
                    scramble_craft_in,
                ),
            },
        ),
        None => None,
    };
    let ships = match fleet.ships {
        Some(own) => Some(
            Ships {
                text: own.text,
                ship: map_named_in(own.ship, &names.ships, &rewrites, scramble_ship),
            },
        ),
        None => None,
    };
    let mut name = underscored_text(fleet.name.as_str());
    name.append("_SCRAMBLED_");
    name.append(names.fleet.as_str());
    Ok(
        Fleet {
            xmlns_xsd: fleet.xmlns_xsd,
            xmlns_xsi: fleet.xmlns_xsi,
            text: fleet.text,
            mod_dependencies: fleet.mod_dependencies,
            description: fleet.description,
            craft_types,
            missile_types,
            name,
            version: fleet.version,
            total_points: fleet.total_points,
            faction_key: fleet.faction_key,
            sort_override_order: fleet.sort_override_order,
            ships,
        },
    )
}

/// The missile with another nickname; the rewrites play no part in it.
fn scramble_missile_in(missile: MissileTemplate, name: &String, rewrites: &Rewrites) -> (new:
    MissileTemplate)
    ensures
        scrambled_missile(missile, new, name@),
{
    scramble_missile(missile, name)
}

/// The craft with another nickname and the missile keys of its loadouts
/// rewritten.
fn scramble_craft_in(craft: CraftTemplate, name: &String, rewrites: &Rewrites) -> (new:
    CraftTemplate)
    ensures
        scrambled_craft(craft, new, name@, rewrites.missiles@),
{
    scramble_craft(craft, name, &rewrites.missiles)
}

/// Whether a name is one that the scrambler draws: a number of 32 bits in
/// upper-case hexadecimal digits.
pub open spec fn is_drawn_name(name: Seq<char>) -> bool {
    exists|n: u32| name == hexadecimal(n as nat)
}

/// Whether every name is one that the scrambler draws.
pub open spec fn all_drawn(names: Seq<String>) -> bool {
    forall|i: int| 0 <= i < names.len() ==> is_drawn_name(#[trigger] names[i]@)
}

/// A name drawn at random.
fn draw_name() -> (name: String)
    ensures
        is_drawn_name(name@),
{
    let n = random_u32();
    hexadecimal_text(n)
}

/// As many names drawn at random as asked for.
fn draw_names(count: usize) -> (names: Vec<String>)
    ensures
        names.len() == count,
        all_drawn(names@),
{
    let mut names: Vec<String> = Vec::new();
    while names.len() < count
        invariant
            names.len() <= count,
            all_drawn(names@),
        decreases count - names.len(),
    {
        names.push(draw_name());
    }
    names
}

/// Scrambles a fleet with names drawn at random: whatever is drawn, the
/// result is the fleet scrambled with names that fit it, each a number in
/// hexadecimal digits. Fails where the frame of a craft is unknown.
pub fn scramble_fleet_file(fleet: Fleet) -> (result: Result<Fleet, Error>)
    ensures
        match result {
            Ok(new) => exists|names: ScrambleNames|
                {
                    &&& names_fit(fleet, names)
                    &&& all_drawn(names.missiles@)
                    &&& all_drawn(names.crafts@)
                    &&& all_drawn(names.ships@)
                    &&& is_drawn_name(names.fleet@)
                    &&& #[trigger] is_scramble_of(fleet, new, names)
                },
            Err(e) => {
                let crafts = crafts_in(fleet.craft_types);
                &&& first_unknown_frame(crafts) < crafts.len()
                &&& e@ == unknown_craft(crafts[first_unknown_frame(crafts)].frame_key@)
            },
        },
{
    let missile_count = match &fleet.missile_types {
        Some(own) => own.missile_template.len(),
        None => 0,
    };
    let craft_count = match &fleet.craft_types {
        Some(own) => own.craft_template.len(),
        None => 0,
    };
    let ship_count = match &fleet.ships {
        Some(own) => own.ship.len(),
        None => 0,
    };
    let missiles = draw_names(missile_count);
    let crafts = draw_names(craft_count);
    let end = draw_name();
    let ships = draw_names(ship_count);
    let names = ScrambleNames { missiles, crafts, fleet: end, ships };
    scramble_fleet(fleet, &names)
}

} // verus!
