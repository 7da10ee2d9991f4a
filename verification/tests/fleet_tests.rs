use nebtools::error::{Error, ErrorKind};
use nebtools::fleet_data::{ship_list, FleetData, ShipData};
use nebtools::fleet_edit::{
    bridge_index, bridge_key, get_ln_editable_hull_params, hull_family, read_dressings,
    segment_index, segment_key, set_bridge_type_and_anchor, set_ln_bow_type, set_ln_core_type,
    set_ln_hull_config, set_ln_stern_type, write_dressings, EditableHullParams, HullFamily,
    SegmentPosition,
};
use nebtools::liner_hull_config::{
    check_hull_params, dressing_options, is_marauder_config_allowed, is_moorline_config_allowed,
    DressingSelections, LinerHullConfig,
};
use nebtools::merge::{merge_fleets, merge_loaded};
use nebtools::missile_templates::cache::{FleetsUsedMissiles, UsedMissilesCache};
use nebtools::missile_templates::identity::{MissileData, MissileTemplateId};
use nebtools::missile_templates::load_missiles::{load_missiles, missile_data, MissileFile};
use nebtools::missile_templates::update_fleets::{
    find_missile, munition_key_of, update_fleet_missile,
};
use nebtools::schema::{
    BaseColor, ComponentData, Dressing, Fleet, HullConfig, HullSocket, MissileLoad,
    MissileLoadMagSaveData, MissileTemplate, MissileTypes, PrimaryStructure, SaveId,
    SecondaryStructure, SecondaryStructureConfig, SegmentConfiguration, Ship,
    ShipTemplateMissileTypes, Ships, SocketMap, Sockets, SortOverrideOrder, StripeColor,
    WeaponGroups,
};

const BULK_BOW_A: &str = "38e7a28f-1b06-4b73-98ee-f03d1d8a81fe";
const BULK_BOW_C: &str = "c534a876-3f8a-4315-a194-5dda0f84c2b3";
const BULK_CORE_B: &str = "e2c11e02-b770-495e-a3c2-3dc998eac5a6";
const BULK_STERN_C: &str = "a8bf77b9-b7e3-4498-bf91-d3e777a7f688";
const CONTAINER_BOW_B: &str = "541cf476-4952-4234-a35a-5f1aa9089316";
const CONTAINER_CORE_A: &str = "18a6bc15-58b0-479c-82c3-1722768f033d";
const CONTAINER_STERN_A: &str = "674e0528-3e0c-48e4-8e5e-d3a559869104";
const BRIDGE_B: &str = "c9d04445-3558-46b4-b6fc-7dca8617d438";
const BRIDGE_D: &str = "59344a67-9e7b-43df-9f7c-505ad9a0ab87";

fn missile(template: Option<&str>, designation: &str, nickname: &str) -> MissileTemplate {
    MissileTemplate {
        text: None,
        associated_template_name: template.map(|t| t.to_string()),
        designation: designation.to_string(),
        nickname: nickname.to_string(),
        description: String::new(),
        long_description: String::new(),
        cost: "12".to_string(),
        body_key: "Stock/SGM-2 Body".to_string(),
        template_key: "key".to_string(),
        base_color: BaseColor {
            text: None,
            r: "0".to_string(),
            g: "0".to_string(),
            b: "0".to_string(),
            a: "1".to_string(),
        },
        stripe_color: StripeColor {
            text: None,
            r: "1".to_string(),
            g: "1".to_string(),
            b: "1".to_string(),
            a: "1".to_string(),
        },
        sockets: Sockets { text: None, missile_socket: Vec::new() },
    }
}

fn launcher(kind: &str, munitions: &[&str]) -> HullSocket {
    HullSocket {
        text: None,
        component_data: Some(ComponentData {
            xsi_type: Some(kind.to_string()),
            component_data_type: None,
            text: None,
            identity_option: None,
            configured_size: None,
            stored_craft: None,
            fire_outside_limits: None,
            missile_load: Some(MissileLoad {
                text: None,
                mag_save_data: munitions
                    .iter()
                    .map(|m| MissileLoadMagSaveData {
                        text: None,
                        magazine_key: "mag".to_string(),
                        munition_key: m.to_string(),
                        quantity: "4".to_string(),
                    })
                    .collect(),
            }),
            load: None,
        }),
        key: "socket".to_string(),
        component_name: "Stock/VLS-2 Launcher".to_string(),
    }
}

fn ship(name: &str, hull_type: &str) -> Ship {
    Ship {
        text: None,
        hull_config: None,
        template_spacecraft_types: None,
        callsign: None,
        save_id: SaveId { xsi_nil: Some("true".to_string()), nil: None },
        key: format!("key-{}", name),
        name: name.to_string(),
        cost: "100".to_string(),
        number: "1".to_string(),
        symbol_option: "0".to_string(),
        hull_type: hull_type.to_string(),
        socket_map: SocketMap { text: None, hull_socket: Vec::new() },
        weapon_groups: WeaponGroups { text: None, wep_group: Vec::new() },
        template_missile_types: ShipTemplateMissileTypes {},
        initial_formation: None,
    }
}

fn segment(key: &str, dressings: &[&str]) -> SegmentConfiguration {
    SegmentConfiguration {
        text: None,
        key: key.to_string(),
        dressing: Dressing { text: None, int: dressings.iter().map(|d| d.to_string()).collect() },
    }
}

fn liner(name: &str, hull_type: &str, segments: Vec<SegmentConfiguration>, bridge: &str, on: &str) -> Ship {
    let mut s = ship(name, hull_type);
    s.hull_config = Some(HullConfig {
        xsi_type: Some("RandomHullConfiguration".to_string()),
        text: None,
        texture_variation: None,
        hull_tint: None,
        secondary_structure: Some(SecondaryStructure {
            text: None,
            secondary_structure_config: SecondaryStructureConfig {
                text: None,
                key: bridge.to_string(),
                segment: on.to_string(),
                snap_point: "3".to_string(),
            },
        }),
        primary_structure: Some(PrimaryStructure { text: None, segment_configuration: segments }),
    });
    s
}

fn fleet(name: &str, ships: Option<Vec<Ship>>, missiles: Option<Vec<MissileTemplate>>) -> Fleet {
    Fleet {
        xmlns_xsd: "http://www.w3.org/2001/XMLSchema".to_string(),
        xmlns_xsi: "http://www.w3.org/2001/XMLSchema-instance".to_string(),
        text: None,
        mod_dependencies: None,
        description: Some(format!("The fleet {}", name)),
        craft_types: None,
        missile_types: missiles.map(|m| MissileTypes { text: None, missile_template: m }),
        name: name.to_string(),
        version: "3".to_string(),
        total_points: "3000".to_string(),
        faction_key: "Stock/Alliance".to_string(),
        sort_override_order: SortOverrideOrder { xsi_nil: Some("true".to_string()), nil: None, text: None },
        ships: ships.map(|s| Ships { text: None, ship: s }),
    }
}

fn names(ships: &Option<Ships>) -> Vec<String> {
    ships.as_ref().map(|s| s.ship.iter().map(|x| x.name.clone()).collect()).unwrap_or_default()
}

fn nicknames(missiles: &Option<MissileTypes>) -> Vec<String> {
    missiles
        .as_ref()
        .map(|m| m.missile_template.iter().map(|x| x.nickname.clone()).collect())
        .unwrap_or_default()
}

fn three_fleets() -> (Fleet, Fleet, Fleet) {
    let a = fleet(
        "A",
        Some(vec![ship("a1", "Stock/Sprinter Corvette"), ship("a2", "Stock/Raines Frigate")]),
        Some(vec![missile(None, "SGM-1", "Alpha")]),
    );
    let b = fleet("B", Some(vec![ship("b1", "Stock/Keystone Destroyer")]), None);
    let c = fleet(
        "C",
        Some(vec![ship("c1", "Stock/Bulk Hauler"), ship("c2", "Stock/Tugboat")]),
        Some(vec![missile(None, "SGM-2", "Gamma"), missile(Some("Shared"), "SGT-3", "Delta")]),
    );
    (a, b, c)
}

#[test]
fn merge_concatenates_ships_and_missiles_in_order() {
    let (a, b, c) = three_fleets();
    let merged = merge_fleets("Combined", vec![Ok(a.clone()), Ok(b), Ok(c)]).unwrap();
    assert_eq!(merged.name, "Combined");
    assert_eq!(names(&merged.ships), vec!["a1", "a2", "b1", "c1", "c2"]);
    assert_eq!(nicknames(&merged.missile_types), vec!["Alpha", "Gamma", "Delta"]);
    assert_eq!(merged.description, a.description);
    assert_eq!(merged.faction_key, a.faction_key);
    assert_eq!(merged.total_points, a.total_points);
    assert_eq!(merged.version, a.version);
}

#[test]
fn merge_keeps_whole_ships() {
    let (a, b, c) = three_fleets();
    let merged = merge_loaded("M".to_string(), a.clone(), vec![b.clone(), c.clone()]);
    let ships = merged.ships.unwrap().ship;
    assert_eq!(ships[0], a.ships.as_ref().unwrap().ship[0]);
    assert_eq!(ships[2], b.ships.as_ref().unwrap().ship[0]);
    assert_eq!(ships[4], c.ships.as_ref().unwrap().ship[1]);
}

#[test]
fn merge_of_one_fleet_renames_it() {
    let (a, _, _) = three_fleets();
    let merged = merge_fleets("Solo", vec![Ok(a.clone())]).unwrap();
    assert_eq!(merged.name, "Solo");
    assert_eq!(merged.ships, a.ships);
    assert_eq!(merged.missile_types, a.missile_types);
}

#[test]
fn merge_trims_the_name() {
    let (a, b, _) = three_fleets();
    let merged = merge_fleets("  Two words \n", vec![Ok(a), Ok(b)]).unwrap();
    assert_eq!(merged.name, "Two words");
}

#[test]
fn merge_refuses_a_blank_name() {
    let (a, _, _) = three_fleets();
    let e = merge_fleets("", vec![Ok(a.clone())]).unwrap_err();
    assert_eq!(e.kind, ErrorKind::Validation);
    assert_eq!(e.title, "No merge output name");
    assert_eq!(e.error, "You must set an output name for the merged fleets");
    let e = merge_fleets(" \t\u{a0}\u{3000}", vec![Ok(a)]).unwrap_err();
    assert_eq!(e.kind, ErrorKind::Validation);
}

#[test]
fn merge_refuses_an_empty_selection() {
    let e = merge_fleets("X", Vec::new()).unwrap_err();
    assert_eq!(e.kind, ErrorKind::Validation);
    assert_eq!(e.title, "No fleets selected");
    assert_eq!(e.message(), "No fleets selected: You must select at least one fleet to merge");
}

#[test]
fn merge_fails_on_an_unreadable_secondary() {
    let (a, b, _) = three_fleets();
    let broken = Error::new(ErrorKind::Parse, "Failed to parse fleet file", "missing field `Name`");
    let other = Error::new(ErrorKind::Io, "Failed to open fleet file", "not found");
    let e = merge_fleets("X", vec![Err(other), Ok(b), Err(broken)]).unwrap_err();
    assert_eq!(e.kind, ErrorKind::Parse);
    assert_eq!(e.title, "One or more fleets could not be read");
    assert_eq!(e.error, "Failed to parse fleet file: missing field `Name`");
    let other = Error::new(ErrorKind::Io, "Failed to open fleet file", "not found");
    let e = merge_fleets("X", vec![Err(other), Ok(a)]).unwrap_err();
    assert_eq!(e.kind, ErrorKind::Io);
    assert_eq!(e.error, "Failed to open fleet file: not found");
}

#[test]
fn merge_creates_the_missile_container() {
    let (_, b, c) = three_fleets();
    assert!(b.missile_types.is_none());
    let merged = merge_fleets("X", vec![Ok(b), Ok(c)]).unwrap();
    assert_eq!(nicknames(&merged.missile_types), vec!["Gamma", "Delta"]);
    let lonely = fleet("L", Some(Vec::new()), None);
    let merged = merge_fleets("X", vec![Ok(lonely)]).unwrap();
    assert_eq!(merged.missile_types, Some(MissileTypes { text: None, missile_template: Vec::new() }));
}

#[test]
fn merge_into_a_primary_without_ships_loses_none() {
    let (_, b, c) = three_fleets();
    let bare = fleet("Bare", None, None);
    let merged = merge_fleets("X", vec![Ok(bare), Ok(b), Ok(c)]).unwrap();
    assert_eq!(names(&merged.ships), vec!["b1", "c1", "c2"]);
    assert_eq!(merged.ships.as_ref().unwrap().text, None);
    assert_eq!(nicknames(&merged.missile_types), vec!["Gamma", "Delta"]);
    let empty = fleet("Empty", Some(Vec::new()), None);
    let (_, b, _) = three_fleets();
    let merged = merge_fleets("X", vec![Ok(empty), Ok(b)]).unwrap();
    assert_eq!(names(&merged.ships), vec!["b1"]);
}

#[test]
fn merge_of_fleets_without_ships_has_no_container() {
    let merged = merge_fleets("X", vec![Ok(fleet("A", None, None)), Ok(fleet("B", None, None))]).unwrap();
    assert_eq!(merged.ships, None);
    let merged =
        merge_fleets("X", vec![Ok(fleet("A", None, None)), Ok(fleet("B", Some(Vec::new()), None))]).unwrap();
    assert_eq!(merged.ships, None);
    let merged =
        merge_fleets("X", vec![Ok(fleet("A", Some(Vec::new()), None)), Ok(fleet("B", None, None))]).unwrap();
    assert_eq!(merged.ships, Some(Ships { text: None, ship: Vec::new() }));
}

#[test]
fn identities_with_the_same_template_name_are_equal() {
    let a = MissileTemplateId::from_missile(&missile(Some("Shared"), "SGM-1", "One"));
    let b = MissileTemplateId::from_missile(&missile(Some("Shared"), "SGT-3", "Two"));
    assert!(a == b);
    assert!(b == a);
}

#[test]
fn identities_without_template_name_go_by_designation_and_nickname() {
    let a = MissileTemplateId::from_missile(&missile(None, "SGM-1", "One"));
    let b = MissileTemplateId::from_missile(&missile(None, "SGM-1", "One"));
    let c = MissileTemplateId::from_missile(&missile(None, "SGM-1", "Two"));
    let d = MissileTemplateId::from_missile(&missile(None, "SGM-2", "One"));
    assert!(a == b);
    assert!(a != c);
    assert!(a != d);
    let e = MissileTemplateId::from_missile(&missile(None, "SGM-1 One", "Two"));
    let f = MissileTemplateId::from_missile(&missile(None, "SGM-1", "One Two"));
    assert!(e != f);
}

#[test]
fn identities_with_different_template_names_fall_back() {
    let a = MissileTemplateId::from_missile(&missile(Some("X"), "SGM-1", "One"));
    let b = MissileTemplateId::from_missile(&missile(Some("Y"), "SGM-1", "One"));
    let c = MissileTemplateId::from_missile(&missile(Some("Y"), "SGM-1", "Two"));
    let d = MissileTemplateId::from_missile(&missile(None, "SGM-1", "One"));
    assert!(a == b);
    assert!(a != c);
    assert!(a == d);
    assert!(d == a);
}

#[test]
fn identity_of_a_listed_missile_matches_that_of_the_document() {
    let m = missile(Some("Shared"), "SGM-1", "One");
    let listed = missile_data(MissileFile { path: "a.missile".to_string(), missile: Ok(m.clone()) }).unwrap();
    assert!(MissileTemplateId::from_missile(&m) == MissileTemplateId::from_missile_data(&listed));
    let m = missile(None, "SGM-1", "One");
    let listed = missile_data(MissileFile { path: "b.missile".to_string(), missile: Ok(m.clone()) }).unwrap();
    assert_eq!(listed.template_name, "");
    let id = MissileTemplateId::from_missile_data(&listed);
    assert_eq!(id.template_name, None);
    assert!(MissileTemplateId::from_missile(&m) == id);
}

#[test]
fn identity_label_prefers_the_template_name() {
    assert_eq!(MissileTemplateId::from_missile(&missile(Some("Shared"), "SGM-1", "One")).label(), "Shared");
    assert_eq!(MissileTemplateId::from_missile(&missile(None, "SGM-1", "One")).label(), "SGM-1 One");
}

#[test]
fn load_missiles_lists_each_file() {
    let mut costly = missile(Some("Shared"), "SGT-3", "Two");
    costly.cost = "-7".to_string();
    let files = vec![
        MissileFile { path: "dir/one.missile".to_string(), missile: Ok(missile(None, "SGM-1", "One")) },
        MissileFile { path: "dir/two.missile".to_string(), missile: Ok(costly) },
    ];
    let listed = load_missiles(files).unwrap();
    assert_eq!(
        listed,
        vec![
            MissileData {
                template_name: String::new(),
                designation: "SGM-1".to_string(),
                nickname: "One".to_string(),
                path: "dir/one.missile".to_string(),
                cost: 12,
                selected: false,
            },
            MissileData {
                template_name: "Shared".to_string(),
                designation: "SGT-3".to_string(),
                nickname: "Two".to_string(),
                path: "dir/two.missile".to_string(),
                cost: -7,
                selected: false,
            },
        ]
    );
    assert_eq!(load_missiles(Vec::new()).unwrap(), Vec::new());
}

#[test]
fn load_missiles_fails_on_the_first_bad_file() {
    let mut bad_cost = missile(None, "SGM-1", "One");
    bad_cost.cost = "1.5".to_string();
    let unreadable = Error::new(ErrorKind::Io, "Failed to open missile file", "denied");
    let files = vec![
        MissileFile { path: "a.missile".to_string(), missile: Ok(missile(None, "SGM-1", "Zero")) },
        MissileFile { path: "b.missile".to_string(), missile: Ok(bad_cost) },
        MissileFile { path: "c.missile".to_string(), missile: Err(unreadable) },
    ];
    let e = load_missiles(files).unwrap_err();
    assert_eq!(e.kind, ErrorKind::Parse);
    assert_eq!(e.title, "Invalid missile file");
    assert_eq!(e.error, "Failed to parse cost");
    let unreadable = Error::new(ErrorKind::Io, "Failed to open missile file", "denied");
    let e = load_missiles(vec![MissileFile { path: "c.missile".to_string(), missile: Err(unreadable) }]).unwrap_err();
    assert_eq!(e.kind, ErrorKind::Io);
    assert_eq!(e.message(), "Failed to open missile file: denied");
}

#[test]
fn cache_entry_lists_the_missiles_of_a_fleet() {
    let (_, b, c) = three_fleets();
    let entry = FleetsUsedMissiles::from_fleet(7, &c);
    assert_eq!(entry.name, "C");
    assert_eq!(entry.hash, 7);
    assert_eq!(entry.used_missiles.len(), 2);
    assert!(entry.used_missiles[0] == MissileTemplateId::from_missile(&missile(None, "SGM-2", "Gamma")));
    assert!(entry.uses(&MissileTemplateId::from_missile(&missile(Some("Shared"), "x", "y"))));
    assert!(!entry.uses(&MissileTemplateId::from_missile(&missile(None, "SGM-1", "Alpha"))));
    let entry = FleetsUsedMissiles::from_fleet(1, &b);
    assert_eq!(entry.used_missiles.len(), 0);
}

#[test]
fn cache_entry_hashes_the_content() {
    let (a, _, _) = three_fleets();
    let one = FleetsUsedMissiles::from_fleet_file(b"<Fleet>one</Fleet>", &a);
    let same = FleetsUsedMissiles::from_fleet_file(b"<Fleet>one</Fleet>", &a);
    let other = FleetsUsedMissiles::from_fleet_file(b"<Fleet>two</Fleet>", &a);
    assert_eq!(one.hash, same.hash);
    assert_ne!(one.hash, other.hash);
    assert_eq!(one.name, "A");
}

#[test]
fn cache_skips_an_unchanged_file() {
    let (a, _, c) = three_fleets();
    let mut cache = UsedMissilesCache::new();
    let (stale, hash) = cache.check_file("fleets/a.fleet", b"content of a");
    assert!(stale);
    cache.store("fleets/a.fleet".to_string(), hash, &a);
    let (stale, again) = cache.check_file("fleets/a.fleet", b"content of a");
    assert!(!stale);
    assert_eq!(hash, again);
    let (stale, changed) = cache.check_file("fleets/a.fleet", b"content of a, touched");
    assert!(stale);
    assert_ne!(hash, changed);
    cache.store("fleets/a.fleet".to_string(), changed, &c);
    assert_eq!(cache.len(), 1);
    assert_eq!(cache.get("fleets/a.fleet").unwrap().name, "C");
    assert_eq!(cache.get("fleets/a.fleet").unwrap().used_missiles.len(), 2);
    assert!(!cache.needs_scan("fleets/a.fleet", changed));
    assert!(cache.needs_scan("fleets/a.fleet", hash));
    assert!(cache.needs_scan("fleets/other.fleet", changed));
}

#[test]
fn cache_forgets_missing_files() {
    let (a, b, c) = three_fleets();
    let mut cache = UsedMissilesCache::new();
    cache.store("a.fleet".to_string(), 1, &a);
    cache.store("b.fleet".to_string(), 2, &b);
    cache.store("c.fleet".to_string(), 3, &c);
    let mut paths = cache.paths();
    paths.sort();
    assert_eq!(paths, vec!["a.fleet", "b.fleet", "c.fleet"]);
    cache.purge(&vec!["b.fleet".to_string(), "z.fleet".to_string()]);
    let mut paths = cache.paths();
    paths.sort();
    assert_eq!(paths, vec!["a.fleet", "c.fleet"]);
    assert!(cache.get("b.fleet").is_none());
    assert_eq!(cache.get("c.fleet").unwrap().hash, 3);
    assert!(cache.remove("a.fleet"));
    assert!(!cache.remove("a.fleet"));
    assert_eq!(cache.len(), 1);
}

#[test]
fn cache_tells_which_fleets_use_a_missile() {
    let a = fleet("A", Some(Vec::new()), Some(vec![missile(Some("Shared"), "SGM-1", "One")]));
    let b = fleet("B", Some(Vec::new()), Some(vec![missile(None, "SGM-2", "Other")]));
    let c = fleet(
        "C",
        Some(Vec::new()),
        Some(vec![missile(None, "SGM-2", "Other"), missile(Some("Shared"), "SGM-1", "Renamed")]),
    );
    let mut cache = UsedMissilesCache::new();
    cache.store("a.fleet".to_string(), 1, &a);
    cache.store("b.fleet".to_string(), 2, &b);
    cache.store("c.fleet".to_string(), 3, &c);
    let listed = MissileData {
        template_name: "Shared".to_string(),
        designation: "SGM-1".to_string(),
        nickname: "One".to_string(),
        path: "one.missile".to_string(),
        cost: 1,
        selected: true,
    };
    let mut using = cache.fleets_using(&MissileTemplateId::from_missile_data(&listed));
    using.sort();
    assert_eq!(using, vec!["a.fleet", "c.fleet"]);
    let nobody = MissileTemplateId::from_missile(&missile(None, "X", "Y"));
    assert_eq!(cache.fleets_using(&nobody), Vec::<String>::new());
}

#[test]
fn update_replaces_the_template_in_fleets_that_use_it() {
    let shared = MissileTemplateId::from_missile(&missile(Some("Shared"), "SGM-1", "One"));
    let mut edited = missile(Some("Shared"), "SGM-1", "Edited");
    edited.cost = "99".to_string();
    let a = fleet("A", Some(Vec::new()), Some(vec![missile(Some("Shared"), "SGM-1", "One")]));
    let b = fleet("B", Some(Vec::new()), Some(vec![missile(None, "SGM-2", "Other")]));
    let c = fleet(
        "C",
        Some(Vec::new()),
        Some(vec![missile(None, "SGM-2", "Other"), missile(Some("Shared"), "SGM-1", "Renamed")]),
    );
    let updated = update_fleet_missile(a.clone(), &shared, edited.clone(), false).unwrap();
    assert_eq!(updated.missile_types.as_ref().unwrap().missile_template, vec![edited.clone()]);
    assert_eq!(updated.ships, a.ships);
    assert_eq!(updated.name, a.name);
    let updated = update_fleet_missile(c.clone(), &shared, edited.clone(), false).unwrap();
    let missiles = &updated.missile_types.as_ref().unwrap().missile_template;
    assert_eq!(missiles[0], c.missile_types.as_ref().unwrap().missile_template[0]);
    assert_eq!(missiles[1], edited);
    let e = update_fleet_missile(b, &shared, edited.clone(), false).unwrap_err();
    assert_eq!(e.kind, ErrorKind::NotFound);
    assert_eq!(e.title, "Missile not found in fleet");
    let e = update_fleet_missile(fleet("D", None, None), &shared, edited, true).unwrap_err();
    assert_eq!(e.kind, ErrorKind::NotFound);
    assert_eq!(e.title, "Updating fleet with no missiles");
}

#[test]
fn update_replaces_only_the_first_match() {
    let id = MissileTemplateId::from_missile(&missile(None, "SGM-1", "One"));
    let f = fleet(
        "F",
        None,
        Some(vec![missile(None, "SGM-9", "Nine"), missile(None, "SGM-1", "One"), missile(None, "SGM-1", "One")]),
    );
    assert_eq!(find_missile(&f.missile_types.as_ref().unwrap().missile_template, &id), Some(1));
    let updated = update_fleet_missile(f, &id, missile(None, "SGM-1", "New"), false).unwrap();
    assert_eq!(nicknames(&updated.missile_types), vec!["Nine", "New", "One"]);
}

#[test]
fn update_rewrites_munition_keys_on_request() {
    assert_eq!(munition_key_of("SGM-1", "One"), "$MODMIS$/SGM-1 One");
    let id = MissileTemplateId::from_missile(&missile(None, "SGM-1", "One"));
    let mut armed = ship("armed", "Stock/Keystone Destroyer");
    armed.socket_map.hull_socket = vec![
        launcher("CellLauncherData", &["$MODMIS$/SGM-1 One", "Stock/SGM-2 Missile"]),
        HullSocket { text: None, component_data: None, key: "empty".to_string(), component_name: "x".to_string() },
        launcher("BulkMagazineData", &["$MODMIS$/SGM-1 One"]),
        launcher("TurretData", &["$MODMIS$/SGM-1 One"]),
    ];
    let f = fleet("F", Some(vec![ship("plain", "Stock/Tugboat"), armed]), Some(vec![missile(None, "SGM-1", "One")]));
    let renamed = missile(None, "SGM-1", "Two");
    let kept = update_fleet_missile(f.clone(), &id, renamed.clone(), false).unwrap();
    assert_eq!(kept.ships, f.ships);
    let updated = update_fleet_missile(f.clone(), &id, renamed, true).unwrap();
    let ships = updated.ships.unwrap().ship;
    assert_eq!(ships[0], f.ships.as_ref().unwrap().ship[0]);
    let keys = |socket: &HullSocket| -> Vec<String> {
        socket
            .component_data
            .as_ref()
            .unwrap()
            .missile_load
            .as_ref()
            .unwrap()
            .mag_save_data
            .iter()
            .map(|m| m.munition_key.clone())
            .collect()
    };
    let sockets = &ships[1].socket_map.hull_socket;
    assert_eq!(keys(&sockets[0]), vec!["$MODMIS$/SGM-1 Two", "Stock/SGM-2 Missile"]);
    assert!(sockets[1].component_data.is_none());
    assert_eq!(keys(&sockets[2]), vec!["$MODMIS$/SGM-1 Two"]);
    assert_eq!(keys(&sockets[3]), vec!["$MODMIS$/SGM-1 One"]);
    assert_eq!(ships[1].name, "armed");
}

fn bulk_liner() -> Ship {
    liner(
        "Hauler",
        "Stock/Bulk Hauler",
        vec![segment(BULK_BOW_C, &["1", "0", "2"]), segment(BULK_CORE_B, &[]), segment(BULK_STERN_C, &["1"])],
        BRIDGE_B,
        "1",
    )
}

#[test]
fn hull_family_goes_by_the_hull_type() {
    assert_eq!(hull_family("Stock/Bulk Hauler"), Some(HullFamily::Bulk));
    assert_eq!(hull_family("Stock/Container Hauler"), Some(HullFamily::Container));
    assert_eq!(hull_family("Stock/Container Hauler Refit"), Some(HullFamily::Container));
    assert_eq!(hull_family("Stock/Tugboat"), None);
    assert_eq!(hull_family(""), None);
}

#[test]
fn segment_keys_and_kinds_are_inverse() {
    for family in [HullFamily::Bulk, HullFamily::Container] {
        for position in [SegmentPosition::Bow, SegmentPosition::Core, SegmentPosition::Stern] {
            for kind in 0..3 {
                let key = segment_key(family, position, kind).unwrap();
                assert_eq!(segment_index(family, position, key), Some(kind));
            }
            assert_eq!(segment_key(family, position, 3), None);
            assert_eq!(segment_index(family, position, "no key"), None);
        }
    }
    assert_eq!(segment_key(HullFamily::Bulk, SegmentPosition::Bow, 0), Some(BULK_BOW_A));
    assert_eq!(segment_key(HullFamily::Container, SegmentPosition::Core, 0), Some(CONTAINER_CORE_A));
    assert_eq!(segment_index(HullFamily::Bulk, SegmentPosition::Stern, BULK_STERN_C), Some(2));
    assert_eq!(segment_index(HullFamily::Bulk, SegmentPosition::Bow, CONTAINER_BOW_B), None);
    for kind in 0..4 {
        assert_eq!(bridge_index(bridge_key(kind).unwrap()), Some(kind));
    }
    assert_eq!(bridge_key(3), Some(BRIDGE_D));
    assert_eq!(bridge_key(4), None);
    assert_eq!(bridge_index(BULK_BOW_A), None);
}

#[test]
fn editor_shows_the_hull_of_a_liner() {
    let params = get_ln_editable_hull_params(&bulk_liner()).unwrap();
    assert_eq!(
        params,
        EditableHullParams {
            bow_type: 2,
            core_type: 1,
            stern_type: 2,
            bow_dressings: [1, 0, 2, 0, 0, 0, 0, 0],
            core_dressings: [0; 8],
            superstructure_loc: 1,
            superstructure_type: 1,
        }
    );
    let container = liner(
        "Box",
        "Stock/Container Hauler Refit",
        vec![segment(CONTAINER_BOW_B, &[]), segment(CONTAINER_CORE_A, &["3"]), segment(CONTAINER_STERN_A, &[])],
        BRIDGE_D,
        "2",
    );
    let params = get_ln_editable_hull_params(&container).unwrap();
    assert_eq!((params.bow_type, params.core_type, params.stern_type), (1, 0, 0));
    assert_eq!(params.core_dressings, [3, 0, 0, 0, 0, 0, 0, 0]);
    assert_eq!((params.superstructure_type, params.superstructure_loc), (3, 2));
}

#[test]
fn editor_shows_nothing_for_other_ships() {
    assert_eq!(get_ln_editable_hull_params(&ship("Tug", "Stock/Tugboat")), None);
    assert_eq!(get_ln_editable_hull_params(&ship("Bare", "Stock/Bulk Hauler")), None);
    let mut s = bulk_liner();
    s.hull_type = "Stock/Tugboat".to_string();
    assert_eq!(get_ln_editable_hull_params(&s), None);
    let mut s = bulk_liner();
    s.hull_config.as_mut().unwrap().primary_structure.as_mut().unwrap().segment_configuration.pop();
    assert_eq!(get_ln_editable_hull_params(&s), None);
    let mut s = bulk_liner();
    s.hull_config.as_mut().unwrap().primary_structure.as_mut().unwrap().segment_configuration[1].key =
        CONTAINER_CORE_A.to_string();
    assert_eq!(get_ln_editable_hull_params(&s), None);
    let mut s = bulk_liner();
    s.hull_config.as_mut().unwrap().primary_structure.as_mut().unwrap().segment_configuration[0].dressing.int =
        vec!["x".to_string()];
    assert_eq!(get_ln_editable_hull_params(&s), None);
    let mut s = bulk_liner();
    s.hull_config.as_mut().unwrap().primary_structure.as_mut().unwrap().segment_configuration[0].dressing.int =
        vec!["0".to_string(); 9];
    assert_eq!(get_ln_editable_hull_params(&s), None);
    let mut s = bulk_liner();
    s.hull_config.as_mut().unwrap().secondary_structure.as_mut().unwrap().secondary_structure_config.segment =
        "bow".to_string();
    assert_eq!(get_ln_editable_hull_params(&s), None);
    let mut s = bulk_liner();
    s.hull_config.as_mut().unwrap().secondary_structure = None;
    assert_eq!(get_ln_editable_hull_params(&s), None);
}

#[test]
fn dressings_are_padded_on_read_and_trimmed_on_write() {
    let read = read_dressings(&vec!["2".to_string(), "0".to_string(), "1".to_string()]).unwrap();
    assert_eq!(read, [2, 0, 1, 0, 0, 0, 0, 0]);
    assert_eq!(write_dressings(&read), vec!["2", "0", "1"]);
    assert_eq!(write_dressings(&[0; 8]), Vec::<String>::new());
    assert_eq!(write_dressings(&[0, 0, 0, 0, 0, 0, 0, 255]), vec!["0", "0", "0", "0", "0", "0", "0", "255"]);
    assert_eq!(write_dressings(&[5, 0, 0, 0, 0, 0, 0, 0]), vec!["5"]);
    assert_eq!(read_dressings(&Vec::new()), Some([0; 8]));
    assert_eq!(read_dressings(&vec!["1".to_string(), "0".to_string(), "0".to_string()]), Some([1, 0, 0, 0, 0, 0, 0, 0]));
    assert_eq!(read_dressings(&vec!["256".to_string()]), None);
}

#[test]
fn editor_writes_the_hull_of_a_liner() {
    let mut s = bulk_liner();
    let before = s.clone();
    let params = EditableHullParams {
        bow_type: 0,
        core_type: 2,
        stern_type: 1,
        bow_dressings: [0, 1, 0, 0, 0, 0, 0, 0],
        core_dressings: [3, 0, 0, 0, 0, 0, 0, 0],
        superstructure_loc: 2,
        superstructure_type: 3,
    };
    assert_eq!(set_ln_hull_config(&mut s, params), Some(()));
    let hull = s.hull_config.as_ref().unwrap();
    let segments = &hull.primary_structure.as_ref().unwrap().segment_configuration;
    assert_eq!(segments[0], segment(BULK_BOW_A, &["0", "1"]));
    assert_eq!(segments[1], segment("429f178e-e369-4f51-8054-2e01dd0abea1", &["3"]));
    assert_eq!(segments[2], segment("2f2b451c-4776-405c-9914-cad4764f1072", &["1"]));
    let bridge = &hull.secondary_structure.as_ref().unwrap().secondary_structure_config;
    assert_eq!(bridge.key, BRIDGE_D);
    assert_eq!(bridge.segment, "2");
    assert_eq!(bridge.snap_point, "3");
    assert_eq!(hull.xsi_type, before.hull_config.as_ref().unwrap().xsi_type);
    assert_eq!(s.name, before.name);
    assert_eq!(s.socket_map, before.socket_map);
    assert_eq!(get_ln_editable_hull_params(&s), Some(params));
}

#[test]
fn editor_writes_nothing_it_cannot_write() {
    let params = EditableHullParams::default();
    let mut tug = ship("Tug", "Stock/Tugboat");
    assert_eq!(set_ln_hull_config(&mut tug, params), None);
    assert_eq!(tug, ship("Tug", "Stock/Tugboat"));
    let mut bare = ship("Bare", "Stock/Bulk Hauler");
    assert_eq!(set_ln_hull_config(&mut bare, params), None);
    for bad in [
        EditableHullParams { bow_type: 3, ..params },
        EditableHullParams { core_type: 3, ..params },
        EditableHullParams { stern_type: 7, ..params },
        EditableHullParams { superstructure_type: 4, ..params },
    ] {
        let mut s = bulk_liner();
        assert_eq!(set_ln_hull_config(&mut s, bad), None);
        assert_eq!(s, bulk_liner());
    }
}

#[test]
fn editor_round_trip_keeps_the_keys() {
    for untouched in [
        bulk_liner(),
        liner(
            "Box",
            "Stock/Container Hauler",
            vec![
                segment(CONTAINER_BOW_B, &["0", "0"]),
                segment(CONTAINER_CORE_A, &["3", "0"]),
                segment(CONTAINER_STERN_A, &["9"]),
                segment("extra", &["1"]),
            ],
            BRIDGE_D,
            "002",
        ),
    ] {
        let mut s = untouched.clone();
        let params = get_ln_editable_hull_params(&s).unwrap();
        assert_eq!(set_ln_hull_config(&mut s, params), Some(()));
        let old = untouched.hull_config.as_ref().unwrap();
        let new = s.hull_config.as_ref().unwrap();
        let old_segments = &old.primary_structure.as_ref().unwrap().segment_configuration;
        let new_segments = &new.primary_structure.as_ref().unwrap().segment_configuration;
        assert_eq!(old_segments.len(), new_segments.len());
        for (a, b) in old_segments.iter().zip(new_segments.iter()) {
            assert_eq!(a.key, b.key);
        }
        assert_eq!(
            old.secondary_structure.as_ref().unwrap().secondary_structure_config.key,
            new.secondary_structure.as_ref().unwrap().secondary_structure_config.key
        );
        assert_eq!(get_ln_editable_hull_params(&s), Some(params));
        assert_eq!(new_segments[2].dressing, old_segments[2].dressing);
    }
}

#[test]
fn default_params_are_all_zero() {
    let params = EditableHullParams::default();
    assert_eq!(
        params,
        EditableHullParams {
            bow_type: 0,
            core_type: 0,
            stern_type: 0,
            bow_dressings: [0; 8],
            core_dressings: [0; 8],
            superstructure_loc: 0,
            superstructure_type: 0,
        }
    );
}

fn config(bow: i32, stern: i32, on: i32) -> LinerHullConfig {
    LinerHullConfig {
        segment_bow: bow,
        segment_core: 0,
        segment_stern: stern,
        bridge_model: 0,
        bridge_segment: on,
        bridge_snappoint: 0,
        dressings: DressingSelections { bow: Vec::new(), core: Vec::new() },
    }
}

#[test]
fn marauder_rules() {
    assert_eq!(is_marauder_config_allowed(&config(2, 0, 0)), Some("Bridge cannot be placed on bow section C"));
    assert_eq!(is_marauder_config_allowed(&config(0, 0, 0)), None);
    assert_eq!(is_marauder_config_allowed(&config(1, 1, 0)), None);
    assert_eq!(is_marauder_config_allowed(&config(2, 1, 1)), None);
    assert_eq!(is_marauder_config_allowed(&config(0, 1, 2)), Some("Bridge cannot be placed on stern section B"));
    assert_eq!(is_marauder_config_allowed(&config(2, 0, 2)), None);
    assert_eq!(is_marauder_config_allowed(&config(0, 0, 3)), Some("Bridge assigned to non-existant section"));
    assert_eq!(is_marauder_config_allowed(&config(0, 0, -1)), Some("Bridge assigned to non-existant section"));
}

#[test]
fn moorline_rules() {
    assert_eq!(is_moorline_config_allowed(&config(0, 0, 0)), Some("Bridge cannot be placed on bow section A"));
    assert_eq!(is_moorline_config_allowed(&config(1, 0, 0)), None);
    assert_eq!(is_moorline_config_allowed(&config(2, 1, 0)), None);
    assert_eq!(is_moorline_config_allowed(&config(0, 1, 1)), None);
    assert_eq!(is_moorline_config_allowed(&config(0, 1, 2)), None);
    assert_eq!(is_moorline_config_allowed(&config(1, 1, 3)), Some("Bridge assigned to non-existant section"));
}

#[test]
fn rules_apply_to_the_params_of_the_editor() {
    let params = EditableHullParams { bow_type: 2, superstructure_loc: 0, ..EditableHullParams::default() };
    assert_eq!(check_hull_params(HullFamily::Bulk, &params), Some("Bridge cannot be placed on bow section C"));
    assert_eq!(check_hull_params(HullFamily::Container, &params), None);
    let params = EditableHullParams { bow_type: 0, superstructure_loc: 0, ..EditableHullParams::default() };
    assert_eq!(check_hull_params(HullFamily::Bulk, &params), None);
    assert_eq!(check_hull_params(HullFamily::Container, &params), Some("Bridge cannot be placed on bow section A"));
    let params = EditableHullParams { stern_type: 1, superstructure_loc: 2, ..EditableHullParams::default() };
    assert_eq!(check_hull_params(HullFamily::Bulk, &params), Some("Bridge cannot be placed on stern section B"));
    let params = EditableHullParams { superstructure_loc: 5, ..EditableHullParams::default() };
    assert_eq!(check_hull_params(HullFamily::Container, &params), Some("Bridge assigned to non-existant section"));
}

#[test]
fn dressing_options_by_segment() {
    assert_eq!(dressing_options(SegmentPosition::Bow, 0, 0), vec!["None", "Top crates"]);
    assert_eq!(dressing_options(SegmentPosition::Bow, 2, 1), vec!["None", "Triple arm bottom", "Double arm bottom"]);
    assert_eq!(dressing_options(SegmentPosition::Bow, 2, 2), Vec::<&str>::new());
    assert_eq!(dressing_options(SegmentPosition::Core, 1, 4), vec!["None", "Vertical arm top"]);
    assert_eq!(dressing_options(SegmentPosition::Core, 2, 0).len(), 4);
    assert_eq!(dressing_options(SegmentPosition::Core, 0, 4), Vec::<&str>::new());
    assert_eq!(dressing_options(SegmentPosition::Stern, 0, 0), Vec::<&str>::new());
    assert_eq!(dressing_options(SegmentPosition::Bow, 3, 0), Vec::<&str>::new());
}

#[test]
fn single_segments_are_set() {
    let mut s = bulk_liner();
    assert_eq!(set_ln_bow_type(&mut s, 0), Some(()));
    assert_eq!(set_ln_core_type(&mut s, 2), Some(()));
    assert_eq!(set_ln_stern_type(&mut s, 1), Some(()));
    let segments = &s.hull_config.as_ref().unwrap().primary_structure.as_ref().unwrap().segment_configuration;
    assert_eq!(segments[0], segment(BULK_BOW_A, &["1", "0", "2"]));
    assert_eq!(segments[1], segment("429f178e-e369-4f51-8054-2e01dd0abea1", &[]));
    assert_eq!(segments[2], segment("2f2b451c-4776-405c-9914-cad4764f1072", &["1"]));
    assert_eq!(s.hull_config.as_ref().unwrap().secondary_structure, bulk_liner().hull_config.unwrap().secondary_structure);
    let mut s = bulk_liner();
    assert_eq!(set_ln_bow_type(&mut s, 3), None);
    assert_eq!(s, bulk_liner());
    s.hull_config.as_mut().unwrap().primary_structure.as_mut().unwrap().segment_configuration.truncate(2);
    let short = s.clone();
    assert_eq!(set_ln_stern_type(&mut s, 0), None);
    assert_eq!(s, short);
    assert_eq!(set_ln_core_type(&mut s, 0), Some(()));
    let mut tug = ship("Tug", "Stock/Tugboat");
    assert_eq!(set_ln_bow_type(&mut tug, 0), None);
}

#[test]
fn superstructure_is_set() {
    let mut s = bulk_liner();
    assert_eq!(set_bridge_type_and_anchor(&mut s, 3, 12), Some(()));
    let bridge = &s.hull_config.as_ref().unwrap().secondary_structure.as_ref().unwrap().secondary_structure_config;
    assert_eq!(bridge.key, BRIDGE_D);
    assert_eq!(bridge.segment, "12");
    assert_eq!(bridge.snap_point, "3");
    assert_eq!(s.hull_config.as_ref().unwrap().primary_structure, bulk_liner().hull_config.unwrap().primary_structure);
    let mut s = bulk_liner();
    assert_eq!(set_bridge_type_and_anchor(&mut s, 4, 0), None);
    assert_eq!(s, bulk_liner());
    s.hull_config.as_mut().unwrap().secondary_structure = None;
    assert_eq!(set_bridge_type_and_anchor(&mut s, 0, 0), None);
    let mut bare = ship("Bare", "Stock/Bulk Hauler");
    assert_eq!(set_bridge_type_and_anchor(&mut bare, 0, 0), None);
}

#[test]
fn ships_of_a_fleet_are_listed() {
    let (a, _, _) = three_fleets();
    assert_eq!(
        ship_list(&a),
        Ok(vec![
            ShipData { class: "Stock/Sprinter Corvette".to_string(), name: "a1".to_string(), cost: 100 },
            ShipData { class: "Stock/Raines Frigate".to_string(), name: "a2".to_string(), cost: 100 },
        ])
    );
    assert_eq!(ship_list(&fleet("Empty", Some(Vec::new()), None)), Ok(Vec::new()));
    let e = ship_list(&fleet("Bare", None, None)).unwrap_err();
    assert_eq!(e.kind, ErrorKind::NotFound);
    assert_eq!(e.message(), "Failed to get ships list: Fleet has no ships");
    let mut odd = ship("odd", "Stock/Tugboat");
    odd.cost = "cheap".to_string();
    let e = ship_list(&fleet("Odd", Some(vec![ship("fine", "Stock/Tugboat"), odd]), None)).unwrap_err();
    assert_eq!(e.kind, ErrorKind::Parse);
    assert_eq!(e.message(), "Invalid fleet file: Failed to parse cost");
}

#[test]
fn fleet_data_is_made_from_a_fleet() {
    let (a, _, _) = three_fleets();
    let data = FleetData::new("Saves/Fleets/sub/a.fleet".to_string(), "sub".to_string(), &a);
    assert_eq!(
        data,
        FleetData {
            path: "Saves/Fleets/sub/a.fleet".to_string(),
            short_path: "sub".to_string(),
            selected: false,
            name: "A".to_string(),
        }
    );
}
