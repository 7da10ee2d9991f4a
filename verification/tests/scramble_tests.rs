use nebtools::error::ErrorKind;
use nebtools::fleet_info_reader::{path_parts, FleetInfoReader};
use nebtools::numbers::hexadecimal_text;
use nebtools::paths::{
    holds_text, is_excluded, is_extension, is_fleet_file, is_missile_file, left_out,
};
use nebtools::scramble::{
    frame_key_to_designation, scramble_fleet, scramble_fleet_file, underscored_text, Dictionary,
    ScrambleNames,
};
use nebtools::schema::{
    BaseColor, ComponentData, CraftLoadout, CraftTemplate, CraftTemplateModDependencies,
    CraftTemplateTemplateMissileTypes, CraftTypes, Elements, Fleet, GeneralLoadoutElement,
    GeneralLoadoutElementMissileKeys, GeneralLoadoutElementMissileKeysString, HullSocket,
    InstalledComponents, Load, LoadMagSaveData, Loadout, LoadoutMissileKeys,
    LoadoutMissileKeysString, Loadouts, MissileLoad, MissileLoadMagSaveData, MissileTemplate,
    MissileTypes, SaveId, SavedStoredCraft, Ship, ShipTemplateMissileTypes, Ships, SocketMap,
    Sockets, SortOverrideOrder, StoredCraft, StripeColor, WeaponGroups,
};

fn missile(designation: &str, nickname: &str) -> MissileTemplate {
    MissileTemplate {
        text: None,
        associated_template_name: None,
        designation: designation.to_string(),
        nickname: nickname.to_string(),
        description: String::new(),
        long_description: String::new(),
        cost: "12".to_string(),
        body_key: "body".to_string(),
        template_key: "key".to_string(),
        base_color: BaseColor { text: None, r: "0".into(), g: "0".into(), b: "0".into(), a: "1".into() },
        stripe_color: StripeColor { text: None, r: "0".into(), g: "0".into(), b: "0".into(), a: "1".into() },
        sockets: Sockets { text: None, missile_socket: Vec::new() },
    }
}

fn element(kind: &str, keys: Option<&[Option<&str>]>, loadout: Option<Loadout>) -> GeneralLoadoutElement {
    GeneralLoadoutElement {
        xsi_type: kind.to_string(),
        text: None,
        missile_keys: keys.map(|keys| GeneralLoadoutElementMissileKeys {
            text: None,
            string: keys
                .iter()
                .map(|k| GeneralLoadoutElementMissileKeysString { xsi_nil: None, text: k.map(|k| k.to_string()) })
                .collect(),
        }),
        ammo_key: None,
        loadout,
        component_key: None,
        socket_key: Some("socket".to_string()),
    }
}

fn inner(kind: &str, keys: &[&str]) -> Loadout {
    Loadout {
        xsi_type: kind.to_string(),
        text: None,
        ammo_key: None,
        missile_keys: Some(LoadoutMissileKeys {
            text: None,
            string: keys.iter().map(|k| LoadoutMissileKeysString { xsi_nil: None, text: Some(k.to_string()) }).collect(),
        }),
        socket_key: None,
    }
}

fn craft(frame: &str, suffix: Option<&str>, nickname: &str, elements: Vec<GeneralLoadoutElement>) -> CraftTemplate {
    CraftTemplate {
        text: None,
        associated_template_name: None,
        nickname: nickname.to_string(),
        cost: "5".to_string(),
        frame_key: frame.to_string(),
        template_key: "key".to_string(),
        installed_components: InstalledComponents { text: None, serialized_craft_socket: Vec::new() },
        loadouts: Loadouts {
            text: None,
            craft_loadout: vec![CraftLoadout {
                text: None,
                loadout_name: "Default".to_string(),
                elements: Elements { text: None, general_loadout_element: elements },
            }],
        },
        template_missile_types: CraftTemplateTemplateMissileTypes {},
        mod_dependencies: CraftTemplateModDependencies {},
        long_description: None,
        designation_suffix: suffix.map(|s| s.to_string()),
    }
}

fn component(kind: &str) -> ComponentData {
    ComponentData {
        xsi_type: Some(kind.to_string()),
        component_data_type: None,
        text: None,
        identity_option: None,
        configured_size: None,
        stored_craft: Some(StoredCraft {
            text: None,
            saved_stored_craft: vec![SavedStoredCraft { text: None, craft_template_key: "$CRAFT$/RS-35A Hawk".to_string() }],
        }),
        fire_outside_limits: None,
        missile_load: Some(MissileLoad {
            text: None,
            mag_save_data: vec![MissileLoadMagSaveData {
                text: None,
                magazine_key: "m".to_string(),
                munition_key: "$MODMIS$/SGM-1 One".to_string(),
                quantity: "1".to_string(),
            }],
        }),
        load: Some(Load {
            text: None,
            mag_save_data: vec![LoadMagSaveData {
                text: None,
                magazine_key: "m".to_string(),
                munition_key: "$MODMIS$/SGM-1 One".to_string(),
                quantity: "1".to_string(),
            }],
        }),
    }
}

fn ship(name: &str, callsign: Option<&str>, kinds: &[&str]) -> Ship {
    Ship {
        text: None,
        hull_config: None,
        template_spacecraft_types: None,
        callsign: callsign.map(|c| c.to_string()),
        save_id: SaveId { xsi_nil: None, nil: None },
        key: "key".to_string(),
        name: name.to_string(),
        cost: "1".to_string(),
        number: "1".to_string(),
        symbol_option: "0".to_string(),
        hull_type: "Stock/Solomon Battleship".to_string(),
        socket_map: SocketMap {
            text: None,
            hull_socket: kinds
                .iter()
                .map(|k| HullSocket {
                    text: None,
                    component_data: Some(component(k)),
                    key: "k".to_string(),
                    component_name: "c".to_string(),
                })
                .collect(),
        },
        weapon_groups: WeaponGroups { text: None, wep_group: Vec::new() },
        template_missile_types: ShipTemplateMissileTypes {},
        initial_formation: None,
    }
}

fn fleet() -> Fleet {
    Fleet {
        xmlns_xsd: "xsd".to_string(),
        xmlns_xsi: "xsi".to_string(),
        text: None,
        mod_dependencies: None,
        description: None,
        craft_types: Some(CraftTypes {
            text: None,
            craft_template: vec![craft(
                "Stock/AN Skiff",
                Some("A"),
                "Hawk",
                vec![
                    element("MissileSelection", Some(&[Some("$MODMIS$/SGM-1 One"), None, Some("Stock/Other")]), None),
                    element("VariableSocketLoadout", Some(&[Some("$MODMIS$/SGM-1 One")]), Some(inner("MissileSelection", &["$MODMIS$/SGM-2 Two"]))),
                    element("VariableSocketLoadout", None, Some(inner("AmmoSelection", &["$MODMIS$/SGM-2 Two"]))),
                    element("AmmoSelection", Some(&[Some("$MODMIS$/SGM-1 One")]), None),
                ],
            )],
        }),
        missile_types: Some(MissileTypes {
            text: None,
            missile_template: vec![missile("SGM-1", "One"), missile("SGM-2", "Two")],
        }),
        name: "My big fleet".to_string(),
        version: "3".to_string(),
        total_points: "3000".to_string(),
        faction_key: "Stock/Alliance".to_string(),
        sort_override_order: SortOverrideOrder { xsi_nil: None, nil: None, text: None },
        ships: Some(Ships {
            text: None,
            ship: vec![
                ship("Flag", None, &["CellLauncherData", "BulkMagazineData"]),
                ship("Escort", Some(""), &["CraftHangarData", "ResizableCellLauncherData"]),
                ship("Picket", Some("P-1"), &["TurretData"]),
            ],
        }),
    }
}

fn names() -> ScrambleNames {
    ScrambleNames {
        missiles: vec!["AA".to_string(), "BB".to_string()],
        crafts: vec!["CC".to_string()],
        fleet: "FF".to_string(),
        ships: vec!["S1".to_string(), "S2".to_string(), "S3".to_string()],
    }
}

fn general_keys(e: &GeneralLoadoutElement) -> Vec<Option<String>> {
    e.missile_keys.as_ref().unwrap().string.iter().map(|k| k.text.clone()).collect()
}

fn inner_keys(e: &GeneralLoadoutElement) -> Vec<Option<String>> {
    e.loadout.as_ref().unwrap().missile_keys.as_ref().unwrap().string.iter().map(|k| k.text.clone()).collect()
}

#[test]
fn scramble_renames_fleet_missiles_craft_and_ships() {
    let scrambled = scramble_fleet(fleet(), &names()).unwrap();
    assert_eq!(scrambled.name, "My_big_fleet_SCRAMBLED_FF");
    let missiles = &scrambled.missile_types.as_ref().unwrap().missile_template;
    assert_eq!(missiles[0].nickname, "AA");
    assert_eq!(missiles[1].nickname, "BB");
    assert_eq!(missiles[0].designation, "SGM-1");
    let crafts = &scrambled.craft_types.as_ref().unwrap().craft_template;
    assert_eq!(crafts[0].nickname, "CC");
    let ships = &scrambled.ships.as_ref().unwrap().ship;
    assert_eq!(ships.iter().map(|s| s.name.as_str()).collect::<Vec<_>>(), vec!["S1", "S2", "S3"]);
    assert_eq!(ships[0].callsign.as_deref(), Some("Flag"));
    assert_eq!(ships[1].callsign.as_deref(), Some("Escort"));
    assert_eq!(ships[2].callsign.as_deref(), Some("P-1"));
    assert_eq!(scrambled.version, "3");
    assert_eq!(scrambled.faction_key, "Stock/Alliance");
}

#[test]
fn scramble_rewrites_the_keys_of_loadouts() {
    let scrambled = scramble_fleet(fleet(), &names()).unwrap();
    let elements =
        &scrambled.craft_types.as_ref().unwrap().craft_template[0].loadouts.craft_loadout[0].elements.general_loadout_element;
    assert_eq!(
        general_keys(&elements[0]),
        vec![Some("$MODMIS$/SGM-1 AA".to_string()), None, Some("Stock/Other".to_string())]
    );
    assert_eq!(general_keys(&elements[1]), vec![Some("$MODMIS$/SGM-1 One".to_string())]);
    assert_eq!(inner_keys(&elements[1]), vec![Some("$MODMIS$/SGM-2 BB".to_string())]);
    assert_eq!(inner_keys(&elements[2]), vec![Some("$MODMIS$/SGM-2 Two".to_string())]);
    assert_eq!(general_keys(&elements[3]), vec![Some("$MODMIS$/SGM-1 One".to_string())]);
}

#[test]
fn scramble_rewrites_the_keys_of_sockets() {
    let scrambled = scramble_fleet(fleet(), &names()).unwrap();
    let ships = &scrambled.ships.as_ref().unwrap().ship;
    let data = |s: usize, k: usize| ships[s].socket_map.hull_socket[k].component_data.clone().unwrap();
    let cells = |d: &ComponentData| d.missile_load.as_ref().unwrap().mag_save_data[0].munition_key.clone();
    let magazine = |d: &ComponentData| d.load.as_ref().unwrap().mag_save_data[0].munition_key.clone();
    let hangar = |d: &ComponentData| d.stored_craft.as_ref().unwrap().saved_stored_craft[0].craft_template_key.clone();
    let launcher = data(0, 0);
    assert_eq!(cells(&launcher), "$MODMIS$/SGM-1 AA");
    assert_eq!(magazine(&launcher), "$MODMIS$/SGM-1 One");
    assert_eq!(hangar(&launcher), "$CRAFT$/RS-35A Hawk");
    let bulk = data(0, 1);
    assert_eq!(cells(&bulk), "$MODMIS$/SGM-1 One");
    assert_eq!(magazine(&bulk), "$MODMIS$/SGM-1 AA");
    let bay = data(1, 0);
    assert_eq!(hangar(&bay), "$CRAFT$/RS-35A CC");
    assert_eq!(cells(&bay), "$MODMIS$/SGM-1 One");
    let resizable = data(1, 1);
    assert_eq!(cells(&resizable), "$MODMIS$/SGM-1 AA");
    assert_eq!(data(2, 0), component("TurretData"));
}

#[test]
fn scramble_refuses_names_that_do_not_fit() {
    let mut short = names();
    short.ships.pop();
    let e = scramble_fleet(fleet(), &short).unwrap_err();
    assert_eq!(e.kind, ErrorKind::Validation);
    assert_eq!(e.title, "Names do not fit the fleet");
    let mut long = names();
    long.missiles.push("X".to_string());
    assert!(scramble_fleet(fleet(), &long).is_err());
}

#[test]
fn scramble_refuses_an_unknown_craft() {
    let mut f = fleet();
    f.craft_types.as_mut().unwrap().craft_template[0].frame_key = "Mod/Strange".to_string();
    let e = scramble_fleet(f.clone(), &names()).unwrap_err();
    assert_eq!(e.kind, ErrorKind::NotFound);
    assert_eq!(e.title, "Unknown craft type");
    assert_eq!(e.error, "Mod/Strange");
    assert!(scramble_fleet_file(f).is_err());
}

#[test]
fn scramble_with_drawn_names() {
    let untouched = fleet();
    let scrambled = scramble_fleet_file(untouched.clone()).unwrap();
    assert!(scrambled.name.starts_with("My_big_fleet_SCRAMBLED_"));
    let drawn = |name: &str| !name.is_empty() && name.len() <= 8 && u32::from_str_radix(name, 16).is_ok() && name.to_uppercase() == name;
    assert!(drawn(&scrambled.name["My_big_fleet_SCRAMBLED_".len()..]));
    let ships = &scrambled.ships.as_ref().unwrap().ship;
    assert_eq!(ships.len(), 3);
    for s in ships {
        assert!(drawn(&s.name), "{}", s.name);
    }
    let missiles = &scrambled.missile_types.as_ref().unwrap().missile_template;
    assert!(drawn(&missiles[0].nickname));
    let cells = &ships[0].socket_map.hull_socket[0].component_data.as_ref().unwrap().missile_load.as_ref().unwrap().mag_save_data;
    assert_eq!(cells[0].munition_key, format!("$MODMIS$/SGM-1 {}", missiles[0].nickname));
    let again = scramble_fleet_file(untouched).unwrap();
    assert!(again.name != scrambled.name || again.ships != scrambled.ships);
}

#[test]
fn dictionary_prefers_the_last_pair() {
    let mut dict = Dictionary::new();
    assert_eq!(dict.apply("a".to_string()), "a");
    dict.insert("a".to_string(), "first".to_string());
    dict.insert("b".to_string(), "other".to_string());
    dict.insert("a".to_string(), "second".to_string());
    assert_eq!(dict.apply("a".to_string()), "second");
    assert_eq!(dict.apply("b".to_string()), "other");
    assert_eq!(dict.apply("c".to_string()), "c");
}

#[test]
fn helpers_of_the_scrambler() {
    assert_eq!(underscored_text("a b  c"), "a_b__c");
    assert_eq!(underscored_text(""), "");
    assert_eq!(underscored_text("é tab\tß"), "é_tab\tß");
    assert_eq!(hexadecimal_text(0), "0");
    assert_eq!(hexadecimal_text(10), "A");
    assert_eq!(hexadecimal_text(255), "FF");
    assert_eq!(hexadecimal_text(0xDEADBEEF), "DEADBEEF");
    assert_eq!(hexadecimal_text(u32::MAX), "FFFFFFFF");
    assert_eq!(hexadecimal_text(4096), format!("{:X}", 4096));
    assert_eq!(frame_key_to_designation("Stock/AN Skiff"), Some("RS-35"));
    assert_eq!(frame_key_to_designation("Stock/AN Interceptor"), Some("PF-440"));
    assert_eq!(frame_key_to_designation("Stock/AN SEWAC"), Some("E-44"));
    assert_eq!(frame_key_to_designation("Stock/AN Bomber"), Some("B-86"));
    assert_eq!(frame_key_to_designation("Stock/OSP Skiff"), Some("RS-35"));
    assert_eq!(frame_key_to_designation("Stock/OSP Interceptor"), Some("PF-386"));
    assert_eq!(frame_key_to_designation("Stock/OSP Scout"), Some("RF-286"));
    assert_eq!(frame_key_to_designation("Stock/OSP Bomber"), Some("B-45"));
    assert_eq!(frame_key_to_designation("Stock/Unknown"), None);
}

const DOCUMENT: &str = r#"<?xml version="1.0"?>
<Fleet>
  <Name>Alpha <![CDATA[& co]]></Name>
  <Version>3</Version>
  <Meta>
    <Author>Someone</Author>
  </Meta>
  <TotalPoints>3000</TotalPoints>
</Fleet>"#;

#[test]
fn info_reader_reads_a_value_at_the_root() {
    assert_eq!(FleetInfoReader::new(DOCUMENT.as_bytes()).get_value("Fleet/Name"), Some("Alpha & co".to_string()));
    assert_eq!(FleetInfoReader::new(DOCUMENT.as_bytes()).get_value("Fleet/Version"), Some("3".to_string()));
    assert_eq!(FleetInfoReader::new(DOCUMENT.as_bytes()).get_value("Version"), Some("".to_string()));
}

#[test]
fn info_reader_gives_up_at_nested_elements() {
    assert_eq!(FleetInfoReader::new(DOCUMENT.as_bytes()).get_value("Fleet/TotalPoints"), Some("".to_string()));
    assert_eq!(FleetInfoReader::new(DOCUMENT.as_bytes()).get_value("Fleet/Missing"), Some("".to_string()));
}

#[test]
fn info_reader_fails_with_the_stream() {
    assert_eq!(FleetInfoReader::new(b"<Fleet><Name>Al").get_value("Fleet/Name"), None);
    assert_eq!(FleetInfoReader::new(b"").get_value("Fleet"), None);
}

#[test]
fn paths_are_split_at_slashes() {
    assert_eq!(path_parts("Fleet/Name"), vec!["Fleet", "Name"]);
    assert_eq!(path_parts("Name"), vec!["Name"]);
    assert_eq!(path_parts(""), vec![""]);
    assert_eq!(path_parts("/a//b/"), vec!["", "a", "", "b", ""]);
    assert_eq!(path_parts("é/ß"), vec!["é", "ß"]);
}

#[test]
fn scan_leaves_out_what_matches_a_pattern() {
    let patterns = vec![glob::Pattern::new("*/Old/*").unwrap(), glob::Pattern::new("*.bak").unwrap()];
    assert!(is_excluded("Saves/Old/a.fleet", &patterns));
    assert!(is_excluded("a.fleet.bak", &patterns));
    assert!(!is_excluded("Saves/New/a.fleet", &patterns));
    assert!(!is_excluded("Saves/Old/a.fleet", &Vec::new()));
    assert!(left_out(&vec![false, true, false]));
    assert!(!left_out(&vec![false, false]));
    assert!(!left_out(&Vec::new()));
}

#[test]
fn files_are_told_by_their_extension() {
    assert!(is_fleet_file("Saves/Fleets/a.fleet"));
    assert!(is_fleet_file("a.b.fleet"));
    assert!(!is_fleet_file("a.fleet.bak"));
    assert!(!is_fleet_file("fleet"));
    assert!(!is_fleet_file(".fleet"));
    assert!(!is_fleet_file("a.missile"));
    assert!(is_missile_file("dir/a.missile"));
    assert!(!is_missile_file("dir/a.fleet"));
    assert!(is_extension(Some("fleet"), "fleet"));
    assert!(!is_extension(Some("Fleet"), "fleet"));
    assert!(!is_extension(None, "fleet"));
}

#[test]
fn a_text_holds_its_parts() {
    assert!(holds_text("Saves/a.fleet", ".fleet"));
    assert!(holds_text(".fleet", ".fleet"));
    assert!(holds_text("a.fleet.bak", ".fleet"));
    assert!(holds_text("é.fleet", ".fleet"));
    assert!(holds_text("anything", ""));
    assert!(holds_text("", ""));
    assert!(!holds_text("a.flee", ".fleet"));
    assert!(!holds_text("fleet", ".fleet"));
    assert!(!holds_text("a.Fleet", ".fleet"));
    assert!(!holds_text("", ".fleet"));
    assert!(!holds_text(".flee.t", ".fleet"));
}

#[test]
fn a_path_without_the_extension_is_no_such_file() {
    for path in ["", "a", "a.flee", "dir.d/a", "a.Fleet", "a.fleeT", "fleet", "a.missile", "é/ü.txt"] {
        assert!(!is_fleet_file(path), "{}", path);
    }
    for path in ["a.fleet", "dir/a.fleet", "dir.fleet/b.fleet", "a..fleet", "é/ü.fleet", "a b.fleet"] {
        assert!(is_fleet_file(path), "{}", path);
        assert!(!is_missile_file(path), "{}", path);
    }
    for path in ["a.fleet.bak", "dir.fleet/b", ".fleet", "a.fleetx", "a.fleet."] {
        assert!(!is_fleet_file(path), "{}", path);
    }
    for path in ["a.missile", "dir/a.missile", "x.fleet.missile"] {
        assert!(is_missile_file(path), "{}", path);
    }
    for path in ["a.missile.bak", ".missile", "missile", "a.missiles"] {
        assert!(!is_missile_file(path), "{}", path);
    }
}
