use nebtools::error::{wrap_errorable_function, Error, ErrorKind, ErrorPopup};
use nebtools::missile_templates::cache::{scan_step, ScanAction, ScannedFleet, UsedMissilesCache};
use nebtools::missile_templates::hash_text::{hash_text, parse_hash};
use nebtools::numbers::parse_hex_u32;
use nebtools::schema::{Fleet, SortOverrideOrder};
use nebtools::tags::{
    describe, get_tags_from_description, save_description, Color, Tag, TagsRepository,
};
use nebtools::win_predictor::{predict, Prediction};

fn tag(name: &str, r: u8, g: u8, b: u8) -> Tag {
    Tag { name: name.to_string(), color: Color { r, g, b } }
}

#[test]
fn description_without_tags_is_left_whole() {
    assert_eq!(get_tags_from_description("Just a fleet"), Ok((Vec::new(), "Just a fleet".to_string())));
    assert_eq!(get_tags_from_description(""), Ok((Vec::new(), String::new())));
    assert_eq!(get_tags_from_description(" Tags: x"), Ok((Vec::new(), " Tags: x".to_string())));
    assert_eq!(get_tags_from_description("Tag"), Ok((Vec::new(), "Tag".to_string())));
}

#[test]
fn tags_are_read_from_a_description() {
    let desc = "Tags: <color=#ff0000>Brawl</color> <color=#00FF7f>Long range</color>\nA fine fleet";
    assert_eq!(
        get_tags_from_description(desc),
        Ok((vec![tag("Brawl", 255, 0, 0), tag("Long range", 0, 255, 127)], "A fine fleet".to_string()))
    );
    assert_eq!(get_tags_from_description("Tags:"), Ok((Vec::new(), String::new())));
    assert_eq!(get_tags_from_description("Tags: \n  text"), Ok((Vec::new(), "text".to_string())));
    assert_eq!(
        get_tags_from_description("Tags:<color=#1>a</color>b"),
        Ok((vec![tag("a", 0, 0, 1)], "b".to_string()))
    );
    assert_eq!(
        get_tags_from_description("Tags: <color=#ff102030>é > ü</color>"),
        Ok((vec![tag("é > ü", 0x10, 0x20, 0x30)], String::new()))
    );
}

#[test]
fn a_tag_that_does_not_end_is_text() {
    assert_eq!(
        get_tags_from_description("Tags: <color=#ff0000>Brawl"),
        Ok((Vec::new(), "<color=#ff0000>Brawl".to_string()))
    );
    assert_eq!(
        get_tags_from_description("Tags: <color=#ff0000>a</color> <color=#00ff00 rest"),
        Ok((vec![tag("a", 255, 0, 0)], "<color=#00ff00 rest".to_string()))
    );
    assert_eq!(
        get_tags_from_description("Tags: <colour=#ff0000>a</colour>"),
        Ok((Vec::new(), "<colour=#ff0000>a</colour>".to_string()))
    );
}

#[test]
fn a_colour_that_is_no_number_is_an_error() {
    let e = get_tags_from_description("Tags: <color=#red>a</color>").unwrap_err();
    assert_eq!(e.kind, ErrorKind::Parse);
    assert_eq!(e.title, "Failed to parse tags");
    assert!(get_tags_from_description("Tags: <color=#>a</color>").is_err());
    assert!(get_tags_from_description("Tags: <color=#123456789>a</color>").is_err());
    assert!(get_tags_from_description("Tags: <color=#ff0000>a</color><color=#zz>b").is_err());
}

#[test]
fn tags_are_written_in_front_of_a_description() {
    assert_eq!(describe(&Vec::new(), "text"), "Tags: \ntext");
    assert_eq!(describe(&vec![tag("a", 255, 0, 16)], ""), "Tags: <color=#ff0010>a</color>\n");
    assert_eq!(
        describe(&vec![tag("a", 1, 2, 3), tag("b c", 171, 205, 239)], "text\nmore"),
        "Tags: <color=#010203>a</color> <color=#abcdef>b c</color>\ntext\nmore"
    );
}

#[test]
fn tags_written_are_read_back() {
    let tags = vec![tag("Brawl", 200, 100, 0), tag("PD", 0, 0, 0), tag("x", 255, 255, 255)];
    let text = describe(&tags, "A fleet\nof ships");
    assert_eq!(get_tags_from_description(&text), Ok((tags, "A fleet\nof ships".to_string())));
}

#[test]
fn hexadecimal_numbers_are_read() {
    assert_eq!(parse_hex_u32("ff"), Some(255));
    assert_eq!(parse_hex_u32("FF"), Some(255));
    assert_eq!(parse_hex_u32("+1a"), Some(26));
    assert_eq!(parse_hex_u32("ffffffff"), Some(u32::MAX));
    assert_eq!(parse_hex_u32("00000000ffffffff"), Some(u32::MAX));
    assert_eq!(parse_hex_u32("100000000"), None);
    assert_eq!(parse_hex_u32(""), None);
    assert_eq!(parse_hex_u32("+"), None);
    assert_eq!(parse_hex_u32("-1"), None);
    assert_eq!(parse_hex_u32("g"), None);
    assert_eq!(parse_hex_u32("0x10"), None);
    for text in ["0", "7f", "ABCDEF", "abcdef01", "fffffffff", "é", " 1"] {
        assert_eq!(parse_hex_u32(text), u32::from_str_radix(text, 16).ok(), "{}", text);
    }
}

#[test]
fn predictor_compares_the_ticks_to_victory() {
    assert_eq!(predict(100, 100, 2, 1, 1000), Prediction::Team1Victory);
    assert_eq!(predict(100, 100, 1, 2, 1000), Prediction::Team2Victory);
    assert_eq!(predict(100, 100, 3, 3, 1000), Prediction::Tie);
    assert_eq!(predict(900, 100, 1, 5, 1000), Prediction::Team1Victory);
    assert_eq!(predict(100, 996, 5, 1, 1000), Prediction::Team2Victory);
    assert_eq!(predict(999, 998, 1, 1, 1000), Prediction::Team1Victory);
    assert_eq!(predict(997, 996, 1, 1, 1000), Prediction::Team1Victory);
    assert_eq!(predict(996, 997, 1, 1, 1000), Prediction::Team2Victory);
    assert_eq!(predict(999, 999, 4, 1, 1000), Prediction::Tie);
    assert_eq!(predict(1, 1, -1, 1, 7), Prediction::Team1Victory);
    assert_eq!(predict(i32::MIN, i32::MAX, 1, -1, i32::MAX), Prediction::Team2Victory);
}

#[test]
fn predictor_says_nothing_without_numbers() {
    assert_eq!(predict(0, 100, 2, 1, 1000), Prediction::Unknown);
    assert_eq!(predict(100, 0, 2, 1, 1000), Prediction::Unknown);
    assert_eq!(predict(100, 100, 0, 1, 1000), Prediction::Unknown);
    assert_eq!(predict(100, 100, 2, 0, 1000), Prediction::Unknown);
    assert_eq!(predict(100, 100, 2, 1, 0), Prediction::Unknown);
    assert_eq!(Prediction::Unknown.text(), "");
    assert_eq!(Prediction::Team1Victory.text(), "Team 1 Victory");
    assert_eq!(Prediction::Team2Victory.text(), "Team 2 Victory");
    assert_eq!(Prediction::Tie.text(), "Tie");
}

#[test]
fn failures_are_shown_and_handed_on() {
    let (outcome, popup) = wrap_errorable_function(|| Ok::<u8, Error>(7));
    assert_eq!(outcome, Ok(7));
    assert_eq!(popup, None);
    let (outcome, popup) =
        wrap_errorable_function(|| Err::<u8, Error>(Error::new(ErrorKind::NotFound, "No fleet selected", "nothing")));
    assert_eq!(outcome, Err(Error::new(ErrorKind::NotFound, "No fleet selected", "nothing")));
    assert_eq!(popup, Some(ErrorPopup { title: "No fleet selected".to_string(), message: "nothing".to_string() }));
}

fn fleet(name: &str) -> Fleet {
    Fleet {
        xmlns_xsd: String::new(),
        xmlns_xsi: String::new(),
        text: None,
        mod_dependencies: None,
        description: None,
        craft_types: None,
        missile_types: None,
        name: name.to_string(),
        version: "3".to_string(),
        total_points: "0".to_string(),
        faction_key: "Stock/Alliance".to_string(),
        sort_override_order: SortOverrideOrder { xsi_nil: None, nil: None, text: None },
        ships: None,
    }
}

#[test]
fn cache_update_purges_then_stores_what_was_read() {
    let mut cache = UsedMissilesCache::new();
    cache.store("gone.fleet".to_string(), 1, &fleet("Gone"));
    cache.store("same.fleet".to_string(), 2, &fleet("Same"));
    cache.store("changed.fleet".to_string(), 3, &fleet("Before"));
    let scanned = vec![
        ScannedFleet { path: "changed.fleet".to_string(), hash: 30, fleet: Ok(fleet("After")) },
        ScannedFleet {
            path: "broken.fleet".to_string(),
            hash: 40,
            fleet: Err(Error::new(ErrorKind::Parse, "Failed to parse fleet file", "bad")),
        },
        ScannedFleet { path: "new.fleet".to_string(), hash: 50, fleet: Ok(fleet("New")) },
    ];
    cache.update(&vec!["gone.fleet".to_string()], &scanned);
    let mut paths = cache.paths();
    paths.sort();
    assert_eq!(paths, vec!["changed.fleet", "new.fleet", "same.fleet"]);
    assert_eq!(cache.get("changed.fleet").unwrap().name, "After");
    assert_eq!(cache.get("changed.fleet").unwrap().hash, 30);
    assert_eq!(cache.get("same.fleet").unwrap().hash, 2);
    assert_eq!(cache.get("new.fleet").unwrap().name, "New");
    assert!(cache.get("broken.fleet").is_none());
    let fresh = UsedMissilesCache::generate_from_fleets(&scanned);
    assert_eq!(fresh.len(), 2);
    assert_eq!(fresh.get("new.fleet").unwrap().hash, 50);
}

#[test]
fn description_is_saved_with_its_tags() {
    let saved = save_description(fleet("F"), &vec![tag("a", 1, 2, 3)], "text");
    assert_eq!(saved.description.as_deref(), Some("Tags: <color=#010203>a</color>\ntext"));
    assert_eq!(saved.name, "F");
    assert_eq!(saved.version, "3");
}

#[test]
fn repository_remembers_the_last_colour_of_a_tag() {
    let mut repository = TagsRepository::default();
    assert_eq!(repository, TagsRepository::new());
    assert_eq!(repository.get_tag("Brawl"), None);
    repository.add_tag("Brawl".to_string(), Color { r: 1, g: 2, b: 3 });
    repository.add_tag("PD".to_string(), Color { r: 9, g: 9, b: 9 });
    repository.add_tag("Brawl".to_string(), Color { r: 4, g: 5, b: 6 });
    assert_eq!(repository.get_tag("Brawl"), Some(Color { r: 4, g: 5, b: 6 }));
    assert_eq!(repository.get_tag("PD"), Some(Color { r: 9, g: 9, b: 9 }));
    assert_eq!(repository.get_tag("brawl"), None);
    let mut tags = repository.tags();
    tags.sort_by(|a, b| a.name.cmp(&b.name));
    assert_eq!(tags, vec![tag("Brawl", 4, 5, 6), tag("PD", 9, 9, 9)]);
}

#[test]
fn hash_is_written_as_sixteen_digits_and_read_back() {
    assert_eq!(hash_text(0), "0000000000000000");
    assert_eq!(hash_text(255), "00000000000000ff");
    assert_eq!(hash_text(0xDEAD_BEEF_0123_4567), "deadbeef01234567");
    assert_eq!(hash_text(u64::MAX), "ffffffffffffffff");
    for hash in [0u64, 1, 15, 16, 0xabcdef, u64::MAX, 1 << 63, 0x0123_4567_89ab_cdef] {
        assert_eq!(hash_text(hash), format!("{:016x}", hash));
        assert_eq!(parse_hash(&hash_text(hash)), Some(hash));
    }
    assert_eq!(parse_hash("ff"), Some(255));
    assert_eq!(parse_hash("FFFFFFFFFFFFFFFF"), Some(u64::MAX));
    assert_eq!(parse_hash("10000000000000000"), None);
    assert_eq!(parse_hash(""), None);
    assert_eq!(parse_hash("xyz"), None);
    assert_eq!(parse_hash("-1"), None);
}

#[test]
fn scan_decides_what_to_do_with_an_entry() {
    assert_eq!(scan_step(true, true, false, true, None), ScanAction::Skip);
    assert_eq!(scan_step(true, false, true, true, Some(true)), ScanAction::Skip);
    assert_eq!(scan_step(false, true, false, false, None), ScanAction::Descend);
    assert_eq!(scan_step(false, true, false, true, Some(true)), ScanAction::Descend);
    assert_eq!(scan_step(false, false, true, false, None), ScanAction::Skip);
    assert_eq!(scan_step(false, false, false, true, None), ScanAction::Skip);
    assert_eq!(scan_step(false, false, true, true, None), ScanAction::Read);
    assert_eq!(scan_step(false, false, true, true, Some(true)), ScanAction::Parse);
    assert_eq!(scan_step(false, false, true, true, Some(false)), ScanAction::Skip);
}
