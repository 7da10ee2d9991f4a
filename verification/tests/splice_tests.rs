use nebtools::error::ErrorKind;
use nebtools::events::Event;
use nebtools::extract::{ReadState, Reader};
use nebtools::merge::{extract, splice_fleets};
use nebtools::splice::Writer;

const FLEET_A: &str = r#"<?xml version="1.0"?>
<Fleet xmlns:xsd="http://www.w3.org/2001/XMLSchema" xmlns:xsi="http://www.w3.org/2001/XMLSchema-instance">
  <Name>Alpha</Name>
  <Version>3</Version>
  <Ships>
    <Ship>
      <Name>First</Name>
      <Cost>10</Cost>
    </Ship>
    <Ship>
      <Name>Second</Name>
      <Cost>20</Cost>
    </Ship>
  </Ships>
  <MissileTypes>
    <MissileTemplate>
      <Designation>SGM-1</Designation>
    </MissileTemplate>
  </MissileTypes>
</Fleet>"#;

#[test]
fn extractor_emits_children_in_document_order() {
    let mut reader = Reader::new(FLEET_A.as_bytes(), "Ships".to_string(), "Ship".to_string());
    reader.run_until_complete();
    assert_eq!(reader.state(), ReadState::Done);
    let fragments = reader.into_fragments();
    assert_eq!(fragments.len(), 2);
    assert!(fragments[0][0].opens("Ship"));
    assert!(fragments[0][fragments[0].len() - 1].closes("Ship"));
    assert!(fragments[0].contains(&Event::Characters("First".to_string())));
    assert!(fragments[1].contains(&Event::Characters("Second".to_string())));
}

#[test]
fn splicer_appends_own_ships_once() {
    let mut reader = Reader::new(FLEET_A.as_bytes(), "Ships".to_string(), "Ship".to_string());
    reader.run_until_complete();
    let ships = reader.into_fragments();
    let mut writer = Writer::new(FLEET_A.as_bytes(), ships, Vec::new(), "Doubled".to_string());
    writer.run_until_complete();
    let text = writer.into_document().expect("a document");
    let text = String::from_utf8(text).unwrap();
    println!("{}", text);
    assert_eq!(text.matches("<Ship>").count(), 4);
    assert_eq!(text.matches("<Name>Doubled</Name>").count(), 1);
    assert_eq!(text.matches("Alpha").count(), 0);
    let first = text.find("First").unwrap();
    let second = text.find("Second").unwrap();
    let first_again = text.rfind("First").unwrap();
    let second_again = text.rfind("Second").unwrap();
    assert!(first < second && second < first_again && first_again < second_again);
    assert!(text.starts_with("<?xml version=\"1.0\" encoding=\"UTF-8\"?>"));
}

const FLEET_B: &str = r#"<?xml version="1.0" encoding="utf-8" standalone="yes"?>
<Fleet>
  <Name>Bravo</Name>
  <Ships>
    <Ship><Name>Third</Name></Ship>
  </Ships>
</Fleet>"#;

fn fragments(document: &str, container: &str, child: &str) -> Vec<Vec<Event>> {
    let mut reader = Reader::new(document.as_bytes(), container.to_string(), child.to_string());
    reader.run_until_complete();
    assert!(reader.is_done());
    reader.into_fragments()
}

fn spliced(target: &str, ships: Vec<Vec<Event>>, missiles: Vec<Vec<Event>>, name: &str) -> String {
    let mut writer = Writer::new(target.as_bytes(), ships, missiles, name.to_string());
    writer.run_until_complete();
    assert!(writer.is_done());
    String::from_utf8(writer.into_document().expect("a document")).unwrap()
}

#[test]
fn extractor_stops_without_the_container() {
    let mut reader = Reader::new(FLEET_B.as_bytes(), "MissileTypes".to_string(), "MissileTemplate".to_string());
    reader.run_until_complete();
    assert_eq!(reader.state(), ReadState::Done);
    assert!(!reader.is_error());
    assert_eq!(reader.into_fragments().len(), 0);
}

#[test]
fn extractor_fails_on_a_broken_document() {
    let broken = "<Fleet><Ships><Ship><Name>First</Name></Ship><Ship><Name>Second</Ship></Ships></Fleet>";
    let mut reader = Reader::new(broken.as_bytes(), "Ships".to_string(), "Ship".to_string());
    reader.run_until_complete();
    assert_eq!(reader.state(), ReadState::Error);
    assert!(reader.is_error());
    assert!(!reader.is_done());
    assert_eq!(reader.into_fragments().len(), 1);
    let mut reader = Reader::new(b"", "Ships".to_string(), "Ship".to_string());
    reader.run_until_complete();
    assert!(reader.is_error());
}

#[test]
fn extractor_steps_one_event_at_a_time() {
    let events = vec![
        Event::StartElement {
            name: nebtools::events::QName::local("Ships"),
            attributes: Vec::new(),
            namespace: Vec::new(),
        },
        Event::StartElement {
            name: nebtools::events::QName::local("Ship"),
            attributes: Vec::new(),
            namespace: Vec::new(),
        },
        Event::Characters("x".to_string()),
        Event::EndElement { name: nebtools::events::QName::local("Ship") },
        Event::EndElement { name: nebtools::events::QName::local("Ships") },
    ];
    let mut reader = Reader::from_events(events.clone(), "Ships".to_string(), "Ship".to_string());
    assert_eq!(reader.state(), ReadState::Start);
    reader.tick();
    assert_eq!(reader.state(), ReadState::ReadElements);
    reader.tick();
    assert_eq!(reader.state(), ReadState::ReadElement);
    reader.tick();
    assert_eq!(reader.state(), ReadState::ReadElement);
    reader.tick();
    assert_eq!(reader.state(), ReadState::ReadElements);
    reader.tick();
    assert_eq!(reader.state(), ReadState::Done);
    reader.tick();
    assert_eq!(reader.state(), ReadState::Done);
    assert_eq!(reader.into_fragments(), vec![events[1..4].to_vec()]);
}

#[test]
fn splicer_appends_after_the_ships_of_the_target() {
    let ships = fragments(FLEET_B, "Ships", "Ship");
    let text = spliced(FLEET_A, ships, Vec::new(), "Merged");
    assert_eq!(text.matches("<Ship>").count(), 3);
    let second = text.find("Second").unwrap();
    let third = text.find("Third").unwrap();
    let missiles = text.find("<MissileTypes>").unwrap();
    assert!(second < third && third < missiles);
    assert_eq!(text.matches("<Name>Merged</Name>").count(), 1);
    assert_eq!(text.matches("<Name>First</Name>").count(), 1);
    assert_eq!(text.matches("<Name>Third</Name>").count(), 1);
    assert_eq!(text.matches("<MissileTemplate>").count(), 1);
}

#[test]
fn splicer_makes_the_missile_container_where_there_is_none() {
    let missiles = fragments(FLEET_A, "MissileTypes", "MissileTemplate");
    assert_eq!(missiles.len(), 1);
    let text = spliced(FLEET_B, Vec::new(), missiles, "Armed");
    assert_eq!(text.matches("<MissileTypes>").count(), 1);
    assert_eq!(text.matches("</MissileTypes>").count(), 1);
    assert_eq!(text.matches("<Designation>SGM-1</Designation>").count(), 1);
    let ships_end = text.find("</Ships>").unwrap();
    let container = text.find("<MissileTypes>").unwrap();
    let fleet_end = text.find("</Fleet>").unwrap();
    assert!(ships_end < container && container < fleet_end);
    assert!(text.contains("<Name>Armed</Name>"));
    assert!(text.starts_with("<?xml version=\"1.0\" encoding=\"UTF-8\" standalone=\"yes\"?>"));
}

#[test]
fn splicer_with_nothing_to_insert_copies_the_target() {
    let plain = spliced(FLEET_A, Vec::new(), Vec::new(), "Alpha");
    let again = spliced(&plain, Vec::new(), Vec::new(), "Alpha");
    assert_eq!(plain, again);
    assert_eq!(fragments(&plain, "Ships", "Ship"), fragments(&again, "Ships", "Ship"));
    assert_eq!(plain.matches("<Ship>").count(), 2);
    assert!(plain.contains("xmlns:xsd=\"http://www.w3.org/2001/XMLSchema\""));
}

#[test]
fn splicing_inserts_and_changes_nothing_else() {
    let ships = fragments(FLEET_A, "Ships", "Ship");
    let missiles = fragments(FLEET_A, "MissileTypes", "MissileTemplate");
    let bare = spliced(FLEET_A, Vec::new(), Vec::new(), "N");
    let full = spliced(FLEET_A, ships, missiles, "N");
    let bare_lines: Vec<&str> = bare.lines().collect();
    let full_lines: Vec<&str> = full.lines().collect();
    let ships_end = bare_lines.iter().position(|l| l.trim() == "</Ships>").unwrap();
    let missiles_end = bare_lines.iter().position(|l| l.trim() == "</MissileTypes>").unwrap();
    let own_ships: Vec<&str> = bare_lines[ships_end - 8..ships_end].to_vec();
    let own_missiles: Vec<&str> = bare_lines[missiles_end - 3..missiles_end].to_vec();
    let mut expected: Vec<&str> = Vec::new();
    expected.extend(&bare_lines[..ships_end]);
    expected.extend(&own_ships);
    expected.extend(&bare_lines[ships_end..missiles_end]);
    expected.extend(&own_missiles);
    expected.extend(&bare_lines[missiles_end..]);
    assert_eq!(full_lines, expected);
}

#[test]
fn splicer_fails_on_a_broken_target() {
    let mut writer = Writer::new(b"<Fleet><Ships></Fleet>", Vec::new(), Vec::new(), "X".to_string());
    writer.run_until_complete();
    assert!(writer.is_error());
    assert_eq!(writer.into_document(), None);
    let mut writer = Writer::new(b"<Fleet><Name>A</Name></Fleet>", Vec::new(), Vec::new(), "X".to_string());
    writer.run_until_complete();
    assert!(writer.is_error());
    assert_eq!(writer.into_output(), None);
}

#[test]
fn splicer_replaces_the_whole_content_of_the_name() {
    let target = "<Fleet><Name>Old <b>bold</b> name</Name><Ships/><MissileTypes/></Fleet>";
    let text = spliced(target, Vec::new(), Vec::new(), "New & improved");
    assert!(text.contains("<Name>New &amp; improved</Name>"));
    assert!(!text.contains("bold"));
    assert!(!text.contains("Old"));
}

#[test]
fn documents_are_merged_by_splicing() {
    let text = splice_fleets(" Joint ", FLEET_B.as_bytes(), &vec![FLEET_A.as_bytes().to_vec(), FLEET_B.as_bytes().to_vec()]).unwrap();
    let text = String::from_utf8(text).unwrap();
    assert!(text.contains("<Name>Joint</Name>"));
    assert_eq!(text.matches("<Ship>").count(), 2);
    assert_eq!(text.matches("<Ship xmlns:xsd=\"http://www.w3.org/2001/XMLSchema\"").count(), 2);
    let order: Vec<usize> = ["Third", "First", "Second"].iter().map(|n| text.find(n).unwrap()).collect();
    assert!(order[0] < order[1] && order[1] < order[2] && order[2] < text.rfind("Third").unwrap());
    assert_eq!(text.matches("<MissileTemplate ").count(), 1);
    assert_eq!(extract(text.as_bytes(), "Ships", "Ship").unwrap().len(), 4);
    assert_eq!(extract(FLEET_A.as_bytes(), "MissileTypes", "MissileTemplate").unwrap().len(), 1);
    assert_eq!(extract(b"<Fleet><Ships>", "Ships", "Ship"), None);
    let alone = splice_fleets("Solo", FLEET_A.as_bytes(), &Vec::new()).unwrap();
    assert_eq!(String::from_utf8(alone).unwrap(), spliced(FLEET_A, Vec::new(), Vec::new(), "Solo"));
}

#[test]
fn splicing_documents_fails_on_bad_input() {
    let e = splice_fleets("  ", FLEET_A.as_bytes(), &Vec::new()).unwrap_err();
    assert_eq!(e.kind, ErrorKind::Validation);
    assert_eq!(e.title, "No merge output name");
    let e = splice_fleets("X", FLEET_A.as_bytes(), &vec![b"<Fleet><Ships><Ship>".to_vec()]).unwrap_err();
    assert_eq!(e.kind, ErrorKind::Parse);
    assert_eq!(e.title, "One or more fleets could not be read");
    let e = splice_fleets("X", b"<Fleet>", &vec![FLEET_A.as_bytes().to_vec()]).unwrap_err();
    assert_eq!(e.kind, ErrorKind::Parse);
}

fn texts(fragment: &[Event]) -> Vec<String> {
    fragment
        .iter()
        .filter_map(|e| match e {
            Event::Characters(text) => Some(text.clone()),
            _ => None,
        })
        .collect()
}

#[test]
fn extractor_keeps_a_nested_element_of_the_same_name_inside_its_child() {
    let document = "<Fleet><Ships><Ship><Ship><Name>in</Name></Ship><Name>out</Name></Ship></Ships></Fleet>";
    let found = fragments(document, "Ships", "Ship");
    assert_eq!(found.len(), 1);
    assert_eq!(found[0].len(), 10);
    assert!(found[0][0].opens("Ship"));
    assert!(found[0][1].opens("Ship"));
    assert!(found[0][5].closes("Ship"));
    assert!(found[0][9].closes("Ship"));
    assert_eq!(texts(&found[0]), vec!["in", "out"]);
}

#[test]
fn extractor_passes_over_children_of_another_name() {
    let document = "<Fleet><Ships><Note><Ship><Name>hidden</Name></Ship></Note><Ship><Name>a</Name></Ship>\
                    <Other/>text<Ship><Name>b</Name></Ship></Ships><Ship><Name>outside</Name></Ship></Fleet>";
    let found = fragments(document, "Ships", "Ship");
    assert_eq!(found.len(), 2);
    assert_eq!(texts(&found[0]), vec!["a"]);
    assert_eq!(texts(&found[1]), vec!["b"]);
    assert_eq!(found[0].len(), 5);
}

#[test]
fn extractor_fails_on_a_child_closed_by_another_name() {
    let name = |n: &str| nebtools::events::QName::local(n);
    let open = |n: &str| Event::StartElement { name: name(n), attributes: Vec::new(), namespace: Vec::new() };
    let close = |n: &str| Event::EndElement { name: name(n) };
    let events = vec![open("Ships"), open("Ship"), Event::Characters("x".to_string()), close("Boat"), close("Ships")];
    let mut reader = Reader::from_events(events, "Ships".to_string(), "Ship".to_string());
    reader.run_until_complete();
    assert_eq!(reader.state(), ReadState::Error);
    assert_eq!(reader.into_fragments().len(), 0);
    let events = vec![open("Ships"), open("Ship"), open("Boat"), close("Ship"), close("Ship"), close("Ships")];
    let mut reader = Reader::from_events(events, "Ships".to_string(), "Ship".to_string());
    reader.run_until_complete();
    assert_eq!(reader.state(), ReadState::Done);
    assert_eq!(reader.into_fragments().len(), 1);
}

#[test]
fn splicer_appends_after_all_that_the_container_holds() {
    let target = "<Fleet><Name>T</Name><Ships><Ship><Name>own</Name><Ships><Ship><Name>deep</Name></Ship></Ships>\
                  </Ship></Ships><MissileTypes><MissileTemplate><MissileTypes/></MissileTemplate></MissileTypes></Fleet>";
    let ships = fragments(FLEET_B, "Ships", "Ship");
    let missiles = fragments(FLEET_A, "MissileTypes", "MissileTemplate");
    let text = spliced(target, ships, missiles, "N");
    let own = text.find("own").unwrap();
    let deep = text.find("deep").unwrap();
    let third = text.find("Third").unwrap();
    let container = text.find("<MissileTypes>").unwrap();
    assert!(own < deep && deep < third && third < container);
    let found = fragments(&text, "Ships", "Ship");
    assert_eq!(found.len(), 2);
    assert_eq!(texts(&found[0]), vec!["own", "deep"]);
    assert_eq!(texts(&found[1]), vec!["Third"]);
    let found = fragments(&text, "MissileTypes", "MissileTemplate");
    assert_eq!(found.len(), 2);
    assert_eq!(texts(&found[1]), vec!["SGM-1"]);
}

#[test]
fn splicer_fails_on_a_container_closed_by_another_name() {
    let name = |n: &str| nebtools::events::QName::local(n);
    let open = |n: &str| Event::StartElement { name: name(n), attributes: Vec::new(), namespace: Vec::new() };
    let close = |n: &str| Event::EndElement { name: name(n) };
    let events = vec![open("Fleet"), open("Ships"), close("Boats"), close("Fleet"), Event::EndDocument];
    let mut writer = Writer::from_events(events, Vec::new(), Vec::new(), "X".to_string());
    writer.run_until_complete();
    assert!(writer.is_error());
    let events = vec![open("Fleet"), open("Ships"), close("Ships"), close("Fleet"), Event::EndDocument];
    let mut writer = Writer::from_events(events, Vec::new(), Vec::new(), "X".to_string());
    writer.run_until_complete();
    assert!(writer.is_done());
    assert_eq!(writer.into_output().unwrap().len(), 6);
}
