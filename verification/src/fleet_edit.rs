//! The liner hull editor: the hull of a ship as a handful of small numbers,
//! and back.
//!
//! The hull of a liner is made of a bow, a core and a stern segment, each of
//! one of three kinds, and a superstructure of one of four kinds that stands
//! on one of the segments. A document names each kind by a key; which key
//! depends on the family of the hull, the position of the segment and the
//! kind. Bow and core carry dressings, one small number per slot; the
//! document leaves out the trailing slots without a dressing.

use vstd::prelude::*;
use vstd::array::ArrayAdditionalExecFns;
use crate::numbers::{decimal, decimal_text, parse_u8, parse_unsigned, parsed_unsigned};
use crate::schema::{
    Dressing, HullConfig, PrimaryStructure, SecondaryStructure, SecondaryStructureConfig,
    SegmentConfiguration, Ship,
};
use crate::lists::reversed;
use crate::text::str_eq;

verus! {

/// The family of a liner hull.
#[derive(Clone, Copy, Debug, PartialEq, Eq, Structural)]
pub enum HullFamily {
    /// The bulk hauler.
    Bulk,
    /// The container hauler and its refit.
    Container,
}

/// The position of a segment in a hull.
#[derive(Clone, Copy, Debug, PartialEq, Eq, Structural)]
pub enum SegmentPosition {
    Bow,
    Core,
    Stern,
}

/// The family of the hull type of a ship, where it is a liner.
pub open spec fn family_of(hull_type: Seq<char>) -> Option<HullFamily> {
    if hull_type == "Stock/Bulk Hauler"@ {
        Some(HullFamily::Bulk)
    } else if hull_type == "Stock/Container Hauler"@ || hull_type
        == "Stock/Container Hauler Refit"@ {
        Some(HullFamily::Container)
    } else {
        None
    }
}

/// The keys of the three kinds of segment of a family at a position.
pub open spec fn segment_keys(family: HullFamily, position: SegmentPosition) -> Seq<Seq<char>> {
    match (family, position) {
        (HullFamily::Bulk, SegmentPosition::Bow) => seq![
            "38e7a28f-1b06-4b73-98ee-f03d1d8a81fe"@,
            "29eb9c63-6c47-40f2-8f46-4ed4da8d3386"@,
            "c534a876-3f8a-4315-a194-5dda0f84c2b3"@,
        ],
        (HullFamily::Bulk, SegmentPosition::Core) => seq![
            "d4c9a66d-81e6-49ee-9b33-82d7a1522bbf"@,
            "e2c11e02-b770-495e-a3c2-3dc998eac5a6"@,
            "429f178e-e369-4f51-8054-2e01dd0abea1"@,
        ],
        (HullFamily::Bulk, SegmentPosition::Stern) => seq![
            "78d72a9a-893c-41c6-bddd-f198dfcf77ee"@,
            "2f2b451c-4776-405c-9914-cad4764f1072"@,
            "a8bf77b9-b7e3-4498-bf91-d3e777a7f688"@,
        ],
        (HullFamily::Container, SegmentPosition::Bow) => seq![
            "2d7c228c-cbd6-425e-9590-a2f8ae8d5915"@,
            "541cf476-4952-4234-a35a-5f1aa9089316"@,
            "bb034299-84c2-456f-b271-c91249cd4375"@,
        ],
        (HullFamily::Container, SegmentPosition::Core) => seq![
            "18a6bc15-58b0-479c-82c3-1722768f033d"@,
            "09354e51-953c-451a-b415-3e3361812650"@,
            "2c68a462-a143-4c89-aea0-df09d4786e92"@,
        ],
        (HullFamily::Container, SegmentPosition::Stern) => seq![
            "674e0528-3e0c-48e4-8e5e-d3a559869104"@,
            "2dbd82fe-d365-4367-aef5-9bb2d3528528"@,
            "aff1eba2-048e-4477-956b-574f4d468f1d"@,
        ],
    }
}

/// The keys of the four kinds of superstructure.
pub open spec fn bridge_keys() -> Seq<Seq<char>> {
    seq![
        "42d07c1a-156b-4057-aaca-7a2024751423"@,
        "c9d04445-3558-46b4-b6fc-7dca8617d438"@,
        "9ebcea74-e9c9-45b3-b616-e12e3f491024"@,
        "59344a67-9e7b-43df-9f7c-505ad9a0ab87"@,
    ]
}

/// The place of the first key of `keys` that is `key`, or the number of keys.
pub open spec fn key_index(keys: Seq<Seq<char>>, key: Seq<char>) -> int
    decreases keys.len(),
{
    if keys.len() == 0 {
        0
    } else if keys[0] == key {
        0
    } else {
        1 + key_index(keys.drop_first(), key)
    }
}

/// The place of a key is the place of a key that is the same.
pub proof fn lemma_key_index(keys: Seq<Seq<char>>, key: Seq<char>)
    ensures
        0 <= key_index(keys, key) <= keys.len(),
        key_index(keys, key) < keys.len() ==> keys[key_index(keys, key)] == key,
    decreases keys.len(),
{
    if keys.len() > 0 && keys[0] != key {
        lemma_key_index(keys.drop_first(), key);
    }
}

/// The family of a hull type, where it is a liner.
pub fn hull_family(hull_type: &str) -> (family: Option<HullFamily>)
    ensures
        family == family_of(hull_type@),
{
    if str_eq(hull_type, "Stock/Bulk Hauler") {
        Some(HullFamily::Bulk)
    } else if str_eq(hull_type, "Stock/Container Hauler") || str_eq(
        hull_type,
        "Stock/Container Hauler Refit",
    ) {
        Some(HullFamily::Container)
    } else {
        None
    }
}

/// The keys of the three kinds of segment of a family at a position.
fn segment_table(family: HullFamily, position: SegmentPosition) -> (keys: [&'static str; 3])
    ensures
        keys@.len() == 3,
        forall|i: int| 0 <= i < 3 ==> (#[trigger] keys@[i])@ == segment_keys(family, position)[i],
{
    match (family, position) {
        (HullFamily::Bulk, SegmentPosition::Bow) => [
            "38e7a28f-1b06-4b73-98ee-f03d1d8a81fe",
            "29eb9c63-6c47-40f2-8f46-4ed4da8d3386",
            "c534a876-3f8a-4315-a194-5dda0f84c2b3",
        ],
        (HullFamily::Bulk, SegmentPosition::Core) => [
            "d4c9a66d-81e6-49ee-9b33-82d7a1522bbf",
            "e2c11e02-b770-495e-a3c2-3dc998eac5a6",
            "429f178e-e369-4f51-8054-2e01dd0abea1",
        ],
        (HullFamily::Bulk, SegmentPosition::Stern) => [
            "78d72a9a-893c-41c6-bddd-f198dfcf77ee",
            "2f2b451c-4776-405c-9914-cad4764f1072",
            "a8bf77b9-b7e3-4498-bf91-d3e777a7f688",
        ],
        (HullFamily::Container, SegmentPosition::Bow) => [
            "2d7c228c-cbd6-425e-9590-a2f8ae8d5915",
            "541cf476-4952-4234-a35a-5f1aa9089316",
            "bb034299-84c2-456f-b271-c91249cd4375",
        ],
        (HullFamily::Container, SegmentPosition::Core) => [
            "18a6bc15-58b0-479c-82c3-1722768f033d",
            "09354e51-953c-451a-b415-3e3361812650",
            "2c68a462-a143-4c89-aea0-df09d4786e92",
        ],
        (HullFamily::Container, SegmentPosition::Stern) => [
            "674e0528-3e0c-48e4-8e5e-d3a559869104",
            "2dbd82fe-d365-4367-aef5-9bb2d3528528",
            "aff1eba2-048e-4477-956b-574f4d468f1d",
        ],
    }
}

/// The keys of the four kinds of superstructure.
fn bridge_table() -> (keys: [&'static str; 4])
    ensures
        keys@.len() == 4,
        forall|i: int| 0 <= i < 4 ==> (#[trigger] keys@[i])@ == bridge_keys()[i],
{
    [
        "42d07c1a-156b-4057-aaca-7a2024751423",
        "c9d04445-3558-46b4-b6fc-7dca8617d438",
        "9ebcea74-e9c9-45b3-b616-e12e3f491024",
        "59344a67-9e7b-43df-9f7c-505ad9a0ab87",
    ]
}

/// The key of the kind `index` of segment of a family at a position.
pub fn segment_key(family: HullFamily, position: SegmentPosition, index: usize) -> (key: Option<
    &'static str,
>)
    ensures
        match key {
            Some(key) => index < 3 && key@ == segment_keys(family, position)[index as int],
            None => index >= 3,
        },
{
    if index < 3 {
        Some(segment_table(family, position)[index])
    } else {
        None
    }
}

/// The kind of segment that a key names in a family at a position.
pub fn segment_index(family: HullFamily, position: SegmentPosition, key: &str) -> (index: Option<
    usize,
>)
    ensures
        match index {
            Some(i) => i < 3 && i == key_index(segment_keys(family, position), key@),
            None => key_index(segment_keys(family, position), key@) == 3,
        },
{
    let keys = segment_table(family, position);
    let ghost all = segment_keys(family, position);
    proof {
        reveal_with_fuel(key_index, 4);
        assert(all.drop_first().drop_first().drop_first() =~= Seq::empty());
        assert(all.drop_first()[0] == all[1]);
        assert(all.drop_first().drop_first()[0] == all[2]);
    }
    if str_eq(keys[0], key) {
        Some(0)
    } else if str_eq(keys[1], key) {
        Some(1)
    } else if str_eq(keys[2], key) {
        Some(2)
    } else {
        None
    }
}

/// The key of the kind `index` of superstructure.
pub fn bridge_key(index: usize) -> (key: Option<&'static str>)
    ensures
        match key {
            Some(key) => index < 4 && key@ == bridge_keys()[index as int],
            None => index >= 4,
        },
{
    if index < 4 {
        Some(bridge_table()[index])
    } else {
        None
    }
}

/// The kind of superstructure that a key names.
pub fn bridge_index(key: &str) -> (index: Option<usize>)
    ensures
        match index {
            Some(i) => i < 4 && i == key_index(bridge_keys(), key@),
            None => key_index(bridge_keys(), key@) == 4,
        },
{
    let keys = bridge_table();
    let ghost all = bridge_keys();
    proof {
        reveal_with_fuel(key_index, 5);
        assert(all.drop_first().drop_first().drop_first().drop_first() =~= Seq::empty());
        assert(all.drop_first()[0] == all[1]);
        assert(all.drop_first().drop_first()[0] == all[2]);
        assert(all.drop_first().drop_first().drop_first()[0] == all[3]);
    }
    if str_eq(keys[0], key) {
        Some(0)
    } else if str_eq(keys[1], key) {
        Some(1)
    } else if str_eq(keys[2], key) {
        Some(2)
    } else if str_eq(keys[3], key) {
        Some(3)
    } else {
        None
    }
}

/// The hull of a liner as the editor shows it.
#[derive(Clone, Copy, Debug, PartialEq, Eq)]
pub struct EditableHullParams {
    /// The kind of the bow segment, from 0 to 2.
    pub bow_type: usize,
    /// The kind of the core segment, from 0 to 2.
    pub core_type: usize,
    /// The kind of the stern segment, from 0 to 2.
    pub stern_type: usize,
    /// The dressing of each slot of the bow, 0 for none.
    pub bow_dressings: [u8; 8],
    /// The dressing of each slot of the core, 0 for none.
    pub core_dressings: [u8; 8],
    /// The segment that the superstructure stands on.
    pub superstructure_loc: usize,
    /// The kind of the superstructure, from 0 to 3.
    pub superstructure_type: usize,
}

impl Default for EditableHullParams {
    fn default() -> (params: Self)
        ensures
            params.bow_type == 0,
            params.core_type == 0,
            params.stern_type == 0,
            params.superstructure_loc == 0,
            params.superstructure_type == 0,
            forall|i: int| 0 <= i < 8 ==> params.bow_dressings@[i] == 0,
            forall|i: int| 0 <= i < 8 ==> params.core_dressings@[i] == 0,
    {
        EditableHullParams {
            bow_type: 0,
            core_type: 0,
            stern_type: 0,
            bow_dressings: [0, 0, 0, 0, 0, 0, 0, 0],
            core_dressings: [0, 0, 0, 0, 0, 0, 0, 0],
            superstructure_loc: 0,
            superstructure_type: 0,
        }
    }
}

/// The texts of a list of strings.
pub open spec fn texts(strings: Seq<String>) -> Seq<Seq<char>> {
    strings.map_values(|s: String| s@)
}

/// Whether the dressings of a segment can be shown: at most eight, each a
/// number from 0 to 255.
pub open spec fn dressings_readable(ints: Seq<String>) -> bool {
    &&& ints.len() <= 8
    &&& forall|i: int| 0 <= i < ints.len() ==> parsed_unsigned(#[trigger] ints[i]@, 255) is Some
}

/// The dressing of a slot: what the document holds for it, and 0 for a slot
/// that the document leaves out.
pub open spec fn dressing_value(ints: Seq<String>, slot: int) -> nat {
    if 0 <= slot < ints.len() {
        parsed_unsigned(ints[slot]@, 255)->0
    } else {
        0
    }
}

/// Whether `dressings` holds the dressings of the eight slots of a segment.
pub open spec fn dressings_of(dressings: [u8; 8], ints: Seq<String>) -> bool {
    forall|slot: int| 0 <= slot < 8 ==> #[trigger] dressings@[slot] == dressing_value(ints, slot)
}

/// Whether a ship has a hull that the editor can show: a hull of a liner
/// with at least three segments of known kinds, dressings of bow and core
/// that can be shown, and a superstructure of a known kind on a segment with
/// a number.
pub open spec fn editable(ship: Ship) -> bool {
    &&& family_of(ship.hull_type@) is Some
    &&& ship.hull_config matches Some(hull)
    &&& hull.primary_structure matches Some(primary)
    &&& hull.secondary_structure matches Some(secondary)
    &&& primary.segment_configuration@.len() >= 3
    &&& {
        let family = family_of(ship.hull_type@)->0;
        let segments = primary.segment_configuration@;
        let bridge = secondary.secondary_structure_config;
        &&& key_index(segment_keys(family, SegmentPosition::Bow), segments[0].key@) < 3
        &&& key_index(segment_keys(family, SegmentPosition::Core), segments[1].key@) < 3
        &&& key_index(segment_keys(family, SegmentPosition::Stern), segments[2].key@) < 3
        &&& dressings_readable(segments[0].dressing.int@)
        &&& dressings_readable(segments[1].dressing.int@)
        &&& key_index(bridge_keys(), bridge.key@) < 4
        &&& parsed_unsigned(bridge.segment@, usize::MAX as nat) is Some
    }
}

/// Whether `params` shows the hull of a ship that the editor can show.
pub open spec fn shows(params: EditableHullParams, ship: Ship) -> bool {
    let family = family_of(ship.hull_type@)->0;
    let segments = ship.hull_config->0.primary_structure->0.segment_configuration@;
    let bridge = ship.hull_config->0.secondary_structure->0.secondary_structure_config;
    &&& params.bow_type == key_index(segment_keys(family, SegmentPosition::Bow), segments[0].key@)
    &&& params.core_type == key_index(
        segment_keys(family, SegmentPosition::Core),
        segments[1].key@,
    )
    &&& params.stern_type == key_index(
        segment_keys(family, SegmentPosition::Stern),
        segments[2].key@,
    )
    &&& dressings_of(params.bow_dressings, segments[0].dressing.int@)
    &&& dressings_of(params.core_dressings, segments[1].dressing.int@)
    &&& params.superstructure_type == key_index(bridge_keys(), bridge.key@)
    &&& params.superstructure_loc == parsed_unsigned(bridge.segment@, usize::MAX as nat)->0
}

/// The dressings of the eight slots of a segment, where they can be shown.
pub fn read_dressings(ints: &Vec<String>) -> (dressings: Option<[u8; 8]>)
    ensures
        dressings is Some <==> dressings_readable(ints@),
        dressings matches Some(d) ==> dressings_of(d, ints@),
{
    if ints.len() > 8 {
        return None;
    }
    let mut dressings: [u8; 8] = [0, 0, 0, 0, 0, 0, 0, 0];
    let mut i: usize = 0;
    while i < ints.len()
        invariant
            i <= ints.len() <= 8,
            forall|k: int| 0 <= k < i ==> parsed_unsigned(#[trigger] ints@[k]@, 255) is Some,
            forall|slot: int|
                0 <= slot < 8 ==> #[trigger] dressings@[slot] == if slot < i {
                    dressing_value(ints@, slot)
                } else {
                    0
                },
        decreases ints.len() - i,
    {
        match parse_u8(ints[i].as_str()) {
            Some(value) => {
                dressings.set(i, value);
            },
            None => {
                return None;
            },
        }
        i += 1;
    }
    Some(dressings)
}

/// The hull of a ship as the editor shows it; nothing for a ship without a
/// hull that the editor can show.
pub fn get_ln_editable_hull_params(ship: &Ship) -> (params: Option<EditableHullParams>)
    ensures
        params is Some <==> editable(*ship),
        params matches Some(p) ==> shows(p, *ship),
{
    let family = hull_family(ship.hull_type.as_str())?;
    let hull = match &ship.hull_config {
        Some(hull) => hull,
        None => {
            return None;
        },
    };
    let primary = match &hull.primary_structure {
        Some(primary) => primary,
        None => {
            return None;
        },
    };
    let secondary = match &hull.secondary_structure {
        Some(secondary) => secondary,
        None => {
            return None;
        },
    };
    let segments = &primary.segment_configuration;
    if segments.len() < 3 {
        return None;
    }
    let bridge = &secondary.secondary_structure_config;
    let bow_type = segment_index(family, SegmentPosition::Bow, segments[0].key.as_str())?;
    let core_type = segment_index(family, SegmentPosition::Core, segments[1].key.as_str())?;
    let stern_type = segment_index(family, SegmentPosition::Stern, segments[2].key.as_str())?;
    let bow_dressings = read_dressings(&segments[0].dressing.int)?;
    let core_dressings = read_dressings(&segments[1].dressing.int)?;
    let superstructure_type = bridge_index(bridge.key.as_str())?;
    let superstructure_loc = match parse_unsigned(bridge.segment.as_str(), usize::MAX as u64) {
        Some(loc) => loc as usize,
        None => {
            return None;
        },
    };
    Some(
        EditableHullParams {
            bow_type,
            core_type,
            stern_type,
            bow_dressings,
            core_dressings,
            superstructure_loc,
            superstructure_type,
        },
    )
}

/// The dressings without the trailing slots that have none.
pub open spec fn without_trailing_zeros(values: Seq<u8>) -> Seq<u8>
    decreases values.len(),
{
    if values.len() > 0 && values.last() == 0 {
        without_trailing_zeros(values.drop_last())
    } else {
        values
    }
}

/// What a document holds for the dressings of a segment: the text of each
/// number, without the trailing slots that have none.
pub open spec fn dressing_texts(values: Seq<u8>) -> Seq<Seq<char>> {
    without_trailing_zeros(values).map_values(|v: u8| decimal(v as nat))
}

/// Whether `new` is the segment `old` with the key `key` and, where the
/// segment carries dressings that the editor sets, with those dressings.
pub open spec fn segment_written(
    old: SegmentConfiguration,
    new: SegmentConfiguration,
    key: Seq<char>,
    dressings: Option<Seq<u8>>,
) -> bool {
    &&& new.text == old.text
    &&& new.key@ == key
    &&& match dressings {
        Some(values) => new.dressing.text == old.dressing.text && texts(new.dressing.int@)
            == dressing_texts(values),
        None => new.dressing == old.dressing,
    }
}

/// The key that the editor writes for the segment at the place `i`.
pub open spec fn written_key(family: HullFamily, params: EditableHullParams, i: int) -> Seq<char> {
    if i == 0 {
        segment_keys(family, SegmentPosition::Bow)[params.bow_type as int]
    } else if i == 1 {
        segment_keys(family, SegmentPosition::Core)[params.core_type as int]
    } else {
        segment_keys(family, SegmentPosition::Stern)[params.stern_type as int]
    }
}

/// The dressings that the editor writes for the segment at the place `i`:
/// those of the bow, those of the core, and none for any other.
pub open spec fn written_dressings(params: EditableHullParams, i: int) -> Option<Seq<u8>> {
    if i == 0 {
        Some(params.bow_dressings@)
    } else if i == 1 {
        Some(params.core_dressings@)
    } else {
        None
    }
}

/// Whether `new` is the list of segments `old` as the editor writes it: the
/// first three with the keys and dressings of `params`, the others as they
/// were.
pub open spec fn segments_written(
    old: Seq<SegmentConfiguration>,
    new: Seq<SegmentConfiguration>,
    family: HullFamily,
    params: EditableHullParams,
) -> bool {
    &&& new.len() == old.len()
    &&& forall|i: int|
        0 <= i < old.len() ==> if i < 3 {
            segment_written(
                #[trigger] old[i],
                new[i],
                written_key(family, params, i),
                written_dressings(params, i),
            )
        } else {
            new[i] == old[i]
        }
}

/// Whether `new` is the superstructure `old` of the kind and on the segment
/// of `params`.
pub open spec fn bridge_written(
    old: SecondaryStructure,
    new: SecondaryStructure,
    params: EditableHullParams,
) -> bool {
    &&& new.text == old.text
    &&& new.secondary_structure_config == (SecondaryStructureConfig {
        key: new.secondary_structure_config.key,
        segment: new.secondary_structure_config.segment,
        ..old.secondary_structure_config
    })
    &&& new.secondary_structure_config.key@ == bridge_keys()[params.superstructure_type as int]
    &&& new.secondary_structure_config.segment@ == decimal(params.superstructure_loc as nat)
}

/// Whether the editor can write `params` to a ship: the ship has the hull of
/// a liner, and every kind is one that exists.
pub open spec fn writable(ship: Ship, params: EditableHullParams) -> bool {
    &&& ship.hull_config is Some
    &&& family_of(ship.hull_type@) is Some
    &&& params.bow_type < 3
    &&& params.core_type < 3
    &&& params.stern_type < 3
    &&& params.superstructure_type < 4
}

/// Whether `new` is the ship `old` with `params` written to its hull: to
/// the superstructure and to the segments, as far as the hull has them, and
/// nothing else changed.
pub open spec fn hull_written(old: Ship, new: Ship, params: EditableHullParams) -> bool {
    let family = family_of(old.hull_type@)->0;
    &&& new == (Ship { hull_config: new.hull_config, ..old })
    &&& old.hull_config matches Some(old_hull)
    &&& new.hull_config matches Some(new_hull)
    &&& new_hull == (HullConfig {
        primary_structure: new_hull.primary_structure,
        secondary_structure: new_hull.secondary_structure,
        ..old_hull
    })
    &&& match old_hull.secondary_structure {
        Some(bridge) => new_hull.secondary_structure matches Some(new_bridge) && bridge_written(
            bridge,
            new_bridge,
            params,
        ),
        None => new_hull.secondary_structure is None,
    }
    &&& match old_hull.primary_structure {
        Some(primary) => new_hull.primary_structure matches Some(new_primary) && new_primary.text
            == primary.text && segments_written(
            primary.segment_configuration@,
            new_primary.segment_configuration@,
            family,
            params,
        ),
        None => new_hull.primary_structure is None,
    }
}

/// The texts of the dressings of a segment, without the trailing slots that
/// have none.
pub fn write_dressings(dressings: &[u8; 8]) -> (ints: Vec<String>)
    ensures
        texts(ints@) == dressing_texts(dressings@),
{
    let mut count: usize = 8;
    proof {
        assert(dressings@.take(8) =~= dressings@);
    }
    while count > 0 && dressings[count - 1] == 0
        invariant
            count <= 8,
            dressings@.len() == 8,
            without_trailing_zeros(dressings@.take(count as int)) == without_trailing_zeros(
                dressings@,
            ),
        decreases count,
    {
        proof {
            assert(dressings@.take(count as int).drop_last() =~= dressings@.take(count - 1));
        }
        count -= 1;
    }
    let ghost kept = dressings@.take(count as int);
    proof {
        assert(without_trailing_zeros(kept) == kept);
    }
    let mut ints: Vec<String> = Vec::new();
    let mut i: usize = 0;
    while i < count
        invariant
            i <= count <= 8,
            dressings@.len() == 8,
            kept == dressings@.take(count as int),
            texts(ints@) == kept.take(i as int).map_values(|v: u8| decimal(v as nat)),
        decreases count - i,
    {
        let ghost before = ints@;
        let text = decimal_text(dressings[i] as u64);
        ints.push(text);
        proof {
            assert(texts(before.push(text)) =~= texts(before).push(text@));
            assert(kept.take(i + 1) =~= kept.take(i as int).push(kept[i as int]));
            assert(kept.take(i as int).push(kept[i as int]).map_values(|v: u8| decimal(v as nat))
                =~= kept.take(i as int).map_values(|v: u8| decimal(v as nat)).push(
                decimal(kept[i as int] as nat),
            ));
        }
        i += 1;
    }
    proof {
        assert(kept.take(count as int) =~= kept);
    }
    ints
}

/// The segment with another key and, where dressings are given, with those.
fn write_segment(segment: SegmentConfiguration, key: &str, dressings: Option<&[u8; 8]>) -> (new:
    SegmentConfiguration)
    ensures
        segment_written(
            segment,
            new,
            key@,
            match dressings {
                Some(values) => Some(values@),
                None => None,
            },
        ),
{
    let dressing = match dressings {
        Some(values) => Dressing { text: segment.dressing.text, int: write_dressings(values) },
        None => segment.dressing,
    };
    SegmentConfiguration { text: segment.text, key: key.to_owned(), dressing }
}

/// The segments as the editor writes them.
fn write_segments(
    segments: Vec<SegmentConfiguration>,
    family: HullFamily,
    params: &EditableHullParams,
) -> (new: Vec<SegmentConfiguration>)
    requires
        params.bow_type < 3,
        params.core_type < 3,
        params.stern_type < 3,
    ensures
        segments_written(segments@, new@, family, *params),
{
    let ghost all = segments@;
    let bow_key = segment_table(family, SegmentPosition::Bow)[params.bow_type];
    let core_key = segment_table(family, SegmentPosition::Core)[params.core_type];
    let stern_key = segment_table(family, SegmentPosition::Stern)[params.stern_type];
    let mut rest = reversed(segments);
    let mut new: Vec<SegmentConfiguration> = Vec::new();
    proof {
        assert(rest@.reverse() =~= all);
        assert(all.skip(0) =~= all);
    }
    loop
        invariant
            bow_key@ == written_key(family, *params, 0),
            core_key@ == written_key(family, *params, 1),
            stern_key@ == written_key(family, *params, 2),
            rest@.len() <= all.len(),
            rest@.reverse() == all.skip(all.len() - rest@.len()),
            new@.len() == all.len() - rest@.len(),
            forall|i: int|
                0 <= i < new@.len() ==> if i < 3 {
                    segment_written(
                        #[trigger] all[i],
                        new@[i],
                        written_key(family, *params, i),
                        written_dressings(*params, i),
                    )
                } else {
                    new@[i] == all[i]
                },
        ensures
            segments_written(all, new@, family, *params),
        decreases rest@.len(),
    {
        let ghost done = new@.len() as int;
        let ghost stack = rest@;
        let place = new.len();
        match rest.pop() {
            Some(segment) => {
                proof {
                    assert(stack.reverse()[0] == segment);
                    assert(all[done] == segment);
                    assert(rest@.reverse() =~= stack.reverse().drop_first());
                    assert(all.skip(done).drop_first() =~= all.skip(done + 1));
                }
                let written = if place == 0 {
                    write_segment(segment, bow_key, Some(&params.bow_dressings))
                } else if place == 1 {
                    write_segment(segment, core_key, Some(&params.core_dressings))
                } else if place == 2 {
                    write_segment(segment, stern_key, None)
                } else {
                    segment
                };
                new.push(written);
            },
            None => {
                break ;
            },
        }
    }
    new
}

/// Writes `hull_params` to the hull of a ship: the kind of the
/// superstructure and the segment it stands on, the kinds of the bow, core
/// and stern segments, and the dressings of bow and core, as far as the hull
/// has them.
///
/// Does nothing and returns nothing where the ship has no hull or is no
/// liner, or where a kind does not exist.
pub fn set_ln_hull_config(ship: &mut Ship, hull_params: EditableHullParams) -> (done: Option<()>)
    ensures
        done is Some <==> writable(*old(ship), hull_params),
        done is Some ==> hull_written(*old(ship), *final(ship), hull_params),
        done is None ==> *final(ship) == *old(ship),
{
    let family = hull_family(ship.hull_type.as_str())?;
    if ship.hull_config.is_none() || hull_params.bow_type >= 3 || hull_params.core_type >= 3
        || hull_params.stern_type >= 3 || hull_params.superstructure_type >= 4 {
        return None;
    }
    let hull = ship.hull_config.take().unwrap();
    let secondary_structure = match hull.secondary_structure {
        Some(bridge) => Some(
            SecondaryStructure {
                text: bridge.text,
                secondary_structure_config: SecondaryStructureConfig {
                    text: bridge.secondary_structure_config.text,
                    key: bridge_table()[hull_params.superstructure_type].to_owned(),
                    segment: decimal_text(hull_params.superstructure_loc as u64),
                    snap_point: bridge.secondary_structure_config.snap_point,
                },
            },
        ),
        None => None,
    };
    let primary_structure = match hull.primary_structure {
        Some(primary) => Some(
            PrimaryStructure {
                text: primary.text,
                segment_configuration: write_segments(
                    primary.segment_configuration,
                    family,
                    &hull_params,
                ),
            },
        ),
        None => None,
    };
    ship.hull_config = Some(
        HullConfig {
            xsi_type: hull.xsi_type,
            text: hull.text,
            texture_variation: hull.texture_variation,
            hull_tint: hull.hull_tint,
            secondary_structure,
            primary_structure,
        },
    );
    Some(())
}

/// Whether `new` is the ship `old` with the key `key` for its segment at the
/// place `place`, and nothing else changed.
pub open spec fn segment_key_set(old: Ship, new: Ship, place: int, key: Seq<char>) -> bool {
    &&& new == (Ship { hull_config: new.hull_config, ..old })
    &&& old.hull_config matches Some(old_hull)
    &&& new.hull_config matches Some(new_hull)
    &&& new_hull == (HullConfig { primary_structure: new_hull.primary_structure, ..old_hull })
    &&& old_hull.primary_structure matches Some(primary)
    &&& new_hull.primary_structure matches Some(new_primary)
    &&& new_primary.text == primary.text
    &&& 0 <= place < primary.segment_configuration@.len()
    &&& new_primary.segment_configuration@.len() == primary.segment_configuration@.len()
    &&& forall|i: int|
        0 <= i < primary.segment_configuration@.len() ==> if i == place {
            (#[trigger] new_primary.segment_configuration@[i]) == (SegmentConfiguration {
                key: new_primary.segment_configuration@[i].key,
                ..primary.segment_configuration@[i]
            }) && new_primary.segment_configuration@[i].key@ == key
        } else {
            new_primary.segment_configuration@[i] == primary.segment_configuration@[i]
        }
}

/// Whether the kind of the segment of a ship at a position can be set: the
/// ship is a liner whose hull has that segment, and the kind exists.
pub open spec fn segment_settable(ship: Ship, position: SegmentPosition, segment_type: usize) -> bool {
    &&& family_of(ship.hull_type@) is Some
    &&& segment_type < 3
    &&& ship.hull_config matches Some(hull)
    &&& hull.primary_structure matches Some(primary)
    &&& place_of(position) < primary.segment_configuration@.len()
}

/// The place of the segment at a position in the list of segments.
pub open spec fn place_of(position: SegmentPosition) -> int {
    match position {
        SegmentPosition::Bow => 0,
        SegmentPosition::Core => 1,
        SegmentPosition::Stern => 2,
    }
}

/// Sets the kind of the segment of a ship at a position; does nothing and
/// returns nothing where that cannot be done.
pub fn set_segment_type(ship: &mut Ship, position: SegmentPosition, segment_type: usize) -> (done:
    Option<()>)
    ensures
        done is Some <==> segment_settable(*old(ship), position, segment_type),
        done is Some ==> segment_key_set(
            *old(ship),
            *final(ship),
            place_of(position),
            segment_keys(family_of(old(ship).hull_type@)->0, position)[segment_type as int],
        ),
        done is None ==> *final(ship) == *old(ship),
{
    let family = hull_family(ship.hull_type.as_str())?;
    let key = segment_key(family, position, segment_type)?;
    let place: usize = match position {
        SegmentPosition::Bow => 0,
        SegmentPosition::Core => 1,
        SegmentPosition::Stern => 2,
    };
    let fits = match &ship.hull_config {
        Some(hull) => match &hull.primary_structure {
            Some(primary) => place < primary.segment_configuration.len(),
            None => false,
        },
        None => false,
    };
    if !fits {
        return None;
    }
    let hull = ship.hull_config.take().unwrap();
    let primary = hull.primary_structure.unwrap();
    let mut segments = primary.segment_configuration;
    let ghost before = segments@;
    let segment = segments.remove(place);
    let changed = SegmentConfiguration {
        text: segment.text,
        key: key.to_owned(),
        dressing: segment.dressing,
    };
    segments.insert(place, changed);
    proof {
        assert(segments@ =~= before.update(place as int, changed));
    }
    ship.hull_config = Some(
        HullConfig {
            xsi_type: hull.xsi_type,
            text: hull.text,
            texture_variation: hull.texture_variation,
            hull_tint: hull.hull_tint,
            secondary_structure: hull.secondary_structure,
            primary_structure: Some(
                PrimaryStructure { text: primary.text, segment_configuration: segments },
            ),
        },
    );
    Some(())
}

/// Sets the kind of the bow segment of a liner.
pub fn set_ln_bow_type(ship: &mut Ship, segment_type: usize) -> (done: Option<()>)
    ensures
        done is Some <==> segment_settable(*old(ship), SegmentPosition::Bow, segment_type),
        done is Some ==> segment_key_set(
            *old(ship),
            *final(ship),
            0,
            segment_keys(family_of(old(ship).hull_type@)->0, SegmentPosition::Bow)[segment_type as int],
        ),
        done is None ==> *final(ship) == *old(ship),
{
    set_segment_type(ship, SegmentPosition::Bow, segment_type)
}

/// Sets the kind of the core segment of a liner.
pub fn set_ln_core_type(ship: &mut Ship, segment_type: usize) -> (done: Option<()>)
    ensures
        done is Some <==> segment_settable(*old(ship), SegmentPosition::Core, segment_type),
        done is Some ==> segment_key_set(
            *old(ship),
            *final(ship),
            1,
            segment_keys(family_of(old(ship).hull_type@)->0, SegmentPosition::Core)[segment_type as int],
        ),
        done is None ==> *final(ship) == *old(ship),
{
    set_segment_type(ship, SegmentPosition::Core, segment_type)
}

/// Sets the kind of the stern segment of a liner.
pub fn set_ln_stern_type(ship: &mut Ship, segment_type: usize) -> (done: Option<()>)
    ensures
        done is Some <==> segment_settable(*old(ship), SegmentPosition::Stern, segment_type),
        done is Some ==> segment_key_set(
            *old(ship),
            *final(ship),
            2,
            segment_keys(family_of(old(ship).hull_type@)->0, SegmentPosition::Stern)[segment_type as int],
        ),
        done is None ==> *final(ship) == *old(ship),
{
    set_segment_type(ship, SegmentPosition::Stern, segment_type)
}

/// Whether `new` is the ship `old` with a superstructure of the kind
/// `superstructure_type` on the segment `superstructure_segment`, and
/// nothing else changed.
pub open spec fn bridge_set(
    old: Ship,
    new: Ship,
    superstructure_type: usize,
    superstructure_segment: usize,
) -> bool {
    &&& new == (Ship { hull_config: new.hull_config, ..old })
    &&& old.hull_config matches Some(old_hull)
    &&& new.hull_config matches Some(new_hull)
    &&& new_hull == (HullConfig { secondary_structure: new_hull.secondary_structure, ..old_hull })
    &&& old_hull.secondary_structure matches Some(bridge)
    &&& new_hull.secondary_structure matches Some(new_bridge)
    &&& new_bridge.text == bridge.text
    &&& new_bridge.secondary_structure_config == (SecondaryStructureConfig {
        key: new_bridge.secondary_structure_config.key,
        segment: new_bridge.secondary_structure_config.segment,
        ..bridge.secondary_structure_config
    })
    &&& new_bridge.secondary_structure_config.key@ == bridge_keys()[superstructure_type as int]
    &&& new_bridge.secondary_structure_config.segment@ == decimal(superstructure_segment as nat)
}

/// Whether the superstructure of a ship can be set: the ship has a hull
/// with a superstructure, and the kind exists.
pub open spec fn bridge_settable(ship: Ship, superstructure_type: usize) -> bool {
    &&& superstructure_type < 4
    &&& ship.hull_config matches Some(hull)
    &&& hull.secondary_structure is Some
}

/// Sets the kind of the superstructure of a ship and the segment it stands
/// on; does nothing and returns nothing where the ship has no hull with a
/// superstructure, or the kind does not exist.
pub fn set_bridge_type_and_anchor(
    ship: &mut Ship,
    superstructure_type: usize,
    superstructure_segment: usize,
) -> (done: Option<()>)
    ensures
        done is Some <==> bridge_settable(*old(ship), superstructure_type),
        done is Some ==> bridge_set(
            *old(ship),
            *final(ship),
            superstructure_type,
            superstructure_segment,
        ),
        done is None ==> *final(ship) == *old(ship),
{
    let key = bridge_key(superstructure_type)?;
    let fits = match &ship.hull_config {
        Some(hull) => hull.secondary_structure.is_some(),
        None => false,
    };
    if !fits {
        return None;
    }
    let hull = ship.hull_config.take().unwrap();
    let bridge = hull.secondary_structure.unwrap();
    ship.hull_config = Some(
        HullConfig {
            xsi_type: hull.xsi_type,
            text: hull.text,
            texture_variation: hull.texture_variation,
            hull_tint: hull.hull_tint,
            secondary_structure: Some(
                SecondaryStructure {
                    text: bridge.text,
                    secondary_structure_config: SecondaryStructureConfig {
                        text: bridge.secondary_structure_config.text,
                        key: key.to_owned(),
                        segment: decimal_text(superstructure_segment as u64),
                        snap_point: bridge.secondary_structure_config.snap_point,
                    },
                },
            ),
            primary_structure: hull.primary_structure,
        },
    );
    Some(())
}

/// The dressings without the trailing slots that have none are a beginning
/// of the dressings, `count` long, and every slot after it has none.
pub proof fn lemma_without_trailing_zeros(values: Seq<u8>) -> (count: int)
    ensures
        0 <= count <= values.len(),
        without_trailing_zeros(values) == values.take(count),
        forall|i: int| count <= i < values.len() ==> values[i] == 0,
    decreases values.len(),
{
    if values.len() > 0 && values.last() == 0 {
        let count = lemma_without_trailing_zeros(values.drop_last());
        assert(values.drop_last().take(count) =~= values.take(count));
        assert forall|i: int| count <= i < values.len() implies values[i] == 0 by {
            if i < values.len() - 1 {
                assert(values.drop_last()[i] == 0);
            }
        }
        count
    } else {
        assert(values.take(values.len() as int) =~= values);
        values.len() as int
    }
}

/// What is written for the dressings of a segment is read back as the same
/// dressings: the slots that are left out on writing are filled in on
/// reading.
pub proof fn lemma_dressings_round_trip(dressings: [u8; 8], ints: Seq<String>)
    requires
        texts(ints) == dressing_texts(dressings@),
    ensures
        dressings_readable(ints),
        dressings_of(dressings, ints),
{
    let values = dressings@;
    let count = lemma_without_trailing_zeros(values);
    assert(ints.len() == texts(ints).len());
    assert forall|i: int| 0 <= i < ints.len() implies parsed_unsigned(#[trigger] ints[i]@, 255)
        == Some(values[i] as nat) by {
        assert(texts(ints)[i] == ints[i]@);
        assert(dressing_texts(values)[i] == decimal(values[i] as nat));
        crate::numbers::lemma_decimal_parses(values[i] as nat);
        let text = decimal(values[i] as nat);
        assert(crate::numbers::is_digit(text[0]));
    }
    assert forall|slot: int| 0 <= slot < 8 implies #[trigger] dressings@[slot] == dressing_value(
        ints,
        slot,
    ) by {
        if slot < ints.len() {
            assert(parsed_unsigned(ints[slot]@, 255) == Some(values[slot] as nat));
        }
    }
}

/// Writing to a ship the hull that the editor shows for it leaves the keys
/// of its segments and of its superstructure as they were.
pub proof fn lemma_hull_round_trip(ship: Ship, params: EditableHullParams, new: Ship)
    requires
        editable(ship),
        shows(params, ship),
        hull_written(ship, new, params),
    ensures
        writable(ship, params),
        new.hull_config->0.secondary_structure->0.secondary_structure_config.key@
            == ship.hull_config->0.secondary_structure->0.secondary_structure_config.key@,
        new.hull_config->0.primary_structure->0.segment_configuration@.len()
            == ship.hull_config->0.primary_structure->0.segment_configuration@.len(),
        forall|i: int|
            0 <= i < ship.hull_config->0.primary_structure->0.segment_configuration@.len() ==> (
            #[trigger] new.hull_config->0.primary_structure->0.segment_configuration@[i]).key@
                == ship.hull_config->0.primary_structure->0.segment_configuration@[i].key@,
{
    let family = family_of(ship.hull_type@)->0;
    let old_segments = ship.hull_config->0.primary_structure->0.segment_configuration@;
    let new_segments = new.hull_config->0.primary_structure->0.segment_configuration@;
    let bridge = ship.hull_config->0.secondary_structure->0.secondary_structure_config;
    lemma_key_index(segment_keys(family, SegmentPosition::Bow), old_segments[0].key@);
    lemma_key_index(segment_keys(family, SegmentPosition::Core), old_segments[1].key@);
    lemma_key_index(segment_keys(family, SegmentPosition::Stern), old_segments[2].key@);
    lemma_key_index(bridge_keys(), bridge.key@);
    assert forall|i: int| 0 <= i < old_segments.len() implies (#[trigger] new_segments[i]).key@
        == old_segments[i].key@ by {
        assert(if i < 3 {
            segment_written(
                old_segments[i],
                new_segments[i],
                written_key(family, params, i),
                written_dressings(params, i),
            )
        } else {
            new_segments[i] == old_segments[i]
        });
    }
}

} // verus!
