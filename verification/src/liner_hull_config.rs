//! The rules on where the superstructure of a liner may stand, and the
//! dressings that each kind of segment offers.

use vstd::prelude::*;
use crate::fleet_edit::{EditableHullParams, HullFamily, SegmentPosition};

verus! {

/// The selected dressings of bow and core, as the choice in each slot.
#[derive(Debug, Clone, PartialEq, Eq)]
pub struct DressingSelections {
    pub bow: Vec<i32>,
    pub core: Vec<i32>,
}

/// The hull of a liner as a form holds it.
#[derive(Debug, Clone, PartialEq, Eq)]
pub struct LinerHullConfig {
    /// The kind of the bow segment.
    pub segment_bow: i32,
    /// The kind of the core segment.
    pub segment_core: i32,
    /// The kind of the stern segment.
    pub segment_stern: i32,
    /// The kind of the superstructure.
    pub bridge_model: i32,
    /// The segment that the superstructure stands on: 0 for the bow, 1 for
    /// the core, 2 for the stern.
    pub bridge_segment: i32,
    /// The place of the superstructure on its segment.
    pub bridge_snappoint: i32,
    pub dressings: DressingSelections,
}

/// What is wrong with the place of the superstructure of a bulk hauler:
/// it cannot stand on a bow of kind C, on a stern of kind B, or on a segment
/// that does not exist.
pub open spec fn marauder_violation(bridge_segment: int, segment_bow: int, segment_stern: int) -> Option<
    Seq<char>,
> {
    if bridge_segment == 0 {
        if segment_bow == 2 {
            Some("Bridge cannot be placed on bow section C"@)
        } else {
            None
        }
    } else if bridge_segment == 1 {
        None
    } else if bridge_segment == 2 {
        if segment_stern == 1 {
            Some("Bridge cannot be placed on stern section B"@)
        } else {
            None
        }
    } else {
        Some("Bridge assigned to non-existant section"@)
    }
}

/// What is wrong with the place of the superstructure of a container
/// hauler: it cannot stand on a bow of kind A, or on a segment that does not
/// exist.
pub open spec fn moorline_violation(bridge_segment: int, segment_bow: int) -> Option<Seq<char>> {
    if bridge_segment == 0 {
        if segment_bow == 0 {
            Some("Bridge cannot be placed on bow section A"@)
        } else {
            None
        }
    } else if bridge_segment == 1 || bridge_segment == 2 {
        None
    } else {
        Some("Bridge assigned to non-existant section"@)
    }
}

/// The message of a violation.
pub open spec fn message_view(message: Option<&'static str>) -> Option<Seq<char>> {
    match message {
        Some(text) => Some(text@),
        None => None,
    }
}

/// Tells what is wrong with the hull of a bulk hauler, if anything.
pub fn is_marauder_config_allowed(hull_config: &LinerHullConfig) -> (violation: Option<
    &'static str,
>)
    ensures
        message_view(violation) == marauder_violation(
            hull_config.bridge_segment as int,
            hull_config.segment_bow as int,
            hull_config.segment_stern as int,
        ),
{
    if hull_config.bridge_segment == 0 {
        if hull_config.segment_bow == 2 {
            Some("Bridge cannot be placed on bow section C")
        } else {
            None
        }
    } else if hull_config.bridge_segment == 1 {
        None
    } else if hull_config.bridge_segment == 2 {
        if hull_config.segment_stern == 1 {
            Some("Bridge cannot be placed on stern section B")
        } else {
            None
        }
    } else {
        Some("Bridge assigned to non-existant section")
    }
}

/// Tells what is wrong with the hull of a container hauler, if anything.
pub fn is_moorline_config_allowed(hull_config: &LinerHullConfig) -> (violation: Option<
    &'static str,
>)
    ensures
        message_view(violation) == moorline_violation(
            hull_config.bridge_segment as int,
            hull_config.segment_bow as int,
        ),
{
    if hull_config.bridge_segment == 0 {
        if hull_config.segment_bow == 0 {
            Some("Bridge cannot be placed on bow section A")
        } else {
            None
        }
    } else if hull_config.bridge_segment == 1 || hull_config.bridge_segment == 2 {
        None
    } else {
        Some("Bridge assigned to non-existant section")
    }
}

/// What is wrong with the hull that the editor shows, for a family.
pub open spec fn violation(family: HullFamily, params: EditableHullParams) -> Option<Seq<char>> {
    match family {
        HullFamily::Bulk => marauder_violation(
            params.superstructure_loc as int,
            params.bow_type as int,
            params.stern_type as int,
        ),
        HullFamily::Container => moorline_violation(
            params.superstructure_loc as int,
            params.bow_type as int,
        ),
    }
}

/// Tells what is wrong with the hull that the editor shows, if anything, by
/// the rules of its family.
pub fn check_hull_params(family: HullFamily, params: &EditableHullParams) -> (found: Option<
    &'static str,
>)
    ensures
        message_view(found) == violation(family, *params),
{
    let loc = params.superstructure_loc;
    match family {
        HullFamily::Bulk => {
            if loc == 0 {
                if params.bow_type == 2 {
                    Some("Bridge cannot be placed on bow section C")
                } else {
                    None
                }
            } else if loc == 1 {
                None
            } else if loc == 2 {
                if params.stern_type == 1 {
                    Some("Bridge cannot be placed on stern section B")
                } else {
                    None
                }
            } else {
                Some("Bridge assigned to non-existant section")
            }
        },
        HullFamily::Container => {
            if loc == 0 {
                if params.bow_type == 0 {
                    Some("Bridge cannot be placed on bow section A")
                } else {
                    None
                }
            } else if loc == 1 || loc == 2 {
                None
            } else {
                Some("Bridge assigned to non-existant section")
            }
        },
    }
}

/// The names of the dressings that a slot of a segment of a bulk hauler
/// offers, by the position and the kind of the segment; the first is no
/// dressing. A slot that the segment does not have offers nothing.
pub open spec fn dressing_names(position: SegmentPosition, kind: int, slot: int) -> Seq<Seq<char>> {
    match position {
        SegmentPosition::Bow => {
            if kind == 0 && slot == 0 {
                seq!["None"@, "Top crates"@]
            } else if kind == 0 && slot == 1 {
                seq!["None"@, "Bottom crates"@]
            } else if kind == 0 && slot == 2 {
                seq!["None"@, "Flat arm bottom"@]
            } else if kind == 1 && slot == 0 {
                seq!["None"@, "Tanks"@]
            } else if kind == 1 && slot == 1 {
                seq!["None"@, "Top crates"@]
            } else if kind == 1 && slot == 2 {
                seq!["None"@, "Flat arm top"@]
            } else if kind == 2 && slot == 0 {
                seq!["None"@, "Flat arm top"@]
            } else if kind == 2 && slot == 1 {
                seq!["None"@, "Triple arm bottom"@, "Double arm bottom"@]
            } else {
                Seq::empty()
            }
        },
        SegmentPosition::Core => {
            if kind == 0 && slot == 0 {
                seq!["None"@, "Top crates"@]
            } else if kind == 0 && slot == 1 {
                seq!["None"@, "Bottom crates"@]
            } else if kind == 0 && slot == 2 {
                seq!["None"@, "Vertical arm top"@]
            } else if kind == 0 && slot == 3 {
                seq!["None"@, "Flat arm bottom"@]
            } else if kind == 1 && slot == 0 {
                seq!["None"@, "Tanks"@]
            } else if kind == 1 && slot == 1 {
                seq!["None"@, "Top crates"@]
            } else if kind == 1 && slot == 2 {
                seq!["None"@, "Big tanks"@, "Big crates"@]
            } else if kind == 1 && slot == 3 {
                seq!["None"@, "Flat arm top"@]
            } else if kind == 1 && slot == 4 {
                seq!["None"@, "Vertical arm top"@]
            } else if kind == 2 && slot == 0 {
                seq!["None"@, "Tanks & crates bottom"@, "Crates bottom"@, "Crates under wings"@]
            } else if kind == 2 && slot == 1 {
                seq!["None"@, "Crates above wings"@]
            } else if kind == 2 && slot == 2 {
                seq!["None"@, "Vertical arm top"@]
            } else {
                Seq::empty()
            }
        },
        SegmentPosition::Stern => Seq::empty(),
    }
}

/// The texts of a list of names.
pub open spec fn names_view(names: Seq<&'static str>) -> Seq<Seq<char>> {
    names.map_values(|n: &'static str| n@)
}

/// The names of the dressings that a slot of a segment of a bulk hauler
/// offers, the first being no dressing; nothing for a slot that the segment
/// does not have.
pub fn dressing_options(position: SegmentPosition, kind: usize, slot: usize) -> (options: Vec<
    &'static str,
>)
    ensures
        names_view(options@) == dressing_names(position, kind as int, slot as int),
{
    let options = match (position, kind, slot) {
        (SegmentPosition::Bow, 0, 0) => vec!["None", "Top crates"],
        (SegmentPosition::Bow, 0, 1) => vec!["None", "Bottom crates"],
        (SegmentPosition::Bow, 0, 2) => vec!["None", "Flat arm bottom"],
        (SegmentPosition::Bow, 1, 0) => vec!["None", "Tanks"],
        (SegmentPosition::Bow, 1, 1) => vec!["None", "Top crates"],
        (SegmentPosition::Bow, 1, 2) => vec!["None", "Flat arm top"],
        (SegmentPosition::Bow, 2, 0) => vec!["None", "Flat arm top"],
        (SegmentPosition::Bow, 2, 1) => vec!["None", "Triple arm bottom", "Double arm bottom"],
        (SegmentPosition::Core, 0, 0) => vec!["None", "Top crates"],
        (SegmentPosition::Core, 0, 1) => vec!["None", "Bottom crates"],
        (SegmentPosition::Core, 0, 2) => vec!["None", "Vertical arm top"],
        (SegmentPosition::Core, 0, 3) => vec!["None", "Flat arm bottom"],
        (SegmentPosition::Core, 1, 0) => vec!["None", "Tanks"],
        (SegmentPosition::Core, 1, 1) => vec!["None", "Top crates"],
        (SegmentPosition::Core, 1, 2) => vec!["None", "Big tanks", "Big crates"],
        (SegmentPosition::Core, 1, 3) => vec!["None", "Flat arm top"],
        (SegmentPosition::Core, 1, 4) => vec!["None", "Vertical arm top"],
        (SegmentPosition::Core, 2, 0) => vec!["None", "Tanks & crates bottom", "Crates bottom", "Crates under wings"],
        (SegmentPosition::Core, 2, 1) => vec!["None", "Crates above wings"],
        (SegmentPosition::Core, 2, 2) => vec!["None", "Vertical arm top"],
        _ => Vec::new(),
    };
    proof {
        assert(names_view(options@) =~= dressing_names(position, kind as int, slot as int));
    }
    options
}

} // verus!
