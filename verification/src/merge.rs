//! The merge engine: one fleet out of a primary fleet and any number of
//! secondary fleets.
//!
//! The merged fleet is the primary with the ships and the missile templates
//! of the secondaries appended to its own, in the order of the selection, and
//! with a new name: no ship and no missile template of the selection is
//! lost. A primary without a `MissileTypes` container gets one; a primary
//! without a `Ships` container gets one where a secondary brings a ship.
//!
//! Fleets are merged either as records, once every fleet has been read, or
//! as documents, by splicing the ships and missile templates of the
//! secondaries into the document of the primary.

use vstd::prelude::*;
use vstd::string::StrSliceExecFns;
use crate::error::{Error, ErrorKind, ErrorView};
use crate::events::{fragments_view, Event, EventView};
use crate::extract::{extractor, ReadState, Reader};
use crate::splice::{splicer, WriteState, Writer};
use crate::xml_io::{xml_events, xml_text};
use crate::schema::{Fleet, MissileTemplate, MissileTypes, Ship, Ships};
use crate::lists::reversed;
use crate::text::{trim, trimmed};

verus! {

/// The ships of a fleet, none where it has no `Ships` container.
pub open spec fn ships_of(fleet: Fleet) -> Seq<Ship> {
    match fleet.ships {
        Some(ships) => ships.ship@,
        None => Seq::empty(),
    }
}

/// The missile templates of a fleet, none where it has no `MissileTypes`
/// container.
pub open spec fn missiles_of(fleet: Fleet) -> Seq<MissileTemplate> {
    match fleet.missile_types {
        Some(missiles) => missiles.missile_template@,
        None => Seq::empty(),
    }
}

/// The ships of a list of fleets, one fleet after the other.
pub open spec fn all_ships(fleets: Seq<Fleet>) -> Seq<Ship>
    decreases fleets.len(),
{
    if fleets.len() == 0 {
        Seq::empty()
    } else {
        all_ships(fleets.drop_last()) + ships_of(fleets.last())
    }
}

/// The missile templates of a list of fleets, one fleet after the other.
pub open spec fn all_missiles(fleets: Seq<Fleet>) -> Seq<MissileTemplate>
    decreases fleets.len(),
{
    if fleets.len() == 0 {
        Seq::empty()
    } else {
        all_missiles(fleets.drop_last()) + missiles_of(fleets.last())
    }
}

/// Whether `merged` is the merge of `fleets`, the primary first, under `name`.
pub open spec fn is_merge_of(merged: Fleet, name: Seq<char>, fleets: Seq<Fleet>) -> bool {
    let primary = fleets[0];
    &&& fleets.len() > 0
    &&& merged.name@ == name
    &&& match primary.ships {
        Some(own) => merged.ships matches Some(ships) && ships.text == own.text && ships.ship@
            == all_ships(fleets),
        None => if all_ships(fleets).len() == 0 {
            merged.ships is None
        } else {
            merged.ships matches Some(ships) && ships.text is None && ships.ship@ == all_ships(
                fleets,
            )
        },
    }
    &&& merged.missile_types matches Some(missiles) && missiles.missile_template@ == all_missiles(
        fleets,
    ) && missiles.text == match primary.missile_types {
        Some(own) => own.text,
        None => None,
    }
    &&& merged == (Fleet {
        name: merged.name,
        ships: merged.ships,
        missile_types: merged.missile_types,
        ..primary
    })
}

/// The fleets of a selection in which every fleet was read.
pub open spec fn loaded(selected: Seq<Result<Fleet, Error>>) -> Seq<Fleet> {
    selected.map_values(|r: Result<Fleet, Error>| r->Ok_0)
}

/// The place of the first fleet of `selected` from `from` on that could not
/// be read, or the length of `selected` where there is none.
pub open spec fn first_unreadable(selected: Seq<Result<Fleet, Error>>, from: int) -> int
    decreases selected.len() - from,
{
    if from < 0 || from >= selected.len() {
        selected.len() as int
    } else if selected[from] is Err {
        from
    } else {
        first_unreadable(selected, from + 1)
    }
}

/// The fleet that could not be read and that a merge reports: the first such
/// secondary or, where every secondary was read, the primary.
pub open spec fn unreadable(selected: Seq<Result<Fleet, Error>>) -> Option<Error> {
    if selected.len() == 0 {
        None
    } else if first_unreadable(selected, 1) < selected.len() {
        Some(selected[first_unreadable(selected, 1)]->Err_0)
    } else if selected[0] is Err {
        Some(selected[0]->Err_0)
    } else {
        None
    }
}

/// The error of a merge in which the fleet with the error `cause` could not
/// be read.
pub open spec fn unreadable_error(cause: ErrorView) -> ErrorView {
    ErrorView {
        kind: cause.kind,
        title: "One or more fleets could not be read"@,
        error: cause.title + ": "@ + cause.error,
    }
}

/// What a merge of `selected` under `merge_output_name` returns.
pub open spec fn merge_result(
    result: Result<Fleet, Error>,
    merge_output_name: Seq<char>,
    selected: Seq<Result<Fleet, Error>>,
) -> bool {
    if trimmed(merge_output_name).len() == 0 {
        result matches Err(e) && e@ == (ErrorView {
            kind: ErrorKind::Validation,
            title: "No merge output name"@,
            error: "You must set an output name for the merged fleets"@,
        })
    } else if selected.len() == 0 {
        result matches Err(e) && e@ == (ErrorView {
            kind: ErrorKind::Validation,
            title: "No fleets selected"@,
            error: "You must select at least one fleet to merge"@,
        })
    } else {
        match unreadable(selected) {
            Some(cause) => result matches Err(e) && e@ == unreadable_error(cause@),
            None => result matches Ok(merged) && is_merge_of(
                merged,
                trimmed(merge_output_name),
                loaded(selected),
            ),
        }
    }
}

/// The ships of a list of fleets are those of the first, then those of the rest.
pub proof fn lemma_all_ships_first(fleets: Seq<Fleet>)
    requires
        fleets.len() > 0,
    ensures
        all_ships(fleets) == ships_of(fleets.first()) + all_ships(fleets.drop_first()),
    decreases fleets.len(),
{
    if fleets.len() == 1 {
        assert(fleets.drop_last() =~= Seq::empty());
        assert(fleets.drop_first() =~= Seq::empty());
        assert(all_ships(fleets) =~= ships_of(fleets.first()) + all_ships(fleets.drop_first()));
    } else {
        lemma_all_ships_first(fleets.drop_last());
        assert(fleets.drop_last().drop_first() =~= fleets.drop_first().drop_last());
        assert(all_ships(fleets) =~= ships_of(fleets.first()) + all_ships(fleets.drop_first()));
    }
}

/// The missile templates of a list of fleets are those of the first, then
/// those of the rest.
pub proof fn lemma_all_missiles_first(fleets: Seq<Fleet>)
    requires
        fleets.len() > 0,
    ensures
        all_missiles(fleets) == missiles_of(fleets.first()) + all_missiles(fleets.drop_first()),
    decreases fleets.len(),
{
    if fleets.len() == 1 {
        assert(fleets.drop_last() =~= Seq::empty());
        assert(fleets.drop_first() =~= Seq::empty());
        assert(all_missiles(fleets) =~= missiles_of(fleets.first()) + all_missiles(
            fleets.drop_first(),
        ));
    } else {
        lemma_all_missiles_first(fleets.drop_last());
        assert(fleets.drop_last().drop_first() =~= fleets.drop_first().drop_last());
        assert(all_missiles(fleets) =~= missiles_of(fleets.first()) + all_missiles(
            fleets.drop_first(),
        ));
    }
}

/// Merging a primary with any secondaries gives a fleet of the new name
/// whose ships are the ships of all the fleets, and whose missile templates
/// are the missile templates of all the fleets, each in the order of the
/// selection.
pub proof fn lemma_merge_concatenates(merged: Fleet, name: Seq<char>, fleets: Seq<Fleet>)
    requires
        is_merge_of(merged, name, fleets),
    ensures
        merged.name@ == name,
        ships_of(merged) == all_ships(fleets),
        missiles_of(merged) == all_missiles(fleets),
{
}

/// The merge of three fleets holds the ships and the missile templates of
/// the first, then of the second, then of the third.
pub proof fn lemma_merge_of_three(merged: Fleet, name: Seq<char>, a: Fleet, b: Fleet, c: Fleet)
    requires
        is_merge_of(merged, name, seq![a, b, c]),
    ensures
        merged.name@ == name,
        ships_of(merged) == ships_of(a) + ships_of(b) + ships_of(c),
        missiles_of(merged) == missiles_of(a) + missiles_of(b) + missiles_of(c),
{
    let fleets = seq![a, b, c];
    reveal_with_fuel(all_ships, 4);
    reveal_with_fuel(all_missiles, 4);
    assert(fleets.drop_last() =~= seq![a, b]);
    assert(seq![a, b].drop_last() =~= seq![a]);
    assert(seq![a].drop_last() =~= Seq::<Fleet>::empty());
    assert(all_ships(seq![a]) =~= ships_of(a));
    assert(all_ships(seq![a, b]) =~= ships_of(a) + ships_of(b));
    assert(all_missiles(seq![a]) =~= missiles_of(a));
    assert(all_missiles(seq![a, b]) =~= missiles_of(a) + missiles_of(b));
}

/// Merges fleets that were all read: the primary with the secondaries, in
/// their order.
pub fn merge_loaded(name: String, primary: Fleet, secondaries: Vec<Fleet>) -> (merged: Fleet)
    ensures
        is_merge_of(merged, name@, seq![primary] + secondaries@),
{
    let ghost others = secondaries@;
    let ghost all = seq![primary] + others;
    let mut rest = reversed(secondaries);
    proof {
        assert(all.drop_first() =~= others);
        assert(rest@.reverse() =~= others);
        assert(others.skip(0) =~= others);
        assert(others.take(0) =~= Seq::empty());
    }
    let mut ships: Vec<Ship> = Vec::new();
    let mut missiles: Vec<MissileTemplate> = Vec::new();
    loop
        invariant
            rest@.len() <= others.len(),
            rest@.reverse() == others.skip(others.len() - rest@.len()),
            ships@ == all_ships(others.take(others.len() - rest@.len())),
            missiles@ == all_missiles(others.take(others.len() - rest@.len())),
        ensures
            ships@ == all_ships(others),
            missiles@ == all_missiles(others),
        decreases rest@.len(),
    {
        let ghost done = others.len() - rest@.len();
        let ghost stack = rest@;
        match rest.pop() {
            Some(fleet) => {
                proof {
                    assert(stack.reverse()[0] == fleet);
                    assert(others[done] == fleet);
                    assert(rest@.reverse() =~= stack.reverse().drop_first());
                    assert(others.skip(done).drop_first() =~= others.skip(done + 1));
                    assert(others.take(done + 1).drop_last() =~= others.take(done));
                    assert(others.take(done + 1).last() == fleet);
                }
                match fleet.ships {
                    Some(mut own) => {
                        ships.append(&mut own.ship);
                    },
                    None => {
                        proof {
                            assert(ships@ + Seq::<Ship>::empty() =~= ships@);
                        }
                    },
                }
                match fleet.missile_types {
                    Some(mut own) => {
                        missiles.append(&mut own.missile_template);
                    },
                    None => {
                        proof {
                            assert(missiles@ + Seq::<MissileTemplate>::empty() =~= missiles@);
                        }
                    },
                }
            },
            None => {
                proof {
                    assert(others.take(others.len() as int) =~= others);
                }
                break ;
            },
        }
    }
    proof {
        lemma_all_ships_first(all);
        lemma_all_missiles_first(all);
    }
    let merged_ships = match primary.ships {
        Some(mut own) => {
            own.ship.append(&mut ships);
            Some(own)
        },
        None => {
            proof {
                assert(Seq::<Ship>::empty() + ships@ =~= ships@);
            }
            if ships.len() == 0 {
                None
            } else {
                Some(Ships { text: None, ship: ships })
            }
        },
    };
    let merged_missiles = match primary.missile_types {
        Some(mut own) => {
            own.missile_template.append(&mut missiles);
            own
        },
        None => {
            proof {
                assert(Seq::<MissileTemplate>::empty() + missiles@ =~= missiles@);
            }
            MissileTypes { text: None, missile_template: missiles }
        },
    };
    Fleet {
        xmlns_xsd: primary.xmlns_xsd,
        xmlns_xsi: primary.xmlns_xsi,
        text: primary.text,
        mod_dependencies: primary.mod_dependencies,
        description: primary.description,
        craft_types: primary.craft_types,
        missile_types: Some(merged_missiles),
        name,
        version: primary.version,
        total_points: primary.total_points,
        faction_key: primary.faction_key,
        sort_override_order: primary.sort_override_order,
        ships: merged_ships,
    }
}

/// Merges the selected fleets, each given as the outcome of reading it, the
/// primary first, into one fleet named `merge_output_name` without the white
/// space around it.
///
/// Fails where the name is blank, where nothing is selected, and where a
/// selected fleet could not be read.
pub fn merge_fleets(merge_output_name: &str, selected_fleets: Vec<Result<Fleet, Error>>) -> (result:
    Result<Fleet, Error>)
    ensures
        merge_result(result, merge_output_name@, selected_fleets@),
{
    let name = trim(merge_output_name);
    if name.unicode_len() == 0 {
        return Err(
            Error::new(
                ErrorKind::Validation,
                "No merge output name",
                "You must set an output name for the merged fleets",
            ),
        );
    }
    if selected_fleets.len() == 0 {
        return Err(
            Error::new(
                ErrorKind::Validation,
                "No fleets selected",
                "You must select at least one fleet to merge",
            ),
        );
    }
    let mut i: usize = 1;
    while i < selected_fleets.len()
        invariant
            1 <= i <= selected_fleets.len(),
            trimmed(merge_output_name@).len() != 0,
            first_unreadable(selected_fleets@, 1) == first_unreadable(selected_fleets@, i as int),
            forall|j: int| 1 <= j < i ==> selected_fleets[j] is Ok,
        decreases selected_fleets.len() - i,
    {
        match &selected_fleets[i] {
            Err(cause) => {
                proof {
                    assert(first_unreadable(selected_fleets@, i as int) == i);
                    assert(unreadable(selected_fleets@) == Some(*cause));
                }
                return Err(unreadable_fleet(cause));
            },
            Ok(_) => {},
        }
        i += 1;
    }
    proof {
        assert(first_unreadable(selected_fleets@, 1) == selected_fleets.len());
    }
    match &selected_fleets[0] {
        Err(cause) => {
            proof {
                assert(unreadable(selected_fleets@) == Some(*cause));
            }
            return Err(unreadable_fleet(cause));
        },
        Ok(_) => {},
    }
    proof {
        assert(unreadable(selected_fleets@) is None);
    }
    let fleets = unwrap_all(selected_fleets);
    let ghost all = fleets@;
    let mut rest = reversed(fleets);
    let primary = rest.pop().unwrap();
    let secondaries = reversed(rest);
    proof {
        assert(seq![primary] + secondaries@ =~= all);
    }
    Ok(merge_loaded(name.to_owned(), primary, secondaries))
}

/// What the extractor makes of a document: the children named `child` of
/// its first element named `container`, where the extractor reaches the end
/// of that element or of the document; nothing where the stream fails first.
pub open spec fn extracted(document: Seq<u8>, container: Seq<char>, child: Seq<char>) -> Option<
    Seq<Seq<EventView>>,
> {
    let end = extractor(xml_events(document), container, child).run();
    if end.state == ReadState::Done {
        Some(end.emitted)
    } else {
        None
    }
}

/// The place of the first document of which the ships or the missiles
/// cannot be extracted, or the number of documents.
pub open spec fn first_broken(documents: Seq<Vec<u8>>) -> int
    decreases documents.len(),
{
    if documents.len() == 0 {
        0
    } else if extracted(documents[0]@, "Ships"@, "Ship"@) is None || extracted(
        documents[0]@,
        "MissileTypes"@,
        "MissileTemplate"@,
    ) is None {
        0
    } else {
        1 + first_broken(documents.drop_first())
    }
}

/// The ships of a list of documents, one document after the other.
pub open spec fn donor_ships(documents: Seq<Vec<u8>>) -> Seq<Seq<EventView>>
    decreases documents.len(),
{
    if documents.len() == 0 {
        Seq::empty()
    } else {
        donor_ships(documents.drop_last()) + extracted(documents.last()@, "Ships"@, "Ship"@)->0
    }
}

/// The missile templates of a list of documents, one document after the
/// other.
pub open spec fn donor_missiles(documents: Seq<Vec<u8>>) -> Seq<Seq<EventView>>
    decreases documents.len(),
{
    if documents.len() == 0 {
        Seq::empty()
    } else {
        donor_missiles(documents.drop_last()) + extracted(
            documents.last()@,
            "MissileTypes"@,
            "MissileTemplate"@,
        )->0
    }
}

/// The error of a splice in which a document could not be read.
pub open spec fn broken_document() -> ErrorView {
    ErrorView {
        kind: ErrorKind::Parse,
        title: "One or more fleets could not be read"@,
        error: "A fleet document is not well-formed"@,
    }
}

/// What splicing the documents `secondaries` into the document `primary`
/// under `output_name` returns: the text of the primary with the ships and
/// the missile templates of the secondaries spliced in and its name
/// replaced, or an error where the name is blank or a document cannot be
/// read.
pub open spec fn splice_result(
    result: Result<Vec<u8>, Error>,
    output_name: Seq<char>,
    primary: Seq<u8>,
    secondaries: Seq<Vec<u8>>,
) -> bool {
    if trimmed(output_name).len() == 0 {
        result matches Err(e) && e@ == (ErrorView {
            kind: ErrorKind::Validation,
            title: "No merge output name"@,
            error: "You must set an output name for the merged fleets"@,
        })
    } else if first_broken(secondaries) < secondaries.len() {
        result matches Err(e) && e@ == broken_document()
    } else {
        let end = splicer(
            xml_events(primary),
            donor_ships(secondaries),
            donor_missiles(secondaries),
            trimmed(output_name),
        ).run();
        if end.state == WriteState::Done && xml_text(end.output) is Some {
            result matches Ok(text) && xml_text(end.output) == Some(text@)
        } else {
            result matches Err(e) && e@ == broken_document()
        }
    }
}

/// The children named `child` of the first element named `container` of a
/// document.
pub fn extract(document: &[u8], container: &str, child: &str) -> (fragments: Option<
    Vec<Vec<Event>>,
>)
    ensures
        match fragments {
            Some(fragments) => extracted(document@, container@, child@) == Some(
                fragments_view(fragments@),
            ),
            None => extracted(document@, container@, child@) is None,
        },
{
    let mut reader = Reader::new(document, container.to_owned(), child.to_owned());
    reader.run_until_complete();
    if reader.is_done() {
        Some(reader.into_fragments())
    } else {
        None
    }
}

/// Merges fleet documents without reading them as fleets: splices the ships
/// and the missile templates of the documents `secondaries`, in their order,
/// into the document `primary`, under the name `output_name` without the
/// white space around it.
///
/// Fails where the name is blank and where a document cannot be read.
pub fn splice_fleets(output_name: &str, primary: &[u8], secondaries: &Vec<Vec<u8>>) -> (result:
    Result<Vec<u8>, Error>)
    ensures
        splice_result(result, output_name@, primary@, secondaries@),
{
    let name = trim(output_name);
    if name.unicode_len() == 0 {
        return Err(
            Error::new(
                ErrorKind::Validation,
                "No merge output name",
                "You must set an output name for the merged fleets",
            ),
        );
    }
    let mut ships: Vec<Vec<Event>> = Vec::new();
    let mut missiles: Vec<Vec<Event>> = Vec::new();
    let mut i: usize = 0;
    proof {
        assert(secondaries@.skip(0) =~= secondaries@);
        assert(secondaries@.take(0) =~= Seq::empty());
        assert(fragments_view(ships@) =~= Seq::empty());
        assert(fragments_view(missiles@) =~= Seq::empty());
    }
    while i < secondaries.len()
        invariant
            i <= secondaries.len(),
            trimmed(output_name@).len() != 0,
            first_broken(secondaries@) == i + first_broken(secondaries@.skip(i as int)),
            fragments_view(ships@) == donor_ships(secondaries@.take(i as int)),
            fragments_view(missiles@) == donor_missiles(secondaries@.take(i as int)),
        decreases secondaries.len() - i,
    {
        proof {
            assert(secondaries@.skip(i as int)[0] == secondaries@[i as int]);
            assert(secondaries@.skip(i as int).drop_first() =~= secondaries@.skip(i + 1));
            assert(secondaries@.take(i + 1).drop_last() =~= secondaries@.take(i as int));
            assert(secondaries@.take(i + 1).last() == secondaries@[i as int]);
        }
        let document = secondaries[i].as_slice();
        let mut more_ships = match extract(document, "Ships", "Ship") {
            Some(fragments) => fragments,
            None => {
                return Err(broken());
            },
        };
        let mut more_missiles = match extract(document, "MissileTypes", "MissileTemplate") {
            Some(fragments) => fragments,
            None => {
                return Err(broken());
            },
        };
        let ghost old_ships = ships@;
        let ghost old_missiles = missiles@;
        let ghost new_ships = more_ships@;
        let ghost new_missiles = more_missiles@;
        ships.append(&mut more_ships);
        missiles.append(&mut more_missiles);
        proof {
            assert(fragments_view(old_ships + new_ships) =~= fragments_view(old_ships)
                + fragments_view(new_ships));
            assert(fragments_view(old_missiles + new_missiles) =~= fragments_view(old_missiles)
                + fragments_view(new_missiles));
        }
        i += 1;
    }
    proof {
        assert(secondaries@.take(secondaries.len() as int) =~= secondaries@);
        assert(secondaries@.skip(secondaries.len() as int) =~= Seq::empty());
    }
    let mut writer = Writer::new(primary, ships, missiles, name.to_owned());
    writer.run_until_complete();
    match writer.into_document() {
        Some(text) => Ok(text),
        None => Err(broken()),
    }
}

/// The error of a splice in which a document could not be read.
fn broken() -> (e: Error)
    ensures
        e@ == broken_document(),
{
    Error::new(
        ErrorKind::Parse,
        "One or more fleets could not be read",
        "A fleet document is not well-formed",
    )
}

/// The error of a merge in which the fleet with the error `cause` could not
/// be read.
fn unreadable_fleet(cause: &Error) -> (e: Error)
    ensures
        e@ == unreadable_error(cause@),
{
    Error {
        kind: cause.kind,
        title: "One or more fleets could not be read".to_owned(),
        error: cause.message(),
    }
}

/// The fleets of a selection in which every fleet was read.
fn unwrap_all(selected: Vec<Result<Fleet, Error>>) -> (fleets: Vec<Fleet>)
    requires
        forall|i: int| 0 <= i < selected.len() ==> selected[i] is Ok,
    ensures
        fleets@ == loaded(selected@),
{
    let ghost all = selected@;
    let mut rest = reversed(selected);
    let mut fleets: Vec<Fleet> = Vec::new();
    proof {
        assert(rest@.reverse() =~= all);
        assert(all.skip(0) =~= all);
        assert(loaded(all.take(0)) =~= Seq::empty());
    }
    loop
        invariant
            forall|i: int| 0 <= i < all.len() ==> all[i] is Ok,
            rest@.len() <= all.len(),
            rest@.reverse() == all.skip(all.len() - rest@.len()),
            fleets@ == loaded(all.take(all.len() - rest@.len())),
        ensures
            fleets@ == loaded(all),
        decreases rest@.len(),
    {
        let ghost done = all.len() - rest@.len();
        let ghost stack = rest@;
        match rest.pop() {
            Some(Ok(fleet)) => {
                fleets.push(fleet);
                proof {
                    assert(stack.reverse()[0] == Ok::<Fleet, Error>(fleet));
                    assert(all[done] == Ok::<Fleet, Error>(fleet));
                    assert(rest@.reverse() =~= stack.reverse().drop_first());
                    assert(all.skip(done).drop_first() =~= all.skip(done + 1));
                    assert(fleets@ =~= loaded(all.take(done + 1)));
                }
            },
            Some(Err(_)) => {
                proof {
                    assert(stack.reverse()[0] is Err);
                    assert(all[done] is Err);
                }
            },
            None => {
                proof {
                    assert(all.take(all.len() as int) =~= all);
                }
                break ;
            },
        }
    }
    fleets
}

} // verus!
