//! The listing of the missile files of a directory.

use vstd::prelude::*;
use crate::error::{Error, ErrorKind, ErrorView};
use crate::missile_templates::identity::MissileData;
use crate::numbers::{parse_i32, parsed_i32};
use crate::schema::MissileTemplate;
use crate::lists::reversed;

verus! {

/// A missile file: its path and the outcome of reading it.
#[derive(Debug)]
pub struct MissileFile {
    pub path: String,
    pub missile: Result<MissileTemplate, Error>,
}

/// The error for a missile whose cost is no number.
pub open spec fn invalid_cost() -> ErrorView {
    ErrorView {
        kind: ErrorKind::Parse,
        title: "Invalid missile file"@,
        error: "Failed to parse cost"@,
    }
}

/// What a listing holds for the missile of the file at `path`: its names,
/// the path and its cost as a number, not selected.
pub open spec fn listed(entry: MissileData, path: Seq<char>, missile: MissileTemplate) -> bool {
    &&& entry.template_name@ == match missile.associated_template_name {
        Some(name) => name@,
        None => Seq::empty(),
    }
    &&& entry.designation@ == missile.designation@
    &&& entry.nickname@ == missile.nickname@
    &&& entry.path@ == path
    &&& parsed_i32(missile.cost@) == Some(entry.cost as int)
    &&& !entry.selected
}

/// What listing one missile file returns: the error of reading it, the error
/// of a cost that is no number, or the entry.
pub open spec fn listing_of(result: Result<MissileData, Error>, file: MissileFile) -> bool {
    match file.missile {
        Err(cause) => result matches Err(e) && e@ == cause@,
        Ok(missile) => if parsed_i32(missile.cost@) is None {
            result matches Err(e) && e@ == invalid_cost()
        } else {
            result matches Ok(entry) && listed(entry, file.path@, missile)
        },
    }
}

/// The place of the first file that cannot be listed, or the number of files.
pub open spec fn first_failure(files: Seq<MissileFile>) -> int
    decreases files.len(),
{
    if files.len() == 0 {
        0
    } else if files[0].missile is Err || parsed_i32(files[0].missile->Ok_0.cost@) is None {
        0
    } else {
        1 + first_failure(files.drop_first())
    }
}

/// Lists one missile file.
pub fn missile_data(file: MissileFile) -> (result: Result<MissileData, Error>)
    ensures
        listing_of(result, file),
{
    let missile = match file.missile {
        Ok(missile) => missile,
        Err(cause) => {
            return Err(cause);
        },
    };
    let cost = match parse_i32(missile.cost.as_str()) {
        Some(cost) => cost,
        None => {
            return Err(Error::new(ErrorKind::Parse, "Invalid missile file", "Failed to parse cost"));
        },
    };
    Ok(
        MissileData {
            template_name: match missile.associated_template_name {
                Some(name) => name,
                None => String::new(),
            },
            designation: missile.designation,
            nickname: missile.nickname,
            path: file.path,
            cost,
            selected: false,
        },
    )
}

/// Lists the missile files of a directory, in the order given: one entry for
/// each file, or the error of the first file that cannot be listed.
pub fn load_missiles(files: Vec<MissileFile>) -> (result: Result<Vec<MissileData>, Error>)
    ensures
        match result {
            Ok(entries) => {
                &&& first_failure(files@) == files.len()
                &&& entries.len() == files.len()
                &&& forall|i: int|
                    0 <= i < files.len() ==> listing_of(Ok(#[trigger] entries[i]), files[i])
            },
            Err(e) => {
                &&& first_failure(files@) < files.len()
                &&& listing_of(Err(e), files[first_failure(files@)])
            },
        },
{
    let ghost all = files@;
    let mut rest = reversed(files);
    let mut output: Vec<MissileData> = Vec::new();
    proof {
        assert(rest@.reverse() =~= all);
        assert(all.skip(0) =~= all);
    }
    loop
        invariant
            all == files@,
            rest@.len() <= all.len(),
            rest@.reverse() == all.skip(all.len() - rest@.len()),
            output@.len() == all.len() - rest@.len(),
            forall|i: int|
                0 <= i < output@.len() ==> listing_of(Ok(#[trigger] output@[i]), all[i]),
            first_failure(all) == output@.len() + first_failure(all.skip(output@.len() as int)),
        ensures
            output@.len() == all.len(),
            first_failure(all) == all.len(),
            forall|i: int|
                0 <= i < output@.len() ==> listing_of(Ok(#[trigger] output@[i]), all[i]),
        decreases rest@.len(),
    {
        let ghost done = output@.len() as int;
        let ghost stack = rest@;
        match rest.pop() {
            Some(file) => {
                proof {
                    assert(stack.reverse()[0] == file);
                    assert(all[done] == file);
                    assert(rest@.reverse() =~= stack.reverse().drop_first());
                    assert(all.skip(done).drop_first() =~= all.skip(done + 1));
                    assert(all.skip(done)[0] == file);
                }
                match missile_data(file) {
                    Ok(entry) => {
                        output.push(entry);
                        proof {
                            assert(first_failure(all.skip(done)) == 1 + first_failure(
                                all.skip(done + 1),
                            ));
                        }
                    },
                    Err(e) => {
                        proof {
                            assert(first_failure(all.skip(done)) == 0);
                        }
                        return Err(e);
                    },
                }
            },
            None => {
                proof {
                    assert(all.skip(all.len() as int) =~= Seq::empty());
                }
                break ;
            },
        }
    }
    Ok(output)
}

} // verus!
