//! Records written as maps.
//!
//! A record may stand as an array of its fields in declared order, which is
//! how the writer writes it, or as a map from the names of its fields to
//! their values, in any order. A key is a name under a string or a binary
//! head, or the place of the field as an unsigned number. An entry under a
//! key that names no field is passed over, whatever its value. A field may
//! not be given twice.
//!
//! A map is read in two steps. The first, here, walks the entries and notes
//! for each field where its value begins and ends. The second reads each
//! value in its place and holds it to the end that was noted.

use crate::grammar::{blob_at, index_at, map_head_at, skip_at};
use vstd::prelude::*;

verus! {

/// The place of the name `key` among `names`, from the place `from` on.
pub open spec fn find_name(names: Seq<Seq<u8>>, key: Seq<u8>, from: int) -> Option<int>
    decreases names.len() - from,
{
    if from < 0 || from >= names.len() {
        None
    } else if names[from] == key {
        Some(from)
    } else {
        find_name(names, key, from + 1)
    }
}

/// A key at `pos`: the place of the field that it names, or nothing where
/// it names none, and the position behind the key.
pub open spec fn key_at(s: Seq<u8>, pos: int, names: Seq<Seq<u8>>) -> Option<(Option<int>, int)> {
    match blob_at(s, pos) {
        Some((start, end)) => Some((find_name(names, s.subrange(start, end), 0), end)),
        None => match index_at(s, pos) {
            Some((place, end)) => Some(
                (
                    if place < names.len() {
                        Some(place)
                    } else {
                        None
                    },
                    end,
                ),
            ),
            None => None,
        },
    }
}

/// `n` entries from `pos` on, behind those that filled `slots`: for each
/// field where its value begins and ends, and the position behind the last
/// entry.
pub open spec fn entries_at(
    s: Seq<u8>,
    pos: int,
    n: nat,
    names: Seq<Seq<u8>>,
    slots: Seq<Option<(int, int)>>,
) -> Option<(Seq<Option<(int, int)>>, int)>
    decreases n,
{
    if n == 0 {
        Some((slots, pos))
    } else {
        match key_at(s, pos, names) {
            Some((field, start)) => match skip_at(s, start, 1) {
                Some(end) => match field {
                    Some(place) => if slots[place] is Some {
                        None
                    } else {
                        entries_at(
                            s,
                            end,
                            (n - 1) as nat,
                            names,
                            slots.update(place, Some((start, end))),
                        )
                    },
                    None => entries_at(s, end, (n - 1) as nat, names, slots),
                },
                None => None,
            },
            None => None,
        }
    }
}

/// No field has a value yet.
pub open spec fn no_slots(fields: nat) -> Seq<Option<(int, int)>> {
    Seq::new(fields, |i: int| None)
}

/// A map at `pos` whose keys are taken from `names`: where the value of each
/// field stands, and the position behind the map.
pub open spec fn map_at(s: Seq<u8>, pos: int, names: Seq<Seq<u8>>) -> Option<
    (Seq<Option<(int, int)>>, int),
> {
    match map_head_at(s, pos) {
        Some((n, start)) => entries_at(s, start, n as nat, names, no_slots(names.len())),
        None => None,
    }
}

/// The value of a field that must be given: what was found where the slot
/// begins, if it ends where the slot ends.
pub open spec fn kept<T>(found: Option<(T, int)>, slot: Option<(int, int)>) -> Option<T> {
    match slot {
        Some((start, end)) => match found {
            Some((v, behind)) => if behind == end {
                Some(v)
            } else {
                None
            },
            None => None,
        },
        None => None,
    }
}

/// The value of a field that may be left out: absent where the map does not
/// give it.
pub open spec fn kept_or_absent<T>(found: Option<(Option<T>, int)>, slot: Option<(int, int)>) -> Option<
    Option<T>,
> {
    match slot {
        Some(_) => kept(found, slot),
        None => Some(None),
    }
}

/// Where the slot begins; of no account where the map does not give the
/// field.
pub open spec fn start_of(slot: Option<(int, int)>) -> int {
    match slot {
        Some((start, _)) => start,
        None => 0,
    }
}

} // verus!
