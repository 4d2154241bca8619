//! Bodyweight measurements.

use crate::error::TrackerError;
use crate::model::BodyweightEntry;
use vstd::prelude::*;
use vstd::string::StringExecFns;

verus! {

/// The index of the latest of the first `n` measurements: the one with the
/// greatest timestamp, the earlier in the list where two share it.
pub open spec fn spec_latest_upto(entries: Seq<BodyweightEntry>, n: int) -> Option<int>
    decreases n,
{
    if n <= 0 {
        None
    } else {
        match spec_latest_upto(entries, n - 1) {
            Some(k) if entries[k].timestamp >= entries[n - 1].timestamp => Some(k),
            _ => Some(n - 1),
        }
    }
}

/// The latest measurement is one of the list and none is later.
pub proof fn lemma_latest_upto(entries: Seq<BodyweightEntry>, n: int)
    requires
        0 <= n <= entries.len(),
    ensures
        spec_latest_upto(entries, n) is None <==> n == 0,
        spec_latest_upto(entries, n) matches Some(k) ==> 0 <= k < n && forall|j: int|
            0 <= j < n ==> (#[trigger] entries[j]).timestamp <= entries[k].timestamp,
    decreases n,
{
    if n > 0 {
        lemma_latest_upto(entries, n - 1);
    }
}

/// The weight of the latest measurement, or `None` where there is none.
pub fn latest_bodyweight(entries: &Vec<BodyweightEntry>) -> (r: Option<i64>)
    ensures
        r == match spec_latest_upto(entries@, entries.len() as int) {
            Some(k) => Some(entries@[k].weight),
            None => None,
        },
        r is None <==> entries.len() == 0,
{
    let mut latest: Option<usize> = None;
    let mut i: usize = 0;
    while i < entries.len()
        invariant
            0 <= i <= entries.len(),
            match latest {
                Some(k) => spec_latest_upto(entries@, i as int) == Some(k as int) && k < i,
                None => spec_latest_upto(entries@, i as int) is None && i == 0,
            },
        decreases entries.len() - i,
    {
        latest =
        match latest {
            Some(k) if entries[k].timestamp >= entries[i].timestamp => Some(k),
            _ => Some(i),
        };
        i = i + 1;
    }
    match latest {
        Some(k) => Some(entries[k].weight),
        None => None,
    }
}

/// Accepts a bodyweight to log: a positive weight passes as it is, any
/// other is refused as invalid input.
pub fn check_bodyweight(weight: i64) -> (r: Result<i64, TrackerError>)
    ensures
        weight > 0 ==> r == Ok::<i64, TrackerError>(weight),
        weight <= 0 ==> (r matches Err(TrackerError::InvalidInput(text)) && text@
            == "Weight must be a positive number."@),
{
    if weight > 0 {
        Ok(weight)
    } else {
        Err(TrackerError::InvalidInput(String::from_str("Weight must be a positive number.")))
    }
}

/// Takes the first measurement with the id `id` out of the list. Fails,
/// and leaves the list as it was, where no measurement has that id.
pub fn remove_bodyweight(entries: &mut Vec<BodyweightEntry>, id: i64) -> (r: Result<
    BodyweightEntry,
    TrackerError,
>)
    ensures
        match r {
            Ok(entry) => exists|place: int|
                {
                    &&& 0 <= place < old(entries)@.len()
                    &&& #[trigger] old(entries)@[place] == entry
                    &&& entry.id == id
                    &&& forall|j: int| 0 <= j < place ==> (#[trigger] old(entries)@[j]).id != id
                    &&& final(entries)@ == old(entries)@.remove(place)
                },
            Err(e) => {
                &&& e == TrackerError::BodyweightEntryNotFound(id)
                &&& forall|j: int|
                    0 <= j < old(entries)@.len() ==> (#[trigger] old(entries)@[j]).id != id
                &&& *final(entries) == *old(entries)
            },
        },
{
    let mut i: usize = 0;
    while i < entries.len()
        invariant
            *entries == *old(entries),
            0 <= i <= entries.len(),
            forall|j: int| 0 <= j < i ==> (#[trigger] entries@[j]).id != id,
        decreases entries.len() - i,
    {
        if entries[i].id == id {
            let entry = entries.remove(i);
            assert(old(entries)@[i as int] == entry);
            return Ok(entry);
        }
        i = i + 1;
    }
    Err(TrackerError::BodyweightEntryNotFound(id))
}

} // verus!
