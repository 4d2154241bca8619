//! The exercises and their aliases, and how an identifier finds an exercise.

use crate::error::TrackerError;
use crate::model::{Alias, ExerciseDefinition, Workout};
use crate::text::{lowercase, parsed_integer, same_ignoring_case, std_parse_i64, std_to_lowercase};
use vstd::prelude::*;
use vstd::string::StringExecFns;

verus! {

/// The defined exercises and the aliases given to them.
#[derive(Clone, Debug, PartialEq, Eq)]
pub struct Catalog {
    pub exercises: Vec<ExerciseDefinition>,
    pub aliases: Vec<Alias>,
}

/// The first index from `from` on whose exercise has the id `id`.
pub open spec fn spec_find_id(exercises: Seq<ExerciseDefinition>, id: i64, from: int) -> Option<
    int,
>
    decreases exercises.len() - from,
{
    if from < 0 || from >= exercises.len() {
        None
    } else if exercises[from].id == id {
        Some(from)
    } else {
        spec_find_id(exercises, id, from + 1)
    }
}

/// The first index from `from` on whose exercise is called `name`, letter
/// case aside.
pub open spec fn spec_find_name(
    exercises: Seq<ExerciseDefinition>,
    name: Seq<char>,
    from: int,
) -> Option<int>
    decreases exercises.len() - from,
{
    if from < 0 || from >= exercises.len() {
        None
    } else if same_ignoring_case(exercises[from].name@, name) {
        Some(from)
    } else {
        spec_find_name(exercises, name, from + 1)
    }
}

/// The exercise id of the first alias from `from` on that is exactly
/// `alias`.
pub open spec fn spec_find_alias(aliases: Seq<Alias>, alias: Seq<char>, from: int) -> Option<i64>
    decreases aliases.len() - from,
{
    if from < 0 || from >= aliases.len() {
        None
    } else if aliases[from].alias@ == alias {
        Some(aliases[from].exercise_id)
    } else {
        spec_find_alias(aliases, alias, from + 1)
    }
}

/// The index an identifier finds by being the decimal writing of an
/// exercise's id.
pub open spec fn spec_resolve_by_id(exercises: Seq<ExerciseDefinition>, identifier: Seq<char>)
    -> Option<int> {
    match parsed_integer(identifier) {
        Some(id) => spec_find_id(exercises, id, 0),
        None => None,
    }
}

/// The index an identifier finds through an alias.
pub open spec fn spec_resolve_by_alias(
    exercises: Seq<ExerciseDefinition>,
    aliases: Seq<Alias>,
    identifier: Seq<char>,
) -> Option<int> {
    match spec_find_alias(aliases, identifier, 0) {
        Some(id) => spec_find_id(exercises, id, 0),
        None => None,
    }
}

/// The index of the exercise an identifier stands for: the exercise with
/// that id where the identifier is a number and such an exercise exists,
/// else the exercise with that name, letter case aside, else the exercise
/// that the alias of that exact spelling belongs to.
pub open spec fn spec_resolve(
    exercises: Seq<ExerciseDefinition>,
    aliases: Seq<Alias>,
    identifier: Seq<char>,
) -> Option<int> {
    if spec_resolve_by_id(exercises, identifier) is Some {
        spec_resolve_by_id(exercises, identifier)
    } else if spec_find_name(exercises, identifier, 0) is Some {
        spec_find_name(exercises, identifier, 0)
    } else {
        spec_resolve_by_alias(exercises, aliases, identifier)
    }
}

/// A search by id finds the first exercise with that id, and finds none
/// only where there is none.
pub proof fn lemma_find_id(exercises: Seq<ExerciseDefinition>, id: i64, from: int)
    requires
        0 <= from,
    ensures
        match spec_find_id(exercises, id, from) {
            Some(k) => from <= k < exercises.len() && exercises[k].id == id && forall|j: int|
                from <= j < k ==> (#[trigger] exercises[j]).id != id,
            None => forall|j: int|
                from <= j < exercises.len() ==> (#[trigger] exercises[j]).id != id,
        },
    decreases exercises.len() - from,
{
    if from < exercises.len() && exercises[from].id != id {
        lemma_find_id(exercises, id, from + 1);
    }
}

/// A search by name finds the first exercise with that name, letter case
/// aside, and finds none only where there is none.
pub proof fn lemma_find_name(exercises: Seq<ExerciseDefinition>, name: Seq<char>, from: int)
    requires
        0 <= from,
    ensures
        match spec_find_name(exercises, name, from) {
            Some(k) => from <= k < exercises.len() && same_ignoring_case(exercises[k].name@, name)
                && forall|j: int|
                from <= j < k ==> !same_ignoring_case((#[trigger] exercises[j]).name@, name),
            None => forall|j: int|
                from <= j < exercises.len() ==> !same_ignoring_case(
                    (#[trigger] exercises[j]).name@,
                    name,
                ),
        },
    decreases exercises.len() - from,
{
    if from < exercises.len() && !same_ignoring_case(exercises[from].name@, name) {
        lemma_find_name(exercises, name, from + 1);
    }
}

/// A search for an alias finds the first alias of that spelling, and finds
/// none only where there is none.
pub proof fn lemma_find_alias(aliases: Seq<Alias>, alias: Seq<char>, from: int)
    requires
        0 <= from,
    ensures
        match spec_find_alias(aliases, alias, from) {
            Some(id) => exists|k: int|
                from <= k < aliases.len() && (#[trigger] aliases[k]).alias@ == alias
                    && aliases[k].exercise_id == id,
            None => forall|j: int|
                from <= j < aliases.len() ==> (#[trigger] aliases[j]).alias@ != alias,
        },
    decreases aliases.len() - from,
{
    if from < aliases.len() && aliases[from].alias@ != alias {
        lemma_find_alias(aliases, alias, from + 1);
        if let Some(id) = spec_find_alias(aliases, alias, from + 1) {
            let k = choose|k: int|
                from + 1 <= k < aliases.len() && (#[trigger] aliases[k]).alias@ == alias
                    && aliases[k].exercise_id == id;
            assert(from <= k < aliases.len() && aliases[k].alias@ == alias);
        }
    } else if from < aliases.len() {
        assert(aliases[from].alias@ == alias);
    }
}

/// The index of the first exercise with the id `id`.
pub fn find_id(exercises: &Vec<ExerciseDefinition>, id: i64) -> (r: Option<usize>)
    ensures
        match r {
            Some(k) => spec_find_id(exercises@, id, 0) == Some(k as int) && k < exercises.len()
                && exercises@[k as int].id == id,
            None => spec_find_id(exercises@, id, 0) is None,
        },
{
    let mut i: usize = 0;
    while i < exercises.len()
        invariant
            0 <= i <= exercises.len(),
            spec_find_id(exercises@, id, 0) == spec_find_id(exercises@, id, i as int),
        decreases exercises.len() - i,
    {
        if exercises[i].id == id {
            return Some(i);
        }
        i = i + 1;
    }
    None
}

/// The index of the first exercise called `name`, letter case aside.
pub fn find_name(exercises: &Vec<ExerciseDefinition>, name: &str) -> (r: Option<usize>)
    ensures
        match r {
            Some(k) => spec_find_name(exercises@, name@, 0) == Some(k as int) && k
                < exercises.len() && same_ignoring_case(exercises@[k as int].name@, name@),
            None => spec_find_name(exercises@, name@, 0) is None,
        },
{
    let wanted = std_to_lowercase(name);
    let mut i: usize = 0;
    while i < exercises.len()
        invariant
            0 <= i <= exercises.len(),
            wanted@ == lowercase(name@),
            spec_find_name(exercises@, name@, 0) == spec_find_name(exercises@, name@, i as int),
        decreases exercises.len() - i,
    {
        let candidate = std_to_lowercase(exercises[i].name.as_str());
        if candidate == wanted {
            return Some(i);
        }
        i = i + 1;
    }
    None
}

/// The exercise id of the first alias spelled exactly `alias`.
pub fn find_alias(aliases: &Vec<Alias>, alias: &str) -> (r: Option<i64>)
    ensures
        r == spec_find_alias(aliases@, alias@, 0),
{
    let wanted = String::from_str(alias);
    let mut i: usize = 0;
    while i < aliases.len()
        invariant
            0 <= i <= aliases.len(),
            wanted@ == alias@,
            spec_find_alias(aliases@, alias@, 0) == spec_find_alias(aliases@, alias@, i as int),
        decreases aliases.len() - i,
    {
        if aliases[i].alias == wanted {
            return Some(aliases[i].exercise_id);
        }
        i = i + 1;
    }
    None
}

/// Whether `name` is the decimal writing of the id of an exercise other
/// than the one at `index`. Such a name would find that other exercise,
/// since a number finds an exercise by id before any name is looked at.
pub open spec fn number_of_other(exercises: Seq<ExerciseDefinition>, index: int, name: Seq<char>)
    -> bool {
    spec_resolve_by_id(exercises, name) matches Some(k) && k != index
}

/// Whether an exercise other than the one at `index` goes by `name`, letter
/// case aside.
pub open spec fn name_taken_by_other(
    exercises: Seq<ExerciseDefinition>,
    index: int,
    name: Seq<char>,
) -> bool {
    exists|m: int|
        0 <= m < exercises.len() && m != index && same_ignoring_case(
            (#[trigger] exercises[m]).name@,
            name,
        )
}

/// Whether an alias is spelled like `name`, letter case aside.
pub open spec fn name_taken_by_alias(aliases: Seq<Alias>, name: Seq<char>) -> bool {
    exists|m: int|
        0 <= m < aliases.len() && same_ignoring_case((#[trigger] aliases[m]).alias@, name)
}

/// Whether `after` is the exercise `before` under the name `name`.
pub open spec fn is_renamed(before: ExerciseDefinition, after: ExerciseDefinition, name: Seq<char>)
    -> bool {
    &&& after.name@ == name
    &&& after.id == before.id
    &&& after.type_ == before.type_
    &&& after.muscles == before.muscles
    &&& after.log_weight == before.log_weight
    &&& after.log_reps == before.log_reps
    &&& after.log_duration == before.log_duration
    &&& after.log_distance == before.log_distance
}

/// Whether `after` is the list `before` with the exercise at `index` renamed
/// to `name` and every other exercise as it was.
pub open spec fn exercises_after_rename(
    before: Seq<ExerciseDefinition>,
    after: Seq<ExerciseDefinition>,
    index: int,
    name: Seq<char>,
) -> bool {
    &&& 0 <= index < before.len()
    &&& after.len() == before.len()
    &&& is_renamed(before[index], after[index], name)
    &&& forall|m: int| 0 <= m < before.len() && m != index ==> #[trigger] after[m] == before[m]
}

/// Whether `after` is the workout `before` with its exercise called `name`.
pub open spec fn is_relabelled(before: Workout, after: Workout, name: Seq<char>) -> bool {
    &&& after.exercise_name@ == name
    &&& after.id == before.id
    &&& after.date == before.date
    &&& after.exercise_type == before.exercise_type
    &&& after.sets == before.sets
    &&& after.reps == before.reps
    &&& after.weight == before.weight
    &&& after.bodyweight == before.bodyweight
    &&& after.duration_minutes == before.duration_minutes
    &&& after.distance == before.distance
    &&& after.notes == before.notes
}

/// Whether `after` is the log `before` with every workout that referred to
/// the exercise at `index` now calling it `name`, and every other workout as
/// it was.
pub open spec fn workouts_after_rename(
    exercises: Seq<ExerciseDefinition>,
    aliases: Seq<Alias>,
    before: Seq<Workout>,
    after: Seq<Workout>,
    index: int,
    name: Seq<char>,
) -> bool {
    &&& after.len() == before.len()
    &&& forall|j: int|
        0 <= j < before.len() ==> if spec_resolve(exercises, aliases, before[j].exercise_name@)
            == Some(index) {
            is_relabelled(before[j], #[trigger] after[j], name)
        } else {
            after[j] == before[j]
        }
}

/// A search by id depends on the ids alone.
pub proof fn lemma_find_id_same_ids(
    a: Seq<ExerciseDefinition>,
    b: Seq<ExerciseDefinition>,
    id: i64,
    from: int,
)
    requires
        a.len() == b.len(),
        forall|m: int| 0 <= m < a.len() ==> (#[trigger] a[m]).id == b[m].id,
    ensures
        spec_find_id(a, id, from) == spec_find_id(b, id, from),
    decreases a.len() - from,
{
    if 0 <= from < a.len() {
        assert(a[from].id == b[from].id);
        if a[from].id != id {
            lemma_find_id_same_ids(a, b, id, from + 1);
        }
    }
}

/// After a rename every identifier still finds the exercise it found
/// before, and the new name finds the renamed exercise. The rename is one
/// that `rename_exercise` accepts: no other exercise and no alias goes by
/// the new name, and the new name is not the decimal writing of another
/// exercise's id, since a number finds an exercise by id before any name is
/// looked at. An identifier that found the renamed exercise by its old name
/// no longer does, which is why the workouts that referred to it are
/// relabelled.
pub proof fn lemma_rename_keeps_references(
    before: Seq<ExerciseDefinition>,
    after: Seq<ExerciseDefinition>,
    aliases: Seq<Alias>,
    index: int,
    new_name: Seq<char>,
    identifier: Seq<char>,
)
    requires
        exercises_after_rename(before, after, index, new_name),
        !name_taken_by_other(before, index, new_name),
        !name_taken_by_alias(aliases, new_name),
        spec_resolve_by_id(before, new_name) is None || spec_resolve_by_id(before, new_name)
            == Some(index),
    ensures
        spec_resolve(after, aliases, new_name) == Some(index),
        spec_resolve(before, aliases, identifier) matches Some(k) ==> (k != index ==> spec_resolve(
            after,
            aliases,
            identifier,
        ) == Some(k)),
        spec_resolve(before, aliases, identifier) == Some(index) && !same_ignoring_case(
            before[index].name@,
            identifier,
        ) ==> spec_resolve(after, aliases, identifier) == Some(index),
        spec_resolve_by_id(after, identifier) == spec_resolve_by_id(before, identifier),
        spec_resolve_by_alias(after, aliases, identifier) == spec_resolve_by_alias(
            before,
            aliases,
            identifier,
        ),
{
    assert forall|m: int| 0 <= m < before.len() implies (#[trigger] before[m]).id
        == after[m].id by {
        if m != index {
            assert(after[m] == before[m]);
        }
    }
    if let Some(id) = parsed_integer(identifier) {
        lemma_find_id_same_ids(before, after, id, 0);
    }
    if let Some(id) = parsed_integer(new_name) {
        lemma_find_id_same_ids(before, after, id, 0);
    }
    if let Some(id) = spec_find_alias(aliases, identifier, 0) {
        lemma_find_id_same_ids(before, after, id, 0);
    }
    // The new name finds the renamed exercise.
    lemma_find_name(after, new_name, 0);
    assert(same_ignoring_case(after[index].name@, new_name));
    match spec_find_name(after, new_name, 0) {
        Some(k) => {
            if k != index {
                assert(after[k] == before[k]);
                assert(same_ignoring_case(before[k].name@, new_name));
            }
        },
        None => {},
    }
    // Any other identifier.
    lemma_find_name(before, identifier, 0);
    lemma_find_name(after, identifier, 0);
    lemma_find_alias(aliases, identifier, 0);
    let by_id = spec_resolve_by_id(before, identifier);
    let by_name = spec_find_name(before, identifier, 0);
    let by_name_after = spec_find_name(after, identifier, 0);
    if by_id is None {
        match by_name {
            Some(k) => {
                if k != index {
                    assert(after[k] == before[k]);
                    assert(same_ignoring_case(after[k].name@, identifier));
                    match by_name_after {
                        Some(k2) => {
                            if k2 < k {
                                if k2 == index {
                                    assert(same_ignoring_case(before[k].name@, new_name));
                                } else {
                                    assert(after[k2] == before[k2]);
                                }
                            }
                        },
                        None => {},
                    }
                }
            },
            None => {
                match by_name_after {
                    Some(k2) => {
                        if k2 == index {
                            if let Some(id) = spec_find_alias(aliases, identifier, 0) {
                                let a = choose|a: int|
                                    0 <= a < aliases.len() && (#[trigger] aliases[a]).alias@
                                        == identifier && aliases[a].exercise_id == id;
                                assert(same_ignoring_case(aliases[a].alias@, new_name));
                            }
                        } else {
                            assert(after[k2] == before[k2]);
                        }
                    },
                    None => {},
                }
            },
        }
    }
}

/// Renaming an exercise leaves every workout of the log referring to the
/// exercise it referred to before, under its id as it was, and leaves every
/// alias with the exercise it belonged to. The premises are what
/// `rename_exercise` states of a rename it has made.
pub proof fn lemma_rename_round_trip(
    before: Seq<ExerciseDefinition>,
    after: Seq<ExerciseDefinition>,
    aliases: Seq<Alias>,
    workouts_before: Seq<Workout>,
    workouts_after: Seq<Workout>,
    index: int,
    new_name: Seq<char>,
)
    requires
        exercises_after_rename(before, after, index, new_name),
        workouts_after_rename(before, aliases, workouts_before, workouts_after, index, new_name),
        !name_taken_by_other(before, index, new_name),
        !name_taken_by_alias(aliases, new_name),
        spec_resolve_by_id(before, new_name) is None || spec_resolve_by_id(before, new_name)
            == Some(index),
    ensures
        forall|j: int|
            0 <= j < workouts_before.len() ==> (spec_resolve(
                before,
                aliases,
                (#[trigger] workouts_before[j]).exercise_name@,
            ) matches Some(k) ==> spec_resolve(after, aliases, workouts_after[j].exercise_name@)
                == Some(k) && 0 <= k < after.len() && after[k].id == before[k].id),
        forall|a: int|
            0 <= a < aliases.len() ==> spec_resolve_by_alias(
                after,
                aliases,
                (#[trigger] aliases[a]).alias@,
            ) == spec_resolve_by_alias(before, aliases, aliases[a].alias@),
{
    assert forall|j: int| 0 <= j < workouts_before.len() implies (spec_resolve(
        before,
        aliases,
        (#[trigger] workouts_before[j]).exercise_name@,
    ) matches Some(k) ==> spec_resolve(after, aliases, workouts_after[j].exercise_name@) == Some(k)
        && 0 <= k < after.len() && after[k].id == before[k].id) by {
        let name = workouts_before[j].exercise_name@;
        lemma_rename_keeps_references(before, after, aliases, index, new_name, name);
        lemma_resolve_in_range(before, aliases, name);
        if let Some(k) = spec_resolve(before, aliases, name) {
            if k == index {
                assert(is_relabelled(workouts_before[j], workouts_after[j], new_name));
            } else {
                assert(workouts_after[j] == workouts_before[j]);
                assert(after[k] == before[k]);
            }
        }
    }
    assert forall|a: int| 0 <= a < aliases.len() implies spec_resolve_by_alias(
        after,
        aliases,
        (#[trigger] aliases[a]).alias@,
    ) == spec_resolve_by_alias(before, aliases, aliases[a].alias@) by {
        lemma_rename_keeps_references(before, after, aliases, index, new_name, aliases[a].alias@);
    }
}

/// An identifier finds an index of the exercise list, and what it finds
/// answers to it: by id, by name or through an alias.
pub proof fn lemma_resolve_in_range(
    exercises: Seq<ExerciseDefinition>,
    aliases: Seq<Alias>,
    identifier: Seq<char>,
)
    ensures
        spec_resolve(exercises, aliases, identifier) matches Some(k) ==> {
            &&& 0 <= k < exercises.len()
            &&& (parsed_integer(identifier) == Some(exercises[k].id) || same_ignoring_case(
                exercises[k].name@,
                identifier,
            ) || spec_find_alias(aliases, identifier, 0) == Some(exercises[k].id))
        },
{
    lemma_find_name(exercises, identifier, 0);
    if let Some(id) = parsed_integer(identifier) {
        lemma_find_id(exercises, id, 0);
    }
    if let Some(id) = spec_find_alias(aliases, identifier, 0) {
        lemma_find_id(exercises, id, 0);
    }
}

impl Catalog {
    /// A catalog without exercises.
    pub fn new() -> (r: Catalog)
        ensures
            r.exercises@.len() == 0,
            r.aliases@.len() == 0,
    {
        Catalog { exercises: Vec::new(), aliases: Vec::new() }
    }

    /// The index of the exercise an identifier stands for in this catalog.
    pub open spec fn spec_resolve(&self, identifier: Seq<char>) -> Option<int> {
        spec_resolve(self.exercises@, self.aliases@, identifier)
    }

    /// Finds the index of the exercise an identifier stands for: by id,
    /// then by name, then by alias.
    pub fn resolve_index(&self, identifier: &str) -> (r: Option<usize>)
        ensures
            match r {
                Some(k) => self.spec_resolve(identifier@) == Some(k as int) && k
                    < self.exercises@.len(),
                None => self.spec_resolve(identifier@) is None,
            },
    {
        proof {
            lemma_find_name(self.exercises@, identifier@, 0);
            if let Some(id) = parsed_integer(identifier@) {
                lemma_find_id(self.exercises@, id, 0);
            }
            if let Some(id) = spec_find_alias(self.aliases@, identifier@, 0) {
                lemma_find_id(self.exercises@, id, 0);
            }
        }
        if let Some(id) = std_parse_i64(identifier) {
            if let Some(k) = find_id(&self.exercises, id) {
                return Some(k);
            }
        }
        if let Some(k) = find_name(&self.exercises, identifier) {
            return Some(k);
        }
        match find_alias(&self.aliases, identifier) {
            Some(id) => find_id(&self.exercises, id),
            None => None,
        }
    }

    /// Whether `name` is the decimal writing of the id of an exercise
    /// other than the one at `index`.
    pub fn writes_other_id(&self, index: usize, name: &str) -> (r: bool)
        ensures
            r == number_of_other(self.exercises@, index as int, name@),
    {
        match std_parse_i64(name) {
            Some(id) => match find_id(&self.exercises, id) {
                Some(k) => k != index,
                None => false,
            },
            None => false,
        }
    }

    /// Whether an exercise other than the one at `index`, or an alias, goes
    /// by `name`, letter case aside.
    pub fn name_in_use(&self, index: usize, name: &str) -> (r: bool)
        ensures
            r == (name_taken_by_other(self.exercises@, index as int, name@) || name_taken_by_alias(
                self.aliases@,
                name@,
            )),
    {
        let wanted = std_to_lowercase(name);
        let mut m: usize = 0;
        while m < self.exercises.len()
            invariant
                0 <= m <= self.exercises.len(),
                wanted@ == lowercase(name@),
                forall|k: int|
                    0 <= k < m && k != index ==> !same_ignoring_case(
                        (#[trigger] self.exercises@[k]).name@,
                        name@,
                    ),
            decreases self.exercises.len() - m,
        {
            if m != index {
                let candidate = std_to_lowercase(self.exercises[m].name.as_str());
                if candidate == wanted {
                    assert(same_ignoring_case(self.exercises@[m as int].name@, name@));
                    return true;
                }
            }
            m = m + 1;
        }
        let mut a: usize = 0;
        while a < self.aliases.len()
            invariant
                0 <= a <= self.aliases.len(),
                wanted@ == lowercase(name@),
                !name_taken_by_other(self.exercises@, index as int, name@),
                forall|k: int|
                    0 <= k < a ==> !same_ignoring_case((#[trigger] self.aliases@[k]).alias@, name@),
            decreases self.aliases.len() - a,
        {
            let candidate = std_to_lowercase(self.aliases[a].alias.as_str());
            if candidate == wanted {
                assert(same_ignoring_case(self.aliases@[a as int].alias@, name@));
                return true;
            }
            a = a + 1;
        }
        false
    }

    /// Renames the exercise that `identifier` stands for and relabels every
    /// workout of the log that referred to it, so that each goes on
    /// referring to it. Aliases belong to the exercise by its id and stay as
    /// they are. The new name is refused where another exercise or an alias
    /// already goes by it, letter case aside, and where it is the decimal
    /// writing of another exercise's id.
    pub fn rename_exercise(
        &mut self,
        workouts: &mut Vec<Workout>,
        identifier: &str,
        new_name: &str,
    ) -> (r: Result<(), TrackerError>)
        ensures
            final(self).aliases == old(self).aliases,
            match r {
                Ok(_) => {
                    &&& old(self).spec_resolve(identifier@) matches Some(index)
                    &&& !name_taken_by_other(old(self).exercises@, index, new_name@)
                    &&& !name_taken_by_alias(old(self).aliases@, new_name@)
                    &&& (spec_resolve_by_id(old(self).exercises@, new_name@) is None
                        || spec_resolve_by_id(old(self).exercises@, new_name@) == Some(index))
                    &&& exercises_after_rename(
                        old(self).exercises@,
                        final(self).exercises@,
                        index,
                        new_name@,
                    )
                    &&& workouts_after_rename(
                        old(self).exercises@,
                        old(self).aliases@,
                        old(workouts)@,
                        final(workouts)@,
                        index,
                        new_name@,
                    )
                    &&& old(self).well_formed() ==> final(self).well_formed()
                },
                Err(TrackerError::ExerciseNotFound(text)) => {
                    &&& old(self).spec_resolve(identifier@) is None
                    &&& text@ == identifier@
                    &&& *final(self) == *old(self)
                    &&& *final(workouts) == *old(workouts)
                },
                Err(TrackerError::ExerciseNameNotUnique(text)) => {
                    &&& old(self).spec_resolve(identifier@) matches Some(index)
                    &&& (name_taken_by_other(old(self).exercises@, index, new_name@)
                        || name_taken_by_alias(old(self).aliases@, new_name@) || number_of_other(
                        old(self).exercises@,
                        index,
                        new_name@,
                    ))
                    &&& text@ == new_name@
                    &&& *final(self) == *old(self)
                    &&& *final(workouts) == *old(workouts)
                },
                Err(_) => false,
            },
    {
        let index = match self.resolve_index(identifier) {
            Some(index) => index,
            None => {
                return Err(TrackerError::ExerciseNotFound(String::from_str(identifier)));
            },
        };
        if self.name_in_use(index, new_name) || self.writes_other_id(index, new_name) {
            return Err(TrackerError::ExerciseNameNotUnique(String::from_str(new_name)));
        }
        let mut j: usize = 0;
        while j < workouts.len()
            invariant
                *self == *old(self),
                0 <= j <= workouts.len(),
                workouts.len() == old(workouts).len(),
                forall|k: int|
                    0 <= k < j ==> if self.spec_resolve(old(workouts)@[k].exercise_name@) == Some(
                        index as int,
                    ) {
                        is_relabelled(old(workouts)@[k], #[trigger] workouts@[k], new_name@)
                    } else {
                        workouts@[k] == old(workouts)@[k]
                    },
                forall|k: int| j <= k < workouts.len() ==> #[trigger] workouts@[k] == old(workouts)@[k],
            decreases workouts.len() - j,
        {
            let refers = match self.resolve_index(workouts[j].exercise_name.as_str()) {
                Some(k) => k == index,
                None => false,
            };
            if refers {
                let mut workout = workouts.remove(j);
                workout.exercise_name = String::from_str(new_name);
                workouts.insert(j, workout);
            }
            j = j + 1;
        }
        let mut exercise = self.exercises.remove(index);
        exercise.name = String::from_str(new_name);
        self.exercises.insert(index, exercise);
        proof {
            let before = old(self).exercises@;
            let after = self.exercises@;
            let aliases = self.aliases@;
            assert forall|m: int| 0 <= m < before.len() implies (#[trigger] after[m]).id
                == before[m].id by {}
            if old(self).well_formed() {
                lemma_apart_after_rename(before, after, aliases, index as int, new_name@);
                assert forall|i: int, j: int| 0 <= i < j < after.len() implies !same_ignoring_case(
                    (#[trigger] after[i]).name@,
                    (#[trigger] after[j]).name@,
                ) by {
                    if i == index as int {
                        assert(after[j] == before[j]);
                        assert(!same_ignoring_case(before[j].name@, new_name@));
                    } else if j == index as int {
                        assert(after[i] == before[i]);
                        assert(!same_ignoring_case(before[i].name@, new_name@));
                    } else {
                        assert(after[i] == before[i] && after[j] == before[j]);
                    }
                }
                assert forall|a: int| 0 <= a < aliases.len() implies spec_find_id(
                    after,
                    (#[trigger] aliases[a]).exercise_id,
                    0,
                ) is Some by {
                    lemma_find_id_same_ids(before, after, aliases[a].exercise_id, 0);
                }
                assert forall|a: int, i: int|
                    0 <= a < aliases.len() && 0 <= i < after.len() implies !same_ignoring_case(
                    (#[trigger] aliases[a]).alias@,
                    (#[trigger] after[i]).name@,
                ) by {
                    if i == index as int {
                        assert(!same_ignoring_case(aliases[a].alias@, new_name@));
                    } else {
                        assert(after[i] == before[i]);
                    }
                }
            }
        }
        Ok(())
    }

    /// Finds the exercise an identifier stands for, or reports the
    /// identifier as not found.
    pub fn resolve(&self, identifier: &str) -> (r: Result<&ExerciseDefinition, TrackerError>)
        ensures
            match r {
                Ok(exercise) => (self.spec_resolve(identifier@) matches Some(k) && 0 <= k
                    < self.exercises@.len() && *exercise == self.exercises@[k]),
                Err(e) => self.spec_resolve(identifier@) is None && (
                e matches TrackerError::ExerciseNotFound(text) && text@ == identifier@),
            },
    {
        match self.resolve_index(identifier) {
            Some(k) => Ok(&self.exercises[k]),
            None => Err(TrackerError::ExerciseNotFound(String::from_str(identifier))),
        }
    }
}

/// What an identifier leads to when a workout is logged.
#[derive(Clone, Debug, PartialEq, Eq)]
pub enum Resolution {
    /// The exercise at this index.
    Found(usize),
    /// No exercise, but one can be created under the identifier as its name
    /// from the type and muscles that came with it.
    NotFoundButCreatable { name: String, type_: crate::model::ExerciseType, muscles: String },
    /// No exercise, and nothing to create one from.
    NotFound,
}

/// Whether two exercises at different places ever share an id.
pub open spec fn ids_distinct(exercises: Seq<ExerciseDefinition>) -> bool {
    forall|i: int, j: int|
        0 <= i < j < exercises.len() ==> (#[trigger] exercises[i]).id != (#[trigger] exercises[j]).id
}

/// Whether no two exercises share a name, letter case aside.
pub open spec fn names_distinct(exercises: Seq<ExerciseDefinition>) -> bool {
    forall|i: int, j: int|
        0 <= i < j < exercises.len() ==> !same_ignoring_case(
            (#[trigger] exercises[i]).name@,
            (#[trigger] exercises[j]).name@,
        )
}

/// Whether no two aliases share a spelling, letter case aside.
pub open spec fn aliases_distinct(aliases: Seq<Alias>) -> bool {
    forall|a: int, b: int|
        0 <= a < b < aliases.len() ==> !same_ignoring_case(
            (#[trigger] aliases[a]).alias@,
            (#[trigger] aliases[b]).alias@,
        )
}

/// Whether every alias belongs to an exercise of the list.
pub open spec fn aliases_attached(exercises: Seq<ExerciseDefinition>, aliases: Seq<Alias>) -> bool {
    forall|a: int|
        0 <= a < aliases.len() ==> spec_find_id(exercises, (#[trigger] aliases[a]).exercise_id, 0)
            is Some
}

/// Whether no alias is spelled like the name of an exercise, letter case
/// aside.
pub open spec fn aliases_apart_from_names(
    exercises: Seq<ExerciseDefinition>,
    aliases: Seq<Alias>,
) -> bool {
    forall|a: int, i: int|
        0 <= a < aliases.len() && 0 <= i < exercises.len() ==> !same_ignoring_case(
            (#[trigger] aliases[a]).alias@,
            (#[trigger] exercises[i]).name@,
        )
}

/// The aliases among the first `n` that do not belong to the exercise with
/// the id `id`, in order.
pub open spec fn spec_aliases_without(aliases: Seq<Alias>, id: i64, n: int) -> Seq<Alias>
    decreases n,
{
    if n <= 0 {
        Seq::empty()
    } else if aliases[n - 1].exercise_id != id {
        spec_aliases_without(aliases, id, n - 1).push(aliases[n - 1])
    } else {
        spec_aliases_without(aliases, id, n - 1)
    }
}

/// Whether `x` stands before `y` among the first `n` aliases.
pub open spec fn stand_in_order(aliases: Seq<Alias>, n: int, x: Alias, y: Alias) -> bool {
    exists|i: int, j: int| 0 <= i < j < n && #[trigger] aliases[i] == x && #[trigger] aliases[j] == y
}

/// Whether `x` is one of the first `n` aliases.
pub open spec fn stands_among(aliases: Seq<Alias>, n: int, x: Alias) -> bool {
    exists|i: int| 0 <= i < n && #[trigger] aliases[i] == x
}

/// The aliases left after an exercise is deleted are aliases that were
/// there, in the order they had, and none of them belongs to the deleted
/// exercise.
pub proof fn lemma_aliases_without(aliases: Seq<Alias>, id: i64, n: int)
    requires
        0 <= n <= aliases.len(),
    ensures
        forall|p: int|
            0 <= p < spec_aliases_without(aliases, id, n).len() ==> (#[trigger] spec_aliases_without(
                aliases,
                id,
                n,
            )[p]).exercise_id != id && stands_among(
                aliases,
                n,
                spec_aliases_without(aliases, id, n)[p],
            ),
        forall|p: int, q: int|
            0 <= p < q < spec_aliases_without(aliases, id, n).len() ==> stand_in_order(
                aliases,
                n,
                #[trigger] spec_aliases_without(aliases, id, n)[p],
                #[trigger] spec_aliases_without(aliases, id, n)[q],
            ),
        forall|i: int|
            0 <= i < n && (#[trigger] aliases[i]).exercise_id != id ==> spec_aliases_without(
                aliases,
                id,
                n,
            ).contains(aliases[i]),
    decreases n,
{
    if n > 0 {
        lemma_aliases_without(aliases, id, n - 1);
        let earlier = spec_aliases_without(aliases, id, n - 1);
        let now = spec_aliases_without(aliases, id, n);
        assert forall|p: int| 0 <= p < now.len() implies (#[trigger] now[p]).exercise_id != id
            && stands_among(aliases, n, now[p]) by {
            if p < earlier.len() {
                assert(stands_among(aliases, n - 1, earlier[p]));
                let i = choose|i: int| 0 <= i < n - 1 && #[trigger] aliases[i] == earlier[p];
                assert(0 <= i < n && aliases[i] == now[p]);
            } else {
                assert(aliases[n - 1] == now[p]);
            }
        }
        assert forall|p: int, q: int| 0 <= p < q < now.len() implies stand_in_order(
            aliases,
            n,
            #[trigger] now[p],
            #[trigger] now[q],
        ) by {
            if q < earlier.len() {
                assert(stand_in_order(aliases, n - 1, earlier[p], earlier[q]));
                let (i, j) = choose|i: int, j: int|
                    0 <= i < j < n - 1 && #[trigger] aliases[i] == earlier[p]
                        && #[trigger] aliases[j] == earlier[q];
                assert(0 <= i < j < n && aliases[i] == now[p] && aliases[j] == now[q]);
            } else {
                assert(stands_among(aliases, n - 1, earlier[p]));
                let i = choose|i: int| 0 <= i < n - 1 && #[trigger] aliases[i] == earlier[p];
                assert(0 <= i < n - 1 < n && aliases[i] == now[p] && aliases[n - 1] == now[q]);
            }
        }
        assert forall|i: int|
            0 <= i < n && (#[trigger] aliases[i]).exercise_id != id implies now.contains(
            aliases[i],
        ) by {
            if i < n - 1 {
                assert(earlier.contains(aliases[i]));
                let p = choose|p: int| 0 <= p < earlier.len() && earlier[p] == aliases[i];
                assert(now[p] == aliases[i]);
            } else {
                assert(now[now.len() - 1] == aliases[i]);
            }
        }
    }
}

/// Under the rules of a well-formed catalog no identifier is both the name
/// of one exercise and an alias: what finds an exercise by name finds no
/// alias.
pub proof fn lemma_name_and_alias_apart(
    exercises: Seq<ExerciseDefinition>,
    aliases: Seq<Alias>,
    identifier: Seq<char>,
)
    requires
        aliases_apart_from_names(exercises, aliases),
    ensures
        spec_find_name(exercises, identifier, 0) is Some ==> spec_find_alias(aliases, identifier, 0)
            is None,
{
    lemma_find_name(exercises, identifier, 0);
    lemma_find_alias(aliases, identifier, 0);
    if let Some(k) = spec_find_name(exercises, identifier, 0) {
        if let Some(id) = spec_find_alias(aliases, identifier, 0) {
            let a = choose|a: int|
                0 <= a < aliases.len() && (#[trigger] aliases[a]).alias@ == identifier
                    && aliases[a].exercise_id == id;
            assert(same_ignoring_case(aliases[a].alias@, exercises[k].name@));
        }
    }
}

/// Whether `n` is in use as a number: as the id of an exercise, or
/// written in decimal by the name of an exercise or by an alias.
pub open spec fn number_in_use(exercises: Seq<ExerciseDefinition>, aliases: Seq<Alias>, n: i64)
    -> bool {
    ||| exists|i: int| 0 <= i < exercises.len() && (#[trigger] exercises[i]).id == n
    ||| exists|i: int|
        0 <= i < exercises.len() && parsed_integer((#[trigger] exercises[i]).name@) == Some(n)
    ||| exists|a: int|
        0 <= a < aliases.len() && parsed_integer((#[trigger] aliases[a]).alias@) == Some(n)
}

/// Whether a number never leads astray: a name that writes the id of an
/// exercise is the name of that exercise, and an alias that writes the id
/// of an exercise belongs to that exercise.
pub open spec fn numbers_apart(exercises: Seq<ExerciseDefinition>, aliases: Seq<Alias>) -> bool {
    &&& forall|i: int|
        0 <= i < exercises.len() ==> !number_of_other(
            exercises,
            i,
            (#[trigger] exercises[i]).name@,
        )
    &&& forall|a: int|
        0 <= a < aliases.len() ==> (spec_resolve_by_id(
            exercises,
            (#[trigger] aliases[a]).alias@,
        ) matches Some(k) ==> exercises[k].id == aliases[a].exercise_id)
}

/// A search by id in a list with one more exercise at its end finds what
/// it found before, and the new exercise where it found none and the id is
/// the new one's.
pub proof fn lemma_find_id_push(exercises: Seq<ExerciseDefinition>, added: ExerciseDefinition, id: i64)
    ensures
        spec_find_id(exercises.push(added), id, 0) == match spec_find_id(exercises, id, 0) {
            Some(k) => Some(k),
            None => if added.id == id {
                Some(exercises.len() as int)
            } else {
                None
            },
        },
{
    let after = exercises.push(added);
    lemma_find_id(exercises, id, 0);
    lemma_find_id(after, id, 0);
    match spec_find_id(exercises, id, 0) {
        Some(k) => {
            assert(after[k] == exercises[k]);
            match spec_find_id(after, id, 0) {
                Some(m) => {
                    if m < k {
                        assert(after[m] == exercises[m]);
                    }
                },
                None => {},
            }
        },
        None => {
            match spec_find_id(after, id, 0) {
                Some(m) => {
                    if m < exercises.len() {
                        assert(after[m] == exercises[m]);
                    }
                },
                None => {
                    assert(after[exercises.len() as int] == added);
                },
            }
        },
    }
}

/// A search by id in a list without the exercise at `gone` finds what it
/// found before, one place down where that came after `gone`, and nothing
/// where it found the exercise that is gone. No two exercises share an id.
pub proof fn lemma_find_id_remove(exercises: Seq<ExerciseDefinition>, gone: int, id: i64)
    requires
        ids_distinct(exercises),
        0 <= gone < exercises.len(),
    ensures
        spec_find_id(exercises.remove(gone), id, 0) == match spec_find_id(exercises, id, 0) {
            Some(k) => if k == gone {
                None
            } else if k < gone {
                Some(k)
            } else {
                Some(k - 1)
            },
            None => None,
        },
{
    let after = exercises.remove(gone);
    lemma_find_id(exercises, id, 0);
    lemma_find_id(after, id, 0);
    match spec_find_id(after, id, 0) {
        Some(m) => {
            let m0 = if m < gone {
                m
            } else {
                m + 1
            };
            assert(after[m] == exercises[m0]);
            match spec_find_id(exercises, id, 0) {
                Some(k) => {
                    if k != m0 {
                        if k < m0 {
                            assert(exercises[k].id != exercises[m0].id);
                        } else {
                            assert(exercises[m0].id != exercises[k].id);
                        }
                    }
                },
                None => {},
            }
        },
        None => {
            match spec_find_id(exercises, id, 0) {
                Some(k) => {
                    if k != gone {
                        let k1 = if k < gone {
                            k
                        } else {
                            k - 1
                        };
                        assert(after[k1] == exercises[k]);
                    }
                },
                None => {},
            }
        },
    }
}

/// Numbers stay apart under a rename to a name that writes no other
/// exercise's id.
pub proof fn lemma_apart_after_rename(
    before: Seq<ExerciseDefinition>,
    after: Seq<ExerciseDefinition>,
    aliases: Seq<Alias>,
    index: int,
    new_name: Seq<char>,
)
    requires
        exercises_after_rename(before, after, index, new_name),
        numbers_apart(before, aliases),
        !number_of_other(before, index, new_name),
    ensures
        numbers_apart(after, aliases),
{
    assert forall|m: int| 0 <= m < before.len() implies (#[trigger] before[m]).id
        == after[m].id by {
        if m != index {
            assert(after[m] == before[m]);
        }
    }
    assert forall|i: int| 0 <= i < after.len() implies !number_of_other(
        after,
        i,
        (#[trigger] after[i]).name@,
    ) by {
        if let Some(n) = parsed_integer(after[i].name@) {
            lemma_find_id_same_ids(before, after, n, 0);
        }
        if i != index {
            assert(after[i] == before[i]);
            assert(!number_of_other(before, i, before[i].name@));
        }
    }
    assert forall|a: int| 0 <= a < aliases.len() implies (spec_resolve_by_id(
        after,
        (#[trigger] aliases[a]).alias@,
    ) matches Some(k) ==> after[k].id == aliases[a].exercise_id) by {
        if let Some(n) = parsed_integer(aliases[a].alias@) {
            lemma_find_id_same_ids(before, after, n, 0);
            lemma_find_id(before, n, 0);
        }
    }
}

/// Numbers stay apart while every exercise keeps its id and its name.
pub proof fn lemma_apart_same_names(
    before: Seq<ExerciseDefinition>,
    after: Seq<ExerciseDefinition>,
    aliases: Seq<Alias>,
)
    requires
        after.len() == before.len(),
        forall|m: int|
            0 <= m < before.len() ==> (#[trigger] after[m]).id == before[m].id && after[m].name
                == before[m].name,
        numbers_apart(before, aliases),
    ensures
        numbers_apart(after, aliases),
{
    assert forall|i: int| 0 <= i < after.len() implies !number_of_other(
        after,
        i,
        (#[trigger] after[i]).name@,
    ) by {
        assert(after[i].name == before[i].name);
        if let Some(n) = parsed_integer(after[i].name@) {
            lemma_find_id_same_ids(before, after, n, 0);
        }
        assert(!number_of_other(before, i, before[i].name@));
    }
    assert forall|a: int| 0 <= a < aliases.len() implies (spec_resolve_by_id(
        after,
        (#[trigger] aliases[a]).alias@,
    ) matches Some(k) ==> after[k].id == aliases[a].exercise_id) by {
        if let Some(n) = parsed_integer(aliases[a].alias@) {
            lemma_find_id_same_ids(before, after, n, 0);
            lemma_find_id(before, n, 0);
        }
    }
}

/// Numbers stay apart when an exercise is added whose id is greater than
/// every number in use and whose name writes no id in use.
pub proof fn lemma_apart_after_new_exercise(
    before: Seq<ExerciseDefinition>,
    added: ExerciseDefinition,
    aliases: Seq<Alias>,
)
    requires
        numbers_apart(before, aliases),
        forall|n: i64| #[trigger] number_in_use(before, aliases, n) ==> n < added.id,
        spec_resolve_by_id(before, added.name@) is None,
    ensures
        numbers_apart(before.push(added), aliases),
{
    let after = before.push(added);
    assert forall|i: int| 0 <= i < after.len() implies !number_of_other(
        after,
        i,
        (#[trigger] after[i]).name@,
    ) by {
        if let Some(n) = parsed_integer(after[i].name@) {
            lemma_find_id_push(before, added, n);
            lemma_find_id(before, n, 0);
            if i < before.len() {
                assert(after[i] == before[i]);
                assert(number_in_use(before, aliases, n));
                assert(!number_of_other(before, i, before[i].name@));
            }
        }
    }
    assert forall|a: int| 0 <= a < aliases.len() implies (spec_resolve_by_id(
        after,
        (#[trigger] aliases[a]).alias@,
    ) matches Some(k) ==> after[k].id == aliases[a].exercise_id) by {
        if let Some(n) = parsed_integer(aliases[a].alias@) {
            lemma_find_id_push(before, added, n);
            lemma_find_id(before, n, 0);
            assert(number_in_use(before, aliases, n));
            if let Some(k) = spec_find_id(before, n, 0) {
                assert(after[k] == before[k]);
            }
        }
    }
}

/// Numbers stay apart when an alias is added that writes no id but that of
/// its own exercise.
pub proof fn lemma_apart_after_new_alias(
    exercises: Seq<ExerciseDefinition>,
    aliases: Seq<Alias>,
    added: Alias,
)
    requires
        numbers_apart(exercises, aliases),
        spec_resolve_by_id(exercises, added.alias@) matches Some(k) ==> exercises[k].id
            == added.exercise_id,
    ensures
        numbers_apart(exercises, aliases.push(added)),
{
    let after = aliases.push(added);
    assert forall|a: int| 0 <= a < after.len() implies (spec_resolve_by_id(
        exercises,
        (#[trigger] after[a]).alias@,
    ) matches Some(k) ==> exercises[k].id == after[a].exercise_id) by {
        if a < aliases.len() {
            assert(after[a] == aliases[a]);
        }
    }
}

/// Numbers stay apart when an exercise is deleted, under any choice of the
/// aliases that stay.
pub proof fn lemma_apart_after_delete(
    before: Seq<ExerciseDefinition>,
    gone: int,
    aliases_before: Seq<Alias>,
    aliases_after: Seq<Alias>,
)
    requires
        ids_distinct(before),
        0 <= gone < before.len(),
        numbers_apart(before, aliases_before),
        forall|x: int|
            0 <= x < aliases_after.len() ==> stands_among(
                aliases_before,
                aliases_before.len() as int,
                #[trigger] aliases_after[x],
            ),
    ensures
        numbers_apart(before.remove(gone), aliases_after),
{
    let after = before.remove(gone);
    assert forall|i: int| 0 <= i < after.len() implies !number_of_other(
        after,
        i,
        (#[trigger] after[i]).name@,
    ) by {
        let i0 = if i < gone {
            i
        } else {
            i + 1
        };
        assert(after[i] == before[i0]);
        if let Some(n) = parsed_integer(after[i].name@) {
            lemma_find_id_remove(before, gone, n);
            assert(!number_of_other(before, i0, before[i0].name@));
        }
    }
    assert forall|x: int| 0 <= x < aliases_after.len() implies (spec_resolve_by_id(
        after,
        (#[trigger] aliases_after[x]).alias@,
    ) matches Some(k) ==> after[k].id == aliases_after[x].exercise_id) by {
        assert(stands_among(aliases_before, aliases_before.len() as int, aliases_after[x]));
        let a0 = choose|a0: int|
            0 <= a0 < aliases_before.len() && #[trigger] aliases_before[a0] == aliases_after[x];
        if let Some(n) = parsed_integer(aliases_after[x].alias@) {
            lemma_find_id_remove(before, gone, n);
            lemma_find_id(before, n, 0);
            if let Some(k) = spec_find_id(after, n, 0) {
                let k0 = if k < gone {
                    k
                } else {
                    k + 1
                };
                assert(after[k] == before[k0]);
                assert(spec_resolve_by_id(before, aliases_before[a0].alias@) == Some(k0));
            }
        }
    }
}

/// In a catalog that keeps its rules every exercise is found under its own
/// name, and every alias finds the exercise it belongs to.
pub proof fn lemma_well_formed_resolves(exercises: Seq<ExerciseDefinition>, aliases: Seq<Alias>)
    requires
        ids_distinct(exercises),
        names_distinct(exercises),
        aliases_distinct(aliases),
        aliases_attached(exercises, aliases),
        aliases_apart_from_names(exercises, aliases),
        numbers_apart(exercises, aliases),
    ensures
        forall|i: int|
            0 <= i < exercises.len() ==> spec_resolve(
                exercises,
                aliases,
                (#[trigger] exercises[i]).name@,
            ) == Some(i),
        forall|a: int|
            0 <= a < aliases.len() ==> spec_resolve(exercises, aliases, (#[trigger] aliases[a]).alias@)
                == spec_find_id(exercises, aliases[a].exercise_id, 0) && spec_find_id(
                exercises,
                aliases[a].exercise_id,
                0,
            ) is Some,
{
    assert forall|i: int| 0 <= i < exercises.len() implies spec_resolve(
        exercises,
        aliases,
        (#[trigger] exercises[i]).name@,
    ) == Some(i) by {
        let name = exercises[i].name@;
        assert(!number_of_other(exercises, i, name));
        lemma_find_name(exercises, name, 0);
        assert(same_ignoring_case(exercises[i].name@, name));
        if let Some(m) = spec_find_name(exercises, name, 0) {
            if m < i {
                assert(!same_ignoring_case(exercises[m].name@, exercises[i].name@));
            } else if i < m {
                assert(false);
            }
        }
    }
    assert forall|a: int| 0 <= a < aliases.len() implies spec_resolve(
        exercises,
        aliases,
        (#[trigger] aliases[a]).alias@,
    ) == spec_find_id(exercises, aliases[a].exercise_id, 0) && spec_find_id(
        exercises,
        aliases[a].exercise_id,
        0,
    ) is Some by {
        let spelling = aliases[a].alias@;
        let owner = aliases[a].exercise_id;
        lemma_find_id(exercises, owner, 0);
        if let Some(n) = parsed_integer(spelling) {
            lemma_find_id(exercises, n, 0);
        }
        lemma_find_name(exercises, spelling, 0);
        if let Some(m) = spec_find_name(exercises, spelling, 0) {
            assert(!same_ignoring_case(aliases[a].alias@, exercises[m].name@));
        }
        lemma_find_alias(aliases, spelling, 0);
        match spec_find_alias(aliases, spelling, 0) {
            Some(id) => {
                let b = choose|b: int|
                    0 <= b < aliases.len() && (#[trigger] aliases[b]).alias@ == spelling
                        && aliases[b].exercise_id == id;
                if b < a {
                    assert(!same_ignoring_case(aliases[b].alias@, aliases[a].alias@));
                } else if a < b {
                    assert(!same_ignoring_case(aliases[a].alias@, aliases[b].alias@));
                }
            },
            None => {
                assert(aliases[a].alias@ == spelling);
            },
        }
    }
}

impl Catalog {
    /// Whether the catalog keeps its rules: no id and no name occurs twice,
    /// no alias occurs twice or is spelled like a name, letter case aside,
    /// every alias belongs to an exercise, and no name or alias writes the
    /// id of an exercise other than its own.
    pub open spec fn well_formed(&self) -> bool {
        &&& ids_distinct(self.exercises@)
        &&& names_distinct(self.exercises@)
        &&& aliases_distinct(self.aliases@)
        &&& aliases_attached(self.exercises@, self.aliases@)
        &&& aliases_apart_from_names(self.exercises@, self.aliases@)
        &&& numbers_apart(self.exercises@, self.aliases@)
    }

    /// Finds the exercise an identifier stands for, or says what can be
    /// done where there is none: with a type and muscles at hand an exercise
    /// can be created under the identifier; without, nothing can. The
    /// catalog is not changed: creating is the caller's decision.
    pub fn resolve_or_propose(
        &self,
        identifier: &str,
        implicit_type: Option<crate::model::ExerciseType>,
        implicit_muscles: Option<&str>,
    ) -> (r: Resolution)
        ensures
            match r {
                Resolution::Found(k) => self.spec_resolve(identifier@) == Some(k as int) && k
                    < self.exercises@.len(),
                Resolution::NotFoundButCreatable { name, type_, muscles } => {
                    &&& self.spec_resolve(identifier@) is None
                    &&& name@ == identifier@
                    &&& implicit_type == Some(type_)
                    &&& (implicit_muscles matches Some(text) && text@ == muscles@)
                },
                Resolution::NotFound => self.spec_resolve(identifier@) is None && (implicit_type
                    is None || implicit_muscles is None),
            },
    {
        match self.resolve_index(identifier) {
            Some(k) => Resolution::Found(k),
            None => match (implicit_type, implicit_muscles) {
                (Some(type_), Some(muscles)) => Resolution::NotFoundButCreatable {
                    name: String::from_str(identifier),
                    type_,
                    muscles: String::from_str(muscles),
                },
                _ => Resolution::NotFound,
            },
        }
    }

    /// The id for the next exercise: one more than the greatest number in
    /// use, be it as an id or written by a name or an alias, and at least 1;
    /// or `None` where that does not fit. So a new id is never a number
    /// that a name or an alias already writes.
    pub fn next_id(&self) -> (r: Option<i64>)
        ensures
            match r {
                Some(id) => {
                    &&& id >= 1
                    &&& forall|n: i64| #[trigger]
                        number_in_use(self.exercises@, self.aliases@, n) ==> n < id
                    &&& id == 1 || number_in_use(self.exercises@, self.aliases@, (id - 1) as i64)
                },
                None => number_in_use(self.exercises@, self.aliases@, i64::MAX),
            },
    {
        let mut greatest: i64 = 0;
        let mut i: usize = 0;
        while i < self.exercises.len()
            invariant
                0 <= i <= self.exercises.len(),
                greatest >= 0,
                forall|k: int| 0 <= k < i ==> (#[trigger] self.exercises@[k]).id <= greatest,
                forall|k: int|
                    0 <= k < i ==> (parsed_integer(
                        (#[trigger] self.exercises@[k]).name@,
                    ) matches Some(n) ==> n <= greatest),
                greatest == 0 || number_in_use(self.exercises@, self.aliases@, greatest),
            decreases self.exercises.len() - i,
        {
            if self.exercises[i].id > greatest {
                greatest = self.exercises[i].id;
                assert(self.exercises@[i as int].id == greatest);
            }
            if let Some(n) = std_parse_i64(self.exercises[i].name.as_str()) {
                if n > greatest {
                    greatest = n;
                    assert(parsed_integer(self.exercises@[i as int].name@) == Some(greatest));
                }
            }
            i = i + 1;
        }
        let mut a: usize = 0;
        while a < self.aliases.len()
            invariant
                0 <= a <= self.aliases.len(),
                greatest >= 0,
                forall|k: int|
                    0 <= k < self.exercises@.len() ==> (#[trigger] self.exercises@[k]).id
                        <= greatest,
                forall|k: int|
                    0 <= k < self.exercises@.len() ==> (parsed_integer(
                        (#[trigger] self.exercises@[k]).name@,
                    ) matches Some(n) ==> n <= greatest),
                forall|k: int|
                    0 <= k < a ==> (parsed_integer(
                        (#[trigger] self.aliases@[k]).alias@,
                    ) matches Some(n) ==> n <= greatest),
                greatest == 0 || number_in_use(self.exercises@, self.aliases@, greatest),
            decreases self.aliases.len() - a,
        {
            if let Some(n) = std_parse_i64(self.aliases[a].alias.as_str()) {
                if n > greatest {
                    greatest = n;
                    assert(parsed_integer(self.aliases@[a as int].alias@) == Some(greatest));
                }
            }
            a = a + 1;
        }
        if greatest == i64::MAX {
            None
        } else {
            Some(greatest + 1)
        }
    }

    /// Defines an exercise and returns its id. The name is refused where an
    /// exercise or an alias already goes by it, letter case aside, and where
    /// it is the decimal writing of an exercise's id; then the catalog stays
    /// as it was. A well-formed catalog stays well-formed.
    pub fn create_exercise(
        &mut self,
        name: &str,
        type_: crate::model::ExerciseType,
        muscles: Vec<String>,
        log_weight: bool,
        log_reps: bool,
        log_duration: bool,
        log_distance: bool,
    ) -> (r: Result<i64, TrackerError>)
        ensures
            final(self).aliases == old(self).aliases,
            match r {
                Ok(id) => {
                    &&& !name_taken_by_other(old(self).exercises@, -1, name@)
                    &&& !name_taken_by_alias(old(self).aliases@, name@)
                    &&& spec_resolve_by_id(old(self).exercises@, name@) is None
                    &&& final(self).exercises@.len() == old(self).exercises@.len() + 1
                    &&& final(self).exercises@.drop_last() == old(self).exercises@
                    &&& final(self).exercises@.last().id == id
                    &&& final(self).exercises@.last().name@ == name@
                    &&& final(self).exercises@.last().type_ == type_
                    &&& final(self).exercises@.last().muscles == muscles
                    &&& final(self).exercises@.last().log_weight == log_weight
                    &&& final(self).exercises@.last().log_reps == log_reps
                    &&& final(self).exercises@.last().log_duration == log_duration
                    &&& final(self).exercises@.last().log_distance == log_distance
                    &&& id >= 1
                    &&& forall|n: i64| #[trigger]
                        number_in_use(old(self).exercises@, old(self).aliases@, n) ==> n < id
                    &&& id == 1 || number_in_use(
                        old(self).exercises@,
                        old(self).aliases@,
                        (id - 1) as i64,
                    )
                    &&& old(self).well_formed() ==> final(self).well_formed()
                },
                Err(TrackerError::ExerciseNameNotUnique(text)) => {
                    &&& (name_taken_by_other(old(self).exercises@, -1, name@)
                        || name_taken_by_alias(old(self).aliases@, name@) || spec_resolve_by_id(
                        old(self).exercises@,
                        name@,
                    ) is Some)
                    &&& text@ == name@
                    &&& *final(self) == *old(self)
                },
                Err(TrackerError::InvalidInput(_)) => {
                    &&& !name_taken_by_other(old(self).exercises@, -1, name@)
                    &&& !name_taken_by_alias(old(self).aliases@, name@)
                    &&& spec_resolve_by_id(old(self).exercises@, name@) is None
                    &&& number_in_use(old(self).exercises@, old(self).aliases@, i64::MAX)
                    &&& *final(self) == *old(self)
                },
                Err(_) => false,
            },
    {
        proof {
            if let Some(id) = parsed_integer(name@) {
                lemma_find_id(self.exercises@, id, 0);
            }
        }
        if self.name_in_use(self.exercises.len(), name) || self.writes_other_id(
            self.exercises.len(),
            name,
        ) {
            proof {
                if name_taken_by_other(self.exercises@, self.exercises@.len() as int, name@) {
                    let m = choose|m: int|
                        0 <= m < self.exercises@.len() && m != self.exercises@.len()
                            && same_ignoring_case((#[trigger] self.exercises@[m]).name@, name@);
                    assert(m != -1 && same_ignoring_case(self.exercises@[m].name@, name@));
                }
            }
            return Err(TrackerError::ExerciseNameNotUnique(String::from_str(name)));
        }
        proof {
            if name_taken_by_other(self.exercises@, -1, name@) {
                let m = choose|m: int|
                    0 <= m < self.exercises@.len() && m != -1 && same_ignoring_case(
                        (#[trigger] self.exercises@[m]).name@,
                        name@,
                    );
                assert(m != self.exercises@.len() && same_ignoring_case(
                    self.exercises@[m].name@,
                    name@,
                ));
            }
        }
        let id = match self.next_id() {
            Some(id) => id,
            None => {
                return Err(
                    TrackerError::InvalidInput(String::from_str("No exercise id is left.")),
                );
            },
        };
        let exercise = ExerciseDefinition {
            id,
            name: String::from_str(name),
            type_,
            muscles,
            log_weight,
            log_reps,
            log_duration,
            log_distance,
        };
        self.exercises.push(exercise);
        proof {
            let before = old(self).exercises@;
            let after = self.exercises@;
            assert(after.drop_last() =~= before);
            if old(self).well_formed() {
                assert(after =~= before.push(after.last()));
                lemma_apart_after_new_exercise(before, after.last(), self.aliases@);
                assert forall|i: int| 0 <= i < before.len() implies (#[trigger] before[i]).id < id by {
                    assert(number_in_use(before, self.aliases@, before[i].id));
                }
                assert forall|a: int| 0 <= a < self.aliases@.len() implies spec_find_id(
                    after,
                    (#[trigger] self.aliases@[a]).exercise_id,
                    0,
                ) is Some by {
                    let wanted = self.aliases@[a].exercise_id;
                    lemma_find_id(before, wanted, 0);
                    lemma_find_id(after, wanted, 0);
                    let k = spec_find_id(before, wanted, 0).unwrap();
                    assert(after[k].id == wanted);
                }
                assert forall|a: int, i: int|
                    0 <= a < self.aliases@.len() && 0 <= i < after.len() implies !same_ignoring_case(
                    (#[trigger] self.aliases@[a]).alias@,
                    (#[trigger] after[i]).name@,
                ) by {
                    if i < before.len() {
                        assert(after[i] == before[i]);
                    }
                }
                assert forall|i: int, j: int| 0 <= i < j < after.len() implies (#[trigger] after[i]).id
                    != (#[trigger] after[j]).id by {
                    assert(after[i] == before[i]);
                    if j < before.len() {
                        assert(after[j] == before[j]);
                    }
                }
                assert forall|i: int, j: int| 0 <= i < j < after.len() implies !same_ignoring_case(
                    (#[trigger] after[i]).name@,
                    (#[trigger] after[j]).name@,
                ) by {
                    assert(after[i] == before[i]);
                    if j < before.len() {
                        assert(after[j] == before[j]);
                    }
                }
            }
        }
        Ok(id)
    }

    /// Gives an exercise a second name. The alias is refused where an
    /// exercise or an alias already goes by it, letter case aside, and where
    /// it is the decimal writing of another exercise's id. A well-formed
    /// catalog stays well-formed.
    pub fn create_alias(&mut self, alias: &str, identifier: &str) -> (r: Result<(), TrackerError>)
        ensures
            final(self).exercises == old(self).exercises,
            match r {
                Ok(_) => {
                    &&& old(self).spec_resolve(identifier@) matches Some(k)
                    &&& !name_taken_by_other(old(self).exercises@, -1, alias@)
                    &&& !name_taken_by_alias(old(self).aliases@, alias@)
                    &&& (spec_resolve_by_id(old(self).exercises@, alias@) is None
                        || spec_resolve_by_id(old(self).exercises@, alias@) == Some(k))
                    &&& final(self).aliases@.len() == old(self).aliases@.len() + 1
                    &&& final(self).aliases@.drop_last() == old(self).aliases@
                    &&& final(self).aliases@.last().alias@ == alias@
                    &&& final(self).aliases@.last().exercise_id == old(self).exercises@[k].id
                    &&& old(self).well_formed() ==> final(self).well_formed()
                },
                Err(TrackerError::ExerciseNotFound(text)) => {
                    &&& old(self).spec_resolve(identifier@) is None
                    &&& text@ == identifier@
                    &&& *final(self) == *old(self)
                },
                Err(TrackerError::ExerciseNameNotUnique(text)) => {
                    &&& old(self).spec_resolve(identifier@) matches Some(k)
                    &&& (name_taken_by_other(old(self).exercises@, -1, alias@)
                        || name_taken_by_alias(old(self).aliases@, alias@) || number_of_other(
                        old(self).exercises@,
                        k,
                        alias@,
                    ))
                    &&& text@ == alias@
                    &&& *final(self) == *old(self)
                },
                Err(_) => false,
            },
    {
        let k = match self.resolve_index(identifier) {
            Some(k) => k,
            None => {
                return Err(TrackerError::ExerciseNotFound(String::from_str(identifier)));
            },
        };
        if self.name_in_use(self.exercises.len(), alias) || self.writes_other_id(k, alias) {
            proof {
                if name_taken_by_other(self.exercises@, self.exercises@.len() as int, alias@) {
                    let m = choose|m: int|
                        0 <= m < self.exercises@.len() && m != self.exercises@.len()
                            && same_ignoring_case((#[trigger] self.exercises@[m]).name@, alias@);
                    assert(m != -1 && same_ignoring_case(self.exercises@[m].name@, alias@));
                }
            }
            return Err(TrackerError::ExerciseNameNotUnique(String::from_str(alias)));
        }
        proof {
            if name_taken_by_other(self.exercises@, -1, alias@) {
                let m = choose|m: int|
                    0 <= m < self.exercises@.len() && m != -1 && same_ignoring_case(
                        (#[trigger] self.exercises@[m]).name@,
                        alias@,
                    );
                assert(m != self.exercises@.len() && same_ignoring_case(
                    self.exercises@[m].name@,
                    alias@,
                ));
            }
        }
        let exercise_id = self.exercises[k].id;
        self.aliases.push(Alias { alias: String::from_str(alias), exercise_id });
        proof {
            let before = old(self).aliases@;
            let after = self.aliases@;
            let exercises = self.exercises@;
            assert(after.drop_last() =~= before);
            if old(self).well_formed() {
                assert(after =~= before.push(after.last()));
                lemma_apart_after_new_alias(exercises, before, after.last());
                assert forall|a: int, b: int| 0 <= a < b < after.len() implies !same_ignoring_case(
                    (#[trigger] after[a]).alias@,
                    (#[trigger] after[b]).alias@,
                ) by {
                    assert(after[a] == before[a]);
                    if b < before.len() {
                        assert(after[b] == before[b]);
                    }
                }
                assert forall|a: int| 0 <= a < after.len() implies spec_find_id(
                    exercises,
                    (#[trigger] after[a]).exercise_id,
                    0,
                ) is Some by {
                    if a < before.len() {
                        assert(after[a] == before[a]);
                    } else {
                        lemma_find_id(exercises, exercise_id, 0);
                        assert(exercises[k as int].id == exercise_id);
                    }
                }
                assert forall|a: int, i: int|
                    0 <= a < after.len() && 0 <= i < exercises.len() implies !same_ignoring_case(
                    (#[trigger] after[a]).alias@,
                    (#[trigger] exercises[i]).name@,
                ) by {
                    if a < before.len() {
                        assert(after[a] == before[a]);
                    } else {
                        assert(i != -1);
                    }
                }
            }
        }
        Ok(())
    }

    /// Deletes the exercise that `identifier` stands for together with its
    /// aliases, and returns the number of aliases deleted. A well-formed
    /// catalog stays well-formed.
    pub fn delete_exercise(&mut self, identifier: &str) -> (r: Result<usize, TrackerError>)
        ensures
            match r {
                Ok(removed) => {
                    &&& old(self).spec_resolve(identifier@) matches Some(k)
                    &&& final(self).exercises@ == old(self).exercises@.remove(k)
                    &&& final(self).aliases@ == spec_aliases_without(
                        old(self).aliases@,
                        old(self).exercises@[k].id,
                        old(self).aliases@.len() as int,
                    )
                    &&& removed == old(self).aliases@.len() - final(self).aliases@.len()
                    &&& old(self).well_formed() ==> final(self).well_formed()
                },
                Err(TrackerError::ExerciseNotFound(text)) => {
                    &&& old(self).spec_resolve(identifier@) is None
                    &&& text@ == identifier@
                    &&& *final(self) == *old(self)
                },
                Err(_) => false,
            },
    {
        let k = match self.resolve_index(identifier) {
            Some(k) => k,
            None => {
                return Err(TrackerError::ExerciseNotFound(String::from_str(identifier)));
            },
        };
        let id = self.exercises[k].id;
        let mut kept: Vec<Alias> = Vec::new();
        let mut a: usize = 0;
        while a < self.aliases.len()
            invariant
                *self == *old(self),
                0 <= a <= self.aliases.len(),
                kept@ == spec_aliases_without(self.aliases@, id, a as int),
                kept@.len() <= a,
            decreases self.aliases.len() - a,
        {
            if self.aliases[a].exercise_id != id {
                kept.push(
                    Alias {
                        alias: self.aliases[a].alias.clone(),
                        exercise_id: self.aliases[a].exercise_id,
                    },
                );
            }
            a = a + 1;
        }
        let removed = self.aliases.len() - kept.len();
        self.exercises.remove(k);
        self.aliases = kept;
        proof {
            let before = old(self).exercises@;
            let after = self.exercises@;
            let aliases_before = old(self).aliases@;
            let aliases_after = self.aliases@;
            lemma_aliases_without(aliases_before, id, aliases_before.len() as int);
            if old(self).well_formed() {
                lemma_apart_after_delete(before, k as int, aliases_before, aliases_after);
                assert forall|i: int, j: int| 0 <= i < j < after.len() implies (#[trigger] after[i]).id
                    != (#[trigger] after[j]).id && !same_ignoring_case(
                    after[i].name@,
                    after[j].name@,
                ) by {
                    let i0 = if i < k { i } else { i + 1 };
                    let j0 = if j < k { j } else { j + 1 };
                    assert(after[i] == before[i0] && after[j] == before[j0] && i0 < j0);
                }
                assert forall|x: int, y: int|
                    0 <= x < y < aliases_after.len() implies !same_ignoring_case(
                    (#[trigger] aliases_after[x]).alias@,
                    (#[trigger] aliases_after[y]).alias@,
                ) by {
                    assert(stand_in_order(
                        aliases_before,
                        aliases_before.len() as int,
                        aliases_after[x],
                        aliases_after[y],
                    ));
                    let (i, j) = choose|i: int, j: int|
                        0 <= i < j < aliases_before.len() && #[trigger] aliases_before[i]
                            == aliases_after[x] && #[trigger] aliases_before[j] == aliases_after[y];
                    assert(!same_ignoring_case(aliases_before[i].alias@, aliases_before[j].alias@));
                }
                assert forall|x: int| 0 <= x < aliases_after.len() implies spec_find_id(
                    after,
                    (#[trigger] aliases_after[x]).exercise_id,
                    0,
                ) is Some by {
                    let wanted = aliases_after[x].exercise_id;
                    assert(stands_among(aliases_before, aliases_before.len() as int, aliases_after[x]));
                    let i = choose|i: int|
                        0 <= i < aliases_before.len() && #[trigger] aliases_before[i]
                            == aliases_after[x];
                    assert(spec_find_id(before, aliases_before[i].exercise_id, 0) is Some);
                    lemma_find_id(before, wanted, 0);
                    lemma_find_id(after, wanted, 0);
                    let m = spec_find_id(before, wanted, 0).unwrap();
                    assert(m != k);
                    let m1 = if m < k { m } else { m - 1 };
                    assert(after[m1] == before[m]);
                }
                assert forall|x: int, i: int|
                    0 <= x < aliases_after.len() && 0 <= i < after.len() implies !same_ignoring_case(
                    (#[trigger] aliases_after[x]).alias@,
                    (#[trigger] after[i]).name@,
                ) by {
                    assert(stands_among(aliases_before, aliases_before.len() as int, aliases_after[x]));
                    let a0 = choose|a0: int|
                        0 <= a0 < aliases_before.len() && #[trigger] aliases_before[a0]
                            == aliases_after[x];
                    let i0 = if i < k { i } else { i + 1 };
                    assert(after[i] == before[i0]);
                    assert(!same_ignoring_case(aliases_before[a0].alias@, before[i0].name@));
                }
            }
        }
        Ok(removed)
    }
}

/// Whether an exercise lists `muscle` among its target muscles, letter
/// case aside.
pub open spec fn spec_lists_muscle(exercise: ExerciseDefinition, muscle: Seq<char>) -> bool {
    exists|t: int|
        0 <= t < exercise.muscles@.len() && same_ignoring_case(
            (#[trigger] exercise.muscles@[t])@,
            muscle,
        )
}

/// Whether an exercise is of the type asked for and lists the muscle asked
/// for, each where one is asked for.
pub open spec fn spec_exercise_matches(
    exercise: ExerciseDefinition,
    type_: Option<crate::model::ExerciseType>,
    muscle: Option<Seq<char>>,
) -> bool {
    &&& (type_ matches Some(t) ==> exercise.type_ == t)
    &&& (muscle matches Some(m) ==> spec_lists_muscle(exercise, m))
}

/// The places among the first `n` exercises whose exercise matches.
pub open spec fn spec_matching_places(
    exercises: Seq<ExerciseDefinition>,
    type_: Option<crate::model::ExerciseType>,
    muscle: Option<Seq<char>>,
    n: int,
) -> Seq<usize>
    decreases n,
{
    if n <= 0 {
        Seq::empty()
    } else if spec_exercise_matches(exercises[n - 1], type_, muscle) {
        spec_matching_places(exercises, type_, muscle, n - 1).push((n - 1) as usize)
    } else {
        spec_matching_places(exercises, type_, muscle, n - 1)
    }
}

/// An optional text by its characters.
pub open spec fn optional_view(text: Option<&str>) -> Option<Seq<char>> {
    match text {
        Some(t) => Some(t@),
        None => None,
    }
}

/// Whether an exercise lists a muscle whose lower-case spelling is
/// `wanted`.
pub fn lists_muscle(exercise: &ExerciseDefinition, wanted: &String) -> (r: bool)
    ensures
        r == exists|t: int|
            0 <= t < exercise.muscles@.len() && lowercase((#[trigger] exercise.muscles@[t])@)
                == wanted@,
{
    let mut t: usize = 0;
    while t < exercise.muscles.len()
        invariant
            0 <= t <= exercise.muscles.len(),
            forall|j: int| 0 <= j < t ==> lowercase((#[trigger] exercise.muscles@[j])@) != wanted@,
        decreases exercise.muscles.len() - t,
    {
        let tag = std_to_lowercase(exercise.muscles[t].as_str());
        if tag == *wanted {
            return true;
        }
        t = t + 1;
    }
    false
}

impl Catalog {
    /// The places of the exercises of a type that list a muscle, each
    /// condition holding only where it is given.
    pub fn matching_exercises(
        &self,
        type_: Option<crate::model::ExerciseType>,
        muscle: Option<&str>,
    ) -> (r: Vec<usize>)
        ensures
            r@ == spec_matching_places(
                self.exercises@,
                type_,
                optional_view(muscle),
                self.exercises@.len() as int,
            ),
    {
        let wanted = match muscle {
            Some(m) => Some(std_to_lowercase(m)),
            None => None,
        };
        let mut places: Vec<usize> = Vec::new();
        let mut i: usize = 0;
        while i < self.exercises.len()
            invariant
                0 <= i <= self.exercises.len(),
                match wanted {
                    Some(w) => muscle is Some && w@ == lowercase(muscle.unwrap()@),
                    None => muscle is None,
                },
                places@ == spec_matching_places(
                    self.exercises@,
                    type_,
                    optional_view(muscle),
                    i as int,
                ),
            decreases self.exercises.len() - i,
        {
            let exercise = &self.exercises[i];
            let of_type = match type_ {
                Some(t) => exercise.type_ == t,
                None => true,
            };
            let with_muscle = match &wanted {
                Some(w) => lists_muscle(exercise, w),
                None => true,
            };
            if of_type && with_muscle {
                places.push(i);
            }
            i = i + 1;
        }
        places
    }

    /// Deletes the first alias spelled exactly `alias`. Fails, and leaves
    /// the catalog as it was, where there is none. A well-formed catalog
    /// stays well-formed.
    pub fn delete_alias(&mut self, alias: &str) -> (r: Result<(), TrackerError>)
        ensures
            final(self).exercises == old(self).exercises,
            match r {
                Ok(_) => exists|place: int|
                    {
                        &&& 0 <= place < old(self).aliases@.len()
                        &&& (#[trigger] old(self).aliases@[place]).alias@ == alias@
                        &&& forall|j: int|
                            0 <= j < place ==> (#[trigger] old(self).aliases@[j]).alias@ != alias@
                        &&& final(self).aliases@ == old(self).aliases@.remove(place)
                    } && (old(self).well_formed() ==> final(self).well_formed()),
                Err(e) => {
                    &&& (e matches TrackerError::AliasNotFound(text) && text@ == alias@)
                    &&& forall|j: int|
                        0 <= j < old(self).aliases@.len() ==> (#[trigger] old(
                            self,
                        ).aliases@[j]).alias@ != alias@
                    &&& *final(self) == *old(self)
                },
            },
    {
        let wanted = String::from_str(alias);
        let mut i: usize = 0;
        while i < self.aliases.len()
            invariant
                *self == *old(self),
                wanted@ == alias@,
                0 <= i <= self.aliases.len(),
                forall|j: int| 0 <= j < i ==> (#[trigger] self.aliases@[j]).alias@ != alias@,
            decreases self.aliases.len() - i,
        {
            if self.aliases[i].alias == wanted {
                self.aliases.remove(i);
                proof {
                    let before = old(self).aliases@;
                    let after = self.aliases@;
                    let exercises = self.exercises@;
                    assert(before[i as int].alias@ == alias@);
                    if old(self).well_formed() {
                        assert forall|a: int| 0 <= a < after.len() implies (spec_resolve_by_id(
                            exercises,
                            (#[trigger] after[a]).alias@,
                        ) matches Some(m) ==> exercises[m].id == after[a].exercise_id) by {
                            let a0 = if a < i { a } else { a + 1 };
                            assert(after[a] == before[a0]);
                        }
                        assert forall|a: int, b: int| 0 <= a < b < after.len() implies !same_ignoring_case(
                            (#[trigger] after[a]).alias@,
                            (#[trigger] after[b]).alias@,
                        ) by {
                            let a0 = if a < i { a } else { a + 1 };
                            let b0 = if b < i { b } else { b + 1 };
                            assert(after[a] == before[a0] && after[b] == before[b0] && a0 < b0);
                        }
                        assert forall|a: int| 0 <= a < after.len() implies spec_find_id(
                            exercises,
                            (#[trigger] after[a]).exercise_id,
                            0,
                        ) is Some by {
                            let a0 = if a < i { a } else { a + 1 };
                            assert(after[a] == before[a0]);
                        }
                        assert forall|a: int, e: int|
                            0 <= a < after.len() && 0 <= e < exercises.len() implies !same_ignoring_case(
                            (#[trigger] after[a]).alias@,
                            (#[trigger] exercises[e]).name@,
                        ) by {
                            let a0 = if a < i { a } else { a + 1 };
                            assert(after[a] == before[a0]);
                        }
                    }
                }
                return Ok(());
            }
            i = i + 1;
        }
        Err(TrackerError::AliasNotFound(wanted))
    }
}

/// What an edit leaves of an exercise: its id and name, and each other part
/// as the edit states it or, where the edit is silent, as it was. The log
/// flags come in the order duration, distance, weight, reps.
pub open spec fn spec_edited_exercise(
    before: ExerciseDefinition,
    after: ExerciseDefinition,
    type_: Option<crate::model::ExerciseType>,
    muscles: Option<Vec<String>>,
    flags: Option<(Option<bool>, Option<bool>, Option<bool>, Option<bool>)>,
) -> bool {
    &&& after.id == before.id
    &&& after.name == before.name
    &&& after.type_ == match type_ {
        Some(t) => t,
        None => before.type_,
    }
    &&& after.muscles == match muscles {
        Some(tags) => tags,
        None => before.muscles,
    }
    &&& after.log_duration == match flags {
        Some((Some(flag), _, _, _)) => flag,
        _ => before.log_duration,
    }
    &&& after.log_distance == match flags {
        Some((_, Some(flag), _, _)) => flag,
        _ => before.log_distance,
    }
    &&& after.log_weight == match flags {
        Some((_, _, Some(flag), _)) => flag,
        _ => before.log_weight,
    }
    &&& after.log_reps == match flags {
        Some((_, _, _, Some(flag))) => flag,
        _ => before.log_reps,
    }
}

impl Catalog {
    /// Changes the type, the muscles and the log flags of the exercise at
    /// `index`, each where the edit states it. Name and id stay, and so
    /// does every other exercise and every alias; a well-formed catalog
    /// stays well-formed.
    pub fn update_exercise(
        &mut self,
        index: usize,
        type_: Option<crate::model::ExerciseType>,
        muscles: Option<Vec<String>>,
        flags: Option<(Option<bool>, Option<bool>, Option<bool>, Option<bool>)>,
    )
        requires
            index < old(self).exercises@.len(),
        ensures
            final(self).aliases == old(self).aliases,
            final(self).exercises@.len() == old(self).exercises@.len(),
            spec_edited_exercise(
                old(self).exercises@[index as int],
                final(self).exercises@[index as int],
                type_,
                muscles,
                flags,
            ),
            forall|m: int|
                0 <= m < old(self).exercises@.len() && m != index ==> (#[trigger] final(self).exercises@[m])
                    == old(self).exercises@[m],
            old(self).well_formed() ==> final(self).well_formed(),
    {
        let mut exercise = self.exercises.remove(index);
        if let Some(t) = type_ {
            exercise.type_ = t;
        }
        if let Some(tags) = muscles {
            exercise.muscles = tags;
        }
        if let Some((duration, distance, weight, reps)) = flags {
            if let Some(flag) = duration {
                exercise.log_duration = flag;
            }
            if let Some(flag) = distance {
                exercise.log_distance = flag;
            }
            if let Some(flag) = weight {
                exercise.log_weight = flag;
            }
            if let Some(flag) = reps {
                exercise.log_reps = flag;
            }
        }
        self.exercises.insert(index, exercise);
        proof {
            let before = old(self).exercises@;
            let after = self.exercises@;
            let aliases = self.aliases@;
            assert forall|m: int| 0 <= m < before.len() implies (#[trigger] after[m]).id
                == before[m].id && after[m].name == before[m].name by {}
            if old(self).well_formed() {
                lemma_apart_same_names(before, after, aliases);
                assert forall|i: int, j: int| 0 <= i < j < after.len() implies !same_ignoring_case(
                    (#[trigger] after[i]).name@,
                    (#[trigger] after[j]).name@,
                ) by {
                    assert(after[i].name == before[i].name && after[j].name == before[j].name);
                }
                assert forall|a: int| 0 <= a < aliases.len() implies spec_find_id(
                    after,
                    (#[trigger] aliases[a]).exercise_id,
                    0,
                ) is Some by {
                    lemma_find_id_same_ids(before, after, aliases[a].exercise_id, 0);
                }
                assert forall|a: int, i: int|
                    0 <= a < aliases.len() && 0 <= i < after.len() implies !same_ignoring_case(
                    (#[trigger] aliases[a]).alias@,
                    (#[trigger] after[i]).name@,
                ) by {
                    assert(after[i].name == before[i].name);
                }
            }
        }
    }
}

} // verus!
