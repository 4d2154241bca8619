//! The alias list in alphabetical order.

use crate::catalog::{find_id, spec_find_id, Catalog};
use crate::model::{Alias, ExerciseDefinition};
use vstd::prelude::*;
use vstd::seq_lib::{to_multiset_build, to_multiset_insert};

verus! {

/// Whether `a` comes before `b` or is `b`, by the first character in which
/// they differ, characters ordered by their code points; a text comes after
/// each of its proper beginnings.
pub open spec fn text_le(a: Seq<char>, b: Seq<char>) -> bool
    decreases a.len(),
{
    if a.len() == 0 {
        true
    } else if b.len() == 0 {
        false
    } else if a[0] == b[0] {
        text_le(a.drop_first(), b.drop_first())
    } else {
        (a[0] as int) < (b[0] as int)
    }
}

/// Of two texts one comes before the other or they are the same.
pub proof fn lemma_text_le_total(a: Seq<char>, b: Seq<char>)
    ensures
        text_le(a, b) || text_le(b, a),
    decreases a.len(),
{
    if a.len() > 0 && b.len() > 0 {
        if a[0] == b[0] {
            lemma_text_le_total(a.drop_first(), b.drop_first());
        } else {
            assert(a[0] as int != b[0] as int);
        }
    }
}

/// What comes before a text comes before all that the text comes before.
pub proof fn lemma_text_le_transitive(a: Seq<char>, b: Seq<char>, c: Seq<char>)
    requires
        text_le(a, b),
        text_le(b, c),
    ensures
        text_le(a, c),
    decreases a.len(),
{
    if a.len() > 0 && b.len() > 0 && c.len() > 0 && a[0] == b[0] && b[0] == c[0] {
        lemma_text_le_transitive(a.drop_first(), b.drop_first(), c.drop_first());
    }
}

/// Two texts that each come before or are the other are the same text.
pub proof fn lemma_text_le_antisymmetric(a: Seq<char>, b: Seq<char>)
    requires
        text_le(a, b),
        text_le(b, a),
    ensures
        a == b,
    decreases a.len(),
{
    if a.len() > 0 && b.len() > 0 {
        lemma_text_le_antisymmetric(a.drop_first(), b.drop_first());
        assert(a =~= seq![a[0]] + a.drop_first());
        assert(b =~= seq![b[0]] + b.drop_first());
    } else {
        assert(a =~= b);
    }
}

/// Calls std's ordering of `str` with `<=`. Trusted: texts are ordered by
/// the first character in which they differ, characters by their code
/// points, a text coming after each of its proper beginnings.
#[verifier::external_body]
fn std_str_le(a: &str, b: &str) -> (r: bool)
    ensures
        r == text_le(a@, b@),
{
    a <= b
}

/// Pairs of texts by their characters.
pub open spec fn pairs_view(rows: Seq<(String, String)>) -> Seq<(Seq<char>, Seq<char>)> {
    Seq::new(rows.len(), |i: int| (rows[i].0@, rows[i].1@))
}

/// Whether the pairs stand in the order of their first texts.
pub open spec fn sorted_by_first(rows: Seq<(Seq<char>, Seq<char>)>) -> bool {
    forall|i: int, j: int| 0 <= i < j < rows.len() ==> text_le(rows[i].0, rows[j].0)
}

/// The name of the exercise an alias belongs to, or nothing where no
/// exercise has its id.
pub open spec fn spec_alias_target_name(exercises: Seq<ExerciseDefinition>, alias: Alias) -> Seq<
    char,
> {
    match spec_find_id(exercises, alias.exercise_id, 0) {
        Some(k) => exercises[k].name@,
        None => Seq::empty(),
    }
}

/// The first `n` aliases, each with the name of its exercise, in catalog
/// order.
pub open spec fn spec_alias_pairs(exercises: Seq<ExerciseDefinition>, aliases: Seq<Alias>, n: int)
    -> Seq<(Seq<char>, Seq<char>)>
    decreases n,
{
    if n <= 0 {
        Seq::empty()
    } else {
        spec_alias_pairs(exercises, aliases, n - 1).push(
            (aliases[n - 1].alias@, spec_alias_target_name(exercises, aliases[n - 1])),
        )
    }
}

/// Puts a pair in its place by its first text, after the pairs whose first
/// text is the same.
pub fn insert_sorted(rows: &mut Vec<(String, String)>, pair: (String, String))
    requires
        sorted_by_first(pairs_view(old(rows)@)),
    ensures
        sorted_by_first(pairs_view(final(rows)@)),
        pairs_view(final(rows)@).to_multiset() == pairs_view(old(rows)@).to_multiset().insert(
            (pair.0@, pair.1@),
        ),
        final(rows)@.len() == old(rows)@.len() + 1,
{
    let mut at: usize = 0;
    while at < rows.len() && std_str_le(rows[at].0.as_str(), pair.0.as_str())
        invariant
            *rows == *old(rows),
            0 <= at <= rows.len(),
            forall|k: int| 0 <= k < at ==> text_le((#[trigger] rows@[k]).0@, pair.0@),
        decreases rows.len() - at,
    {
        at = at + 1;
    }
    let ghost before = pairs_view(rows@);
    let ghost key = pair.0@;
    let ghost entry = (pair.0@, pair.1@);
    rows.insert(at, pair);
    proof {
        let after = pairs_view(rows@);
        assert(after =~= before.insert(at as int, entry));
        to_multiset_insert(before, at as int, entry);
        assert forall|i: int, j: int| 0 <= i < j < after.len() implies text_le(
            after[i].0,
            after[j].0,
        ) by {
            if j < at {
                assert(after[i] == before[i] && after[j] == before[j]);
            } else if j == at {
                assert(after[i] == before[i]);
                assert(text_le(old(rows)@[i].0@, key));
            } else if i < at {
                assert(after[i] == before[i] && after[j] == before[j - 1]);
            } else if i == at {
                assert(after[j] == before[j - 1]);
                lemma_text_le_total(before[at as int].0, key);
                assert(text_le(key, before[at as int].0));
                if j - 1 > at {
                    lemma_text_le_transitive(key, before[at as int].0, before[j - 1].0);
                }
            } else {
                assert(after[i] == before[i - 1] && after[j] == before[j - 1]);
            }
        }
    }
}

/// The aliases of a catalog, each with the name of its exercise, in the
/// order of the aliases' spelling. The list holds every alias once: it is a
/// rearrangement of the aliases in catalog order.
pub fn sorted_aliases(catalog: &Catalog) -> (r: Vec<(String, String)>)
    ensures
        sorted_by_first(pairs_view(r@)),
        pairs_view(r@).to_multiset() == spec_alias_pairs(
            catalog.exercises@,
            catalog.aliases@,
            catalog.aliases@.len() as int,
        ).to_multiset(),
        r@.len() == catalog.aliases@.len(),
{
    let mut rows: Vec<(String, String)> = Vec::new();
    let mut i: usize = 0;
    assert(pairs_view(rows@) =~= spec_alias_pairs(catalog.exercises@, catalog.aliases@, 0));
    while i < catalog.aliases.len()
        invariant
            0 <= i <= catalog.aliases.len(),
            rows@.len() == i,
            sorted_by_first(pairs_view(rows@)),
            pairs_view(rows@).to_multiset() == spec_alias_pairs(
                catalog.exercises@,
                catalog.aliases@,
                i as int,
            ).to_multiset(),
        decreases catalog.aliases.len() - i,
    {
        let alias = &catalog.aliases[i];
        let name = match find_id(&catalog.exercises, alias.exercise_id) {
            Some(k) => catalog.exercises[k].name.clone(),
            None => String::new(),
        };
        proof {
            to_multiset_build(
                spec_alias_pairs(catalog.exercises@, catalog.aliases@, i as int),
                (alias.alias@, spec_alias_target_name(catalog.exercises@, *alias)),
            );
        }
        insert_sorted(&mut rows, (alias.alias.clone(), name));
        i = i + 1;
    }
    rows
}

} // verus!
