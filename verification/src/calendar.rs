//! Distinct training days in ascending order.

use crate::date::Date;
use vstd::prelude::*;

verus! {

/// Whether each day comes strictly before the next, so that no day occurs
/// twice.
pub open spec fn strictly_ascending(days: Seq<Date>) -> bool {
    forall|i: int, j: int| 0 <= i < j < days.len() ==> days[i].days < days[j].days
}

/// `days` with `day` put in its place, unless it is there already.
pub open spec fn spec_insert_day(days: Seq<Date>, day: Date) -> Seq<Date>
    decreases days.len(),
{
    if days.len() == 0 {
        seq![day]
    } else if days.last().days < day.days {
        days.push(day)
    } else if days.last().days == day.days {
        days
    } else {
        spec_insert_day(days.drop_last(), day).push(days.last())
    }
}

/// The first `n` of `dates`, each put in its place once.
pub open spec fn spec_training_days_upto(dates: Seq<Date>, n: int) -> Seq<Date>
    decreases n,
{
    if n <= 0 {
        Seq::empty()
    } else {
        spec_insert_day(spec_training_days_upto(dates, n - 1), dates[n - 1])
    }
}

/// The distinct days among `dates`, ascending.
pub open spec fn spec_training_days(dates: Seq<Date>) -> Seq<Date> {
    spec_training_days_upto(dates, dates.len() as int)
}

/// Putting a day into an ascending list keeps it ascending and adds that
/// day and no other.
pub proof fn lemma_insert_day(days: Seq<Date>, day: Date)
    requires
        strictly_ascending(days),
    ensures
        strictly_ascending(spec_insert_day(days, day)),
        forall|d: Date| #[trigger]
            spec_insert_day(days, day).contains(d) <==> (days.contains(d) || d == day),
        spec_insert_day(days, day).len() == if days.contains(day) {
            days.len()
        } else {
            days.len() + 1
        },
    decreases days.len(),
{
    let out = spec_insert_day(days, day);
    if days.len() == 0 {
        assert(out[0] == day);
        assert forall|d: Date| #[trigger] out.contains(d) <==> (days.contains(d) || d == day) by {
            if d == day {
                assert(out[0] == d);
            }
        }
    } else if days.last().days < day.days {
        assert(out[days.len() as int] == day);
        assert forall|d: Date| #[trigger] out.contains(d) <==> (days.contains(d) || d == day) by {
            if days.contains(d) {
                let i = choose|i: int| 0 <= i < days.len() && days[i] == d;
                assert(out[i] == d);
            }
            if d == day {
                assert(out[days.len() as int] == d);
            }
        }
        if days.contains(day) {
            let i = choose|i: int| 0 <= i < days.len() && days[i] == day;
            assert(days[i].days <= days.last().days);
        }
    } else if days.last().days == day.days {
        assert(days[days.len() - 1] == day);
    } else {
        let rest = days.drop_last();
        let last = days.last();
        lemma_insert_day(rest, day);
        let inner = spec_insert_day(rest, day);
        assert(out == inner.push(last));
        assert forall|i: int, j: int| 0 <= i < j < out.len() implies out[i].days
            < out[j].days by {
            if j == out.len() - 1 {
                assert(inner.contains(inner[i]));
                if rest.contains(inner[i]) {
                    let k = choose|k: int| 0 <= k < rest.len() && rest[k] == inner[i];
                    assert(days[k] == inner[i]);
                }
            }
        }
        assert forall|d: Date| #[trigger] out.contains(d) <==> (days.contains(d) || d == day) by {
            if out.contains(d) {
                let i = choose|i: int| 0 <= i < out.len() && out[i] == d;
                if i < inner.len() {
                    assert(inner.contains(d));
                    if rest.contains(d) {
                        let k = choose|k: int| 0 <= k < rest.len() && rest[k] == d;
                        assert(days[k] == d);
                    }
                } else {
                    assert(days[days.len() - 1] == d);
                }
            }
            if days.contains(d) {
                let k = choose|k: int| 0 <= k < days.len() && days[k] == d;
                if k < rest.len() {
                    assert(rest[k] == d);
                    assert(rest.contains(d));
                    assert(inner.contains(d));
                    let m = choose|m: int| 0 <= m < inner.len() && inner[m] == d;
                    assert(out[m] == d);
                } else {
                    assert(out[out.len() - 1] == d);
                }
            }
            if d == day {
                assert(inner.contains(d));
                let m = choose|m: int| 0 <= m < inner.len() && inner[m] == d;
                assert(out[m] == d);
            }
        }
        if days.contains(day) {
            let k = choose|k: int| 0 <= k < days.len() && days[k] == day;
            assert(k < rest.len());
            assert(rest[k] == day);
            assert(rest.contains(day));
        } else {
            if rest.contains(day) {
                let k = choose|k: int| 0 <= k < rest.len() && rest[k] == day;
                assert(days[k] == day);
            }
        }
    }
}

/// The training days of a prefix are ascending and are exactly the days
/// that occur in it.
pub proof fn lemma_training_days_upto(dates: Seq<Date>, n: int)
    requires
        0 <= n <= dates.len(),
    ensures
        strictly_ascending(spec_training_days_upto(dates, n)),
        forall|d: Date| #[trigger]
            spec_training_days_upto(dates, n).contains(d) <==> exists|i: int|
                0 <= i < n && dates[i] == d,
        spec_training_days_upto(dates, n).len() <= n,
    decreases n,
{
    if n > 0 {
        lemma_training_days_upto(dates, n - 1);
        let before = spec_training_days_upto(dates, n - 1);
        lemma_insert_day(before, dates[n - 1]);
        let now = spec_training_days_upto(dates, n);
        assert forall|d: Date| #[trigger] now.contains(d) <==> exists|i: int|
            0 <= i < n && dates[i] == d by {
            if now.contains(d) {
                if before.contains(d) {
                    let i = choose|i: int| 0 <= i < n - 1 && dates[i] == d;
                    assert(0 <= i < n && dates[i] == d);
                } else {
                    assert(dates[n - 1] == d);
                }
            }
            if exists|i: int| 0 <= i < n && dates[i] == d {
                let i = choose|i: int| 0 <= i < n && dates[i] == d;
                if i < n - 1 {
                    assert(before.contains(d));
                }
            }
        }
    } else {
        assert forall|d: Date| !(#[trigger] spec_training_days_upto(dates, n).contains(d)) by {}
    }
}

/// The training days are ascending, hold no day twice, and are exactly the
/// days that occur in the list.
pub proof fn lemma_training_days(dates: Seq<Date>)
    ensures
        strictly_ascending(spec_training_days(dates)),
        forall|d: Date| #[trigger] spec_training_days(dates).contains(d) <==> dates.contains(d),
        spec_training_days(dates).len() <= dates.len(),
{
    lemma_training_days_upto(dates, dates.len() as int);
    assert forall|d: Date| #[trigger]
        spec_training_days(dates).contains(d) <==> dates.contains(d) by {
        if dates.contains(d) {
            let i = choose|i: int| 0 <= i < dates.len() && dates[i] == d;
            assert(0 <= i < dates.len() && dates[i] == d);
        }
    }
}

/// Two ascending lists with the same days are the same list.
pub proof fn lemma_ascending_days_unique(a: Seq<Date>, b: Seq<Date>)
    requires
        strictly_ascending(a),
        strictly_ascending(b),
        forall|d: Date| a.contains(d) <==> b.contains(d),
    ensures
        a == b,
    decreases a.len(),
{
    if a.len() == 0 {
        if b.len() > 0 {
            assert(b.contains(b[0]));
        }
    } else {
        let top = a.last();
        assert(a.contains(top));
        assert(b.contains(top));
        let k = choose|k: int| 0 <= k < b.len() && b[k] == top;
        if k < b.len() - 1 {
            assert(b.contains(b.last()));
            let m = choose|m: int| 0 <= m < a.len() && a[m] == b.last();
            assert(a[m].days <= top.days);
            assert(b[k].days < b[b.len() - 1].days);
        }
        let a0 = a.drop_last();
        let b0 = b.drop_last();
        assert forall|d: Date| a0.contains(d) <==> b0.contains(d) by {
            if a0.contains(d) {
                let i = choose|i: int| 0 <= i < a0.len() && a0[i] == d;
                assert(a[i] == d);
                assert(a.contains(d));
                let j = choose|j: int| 0 <= j < b.len() && b[j] == d;
                assert(a[i].days < a[a.len() - 1].days);
                assert(b0[j] == d);
            }
            if b0.contains(d) {
                let j = choose|j: int| 0 <= j < b0.len() && b0[j] == d;
                assert(b[j] == d);
                assert(b.contains(d));
                let i = choose|i: int| 0 <= i < a.len() && a[i] == d;
                assert(b[j].days < b[b.len() - 1].days);
                assert(a0[i] == d);
            }
        }
        lemma_ascending_days_unique(a0, b0);
        assert(a =~= a0.push(top));
        assert(b =~= b0.push(top));
    }
}

/// Where every day from `at` on comes after `day` and the day before `at`
/// does not, putting `day` in its place means inserting it at `at`, unless
/// the day before `at` is `day` itself.
proof fn lemma_insert_day_at(days: Seq<Date>, at: int, day: Date)
    requires
        0 <= at <= days.len(),
        forall|k: int| at <= k < days.len() ==> days[k].days > day.days,
        at > 0 ==> days[at - 1].days <= day.days,
    ensures
        spec_insert_day(days, day) == if at > 0 && days[at - 1].days == day.days {
            days
        } else {
            days.insert(at, day)
        },
    decreases days.len() - at,
{
    if at == days.len() {
        if days.len() == 0 {
            assert(seq![day] =~= days.insert(0, day));
        } else if days.last().days < day.days {
            assert(days.push(day) =~= days.insert(at, day));
        }
    } else {
        let rest = days.drop_last();
        lemma_insert_day_at(rest, at, day);
        if at > 0 && days[at - 1].days == day.days {
            assert(rest.push(days.last()) =~= days);
        } else {
            assert(rest.insert(at, day).push(days.last()) =~= days.insert(at, day));
        }
    }
}

/// Puts `day` in its place in `days`, unless it is there already.
pub fn insert_day(days: &mut Vec<Date>, day: Date)
    ensures
        final(days)@ == spec_insert_day(old(days)@, day),
{
    let mut at: usize = days.len();
    while at > 0 && days[at - 1].days > day.days
        invariant
            0 <= at <= days.len(),
            *days == *old(days),
            forall|k: int| at <= k < days.len() ==> days[k].days > day.days,
        decreases at,
    {
        at = at - 1;
    }
    proof {
        lemma_insert_day_at(days@, at as int, day);
    }
    if at > 0 && days[at - 1].days == day.days {
        return ;
    }
    days.insert(at, day);
}

/// The distinct days among `dates`, ascending.
pub fn training_days(dates: &Vec<Date>) -> (r: Vec<Date>)
    ensures
        r@ == spec_training_days(dates@),
        strictly_ascending(r@),
        forall|d: Date| #[trigger] r@.contains(d) <==> dates@.contains(d),
        r.len() <= dates.len(),
{
    let mut days: Vec<Date> = Vec::new();
    let mut i: usize = 0;
    while i < dates.len()
        invariant
            0 <= i <= dates.len(),
            days@ == spec_training_days_upto(dates@, i as int),
        decreases dates.len() - i,
    {
        insert_day(&mut days, dates[i]);
        i = i + 1;
    }
    proof {
        lemma_training_days(dates@);
    }
    days
}

} // verus!
