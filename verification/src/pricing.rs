//! Prices that the app brings along, and the month that they are stored under.

use vstd::prelude::*;

use crate::calendar::{days_in_month, every_day_has_one_month, month_start, month_text};
use crate::calendar::{year_and_month, year_start};
use crate::hotkey_binding::option_view;

verus! {

/// `time::OffsetDateTime`, a point in time.
#[verifier::external_type_specification]
#[verifier::external_body]
pub struct ExOffsetDateTime(time::OffsetDateTime);

/// `time::error::ComponentRange`, the reason why there is no such point in time.
#[verifier::external_type_specification]
#[verifier::external_body]
pub struct ExComponentRange(time::error::ComponentRange);

/// The seconds since 1970 that `OffsetDateTime::from_unix_timestamp` made a
/// point in time of; `None` for one that has another offset than UTC, or a
/// fraction of a second.
pub uninterp spec fn utc_seconds(at: time::OffsetDateTime) -> Option<int>;

/// `OffsetDateTime::from_unix_timestamp` gives the point in time in UTC that is
/// so many seconds after 1970, or fails if that is outside the years from -9999
/// to 9999. These are the years that the `time` crate has without its feature
/// for large dates.
pub assume_specification[ time::OffsetDateTime::from_unix_timestamp ](timestamp: i64) -> (result:
    Result<time::OffsetDateTime, time::error::ComponentRange>)
    ensures
        result is Ok <==> has_date(timestamp as int),
        result matches Ok(at) ==> utc_seconds(at) == Some(timestamp as int),
;

/// `OffsetDateTime::format` of the `time` crate, with the form of a month as
/// `format_description::parse_borrowed` reads it. It does not fail. It writes
/// the year and the month of the point in time by the Gregorian calendar.
#[verifier::external_body]
fn format_utc(at: time::OffsetDateTime, form: &str) -> (text: Option<String>)
    requires
        utc_seconds(at) is Some,
        form@ == MONTH_FORM@,
    ensures
        option_view(text) == Some(utc_month(utc_seconds(at)->0)),
{
    let items = time::format_description::parse_borrowed::<2>(form).ok()?;
    at.format(&items).ok()
}

/// The number of seconds in a day.
pub const DAY_S: i64 = 86_400;

/// Whether a point in time, given in seconds since 1970 in UTC, lies between
/// the start of the year -9999 and the end of the year 9999.
pub open spec fn has_date(unix_seconds: int) -> bool {
    year_start(-9999) * DAY_S <= unix_seconds < year_start(10_000) * DAY_S
}

/// The month in UTC of a point in time, given in seconds since 1970, as in
/// `2026-05`.
pub open spec fn utc_month(unix_seconds: int) -> Seq<char> {
    let (year, month) = year_and_month(unix_seconds / (DAY_S as int));
    month_text(year, month)
}

/// The form of a month: the year and the month, as in `2026-05`.
pub const MONTH_FORM: &'static str = "[year]-[month]";

/// The month that is used where none can be written.
pub const FALLBACK_MONTH: &'static str = "1970-01";

/// A written month, or the one that is used in its place.
pub fn month_or_fallback(written: Option<String>) -> (month: String)
    ensures
        month@ == match written {
            Some(text) => text@,
            None => FALLBACK_MONTH@,
        },
{
    match written {
        Some(text) => text,
        None => FALLBACK_MONTH.to_owned(),
    }
}

/// The month in UTC of a point in time, given in seconds since 1970. Prices
/// are stored under it.
pub fn current_utc_yyyymm(unix_seconds: i64) -> (month: String)
    ensures
        month@ == if has_date(unix_seconds as int) {
            utc_month(unix_seconds as int)
        } else {
            FALLBACK_MONTH@
        },
{
    let written = match time::OffsetDateTime::from_unix_timestamp(unix_seconds) {
        Ok(at) => format_utc(at, MONTH_FORM),
        Err(_) => None,
    };
    month_or_fallback(written)
}

/// Whether a price is stored.
#[derive(Debug, Clone, Copy, PartialEq, Eq, Structural)]
pub enum PriceLookup {
    Found,
    Missing,
    /// It could not be looked up.
    Failed,
}

/// How many of the attempts stored a price. `None` stands for an entry that
/// was not attempted.
pub open spec fn seeded_count(attempts: Seq<Option<bool>>) -> nat
    decreases attempts.len(),
{
    if attempts.len() == 0 {
        0
    } else {
        let before = seeded_count(attempts.drop_last());
        if attempts.last() == Some(true) {
            before + 1
        } else {
            before
        }
    }
}

/// Whether the entries that were found are left alone and all others are
/// attempted.
pub open spec fn found_are_left(found: Seq<PriceLookup>, attempts: Seq<Option<bool>>) -> bool {
    &&& found.len() == attempts.len()
    &&& forall|i: int|
        0 <= i < found.len() ==> (#[trigger] attempts[i] is None <==> found[i]
            == PriceLookup::Found)
}

/// Whether `found` and `attempts` can be what `lookup` and `upsert` gave for
/// the entries, with the ones that were found left alone and all others
/// attempted.
pub open spec fn seeding<
    E,
    L: Fn(&E) -> PriceLookup,
    U: Fn(&E) -> bool,
>(
    entries: Seq<E>,
    lookup: L,
    upsert: U,
    found: Seq<PriceLookup>,
    attempts: Seq<Option<bool>>,
) -> bool {
    &&& found.len() == entries.len()
    &&& found_are_left(found, attempts)
    &&& forall|i: int|
        0 <= i < entries.len() ==> {
            &&& lookup.ensures((&entries[i],), #[trigger] found[i])
            &&& attempts[i] matches Some(stored) ==> upsert.ensures((&entries[i],), stored)
        }
}

/// Stores each entry for which no price is found, and tells how many were
/// stored. A price that is there is newer and stays; one that cannot be looked
/// up is attempted all the same.
pub fn seed_default_prices_if_empty<
    E,
    L: Fn(&E) -> PriceLookup,
    U: Fn(&E) -> bool,
>(entries: &Vec<E>, lookup: L, upsert: U) -> (seeded: usize)
    requires
        forall|i: int|
            #![trigger entries@[i]]
            0 <= i < entries@.len() ==> lookup.requires((&entries@[i],)),
        forall|i: int, there: PriceLookup|
            0 <= i < entries@.len() && there != PriceLookup::Found && #[trigger] lookup.ensures(
                (&entries@[i],),
                there,
            ) ==> upsert.requires((&entries@[i],)),
    ensures
        exists|found: Seq<PriceLookup>, attempts: Seq<Option<bool>>| #[trigger]
            seeding(entries@, lookup, upsert, found, attempts) && seeded == seeded_count(attempts),
{
    let mut seeded: usize = 0;
    let mut i: usize = 0;
    let ghost mut found: Seq<PriceLookup> = Seq::empty();
    let ghost mut attempts: Seq<Option<bool>> = Seq::empty();
    while i < entries.len()
        invariant
            0 <= i <= entries@.len(),
            seeded <= i,
            forall|i: int|
                #![trigger entries@[i]]
                0 <= i < entries@.len() ==> lookup.requires((&entries@[i],)),
            forall|i: int, there: PriceLookup|
                0 <= i < entries@.len() && there != PriceLookup::Found && #[trigger] lookup.ensures(
                    (&entries@[i],),
                    there,
                ) ==> upsert.requires((&entries@[i],)),
            seeding(entries@.take(i as int), lookup, upsert, found, attempts),
            seeded == seeded_count(attempts),
        decreases entries@.len() - i,
    {
        let entry = &entries[i];
        let there = lookup(entry);
        let ghost found_before = found;
        let ghost attempts_before = attempts;
        let ghost shorter = entries@.take(i as int);
        let ghost longer = entries@.take(i + 1);
        if there == PriceLookup::Found {
            proof {
                found = found_before.push(there);
                attempts = attempts_before.push(None);
            }
        } else {
            let stored = upsert(entry);
            proof {
                found = found_before.push(there);
                attempts = attempts_before.push(Some(stored));
            }
            if stored {
                seeded += 1;
            }
        }
        proof {
            assert(attempts.drop_last() =~= attempts_before);
            assert(found_are_left(found, attempts)) by {
                assert forall|k: int| 0 <= k < found.len() implies (#[trigger] attempts[k] is None
                    <==> found[k] == PriceLookup::Found) by {
                    if k < i {
                        assert(found[k] == found_before[k]);
                        assert(attempts[k] == attempts_before[k]);
                    }
                }
            }
            assert(seeding(longer, lookup, upsert, found, attempts)) by {
                assert forall|k: int| 0 <= k < longer.len() implies ({
                    &&& lookup.ensures((&longer[k],), #[trigger] found[k])
                    &&& attempts[k] matches Some(stored) ==> upsert.ensures((&longer[k],), stored)
                }) by {
                    if k < i {
                        assert(longer[k] == shorter[k]);
                        assert(found[k] == found_before[k]);
                        assert(attempts[k] == attempts_before[k]);
                    } else {
                        assert(longer[k] == *entry);
                    }
                }
            }
        }
        i += 1;
    }
    proof {
        assert(entries@.take(i as int) =~= entries@);
    }
    seeded
}

/// The prices that are stored after some attempts, each under the key of its
/// entry.
pub open spec fn table_after<K, P>(
    table: Map<K, P>,
    entries: Seq<(K, P)>,
    attempts: Seq<Option<bool>>,
) -> Map<K, P>
    decreases entries.len(),
{
    if entries.len() == 0 {
        table
    } else {
        let before = table_after(table, entries.drop_last(), attempts.drop_last());
        if attempts.last() == Some(true) {
            before.insert(entries.last().0, entries.last().1)
        } else {
            before
        }
    }
}

/// Whether every lookup tells what the table then holds, and every attempt
/// stores its price.
pub open spec fn nothing_fails<K, P>(
    table: Map<K, P>,
    entries: Seq<(K, P)>,
    found: Seq<PriceLookup>,
    attempts: Seq<Option<bool>>,
) -> bool {
    &&& found.len() == entries.len()
    &&& attempts.len() == entries.len()
    &&& forall|i: int|
        0 <= i < entries.len() ==> {
            &&& #[trigger] found[i] == if table_after(
                table,
                entries.take(i),
                attempts.take(i),
            ).contains_key(entries[i].0) {
                PriceLookup::Found
            } else {
                PriceLookup::Missing
            }
            &&& attempts[i] != Some(false)
        }
}

/// The table with the price of each entry whose key is not there; the first
/// one of a key counts.
pub open spec fn filled_in<K, P>(table: Map<K, P>, entries: Seq<(K, P)>) -> Map<K, P>
    decreases entries.len(),
{
    if entries.len() == 0 {
        table
    } else {
        let before = filled_in(table, entries.drop_last());
        if before.contains_key(entries.last().0) {
            before
        } else {
            before.insert(entries.last().0, entries.last().1)
        }
    }
}

proof fn filled_in_fills_in<K, P>(table: Map<K, P>, entries: Seq<(K, P)>)
    ensures
        table.submap_of(filled_in(table, entries)),
        forall|i: int|
            0 <= i < entries.len() ==> filled_in(table, entries).contains_key(
                (#[trigger] entries[i]).0,
            ),
        forall|key: K| #[trigger]
            filled_in(table, entries).contains_key(key) ==> table.contains_key(key) || exists|i: int|
                0 <= i < entries.len() && (#[trigger] entries[i]) == (
                    key,
                    filled_in(table, entries)[key],
                ),
    decreases entries.len(),
{
    if entries.len() > 0 {
        let front = entries.drop_last();
        filled_in_fills_in(table, front);
        let (before, after) = (filled_in(table, front), filled_in(table, entries));
        assert forall|i: int| 0 <= i < entries.len() implies after.contains_key(
            (#[trigger] entries[i]).0,
        ) by {
            if i < front.len() {
                assert(front[i] == entries[i]);
            }
        }
        assert forall|key: K| #[trigger] after.contains_key(key) && !table.contains_key(
            key,
        ) implies exists|i: int|
            0 <= i < entries.len() && (#[trigger] entries[i]) == (key, after[key]) by {
            if before.contains_key(key) {
                let i = choose|i: int|
                    0 <= i < front.len() && (#[trigger] front[i]) == (key, before[key]);
                assert(entries[i] == front[i]);
            } else {
                assert(entries[entries.len() - 1] == (key, after[key]));
            }
        }
    }
}

proof fn seeding_fills_in<K, P>(
    table: Map<K, P>,
    entries: Seq<(K, P)>,
    found: Seq<PriceLookup>,
    attempts: Seq<Option<bool>>,
)
    requires
        found_are_left(found, attempts),
        nothing_fails(table, entries, found, attempts),
    ensures
        table_after(table, entries, attempts) == filled_in(table, entries),
    decreases entries.len(),
{
    if entries.len() > 0 {
        let last = entries.len() - 1;
        let (front, found_front, attempts_front) = (
            entries.drop_last(),
            found.drop_last(),
            attempts.drop_last(),
        );
        assert forall|i: int| 0 <= i < front.len() implies ({
            &&& #[trigger] found_front[i] == if table_after(
                table,
                front.take(i),
                attempts_front.take(i),
            ).contains_key(front[i].0) {
                PriceLookup::Found
            } else {
                PriceLookup::Missing
            }
            &&& attempts_front[i] != Some(false)
        }) by {
            assert(found_front[i] == found[i]);
            assert(front.take(i) =~= entries.take(i));
            assert(attempts_front.take(i) =~= attempts.take(i));
        }
        seeding_fills_in(table, front, found_front, attempts_front);
        assert(entries.take(last) =~= front);
        assert(attempts.take(last) =~= attempts_front);
        assert(entries[last] == entries.last());
        assert(found[last] == PriceLookup::Found <==> filled_in(table, front).contains_key(
            entries.last().0,
        ));
        assert(attempts[last] is None <==> found[last] == PriceLookup::Found);
        assert(attempts.last() is None || attempts.last() == Some(true));
    }
}

/// Where nothing fails, seeding leaves the prices alone that are there, adds
/// one for the key of every entry that was missing, taken from an entry with
/// that key, and adds no other.
pub proof fn seeding_keeps_prices<K, P>(
    table: Map<K, P>,
    entries: Seq<(K, P)>,
    found: Seq<PriceLookup>,
    attempts: Seq<Option<bool>>,
)
    requires
        found_are_left(found, attempts),
        nothing_fails(table, entries, found, attempts),
    ensures
        ({
            let after = table_after(table, entries, attempts);
            &&& after == filled_in(table, entries)
            &&& table.submap_of(after)
            &&& forall|i: int|
                0 <= i < entries.len() ==> after.contains_key((#[trigger] entries[i]).0)
            &&& forall|key: K| #[trigger]
                after.contains_key(key) ==> table.contains_key(key) || exists|i: int|
                    0 <= i < entries.len() && (#[trigger] entries[i]) == (key, after[key])
        }),
{
    seeding_fills_in(table, entries, found, attempts);
    filled_in_fills_in(table, entries);
}

/// Seeding a second time stores nothing and changes nothing.
pub proof fn seeding_again_changes_nothing<K, P>(
    table: Map<K, P>,
    entries: Seq<(K, P)>,
    found: Seq<PriceLookup>,
    attempts: Seq<Option<bool>>,
    found_again: Seq<PriceLookup>,
    attempts_again: Seq<Option<bool>>,
)
    requires
        found_are_left(found, attempts),
        nothing_fails(table, entries, found, attempts),
        found_are_left(found_again, attempts_again),
        nothing_fails(
            table_after(table, entries, attempts),
            entries,
            found_again,
            attempts_again,
        ),
    ensures
        table_after(table_after(table, entries, attempts), entries, attempts_again)
            == table_after(table, entries, attempts),
        seeded_count(attempts_again) == 0,
{
    let after = table_after(table, entries, attempts);
    seeding_keeps_prices(table, entries, found, attempts);
    nothing_to_fill_in(after, entries, found_again, attempts_again);
}

proof fn nothing_to_fill_in<K, P>(
    table: Map<K, P>,
    entries: Seq<(K, P)>,
    found: Seq<PriceLookup>,
    attempts: Seq<Option<bool>>,
)
    requires
        found_are_left(found, attempts),
        nothing_fails(table, entries, found, attempts),
        forall|i: int| 0 <= i < entries.len() ==> table.contains_key((#[trigger] entries[i]).0),
    ensures
        table_after(table, entries, attempts) == table,
        seeded_count(attempts) == 0,
    decreases entries.len(),
{
    if entries.len() > 0 {
        let last = entries.len() - 1;
        let (front, found_front, attempts_front) = (
            entries.drop_last(),
            found.drop_last(),
            attempts.drop_last(),
        );
        assert forall|i: int| 0 <= i < front.len() implies ({
            &&& #[trigger] found_front[i] == if table_after(
                table,
                front.take(i),
                attempts_front.take(i),
            ).contains_key(front[i].0) {
                PriceLookup::Found
            } else {
                PriceLookup::Missing
            }
            &&& attempts_front[i] != Some(false)
        }) by {
            assert(found_front[i] == found[i]);
            assert(front.take(i) =~= entries.take(i));
            assert(attempts_front.take(i) =~= attempts.take(i));
        }
        assert forall|i: int| 0 <= i < front.len() implies table.contains_key(
            (#[trigger] front[i]).0,
        ) by {
            assert(front[i] == entries[i]);
        }
        nothing_to_fill_in(table, front, found_front, attempts_front);
        assert(entries.take(last) =~= front);
        assert(attempts.take(last) =~= attempts_front);
        assert(entries[last] == entries.last());
        assert(found[last] == PriceLookup::Found);
        assert(attempts[last] is None);
    }
}

/// The attempts that stored a price are counted one by one.
pub proof fn stored_prices_are_counted(a: Seq<Option<bool>>, b: Seq<Option<bool>>)
    ensures
        seeded_count(a + b) == seeded_count(a) + seeded_count(b),
        a.len() == 1 && a[0] == Some(true) ==> seeded_count(a) == 1,
        a.len() == 1 && a[0] != Some(true) ==> seeded_count(a) == 0,
        a.len() == 0 ==> seeded_count(a) == 0,
    decreases b.len(),
{
    reveal_with_fuel(seeded_count, 2);
    if b.len() == 0 {
        assert(a + b =~= a);
    } else {
        assert((a + b).drop_last() =~= a + b.drop_last());
        stored_prices_are_counted(a, b.drop_last());
    }
}

/// A point in time has the month of its day in UTC, from the first second of the
/// year -9999 to the last of 9999.
pub proof fn months_of_points_in_time(unix_seconds: int, year: int, month: int)
    ensures
        has_date(unix_seconds) <==> -377_705_116_800 <= unix_seconds <= 253_402_300_799,
        1 <= month <= 12 && month_start(year, month) * 86_400 <= unix_seconds < (month_start(
            year,
            month,
        ) + days_in_month(year, month)) * 86_400 ==> utc_month(unix_seconds) == month_text(
            year,
            month,
        ),
{
    let day = unix_seconds / 86_400;
    every_day_has_one_month(day, year, month);
}

/// Seeding looks every entry up, stores exactly those that are not found, and
/// tells how many could be stored. So where none is found and all can be stored,
/// all are; and where all are found, none is.
pub proof fn all_that_is_missing_is_seeded<
    E,
    L: Fn(&E) -> PriceLookup,
    U: Fn(&E) -> bool,
>(entries: Vec<E>, lookup: L, upsert: U, seeded: usize)
    requires
        seed_default_prices_if_empty::<E, L, U>.ensures((&entries, lookup, upsert), seeded),
    ensures
        exists|found: Seq<PriceLookup>, attempts: Seq<Option<bool>>|
            #![trigger found.len(), attempts.len()]
            {
                &&& found.len() == entries@.len()
                &&& attempts.len() == entries@.len()
                &&& forall|i: int|
                    0 <= i < entries@.len() ==> lookup.ensures((&entries@[i],), #[trigger] found[i])
                &&& forall|i: int|
                    0 <= i < entries@.len() ==> (#[trigger] attempts[i] is None <==> found[i]
                        == PriceLookup::Found)
                &&& forall|i: int|
                    0 <= i < entries@.len() && #[trigger] attempts[i] is Some ==> upsert.ensures(
                        (&entries@[i],),
                        attempts[i]->0,
                    )
                &&& seeded == seeded_count(attempts)
            },
        (forall|i: int|
            0 <= i < entries@.len() ==> !lookup.ensures(
                (&(#[trigger] entries@[i]),),
                PriceLookup::Found,
            ) && !upsert.ensures((&entries@[i],), false)) ==> seeded == entries@.len(),
        (forall|i: int, there: PriceLookup|
            0 <= i < entries@.len() && #[trigger] lookup.ensures((&entries@[i],), there) ==> there
                == PriceLookup::Found) ==> seeded == 0,
{
    let (found, attempts) = choose|found: Seq<PriceLookup>, attempts: Seq<Option<bool>>| #[trigger]
        seeding(entries@, lookup, upsert, found, attempts) && seeded == seeded_count(attempts);
    assert forall|i: int| 0 <= i < entries@.len() implies lookup.ensures(
        (&entries@[i],),
        #[trigger] found[i],
    ) by {}
    assert forall|i: int| 0 <= i < entries@.len() && #[trigger] attempts[i] is Some implies
        upsert.ensures((&entries@[i],), attempts[i]->0) by {
        assert(lookup.ensures((&entries@[i],), found[i]));
    }
    assert(found.len() == attempts.len());
    if forall|i: int|
        0 <= i < entries@.len() ==> !lookup.ensures(
            (&(#[trigger] entries@[i]),),
            PriceLookup::Found,
        ) && !upsert.ensures((&entries@[i],), false) {
        assert forall|i: int| 0 <= i < attempts.len() implies #[trigger] attempts[i]
            == Some(true) by {
            let entry = entries@[i];
            assert(lookup.ensures((&entry,), found[i]));
            if attempts[i] is Some {
                assert(upsert.ensures((&entry,), attempts[i]->0));
            }
        }
        all_stored_are_counted(attempts);
    }
    if forall|i: int, there: PriceLookup|
        0 <= i < entries@.len() && #[trigger] lookup.ensures((&entries@[i],), there) ==> there
            == PriceLookup::Found {
        assert forall|i: int| 0 <= i < attempts.len() implies #[trigger] attempts[i] is None by {
            assert(lookup.ensures((&entries@[i],), found[i]));
        }
        none_stored_none_counted(attempts);
    }
}

proof fn all_stored_are_counted(attempts: Seq<Option<bool>>)
    requires
        forall|i: int| 0 <= i < attempts.len() ==> #[trigger] attempts[i] == Some(true),
    ensures
        seeded_count(attempts) == attempts.len(),
    decreases attempts.len(),
{
    if attempts.len() > 0 {
        let front = attempts.drop_last();
        assert forall|i: int| 0 <= i < front.len() implies #[trigger] front[i] == Some(true) by {
            assert(front[i] == attempts[i]);
        }
        all_stored_are_counted(front);
        assert(attempts[attempts.len() - 1] == Some(true));
    }
}

proof fn none_stored_none_counted(attempts: Seq<Option<bool>>)
    requires
        forall|i: int| 0 <= i < attempts.len() ==> #[trigger] attempts[i] is None,
    ensures
        seeded_count(attempts) == 0,
    decreases attempts.len(),
{
    if attempts.len() > 0 {
        let front = attempts.drop_last();
        assert forall|i: int| 0 <= i < front.len() implies #[trigger] front[i] is None by {
            assert(front[i] == attempts[i]);
        }
        none_stored_none_counted(front);
        assert(attempts[attempts.len() - 1] is None);
    }
}

} // verus!
