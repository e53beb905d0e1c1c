//! The pipeline of a run: extraction, enrichment, filtering, merging.

pub mod calendar;
pub mod enrich;
pub mod filter;
pub mod merge;
pub mod metallum;
pub mod spotify;

use crate::config::{Config, Release, ReleaseView};
use crate::date::{whole_hours, Date, Timestamp};
use vstd::prelude::*;

verus! {

/// Hours after which the calendar is read again.
pub const MAX_AGE_HOURS: i128 = 24;

/// At the instant `now`, more than `MAX_AGE_HOURS` whole hours have gone by
/// since the last update.
pub open spec fn is_out_of_date(last_update: Timestamp, now: Timestamp) -> bool {
    whole_hours(now.total_nanos() - last_update.total_nanos()) > MAX_AGE_HOURS
}

/// The releases that are dated `today`, in their order.
pub open spec fn released_on(releases: Seq<ReleaseView>, today: Date) -> Seq<ReleaseView> {
    releases.filter(|r: ReleaseView| r.date == today)
}

/// The releases dated `today` of a list that ends in `last` are those of
/// the list before, and then `last` where it is dated `today`.
pub proof fn lemma_released_on_push(releases: Seq<ReleaseView>, last: ReleaseView, today: Date)
    ensures
        released_on(releases.push(last), today) == if last.date == today {
            released_on(releases, today).push(last)
        } else {
            released_on(releases, today)
        },
{
    reveal(Seq::filter);
    assert(releases.push(last).drop_last() == releases);
}

/// Whether the calendar has to be read again at the instant `now`.
pub fn out_of_date_at(config: &Config, now: Timestamp) -> (r: bool)
    ensures
        r == is_out_of_date(config.last_update, now),
{
    now.hours_since(&config.last_update) > MAX_AGE_HOURS
}

/// Whether the calendar has to be read again, by the machine's clock.
pub fn out_of_date(config: &Config) -> (r: bool)
    ensures
        exists|now: Timestamp| r == #[trigger] is_out_of_date(config.last_update, now),
{
    let now = Timestamp::now();
    let r = out_of_date_at(config, now);
    assert(r == is_out_of_date(config.last_update, now));
    r
}

/// Copies of the releases that are dated `today`, in their order.
pub fn releases_on(releases: &Vec<Release>, today: Date) -> (r: Vec<Release>)
    ensures
        r.deep_view() == released_on(releases.deep_view(), today),
{
    let mut r: Vec<Release> = Vec::new();
    let mut i: usize = 0;
    proof {
        reveal(Seq::filter);
        assert(releases.deep_view().take(0) =~= Seq::<ReleaseView>::empty());
        assert(r.deep_view() =~= Seq::<ReleaseView>::empty());
    }
    while i < releases.len()
        invariant
            i <= releases.len(),
            r.deep_view() == released_on(releases.deep_view().take(i as int), today),
        decreases releases.len() - i,
    {
        proof {
            assert(releases.deep_view().take(i + 1) == releases.deep_view().take(i as int).push(
                releases[i as int]@,
            ));
            lemma_released_on_push(releases.deep_view().take(i as int), releases[i as int]@, today);
        }
        if releases[i].date == today {
            let ghost before = r.deep_view();
            r.push(releases[i].clone());
            assert(r.deep_view() =~= before.push(releases[i as int]@));
        }
        i += 1;
    }
    assert(releases.deep_view().take(releases.len() as int) == releases.deep_view());
    r
}

/// Copies of the releases that are dated today, by the machine's clock.
pub fn get_releases_today(releases: &Vec<Release>) -> (r: Vec<Release>)
    ensures
        exists|today: Date| r.deep_view() == #[trigger] released_on(releases.deep_view(), today),
{
    let today = Date::today();
    let r = releases_on(releases, today);
    assert(r.deep_view() == released_on(releases.deep_view(), today));
    r
}

} // verus!
