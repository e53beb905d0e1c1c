//! The merge engine: today's processed releases written back into the
//! historical collection.
//!
//! Merging overwrites in place. It never inserts, removes or reorders a
//! historical entry, and it never touches what identifies one.

use crate::config::{clone_metallum, clone_spotify, Release, ReleaseView};
use vstd::prelude::*;

verus! {

/// `entry` with its enrichment (both metadata, the skip flag and the skip
/// reasons) replaced by that of `processed`.
pub open spec fn overwritten(entry: ReleaseView, processed: ReleaseView) -> ReleaseView {
    ReleaseView {
        spotify: processed.spotify,
        metallum: processed.metallum,
        skip: processed.skip,
        skip_reasons: processed.skip_reasons,
        ..entry
    }
}

/// Index of the last release of `today` that is the same release as `entry`.
pub open spec fn last_match(entry: ReleaseView, today: Seq<ReleaseView>) -> Option<int>
    decreases today.len(),
{
    if today.len() == 0 {
        None
    } else if today.last().same_release(&entry) {
        Some(today.len() - 1)
    } else {
        last_match(entry, today.drop_last())
    }
}

/// A historical entry after the merge: overwritten by the last of today's
/// releases that is the same release, untouched where there is none.
pub open spec fn merged_entry(entry: ReleaseView, today: Seq<ReleaseView>) -> ReleaseView {
    match last_match(entry, today) {
        Some(i) => overwritten(entry, today[i]),
        None => entry,
    }
}

/// The historical collection after the merge.
pub open spec fn merged(history: Seq<ReleaseView>, today: Seq<ReleaseView>) -> Seq<ReleaseView> {
    history.map_values(|entry: ReleaseView| merged_entry(entry, today))
}

/// What `last_match` returns is a position in `today` of the same release,
/// with none after it; it returns `None` only where `today` has no such
/// release.
pub proof fn lemma_last_match(entry: ReleaseView, today: Seq<ReleaseView>)
    ensures
        match last_match(entry, today) {
            Some(i) => {
                &&& 0 <= i < today.len()
                &&& today[i].same_release(&entry)
                &&& forall|j: int| i < j < today.len() ==> !today[j].same_release(&entry)
            },
            None => forall|j: int| 0 <= j < today.len() ==> !today[j].same_release(&entry),
        },
    decreases today.len(),
{
    if today.len() > 0 && !today.last().same_release(&entry) {
        let rest = today.drop_last();
        lemma_last_match(entry, rest);
        match last_match(entry, rest) {
            Some(i) => {
                assert(rest[i] == today[i]);
                assert forall|j: int| i < j < today.len() implies !today[j].same_release(
                    &entry,
                ) by {
                    if j < rest.len() {
                        assert(rest[j] == today[j]);
                    }
                }
            },
            None => {
                assert forall|j: int| 0 <= j < today.len() implies !today[j].same_release(
                    &entry,
                ) by {
                    if j < rest.len() {
                        assert(rest[j] == today[j]);
                    }
                }
            },
        }
    }
}

/// Which of today's releases matches depends on artist and album alone.
pub proof fn lemma_last_match_by_identity(a: ReleaseView, b: ReleaseView, today: Seq<ReleaseView>)
    requires
        a.same_release(&b),
    ensures
        last_match(a, today) == last_match(b, today),
    decreases today.len(),
{
    if today.len() > 0 {
        lemma_last_match_by_identity(a, b, today.drop_last());
    }
}

/// Merging the same releases a second time changes nothing.
pub proof fn lemma_merge_is_idempotent(history: Seq<ReleaseView>, today: Seq<ReleaseView>)
    ensures
        merged(merged(history, today), today) == merged(history, today),
{
    let once = merged(history, today);
    let twice = merged(once, today);
    assert forall|i: int| 0 <= i < history.len() implies twice[i] == once[i] by {
        lemma_last_match(history[i], today);
        lemma_last_match_by_identity(once[i], history[i], today);
    }
    assert(twice =~= once);
}

/// The merge keeps the collection's length and order and each entry's date,
/// artist, album and label; an entry that none of today's releases matches
/// is untouched.
pub proof fn lemma_merge_keeps_history(history: Seq<ReleaseView>, today: Seq<ReleaseView>)
    ensures
        merged(history, today).len() == history.len(),
        forall|i: int|
            0 <= i < history.len() ==> {
                let after = #[trigger] merged(history, today)[i];
                &&& after.date == history[i].date
                &&& after.artist == history[i].artist
                &&& after.album == history[i].album
                &&& after.label == history[i].label
                &&& (forall|j: int| 0 <= j < today.len() ==> !today[j].same_release(&history[i]))
                    ==> after == history[i]
            },
{
    assert forall|i: int| 0 <= i < history.len() implies {
        let after = #[trigger] merged(history, today)[i];
        &&& after.date == history[i].date
        &&& after.artist == history[i].artist
        &&& after.album == history[i].album
        &&& after.label == history[i].label
        &&& (forall|j: int| 0 <= j < today.len() ==> !today[j].same_release(&history[i]))
            ==> after == history[i]
    } by {
        lemma_last_match(history[i], today);
    }
}

/// Where every historical entry and every one of today's releases that is
/// skipped has a reason, so has every entry after the merge.
pub proof fn lemma_merge_keeps_consistency(history: Seq<ReleaseView>, today: Seq<ReleaseView>)
    requires
        forall|i: int| 0 <= i < history.len() ==> (#[trigger] history[i]).is_consistent(),
        forall|j: int| 0 <= j < today.len() ==> (#[trigger] today[j]).is_consistent(),
    ensures
        forall|i: int|
            0 <= i < history.len() ==> (#[trigger] merged(history, today)[i]).is_consistent(),
{
    assert forall|i: int| 0 <= i < history.len() implies (#[trigger] merged(
        history,
        today,
    )[i]).is_consistent() by {
        lemma_last_match(history[i], today);
    }
}

/// Whether two releases are the same release: same artist and same album,
/// character for character.
pub fn is_same_release(a: &Release, b: &Release) -> (r: bool)
    ensures
        r == a@.same_release(&b@),
{
    a.artist == b.artist && a.album == b.album
}

/// Replaces the enrichment of `entry` by that of `processed`.
pub fn overwrite_enrichment(entry: &mut Release, processed: &Release)
    ensures
        final(entry)@ == overwritten(old(entry)@, processed@),
{
    entry.spotify = clone_spotify(&processed.spotify);
    entry.metallum = clone_metallum(&processed.metallum);
    entry.skip = processed.skip;
    entry.skip_reasons = processed.skip_reasons.clone();
}

/// Writes today's processed releases back into the historical collection.
pub fn merge_releases(all_releases: &mut Vec<Release>, todays_releases: &Vec<Release>)
    ensures
        final(all_releases).len() == old(all_releases).len(),
        final(all_releases).deep_view() == merged(
            old(all_releases).deep_view(),
            todays_releases.deep_view(),
        ),
{
    let ghost history = all_releases.deep_view();
    let ghost today = todays_releases.deep_view();
    let mut t: usize = 0;
    while t < todays_releases.len()
        invariant
            t <= todays_releases.len(),
            all_releases.len() == history.len(),
            today == todays_releases.deep_view(),
            forall|j: int|
                0 <= j < history.len() ==> (#[trigger] all_releases[j])@ == merged_entry(
                    history[j],
                    today.take(t as int),
                ),
        decreases todays_releases.len() - t,
    {
        let processed = &todays_releases[t];
        let ghost seen = today.take(t as int);
        let ghost next = today.take(t + 1);
        assert(next.drop_last() == seen);
        assert(next.last() == processed@);
        let mut a: usize = 0;
        while a < all_releases.len()
            invariant
                a <= all_releases.len(),
                all_releases.len() == history.len(),
                next.len() > 0,
                next.drop_last() == seen,
                next.last() == processed@,
                forall|j: int|
                    0 <= j < a ==> (#[trigger] all_releases[j])@ == merged_entry(history[j], next),
                forall|j: int|
                    a <= j < history.len() ==> (#[trigger] all_releases[j])@ == merged_entry(
                        history[j],
                        seen,
                    ),
            decreases all_releases.len() - a,
        {
            proof {
                lemma_last_match(history[a as int], seen);
            }
            if is_same_release(processed, &all_releases[a]) {
                overwrite_enrichment(&mut all_releases[a], processed);
            }
            a += 1;
        }
        t += 1;
    }
    assert(today.take(t as int) == today);
    assert(all_releases.deep_view() =~= merged(history, today));
}

} // verus!
