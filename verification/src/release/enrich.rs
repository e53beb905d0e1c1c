//! The enrichment engine: what a release takes from the answers of the two
//! catalogs.
//!
//! Each pass leaves alone a release that is skipped or that carries the
//! metadata of that pass already, so a pass can be run again at no cost.
//! Whoever runs a pass asks the catalog only for the releases that need it.

use crate::config::{
    MetallumArtistInfo, MetallumArtistInfoView, Release, ReleaseView, SpotifyArtistInfo,
    SpotifyArtistInfoView,
};
use crate::date::Date;
use crate::release::filter::{archive_filtered, popularity_filtered, NO_ARCHIVE_DATA};
use crate::release::spotify::{disambiguated, filter_artists, Artist, ArtistView};
use vstd::prelude::*;

verus! {

/// The tags in the order of their first occurrence, each once.
pub open spec fn without_repeats(tags: Seq<Seq<char>>) -> Seq<Seq<char>>
    decreases tags.len(),
{
    if tags.len() == 0 {
        tags
    } else {
        let before = without_repeats(tags.drop_last());
        if before.contains(tags.last()) {
            before
        } else {
            before.push(tags.last())
        }
    }
}

/// The metadata that is kept of an artist of the popularity catalog.
pub open spec fn artist_info(artist: ArtistView) -> SpotifyArtistInfoView {
    SpotifyArtistInfoView {
        id: artist.id,
        url: artist.href,
        genres: without_repeats(artist.genres),
        popularity: artist.popularity,
        followers: artist.followers,
    }
}

/// The release is to be looked up in the popularity catalog.
pub open spec fn wants_popularity(r: ReleaseView) -> bool {
    !r.skip && r.spotify is None
}

/// The release is to be looked up in the archive.
pub open spec fn wants_archive(r: ReleaseView) -> bool {
    !r.skip && r.metallum is None
}

/// A release after the popularity pass, given what the catalog's search
/// for its artist returned: it takes the metadata of the first artist that
/// the search is reduced to. Where the search is reduced to nothing the
/// release stays without, and is not skipped for it.
pub open spec fn popularity_enriched(r: ReleaseView, artists: Seq<ArtistView>) -> ReleaseView {
    if wants_popularity(r) && disambiguated(artists, r.artist).len() > 0 {
        ReleaseView { spotify: Some(artist_info(disambiguated(artists, r.artist)[0])), ..r }
    } else {
        r
    }
}

/// A release after the archive pass, given what the search for a readable
/// page found: it takes the first metadata found. Where nothing was found
/// it is skipped, for want of archive data.
pub open spec fn archive_enriched(r: ReleaseView, found: Seq<MetallumArtistInfoView>) -> ReleaseView {
    if !wants_archive(r) {
        r
    } else if found.len() == 0 {
        r.skipped_for(NO_ARCHIVE_DATA@)
    } else {
        ReleaseView { metallum: Some(found[0]), ..r }
    }
}

/// A release after the whole processing of the day `today`: popularity
/// pass and its filter, then archive pass and its filter.
pub open spec fn processed(
    r: ReleaseView,
    today: Date,
    artists: Seq<ArtistView>,
    found: Seq<MetallumArtistInfoView>,
    blacklist: Seq<Seq<char>>,
    whitelist: Seq<Seq<char>>,
) -> ReleaseView {
    archive_filtered(
        archive_enriched(
            popularity_filtered(popularity_enriched(r, artists), today, blacklist, whitelist),
            found,
        ),
        today,
        blacklist,
        whitelist,
    )
}

/// The releases after the popularity pass, given for each release, by its
/// position, what the catalog's search for its artist returned. A release
/// for which nothing is given stays as it is.
pub open spec fn popularity_enriched_all(
    releases: Seq<ReleaseView>,
    found: Seq<Seq<ArtistView>>,
) -> Seq<ReleaseView> {
    Seq::new(
        releases.len(),
        |i: int|
            if i < found.len() {
                popularity_enriched(releases[i], found[i])
            } else {
                releases[i]
            },
    )
}

/// The releases after the archive pass, given for each release, by its
/// position, what the search for a readable page found. A release for
/// which nothing is given stays as it is.
pub open spec fn archive_enriched_all(
    releases: Seq<ReleaseView>,
    found: Seq<Seq<MetallumArtistInfoView>>,
) -> Seq<ReleaseView> {
    Seq::new(
        releases.len(),
        |i: int|
            if i < found.len() {
                archive_enriched(releases[i], found[i])
            } else {
                releases[i]
            },
    )
}

/// `without_repeats` holds no tag twice, and holds exactly the tags that
/// were given.
pub proof fn lemma_without_repeats(tags: Seq<Seq<char>>)
    ensures
        without_repeats(tags).no_duplicates(),
        forall|tag: Seq<char>| without_repeats(tags).contains(tag) <==> tags.contains(tag),
    decreases tags.len(),
{
    let result = without_repeats(tags);
    if tags.len() > 0 {
        let rest = tags.drop_last();
        let before = without_repeats(rest);
        lemma_without_repeats(rest);
        assert forall|tag: Seq<char>| result.contains(tag) <==> tags.contains(tag) by {
            if tags.contains(tag) {
                let k = choose|k: int| 0 <= k < tags.len() && tags[k] == tag;
                if k < rest.len() {
                    assert(rest[k] == tag);
                    assert(rest.contains(tag));
                    assert(before.contains(tag));
                    let m = choose|m: int| 0 <= m < before.len() && before[m] == tag;
                    assert(result[m] == tag);
                } else if before.contains(tag) {
                } else {
                    assert(result[before.len() as int] == tag);
                }
            }
            if result.contains(tag) {
                let m = choose|m: int| 0 <= m < result.len() && result[m] == tag;
                if m < before.len() {
                    assert(before[m] == tag);
                    assert(before.contains(tag));
                    assert(rest.contains(tag));
                    let k = choose|k: int| 0 <= k < rest.len() && rest[k] == tag;
                    assert(tags[k] == tag);
                } else {
                    assert(tags[tags.len() - 1] == tag);
                }
            }
        }
    }
}

/// Each pass can be run again. A second popularity pass with the same
/// answer of the catalog, and a second archive pass with any answer, leave
/// the release as the first pass left it.
pub proof fn lemma_enrichment_is_idempotent(
    r: ReleaseView,
    artists: Seq<ArtistView>,
    found: Seq<MetallumArtistInfoView>,
    found_again: Seq<MetallumArtistInfoView>,
)
    ensures
        popularity_enriched(popularity_enriched(r, artists), artists) == popularity_enriched(
            r,
            artists,
        ),
        archive_enriched(archive_enriched(r, found), found_again) == archive_enriched(r, found),
{
}

/// Enrichment never takes a skip back, keeps every earlier reason in place,
/// and leaves a release that was consistent consistent.
pub proof fn lemma_enrichment_is_monotonic(
    r: ReleaseView,
    artists: Seq<ArtistView>,
    found: Seq<MetallumArtistInfoView>,
)
    ensures
        popularity_enriched(r, artists).skip == r.skip,
        popularity_enriched(r, artists).skip_reasons == r.skip_reasons,
        r.skip ==> archive_enriched(r, found).skip,
        r.skip_reasons.is_prefix_of(archive_enriched(r, found).skip_reasons),
        r.is_consistent() ==> archive_enriched(r, found).is_consistent(),
{
}

/// A release of today that has gone through the whole processing is
/// skipped, with a reason, or carries the metadata of both catalogs.
pub proof fn lemma_processed_is_skipped_or_enriched(
    r: ReleaseView,
    today: Date,
    artists: Seq<ArtistView>,
    found: Seq<MetallumArtistInfoView>,
    blacklist: Seq<Seq<char>>,
    whitelist: Seq<Seq<char>>,
)
    requires
        r.date == today,
        r.is_consistent(),
    ensures
        ({
            let done = processed(r, today, artists, found, blacklist, whitelist);
            &&& done.is_consistent()
            &&& done.skip || (done.spotify is Some && done.metallum is Some)
            &&& r.skip ==> done.skip
            &&& r.skip_reasons.is_prefix_of(done.skip_reasons)
        }),
{
}

/// Whether a list of tags holds the tag.
pub fn holds_tag(tags: &Vec<String>, tag: &String) -> (r: bool)
    ensures
        r == tags.deep_view().contains(tag@),
{
    let mut i: usize = 0;
    while i < tags.len()
        invariant
            i <= tags.len(),
            forall|j: int| 0 <= j < i ==> tags.deep_view()[j] != tag@,
        decreases tags.len() - i,
    {
        assert(tags.deep_view()[i as int] == tags[i as int]@);
        if tags[i] == *tag {
            return true;
        }
        i += 1;
    }
    false
}

/// The tags in the order of their first occurrence, each once.
pub fn distinct_tags(tags: &Vec<String>) -> (r: Vec<String>)
    ensures
        r.deep_view() == without_repeats(tags.deep_view()),
{
    let mut r: Vec<String> = Vec::new();
    assert(tags.deep_view().take(0) =~= Seq::<Seq<char>>::empty());
    assert(r.deep_view() =~= Seq::<Seq<char>>::empty());
    let mut i: usize = 0;
    while i < tags.len()
        invariant
            i <= tags.len(),
            r.deep_view() == without_repeats(tags.deep_view().take(i as int)),
        decreases tags.len() - i,
    {
        proof {
            let next = tags.deep_view().take(i + 1);
            assert(next.drop_last() == tags.deep_view().take(i as int));
            assert(next.last() == tags[i as int]@);
        }
        if !holds_tag(&r, &tags[i]) {
            let ghost before = r.deep_view();
            r.push(tags[i].clone());
            assert(r.deep_view() =~= before.push(tags[i as int]@));
        }
        i += 1;
    }
    assert(tags.deep_view().take(tags.len() as int) == tags.deep_view());
    r
}

/// The metadata that is kept of an artist of the popularity catalog.
pub fn to_artist_info(artist: &Artist) -> (r: SpotifyArtistInfo)
    ensures
        r@ == artist_info(artist@),
{
    SpotifyArtistInfo {
        id: artist.id.clone(),
        url: artist.href.clone(),
        genres: distinct_tags(&artist.genres),
        popularity: artist.popularity as i64,
        followers: artist.followers as i64,
    }
}

/// Whether the release is to be looked up in the popularity catalog.
pub fn needs_popularity(release: &Release) -> (r: bool)
    ensures
        r == wants_popularity(release@),
{
    !release.skip && release.spotify.is_none()
}

/// Whether the release is to be looked up in the archive.
pub fn needs_archive(release: &Release) -> (r: bool)
    ensures
        r == wants_archive(release@),
{
    !release.skip && release.metallum.is_none()
}

/// The popularity pass on one release, given what the catalog's search for
/// its artist returned.
pub fn attach_popularity(release: &mut Release, artists: &Vec<Artist>)
    ensures
        final(release)@ == popularity_enriched(old(release)@, artists.deep_view()),
{
    if !needs_popularity(release) {
        return ;
    }
    let taken = filter_artists(release.artist.as_str(), artists);
    if taken.len() > 0 {
        assert(taken.deep_view()[0] == taken[0]@);
        release.spotify = Some(to_artist_info(&taken[0]));
    }
}

/// The archive pass on one release, given what the search for a readable
/// page found.
pub fn attach_archive(release: &mut Release, found: &Vec<MetallumArtistInfo>)
    ensures
        final(release)@ == archive_enriched(old(release)@, found.deep_view()),
        old(release)@.is_consistent() ==> final(release)@.is_consistent(),
{
    if !needs_archive(release) {
        return ;
    }
    if found.len() == 0 {
        release.mark_skipped(NO_ARCHIVE_DATA.to_owned());
    } else {
        assert(found.deep_view()[0] == found[0]@);
        release.metallum = Some(found[0].clone());
    }
}

/// The popularity pass over the releases of a run. `found` holds for each
/// release, by its position, what the catalog's search for its artist
/// returned; it may be empty for a release that needs no lookup.
pub fn enrich_with_spotify(releases: &mut Vec<Release>, found: &Vec<Vec<Artist>>)
    ensures
        final(releases).len() == old(releases).len(),
        final(releases).deep_view() == popularity_enriched_all(
            old(releases).deep_view(),
            found.deep_view(),
        ),
{
    let mut i: usize = 0;
    while i < releases.len() && i < found.len()
        invariant
            i <= releases.len(),
            i <= found.len(),
            releases.len() == old(releases).len(),
            forall|j: int|
                0 <= j < i ==> (#[trigger] releases[j])@ == popularity_enriched(
                    old(releases)[j]@,
                    found[j].deep_view(),
                ),
            forall|j: int| i <= j < releases.len() ==> releases[j] == old(releases)[j],
        decreases releases.len() - i,
    {
        attach_popularity(&mut releases[i], &found[i]);
        i += 1;
    }
    assert(releases.deep_view() =~= popularity_enriched_all(
        old(releases).deep_view(),
        found.deep_view(),
    ));
}

/// The archive pass over the releases of a run. `found` holds for each
/// release, by its position, what the search for a readable page found; it
/// may be empty for a release that needs no lookup.
pub fn enrich_with_metallum(releases: &mut Vec<Release>, found: &Vec<Vec<MetallumArtistInfo>>)
    ensures
        final(releases).len() == old(releases).len(),
        final(releases).deep_view() == archive_enriched_all(
            old(releases).deep_view(),
            found.deep_view(),
        ),
{
    let mut i: usize = 0;
    while i < releases.len() && i < found.len()
        invariant
            i <= releases.len(),
            i <= found.len(),
            releases.len() == old(releases).len(),
            forall|j: int|
                0 <= j < i ==> (#[trigger] releases[j])@ == archive_enriched(
                    old(releases)[j]@,
                    found[j].deep_view(),
                ),
            forall|j: int| i <= j < releases.len() ==> releases[j] == old(releases)[j],
        decreases releases.len() - i,
    {
        attach_archive(&mut releases[i], &found[i]);
        i += 1;
    }
    assert(releases.deep_view() =~= archive_enriched_all(
        old(releases).deep_view(),
        found.deep_view(),
    ));
}

} // verus!
