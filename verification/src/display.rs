//! What is shown of a day's releases: one table for each release that is
//! not skipped, the most followed artist first.

use crate::config::{Release, ReleaseView};
use crate::order::{arranged, key_values, positions, stable_order, stable_order_by};
use crate::text::{append, decimal, join, joined, signed_decimal, write_decimal, write_signed_decimal};
use vstd::prelude::*;

verus! {

/// Followers above which a release is marked as hot.
pub const HOT_FOLLOWERS: i64 = 100_000;

/// What stands before the heading of a hot release.
pub const HOT_PREFIX: &'static str = "\u{1f525} ";

/// What stands behind the heading of a hot release.
pub const HOT_SUFFIX: &'static str = " \u{1f525}";

/// What separates the genre tags in a table.
pub const GENRE_SEPARATOR: &'static str = ", ";

/// One table: its title and its rows, each a name and a value.
#[derive(Debug, PartialEq, Eq)]
pub struct Table {
    pub title: String,
    pub rows: Vec<(String, String)>,
}

/// The mathematical value of a `Table`.
pub struct TableView {
    pub title: Seq<char>,
    pub rows: Seq<(Seq<char>, Seq<char>)>,
}

impl View for Table {
    type V = TableView;

    open spec fn view(&self) -> TableView {
        TableView { title: self.title@, rows: self.rows.deep_view() }
    }
}

impl DeepView for Table {
    type V = TableView;

    open spec fn deep_view(&self) -> TableView {
        self@
    }
}

/// Every release that is shown carries the metadata of both catalogs.
pub open spec fn all_shown_are_enriched(releases: Seq<ReleaseView>) -> bool {
    forall|i: int|
        0 <= i < releases.len() && (#[trigger] releases[i]).is_shown() ==> releases[i].is_enriched()
}

/// The releases that are shown, in their order.
pub open spec fn shown(releases: Seq<ReleaseView>) -> Seq<ReleaseView> {
    releases.filter(|r: ReleaseView| r.is_shown())
}

/// The followers of the release's artist; none without popularity metadata.
pub open spec fn followers_of(r: ReleaseView) -> int {
    match r.spotify {
        Some(info) => info.followers,
        None => 0,
    }
}

/// The keys by which releases are put in the order of their followers:
/// more followers first.
pub open spec fn follower_keys(releases: Seq<ReleaseView>) -> Seq<int> {
    releases.map_values(|r: ReleaseView| -followers_of(r))
}

/// The releases that are shown, by falling follower count; releases with
/// the same count keep their order.
pub open spec fn interesting(releases: Seq<ReleaseView>) -> Seq<ReleaseView> {
    arranged(shown(releases), stable_order(follower_keys(shown(releases))))
}

/// The heading of the release shown in place `place`.
pub open spec fn heading(place: nat, r: ReleaseView) -> Seq<char> {
    decimal(place) + ". "@ + r.artist + " - "@ + r.album
}

/// The title of a release's table: its heading, between flames where the
/// artist has more than `HOT_FOLLOWERS` followers.
pub open spec fn title(place: nat, r: ReleaseView) -> Seq<char> {
    if followers_of(r) > HOT_FOLLOWERS {
        HOT_PREFIX@ + heading(place, r) + HOT_SUFFIX@
    } else {
        heading(place, r)
    }
}

/// The table of an enriched release shown in place `place`.
pub open spec fn table_of(place: nat, r: ReleaseView) -> TableView {
    let spotify = r.spotify->0;
    let metallum = r.metallum->0;
    TableView {
        title: title(place, r),
        rows: seq![
            ("Metallum URL"@, metallum.url),
            ("Metallum Genre"@, metallum.genre),
            ("Metallum Origin Country"@, metallum.country_origin),
            ("Spotify Genres"@, joined(spotify.genres, GENRE_SEPARATOR@)),
            ("Spotify ID"@, spotify.id),
            ("Spotify Popularity"@, signed_decimal(spotify.popularity)),
            ("Spotify Followers"@, signed_decimal(spotify.followers)),
        ],
    }
}

/// The tables of a day's releases: one for each release that is shown, the
/// most followed first, numbered from 1.
pub open spec fn tables(releases: Seq<ReleaseView>) -> Seq<TableView> {
    Seq::new(
        interesting(releases).len(),
        |i: int| table_of((i + 1) as nat, interesting(releases)[i]),
    )
}

/// The releases shown among a list that ends in `last` are those of the
/// list before, and then `last` where it is shown.
pub proof fn lemma_shown_push(releases: Seq<ReleaseView>, last: ReleaseView)
    ensures
        shown(releases.push(last)) == if last.is_shown() {
            shown(releases).push(last)
        } else {
            shown(releases)
        },
{
    reveal(Seq::filter);
    assert(releases.push(last).drop_last() == releases);
}

/// Whether every release that is shown carries the metadata of both
/// catalogs.
pub fn can_display(releases: &Vec<Release>) -> (r: bool)
    ensures
        r == all_shown_are_enriched(releases.deep_view()),
{
    let mut i: usize = 0;
    while i < releases.len()
        invariant
            i <= releases.len(),
            forall|j: int|
                0 <= j < i && (#[trigger] releases.deep_view()[j]).is_shown()
                    ==> releases.deep_view()[j].is_enriched(),
        decreases releases.len() - i,
    {
        assert(releases.deep_view()[i as int] == releases[i as int]@);
        if !releases[i].skip && !releases[i].is_enriched() {
            return false;
        }
        i += 1;
    }
    true
}

/// Copies of the releases that are shown, by falling follower count.
pub fn interesting_releases(releases: &Vec<Release>) -> (r: Vec<Release>)
    ensures
        r.deep_view() == interesting(releases.deep_view()),
        all_shown_are_enriched(releases.deep_view()) ==> forall|i: int|
            0 <= i < r.len() ==> (#[trigger] r[i])@.is_enriched(),
{
    let ghost enriched = all_shown_are_enriched(releases.deep_view());
    let mut kept: Vec<Release> = Vec::new();
    let mut keys: Vec<i128> = Vec::new();
    let mut i: usize = 0;
    proof {
        reveal(Seq::filter);
        assert(releases.deep_view().take(0) =~= Seq::<ReleaseView>::empty());
        assert(kept.deep_view() =~= Seq::<ReleaseView>::empty());
    }
    while i < releases.len()
        invariant
            i <= releases.len(),
            enriched == all_shown_are_enriched(releases.deep_view()),
            kept.deep_view() == shown(releases.deep_view().take(i as int)),
            keys.len() == kept.len(),
            enriched ==> forall|j: int|
                0 <= j < kept.len() ==> (#[trigger] kept[j])@.is_enriched(),
            forall|j: int| 0 <= j < kept.len() ==> #[trigger] keys[j] == -followers_of(kept[j]@),
        decreases releases.len() - i,
    {
        proof {
            assert(releases.deep_view().take(i + 1) == releases.deep_view().take(i as int).push(
                releases[i as int]@,
            ));
            lemma_shown_push(releases.deep_view().take(i as int), releases[i as int]@);
            assert(releases.deep_view()[i as int] == releases[i as int]@);
        }
        if !releases[i].skip {
            let ghost before = kept.deep_view();
            let followers: i64 = match &releases[i].spotify {
                Some(info) => info.followers,
                None => 0,
            };
            kept.push(releases[i].clone());
            keys.push(-(followers as i128));
            assert(kept.deep_view() =~= before.push(releases[i as int]@));
        }
        i += 1;
    }
    assert(releases.deep_view().take(releases.len() as int) == releases.deep_view());
    assert(key_values(keys@) =~= follower_keys(kept.deep_view()));
    let order = stable_order_by(&keys);
    let mut r: Vec<Release> = Vec::new();
    let mut n: usize = 0;
    while n < order.len()
        invariant
            n <= order.len(),
            order.len() == kept.len(),
            r.len() == n,
            enriched ==> forall|j: int|
                0 <= j < kept.len() ==> (#[trigger] kept[j])@.is_enriched(),
            forall|j: int| 0 <= j < order.len() ==> #[trigger] order[j] < kept.len(),
            forall|j: int| 0 <= j < n ==> (#[trigger] r[j])@ == kept[order[j] as int]@,
        decreases order.len() - n,
    {
        r.push(kept[order[n]].clone());
        n += 1;
    }
    assert(r.deep_view() =~= arranged(kept.deep_view(), positions(order@)));
    r
}

/// Writes the title of the table of the release shown in place `place`.
pub fn write_title(place: usize, release: &Release) -> (r: String)
    ensures
        r@ == title(place as nat, release@),
{
    let number = write_decimal(place as u64);
    let a = append(number.as_str(), ". ");
    let b = append(a.as_str(), release.artist.as_str());
    let c = append(b.as_str(), " - ");
    let heading = append(c.as_str(), release.album.as_str());
    let followers: i64 = match &release.spotify {
        Some(info) => info.followers,
        None => 0,
    };
    if followers > HOT_FOLLOWERS {
        let d = append(HOT_PREFIX, heading.as_str());
        append(d.as_str(), HOT_SUFFIX)
    } else {
        heading
    }
}

/// Makes the table of the release shown in place `place`; none for a
/// release that lacks the metadata of a catalog.
pub fn make_table(place: usize, release: &Release) -> (r: Option<Table>)
    ensures
        r.deep_view() == if release@.is_enriched() {
            Some(table_of(place as nat, release@))
        } else {
            None
        },
{
    let spotify = match &release.spotify {
        Some(info) => info,
        None => {
            return None;
        },
    };
    let metallum = match &release.metallum {
        Some(info) => info,
        None => {
            return None;
        },
    };
    let mut rows: Vec<(String, String)> = Vec::new();
    rows.push(("Metallum URL".to_owned(), metallum.url.clone()));
    rows.push(("Metallum Genre".to_owned(), metallum.genre.clone()));
    rows.push(("Metallum Origin Country".to_owned(), metallum.country_origin.clone()));
    rows.push(("Spotify Genres".to_owned(), join(&spotify.genres, GENRE_SEPARATOR)));
    rows.push(("Spotify ID".to_owned(), spotify.id.clone()));
    rows.push(("Spotify Popularity".to_owned(), write_signed_decimal(spotify.popularity)));
    rows.push(("Spotify Followers".to_owned(), write_signed_decimal(spotify.followers)));
    let r = Table { title: write_title(place, release), rows };
    assert(r@.rows =~= table_of(place as nat, release@).rows);
    Some(r)
}

/// Makes the tables of a day's releases: one for each release that is
/// shown, the most followed first, numbered from 1. Gives none at all where
/// a release that is shown lacks the metadata of a catalog.
pub fn display(releases_today: &Vec<Release>) -> (r: Option<Vec<Table>>)
    ensures
        r.deep_view() == if all_shown_are_enriched(releases_today.deep_view()) {
            Some(tables(releases_today.deep_view()))
        } else {
            None
        },
{
    if !can_display(releases_today) {
        return None;
    }
    let sorted = interesting_releases(releases_today);
    let mut r: Vec<Table> = Vec::new();
    let mut i: usize = 0;
    while i < sorted.len()
        invariant
            i <= sorted.len(),
            r.len() == i,
            forall|j: int| 0 <= j < sorted.len() ==> (#[trigger] sorted[j])@.is_enriched(),
            forall|j: int| 0 <= j < i ==> (#[trigger] r[j])@ == table_of((j + 1) as nat, sorted[j]@),
        decreases sorted.len() - i,
    {
        match make_table(i + 1, &sorted[i]) {
            Some(table) => {
                r.push(table);
            },
            None => {
                return None;
            },
        }
        i += 1;
    }
    assert(r.deep_view() =~= tables(releases_today.deep_view()));
    Some(r)
}

} // verus!
