//! The popularity catalog: which of the artists that a search returned are
//! taken for the artist that was asked for.

use crate::order::{arranged, key_values, lemma_stable_order, positions, stable_order, stable_order_by};
use crate::text::{
    contains_ignoring_case, equal_ignoring_case, str_contains_ignoring_case, str_eq_ignoring_case,
};
use vstd::prelude::*;

verus! {

/// Lowest popularity score of an artist that is accepted on its metrics.
pub const MIN_POPULARITY: u32 = 10;

/// Fewest followers of an artist that is accepted on its metrics.
pub const MIN_CANDIDATE_FOLLOWERS: u32 = 1000;

/// What a genre tag must contain for the artist to be accepted on its
/// metrics.
pub const GENRE_KEYWORD: &'static str = "metal";

/// Most artists that a search is reduced to.
pub const MAX_MATCHES: usize = 3;

/// An artist as the popularity catalog's search returns it.
#[derive(Debug, PartialEq, Eq)]
pub struct Artist {
    pub id: String,
    pub name: String,
    pub href: String,
    pub genres: Vec<String>,
    pub popularity: u32,
    pub followers: u32,
}

/// The mathematical value of an `Artist`.
pub struct ArtistView {
    pub id: Seq<char>,
    pub name: Seq<char>,
    pub href: Seq<char>,
    pub genres: Seq<Seq<char>>,
    pub popularity: int,
    pub followers: int,
}

impl View for Artist {
    type V = ArtistView;

    open spec fn view(&self) -> ArtistView {
        ArtistView {
            id: self.id@,
            name: self.name@,
            href: self.href@,
            genres: self.genres.deep_view(),
            popularity: self.popularity as int,
            followers: self.followers as int,
        }
    }
}

impl DeepView for Artist {
    type V = ArtistView;

    open spec fn deep_view(&self) -> ArtistView {
        self@
    }
}

impl Clone for Artist {
    fn clone(&self) -> (r: Self)
        ensures
            r@ == self@,
    {
        Artist {
            id: self.id.clone(),
            name: self.name.clone(),
            href: self.href.clone(),
            genres: self.genres.clone(),
            popularity: self.popularity,
            followers: self.followers,
        }
    }
}

/// One of the genre tags contains `keyword`, letter case ignored.
pub open spec fn has_genre(genres: Seq<Seq<char>>, keyword: Seq<char>) -> bool {
    exists|i: int| 0 <= i < genres.len() && contains_ignoring_case(#[trigger] genres[i], keyword)
}

/// The artist bears the name that was asked for, letter case ignored.
pub open spec fn is_name_match(artist: ArtistView, artist_name: Seq<char>) -> bool {
    equal_ignoring_case(artist.name, artist_name)
}

/// The artist is accepted on its metrics: popular enough, followed by
/// enough, and with a genre tag that contains `GENRE_KEYWORD`.
pub open spec fn has_metrics(artist: ArtistView) -> bool {
    &&& artist.popularity >= MIN_POPULARITY
    &&& artist.followers >= MIN_CANDIDATE_FOLLOWERS
    &&& artist.genres.len() > 0
    &&& has_genre(artist.genres, GENRE_KEYWORD@)
}

/// The artist is accepted: by its name, whatever its metrics, or else by
/// its metrics.
pub open spec fn is_acceptable(artist: ArtistView, artist_name: Seq<char>) -> bool {
    is_name_match(artist, artist_name) || has_metrics(artist)
}

/// The keys by which artists are ranked: more followers first.
pub open spec fn follower_keys(artists: Seq<ArtistView>) -> Seq<int> {
    artists.map_values(|a: ArtistView| -a.followers)
}

/// The artists by falling follower count; artists with the same count keep
/// the order in which the search returned them.
pub open spec fn ranked(artists: Seq<ArtistView>) -> Seq<ArtistView> {
    arranged(artists, stable_order(follower_keys(artists)))
}

/// The accepted artists among `artists`, in their order.
pub open spec fn accepted(artists: Seq<ArtistView>, artist_name: Seq<char>) -> Seq<ArtistView> {
    artists.filter(|a: ArtistView| is_acceptable(a, artist_name))
}

/// The first `MAX_MATCHES` of a sequence, or all of it where it is shorter.
pub open spec fn capped<T>(s: Seq<T>) -> Seq<T> {
    if s.len() > MAX_MATCHES {
        s.take(MAX_MATCHES as int)
    } else {
        s
    }
}

/// What a search result is reduced to: the accepted artists by falling
/// follower count, `MAX_MATCHES` of them at most.
pub open spec fn disambiguated(artists: Seq<ArtistView>, artist_name: Seq<char>) -> Seq<
    ArtistView,
> {
    capped(accepted(ranked(artists), artist_name))
}

/// Accepting from a sequence that ends in `last` accepts from what comes
/// before and then `last`, where it is acceptable.
pub proof fn lemma_accepted_push(artists: Seq<ArtistView>, last: ArtistView, artist_name: Seq<char>)
    ensures
        accepted(artists.push(last), artist_name) == if is_acceptable(last, artist_name) {
            accepted(artists, artist_name).push(last)
        } else {
            accepted(artists, artist_name)
        },
{
    reveal(Seq::filter);
    assert(artists.push(last).drop_last() == artists);
}

/// The accepted artists of a beginning of a sequence are a beginning of its
/// accepted artists.
pub proof fn lemma_accepted_prefix(artists: Seq<ArtistView>, artist_name: Seq<char>, n: int)
    requires
        0 <= n <= artists.len(),
    ensures
        accepted(artists.take(n), artist_name).is_prefix_of(accepted(artists, artist_name)),
    decreases artists.len() - n,
{
    if n < artists.len() {
        lemma_accepted_prefix(artists, artist_name, n + 1);
        assert(artists.take(n + 1) == artists.take(n).push(artists[n]));
        lemma_accepted_push(artists.take(n), artists[n], artist_name);
    } else {
        assert(artists.take(n) == artists);
    }
}

/// An artist that bears the name asked for is among the result whenever
/// fewer than `MAX_MATCHES` accepted artists rank before it, whatever its
/// own popularity, followers and genres.
pub proof fn lemma_name_match_is_kept(artists: Seq<ArtistView>, artist_name: Seq<char>, i: int)
    requires
        0 <= i < ranked(artists).len(),
        is_name_match(ranked(artists)[i], artist_name),
        accepted(ranked(artists).take(i), artist_name).len() < MAX_MATCHES,
    ensures
        disambiguated(artists, artist_name).contains(ranked(artists)[i]),
{
    let all = ranked(artists);
    let before = accepted(all.take(i), artist_name);
    assert(all.take(i + 1) == all.take(i).push(all[i]));
    lemma_accepted_push(all.take(i), all[i], artist_name);
    lemma_accepted_prefix(all, artist_name, i + 1);
    let upto = accepted(all.take(i + 1), artist_name);
    assert(upto == before.push(all[i]));
    let whole = accepted(all, artist_name);
    assert(whole[before.len() as int] == upto[before.len() as int]);
    assert(disambiguated(artists, artist_name)[before.len() as int] == all[i]);
}

/// Where no more than `MAX_MATCHES` artists are accepted in all, every
/// artist of the search result that bears the name asked for is among the
/// result.
pub proof fn lemma_name_match_is_kept_under_cap(
    artists: Seq<ArtistView>,
    artist_name: Seq<char>,
    k: int,
)
    requires
        0 <= k < artists.len(),
        is_name_match(artists[k], artist_name),
        accepted(ranked(artists), artist_name).len() <= MAX_MATCHES,
    ensures
        disambiguated(artists, artist_name).contains(artists[k]),
{
    let keys = follower_keys(artists);
    lemma_stable_order(keys);
    let order = stable_order(keys);
    assert(order.contains(k));
    let i = choose|i: int| 0 <= i < order.len() && order[i] == k;
    let all = ranked(artists);
    assert(all[i] == artists[k]);
    assert(all.take(i + 1) == all.take(i).push(all[i]));
    lemma_accepted_push(all.take(i), all[i], artist_name);
    lemma_accepted_prefix(all, artist_name, i + 1);
    lemma_name_match_is_kept(artists, artist_name, i);
}

/// The result never holds more than `MAX_MATCHES` artists, and every one of
/// them is an accepted artist of the search result.
pub proof fn lemma_disambiguated_is_capped(artists: Seq<ArtistView>, artist_name: Seq<char>)
    ensures
        disambiguated(artists, artist_name).len() <= MAX_MATCHES,
        forall|i: int|
            0 <= i < disambiguated(artists, artist_name).len() ==> is_acceptable(
                #[trigger] disambiguated(artists, artist_name)[i],
                artist_name,
            ) && artists.contains(disambiguated(artists, artist_name)[i]),
{
    let all = ranked(artists);
    let keep = |a: ArtistView| is_acceptable(a, artist_name);
    let whole = accepted(all, artist_name);
    let result = disambiguated(artists, artist_name);
    lemma_stable_order(follower_keys(artists));
    assert forall|i: int| 0 <= i < result.len() implies is_acceptable(
        #[trigger] result[i],
        artist_name,
    ) && artists.contains(result[i]) by {
        assert(result[i] == whole[i]);
        all.lemma_filter_pred(keep, i);
        assert(whole.contains(whole[i]));
        all.lemma_filter_contains_rev(keep, whole[i]);
        let m = choose|m: int| 0 <= m < all.len() && all[m] == whole[i];
        assert(artists[stable_order(follower_keys(artists))[m]] == all[m]);
    }
}

/// Whether one of the genre tags contains `keyword`, letter case ignored.
pub fn any_genre_contains(genres: &Vec<String>, keyword: &str) -> (r: bool)
    ensures
        r == has_genre(genres.deep_view(), keyword@),
{
    let mut i: usize = 0;
    while i < genres.len()
        invariant
            i <= genres.len(),
            forall|j: int|
                0 <= j < i ==> !contains_ignoring_case(
                    #[trigger] genres.deep_view()[j],
                    keyword@,
                ),
        decreases genres.len() - i,
    {
        assert(genres.deep_view()[i as int] == genres[i as int]@);
        if str_contains_ignoring_case(genres[i].as_str(), keyword) {
            return true;
        }
        i += 1;
    }
    false
}

/// Whether the artist is accepted for the name that was asked for.
pub fn is_acceptable_artist(artist: &Artist, artist_name: &str) -> (r: bool)
    ensures
        r == is_acceptable(artist@, artist_name@),
{
    if str_eq_ignoring_case(artist.name.as_str(), artist_name) {
        return true;
    }
    artist.popularity >= MIN_POPULARITY && artist.followers >= MIN_CANDIDATE_FOLLOWERS
        && artist.genres.len() > 0 && any_genre_contains(&artist.genres, GENRE_KEYWORD)
}

/// Ranks the artists by falling follower count, artists with the same
/// count in the order given.
pub fn rank_artists(artists: &Vec<Artist>) -> (r: Vec<Artist>)
    ensures
        r.deep_view() == ranked(artists.deep_view()),
{
    let mut keys: Vec<i128> = Vec::new();
    let mut i: usize = 0;
    while i < artists.len()
        invariant
            i <= artists.len(),
            keys.len() == i,
            forall|j: int| 0 <= j < i ==> #[trigger] keys[j] == -artists[j].followers,
        decreases artists.len() - i,
    {
        keys.push(-(artists[i].followers as i128));
        i += 1;
    }
    assert(key_values(keys@) =~= follower_keys(artists.deep_view()));
    let order = stable_order_by(&keys);
    let mut r: Vec<Artist> = Vec::new();
    let mut n: usize = 0;
    while n < order.len()
        invariant
            n <= order.len(),
            order.len() == artists.len(),
            r.len() == n,
            forall|j: int| 0 <= j < order.len() ==> #[trigger] order[j] < artists.len(),
            forall|j: int| 0 <= j < n ==> (#[trigger] r[j])@ == artists[order[j] as int]@,
        decreases order.len() - n,
    {
        r.push(artists[order[n]].clone());
        n += 1;
    }
    assert(r.deep_view() =~= arranged(artists.deep_view(), positions(order@)));
    r
}

/// Reduces the artists that a search returned to those taken for the
/// artist asked for: the accepted ones by falling follower count,
/// `MAX_MATCHES` at most.
pub fn filter_artists(artist_name: &str, artists: &Vec<Artist>) -> (r: Vec<Artist>)
    ensures
        r.deep_view() == disambiguated(artists.deep_view(), artist_name@),
        r.len() <= MAX_MATCHES,
{
    let all = rank_artists(artists);
    let mut r: Vec<Artist> = Vec::new();
    let mut i: usize = 0;
    while i < all.len() && r.len() < MAX_MATCHES
        invariant
            i <= all.len(),
            r.len() <= MAX_MATCHES,
            r.deep_view() == accepted(all.deep_view().take(i as int), artist_name@),
        decreases all.len() - i,
    {
        proof {
            assert(all.deep_view().take(i + 1) == all.deep_view().take(i as int).push(all[i as int]@));
            lemma_accepted_push(all.deep_view().take(i as int), all[i as int]@, artist_name@);
        }
        if is_acceptable_artist(&all[i], artist_name) {
            let ghost before = r.deep_view();
            r.push(all[i].clone());
            assert(r.deep_view() =~= before.push(all[i as int]@));
        }
        i += 1;
    }
    proof {
        let whole = accepted(all.deep_view(), artist_name@);
        lemma_accepted_prefix(all.deep_view(), artist_name@, i as int);
        if i == all.len() {
            assert(all.deep_view().take(i as int) == all.deep_view());
        } else {
            assert(r.deep_view() =~= whole.take(MAX_MATCHES as int));
        }
    }
    r
}

} // verus!
