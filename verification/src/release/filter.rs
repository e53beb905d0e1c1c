//! The filter engine: which of today's releases are left out, and why.
//!
//! Each release is judged on its own, in a fixed order of checks. A check
//! that fails marks the release as skipped, appends one reason and ends the
//! judgement. Nothing here ever clears a skip or drops a reason.

use crate::config::{Config, Release, ReleaseView};
use crate::date::Date;
use crate::text::{
    append, contains, contains_ignoring_case, occurs_at, str_contains_ignoring_case,
};
use vstd::prelude::*;

verus! {

/// Fewest followers an artist may have without being skipped.
pub const MIN_FOLLOWERS: i64 = 1000;

/// The reason for skipping a release without popularity metadata.
pub const NO_POPULARITY_DATA: &'static str = "no popularity data available";

/// The reason for skipping a release without archive metadata.
pub const NO_ARCHIVE_DATA: &'static str = "no archive data available";

/// The reason for skipping a release whose artist has too few followers.
pub const TOO_FEW_FOLLOWERS: &'static str = "follower count too low";

/// The reason for skipping a release whose metadata names no genre.
pub const NO_GENRES: &'static str = "no genres available";

/// How the genre tags of an artist stand against the two keyword lists.
pub enum Verdict {
    /// The tag at index `tag` contains the blacklist keyword at index
    /// `keyword`, and no earlier tag contains any keyword of either list.
    Blacklisted { tag: int, keyword: int },
    /// The tag at index `tag` contains the whitelist keyword at index
    /// `keyword` and no blacklist keyword, and no earlier tag contains any
    /// keyword of either list.
    Whitelisted { tag: int, keyword: int },
    /// No tag contains a keyword of either list.
    Unclassified,
}

/// A `Verdict` as the running code holds it.
#[derive(Clone, Copy, Debug, PartialEq, Eq, Structural)]
pub enum GenreVerdict {
    Blacklisted { tag: usize, keyword: usize },
    Whitelisted { tag: usize, keyword: usize },
    Unclassified,
}

impl View for GenreVerdict {
    type V = Verdict;

    open spec fn view(&self) -> Verdict {
        match *self {
            GenreVerdict::Blacklisted { tag, keyword } => Verdict::Blacklisted {
                tag: tag as int,
                keyword: keyword as int,
            },
            GenreVerdict::Whitelisted { tag, keyword } => Verdict::Whitelisted {
                tag: tag as int,
                keyword: keyword as int,
            },
            GenreVerdict::Unclassified => Verdict::Unclassified,
        }
    }
}

/// Index of the first of `keywords`, from index `from` on, that `tag`
/// contains when letter case is ignored.
pub open spec fn first_hit_from(tag: Seq<char>, keywords: Seq<Seq<char>>, from: int) -> Option<
    int,
>
    decreases keywords.len() - from + 1,
{
    if from < 0 || from >= keywords.len() {
        None
    } else if contains_ignoring_case(tag, keywords[from]) {
        Some(from)
    } else {
        first_hit_from(tag, keywords, from + 1)
    }
}

/// Index of the first of `keywords` that `tag` contains when letter case is
/// ignored.
pub open spec fn first_hit(tag: Seq<char>, keywords: Seq<Seq<char>>) -> Option<int> {
    first_hit_from(tag, keywords, 0)
}

/// The verdict on the tags from index `from` on: the first tag that contains
/// a keyword decides, and on that tag the blacklist is asked before the
/// whitelist.
pub open spec fn genre_verdict_from(
    tags: Seq<Seq<char>>,
    blacklist: Seq<Seq<char>>,
    whitelist: Seq<Seq<char>>,
    from: int,
) -> Verdict
    decreases tags.len() - from + 1,
{
    if from < 0 || from >= tags.len() {
        Verdict::Unclassified
    } else {
        match first_hit(tags[from], blacklist) {
            Some(k) => Verdict::Blacklisted { tag: from, keyword: k },
            None => match first_hit(tags[from], whitelist) {
                Some(k) => Verdict::Whitelisted { tag: from, keyword: k },
                None => genre_verdict_from(tags, blacklist, whitelist, from + 1),
            },
        }
    }
}

/// The verdict on a list of genre tags.
pub open spec fn genre_verdict(
    tags: Seq<Seq<char>>,
    blacklist: Seq<Seq<char>>,
    whitelist: Seq<Seq<char>>,
) -> Verdict {
    genre_verdict_from(tags, blacklist, whitelist, 0)
}

/// The reason recorded when a genre tag of the popularity catalog contains
/// a blacklist keyword.
pub open spec fn blacklist_reason(keyword: Seq<char>, tag: Seq<char>) -> Seq<char> {
    "blacklisted genre keyword '"@ + keyword + "' found in genre '"@ + tag + "'"@
}

/// The reason recorded when the genre text of the archive contains a
/// blacklist keyword.
pub open spec fn archive_blacklist_reason(keyword: Seq<char>, genre: Seq<char>) -> Seq<char> {
    "blacklisted genre keyword '"@ + keyword + "' found in archive genre '"@ + genre + "'"@
}

/// Why the popularity pass on the day `today` skips a release, or `None`
/// where it leaves the release as it is.
///
/// A release that is already skipped, or not dated today, is left alone.
/// Otherwise the first of these that applies is the reason: no popularity
/// metadata; fewer than `MIN_FOLLOWERS` followers; no genre tags; a
/// blacklisted verdict on its tags. Where none applies there is no reason,
/// whether a whitelist keyword was found or no keyword at all.
pub open spec fn popularity_objection(
    r: ReleaseView,
    today: Date,
    blacklist: Seq<Seq<char>>,
    whitelist: Seq<Seq<char>>,
) -> Option<Seq<char>> {
    if r.skip || r.date != today {
        None
    } else {
        match r.spotify {
            None => Some(NO_POPULARITY_DATA@),
            Some(info) => if info.followers < MIN_FOLLOWERS {
                Some(TOO_FEW_FOLLOWERS@)
            } else if info.genres.len() == 0 {
                Some(NO_GENRES@)
            } else {
                match genre_verdict(info.genres, blacklist, whitelist) {
                    Verdict::Blacklisted { tag, keyword } => Some(
                        blacklist_reason(blacklist[keyword], info.genres[tag]),
                    ),
                    _ => None,
                }
            },
        }
    }
}

/// Why the archive pass on the day `today` skips a release, or `None` where
/// it leaves the release as it is.
///
/// The archive gives one free text for the genre; it is judged as a single
/// tag, so the first blacklist keyword it contains is the reason and a
/// whitelist keyword changes nothing.
pub open spec fn archive_objection(
    r: ReleaseView,
    today: Date,
    blacklist: Seq<Seq<char>>,
    whitelist: Seq<Seq<char>>,
) -> Option<Seq<char>> {
    if r.skip || r.date != today {
        None
    } else {
        match r.metallum {
            None => Some(NO_ARCHIVE_DATA@),
            Some(info) => if info.genre.len() == 0 {
                Some(NO_GENRES@)
            } else {
                match genre_verdict(seq![info.genre], blacklist, whitelist) {
                    Verdict::Blacklisted { tag, keyword } => Some(
                        archive_blacklist_reason(blacklist[keyword], info.genre),
                    ),
                    _ => None,
                }
            },
        }
    }
}

/// A release after a pass that has the objection `reason` to it, or none.
pub open spec fn with_objection(r: ReleaseView, reason: Option<Seq<char>>) -> ReleaseView {
    match reason {
        Some(text) => r.skipped_for(text),
        None => r,
    }
}

/// A release after the popularity pass on the day `today`.
pub open spec fn popularity_filtered(
    r: ReleaseView,
    today: Date,
    blacklist: Seq<Seq<char>>,
    whitelist: Seq<Seq<char>>,
) -> ReleaseView {
    with_objection(r, popularity_objection(r, today, blacklist, whitelist))
}

/// A release after the archive pass on the day `today`.
pub open spec fn archive_filtered(
    r: ReleaseView,
    today: Date,
    blacklist: Seq<Seq<char>>,
    whitelist: Seq<Seq<char>>,
) -> ReleaseView {
    with_objection(r, archive_objection(r, today, blacklist, whitelist))
}

/// The releases of a run after the popularity pass on the day `today`: each
/// one judged on its own, in place.
pub open spec fn popularity_pass(
    releases: Seq<ReleaseView>,
    today: Date,
    blacklist: Seq<Seq<char>>,
    whitelist: Seq<Seq<char>>,
) -> Seq<ReleaseView> {
    releases.map_values(|r: ReleaseView| popularity_filtered(r, today, blacklist, whitelist))
}

/// The releases of a run after the archive pass on the day `today`: each one
/// judged on its own, in place.
pub open spec fn archive_pass(
    releases: Seq<ReleaseView>,
    today: Date,
    blacklist: Seq<Seq<char>>,
    whitelist: Seq<Seq<char>>,
) -> Seq<ReleaseView> {
    releases.map_values(|r: ReleaseView| archive_filtered(r, today, blacklist, whitelist))
}

/// Index of the first of `keywords` that `tag` contains when letter case is
/// ignored.
pub fn find_keyword(tag: &str, keywords: &Vec<String>) -> (r: Option<usize>)
    ensures
        match r {
            Some(k) => first_hit(tag@, keywords.deep_view()) == Some(k as int) && k
                < keywords.len(),
            None => first_hit(tag@, keywords.deep_view()) is None,
        },
{
    let mut k: usize = 0;
    while k < keywords.len()
        invariant
            k <= keywords.len(),
            first_hit(tag@, keywords.deep_view()) == first_hit_from(
                tag@,
                keywords.deep_view(),
                k as int,
            ),
        decreases keywords.len() - k,
    {
        assert(keywords.deep_view()[k as int] == keywords[k as int]@);
        if str_contains_ignoring_case(tag, keywords[k].as_str()) {
            return Some(k);
        }
        k += 1;
    }
    None
}

/// Judges the genre tags against the blacklist and the whitelist.
pub fn judge_genres(tags: &Vec<String>, blacklist: &Vec<String>, whitelist: &Vec<String>) -> (r:
    GenreVerdict)
    ensures
        r@ == genre_verdict(tags.deep_view(), blacklist.deep_view(), whitelist.deep_view()),
        r matches GenreVerdict::Blacklisted { tag, keyword } ==> tag < tags.len() && keyword
            < blacklist.len(),
        r matches GenreVerdict::Whitelisted { tag, keyword } ==> tag < tags.len() && keyword
            < whitelist.len(),
{
    let mut t: usize = 0;
    while t < tags.len()
        invariant
            t <= tags.len(),
            genre_verdict(tags.deep_view(), blacklist.deep_view(), whitelist.deep_view())
                == genre_verdict_from(
                tags.deep_view(),
                blacklist.deep_view(),
                whitelist.deep_view(),
                t as int,
            ),
        decreases tags.len() - t,
    {
        assert(tags.deep_view()[t as int] == tags[t as int]@);
        if let Some(k) = find_keyword(tags[t].as_str(), blacklist) {
            return GenreVerdict::Blacklisted { tag: t, keyword: k };
        }
        if let Some(k) = find_keyword(tags[t].as_str(), whitelist) {
            return GenreVerdict::Whitelisted { tag: t, keyword: k };
        }
        t += 1;
    }
    GenreVerdict::Unclassified
}

/// Writes the reason for a blacklist hit in a tag of the popularity catalog.
pub fn write_blacklist_reason(keyword: &str, tag: &str) -> (r: String)
    ensures
        r@ == blacklist_reason(keyword@, tag@),
{
    let a = append("blacklisted genre keyword '", keyword);
    let b = append(a.as_str(), "' found in genre '");
    let c = append(b.as_str(), tag);
    append(c.as_str(), "'")
}

/// Writes the reason for a blacklist hit in the genre text of the archive.
pub fn write_archive_blacklist_reason(keyword: &str, genre: &str) -> (r: String)
    ensures
        r@ == archive_blacklist_reason(keyword@, genre@),
{
    let a = append("blacklisted genre keyword '", keyword);
    let b = append(a.as_str(), "' found in archive genre '");
    let c = append(b.as_str(), genre);
    append(c.as_str(), "'")
}

/// Finds the objection of the popularity pass to a release.
pub fn object_by_popularity(
    release: &Release,
    today: Date,
    blacklist: &Vec<String>,
    whitelist: &Vec<String>,
) -> (reason: Option<String>)
    ensures
        reason.deep_view() == popularity_objection(
            release@,
            today,
            blacklist.deep_view(),
            whitelist.deep_view(),
        ),
{
    if release.skip || release.date != today {
        return None;
    }
    match &release.spotify {
        None => Some(NO_POPULARITY_DATA.to_owned()),
        Some(info) => {
            if info.followers < MIN_FOLLOWERS {
                Some(TOO_FEW_FOLLOWERS.to_owned())
            } else if info.genres.len() == 0 {
                Some(NO_GENRES.to_owned())
            } else {
                match judge_genres(&info.genres, blacklist, whitelist) {
                    GenreVerdict::Blacklisted { tag, keyword } => {
                        assert(blacklist.deep_view()[keyword as int] == blacklist[keyword as int]@);
                        assert(info.genres.deep_view()[tag as int] == info.genres[tag as int]@);
                        Some(
                            write_blacklist_reason(
                                blacklist[keyword].as_str(),
                                info.genres[tag].as_str(),
                            ),
                        )
                    },
                    _ => None,
                }
            }
        },
    }
}

/// Finds the objection of the archive pass to a release.
pub fn object_by_archive(
    release: &Release,
    today: Date,
    blacklist: &Vec<String>,
    whitelist: &Vec<String>,
) -> (reason: Option<String>)
    ensures
        reason.deep_view() == archive_objection(
            release@,
            today,
            blacklist.deep_view(),
            whitelist.deep_view(),
        ),
{
    if release.skip || release.date != today {
        return None;
    }
    match &release.metallum {
        None => Some(NO_ARCHIVE_DATA.to_owned()),
        Some(info) => {
            if info.genre.as_str().is_empty() {
                Some(NO_GENRES.to_owned())
            } else {
                let mut tags: Vec<String> = Vec::new();
                tags.push(info.genre.clone());
                assert(tags.deep_view() =~= seq![info.genre@]);
                match judge_genres(&tags, blacklist, whitelist) {
                    GenreVerdict::Blacklisted { tag, keyword } => {
                        assert(blacklist.deep_view()[keyword as int] == blacklist[keyword as int]@);
                        Some(
                            write_archive_blacklist_reason(
                                blacklist[keyword].as_str(),
                                info.genre.as_str(),
                            ),
                        )
                    },
                    _ => None,
                }
            }
        },
    }
}

/// Applies an objection to a release: with a reason the release is marked
/// skipped and the reason appended, without one it is left as it is.
pub fn apply_objection(release: &mut Release, reason: Option<String>)
    ensures
        final(release)@ == with_objection(old(release)@, reason.deep_view()),
        old(release)@.is_consistent() ==> final(release)@.is_consistent(),
{
    match reason {
        Some(text) => release.mark_skipped(text),
        None => {},
    }
}

/// A pass never takes a skip back, keeps every earlier reason in place, and
/// leaves a release that was consistent consistent: one that is skipped has
/// a reason.
pub proof fn lemma_pass_is_monotonic(r: ReleaseView, reason: Option<Seq<char>>)
    ensures
        r.skip ==> with_objection(r, reason).skip,
        r.skip_reasons.is_prefix_of(with_objection(r, reason).skip_reasons),
        r.is_consistent() ==> with_objection(r, reason).is_consistent(),
        with_objection(r, reason).skip == (r.skip || reason is Some),
{
}

/// The reason for a blacklist hit names the keyword and the tag.
pub proof fn lemma_reason_names_keyword_and_tag(keyword: Seq<char>, tag: Seq<char>)
    ensures
        contains(blacklist_reason(keyword, tag), keyword),
        contains(blacklist_reason(keyword, tag), tag),
        contains(archive_blacklist_reason(keyword, tag), keyword),
        contains(archive_blacklist_reason(keyword, tag), tag),
{
    let head = "blacklisted genre keyword '"@;
    let at: int = head.len() as int;
    let reason = blacklist_reason(keyword, tag);
    let behind: int = at + keyword.len() + "' found in genre '"@.len();
    assert(reason.subrange(at, at + keyword.len()) =~= keyword);
    assert(occurs_at(reason, keyword, at));
    assert(reason.subrange(behind, behind + tag.len()) =~= tag);
    assert(occurs_at(reason, tag, behind));
    let reason = archive_blacklist_reason(keyword, tag);
    let behind: int = at + keyword.len() + "' found in archive genre '"@.len();
    assert(reason.subrange(at, at + keyword.len()) =~= keyword);
    assert(occurs_at(reason, keyword, at));
    assert(reason.subrange(behind, behind + tag.len()) =~= tag);
    assert(occurs_at(reason, tag, behind));
}

/// A pass leaves alone every release that is already skipped and every
/// release that is not dated today.
pub proof fn lemma_pass_leaves_others(
    r: ReleaseView,
    today: Date,
    blacklist: Seq<Seq<char>>,
    whitelist: Seq<Seq<char>>,
)
    requires
        r.skip || r.date != today,
    ensures
        popularity_filtered(r, today, blacklist, whitelist) == r,
        archive_filtered(r, today, blacklist, whitelist) == r,
{
}

/// On the first tag that contains any keyword, a blacklist keyword decides
/// against the release even where the same tag contains a whitelist keyword
/// too: the verdict names that tag and the first blacklist keyword in it.
pub proof fn lemma_blacklist_wins(
    tags: Seq<Seq<char>>,
    blacklist: Seq<Seq<char>>,
    whitelist: Seq<Seq<char>>,
    tag: int,
    keyword: int,
)
    requires
        0 <= tag < tags.len(),
        0 <= keyword < blacklist.len(),
        contains_ignoring_case(tags[tag], blacklist[keyword]),
        forall|t: int, k: int|
            0 <= t < tag && 0 <= k < blacklist.len() ==> !contains_ignoring_case(
                #[trigger] tags[t],
                #[trigger] blacklist[k],
            ),
        forall|t: int, k: int|
            0 <= t < tag && 0 <= k < whitelist.len() ==> !contains_ignoring_case(
                #[trigger] tags[t],
                #[trigger] whitelist[k],
            ),
    ensures
        genre_verdict(tags, blacklist, whitelist) matches Verdict::Blacklisted {
            tag: t,
            keyword: k,
        } && t == tag && k <= keyword && contains_ignoring_case(tags[tag], blacklist[k]),
{
    lemma_verdict_from(tags, blacklist, whitelist, 0, tag, keyword);
}

/// `first_hit_from` finds the first keyword at or after `from` that the tag
/// contains, and `None` only where it contains none of them.
pub proof fn lemma_first_hit_from(tag: Seq<char>, keywords: Seq<Seq<char>>, from: int)
    requires
        0 <= from,
    ensures
        match first_hit_from(tag, keywords, from) {
            Some(k) => {
                &&& from <= k < keywords.len()
                &&& contains_ignoring_case(tag, keywords[k])
                &&& forall|j: int| from <= j < k ==> !contains_ignoring_case(tag, keywords[j])
            },
            None => forall|j: int|
                from <= j < keywords.len() ==> !contains_ignoring_case(tag, keywords[j]),
        },
    decreases keywords.len() - from + 1,
{
    if from < keywords.len() && !contains_ignoring_case(tag, keywords[from]) {
        lemma_first_hit_from(tag, keywords, from + 1);
    }
}

proof fn lemma_verdict_from(
    tags: Seq<Seq<char>>,
    blacklist: Seq<Seq<char>>,
    whitelist: Seq<Seq<char>>,
    from: int,
    tag: int,
    keyword: int,
)
    requires
        0 <= from <= tag < tags.len(),
        0 <= keyword < blacklist.len(),
        contains_ignoring_case(tags[tag], blacklist[keyword]),
        forall|t: int, k: int|
            0 <= t < tag && 0 <= k < blacklist.len() ==> !contains_ignoring_case(
                #[trigger] tags[t],
                #[trigger] blacklist[k],
            ),
        forall|t: int, k: int|
            0 <= t < tag && 0 <= k < whitelist.len() ==> !contains_ignoring_case(
                #[trigger] tags[t],
                #[trigger] whitelist[k],
            ),
    ensures
        genre_verdict_from(tags, blacklist, whitelist, from) matches Verdict::Blacklisted {
            tag: t,
            keyword: k,
        } && t == tag && k <= keyword && contains_ignoring_case(tags[tag], blacklist[k]),
    decreases tag - from,
{
    lemma_first_hit_from(tags[from], blacklist, 0);
    lemma_first_hit_from(tags[from], whitelist, 0);
    if from < tag {
        lemma_verdict_from(tags, blacklist, whitelist, from + 1, tag, keyword);
    }
}

/// The popularity pass over the releases of one run, for the day `today`.
pub fn set_skip_spotify_on(config: &Config, releases_today: &mut Vec<Release>, today: Date)
    ensures
        final(releases_today).len() == old(releases_today).len(),
        final(releases_today).deep_view() == popularity_pass(
            old(releases_today).deep_view(),
            today,
            config.blacklisted_genre_keywords.deep_view(),
            config.whitelisted_genre_keywords.deep_view(),
        ),
        forall|i: int|
            0 <= i < old(releases_today).len() && old(releases_today)[i]@.is_consistent() ==> (
            #[trigger] final(releases_today)[i])@.is_consistent(),
{
    let mut i: usize = 0;
    while i < releases_today.len()
        invariant
            i <= releases_today.len(),
            releases_today.len() == old(releases_today).len(),
            forall|j: int|
                0 <= j < i ==> (#[trigger] releases_today[j])@ == popularity_filtered(
                    old(releases_today)[j]@,
                    today,
                    config.blacklisted_genre_keywords.deep_view(),
                    config.whitelisted_genre_keywords.deep_view(),
                ),
            forall|j: int| i <= j < releases_today.len() ==> releases_today[j] == old(releases_today)[j],
        decreases releases_today.len() - i,
    {
        let reason = object_by_popularity(
            &releases_today[i],
            today,
            &config.blacklisted_genre_keywords,
            &config.whitelisted_genre_keywords,
        );
        apply_objection(&mut releases_today[i], reason);
        i += 1;
    }
    assert(releases_today.deep_view() =~= popularity_pass(
        old(releases_today).deep_view(),
        today,
        config.blacklisted_genre_keywords.deep_view(),
        config.whitelisted_genre_keywords.deep_view(),
    ));
    assert forall|i: int|
        0 <= i < old(releases_today).len() && old(
            releases_today,
        )[i]@.is_consistent() implies (#[trigger] releases_today[i])@.is_consistent() by {
        assert(releases_today.deep_view()[i] == releases_today[i]@);
        assert(old(releases_today).deep_view()[i] == old(releases_today)[i]@);
    }
}

/// The popularity pass over the releases of one run, for the current day of
/// the machine's clock: every release is judged as `popularity_filtered`
/// says for one and the same day.
pub fn set_skip_spotify(config: &Config, releases_today: &mut Vec<Release>)
    ensures
        final(releases_today).len() == old(releases_today).len(),
        exists|today: Date|
            final(releases_today).deep_view() == #[trigger] popularity_pass(
                old(releases_today).deep_view(),
                today,
                config.blacklisted_genre_keywords.deep_view(),
                config.whitelisted_genre_keywords.deep_view(),
            ),
        forall|i: int|
            0 <= i < old(releases_today).len() && old(releases_today)[i]@.is_consistent() ==> (
            #[trigger] final(releases_today)[i])@.is_consistent(),
{
    let today = Date::today();
    set_skip_spotify_on(config, releases_today, today);
}

/// The archive pass over the releases of one run, for the day `today`.
pub fn set_skip_metallum_on(config: &Config, releases_today: &mut Vec<Release>, today: Date)
    ensures
        final(releases_today).len() == old(releases_today).len(),
        final(releases_today).deep_view() == archive_pass(
            old(releases_today).deep_view(),
            today,
            config.blacklisted_genre_keywords.deep_view(),
            config.whitelisted_genre_keywords.deep_view(),
        ),
        forall|i: int|
            0 <= i < old(releases_today).len() && old(releases_today)[i]@.is_consistent() ==> (
            #[trigger] final(releases_today)[i])@.is_consistent(),
{
    let mut i: usize = 0;
    while i < releases_today.len()
        invariant
            i <= releases_today.len(),
            releases_today.len() == old(releases_today).len(),
            forall|j: int|
                0 <= j < i ==> (#[trigger] releases_today[j])@ == archive_filtered(
                    old(releases_today)[j]@,
                    today,
                    config.blacklisted_genre_keywords.deep_view(),
                    config.whitelisted_genre_keywords.deep_view(),
                ),
            forall|j: int| i <= j < releases_today.len() ==> releases_today[j] == old(releases_today)[j],
        decreases releases_today.len() - i,
    {
        let reason = object_by_archive(
            &releases_today[i],
            today,
            &config.blacklisted_genre_keywords,
            &config.whitelisted_genre_keywords,
        );
        apply_objection(&mut releases_today[i], reason);
        i += 1;
    }
    assert(releases_today.deep_view() =~= archive_pass(
        old(releases_today).deep_view(),
        today,
        config.blacklisted_genre_keywords.deep_view(),
        config.whitelisted_genre_keywords.deep_view(),
    ));
    assert forall|i: int|
        0 <= i < old(releases_today).len() && old(
            releases_today,
        )[i]@.is_consistent() implies (#[trigger] releases_today[i])@.is_consistent() by {
        assert(releases_today.deep_view()[i] == releases_today[i]@);
        assert(old(releases_today).deep_view()[i] == old(releases_today)[i]@);
    }
}

/// The archive pass over the releases of one run, for the current day of the
/// machine's clock.
pub fn set_skip_metallum(config: &Config, releases_today: &mut Vec<Release>)
    ensures
        final(releases_today).len() == old(releases_today).len(),
        exists|today: Date|
            final(releases_today).deep_view() == #[trigger] archive_pass(
                old(releases_today).deep_view(),
                today,
                config.blacklisted_genre_keywords.deep_view(),
                config.whitelisted_genre_keywords.deep_view(),
            ),
        forall|i: int|
            0 <= i < old(releases_today).len() && old(releases_today)[i]@.is_consistent() ==> (
            #[trigger] final(releases_today)[i])@.is_consistent(),
{
    let today = Date::today();
    set_skip_metallum_on(config, releases_today, today);
}

} // verus!
