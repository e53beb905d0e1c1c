use metalpal::config::{Config, MetallumArtistInfo, Release, SpotifyArtistInfo};
use metalpal::date::Date;
use metalpal::release::filter::{
    apply_objection, find_keyword, judge_genres, object_by_archive, object_by_popularity,
    set_skip_metallum, set_skip_metallum_on, set_skip_spotify, set_skip_spotify_on,
    write_archive_blacklist_reason, write_blacklist_reason, GenreVerdict,
};

fn today() -> Date {
    Date { year: 2024, month: 1, day: 5 }
}

fn words(items: &[&str]) -> Vec<String> {
    items.iter().map(|s| s.to_string()).collect()
}

fn popularity(followers: i64, genres: &[&str]) -> SpotifyArtistInfo {
    SpotifyArtistInfo {
        id: "4tZwfgrHOc3mvqYlEYSvVi".to_string(),
        url: "https://api.spotify.com/v1/artists/4tZwfgrHOc3mvqYlEYSvVi".to_string(),
        genres: words(genres),
        popularity: 40,
        followers,
    }
}

fn archive(genre: &str) -> MetallumArtistInfo {
    MetallumArtistInfo {
        name: "Wolfheart".to_string(),
        url: "https://www.metal-archives.com/bands/Wolfheart/3540361228".to_string(),
        description_short: "".to_string(),
        description_long: "".to_string(),
        country_origin: "Finland".to_string(),
        locations: "Lahti".to_string(),
        years_active: "2013-present".to_string(),
        formed_in: "2013".to_string(),
        genre: genre.to_string(),
        themes: "Winter".to_string(),
        img_url: "".to_string(),
        status: "Active".to_string(),
        last_label: "Napalm Records".to_string(),
    }
}

fn release(spotify: Option<SpotifyArtistInfo>, metallum: Option<MetallumArtistInfo>) -> Release {
    let mut r = Release::draft(
        today(),
        "Wolfheart".to_string(),
        "Skull Soup".to_string(),
        "Napalm".to_string(),
    );
    r.spotify = spotify;
    r.metallum = metallum;
    r
}

fn config(blacklist: &[&str], whitelist: &[&str]) -> Config {
    let mut config = Config::default();
    config.blacklisted_genre_keywords = words(blacklist);
    config.whitelisted_genre_keywords = words(whitelist);
    config
}

#[test]
fn blacklist_is_asked_before_whitelist_on_the_same_tag() {
    let config = config(&["black"], &["metal"]);
    let mut releases = vec![release(Some(popularity(5000, &["atmospheric black metal"])), None)];
    set_skip_spotify_on(&config, &mut releases, today());
    assert!(releases[0].skip);
    assert_eq!(
        releases[0].skip_reasons,
        vec!["blacklisted genre keyword 'black' found in genre 'atmospheric black metal'"]
    );
    assert!(releases[0].skip_reasons[0].contains("black"));
}

#[test]
fn too_few_followers_skip_whatever_the_genres() {
    let config = config(&["pop"], &["metal"]);
    for genres in [&["melodic death metal"][..], &["pop"][..], &[][..]] {
        let mut releases = vec![release(Some(popularity(500, genres)), None)];
        set_skip_spotify_on(&config, &mut releases, today());
        assert!(releases[0].skip);
        assert_eq!(releases[0].skip_reasons, vec!["follower count too low"]);
    }
    let mut releases = vec![
        release(Some(popularity(999, &["metal"])), None),
        release(Some(popularity(1000, &["metal"])), None),
    ];
    set_skip_spotify_on(&config, &mut releases, today());
    assert!(releases[0].skip);
    assert!(!releases[1].skip);
    assert!(releases[1].skip_reasons.is_empty());
}

#[test]
fn release_without_popularity_data_is_skipped() {
    let config = config(&[], &[]);
    let mut releases = vec![release(None, Some(archive("Melodic Death Metal")))];
    set_skip_spotify_on(&config, &mut releases, today());
    assert!(releases[0].skip);
    assert_eq!(releases[0].skip_reasons, vec!["no popularity data available"]);
}

#[test]
fn release_without_genres_is_skipped() {
    let config = config(&["black"], &["metal"]);
    let mut releases = vec![release(Some(popularity(5000, &[])), None)];
    set_skip_spotify_on(&config, &mut releases, today());
    assert!(releases[0].skip);
    assert_eq!(releases[0].skip_reasons, vec!["no genres available"]);
}

#[test]
fn unclassified_release_is_accepted() {
    let config = config(&["black"], &["death"]);
    let mut releases = vec![release(Some(popularity(5000, &["finnish power metal", "folk"])), None)];
    let before = releases[0].clone();
    set_skip_spotify_on(&config, &mut releases, today());
    assert_eq!(releases[0], before);
    let empty = Config::default();
    set_skip_spotify_on(&empty, &mut releases, today());
    assert_eq!(releases[0], before);
}

#[test]
fn earlier_whitelisted_tag_ends_the_judgement() {
    let config = config(&["black"], &["death"]);
    let mut releases = vec![release(
        Some(popularity(5000, &["melodic death metal", "black metal"])),
        None,
    )];
    set_skip_spotify_on(&config, &mut releases, today());
    assert!(!releases[0].skip);
    let mut releases = vec![release(
        Some(popularity(5000, &["black metal", "melodic death metal"])),
        None,
    )];
    set_skip_spotify_on(&config, &mut releases, today());
    assert!(releases[0].skip);
    assert_eq!(
        releases[0].skip_reasons,
        vec!["blacklisted genre keyword 'black' found in genre 'black metal'"]
    );
}

#[test]
fn keywords_match_whatever_their_letter_case() {
    let config = config(&["BLACK"], &[]);
    let mut releases = vec![release(Some(popularity(5000, &["Atmospheric Black Metal"])), None)];
    set_skip_spotify_on(&config, &mut releases, today());
    assert!(releases[0].skip);
    assert_eq!(
        releases[0].skip_reasons,
        vec!["blacklisted genre keyword 'BLACK' found in genre 'Atmospheric Black Metal'"]
    );
}

#[test]
fn verdict_names_the_first_tag_and_keyword() {
    let tags = words(&["folk", "symphonic black metal", "death metal"]);
    let blacklist = words(&["core", "metal", "black"]);
    let whitelist = words(&["death", "folk"]);
    assert_eq!(
        judge_genres(&tags, &blacklist, &whitelist),
        GenreVerdict::Whitelisted { tag: 0, keyword: 1 }
    );
    assert_eq!(
        judge_genres(&tags, &blacklist, &vec![]),
        GenreVerdict::Blacklisted { tag: 1, keyword: 1 }
    );
    assert_eq!(judge_genres(&tags, &vec![], &vec![]), GenreVerdict::Unclassified);
    assert_eq!(judge_genres(&vec![], &blacklist, &whitelist), GenreVerdict::Unclassified);
    assert_eq!(
        judge_genres(&tags, &words(&["punk"]), &words(&["jazz"])),
        GenreVerdict::Unclassified
    );
    assert_eq!(find_keyword("death metal", &blacklist), Some(1));
    assert_eq!(find_keyword("death metal", &whitelist), Some(0));
    assert_eq!(find_keyword("jazz", &blacklist), None);
    assert_eq!(find_keyword("jazz", &words(&["x", ""])), Some(1));
}

#[test]
fn skipped_and_other_days_releases_are_left_alone() {
    let config = config(&["metal"], &[]);
    let mut skipped = release(None, None);
    skipped.mark_skipped("seen before".to_string());
    let mut other_day = release(None, None);
    other_day.date = Date { year: 2024, month: 1, day: 6 };
    let mut releases = vec![skipped.clone(), other_day.clone()];
    set_skip_spotify_on(&config, &mut releases, today());
    assert_eq!(releases, vec![skipped.clone(), other_day.clone()]);
    set_skip_metallum_on(&config, &mut releases, today());
    assert_eq!(releases, vec![skipped, other_day]);
}

#[test]
fn archive_pass_skips_on_missing_data_and_on_blacklist() {
    let config = config(&["core", "black"], &["metal"]);
    let mut releases = vec![
        release(Some(popularity(5000, &["metal"])), None),
        release(Some(popularity(5000, &["metal"])), Some(archive(""))),
        release(Some(popularity(5000, &["metal"])), Some(archive("Melodic Black Metal/Metalcore"))),
        release(Some(popularity(5000, &["metal"])), Some(archive("Melodic Death Metal"))),
        release(Some(popularity(5000, &["metal"])), Some(archive("Jazz"))),
    ];
    set_skip_metallum_on(&config, &mut releases, today());
    assert!(releases[0].skip);
    assert_eq!(releases[0].skip_reasons, vec!["no archive data available"]);
    assert!(releases[1].skip);
    assert_eq!(releases[1].skip_reasons, vec!["no genres available"]);
    assert!(releases[2].skip);
    assert_eq!(
        releases[2].skip_reasons,
        vec!["blacklisted genre keyword 'core' found in archive genre 'Melodic Black Metal/Metalcore'"]
    );
    assert!(!releases[3].skip);
    assert!(releases[3].skip_reasons.is_empty());
    assert!(!releases[4].skip);
}

#[test]
fn passes_add_to_the_reasons_and_never_clear_them() {
    let config = config(&["black"], &[]);
    let mut releases = vec![release(None, None)];
    set_skip_spotify_on(&config, &mut releases, today());
    set_skip_metallum_on(&config, &mut releases, today());
    set_skip_spotify_on(&config, &mut releases, today());
    assert!(releases[0].skip);
    assert_eq!(releases[0].skip_reasons, vec!["no popularity data available"]);
    let mut r = release(None, None);
    apply_objection(&mut r, None);
    assert!(!r.skip);
    apply_objection(&mut r, Some("first".to_string()));
    apply_objection(&mut r, None);
    apply_objection(&mut r, Some("second".to_string()));
    assert!(r.skip);
    assert_eq!(r.skip_reasons, vec!["first", "second"]);
}

#[test]
fn objections_are_found_without_changing_the_release() {
    let blacklist = words(&["black"]);
    let whitelist = words(&["metal"]);
    let r = release(Some(popularity(5000, &["black metal"])), Some(archive("Black Metal")));
    assert_eq!(
        object_by_popularity(&r, today(), &blacklist, &whitelist),
        Some("blacklisted genre keyword 'black' found in genre 'black metal'".to_string())
    );
    assert_eq!(
        object_by_archive(&r, today(), &blacklist, &whitelist),
        Some("blacklisted genre keyword 'black' found in archive genre 'Black Metal'".to_string())
    );
    let tomorrow = Date { year: 2024, month: 1, day: 6 };
    assert_eq!(object_by_popularity(&r, tomorrow, &blacklist, &whitelist), None);
    assert_eq!(object_by_archive(&r, tomorrow, &blacklist, &whitelist), None);
    assert_eq!(
        write_blacklist_reason("k", "t"),
        "blacklisted genre keyword 'k' found in genre 't'"
    );
    assert_eq!(
        write_archive_blacklist_reason("k", "t"),
        "blacklisted genre keyword 'k' found in archive genre 't'"
    );
}

#[test]
fn passes_by_the_clock_judge_the_releases_of_the_current_day() {
    let config = config(&[], &[]);
    let mut old = release(None, None);
    old.date = Date { year: 1999, month: 1, day: 1 };
    let mut current = release(None, None);
    current.date = Date::today();
    let mut releases = vec![old.clone(), current.clone()];
    set_skip_spotify(&config, &mut releases);
    assert_eq!(releases[0], old);
    if Date::today() == current.date {
        assert!(releases[1].skip);
        assert_eq!(releases[1].skip_reasons, vec!["no popularity data available"]);
    }
    let mut releases = vec![old.clone(), current.clone()];
    set_skip_metallum(&config, &mut releases);
    assert_eq!(releases[0], old);
    if Date::today() == current.date {
        assert!(releases[1].skip);
        assert_eq!(releases[1].skip_reasons, vec!["no archive data available"]);
    }
}
