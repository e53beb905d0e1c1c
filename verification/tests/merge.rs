use metalpal::config::{Release, SpotifyArtistInfo};
use metalpal::date::Date;
use metalpal::release::merge::{is_same_release, merge_releases, overwrite_enrichment};
use metalpal::release::{get_releases_today, releases_on};

fn entry(day: u32, artist: &str, album: &str) -> Release {
    Release::draft(
        Date { year: 2024, month: 1, day },
        artist.to_string(),
        album.to_string(),
        "Label".to_string(),
    )
}

fn info(followers: i64) -> SpotifyArtistInfo {
    SpotifyArtistInfo {
        id: "id".to_string(),
        url: "url".to_string(),
        genres: vec!["metal".to_string()],
        popularity: 50,
        followers,
    }
}

#[test]
fn merge_overwrites_the_matching_entry_only() {
    let mut history = vec![entry(4, "A", "One"), entry(5, "B", "Two"), entry(5, "C", "Three")];
    let mut processed = entry(5, "B", "Two");
    processed.label = "Other label".to_string();
    processed.date = Date { year: 2030, month: 2, day: 2 };
    processed.spotify = Some(info(2000));
    processed.mark_skipped("no archive data available".to_string());
    merge_releases(&mut history, &vec![processed]);
    assert_eq!(history.len(), 3);
    assert_eq!(history[0], entry(4, "A", "One"));
    assert_eq!(history[2], entry(5, "C", "Three"));
    let mut expected = entry(5, "B", "Two");
    expected.spotify = Some(info(2000));
    expected.skip = true;
    expected.skip_reasons = vec!["no archive data available".to_string()];
    assert_eq!(history[1], expected);
}

#[test]
fn merge_inserts_nothing() {
    let mut history = vec![entry(4, "A", "One")];
    let mut stranger = entry(5, "Z", "Unknown");
    stranger.spotify = Some(info(1));
    merge_releases(&mut history, &vec![stranger]);
    assert_eq!(history, vec![entry(4, "A", "One")]);
    let mut nothing: Vec<Release> = vec![];
    merge_releases(&mut nothing, &vec![entry(5, "Z", "Unknown")]);
    assert!(nothing.is_empty());
    merge_releases(&mut history, &vec![]);
    assert_eq!(history, vec![entry(4, "A", "One")]);
}

#[test]
fn merge_twice_is_merge_once() {
    let mut history = vec![
        entry(4, "A", "One"),
        entry(5, "B", "Two"),
        entry(5, "A", "One"),
        entry(5, "C", "Three"),
    ];
    let mut first = entry(5, "A", "One");
    first.spotify = Some(info(10));
    let mut second = entry(5, "B", "Two");
    second.mark_skipped("follower count too low".to_string());
    let mut third = entry(5, "A", "One");
    third.spotify = Some(info(30));
    third.mark_skipped("no genres available".to_string());
    let today = vec![first, second, third];
    merge_releases(&mut history, &today);
    let once = history.clone();
    merge_releases(&mut history, &today);
    assert_eq!(history, once);
    assert_eq!(once[0].spotify, Some(info(30)));
    assert_eq!(once[2].spotify, Some(info(30)));
    assert!(once[0].skip && once[1].skip && once[2].skip && !once[3].skip);
    assert_eq!(once[0].date, Date { year: 2024, month: 1, day: 4 });
}

#[test]
fn identity_is_artist_and_album_character_for_character() {
    assert!(is_same_release(&entry(1, "A", "One"), &entry(9, "A", "One")));
    assert!(!is_same_release(&entry(1, "A", "One"), &entry(1, "a", "One")));
    assert!(!is_same_release(&entry(1, "A", "One"), &entry(1, "A", "One ")));
    assert!(!is_same_release(&entry(1, "A", "One"), &entry(1, "One", "A")));
    let mut history = vec![entry(5, "a", "One")];
    let mut processed = entry(5, "A", "One");
    processed.spotify = Some(info(10));
    merge_releases(&mut history, &vec![processed]);
    assert_eq!(history, vec![entry(5, "a", "One")]);
}

#[test]
fn merge_can_take_a_skip_back_with_todays_values() {
    let mut old = entry(5, "A", "One");
    old.mark_skipped("no popularity data available".to_string());
    old.spotify = Some(info(5));
    let mut history = vec![old];
    merge_releases(&mut history, &vec![entry(5, "A", "One")]);
    assert_eq!(history, vec![entry(5, "A", "One")]);
    let mut target = entry(1, "X", "Y");
    let mut source = entry(2, "P", "Q");
    source.spotify = Some(info(7));
    overwrite_enrichment(&mut target, &source);
    let mut expected = entry(1, "X", "Y");
    expected.spotify = Some(info(7));
    assert_eq!(target, expected);
}

#[test]
fn todays_releases_are_those_dated_today() {
    let releases = vec![entry(4, "A", "One"), entry(5, "B", "Two"), entry(4, "C", "Three"), entry(5, "D", "Four")];
    let five = releases_on(&releases, Date { year: 2024, month: 1, day: 5 });
    assert_eq!(five, vec![entry(5, "B", "Two"), entry(5, "D", "Four")]);
    assert_eq!(releases_on(&releases, Date { year: 2024, month: 2, day: 5 }), vec![]);
    assert_eq!(releases_on(&vec![], Date { year: 2024, month: 1, day: 5 }), vec![]);
    let mut current = entry(1, "Now", "Here");
    current.date = Date::today();
    let mixed = vec![entry(4, "A", "One"), current.clone()];
    let found = get_releases_today(&mixed);
    if Date::today() == current.date {
        assert_eq!(found, vec![current]);
    }
}
