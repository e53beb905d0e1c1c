use metalpal::config::{Release, SpotifyArtistInfo};
use metalpal::date::Date;
use metalpal::release::enrich::{
    attach_popularity, distinct_tags, enrich_with_spotify, holds_tag, needs_popularity,
    to_artist_info,
};
use metalpal::release::spotify::{
    any_genre_contains, filter_artists, is_acceptable_artist, rank_artists, Artist,
};

fn artist(name: &str, popularity: u32, followers: u32, genres: &[&str]) -> Artist {
    Artist {
        id: format!("id-{}", name),
        name: name.to_string(),
        href: format!("https://api.spotify.com/v1/artists/{}", name),
        genres: genres.iter().map(|g| g.to_string()).collect(),
        popularity,
        followers,
    }
}

fn names(artists: &Vec<Artist>) -> Vec<&str> {
    artists.iter().map(|a| a.name.as_str()).collect()
}

fn draft(artist: &str) -> Release {
    Release::draft(
        Date { year: 2024, month: 1, day: 5 },
        artist.to_string(),
        "Album".to_string(),
        "Label".to_string(),
    )
}

#[test]
fn search_is_reduced_to_three_at_most() {
    let found = vec![
        artist("a", 50, 1000, &["metal"]),
        artist("b", 50, 5000, &["death metal"]),
        artist("c", 50, 3000, &["metal"]),
        artist("d", 50, 4000, &["black metal"]),
        artist("e", 50, 2000, &["metal"]),
    ];
    let taken = filter_artists("nobody", &found);
    assert_eq!(names(&taken), vec!["b", "d", "c"]);
    assert_eq!(taken[0], found[1]);
}

#[test]
fn name_match_is_taken_whatever_its_metrics() {
    let found = vec![
        artist("Other", 50, 90000, &["metal"]),
        artist("WOLFHEART", 0, 0, &[]),
        artist("Pop Star", 99, 9000000, &["pop"]),
    ];
    let taken = filter_artists("Wolfheart", &found);
    assert_eq!(names(&taken), vec!["Other", "WOLFHEART"]);
    let alone = filter_artists("wolfheart", &vec![artist("Wolfheart", 1, 2, &["jazz"])]);
    assert_eq!(names(&alone), vec!["Wolfheart"]);
}

#[test]
fn fourth_name_match_falls_to_the_cap() {
    let found = vec![
        artist("Same", 0, 10, &[]),
        artist("same", 0, 40, &[]),
        artist("SAME", 0, 30, &[]),
        artist("sAmE", 0, 20, &[]),
    ];
    let taken = filter_artists("same", &found);
    assert_eq!(names(&taken), vec!["same", "SAME", "sAmE"]);
}

#[test]
fn artists_are_rejected_on_their_metrics() {
    assert!(is_acceptable_artist(&artist("x", 10, 1000, &["Heavy Metal"]), "y"));
    assert!(!is_acceptable_artist(&artist("x", 9, 1000, &["metal"]), "y"));
    assert!(!is_acceptable_artist(&artist("x", 10, 999, &["metal"]), "y"));
    assert!(!is_acceptable_artist(&artist("x", 10, 1000, &[]), "y"));
    assert!(!is_acceptable_artist(&artist("x", 10, 1000, &["pop", "rock"]), "y"));
    assert!(is_acceptable_artist(&artist("x", 10, 1000, &["pop", "nu METAL"]), "y"));
    assert!(is_acceptable_artist(&artist("x", 0, 0, &[]), "X"));
    assert!(any_genre_contains(&vec!["rock".to_string(), "Metalcore".to_string()], "metal"));
    assert!(!any_genre_contains(&vec!["rock".to_string()], "metal"));
    assert!(!any_genre_contains(&vec![], "metal"));
    assert_eq!(filter_artists("y", &vec![artist("x", 9, 1000, &["metal"])]), vec![]);
    assert_eq!(filter_artists("y", &vec![]), vec![]);
}

#[test]
fn ranking_is_by_followers_and_stable() {
    let found = vec![
        artist("a", 1, 10, &[]),
        artist("b", 1, 30, &[]),
        artist("c", 1, 10, &[]),
        artist("d", 1, 30, &[]),
        artist("e", 1, u32::MAX, &[]),
        artist("f", 1, 0, &[]),
    ];
    assert_eq!(names(&rank_artists(&found)), vec!["e", "b", "d", "a", "c", "f"]);
    assert_eq!(rank_artists(&vec![]), vec![]);
}

#[test]
fn kept_metadata_holds_each_genre_once() {
    let a = artist("Wolfheart", 45, 120000, &["melodic death metal", "finnish metal", "melodic death metal"]);
    assert_eq!(
        to_artist_info(&a),
        SpotifyArtistInfo {
            id: "id-Wolfheart".to_string(),
            url: "https://api.spotify.com/v1/artists/Wolfheart".to_string(),
            genres: vec!["melodic death metal".to_string(), "finnish metal".to_string()],
            popularity: 45,
            followers: 120000,
        }
    );
    let tags: Vec<String> = ["b", "a", "b", "c", "a", "B"].iter().map(|s| s.to_string()).collect();
    assert_eq!(distinct_tags(&tags), vec!["b", "a", "c", "B"]);
    assert_eq!(distinct_tags(&vec![]), Vec::<String>::new());
    assert!(holds_tag(&tags, &"c".to_string()));
    assert!(!holds_tag(&tags, &"d".to_string()));
    let big = artist("Big", u32::MAX, u32::MAX, &[]);
    assert_eq!(to_artist_info(&big).followers, 4294967295);
    assert_eq!(to_artist_info(&big).popularity, 4294967295);
}

#[test]
fn release_takes_the_first_artist_taken() {
    let found = vec![
        artist("Small", 50, 2000, &["metal"]),
        artist("Wolfheart", 45, 120000, &["melodic death metal"]),
    ];
    let mut release = draft("Wolfheart");
    assert!(needs_popularity(&release));
    attach_popularity(&mut release, &found);
    assert_eq!(release.spotify, Some(to_artist_info(&found[1])));
    assert!(!release.skip);
    assert!(release.skip_reasons.is_empty());
    assert!(!needs_popularity(&release));
    let once = release.clone();
    attach_popularity(&mut release, &vec![artist("Wolfheart", 1, 1, &[])]);
    assert_eq!(release, once);
}

#[test]
fn release_without_taken_artist_stays_without_metadata() {
    let mut release = draft("Wolfheart");
    attach_popularity(&mut release, &vec![artist("Unknown", 1, 1, &["pop"])]);
    assert_eq!(release, draft("Wolfheart"));
    attach_popularity(&mut release, &vec![]);
    assert_eq!(release, draft("Wolfheart"));
    assert!(needs_popularity(&release));
    let mut skipped = draft("Wolfheart");
    skipped.mark_skipped("old".to_string());
    assert!(!needs_popularity(&skipped));
    let before = skipped.clone();
    attach_popularity(&mut skipped, &vec![artist("Wolfheart", 45, 120000, &["metal"])]);
    assert_eq!(skipped, before);
}

#[test]
fn pass_enriches_each_release_from_its_own_search() {
    let wolf = vec![artist("Wolfheart", 45, 120000, &["melodic death metal"])];
    let saxon = vec![artist("Saxon", 60, 900000, &["nwobhm", "heavy metal"])];
    let mut done = draft("Done");
    done.spotify = Some(to_artist_info(&wolf[0]));
    let mut releases = vec![draft("Wolfheart"), done.clone(), draft("Saxon"), draft("Late")];
    enrich_with_spotify(&mut releases, &vec![wolf.clone(), saxon.clone(), saxon.clone()]);
    assert_eq!(releases[0].spotify, Some(to_artist_info(&wolf[0])));
    assert_eq!(releases[1], done);
    assert_eq!(releases[2].spotify, Some(to_artist_info(&saxon[0])));
    assert_eq!(releases[3], draft("Late"));
    let once = releases.clone();
    enrich_with_spotify(&mut releases, &vec![saxon.clone(), wolf.clone(), wolf.clone(), wolf]);
    assert_eq!(releases[..3], once[..3]);
    enrich_with_spotify(&mut releases, &vec![]);
    assert_eq!(releases[..3], once[..3]);
}
