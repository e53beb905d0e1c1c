use metalpal::config::{Config, MetallumArtistInfo, Release};
use metalpal::date::Date;
use metalpal::release::enrich::{enrich_with_metallum, enrich_with_spotify};
use metalpal::release::filter::{set_skip_metallum_on, set_skip_spotify_on};
use metalpal::release::merge::merge_releases;
use metalpal::release::releases_on;
use metalpal::release::spotify::Artist;

fn today() -> Date {
    Date { year: 2024, month: 1, day: 5 }
}

fn draft(day: u32, artist: &str) -> Release {
    Release::draft(
        Date { year: 2024, month: 1, day },
        artist.to_string(),
        format!("{} album", artist),
        "Label".to_string(),
    )
}

fn artist(name: &str, followers: u32, genres: &[&str]) -> Artist {
    Artist {
        id: format!("id-{}", name),
        name: name.to_string(),
        href: format!("https://api.spotify.com/v1/artists/{}", name),
        genres: genres.iter().map(|g| g.to_string()).collect(),
        popularity: 50,
        followers,
    }
}

fn archive(name: &str, genre: &str) -> MetallumArtistInfo {
    MetallumArtistInfo {
        name: name.to_string(),
        url: format!("https://archive/{}", name),
        description_short: "".to_string(),
        description_long: "".to_string(),
        country_origin: "Finland".to_string(),
        locations: "".to_string(),
        years_active: "".to_string(),
        formed_in: "".to_string(),
        genre: genre.to_string(),
        themes: "".to_string(),
        img_url: "".to_string(),
        status: "Active".to_string(),
        last_label: "".to_string(),
    }
}

fn process(config: &Config, releases: &mut Vec<Release>) {
    let artists: Vec<Vec<Artist>> = releases
        .iter()
        .map(|r| match r.artist.as_str() {
            "Nobody" => vec![],
            "Tiny" => vec![artist("tiny", 12, &[])],
            "Core" => vec![artist("Core", 50000, &["melodic metalcore"])],
            name => vec![artist(name, 50000, &["melodic death metal"])],
        })
        .collect();
    enrich_with_spotify(releases, &artists);
    set_skip_spotify_on(config, releases, today());
    let found: Vec<Vec<MetallumArtistInfo>> = releases
        .iter()
        .map(|r| match r.artist.as_str() {
            "Lost" => vec![],
            "Doom" => vec![archive("Doom", "Funeral Doom Metal")],
            name => vec![archive(name, "Melodic Death Metal")],
        })
        .collect();
    enrich_with_metallum(releases, &found);
    set_skip_metallum_on(config, releases, today());
}

#[test]
fn processed_release_is_skipped_with_a_reason_or_enriched() {
    let mut config = Config::default();
    config.blacklisted_genre_keywords = vec!["core".to_string(), "doom".to_string()];
    config.whitelisted_genre_keywords = vec!["death".to_string()];
    config.releases = vec![
        draft(4, "Yesterday"),
        draft(5, "Wolfheart"),
        draft(5, "Nobody"),
        draft(5, "Tiny"),
        draft(5, "Core"),
        draft(5, "Lost"),
        draft(5, "Doom"),
        draft(6, "Tomorrow"),
    ];
    let mut releases = releases_on(&config.releases, today());
    assert_eq!(releases.len(), 6);
    process(&config, &mut releases);
    let skipped: Vec<(&str, Vec<&str>)> = releases
        .iter()
        .filter(|r| r.skip)
        .map(|r| (r.artist.as_str(), r.skip_reasons.iter().map(|s| s.as_str()).collect()))
        .collect();
    assert_eq!(
        skipped,
        vec![
            ("Nobody", vec!["no popularity data available"]),
            ("Tiny", vec!["follower count too low"]),
            ("Core", vec!["blacklisted genre keyword 'core' found in genre 'melodic metalcore'"]),
            ("Lost", vec!["no archive data available"]),
            ("Doom", vec!["blacklisted genre keyword 'doom' found in archive genre 'Funeral Doom Metal'"]),
        ]
    );
    for r in &releases {
        assert!(!r.skip || !r.skip_reasons.is_empty());
        assert!(r.skip || r.is_enriched());
    }
    assert!(!releases[0].skip);
    let once = releases.clone();
    process(&config, &mut releases);
    assert_eq!(releases, once);
    let mut history = config.releases.clone();
    merge_releases(&mut history, &releases);
    assert_eq!(history[0], draft(4, "Yesterday"));
    assert_eq!(history[7], draft(6, "Tomorrow"));
    assert_eq!(history[1..7], releases[..]);
    let merged = history.clone();
    merge_releases(&mut history, &releases);
    assert_eq!(history, merged);
    for r in &history {
        assert!(!r.skip || !r.skip_reasons.is_empty());
    }
}
