use metalpal::config::{
    ask_question_multi, clone_metallum, clone_spotify, full_path, read_answer, setup_cli,
    setup_interactive, Config, MetallumSearchResponse, Release, SpotifyArtistInfo, CLI,
    CONFIG_FILE,
};
use metalpal::date::{Date, Timestamp};

fn words(items: &[&str]) -> Vec<String> {
    items.iter().map(|s| s.to_string()).collect()
}

fn epoch() -> Timestamp {
    Timestamp { secs: 0, nanos: 0 }
}

#[test]
fn default_configuration_is_empty() {
    let config = Config::default();
    assert_eq!(
        config,
        Config {
            full_path: "".to_string(),
            last_update: epoch(),
            releases: vec![],
            slack_channels: vec![],
            slack_bot_token: "".to_string(),
            spotify_client_id: "".to_string(),
            spotify_client_secret: "".to_string(),
            whitelisted_genre_keywords: vec![],
            blacklisted_genre_keywords: vec![],
        }
    );
}

#[test]
fn command_line_gives_the_configuration() {
    let cli = CLI {
        debug: true,
        spotify_client_id: "id".to_string(),
        spotify_client_secret: "SECRET-REDACTED".to_string(),
        slack_token: "token".to_string(),
        slack_channels: words(&["#metal", "#releases"]),
        whitelisted_genre_keywords: words(&["metal"]),
        blacklisted_genre_keywords: words(&["core", "black"]),
        config_path: ".metalpal.json".to_string(),
        interactive: false,
        disable_slack: true,
    };
    let config = setup_cli(&cli).unwrap();
    assert_eq!(
        config,
        Config {
            full_path: ".metalpal.json".to_string(),
            last_update: epoch(),
            releases: vec![],
            slack_channels: words(&["#metal", "#releases"]),
            slack_bot_token: "token".to_string(),
            spotify_client_id: "id".to_string(),
            spotify_client_secret: "SECRET-REDACTED".to_string(),
            whitelisted_genre_keywords: words(&["metal"]),
            blacklisted_genre_keywords: words(&["core", "black"]),
        }
    );
}

#[test]
fn answers_give_the_configuration() {
    let config = setup_interactive(
        "id".to_string(),
        "SECRET-REDACTED".to_string(),
        "".to_string(),
        "#metal, #releases",
        "",
        "core,black , pop punk",
    )
    .unwrap();
    assert_eq!(
        config,
        Config {
            full_path: "".to_string(),
            last_update: epoch(),
            releases: vec![],
            slack_channels: words(&["#metal", "#releases"]),
            slack_bot_token: "".to_string(),
            spotify_client_id: "id".to_string(),
            spotify_client_secret: "SECRET-REDACTED".to_string(),
            whitelisted_genre_keywords: vec![],
            blacklisted_genre_keywords: words(&["core", "black", "poppunk"]),
        }
    );
}

#[test]
fn listed_answer_is_taken_apart_at_its_commas() {
    assert_eq!(ask_question_multi(""), Vec::<String>::new());
    assert_eq!(ask_question_multi("metal"), words(&["metal"]));
    assert_eq!(ask_question_multi("a, b,c"), words(&["a", "b", "c"]));
    assert_eq!(ask_question_multi("a,,b,"), words(&["a", "", "b", ""]));
    assert_eq!(ask_question_multi(" "), words(&[""]));
    assert_eq!(ask_question_multi("death metal"), words(&["deathmetal"]));
}

#[test]
fn required_answer_must_hold_something() {
    assert_eq!(read_answer("  id \n", true), Some("id".to_string()));
    assert_eq!(read_answer("\n", true), None);
    assert_eq!(read_answer("   \t\r\n", true), None);
    assert_eq!(read_answer("", true), None);
    assert_eq!(read_answer("\n", false), Some("".to_string()));
    assert_eq!(read_answer(" a b \n", false), Some("a b".to_string()));
}

#[test]
fn configuration_file_lies_in_the_home_directory() {
    assert_eq!(full_path("/home/user"), "/home/user/.metalpal.json");
    assert_eq!(full_path(""), "/.metalpal.json");
    assert_eq!(CONFIG_FILE, ".metalpal.json");
}

#[test]
fn release_starts_as_a_draft_and_collects_reasons() {
    let date = Date { year: 2024, month: 1, day: 5 };
    let mut release =
        Release::draft(date, "Wolfheart".to_string(), "Skull Soup".to_string(), "Napalm".to_string());
    assert_eq!(
        release,
        Release {
            date,
            artist: "Wolfheart".to_string(),
            album: "Skull Soup".to_string(),
            label: "Napalm".to_string(),
            skip: false,
            skip_reasons: vec![],
            spotify: None,
            metallum: None,
        }
    );
    assert!(!release.is_enriched());
    release.mark_skipped("first".to_string());
    release.mark_skipped("second".to_string());
    assert!(release.skip);
    assert_eq!(release.skip_reasons, vec!["first", "second"]);
    let copy = release.clone();
    assert_eq!(copy, release);
}

#[test]
fn copies_are_equal_to_what_was_copied() {
    let info = SpotifyArtistInfo {
        id: "id".to_string(),
        url: "url".to_string(),
        genres: words(&["a", "b"]),
        popularity: -3,
        followers: 12,
    };
    assert_eq!(info.clone(), info);
    assert_eq!(clone_spotify(&Some(info.clone())), Some(info));
    assert_eq!(clone_spotify(&None), None);
    assert_eq!(clone_metallum(&None), None);
    let response = MetallumSearchResponse {
        aa_data: vec![("a".to_string(), "b".to_string(), "c".to_string())],
    };
    assert_eq!(response.aa_data.len(), 1);
}
