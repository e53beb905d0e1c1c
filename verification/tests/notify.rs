use metalpal::config::{Config, MetallumArtistInfo, Release, SpotifyArtistInfo};
use metalpal::date::Date;
use metalpal::display::{can_display, display, interesting_releases, make_table, write_title, Table};
use metalpal::slack::{
    can_post, ends_run, make_field, write_opening, write_release_message, Attachment,
    AttachmentField, Message, SinkFailure, Slack,
};

fn release(artist: &str, followers: i64) -> Release {
    let mut r = Release::draft(
        Date { year: 2024, month: 1, day: 5 },
        artist.to_string(),
        "Album".to_string(),
        "Label".to_string(),
    );
    r.spotify = Some(SpotifyArtistInfo {
        id: format!("id-{}", artist),
        url: "https://api.spotify.com/v1/artists/x".to_string(),
        genres: vec!["melodic death metal".to_string(), "finnish metal".to_string()],
        popularity: 45,
        followers,
    });
    r.metallum = Some(MetallumArtistInfo {
        name: artist.to_string(),
        url: format!("https://archive/{}", artist),
        description_short: "bio".to_string(),
        description_long: "".to_string(),
        country_origin: "Finland".to_string(),
        locations: "Lahti".to_string(),
        years_active: "2013-present".to_string(),
        formed_in: "2013".to_string(),
        genre: "Melodic Death Metal".to_string(),
        themes: "Winter".to_string(),
        img_url: format!("https://archive/{}.jpg", artist),
        status: "Active".to_string(),
        last_label: "Napalm Records".to_string(),
    });
    r
}

fn skipped(artist: &str) -> Release {
    let mut r = Release::draft(
        Date { year: 2024, month: 1, day: 5 },
        artist.to_string(),
        "Album".to_string(),
        "Label".to_string(),
    );
    r.mark_skipped("no popularity data available".to_string());
    r
}

fn row(name: &str, value: &str) -> (String, String) {
    (name.to_string(), value.to_string())
}

fn field(title: &str, value: &str) -> AttachmentField {
    AttachmentField { title: title.to_string(), value: value.to_string(), short: true }
}

fn sink(channels: &[&str]) -> Slack {
    let mut config = Config::default();
    config.slack_bot_token = "token".to_string();
    config.slack_channels = channels.iter().map(|c| c.to_string()).collect();
    Slack::new(&config)
}

fn message_on(channel: &str, place: usize, artist: &str, followers: &str) -> Message {
    Message {
        channel: channel.to_string(),
        text: None,
        attachment: Some(Attachment {
            color: "#36a64f".to_string(),
            title: format!("{}. {} - Album", place, artist),
            title_link: format!("https://archive/{}", artist),
            thumb_url: format!("https://archive/{}.jpg", artist),
            fields: vec![
                field("Release Date", "2024-01-05"),
                field("Genres", "Melodic Death Metal"),
                field("Country", "Finland"),
                field("Spotify Popularity", "45"),
                field("Spotify Followers", followers),
                field("Spotify Artist ID", &format!("id-{}", artist)),
            ],
            footer: "Metalpal".to_string(),
            footer_icon: "https://emojis.slackmojis.com/emojis/images/1648645351/56886/metal.png?1648645351".to_string(),
            ts: 1704412800,
        }),
    }
}

fn opening_on(channel: &str, count: usize) -> Message {
    Message {
        channel: channel.to_string(),
        text: Some(format!(":tada: There are *{}* releases today! :tada:", count)),
        attachment: None,
    }
}

#[test]
fn tables_show_the_most_followed_first() {
    let releases = vec![
        release("Small", 2000),
        skipped("Gone"),
        release("Huge", 150000),
        release("Edge", 100000),
        release("Also small", 2000),
    ];
    assert!(can_display(&releases));
    let tables = display(&releases).unwrap();
    let titles: Vec<&str> = tables.iter().map(|t| t.title.as_str()).collect();
    assert_eq!(
        titles,
        vec![
            "\u{1f525} 1. Huge - Album \u{1f525}",
            "2. Edge - Album",
            "3. Small - Album",
            "4. Also small - Album",
        ]
    );
    assert_eq!(
        tables[0],
        Table {
            title: "\u{1f525} 1. Huge - Album \u{1f525}".to_string(),
            rows: vec![
                row("Metallum URL", "https://archive/Huge"),
                row("Metallum Genre", "Melodic Death Metal"),
                row("Metallum Origin Country", "Finland"),
                row("Spotify Genres", "melodic death metal, finnish metal"),
                row("Spotify ID", "id-Huge"),
                row("Spotify Popularity", "45"),
                row("Spotify Followers", "150000"),
            ],
        }
    );
    let order: Vec<String> = interesting_releases(&releases).into_iter().map(|r| r.artist).collect();
    assert_eq!(order, vec!["Huge", "Edge", "Small", "Also small"]);
}

#[test]
fn nothing_to_show_gives_no_table() {
    assert_eq!(display(&vec![]), Some(vec![]));
    assert_eq!(display(&vec![skipped("a"), skipped("b")]), Some(vec![]));
    assert!(can_display(&vec![skipped("a")]));
}

#[test]
fn shown_release_without_metadata_cannot_be_displayed() {
    let mut bare = release("Bare", 5000);
    bare.metallum = None;
    assert!(!can_display(&vec![release("Fine", 1), bare.clone()]));
    assert_eq!(display(&vec![release("Fine", 1), bare.clone()]), None);
    assert_eq!(make_table(1, &bare), None);
    assert_eq!(write_release_message("#metal", 1, &bare, 0), None);
    assert_eq!(sink(&["#metal"]).post_releases(&vec![bare.clone()], 0), None);
    assert_eq!(sink(&[]).post_releases(&vec![skipped("Gone")], 0), None);
    let order: Vec<String> = interesting_releases(&vec![release("Fine", 1), bare.clone()])
        .into_iter()
        .map(|r| r.artist)
        .collect();
    assert_eq!(order, vec!["Bare", "Fine"]);
    assert!(!can_post(&vec![release("Fine", 1), bare]));
    assert!(!can_post(&vec![skipped("Gone")]));
    assert!(can_post(&vec![]));
    assert!(can_post(&vec![release("Fine", 1)]));
}

#[test]
fn title_is_numbered_and_hot_above_the_threshold() {
    assert_eq!(write_title(12, &release("A", 100001)), "\u{1f525} 12. A - Album \u{1f525}");
    assert_eq!(write_title(1, &release("A", 100000)), "1. A - Album");
    assert_eq!(write_title(0, &skipped("B")), "0. B - Album");
    assert_eq!(
        make_table(3, &release("A", -5)).unwrap().rows[6],
        row("Spotify Followers", "-5")
    );
}

#[test]
fn sink_is_the_one_the_configuration_names() {
    let slack = sink(&["#metal", "#releases"]);
    assert_eq!(
        slack,
        Slack {
            token: "token".to_string(),
            channels: vec!["#metal".to_string(), "#releases".to_string()],
        }
    );
    assert_eq!(Slack::new(&Config::default()), Slack { token: "".to_string(), channels: vec![] });
}

#[test]
fn messages_go_channel_after_channel() {
    let releases = vec![release("Huge", 150000), release("Small", 2000)];
    let messages = sink(&["#metal", "#releases"]).post_releases(&releases, 1704412800);
    assert_eq!(
        messages.unwrap(),
        vec![
            opening_on("#metal", 2),
            message_on("#metal", 1, "Huge", "150000"),
            message_on("#metal", 2, "Small", "2000"),
            opening_on("#releases", 2),
            message_on("#releases", 1, "Huge", "150000"),
            message_on("#releases", 2, "Small", "2000"),
        ]
    );
}

#[test]
fn no_channel_gets_no_message_and_no_release_gets_the_opening() {
    assert_eq!(sink(&[]).post_releases(&vec![release("Huge", 150000)], 0), Some(vec![]));
    assert_eq!(
        sink(&["#metal"]).post_releases(&vec![], 0),
        Some(vec![opening_on("#metal", 0)])
    );
}

#[test]
fn single_messages_are_written() {
    assert_eq!(write_opening("#metal", 10), opening_on("#metal", 10));
    assert_eq!(
        write_release_message("#metal", 7, &release("Huge", 150000), 1704412800),
        Some(message_on("#metal", 7, "Huge", "150000"))
    );
    assert_eq!(make_field("Genres", "Doom".to_string()), field("Genres", "Doom"));
}

#[test]
fn only_a_failure_to_parse_the_answer_is_swallowed() {
    assert!(!ends_run(SinkFailure::ResponseParsing));
    assert!(ends_run(SinkFailure::Other));
}
