use metalpal::date::Date;
use metalpal::release::calendar::{
    clean_label, extract_releases, get_releases, parse_releases, release_from_groups,
    sort_by_date,
};
use metalpal::config::Release;

fn day(year: i32, month: u32, day: u32) -> Date {
    Date { year, month, day }
}

fn draft(date: Date, artist: &str, album: &str, label: &str) -> Release {
    Release::draft(date, artist.to_string(), album.to_string(), label.to_string())
}

#[test]
fn block_with_one_release_gives_one_draft() {
    let html = "<p><strong>January 5, 2024</strong>Wolfheart - <em>Skull Soup</em> (Napalm)<br></p>";
    let drafts = parse_releases(html).unwrap();
    assert_eq!(drafts.len(), 1);
    assert_eq!(drafts[0].date, day(2024, 1, 5));
    assert_eq!(drafts[0].artist, "Wolfheart");
    assert_eq!(drafts[0].album, "Skull Soup");
    assert_eq!(drafts[0].label, "Napalm");
    assert!(!drafts[0].skip);
    assert!(drafts[0].skip_reasons.is_empty());
    assert!(drafts[0].spotify.is_none());
    assert!(drafts[0].metallum.is_none());
}

#[test]
fn block_with_line_break_after_date() {
    let html = "<p><strong>March 17, 2023</strong><br>Babymetal - <em>The Other One</em> (Capitol)<br>Entheos - <em>Time Will Take Us All</em> (Metal Blade)<br>not a release line<br>Kamelot - <em>The Awakening</em> (Napalm)</p>";
    let drafts = parse_releases(html).unwrap();
    assert_eq!(
        drafts,
        vec![
            draft(day(2023, 3, 17), "Babymetal", "The Other One", "Capitol"),
            draft(day(2023, 3, 17), "Entheos", "Time Will Take Us All", "Metal Blade"),
            draft(day(2023, 3, 17), "Kamelot", "The Awakening", "Napalm"),
        ]
    );
}

#[test]
fn block_without_date_gives_nothing() {
    let html = "<p><strong>Coming soon</strong><br>Wolfheart - <em>Skull Soup</em> (Napalm)</p>";
    assert_eq!(parse_releases(html).unwrap(), vec![]);
    assert_eq!(parse_releases("").unwrap(), vec![]);
    assert_eq!(parse_releases("<p>January 5, 2024</p>").unwrap(), vec![]);
}

#[test]
fn block_with_impossible_date_gives_nothing() {
    let html = "<p><strong>Smarch 5, 2024</strong><br>Wolfheart - <em>Skull Soup</em> (Napalm)</p>";
    assert_eq!(parse_releases(html).unwrap(), vec![]);
    let html = "<p><strong>February 31, 2024</strong><br>Wolfheart - <em>Skull Soup</em> (Napalm)</p>";
    assert_eq!(parse_releases(html).unwrap(), vec![]);
}

#[test]
fn label_loses_its_parentheses() {
    assert_eq!(clean_label("Napalm"), "Napalm");
    assert_eq!(clean_label("(Napalm (US)"), "Napalm US");
    assert_eq!(clean_label("()"), "");
    let html = "<p><strong>January 5, 2024</strong><br>Saxon - <em>Hell, Fire and Damnation</em> (Silver Lining (UK))</p>";
    let drafts = parse_releases(html).unwrap();
    assert_eq!(drafts.len(), 1);
    assert_eq!(drafts[0].label, "Silver Lining UK");
}

#[test]
fn groups_of_any_other_number_give_no_draft() {
    let three = vec![Some("a - <em>b</em> (c)".to_string()), Some("a".to_string()), Some("b".to_string())];
    assert_eq!(release_from_groups(day(2024, 1, 5), &three), None);
    let four = vec![
        Some("a - <em>b</em> (c)".to_string()),
        Some("a".to_string()),
        None,
        Some("(c".to_string()),
    ];
    assert_eq!(
        release_from_groups(day(2024, 1, 5), &four),
        Some(draft(day(2024, 1, 5), "a", "", "c"))
    );
}

#[test]
fn drafts_are_sorted_by_date_and_keep_line_order() {
    let blocks = vec![
        "<p><strong>January 12, 2024</strong><br>B - <em>Two</em> (L2)<br>C - <em>Three</em> (L3)</p>".to_string(),
        "<p>Some text between the days</p>".to_string(),
        "<p><strong>January 5, 2024</strong><br>A - <em>One</em> (L1)</p>".to_string(),
        "<p><strong>TBA</strong><br>X - <em>Unknown</em> (L0)</p>".to_string(),
        "<p><strong>January 12, 2024</strong><br>D - <em>Four</em> (L4)</p>".to_string(),
    ];
    let drafts = extract_releases(&blocks).unwrap();
    assert_eq!(
        drafts,
        vec![
            draft(day(2024, 1, 5), "A", "One", "L1"),
            draft(day(2024, 1, 12), "B", "Two", "L2"),
            draft(day(2024, 1, 12), "C", "Three", "L3"),
            draft(day(2024, 1, 12), "D", "Four", "L4"),
        ]
    );
}

#[test]
fn sort_by_date_is_stable() {
    let releases = vec![
        draft(day(2024, 2, 1), "a", "1", "l"),
        draft(day(2023, 12, 31), "b", "2", "l"),
        draft(day(2024, 2, 1), "c", "3", "l"),
        draft(day(2024, 1, 31), "d", "4", "l"),
        draft(day(2023, 12, 31), "e", "5", "l"),
    ];
    let sorted = sort_by_date(&releases);
    let artists: Vec<&str> = sorted.iter().map(|r| r.artist.as_str()).collect();
    assert_eq!(artists, vec!["b", "e", "d", "a", "c"]);
}

#[test]
fn page_gives_the_drafts_of_its_day_blocks() {
    let page = "<html><body><div class=\"pod-content\">\
        <p>Intro text</p>\
        <p><strong>January 5, 2024</strong><br>Wolfheart - <em>Skull Soup</em> (Napalm)</p>\
        <p><strong>January 12, 2024</strong><br>Saxon - <em>Hell, Fire and Damnation</em> (Silver Lining)<br>Exit Eden - <em>Femmes Fatales</em> (Napalm)</p>\
        </div><div class=\"other\"><p><strong>January 1, 2024</strong><br>No - <em>Nope</em> (None)</p></div></body></html>";
    let drafts = get_releases(page).unwrap();
    assert_eq!(
        drafts,
        vec![
            draft(day(2024, 1, 5), "Wolfheart", "Skull Soup", "Napalm"),
            draft(day(2024, 1, 12), "Saxon", "Hell, Fire and Damnation", "Silver Lining"),
            draft(day(2024, 1, 12), "Exit Eden", "Femmes Fatales", "Napalm"),
        ]
    );
}

#[test]
fn page_without_day_blocks_gives_nothing() {
    assert_eq!(get_releases("<html><body><p>nothing</p></body></html>").unwrap(), vec![]);
    assert_eq!(get_releases("").unwrap(), vec![]);
}
