//! The data the pipeline works on: releases, their metadata from the two
//! catalogs, and the configuration of a run.

use crate::date::{Date, Timestamp};
use crate::error::AppError;
use crate::text::{append, remove_char, split, split_str, trim, trimmed, without_char};
use vstd::prelude::*;

verus! {

/// Name of the configuration file inside the home directory.
pub const CONFIG_FILE: &'static str = ".metalpal.json";

/// The command-line surface, as plain values.
#[derive(Debug, PartialEq, Eq)]
pub struct CLI {
    pub debug: bool,
    pub spotify_client_id: String,
    pub spotify_client_secret: String,
    pub slack_token: String,
    pub slack_channels: Vec<String>,
    pub whitelisted_genre_keywords: Vec<String>,
    pub blacklisted_genre_keywords: Vec<String>,
    pub config_path: String,
    pub interactive: bool,
    pub disable_slack: bool,
}

/// What a run is configured with, and the releases seen so far.
#[derive(Debug, PartialEq, Eq)]
pub struct Config {
    pub full_path: String,
    pub last_update: Timestamp,
    pub releases: Vec<Release>,
    pub slack_channels: Vec<String>,
    pub slack_bot_token: String,
    pub spotify_client_id: String,
    pub spotify_client_secret: String,
    pub whitelisted_genre_keywords: Vec<String>,
    pub blacklisted_genre_keywords: Vec<String>,
}

/// Metadata from the popularity catalog.
#[derive(Debug, PartialEq, Eq)]
pub struct SpotifyArtistInfo {
    pub id: String,
    pub url: String,
    pub genres: Vec<String>,
    pub popularity: i64,
    pub followers: i64,
}

/// The mathematical value of a `SpotifyArtistInfo`.
pub struct SpotifyArtistInfoView {
    pub id: Seq<char>,
    pub url: Seq<char>,
    pub genres: Seq<Seq<char>>,
    pub popularity: int,
    pub followers: int,
}

impl View for SpotifyArtistInfo {
    type V = SpotifyArtistInfoView;

    open spec fn view(&self) -> SpotifyArtistInfoView {
        SpotifyArtistInfoView {
            id: self.id@,
            url: self.url@,
            genres: self.genres.deep_view(),
            popularity: self.popularity as int,
            followers: self.followers as int,
        }
    }
}

impl DeepView for SpotifyArtistInfo {
    type V = SpotifyArtistInfoView;

    open spec fn deep_view(&self) -> SpotifyArtistInfoView {
        self@
    }
}

impl Clone for SpotifyArtistInfo {
    fn clone(&self) -> (r: Self)
        ensures
            r@ == self@,
    {
        SpotifyArtistInfo {
            id: self.id.clone(),
            url: self.url.clone(),
            genres: self.genres.clone(),
            popularity: self.popularity,
            followers: self.followers,
        }
    }
}

/// Metadata from the archive catalog.
#[derive(Debug, PartialEq, Eq)]
pub struct MetallumArtistInfo {
    pub name: String,
    pub url: String,
    pub description_short: String,
    pub description_long: String,
    pub country_origin: String,
    pub locations: String,
    pub years_active: String,
    pub formed_in: String,
    pub genre: String,
    pub themes: String,
    pub img_url: String,
    pub status: String,
    pub last_label: String,
}

/// The mathematical value of a `MetallumArtistInfo`.
pub struct MetallumArtistInfoView {
    pub name: Seq<char>,
    pub url: Seq<char>,
    pub description_short: Seq<char>,
    pub description_long: Seq<char>,
    pub country_origin: Seq<char>,
    pub locations: Seq<char>,
    pub years_active: Seq<char>,
    pub formed_in: Seq<char>,
    pub genre: Seq<char>,
    pub themes: Seq<char>,
    pub img_url: Seq<char>,
    pub status: Seq<char>,
    pub last_label: Seq<char>,
}

impl View for MetallumArtistInfo {
    type V = MetallumArtistInfoView;

    open spec fn view(&self) -> MetallumArtistInfoView {
        MetallumArtistInfoView {
            name: self.name@,
            url: self.url@,
            description_short: self.description_short@,
            description_long: self.description_long@,
            country_origin: self.country_origin@,
            locations: self.locations@,
            years_active: self.years_active@,
            formed_in: self.formed_in@,
            genre: self.genre@,
            themes: self.themes@,
            img_url: self.img_url@,
            status: self.status@,
            last_label: self.last_label@,
        }
    }
}

impl DeepView for MetallumArtistInfo {
    type V = MetallumArtistInfoView;

    open spec fn deep_view(&self) -> MetallumArtistInfoView {
        self@
    }
}

impl Clone for MetallumArtistInfo {
    fn clone(&self) -> (r: Self)
        ensures
            r@ == self@,
    {
        MetallumArtistInfo {
            name: self.name.clone(),
            url: self.url.clone(),
            description_short: self.description_short.clone(),
            description_long: self.description_long.clone(),
            country_origin: self.country_origin.clone(),
            locations: self.locations.clone(),
            years_active: self.years_active.clone(),
            formed_in: self.formed_in.clone(),
            genre: self.genre.clone(),
            themes: self.themes.clone(),
            img_url: self.img_url.clone(),
            status: self.status.clone(),
            last_label: self.last_label.clone(),
        }
    }
}

/// What the archive's search answers: for each candidate the markup of its
/// name with the link to its page, its genre and its country.
#[derive(Debug, PartialEq, Eq)]
pub struct MetallumSearchResponse {
    pub aa_data: Vec<(String, String, String)>,
}

/// A release, from the draft read off the calendar to the enriched and
/// filtered record. Within a run it is identified by artist and album,
/// compared character for character.
#[derive(Debug, PartialEq, Eq)]
pub struct Release {
    pub date: Date,
    pub artist: String,
    pub album: String,
    pub label: String,
    pub skip: bool,
    pub skip_reasons: Vec<String>,
    pub spotify: Option<SpotifyArtistInfo>,
    pub metallum: Option<MetallumArtistInfo>,
}

/// The mathematical value of a `Release`.
pub struct ReleaseView {
    pub date: Date,
    pub artist: Seq<char>,
    pub album: Seq<char>,
    pub label: Seq<char>,
    pub skip: bool,
    pub skip_reasons: Seq<Seq<char>>,
    pub spotify: Option<SpotifyArtistInfoView>,
    pub metallum: Option<MetallumArtistInfoView>,
}

impl ReleaseView {
    /// A skipped release carries at least one reason.
    pub open spec fn is_consistent(&self) -> bool {
        self.skip ==> self.skip_reasons.len() > 0
    }

    /// The two releases are the same release: same artist, same album.
    pub open spec fn same_release(&self, other: &ReleaseView) -> bool {
        self.artist == other.artist && self.album == other.album
    }

    /// The release carries the metadata of both catalogs.
    pub open spec fn is_enriched(&self) -> bool {
        self.spotify is Some && self.metallum is Some
    }

    /// The release is shown to the user: it is not skipped.
    pub open spec fn is_shown(&self) -> bool {
        !self.skip
    }

    /// `self` marked as skipped, with `reason` appended to its reasons.
    pub open spec fn skipped_for(self, reason: Seq<char>) -> ReleaseView {
        ReleaseView { skip: true, skip_reasons: self.skip_reasons.push(reason), ..self }
    }
}

impl View for Release {
    type V = ReleaseView;

    open spec fn view(&self) -> ReleaseView {
        ReleaseView {
            date: self.date,
            artist: self.artist@,
            album: self.album@,
            label: self.label@,
            skip: self.skip,
            skip_reasons: self.skip_reasons.deep_view(),
            spotify: self.spotify.deep_view(),
            metallum: self.metallum.deep_view(),
        }
    }
}

impl DeepView for Release {
    type V = ReleaseView;

    open spec fn deep_view(&self) -> ReleaseView {
        self@
    }
}

impl Clone for Release {
    fn clone(&self) -> (r: Self)
        ensures
            r@ == self@,
    {
        Release {
            date: self.date,
            artist: self.artist.clone(),
            album: self.album.clone(),
            label: self.label.clone(),
            skip: self.skip,
            skip_reasons: self.skip_reasons.clone(),
            spotify: clone_spotify(&self.spotify),
            metallum: clone_metallum(&self.metallum),
        }
    }
}

impl Release {
    /// A draft as the calendar gives it: no metadata, not skipped.
    pub fn draft(date: Date, artist: String, album: String, label: String) -> (r: Release)
        ensures
            r@ == draft_view(date, artist@, album@, label@),
    {
        let skip_reasons: Vec<String> = Vec::new();
        assert(skip_reasons.deep_view() =~= Seq::<Seq<char>>::empty());
        Release {
            date,
            artist,
            album,
            label,
            skip: false,
            skip_reasons,
            spotify: None,
            metallum: None,
        }
    }

    /// Whether the release carries the metadata of both catalogs.
    pub fn is_enriched(&self) -> (r: bool)
        ensures
            r == self@.is_enriched(),
    {
        self.spotify.is_some() && self.metallum.is_some()
    }

    /// Marks the release as skipped and records why. The flag is never taken
    /// back and earlier reasons stay.
    pub fn mark_skipped(&mut self, reason: String)
        ensures
            final(self)@ == old(self)@.skipped_for(reason@),
            final(self)@.is_consistent(),
    {
        let ghost before = self.skip_reasons.deep_view();
        self.skip = true;
        self.skip_reasons.push(reason);
        assert(self.skip_reasons.deep_view() =~= before.push(reason@));
    }
}

/// The value of a fresh draft.
pub open spec fn draft_view(
    date: Date,
    artist: Seq<char>,
    album: Seq<char>,
    label: Seq<char>,
) -> ReleaseView {
    ReleaseView {
        date,
        artist,
        album,
        label,
        skip: false,
        skip_reasons: Seq::empty(),
        spotify: None,
        metallum: None,
    }
}

/// A copy of optional popularity metadata.
pub fn clone_spotify(info: &Option<SpotifyArtistInfo>) -> (r: Option<SpotifyArtistInfo>)
    ensures
        r.deep_view() == info.deep_view(),
{
    match info {
        Some(i) => Some(i.clone()),
        None => None,
    }
}

/// A copy of optional archive metadata.
pub fn clone_metallum(info: &Option<MetallumArtistInfo>) -> (r: Option<MetallumArtistInfo>)
    ensures
        r.deep_view() == info.deep_view(),
{
    match info {
        Some(i) => Some(i.clone()),
        None => None,
    }
}

impl Default for Config {
    /// The configuration before anything has been set: every text and every
    /// list empty, the last update at the start of the epoch.
    fn default() -> (r: Self)
        ensures
            r.full_path@.len() == 0,
            r.last_update == (Timestamp { secs: 0, nanos: 0 }),
            r.releases@.len() == 0,
            r.slack_channels@.len() == 0,
            r.slack_bot_token@.len() == 0,
            r.spotify_client_id@.len() == 0,
            r.spotify_client_secret@.len() == 0,
            r.whitelisted_genre_keywords@.len() == 0,
            r.blacklisted_genre_keywords@.len() == 0,
    {
        Config {
            full_path: String::new(),
            last_update: Timestamp { secs: 0, nanos: 0 },
            releases: Vec::new(),
            slack_channels: Vec::new(),
            slack_bot_token: String::new(),
            spotify_client_id: String::new(),
            spotify_client_secret: String::new(),
            whitelisted_genre_keywords: Vec::new(),
            blacklisted_genre_keywords: Vec::new(),
        }
    }
}

/// The path of the configuration file in the home directory `home_dir`.
pub open spec fn config_path(home_dir: Seq<char>) -> Seq<char> {
    home_dir + "/"@ + CONFIG_FILE@
}

/// The items of an answer that lists them between commas. Blanks do not
/// count, and an empty answer lists nothing.
pub open spec fn listed_items(answer: Seq<char>) -> Seq<Seq<char>> {
    if answer.len() == 0 {
        Seq::empty()
    } else {
        split(without_char(answer, ' '), ","@)
    }
}

/// What is made of a line that was typed in answer to a question: the line
/// without the white space around it, or `None` where the question has to
/// be asked again because an answer is required and the line holds none.
pub open spec fn answer_of(input: Seq<char>, required: bool) -> Option<Seq<char>> {
    if required && trimmed(input).len() == 0 {
        None
    } else {
        Some(trimmed(input))
    }
}

/// The path of the configuration file in the home directory `home_dir`.
pub fn full_path(home_dir: &str) -> (r: String)
    ensures
        r@ == config_path(home_dir@),
{
    let dir = append(home_dir, "/");
    append(dir.as_str(), CONFIG_FILE)
}

/// The configuration that the command line gives: no releases yet, the
/// last update at the start of the epoch. Never fails.
pub fn setup_cli(cli: &CLI) -> (r: Result<Config, AppError>)
    ensures
        r matches Ok(config) && {
            &&& config.full_path@ == cli.config_path@
            &&& config.last_update == (Timestamp { secs: 0, nanos: 0 })
            &&& config.releases@.len() == 0
            &&& config.slack_channels.deep_view() == cli.slack_channels.deep_view()
            &&& config.slack_bot_token@ == cli.slack_token@
            &&& config.spotify_client_id@ == cli.spotify_client_id@
            &&& config.spotify_client_secret@ == cli.spotify_client_secret@
            &&& config.whitelisted_genre_keywords.deep_view()
                == cli.whitelisted_genre_keywords.deep_view()
            &&& config.blacklisted_genre_keywords.deep_view()
                == cli.blacklisted_genre_keywords.deep_view()
        },
{
    Ok(
        Config {
            full_path: cli.config_path.clone(),
            last_update: Timestamp { secs: 0, nanos: 0 },
            releases: Vec::new(),
            slack_channels: cli.slack_channels.clone(),
            slack_bot_token: cli.slack_token.clone(),
            spotify_client_id: cli.spotify_client_id.clone(),
            spotify_client_secret: cli.spotify_client_secret.clone(),
            whitelisted_genre_keywords: cli.whitelisted_genre_keywords.clone(),
            blacklisted_genre_keywords: cli.blacklisted_genre_keywords.clone(),
        },
    )
}

/// Makes of a typed line the answer to a question, or `None` where the
/// question has to be asked again.
pub fn read_answer(input: &str, required: bool) -> (r: Option<String>)
    ensures
        r.deep_view() == answer_of(input@, required),
{
    let answer = trim(input);
    if required && answer.as_str().is_empty() {
        None
    } else {
        Some(answer)
    }
}

/// The items of an answer that lists them between commas.
pub fn ask_question_multi(answer: &str) -> (r: Vec<String>)
    ensures
        r.deep_view() == listed_items(answer@),
{
    if answer.is_empty() {
        let r: Vec<String> = Vec::new();
        assert(r.deep_view() =~= Seq::<Seq<char>>::empty());
        return r;
    }
    let dense = remove_char(answer, ' ');
    split_str(dense.as_str(), ",")
}

/// The configuration that the answers of the interactive setup give. The
/// three lists are taken apart at their commas.
pub fn setup_interactive(
    spotify_client_id: String,
    spotify_client_secret: String,
    slack_bot_token: String,
    slack_channels: &str,
    whitelisted_genre_keywords: &str,
    blacklisted_genre_keywords: &str,
) -> (r: Result<Config, AppError>)
    ensures
        r matches Ok(config) && {
            &&& config.full_path@.len() == 0
            &&& config.last_update == (Timestamp { secs: 0, nanos: 0 })
            &&& config.releases@.len() == 0
            &&& config.slack_channels.deep_view() == listed_items(slack_channels@)
            &&& config.slack_bot_token@ == slack_bot_token@
            &&& config.spotify_client_id@ == spotify_client_id@
            &&& config.spotify_client_secret@ == spotify_client_secret@
            &&& config.whitelisted_genre_keywords.deep_view() == listed_items(
                whitelisted_genre_keywords@,
            )
            &&& config.blacklisted_genre_keywords.deep_view() == listed_items(
                blacklisted_genre_keywords@,
            )
        },
{
    let mut config = Config::default();
    config.spotify_client_id = spotify_client_id;
    config.spotify_client_secret = spotify_client_secret;
    config.slack_bot_token = slack_bot_token;
    config.slack_channels = ask_question_multi(slack_channels);
    config.whitelisted_genre_keywords = ask_question_multi(whitelisted_genre_keywords);
    config.blacklisted_genre_keywords = ask_question_multi(blacklisted_genre_keywords);
    Ok(config)
}

} // verus!
