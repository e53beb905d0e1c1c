//! The archive catalog: reading a band's detail page, and the search for
//! the first candidate whose page can be read.

use crate::config::{MetallumArtistInfo, MetallumArtistInfoView, MetallumSearchResponse};
use crate::error::AppError;
use crate::html::{
    check_selector, document_matches, fragment_matches, nested_matches, select, select_fragment,
    select_within, selector_is_valid, text_without_tags, without_tags, Element, ElementView,
    MAX_STRIPPED_LEN,
};
use crate::text::{chars_of, append, decimal, find, find_chars, string_of_range, write_decimal};
use vstd::prelude::*;

verus! {

/// Where the archive answers a search for a band by name.
pub const SEARCH_URL: &'static str = "https://www.metal-archives.com/search/ajax-band-search";

/// The block of a detail page that holds the band's fields.
pub const BAND_STATS_SELECTOR: &'static str = "#band_info > #band_stats";

/// The fields inside that block.
pub const STAT_FIELDS_SELECTOR: &'static str = "dl > dd";

/// The block of a detail page that holds the band's biography.
pub const BAND_COMMENT_SELECTOR: &'static str = "div.band_comment";

/// The link around the band's picture.
pub const BAND_IMAGE_SELECTOR: &'static str = "#band_sidebar > div.band_img > a";

/// A link.
pub const LINK_SELECTOR: &'static str = "a";

/// The attribute of a link that holds its target.
pub const LINK_ATTRIBUTE: &'static str = "href";

/// What stands for the text of a link that is not there.
pub const NOT_AVAILABLE: &'static str = "N/A";

/// Number of fields a detail page must give.
pub const STAT_FIELD_COUNT: usize = 8;

/// Number of characters before the address in the markup of a candidate's
/// name, which opens with `<a href="`.
pub const LINK_OPENING_LEN: usize = 9;

/// The message for a page without the block of fields.
pub const NO_BAND_INFO: &'static str = "Could not find band info";

/// The message for a page without a biography.
pub const NO_BAND_DESCRIPTION: &'static str = "Could not find band description";

/// The message for a page whose biography is too long to be stripped.
pub const BAND_DESCRIPTION_TOO_LONG: &'static str = "Band description is too long";

/// The message for a page without the link around the band's picture.
pub const NO_BAND_IMAGE: &'static str = "Could not find band img";

/// The address in the markup of a candidate's name: what stands between its
/// first `LINK_OPENING_LEN` characters and the first `">`. `None` where
/// there is no `">`, or where it comes before the address could begin.
pub open spec fn artist_url(html: Seq<char>) -> Option<Seq<char>> {
    match find(html, "\">"@) {
        Some(end) => if LINK_OPENING_LEN <= end <= html.len() {
            Some(html.subrange(LINK_OPENING_LEN as int, end))
        } else {
            None
        },
        None => None,
    }
}

/// The text of the first link among `anchors`, or `default` where there is
/// none.
pub open spec fn link_text(anchors: Seq<ElementView>, default: Seq<char>) -> Seq<char> {
    if anchors.len() > 0 {
        anchors[0].inner_html
    } else {
        default
    }
}

/// The text of the first link in a piece of markup, `NOT_AVAILABLE` where
/// it has none.
pub open spec fn linked_text(markup: Seq<char>) -> Seq<char> {
    link_text(fragment_matches(markup, LINK_SELECTOR@, LINK_ATTRIBUTE@), NOT_AVAILABLE@)
}

/// The message for a block that gives `count` fields in place of
/// `STAT_FIELD_COUNT`.
pub open spec fn field_count_message(count: nat) -> Seq<char> {
    "Unexpected number of elements in band_info (expected 8, got "@ + decimal(count) + ")"@
}

/// The fields of a detail page, from the blocks that `BAND_STATS_SELECTOR`
/// matched: the markup inside each field of the first block, which must hold
/// exactly `STAT_FIELD_COUNT` of them. Otherwise the message that says what
/// is wrong.
pub open spec fn stat_fields(blocks: Seq<Seq<ElementView>>) -> Result<Seq<Seq<char>>, Seq<char>> {
    if blocks.len() == 0 {
        Err(NO_BAND_INFO@)
    } else if blocks[0].len() != STAT_FIELD_COUNT {
        Err(field_count_message(blocks[0].len()))
    } else {
        Ok(blocks[0].map_values(|field: ElementView| field.inner_html))
    }
}

/// `scraper` accepts every selector that reading a detail page takes.
pub open spec fn band_selectors_are_valid() -> bool {
    &&& selector_is_valid(BAND_STATS_SELECTOR@)
    &&& selector_is_valid(STAT_FIELDS_SELECTOR@)
    &&& selector_is_valid(LINK_SELECTOR@)
    &&& selector_is_valid(BAND_COMMENT_SELECTOR@)
    &&& selector_is_valid(BAND_IMAGE_SELECTOR@)
}

/// The address that the first of `images` links to, empty where that
/// element has no such attribute.
pub open spec fn image_url(images: Seq<ElementView>) -> Seq<char> {
    match images[0].attribute {
        Some(url) => url,
        None => Seq::empty(),
    }
}

/// What a detail page says of a band, or the message that says why it
/// cannot be read.
///
/// The page must give, in this order: a block of exactly
/// `STAT_FIELD_COUNT` fields (country of origin, location, status, formed
/// in, genre, lyrical themes, last label, years active); a biography, of
/// fewer than `MAX_STRIPPED_LEN` characters of markup; a link around the
/// band's picture. Country and label are the text of the link inside their
/// field, `NOT_AVAILABLE` without one. The biography is stripped of its
/// tags. The picture's address is empty where the link has none.
pub open spec fn band_info(
    artist_name: Seq<char>,
    artist_url: Seq<char>,
    document: Seq<char>,
) -> Result<MetallumArtistInfoView, Seq<char>> {
    let blocks = nested_matches(
        document,
        BAND_STATS_SELECTOR@,
        STAT_FIELDS_SELECTOR@,
        LINK_ATTRIBUTE@,
    );
    let comments = document_matches(document, BAND_COMMENT_SELECTOR@, LINK_ATTRIBUTE@);
    let images = document_matches(document, BAND_IMAGE_SELECTOR@, LINK_ATTRIBUTE@);
    match stat_fields(blocks) {
        Err(message) => Err(message),
        Ok(fields) => if comments.len() == 0 {
            Err(NO_BAND_DESCRIPTION@)
        } else if comments[0].inner_html.len() >= MAX_STRIPPED_LEN {
            Err(BAND_DESCRIPTION_TOO_LONG@)
        } else if images.len() == 0 {
            Err(NO_BAND_IMAGE@)
        } else {
            Ok(
                MetallumArtistInfoView {
                    name: artist_name,
                    url: artist_url,
                    description_short: without_tags(comments[0].inner_html),
                    description_long: Seq::empty(),
                    country_origin: linked_text(fields[0]),
                    locations: fields[1],
                    years_active: fields[7],
                    formed_in: fields[3],
                    genre: fields[4],
                    themes: fields[5],
                    img_url: image_url(images),
                    status: fields[2],
                    last_label: linked_text(fields[6]),
                },
            )
        },
    }
}

/// Reads the address of a candidate's page out of the markup of its name.
pub fn get_artist_url(html: &str) -> (r: Option<String>)
    ensures
        r.deep_view() == artist_url(html@),
{
    let text = chars_of(html);
    let mark = chars_of("\">");
    match find_chars(&text, &mark) {
        Some(end) => {
            if LINK_OPENING_LEN <= end && end <= text.len() {
                Some(string_of_range(&text, LINK_OPENING_LEN, end))
            } else {
                None
            }
        },
        None => None,
    }
}

/// The text of the first link among `anchors`, or `default` where there is
/// none.
pub fn first_link_text(anchors: &Vec<Element>, default: &str) -> (r: String)
    ensures
        r@ == link_text(anchors.deep_view(), default@),
{
    if anchors.len() > 0 {
        assert(anchors.deep_view()[0] == anchors[0]@);
        anchors[0].inner_html.clone()
    } else {
        default.to_owned()
    }
}

/// The text of the first link in a piece of markup, or `default` where it
/// has none. Fails only where `scraper` refuses `LINK_SELECTOR`.
pub fn parse_link(input: &str, default: &str) -> (r: Result<String, AppError>)
    ensures
        r is Ok <==> selector_is_valid(LINK_SELECTOR@),
        r matches Ok(text) ==> text@ == link_text(
            fragment_matches(input@, LINK_SELECTOR@, LINK_ATTRIBUTE@),
            default@,
        ),
        r matches Err(e) ==> e is ScrapeError,
{
    match select_fragment(input, LINK_SELECTOR, LINK_ATTRIBUTE) {
        Ok(anchors) => Ok(first_link_text(&anchors, default)),
        Err(e) => Err(e),
    }
}

/// Writes the message for a block that gives `count` fields.
pub fn write_field_count_message(count: usize) -> (r: String)
    ensures
        r@ == field_count_message(count as nat),
{
    let digits = write_decimal(count as u64);
    let head = append(
        "Unexpected number of elements in band_info (expected 8, got ",
        digits.as_str(),
    );
    append(head.as_str(), ")")
}

/// Takes the fields of a detail page from the blocks that
/// `BAND_STATS_SELECTOR` matched. A first block with any other number of
/// fields than `STAT_FIELD_COUNT` is an error of this page alone.
pub fn read_stat_fields(blocks: &Vec<Vec<Element>>) -> (r: Result<Vec<String>, AppError>)
    ensures
        match stat_fields(blocks.deep_view()) {
            Ok(fields) => r matches Ok(found) && found.deep_view() == fields && found.len()
                == STAT_FIELD_COUNT,
            Err(message) => r matches Err(e) && e.says(message),
        },
{
    if blocks.len() == 0 {
        return Err(AppError::GenericError(NO_BAND_INFO.to_owned()));
    }
    assert(blocks.deep_view()[0] == blocks[0].deep_view());
    let block = &blocks[0];
    if block.len() != STAT_FIELD_COUNT {
        return Err(AppError::GenericError(write_field_count_message(block.len())));
    }
    let mut found: Vec<String> = Vec::new();
    let mut i: usize = 0;
    while i < block.len()
        invariant
            i <= block.len(),
            found.len() == i,
            forall|j: int| 0 <= j < i ==> (#[trigger] found[j])@ == block[j]@.inner_html,
        decreases block.len() - i,
    {
        found.push(block[i].inner_html.clone());
        i += 1;
    }
    assert(found.deep_view() =~= block.deep_view().map_values(
        |field: ElementView| field.inner_html,
    ));
    Ok(found)
}

/// Reads a band's detail page.
///
/// Fails with a `ScrapeError` exactly where `scraper` refuses one of the
/// selectors, whatever the page holds. Otherwise the result is what
/// `band_info` says: the band's metadata, or a `GenericError` with the
/// message that says why this page cannot be read.
pub fn parse_band_info(artist_name: &str, artist_url: &str, document: &str) -> (r: Result<
    MetallumArtistInfo,
    AppError,
>)
    ensures
        band_selectors_are_valid() <==> !(r matches Err(e) && e is ScrapeError),
        band_selectors_are_valid() ==> match band_info(artist_name@, artist_url@, document@) {
            Ok(info) => r matches Ok(found) && found@ == info,
            Err(message) => r matches Err(e) && e.says(message),
        },
{
    let blocks = match select_within(
        document,
        BAND_STATS_SELECTOR,
        STAT_FIELDS_SELECTOR,
        LINK_ATTRIBUTE,
    ) {
        Ok(found) => found,
        Err(e) => {
            return Err(e);
        },
    };
    let comments = match select(document, BAND_COMMENT_SELECTOR, LINK_ATTRIBUTE) {
        Ok(found) => found,
        Err(e) => {
            return Err(e);
        },
    };
    let images = match select(document, BAND_IMAGE_SELECTOR, LINK_ATTRIBUTE) {
        Ok(found) => found,
        Err(e) => {
            return Err(e);
        },
    };
    match check_selector(LINK_SELECTOR) {
        Ok(_) => {},
        Err(e) => {
            return Err(e);
        },
    }
    let fields = match read_stat_fields(&blocks) {
        Ok(found) => found,
        Err(e) => {
            return Err(e);
        },
    };
    if comments.len() == 0 {
        return Err(AppError::GenericError(NO_BAND_DESCRIPTION.to_owned()));
    }
    assert(comments.deep_view()[0] == comments[0]@);
    let description_short = match text_without_tags(comments[0].inner_html.as_str()) {
        Some(text) => text,
        None => {
            return Err(AppError::GenericError(BAND_DESCRIPTION_TOO_LONG.to_owned()));
        },
    };
    if images.len() == 0 {
        return Err(AppError::GenericError(NO_BAND_IMAGE.to_owned()));
    }
    assert(images.deep_view()[0] == images[0]@);
    let img_url = match &images[0].attribute {
        Some(url) => url.clone(),
        None => String::new(),
    };
    let country_origin = match parse_link(fields[0].as_str(), NOT_AVAILABLE) {
        Ok(text) => text,
        Err(e) => {
            return Err(e);
        },
    };
    let last_label = match parse_link(fields[6].as_str(), NOT_AVAILABLE) {
        Ok(text) => text,
        Err(e) => {
            return Err(e);
        },
    };
    assert(forall|j: int| 0 <= j < 8 ==> fields.deep_view()[j] == (#[trigger] fields[j])@);
    Ok(
        MetallumArtistInfo {
            name: artist_name.to_owned(),
            url: artist_url.to_owned(),
            description_short,
            description_long: String::new(),
            country_origin,
            locations: fields[1].clone(),
            years_active: fields[7].clone(),
            formed_in: fields[3].clone(),
            genre: fields[4].clone(),
            themes: fields[5].clone(),
            img_url,
            status: fields[2].clone(),
            last_label,
        },
    )
}

/// A candidate of the archive's search: the markup of its name with the
/// link to its page, its genre, its country.
pub type CandidateView = (Seq<char>, Seq<char>, Seq<char>);

/// The search for the first candidate whose detail page can be read.
///
/// The library decides which page to ask for next and what to make of the
/// answer; whoever runs the search fetches the pages. The search is over
/// once a page has been read or the candidates have run out.
#[derive(Debug, PartialEq, Eq)]
pub struct ArchiveLookup {
    /// The artist that is looked for.
    pub artist_name: String,
    /// What the archive's search returned.
    pub candidates: Vec<(String, String, String)>,
    /// The candidates before this position have been given up.
    pub position: usize,
    /// What the first readable page said.
    pub found: Option<MetallumArtistInfo>,
}

/// The mathematical value of an `ArchiveLookup`.
pub struct ArchiveLookupView {
    pub artist_name: Seq<char>,
    pub candidates: Seq<CandidateView>,
    pub position: int,
    pub found: Option<MetallumArtistInfoView>,
}

impl View for ArchiveLookup {
    type V = ArchiveLookupView;

    open spec fn view(&self) -> ArchiveLookupView {
        ArchiveLookupView {
            artist_name: self.artist_name@,
            candidates: self.candidates.deep_view(),
            position: self.position as int,
            found: self.found.deep_view(),
        }
    }
}

/// Position of the first candidate at or after `from` whose markup gives an
/// address; the number of candidates where there is none.
pub open spec fn next_candidate(candidates: Seq<CandidateView>, from: int) -> int
    decreases candidates.len() - from + 1,
{
    if from < 0 || from >= candidates.len() {
        candidates.len() as int
    } else if artist_url(candidates[from].0) is Some {
        from
    } else {
        next_candidate(candidates, from + 1)
    }
}

impl ArchiveLookupView {
    /// The search at its start.
    pub open spec fn start(artist_name: Seq<char>, candidates: Seq<CandidateView>) -> Self {
        ArchiveLookupView { artist_name, candidates, position: 0, found: None }
    }

    /// The position is one of the candidates or just past the last.
    pub open spec fn is_valid(self) -> bool {
        0 <= self.position <= self.candidates.len()
    }

    /// The search moved on to the next candidate that has an address. A
    /// search that has found its page stays where it is.
    pub open spec fn at_next_candidate(self) -> Self {
        if self.found is Some {
            self
        } else {
            ArchiveLookupView {
                position: next_candidate(self.candidates, self.position),
                ..self
            }
        }
    }

    /// The address of the page to ask for: that of the candidate at the
    /// position. `None` once the search is over.
    pub open spec fn wanted_url(self) -> Option<Seq<char>> {
        if self.found is None && 0 <= self.position < self.candidates.len() {
            artist_url(self.candidates[self.position].0)
        } else {
            None
        }
    }

    /// The search after the candidate at the position has been given up.
    pub open spec fn after_failure(self) -> Self {
        if self.found is None && 0 <= self.position < self.candidates.len() {
            ArchiveLookupView { position: self.position + 1, ..self }
        } else {
            self
        }
    }

    /// The search after the page of the candidate at the position has
    /// arrived: where it can be read the search has found its page,
    /// otherwise the candidate is given up.
    pub open spec fn after_page(self, document: Seq<char>) -> Self {
        match self.wanted_url() {
            Some(url) => match band_info(self.artist_name, url, document) {
                Ok(info) => ArchiveLookupView { found: Some(info), ..self },
                Err(_) => self.after_failure(),
            },
            None => self.after_failure(),
        }
    }

    /// The search after one round: on to the next candidate with an
    /// address, then its page asked for from `pages`, which gives the
    /// document at an address or `None` where it cannot be fetched.
    pub open spec fn after_round(self, pages: spec_fn(Seq<char>) -> Option<Seq<char>>) -> Self {
        let at = self.at_next_candidate();
        match at.wanted_url() {
            Some(url) => match pages(url) {
                Some(document) => at.after_page(document),
                None => at.after_failure(),
            },
            None => at,
        }
    }

    /// The search after `rounds` rounds against `pages`.
    pub open spec fn after_rounds(
        self,
        pages: spec_fn(Seq<char>) -> Option<Seq<char>>,
        rounds: nat,
    ) -> Self
        decreases rounds,
    {
        if rounds == 0 {
            self
        } else {
            self.after_round(pages).after_rounds(pages, (rounds - 1) as nat)
        }
    }

    /// The search is over: it has found its page, or no candidate with an
    /// address is left.
    pub open spec fn is_over(self) -> bool {
        self.found is Some || next_candidate(self.candidates, self.position)
            >= self.candidates.len()
    }
}

/// What the first candidate at or after `from` says whose markup gives an
/// address, whose page `pages` can fetch and whose page can be read. `None`
/// where there is no such candidate.
pub open spec fn first_readable(
    artist_name: Seq<char>,
    candidates: Seq<CandidateView>,
    pages: spec_fn(Seq<char>) -> Option<Seq<char>>,
    from: int,
) -> Option<MetallumArtistInfoView>
    decreases candidates.len() - from + 1,
{
    if from < 0 || from >= candidates.len() {
        None
    } else {
        match artist_url(candidates[from].0) {
            Some(url) => match pages(url) {
                Some(document) => match band_info(artist_name, url, document) {
                    Ok(info) => Some(info),
                    Err(_) => first_readable(artist_name, candidates, pages, from + 1),
                },
                None => first_readable(artist_name, candidates, pages, from + 1),
            },
            None => first_readable(artist_name, candidates, pages, from + 1),
        }
    }
}

/// `next_candidate` gives a position from `from` on, at most the number of
/// candidates, and every candidate it passes over has no address.
pub proof fn lemma_next_candidate(candidates: Seq<CandidateView>, from: int)
    requires
        0 <= from <= candidates.len(),
    ensures
        from <= next_candidate(candidates, from) <= candidates.len(),
        next_candidate(candidates, from) < candidates.len() ==> artist_url(
            candidates[next_candidate(candidates, from)].0,
        ) is Some,
        forall|j: int|
            from <= j < next_candidate(candidates, from) ==> artist_url(
                (#[trigger] candidates[j]).0,
            ) is None,
    decreases candidates.len() - from,
{
    if from < candidates.len() && artist_url(candidates[from].0) is None {
        lemma_next_candidate(candidates, from + 1);
    }
}

/// Passing over candidates without an address does not change what the
/// first readable candidate says.
pub proof fn lemma_first_readable_skips(
    artist_name: Seq<char>,
    candidates: Seq<CandidateView>,
    pages: spec_fn(Seq<char>) -> Option<Seq<char>>,
    from: int,
)
    requires
        0 <= from <= candidates.len(),
    ensures
        first_readable(artist_name, candidates, pages, from) == first_readable(
            artist_name,
            candidates,
            pages,
            next_candidate(candidates, from),
        ),
    decreases candidates.len() - from,
{
    if from < candidates.len() && artist_url(candidates[from].0) is None {
        lemma_first_readable_skips(artist_name, candidates, pages, from + 1);
    }
}

/// A search that is over stays over, with what it has found, however many
/// rounds follow.
pub proof fn lemma_over_stays_over(
    lookup: ArchiveLookupView,
    pages: spec_fn(Seq<char>) -> Option<Seq<char>>,
    rounds: nat,
)
    requires
        lookup.is_valid(),
        lookup.is_over(),
    ensures
        lookup.after_rounds(pages, rounds).found == lookup.found,
        lookup.after_rounds(pages, rounds).is_over(),
    decreases rounds,
{
    if rounds > 0 {
        lemma_next_candidate(lookup.candidates, lookup.position);
        let next = lookup.after_round(pages);
        if lookup.found is None {
            assert(next.position == lookup.candidates.len());
            lemma_next_candidate(next.candidates, next.position);
        }
        lemma_over_stays_over(next, pages, (rounds - 1) as nat);
    }
}

/// A search that has not found its page yet is over after as many rounds
/// as it has candidates left, and has then found what the first readable
/// candidate from its position on says: the first success wins, and a
/// candidate that fails is passed over.
pub proof fn lemma_search_finds_first_readable(
    lookup: ArchiveLookupView,
    pages: spec_fn(Seq<char>) -> Option<Seq<char>>,
    rounds: nat,
)
    requires
        lookup.is_valid(),
        lookup.found is None,
        rounds >= lookup.candidates.len() - lookup.position,
    ensures
        lookup.after_rounds(pages, rounds).is_over(),
        lookup.after_rounds(pages, rounds).found == first_readable(
            lookup.artist_name,
            lookup.candidates,
            pages,
            lookup.position,
        ),
    decreases rounds,
{
    lemma_next_candidate(lookup.candidates, lookup.position);
    lemma_first_readable_skips(lookup.artist_name, lookup.candidates, pages, lookup.position);
    let at = lookup.at_next_candidate();
    let next = lookup.after_round(pages);
    if at.wanted_url() is None {
        lemma_over_stays_over(lookup, pages, rounds);
    } else if next.found is Some {
        lemma_over_stays_over(next, pages, (rounds - 1) as nat);
    } else {
        lemma_search_finds_first_readable(next, pages, (rounds - 1) as nat);
    }
}

impl ArchiveLookup {
    /// Begins the search for `artist_name` among the candidates that the
    /// archive's search returned.
    pub fn start(artist_name: &str, response: MetallumSearchResponse) -> (r: Self)
        ensures
            r@ == ArchiveLookupView::start(artist_name@, response.aa_data.deep_view()),
            r@.is_valid(),
    {
        ArchiveLookup {
            artist_name: artist_name.to_owned(),
            candidates: response.aa_data,
            position: 0,
            found: None,
        }
    }

    /// Moves on to the next candidate that has an address and returns the
    /// address of its page, or `None` once the search is over.
    pub fn next_url(&mut self) -> (r: Option<String>)
        ensures
            final(self)@ == old(self)@.at_next_candidate(),
            old(self)@.is_valid() ==> final(self)@.is_valid(),
            r.deep_view() == final(self)@.wanted_url(),
    {
        if self.found.is_some() {
            return None;
        }
        if self.position > self.candidates.len() {
            self.position = self.candidates.len();
            return None;
        }
        while self.position < self.candidates.len()
            invariant
                self.position <= self.candidates.len(),
                self.found is None,
                self.artist_name == old(self).artist_name,
                self.candidates == old(self).candidates,
                self.found == old(self).found,
                old(self).position <= self.position,
                next_candidate(old(self)@.candidates, old(self)@.position) == next_candidate(
                    self@.candidates,
                    self@.position,
                ),
            decreases self.candidates.len() - self.position,
        {
            assert(self.candidates.deep_view()[self.position as int]
                == self.candidates[self.position as int].deep_view());
            let url = get_artist_url(self.candidates[self.position].0.as_str());
            if url.is_some() {
                return url;
            }
            self.position += 1;
        }
        None
    }

    /// Gives up the candidate at the position: its page could not be
    /// fetched.
    pub fn page_failed(&mut self)
        ensures
            final(self)@ == old(self)@.after_failure(),
            old(self)@.is_valid() ==> final(self)@.is_valid(),
    {
        if self.found.is_none() && self.position < self.candidates.len() {
            self.position += 1;
        }
    }

    /// Takes the page of the candidate at the position.
    ///
    /// Fails with a `ScrapeError`, and leaves the search as it is, exactly
    /// where `scraper` refuses one of the selectors. Otherwise a page that
    /// can be read ends the search, and one that cannot has its candidate
    /// given up.
    pub fn page_arrived(&mut self, document: &str) -> (r: Result<(), AppError>)
        ensures
            r is Ok <==> band_selectors_are_valid(),
            r is Ok ==> final(self)@ == old(self)@.after_page(document@),
            r matches Err(e) ==> e is ScrapeError && final(self)@ == old(self)@,
            old(self)@.is_valid() ==> final(self)@.is_valid(),
    {
        match check_band_selectors() {
            Ok(_) => {},
            Err(e) => {
                return Err(e);
            },
        }
        if self.found.is_some() || self.position >= self.candidates.len() {
            return Ok(());
        }
        assert(self.candidates.deep_view()[self.position as int]
            == self.candidates[self.position as int].deep_view());
        match get_artist_url(self.candidates[self.position].0.as_str()) {
            Some(url) => {
                match parse_band_info(self.artist_name.as_str(), url.as_str(), document) {
                    Ok(info) => {
                        self.found = Some(info);
                    },
                    Err(_) => {
                        self.position += 1;
                    },
                }
            },
            None => {
                self.position += 1;
            },
        }
        Ok(())
    }

    /// Ends the search: the metadata of the first readable page, or nothing.
    pub fn into_artists(self) -> (r: Vec<MetallumArtistInfo>)
        ensures
            r.deep_view() == match self@.found {
                Some(info) => seq![info],
                None => Seq::empty(),
            },
    {
        let mut r: Vec<MetallumArtistInfo> = Vec::new();
        match self.found {
            Some(info) => {
                r.push(info);
                assert(r.deep_view() =~= seq![info@]);
            },
            None => {
                assert(r.deep_view() =~= Seq::<MetallumArtistInfoView>::empty());
            },
        }
        r
    }
}

/// Checks every selector that reading a detail page takes.
pub fn check_band_selectors() -> (r: Result<(), AppError>)
    ensures
        r is Ok <==> band_selectors_are_valid(),
        r matches Err(e) ==> e is ScrapeError,
{
    match check_selector(BAND_STATS_SELECTOR) {
        Ok(_) => {},
        Err(e) => {
            return Err(e);
        },
    }
    match check_selector(STAT_FIELDS_SELECTOR) {
        Ok(_) => {},
        Err(e) => {
            return Err(e);
        },
    }
    match check_selector(LINK_SELECTOR) {
        Ok(_) => {},
        Err(e) => {
            return Err(e);
        },
    }
    match check_selector(BAND_COMMENT_SELECTOR) {
        Ok(_) => {},
        Err(e) => {
            return Err(e);
        },
    }
    check_selector(BAND_IMAGE_SELECTOR)
}

} // verus!
