//! The calendar extractor: from the markup of the release calendar to draft
//! releases.
//!
//! The calendar is a run of day blocks. A day block opens with its date in
//! bold; what follows the date is a list of lines, one release each:
//! artist, a dash, the album in italics, the label in parentheses. A block
//! without a readable date and a line that is no release are passed over in
//! silence: the page is full of both.

use crate::config::{draft_view, Release, ReleaseView};
use crate::date::{date_of_fields, parsed_date, Date};
use crate::error::AppError;
use crate::html::{document_matches, select, selector_is_valid, Element, ElementView};
use crate::order::{
    arranged, key_values, lemma_stable_order, lemma_stable_order_of_sorted, positions,
    stable_order, stable_order_by,
};
use crate::pattern::{
    captures, check_pattern, group_string, group_text, pattern_groups, pattern_is_valid,
};
use crate::text::{
    chars_of, remove_char, split, split_str, starts_with, str_starts_with, string_of_range,
    without_char,
};
use vstd::prelude::*;

verus! {

/// The day blocks of the calendar page.
pub const CALENDAR_SELECTOR: &'static str = "div.pod-content > p";

/// The attribute read off each day block; the extractor makes no use of it.
pub const BLOCK_ATTRIBUTE: &'static str = "class";

/// How a day block opens.
pub const BLOCK_OPENING: &'static str = "<p><strong>";

/// The date at the head of a day block.
pub const DATE_PATTERN: &'static str = r"^<p><strong>(\w+ \d{1,2}, \d{4})</strong>";

/// How the date is written: month by name, day, year.
pub const DATE_FORMAT: &'static str = "%B %d, %Y";

/// What separates the lines of a day block.
pub const LINE_BREAK: &'static str = "<br>";

/// One release: artist, album, label.
pub const ENTRY_PATTERN: &'static str = r"^(.+) - <em>(.+)</em>(?:\s+)?\(?(.+)\)(?:</p>)?$";

/// Number of groups that a match of `ENTRY_PATTERN` gives: the whole match
/// and its three parts.
pub const ENTRY_GROUPS: usize = 4;

/// `regex` accepts both patterns of the extractor.
pub open spec fn patterns_are_valid() -> bool {
    pattern_is_valid(DATE_PATTERN@) && pattern_is_valid(ENTRY_PATTERN@)
}

/// The date at the head of a day block, where there is one that can be
/// read.
pub open spec fn leading_date(html: Seq<char>) -> Option<Date> {
    match pattern_groups(DATE_PATTERN@, html) {
        Some(groups) => date_of_fields(parsed_date(group_text(groups, 1), DATE_FORMAT@)),
        None => None,
    }
}

/// `html` without its first `n` characters; nothing where it has no more.
pub open spec fn rest_after(html: Seq<char>, n: nat) -> Seq<char> {
    if n <= html.len() {
        html.subrange(n as int, html.len() as int)
    } else {
        Seq::empty()
    }
}

/// What follows the date in a day block.
pub open spec fn after_date(html: Seq<char>) -> Seq<char> {
    match pattern_groups(DATE_PATTERN@, html) {
        Some(groups) => rest_after(html, group_text(groups, 0).len()),
        None => Seq::empty(),
    }
}

/// The label as it is kept: without any parenthesis.
pub open spec fn label_text(label: Seq<char>) -> Seq<char> {
    without_char(without_char(label, '('), ')')
}

/// The draft that the groups of a matched line give, where they are
/// `ENTRY_GROUPS` in number: artist, album and label from groups 1 to 3.
pub open spec fn draft_of_groups(date: Date, groups: Seq<Option<Seq<char>>>) -> Option<
    ReleaseView,
> {
    if groups.len() == ENTRY_GROUPS {
        Some(
            draft_view(
                date,
                group_text(groups, 1),
                group_text(groups, 2),
                label_text(group_text(groups, 3)),
            ),
        )
    } else {
        None
    }
}

/// The draft that one line gives; none for a line that is no release.
pub open spec fn draft_of_line(date: Date, line: Seq<char>) -> Option<ReleaseView> {
    match pattern_groups(ENTRY_PATTERN@, line) {
        Some(groups) => draft_of_groups(date, groups),
        None => None,
    }
}

/// The drafts that the lines give, in the order of the lines.
pub open spec fn drafts_of_lines(date: Date, lines: Seq<Seq<char>>) -> Seq<ReleaseView> {
    lines.filter_map(|line: Seq<char>| draft_of_line(date, line))
}

/// The drafts of one day block: none without a readable date, else one for
/// each line after the date that is a release, all with that date.
pub open spec fn drafts_of_block(html: Seq<char>) -> Seq<ReleaseView> {
    match leading_date(html) {
        Some(date) => drafts_of_lines(date, split(after_date(html), LINE_BREAK@)),
        None => Seq::empty(),
    }
}

/// The drafts of a run of blocks, block after block. A block that does not
/// open as a day block gives none.
pub open spec fn drafts_of_blocks(blocks: Seq<Seq<char>>) -> Seq<ReleaseView>
    decreases blocks.len(),
{
    if blocks.len() == 0 {
        Seq::empty()
    } else {
        drafts_of_blocks(blocks.drop_last()) + if starts_with(blocks.last(), BLOCK_OPENING@) {
            drafts_of_block(blocks.last())
        } else {
            Seq::empty()
        }
    }
}

/// The keys by which releases are put in the order of their dates.
pub open spec fn date_keys(releases: Seq<ReleaseView>) -> Seq<int> {
    releases.map_values(|r: ReleaseView| r.date.ordinal())
}

/// The releases by rising date; releases of the same date keep their order.
pub open spec fn sorted_by_date(releases: Seq<ReleaseView>) -> Seq<ReleaseView> {
    arranged(releases, stable_order(date_keys(releases)))
}

/// The markup of the blocks that a selector matched.
pub open spec fn markup_of(blocks: Seq<ElementView>) -> Seq<Seq<char>> {
    blocks.map_values(|b: ElementView| b.html)
}

/// The drafts of a calendar page: those of its day blocks, by rising date.
pub open spec fn drafts_of_page(document: Seq<char>) -> Seq<ReleaseView> {
    sorted_by_date(
        drafts_of_blocks(
            markup_of(document_matches(document, CALENDAR_SELECTOR@, BLOCK_ATTRIBUTE@)),
        ),
    )
}

/// The drafts of lines that end in `last` are those of the lines before,
/// and then that of `last` where it is a release.
pub proof fn lemma_drafts_of_lines_push(date: Date, lines: Seq<Seq<char>>, last: Seq<char>)
    ensures
        drafts_of_lines(date, lines.push(last)) == match draft_of_line(date, last) {
            Some(draft) => drafts_of_lines(date, lines).push(draft),
            None => drafts_of_lines(date, lines),
        },
{
    let f = |line: Seq<char>| draft_of_line(date, line);
    assert(lines.push(last).drop_last() == lines);
    assert(lines.push(last).last() == last);
    match draft_of_line(date, last) {
        Some(draft) => {
            assert(lines.filter_map(f) + seq![draft] =~= lines.filter_map(f).push(draft));
        },
        None => {},
    }
}

/// Every draft of a set of lines is a fresh draft with the date given: not
/// skipped, without reasons and without metadata.
pub proof fn lemma_drafts_of_lines_are_fresh(date: Date, lines: Seq<Seq<char>>)
    ensures
        forall|i: int|
            0 <= i < drafts_of_lines(date, lines).len() ==> {
                let draft = #[trigger] drafts_of_lines(date, lines)[i];
                &&& draft.date == date
                &&& !draft.skip
                &&& draft.skip_reasons.len() == 0
                &&& draft.spotify is None
                &&& draft.metallum is None
            },
    decreases lines.len(),
{
    if lines.len() > 0 {
        let before = lines.drop_last();
        lemma_drafts_of_lines_are_fresh(date, before);
        assert(before.push(lines.last()) == lines);
        lemma_drafts_of_lines_push(date, before, lines.last());
    }
}

/// A block without a readable date at its head gives no draft. The drafts
/// of a block with one all bear its date, so they stand in the order of
/// their dates, which is the order of their lines.
pub proof fn lemma_drafts_of_block(html: Seq<char>)
    ensures
        leading_date(html) is None ==> drafts_of_block(html).len() == 0,
        forall|i: int|
            0 <= i < drafts_of_block(html).len() ==> leading_date(html) == Some(
                (#[trigger] drafts_of_block(html)[i]).date,
            ),
        forall|i: int, j: int|
            0 <= i < j < drafts_of_block(html).len() ==> drafts_of_block(html)[i].date.not_after(
                &drafts_of_block(html)[j].date,
            ),
        sorted_by_date(drafts_of_block(html)) == drafts_of_block(html),
{
    let drafts = drafts_of_block(html);
    match leading_date(html) {
        Some(date) => {
            lemma_drafts_of_lines_are_fresh(date, split(after_date(html), LINE_BREAK@));
            let keys = date_keys(drafts);
            lemma_stable_order_of_sorted(keys, keys.len());
            assert(sorted_by_date(drafts) =~= drafts);
        },
        None => {
            assert(sorted_by_date(drafts) =~= drafts);
        },
    }
}

/// Sorting by date keeps every release, once each, and puts them so that
/// the dates never fall; releases of one date keep their order.
pub proof fn lemma_sorted_by_date(releases: Seq<ReleaseView>)
    ensures
        sorted_by_date(releases).len() == releases.len(),
        forall|i: int, j: int|
            0 <= i < j < releases.len() ==> sorted_by_date(releases)[i].date.not_after(
                &sorted_by_date(releases)[j].date,
            ),
        forall|k: int|
            0 <= k < releases.len() ==> sorted_by_date(releases).contains(#[trigger] releases[k]),
        forall|i: int|
            0 <= i < releases.len() ==> releases.contains(#[trigger] sorted_by_date(releases)[i]),
{
    let keys = date_keys(releases);
    let order = stable_order(keys);
    let sorted = sorted_by_date(releases);
    lemma_stable_order(keys);
    assert forall|i: int, j: int| 0 <= i < j < releases.len() implies sorted[i].date.not_after(
        &sorted[j].date,
    ) by {
        Date::lemma_ordinal(sorted[i].date, sorted[j].date);
        assert(keys[order[i]] <= keys[order[j]]);
    }
    assert forall|k: int| 0 <= k < releases.len() implies sorted.contains(
        #[trigger] releases[k],
    ) by {
        assert(order.contains(k));
        let i = choose|i: int| 0 <= i < order.len() && order[i] == k;
        assert(sorted[i] == releases[k]);
    }
    assert forall|i: int| 0 <= i < releases.len() implies releases.contains(
        #[trigger] sorted[i],
    ) by {
        assert(releases[order[i]] == sorted[i]);
    }
}

/// Writes the label as it is kept: without any parenthesis.
pub fn clean_label(label: &str) -> (r: String)
    ensures
        r@ == label_text(label@),
{
    let opened = remove_char(label, '(');
    remove_char(opened.as_str(), ')')
}

/// Makes the draft that the groups of a matched line give.
pub fn release_from_groups(date: Date, groups: &Vec<Option<String>>) -> (r: Option<Release>)
    ensures
        r.deep_view() == draft_of_groups(date, groups.deep_view()),
{
    if groups.len() != ENTRY_GROUPS {
        return None;
    }
    let artist = group_string(groups, 1);
    let album = group_string(groups, 2);
    let label = group_string(groups, 3);
    Some(Release::draft(date, artist, album, clean_label(label.as_str())))
}

/// `html` without its first `n` characters.
pub fn skip_chars(html: &str, n: usize) -> (r: String)
    ensures
        r@ == rest_after(html@, n as nat),
{
    let text = chars_of(html);
    if n <= text.len() {
        string_of_range(&text, n, text.len())
    } else {
        String::new()
    }
}

/// Reads the drafts off one day block.
///
/// Fails exactly where `regex` refuses one of the two patterns, whatever
/// the block holds. Otherwise the drafts are those of `drafts_of_block`: a
/// block without a readable date gives none, and no error.
pub fn parse_releases(html: &str) -> (r: Result<Vec<Release>, AppError>)
    ensures
        r is Ok <==> patterns_are_valid(),
        r matches Ok(releases) ==> releases.deep_view() == drafts_of_block(html@),
        patterns_are_valid() && leading_date(html@) is None ==> (r matches Ok(releases)
            && releases.len() == 0),
        r matches Err(e) ==> e is ParseError,
{
    match check_pattern(ENTRY_PATTERN) {
        Ok(_) => {},
        Err(e) => {
            return Err(e);
        },
    }
    let head = match captures(DATE_PATTERN, html) {
        Ok(found) => found,
        Err(e) => {
            return Err(e);
        },
    };
    let mut releases: Vec<Release> = Vec::new();
    assert(releases.deep_view() =~= Seq::<ReleaseView>::empty());
    let groups = match head {
        Some(groups) => groups,
        None => {
            return Ok(releases);
        },
    };
    let written = group_string(&groups, 1);
    let date = match Date::parse(written.as_str(), DATE_FORMAT) {
        Some(date) => date,
        None => {
            return Ok(releases);
        },
    };
    let whole = group_string(&groups, 0);
    let rest = skip_chars(html, whole.as_str().unicode_len());
    let lines = split_str(rest.as_str(), LINE_BREAK);
    let mut i: usize = 0;
    while i < lines.len()
        invariant
            i <= lines.len(),
            patterns_are_valid(),
            releases.deep_view() == drafts_of_lines(date, lines.deep_view().take(i as int)),
        decreases lines.len() - i,
    {
        proof {
            assert(lines.deep_view().take(i + 1) == lines.deep_view().take(i as int).push(
                lines[i as int]@,
            ));
            lemma_drafts_of_lines_push(date, lines.deep_view().take(i as int), lines[i as int]@);
        }
        let found = match captures(ENTRY_PATTERN, lines[i].as_str()) {
            Ok(found) => found,
            Err(e) => {
                return Err(e);
            },
        };
        if let Some(groups) = found {
            if let Some(release) = release_from_groups(date, &groups) {
                let ghost before = releases.deep_view();
                let ghost draft = release@;
                releases.push(release);
                assert(releases.deep_view() =~= before.push(draft));
            }
        }
        i += 1;
    }
    assert(lines.deep_view().take(lines.len() as int) == lines.deep_view());
    Ok(releases)
}

/// Puts the releases in the order of their dates; releases of the same date
/// keep their order.
pub fn sort_by_date(releases: &Vec<Release>) -> (r: Vec<Release>)
    ensures
        r.deep_view() == sorted_by_date(releases.deep_view()),
        r.len() == releases.len(),
        forall|i: int, j: int| 0 <= i < j < r.len() ==> r[i].date.not_after(&r[j].date),
{
    proof {
        lemma_sorted_by_date(releases.deep_view());
    }
    let mut keys: Vec<i128> = Vec::new();
    let mut i: usize = 0;
    while i < releases.len()
        invariant
            i <= releases.len(),
            keys.len() == i,
            forall|j: int| 0 <= j < i ==> #[trigger] keys[j] == releases[j].date.ordinal(),
        decreases releases.len() - i,
    {
        keys.push(releases[i].date.sort_key());
        i += 1;
    }
    assert(key_values(keys@) =~= date_keys(releases.deep_view()));
    let order = stable_order_by(&keys);
    let mut r: Vec<Release> = Vec::new();
    let mut n: usize = 0;
    while n < order.len()
        invariant
            n <= order.len(),
            order.len() == releases.len(),
            r.len() == n,
            forall|j: int| 0 <= j < order.len() ==> #[trigger] order[j] < releases.len(),
            forall|j: int| 0 <= j < n ==> (#[trigger] r[j])@ == releases[order[j] as int]@,
        decreases order.len() - n,
    {
        r.push(releases[order[n]].clone());
        n += 1;
    }
    assert(r.deep_view() =~= arranged(releases.deep_view(), positions(order@)));
    assert forall|i: int, j: int| 0 <= i < j < r.len() implies r[i].date.not_after(
        &r[j].date,
    ) by {
        let sorted = sorted_by_date(releases.deep_view());
        assert(sorted[i] == r[i]@ && sorted[j] == r[j]@);
        assert(sorted[i].date.not_after(&sorted[j].date));
    }
    r
}

/// Reads the drafts off a run of blocks and puts them in the order of
/// their dates.
///
/// Fails exactly where `regex` refuses one of the two patterns. A block
/// that does not open as a day block, or has no readable date, gives no
/// draft and no error.
pub fn extract_releases(blocks: &Vec<String>) -> (r: Result<Vec<Release>, AppError>)
    ensures
        r is Ok <==> patterns_are_valid(),
        r matches Ok(releases) ==> releases.deep_view() == sorted_by_date(
            drafts_of_blocks(blocks.deep_view()),
        ),
        r matches Ok(releases) ==> forall|i: int, j: int|
            0 <= i < j < releases.len() ==> releases[i].date.not_after(&releases[j].date),
        r matches Err(e) ==> e is ParseError,
{
    match check_pattern(DATE_PATTERN) {
        Ok(_) => {},
        Err(e) => {
            return Err(e);
        },
    }
    match check_pattern(ENTRY_PATTERN) {
        Ok(_) => {},
        Err(e) => {
            return Err(e);
        },
    }
    let mut all: Vec<Release> = Vec::new();
    assert(all.deep_view() =~= Seq::<ReleaseView>::empty());
    let mut i: usize = 0;
    while i < blocks.len()
        invariant
            i <= blocks.len(),
            patterns_are_valid(),
            all.deep_view() == drafts_of_blocks(blocks.deep_view().take(i as int)),
        decreases blocks.len() - i,
    {
        proof {
            let next = blocks.deep_view().take(i + 1);
            assert(next.drop_last() == blocks.deep_view().take(i as int));
            assert(next.last() == blocks[i as int]@);
        }
        if str_starts_with(blocks[i].as_str(), BLOCK_OPENING) {
            let mut part = match parse_releases(blocks[i].as_str()) {
                Ok(part) => part,
                Err(e) => {
                    return Err(e);
                },
            };
            let ghost before = all.deep_view();
            let ghost added = part.deep_view();
            all.append(&mut part);
            assert(all.deep_view() =~= before + added);
        } else {
            assert(all.deep_view() + Seq::<ReleaseView>::empty() =~= all.deep_view());
        }
        i += 1;
    }
    assert(blocks.deep_view().take(blocks.len() as int) == blocks.deep_view());
    Ok(sort_by_date(&all))
}

/// The markup of the blocks that a selector matched.
pub fn block_markup(blocks: &Vec<Element>) -> (r: Vec<String>)
    ensures
        r.deep_view() == markup_of(blocks.deep_view()),
{
    let mut r: Vec<String> = Vec::new();
    let mut i: usize = 0;
    while i < blocks.len()
        invariant
            i <= blocks.len(),
            r.len() == i,
            forall|j: int| 0 <= j < i ==> (#[trigger] r[j])@ == blocks[j]@.html,
        decreases blocks.len() - i,
    {
        r.push(blocks[i].html.clone());
        i += 1;
    }
    assert(r.deep_view() =~= markup_of(blocks.deep_view()));
    r
}

/// Reads the drafts off the calendar page: those of its day blocks, in the
/// order of their dates.
///
/// Fails exactly where `scraper` refuses the selector of the day blocks, with
/// a `ScrapeError`, or `regex` one of the two patterns, with a `ParseError`.
pub fn get_releases(document: &str) -> (r: Result<Vec<Release>, AppError>)
    ensures
        r is Ok <==> selector_is_valid(CALENDAR_SELECTOR@) && patterns_are_valid(),
        r matches Ok(releases) ==> releases.deep_view() == drafts_of_page(document@),
        r matches Ok(releases) ==> forall|i: int, j: int|
            0 <= i < j < releases.len() ==> releases[i].date.not_after(&releases[j].date),
        r matches Err(e) ==> (e is ScrapeError <==> !selector_is_valid(CALENDAR_SELECTOR@)),
        r matches Err(e) ==> e is ScrapeError || e is ParseError,
{
    let blocks = match select(document, CALENDAR_SELECTOR, BLOCK_ATTRIBUTE) {
        Ok(found) => found,
        Err(e) => {
            return Err(e);
        },
    };
    let markup = block_markup(&blocks);
    extract_releases(&markup)
}

} // verus!
