//! The chat notification: who is told, and what.
//!
//! The library writes the messages; whoever runs it posts them. A failure
//! of the sink to make sense of the service's answer is known and no
//! reason to end the run; any other failure is.

use crate::config::{Config, Release, ReleaseView};
use crate::date::date_text;
use crate::text::{append, decimal, signed_decimal, write_decimal, write_signed_decimal};
use vstd::prelude::*;

verus! {

/// The colour of a release's message.
pub const MESSAGE_COLOR: &'static str = "#36a64f";

/// What stands at the foot of a release's message.
pub const FOOTER: &'static str = "Metalpal";

/// The picture at the foot of a release's message.
pub const FOOTER_ICON: &'static str =
    "https://emojis.slackmojis.com/emojis/images/1648645351/56886/metal.png?1648645351";

/// The notification sink: the token to post with and the channels to post
/// to.
#[derive(Debug, PartialEq, Eq)]
pub struct Slack {
    pub token: String,
    pub channels: Vec<String>,
}

/// One field of a release's message.
#[derive(Debug, PartialEq, Eq)]
pub struct AttachmentField {
    pub title: String,
    pub value: String,
    pub short: bool,
}

/// The mathematical value of an `AttachmentField`.
pub struct AttachmentFieldView {
    pub title: Seq<char>,
    pub value: Seq<char>,
    pub short: bool,
}

impl View for AttachmentField {
    type V = AttachmentFieldView;

    open spec fn view(&self) -> AttachmentFieldView {
        AttachmentFieldView { title: self.title@, value: self.value@, short: self.short }
    }
}

impl DeepView for AttachmentField {
    type V = AttachmentFieldView;

    open spec fn deep_view(&self) -> AttachmentFieldView {
        self@
    }
}

/// What a message says of one release.
#[derive(Debug, PartialEq, Eq)]
pub struct Attachment {
    pub color: String,
    pub title: String,
    pub title_link: String,
    pub thumb_url: String,
    pub fields: Vec<AttachmentField>,
    pub footer: String,
    pub footer_icon: String,
    pub ts: i32,
}

/// The mathematical value of an `Attachment`.
pub struct AttachmentView {
    pub color: Seq<char>,
    pub title: Seq<char>,
    pub title_link: Seq<char>,
    pub thumb_url: Seq<char>,
    pub fields: Seq<AttachmentFieldView>,
    pub footer: Seq<char>,
    pub footer_icon: Seq<char>,
    pub ts: i32,
}

impl View for Attachment {
    type V = AttachmentView;

    open spec fn view(&self) -> AttachmentView {
        AttachmentView {
            color: self.color@,
            title: self.title@,
            title_link: self.title_link@,
            thumb_url: self.thumb_url@,
            fields: self.fields.deep_view(),
            footer: self.footer@,
            footer_icon: self.footer_icon@,
            ts: self.ts,
        }
    }
}

impl DeepView for Attachment {
    type V = AttachmentView;

    open spec fn deep_view(&self) -> AttachmentView {
        self@
    }
}

/// One message to post: to a channel, a line of text or an attachment.
#[derive(Debug, PartialEq, Eq)]
pub struct Message {
    pub channel: String,
    pub text: Option<String>,
    pub attachment: Option<Attachment>,
}

/// The mathematical value of a `Message`.
pub struct MessageView {
    pub channel: Seq<char>,
    pub text: Option<Seq<char>>,
    pub attachment: Option<AttachmentView>,
}

impl View for Message {
    type V = MessageView;

    open spec fn view(&self) -> MessageView {
        MessageView {
            channel: self.channel@,
            text: self.text.deep_view(),
            attachment: self.attachment.deep_view(),
        }
    }
}

impl DeepView for Message {
    type V = MessageView;

    open spec fn deep_view(&self) -> MessageView {
        self@
    }
}

/// How a post to the sink failed.
#[derive(Clone, Copy, Debug, PartialEq, Eq, Structural)]
pub enum SinkFailure {
    /// The message went out, but the sink could not make sense of the
    /// service's answer.
    ResponseParsing,
    /// Anything else.
    Other,
}

/// The failure ends the run. A failure to parse the answer does not.
pub open spec fn is_fatal(failure: SinkFailure) -> bool {
    failure != SinkFailure::ResponseParsing
}

/// Every release carries the metadata of both catalogs.
pub open spec fn all_enriched(releases: Seq<ReleaseView>) -> bool {
    forall|i: int| 0 <= i < releases.len() ==> (#[trigger] releases[i]).is_enriched()
}

/// The line that opens the messages to a channel.
pub open spec fn opening_text(count: nat) -> Seq<char> {
    ":tada: There are *"@ + decimal(count) + "* releases today! :tada:"@
}

/// The message that opens the messages to a channel.
pub open spec fn opening(channel: Seq<char>, count: nat) -> MessageView {
    MessageView { channel, text: Some(opening_text(count)), attachment: None }
}

/// A field of a release's message.
pub open spec fn field(title: Seq<char>, value: Seq<char>) -> AttachmentFieldView {
    AttachmentFieldView { title, value, short: true }
}

/// What a message says of the enriched release in place `place`.
pub open spec fn attachment_of(place: nat, r: ReleaseView, unix_ts: i32) -> AttachmentView {
    let spotify = r.spotify->0;
    let metallum = r.metallum->0;
    AttachmentView {
        color: MESSAGE_COLOR@,
        title: decimal(place) + ". "@ + r.artist + " - "@ + r.album,
        title_link: metallum.url,
        thumb_url: metallum.img_url,
        fields: seq![
            field("Release Date"@, date_text(r.date)),
            field("Genres"@, metallum.genre),
            field("Country"@, metallum.country_origin),
            field("Spotify Popularity"@, signed_decimal(spotify.popularity)),
            field("Spotify Followers"@, signed_decimal(spotify.followers)),
            field("Spotify Artist ID"@, spotify.id),
        ],
        footer: FOOTER@,
        footer_icon: FOOTER_ICON@,
        ts: unix_ts,
    }
}

/// The message on the enriched release in place `place`.
pub open spec fn release_message(
    channel: Seq<char>,
    place: nat,
    r: ReleaseView,
    unix_ts: i32,
) -> MessageView {
    MessageView { channel, text: None, attachment: Some(attachment_of(place, r, unix_ts)) }
}

/// The messages to one channel: the opening, then one for each release,
/// numbered from 1.
pub open spec fn channel_messages(
    channel: Seq<char>,
    releases: Seq<ReleaseView>,
    unix_ts: i32,
) -> Seq<MessageView> {
    seq![opening(channel, releases.len())] + Seq::new(
        releases.len(),
        |i: int| release_message(channel, (i + 1) as nat, releases[i], unix_ts),
    )
}

/// The messages to all channels, channel after channel.
pub open spec fn all_messages(
    channels: Seq<Seq<char>>,
    releases: Seq<ReleaseView>,
    unix_ts: i32,
) -> Seq<MessageView>
    decreases channels.len(),
{
    if channels.len() == 0 {
        Seq::empty()
    } else {
        all_messages(channels.drop_last(), releases, unix_ts) + channel_messages(
            channels.last(),
            releases,
            unix_ts,
        )
    }
}

/// Whether a failure of the sink ends the run.
pub fn ends_run(failure: SinkFailure) -> (r: bool)
    ensures
        r == is_fatal(failure),
{
    failure != SinkFailure::ResponseParsing
}

/// Whether every release carries the metadata of both catalogs.
pub fn can_post(releases: &Vec<Release>) -> (r: bool)
    ensures
        r == all_enriched(releases.deep_view()),
{
    let mut i: usize = 0;
    while i < releases.len()
        invariant
            i <= releases.len(),
            forall|j: int| 0 <= j < i ==> (#[trigger] releases.deep_view()[j]).is_enriched(),
        decreases releases.len() - i,
    {
        assert(releases.deep_view()[i as int] == releases[i as int]@);
        if !releases[i].is_enriched() {
            return false;
        }
        i += 1;
    }
    true
}

/// Makes a field of a release's message.
pub fn make_field(title: &str, value: String) -> (r: AttachmentField)
    ensures
        r@ == field(title@, value@),
{
    AttachmentField { title: title.to_owned(), value, short: true }
}

/// Writes the message on the release in place `place`; none for a release
/// that lacks the metadata of a catalog.
pub fn write_release_message(channel: &str, place: usize, release: &Release, unix_ts: i32) -> (r:
    Option<Message>)
    ensures
        r.deep_view() == if release@.is_enriched() {
            Some(release_message(channel@, place as nat, release@, unix_ts))
        } else {
            None
        },
{
    let spotify = match &release.spotify {
        Some(info) => info,
        None => {
            return None;
        },
    };
    let metallum = match &release.metallum {
        Some(info) => info,
        None => {
            return None;
        },
    };
    let number = write_decimal(place as u64);
    let a = append(number.as_str(), ". ");
    let b = append(a.as_str(), release.artist.as_str());
    let c = append(b.as_str(), " - ");
    let title = append(c.as_str(), release.album.as_str());
    let mut fields: Vec<AttachmentField> = Vec::new();
    fields.push(make_field("Release Date", release.date.to_text()));
    fields.push(make_field("Genres", metallum.genre.clone()));
    fields.push(make_field("Country", metallum.country_origin.clone()));
    fields.push(make_field("Spotify Popularity", write_signed_decimal(spotify.popularity)));
    fields.push(make_field("Spotify Followers", write_signed_decimal(spotify.followers)));
    fields.push(make_field("Spotify Artist ID", spotify.id.clone()));
    assert(fields.deep_view() =~= attachment_of(place as nat, release@, unix_ts).fields);
    Some(
        Message {
            channel: channel.to_owned(),
            text: None,
            attachment: Some(
                Attachment {
                    color: MESSAGE_COLOR.to_owned(),
                    title,
                    title_link: metallum.url.clone(),
                    thumb_url: metallum.img_url.clone(),
                    fields,
                    footer: FOOTER.to_owned(),
                    footer_icon: FOOTER_ICON.to_owned(),
                    ts: unix_ts,
                },
            ),
        },
    )
}

/// Writes the message that opens the messages to a channel.
pub fn write_opening(channel: &str, count: usize) -> (r: Message)
    ensures
        r@ == opening(channel@, count as nat),
{
    let number = write_decimal(count as u64);
    let a = append(":tada: There are *", number.as_str());
    let text = append(a.as_str(), "* releases today! :tada:");
    Message { channel: channel.to_owned(), text: Some(text), attachment: None }
}

impl Slack {
    /// The sink that a configuration names.
    pub fn new(cfg: &Config) -> (r: Self)
        ensures
            r.token@ == cfg.slack_bot_token@,
            r.channels.deep_view() == cfg.slack_channels.deep_view(),
    {
        Slack { token: cfg.slack_bot_token.clone(), channels: cfg.slack_channels.clone() }
    }

    /// Writes the messages on a day's releases, in the order in which they
    /// are to be posted: channel after channel, each with its opening and
    /// then one message for each release. Writes none at all where a
    /// release lacks the metadata of a catalog.
    pub fn post_releases(&self, releases: &Vec<Release>, unix_ts: i32) -> (r: Option<
        Vec<Message>,
    >)
        ensures
            r.deep_view() == if all_enriched(releases.deep_view()) {
                Some(all_messages(self.channels.deep_view(), releases.deep_view(), unix_ts))
            } else {
                None
            },
    {
        if !can_post(releases) {
            return None;
        }
        let mut r: Vec<Message> = Vec::new();
        assert(r.deep_view() =~= Seq::<MessageView>::empty());
        assert(self.channels.deep_view().take(0) =~= Seq::<Seq<char>>::empty());
        let mut c: usize = 0;
        while c < self.channels.len()
            invariant
                c <= self.channels.len(),
                all_enriched(releases.deep_view()),
                r.deep_view() == all_messages(
                    self.channels.deep_view().take(c as int),
                    releases.deep_view(),
                    unix_ts,
                ),
            decreases self.channels.len() - c,
        {
            let channel = self.channels[c].as_str();
            let ghost before = r.deep_view();
            let ghost expected = channel_messages(channel@, releases.deep_view(), unix_ts);
            proof {
                let next = self.channels.deep_view().take(c + 1);
                assert(next.drop_last() == self.channels.deep_view().take(c as int));
                assert(next.last() == channel@);
            }
            r.push(write_opening(channel, releases.len()));
            let mut i: usize = 0;
            while i < releases.len()
                invariant
                    i <= releases.len(),
                    all_enriched(releases.deep_view()),
                    expected == channel_messages(channel@, releases.deep_view(), unix_ts),
                    r.deep_view() == before + expected.take(i + 1),
                decreases releases.len() - i,
            {
                assert(releases.deep_view()[i as int] == releases[i as int]@);
                let ghost sofar = r.deep_view();
                match write_release_message(channel, i + 1, &releases[i], unix_ts) {
                    Some(message) => {
                        r.push(message);
                    },
                    None => {
                        return None;
                    },
                }
                assert(r.deep_view() =~= sofar.push(expected[i + 1]));
                assert(expected.take(i + 2) =~= expected.take(i + 1).push(expected[i + 1]));
                i += 1;
            }
            assert(expected.take(releases.len() + 1) =~= expected);
            c += 1;
        }
        assert(self.channels.deep_view().take(self.channels.len() as int)
            == self.channels.deep_view());
        Some(r)
    }
}

} // verus!
