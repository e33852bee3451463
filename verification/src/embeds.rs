//! Plain message-embed data.
//!
//! These records carry the text a rendered message is built from; the
//! library fills them, the surrounding application renders them. Nothing
//! here touches the rendering itself.

use vstd::prelude::*;
use vstd::string::StringExecFns;

verus! {

/// A live stream announcement's ingredients.
#[derive(Debug, PartialEq, Eq)]
pub struct TwitchStream {
    pub username: String,
    pub title: String,
    pub thumbnail_url: String,
}

/// The parts a message embed can carry; absent parts stay out of the
/// rendered message.
#[derive(Debug)]
pub struct BasicEmbedData {
    pub author_icon: Option<String>,
    pub author_url: Option<String>,
    pub author_text: Option<String>,
    pub title_text: Option<String>,
    pub title_url: Option<String>,
    pub thumbnail: Option<String>,
    pub footer_text: Option<String>,
    pub footer_icon: Option<String>,
    pub description: Option<String>,
    pub image_url: Option<String>,
    pub fields: Option<Vec<(String, String, bool)>>,
}

impl Default for BasicEmbedData {
    /// An embed with every part absent.
    fn default() -> (r: BasicEmbedData)
        ensures
            r.author_icon is None,
            r.author_url is None,
            r.author_text is None,
            r.title_text is None,
            r.title_url is None,
            r.thumbnail is None,
            r.footer_text is None,
            r.footer_icon is None,
            r.description is None,
            r.image_url is None,
            r.fields is None,
    {
        BasicEmbedData {
            author_icon: None,
            author_url: None,
            author_text: None,
            title_text: None,
            title_url: None,
            thumbnail: None,
            footer_text: None,
            footer_icon: None,
            description: None,
            image_url: None,
            fields: None,
        }
    }
}

impl BasicEmbedData {
    /// Announces a stream that went live: the streamer's name as title,
    /// their stream page as the link, the stream's own title as text.
    pub fn create_twitch_stream_notif(stream: &TwitchStream) -> (r: BasicEmbedData)
        ensures
            r.author_text matches Some(t) && t@ == "Now live on twitch:"@,
            r.title_text matches Some(t) && t@ == stream.username@,
            r.title_url matches Some(u) && u@ == "https://www.twitch.tv/"@ + stream.username@,
            r.image_url matches Some(u) && u@ == stream.thumbnail_url@,
            r.description matches Some(d) && d@ == stream.title@,
            r.author_icon is None,
            r.author_url is None,
            r.thumbnail is None,
            r.footer_text is None,
            r.footer_icon is None,
            r.fields is None,
    {
        let mut result = BasicEmbedData::default();
        let mut title_url = String::from_str("https://www.twitch.tv/");
        title_url.append(stream.username.as_str());
        result.author_text = Some(String::from_str("Now live on twitch:"));
        result.title_text = Some(stream.username.clone());
        result.title_url = Some(title_url);
        result.image_url = Some(stream.thumbnail_url.clone());
        result.description = Some(stream.title.clone());
        result
    }
}

/// The author line of an embed: a name with an optional icon and link.
#[derive(Clone, Debug, PartialEq, Eq)]
pub struct Author {
    pub name: String,
    pub url: Option<String>,
    pub icon_url: Option<String>,
}

/// The footer line of an embed: a text with an optional icon.
#[derive(Clone, Debug, PartialEq, Eq)]
pub struct Footer {
    pub text: String,
    pub icon_url: Option<String>,
}

/// The parts of a rendered "missing pp for a rank" message.
#[derive(Clone, Debug, PartialEq, Eq)]
pub struct RankEmbed {
    pub description: String,
    pub title: String,
    pub thumbnail: String,
    pub author: Author,
}

/// The parts of a rendered top-plays page.
#[derive(Clone, Debug, PartialEq, Eq)]
pub struct TopEmbed {
    pub description: String,
    pub author: Author,
    pub thumbnail: String,
    pub footer: Footer,
}

/// The parts of a rendered global-leaderboard page.
#[derive(Clone, Debug, PartialEq, Eq)]
pub struct OsuStatsGlobalsEmbed {
    pub description: String,
    pub thumbnail: String,
    pub author: Author,
    pub footer: Footer,
}

/// The fixed prompt shown when a background-guessing round starts.
#[derive(Clone, Copy, Debug, PartialEq, Eq)]
pub struct BGStartEmbed {
    pub title: &'static str,
    pub description: &'static str,
}

impl BGStartEmbed {
    /// The prompt: how to pick tags by reacting.
    pub fn new() -> (r: BGStartEmbed)
        ensures
            r.title@ == "React to include tag, unreact to exclude tag"@,
    {
        let title = "React to include tag, unreact to exclude tag";
        let description = "(Not all backgrounds have been tagged properly yet, \
        I suggest to \u{2705} right away for now)\n\
        ```\n\
        \u{1F34B}: Easy \u{1F3A8}: Weeb \u{1F631}: Hard name \u{1F5FD}: English \u{1F4AF}: Tech\n\
        \u{1F913}: Hard \u{1F368}: Kpop \u{1FA80}: Alternate \u{1F300}: Streams \u{2705}: Lock in\n\
        \u{1F921}: Meme \u{1F468}\u{200D}\u{1F33E}: Farm \u{1F7E6}: Blue sky  \u{1F474}: Old\n\
        ```";
        BGStartEmbed { title, description }
    }
}

} // verus!
