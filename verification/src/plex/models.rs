use vstd::prelude::*;

verus! {

// ---------------------------------------------------------------------------
// Session metadata, as reported by `/status/sessions` and `/library/metadata`.
// ---------------------------------------------------------------------------

/// A JSON scalar as Plex sends it in fields that may be either a number or a
/// string. Numbers carry their JSON text; `Other` carries the JSON text of a
/// value of any other kind.
#[derive(Debug, Clone)]
pub enum JsonScalar {
    Str(String),
    Number(String),
    Null,
    Other(String),
}

/// A value that Plex may encode as either a JSON number or a JSON string,
/// normalized to its string form.
#[derive(Debug, Clone)]
pub struct NumOrString(pub String);

impl View for NumOrString {
    type V = Seq<char>;

    open spec fn view(&self) -> Seq<char> {
        self.0@
    }
}

impl NumOrString {
    /// The empty value (what an absent or `null` field stands for).
    pub fn empty() -> (r: Self)
        ensures
            r@ == Seq::<char>::empty(),
    {
        NumOrString(String::new())
    }

    /// Reads the normalized string out of a JSON scalar: strings and numbers
    /// give their text, `null` gives the empty string, and any other value is
    /// refused with a message that quotes it.
    pub fn from_json(value: JsonScalar) -> (r: Result<NumOrString, String>)
        ensures
            match value {
                JsonScalar::Str(s) => r matches Ok(v) && v@ == s@,
                JsonScalar::Number(n) => r matches Ok(v) && v@ == n@,
                JsonScalar::Null => r matches Ok(v) && v@ == Seq::<char>::empty(),
                JsonScalar::Other(text) => r matches Err(msg) && msg@ == "unexpected value: "@ + text@,
            },
    {
        match value {
            JsonScalar::Str(s) => Ok(NumOrString(s)),
            JsonScalar::Number(n) => Ok(NumOrString(n)),
            JsonScalar::Null => Ok(NumOrString::empty()),
            JsonScalar::Other(text) => {
                let msg = "unexpected value: ".to_owned();
                Err(msg.concat(text.as_str()))
            },
        }
    }

    /// The normalized string.
    pub fn as_str(&self) -> (r: &str)
        ensures
            r@ == self@,
    {
        self.0.as_str()
    }
}

#[derive(Debug, Clone)]
pub struct Part {
    pub decision: String,
}

pub struct PartView {
    pub decision: Seq<char>,
}

impl View for Part {
    type V = PartView;

    open spec fn view(&self) -> PartView {
        PartView { decision: self.decision@ }
    }
}

#[derive(Debug, Clone)]
pub struct Media {
    pub bitrate: i64,
    pub video_resolution: String,
    pub part: Vec<Part>,
}

pub struct MediaView {
    pub bitrate: i64,
    pub video_resolution: Seq<char>,
    pub part: Seq<PartView>,
}

impl View for Media {
    type V = MediaView;

    open spec fn view(&self) -> MediaView {
        MediaView {
            bitrate: self.bitrate,
            video_resolution: self.video_resolution@,
            part: self.part@.map_values(|p: Part| p@),
        }
    }
}

#[derive(Debug, Clone)]
pub struct Player {
    pub device: String,
    pub product: String,
}

pub struct PlayerView {
    pub device: Seq<char>,
    pub product: Seq<char>,
}

impl View for Player {
    type V = PlayerView;

    open spec fn view(&self) -> PlayerView {
        PlayerView { device: self.device@, product: self.product@ }
    }
}

#[derive(Debug, Clone)]
pub struct User {
    pub title: String,
}

pub struct UserView {
    pub title: Seq<char>,
}

impl View for User {
    type V = UserView;

    open spec fn view(&self) -> UserView {
        UserView { title: self.title@ }
    }
}

/// Transcoding state of a session. The transcode speed (1.0 is real time) is
/// carried as the bit pattern of its IEEE-754 double, unchanged.
#[derive(Debug, Clone, Copy, PartialEq, Eq, Structural)]
pub struct TranscodeSession {
    pub throttled: bool,
    pub speed_bits: u64,
}

#[derive(Debug)]
pub struct Metadata {
    pub player: Player,
    pub user: User,
    pub transcode_session: Option<TranscodeSession>,
    pub session_key: String,
    pub rating_key: String,
    pub title: String,
    pub parent_title: String,
    pub grandparent_title: String,
    pub media_type: String,
    pub library_section_id: NumOrString,
    pub media: Vec<Media>,
}

pub struct MetadataView {
    pub player: PlayerView,
    pub user: UserView,
    pub transcode_session: Option<TranscodeSession>,
    pub session_key: Seq<char>,
    pub rating_key: Seq<char>,
    pub title: Seq<char>,
    pub parent_title: Seq<char>,
    pub grandparent_title: Seq<char>,
    pub media_type: Seq<char>,
    pub library_section_id: Seq<char>,
    pub media: Seq<MediaView>,
}

impl View for Metadata {
    type V = MetadataView;

    open spec fn view(&self) -> MetadataView {
        MetadataView {
            player: self.player@,
            user: self.user@,
            transcode_session: self.transcode_session,
            session_key: self.session_key@,
            rating_key: self.rating_key@,
            title: self.title@,
            parent_title: self.parent_title@,
            grandparent_title: self.grandparent_title@,
            media_type: self.media_type@,
            library_section_id: self.library_section_id@,
            media: self.media@.map_values(|m: Media| m@),
        }
    }
}

/// Metadata with every field absent.
pub open spec fn empty_metadata() -> MetadataView {
    MetadataView {
        player: PlayerView { device: Seq::empty(), product: Seq::empty() },
        user: UserView { title: Seq::empty() },
        transcode_session: None,
        session_key: Seq::empty(),
        rating_key: Seq::empty(),
        title: Seq::empty(),
        parent_title: Seq::empty(),
        grandparent_title: Seq::empty(),
        media_type: Seq::empty(),
        library_section_id: Seq::empty(),
        media: Seq::empty(),
    }
}

/// The labels (title, child title, grandchild title) that describe what is
/// played: for episodes the show, season and episode titles, for anything
/// else the title alone.
pub open spec fn spec_play_labels(m: MetadataView) -> (Seq<char>, Seq<char>, Seq<char>) {
    if m.media_type == "episode"@ {
        (m.grandparent_title, m.parent_title, m.title)
    } else {
        (m.title, Seq::empty(), Seq::empty())
    }
}

/// Only episodes are labelled by show, season and episode: metadata of any
/// other media type is labelled by its own title alone.
pub proof fn lemma_play_labels_by_type(m: MetadataView)
    ensures
        m.media_type != "episode"@ ==> spec_play_labels(m) == (m.title, Seq::<char>::empty(), Seq::<char>::empty()),
        m.media_type == "episode"@ ==> spec_play_labels(m) == (m.grandparent_title, m.parent_title, m.title),
{
}

/// Whether `s` holds the same characters as `lit`.
pub(crate) fn string_equals(s: &String, lit: &str) -> (r: bool)
    ensures
        r == (s@ == lit@),
{
    let other = lit.to_owned();
    *s == other
}

impl Metadata {
    /// Metadata with every field absent.
    pub fn empty() -> (r: Self)
        ensures
            r@ == empty_metadata(),
    {
        let r = Metadata {
            player: Player { device: String::new(), product: String::new() },
            user: User { title: String::new() },
            transcode_session: None,
            session_key: String::new(),
            rating_key: String::new(),
            title: String::new(),
            parent_title: String::new(),
            grandparent_title: String::new(),
            media_type: String::new(),
            library_section_id: NumOrString::empty(),
            media: Vec::new(),
        };
        assert(r.media@.map_values(|m: Media| m@) =~= Seq::<MediaView>::empty());
        r
    }

    pub fn play_labels(&self) -> (r: (&str, &str, &str))
        ensures
            (r.0@, r.1@, r.2@) == spec_play_labels(self@),
    {
        proof {
            reveal_strlit("");
        }
        if string_equals(&self.media_type, "episode") {
            (self.grandparent_title.as_str(), self.parent_title.as_str(), self.title.as_str())
        } else {
            (self.title.as_str(), "", "")
        }
    }
}

#[derive(Debug)]
pub struct MetadataContainer {
    pub metadata: Vec<Metadata>,
}

#[derive(Debug)]
pub struct CurrentSessions {
    pub media_container: MetadataContainer,
}

#[derive(Debug)]
pub struct MediaMetadataResponse {
    pub media_container: MetadataContainer,
}

// ---------------------------------------------------------------------------
// Notifications.
// ---------------------------------------------------------------------------

#[derive(Debug, Clone)]
pub struct PlaySessionStateNotification {
    pub session_key: String,
    pub rating_key: String,
    pub state: String,
}

#[derive(Debug, Clone)]
pub struct NotificationContainer {
    pub play_session_state_notification: Vec<PlaySessionStateNotification>,
    pub notification_type: String,
}

#[derive(Debug, Clone)]
pub struct WebsocketNotification {
    pub notification_container: NotificationContainer,
}

// ---------------------------------------------------------------------------
// Server refresh responses.
// ---------------------------------------------------------------------------

#[derive(Debug, Clone)]
pub struct RootMediaContainer {
    pub version: String,
    pub platform: String,
    pub platform_version: String,
}

#[derive(Debug, Clone)]
pub struct RootResponse {
    pub media_container: RootMediaContainer,
}

#[derive(Debug, Clone)]
pub struct Directory {
    pub identifier: String,
    pub duration_total: i64,
    pub storage_total: i64,
    pub title: String,
    pub directory_type: String,
}

#[derive(Debug, Clone)]
pub struct Feature {
    pub feature_type: String,
    pub directories: Vec<Directory>,
}

#[derive(Debug, Clone)]
pub struct MediaProvider {
    pub identifier: String,
    pub features: Vec<Feature>,
}

#[derive(Debug, Clone)]
pub struct ProvidersMediaContainer {
    pub friendly_name: String,
    pub machine_identifier: String,
    pub media_providers: Vec<MediaProvider>,
}

#[derive(Debug, Clone)]
pub struct ProvidersResponse {
    pub media_container: ProvidersMediaContainer,
}

#[derive(Debug, Clone, Copy, PartialEq, Eq, Structural)]
pub struct LibraryItemsMediaContainer {
    pub size: i64,
    pub total_size: i64,
}

#[derive(Debug, Clone, Copy, PartialEq, Eq, Structural)]
pub struct LibraryItemsResponse {
    pub media_container: LibraryItemsMediaContainer,
}

#[derive(Debug, Clone, Copy, PartialEq, Eq, Structural)]
pub struct StatisticsBandwidth {
    pub at: i64,
    pub bytes: i64,
}

#[derive(Debug, Clone)]
pub struct BandwidthMediaContainer {
    pub statistics_bandwidth: Vec<StatisticsBandwidth>,
}

#[derive(Debug, Clone)]
pub struct BandwidthResponse {
    pub media_container: BandwidthMediaContainer,
}

} // verus!
