//! The media channel's message vocabulary: the request and response bodies
//! and enumerated values an application-level media controller exchanges.
//! The core treats the media channel through the generic fallback; these
//! types give its callers a typed vocabulary to build and read payloads.

use vstd::prelude::*;
use crate::error::ErrorReason;
use crate::shared::Image;

verus! {

#[derive(Clone, Debug)]
pub struct DisplayStatusRequestData {
}

#[derive(Clone, Debug)]
pub struct EditAudioTracksRequestData {
    pub is_suggested_language: Option<bool>,
    pub language: Option<String>,
    pub media_session_id: Option<i32>,
}

#[derive(Clone, Debug)]
pub struct FetchItemsRequestData {
    pub item_id: i32,
    pub media_session_id: Option<i32>,
    pub next_count: i32,
    pub prev_count: i32,
}

#[derive(Clone, Debug)]
pub struct FocusStateRequestData {
    pub state: FocusState,
}

#[derive(Clone, Debug)]
pub struct GetItemsInfoRequestData {
    pub item_ids: Vec<i32>,
    pub media_session_id: Option<i32>,
}

#[derive(Clone, Debug)]
pub struct GetStatusRequestData {
    pub media_session_id: Option<i32>,
    pub options: Option<GetStatusOptions>,
}

#[derive(Clone, Debug)]
pub struct LoadByEntityRequestData {
    pub entity: String,
    pub shuffle: Option<bool>,
}

#[derive(Clone, Debug)]
pub struct RefreshCredentialsRequestData {
}

#[derive(Clone, Debug)]
pub struct RequestData {
    pub media_session_id: Option<i32>,
}

#[derive(Clone, Debug)]
pub struct SetCredentialsRequestData {
    pub credentials: String,
    pub for_request: Option<i32>,
    pub is_likely_3p_account_linked_user: Option<bool>,
}

#[derive(Clone, Debug)]
pub struct SetPlaybackRateRequestData {
    pub media_session_id: Option<i32>,
    pub playback_rate: Option<u32>,
    pub relative_playback_rate: Option<i32>,
}

#[derive(Clone, Debug)]
pub struct StoreSessionRequestData {
}

#[derive(Clone, Debug)]
pub struct UserActionRequestData {
    pub clear: Option<bool>,
    pub user_action: UserAction,
    pub user_action_context: Option<UserActionContext>,
}

/// The common body of media status responses: one entry per media session.
#[derive(Clone, Debug)]
pub struct ResponseData<T> {
    pub status: Vec<T>,
}

impl<T> ResponseData<T> {
    /// The first status entry; responses carry at least one.
    pub fn first(&self) -> (r: &T)
        requires
            self.status@.len() >= 1,
        ensures
            r == &self.status@[0],
    {
        &self.status[0]
    }
}

#[derive(Clone, Debug)]
pub struct ErrorResponseData {
    pub reason: ErrorReason,
}

#[derive(Clone, Debug)]
pub struct AduioTrackInfo {
    pub audio_codec: Option<String>,
    pub num_audio_channels: Option<i32>,
    pub spatial_audio: Option<bool>,
}

#[derive(Clone, Debug)]
pub struct AudiobookChapterMediaMetadata {
    pub book_title: Option<String>,
    pub chapter_number: Option<i32>,
    pub chapter_title: Option<String>,
    pub images: Option<Vec<Image>>,
    pub subtitle: Option<String>,
    pub title: Option<String>,
}

#[derive(Clone, Debug)]
pub struct AudiobookContainerMetadata {
    pub authors: Option<Vec<String>>,
    pub narrators: Option<Vec<String>>,
    pub publisher: Option<String>,
    pub release_date: Option<String>,
}

#[derive(Clone, Debug)]
pub struct CloudMediaStatus {
}

#[derive(Clone, Debug)]
pub struct GenericMediaMetadata {
    pub images: Option<Vec<Image>>,
    pub release_date: Option<String>,
    pub subtitle: Option<String>,
    pub title: Option<String>,
}

#[derive(Clone, Debug)]
pub struct MovieMediaMetadata {
    pub images: Option<Vec<Image>>,
    pub release_date: Option<String>,
    pub studio: Option<String>,
    pub subtitle: Option<String>,
    pub title: Option<String>,
}

#[derive(Clone, Debug)]
pub struct MusicTrackMediaMetadata {
    pub album_artist: Option<String>,
    pub album_name: Option<String>,
    pub artist: Option<String>,
    pub composer: Option<String>,
    pub disc_number: Option<i32>,
    pub images: Option<Vec<Image>>,
    pub release_date: Option<String>,
    pub secondary_image: Option<Image>,
    pub title: Option<String>,
    pub track_number: Option<i32>,
}

#[derive(Clone, Debug)]
pub struct PhotoMediaMetadata {
    pub artist: Option<String>,
    pub creation_date_time: Option<String>,
    pub height: Option<u32>,
    pub images: Option<Vec<Image>>,
    pub latitude: Option<i32>,
    pub location: Option<String>,
    pub longitude: Option<i32>,
    pub width: Option<u32>,
}

#[derive(Clone, Debug)]
pub struct QueueChange {
    pub change_type: Option<QueueChangeType>,
    pub insert_before: Option<i32>,
    pub item_ids: Option<Vec<i32>>,
    pub reorder_item_ids: Option<Vec<i32>>,
}

#[derive(Clone, Debug)]
pub struct QueueIds {
    pub item_ids: Option<Vec<i32>>,
}

#[derive(Clone, Debug)]
pub struct Track {
    pub audio_track_info: Option<AduioTrackInfo>,
    pub is_inband: Option<bool>,
    pub language: Option<String>,
    pub name: Option<String>,
    pub roles: Option<Vec<String>>,
    pub subtype: Option<TextTrackType>,
    pub track_content_id: Option<String>,
    pub track_content_type: Option<CaptionMimeType>,
    pub track_id: i32,
    pub type_: TrackType,
}

#[derive(Clone, Debug)]
pub struct TvShowMediaMetadata {
    pub episode: Option<i32>,
    pub episode_title: Option<String>,
    pub images: Option<Vec<Image>>,
    pub original_airdate: Option<String>,
    pub season: Option<i32>,
    pub series_title: Option<String>,
    pub title: Option<String>,
}

#[derive(Clone, Debug)]
pub struct UserActionState {
    pub user_action: UserAction,
}

#[derive(Clone, Debug)]
pub struct VastAdsRequest {
    pub ads_response: Option<String>,
    pub ad_tag_url: Option<String>,
}

#[derive(Clone, Debug)]
pub struct VideoInformation {
    pub hdr_type: HdrType,
    pub height: i32,
    pub width: i32,
}

#[derive(Clone, Copy, Debug, PartialEq, Eq, Structural)]
pub enum CaptionMimeType {
    Cea608,
    Ttml,
    Vtt,
    TtmlMp3,
}

#[derive(Clone, Copy, Debug, PartialEq, Eq, Structural)]
pub enum CommandOld {
    Pause,
    Seek,
    StreamVolume,
    StreamMute,
    AllBasicMedia,
    QueueNext,
    QueuePrev,
    QueueShuffle,
    QueueRepeatAll,
    QueueRepeatOne,
    QueueRepeat,
    SkipAd,
    EditTracks,
    PlaybackRate,
    Like,
    Dislike,
    Follow,
    Unfollow,
    StreamTransfer,
    Lyrics,
}

#[derive(Clone, Copy, Debug, PartialEq, Eq, Structural)]
pub enum ContainerType {
    GenericContainer,
    AudiobookContainer,
}

#[derive(Clone, Copy, Debug, PartialEq, Eq, Structural)]
pub enum ContentFilteringMode {
    FilterExplicit,
}

#[derive(Clone, Copy, Debug, PartialEq, Eq, Structural)]
pub enum ExtendedPlayerState {
    Loading,
}

#[derive(Clone, Copy, Debug, PartialEq, Eq, Structural)]
pub enum FocusState {
    InFocus,
    NotInFocus,
}

#[derive(Clone, Copy, Debug, PartialEq, Eq, Structural)]
pub enum GetStatusOptions {
    NoMetadata,
    NoQueueItems,
}

#[derive(Clone, Copy, Debug, PartialEq, Eq, Structural)]
pub enum HdrType {
    Sdr,
    Hdr,
    Dv,
}

#[derive(Clone, Copy, Debug, PartialEq, Eq, Structural)]
pub enum HlsSegmentFormat {
    Aac,
    Ac3,
    Mp3,
    Ts,
    TsAac,
    EAc3,
    Fmp4,
}

#[derive(Clone, Copy, Debug, PartialEq, Eq, Structural)]
pub enum HlsVideoSegmentFormat {
    Mpeg2Ts,
    Fmp4,
}

#[derive(Clone, Copy, Debug, PartialEq, Eq, Structural)]
pub enum IdleReason {
    Cancelled,
    Interrupted,
    Finished,
    Error,
}

#[derive(Clone, Copy, Debug, PartialEq, Eq, Structural)]
pub enum MediaCategory {
    Audio,
    Video,
    Image,
}

/// The kind-specific part of media metadata.
#[derive(Clone, Debug)]
pub enum MetadataType {
    Generic(GenericMediaMetadata),
    Movie(MovieMediaMetadata),
    TvShow(TvShowMediaMetadata),
    MusicTrack(MusicTrackMediaMetadata),
    Photo(PhotoMediaMetadata),
    AudiobookChapter(AudiobookChapterMediaMetadata),
}

#[derive(Clone, Copy, Debug, PartialEq, Eq, Structural)]
pub enum PlayerState {
    Idle,
    Playing,
    Paused,
    Buffering,
}

#[derive(Clone, Copy, Debug, PartialEq, Eq, Structural)]
pub enum QueueChangeType {
    Insert,
    Remove,
    ItemsChange,
    Update,
    NoChange,
}

#[derive(Clone, Copy, Debug, PartialEq, Eq, Structural)]
pub enum QueueType {
    Album,
    Playlist,
    Audiobook,
    RadioStation,
    PodcastSeries,
    TvSeries,
    VideoPlaylist,
    LiveTv,
    Movie,
}

#[derive(Clone, Copy, Debug, PartialEq, Eq, Structural)]
pub enum RepeatMode {
    RepeatOff,
    RepeatAll,
    RepeatSingle,
    RepeatAllAndShuffle,
}

#[derive(Clone, Copy, Debug, PartialEq, Eq, Structural)]
pub enum SeekResumeState {
    PlaybackStart,
    PlaybackPause,
}

#[derive(Clone, Copy, Debug, PartialEq, Eq, Structural)]
pub enum StreamingProtocolType {
    Unknown,
    MpegDash,
    Hls,
    SmoothStreaming,
}

#[derive(Clone, Copy, Debug, PartialEq, Eq, Structural)]
pub enum StreamType {
    NoStream,
    Buffered,
    Live,
}

#[derive(Clone, Copy, Debug, PartialEq, Eq, Structural)]
pub enum TextTrackEdgeType {
    NoEdge,
    Outline,
    DropShadow,
    Raised,
    Depressed,
}

#[derive(Clone, Copy, Debug, PartialEq, Eq, Structural)]
pub enum TextTrackFontGenericFamily {
    SansSerif,
    MonospacedSansSerif,
    Serif,
    MonospacedSerif,
    Casual,
    Cursive,
    SmallCapitals,
}

#[derive(Clone, Copy, Debug, PartialEq, Eq, Structural)]
pub enum TextTrackFontStyle {
    Normal,
    Bold,
    BoldItalic,
    Italic,
}

#[derive(Clone, Copy, Debug, PartialEq, Eq, Structural)]
pub enum TextTrackType {
    Subtitles,
    Captions,
    Descriptions,
    Chapters,
    Metadata,
}

#[derive(Clone, Copy, Debug, PartialEq, Eq, Structural)]
pub enum TextTrackWindowType {
    NoWindow,
    Normal,
    RoundedCorners,
}

#[derive(Clone, Copy, Debug, PartialEq, Eq, Structural)]
pub enum TrackType {
    Text,
    Audio,
    Video,
}

#[derive(Clone, Copy, Debug, PartialEq, Eq, Structural)]
pub enum UserAction {
    Like,
    Dislike,
    Follow,
    Unfollow,
    Flag,
    SkipAd,
    Lyrics,
}

#[derive(Clone, Copy, Debug, PartialEq, Eq, Structural)]
pub enum UserActionContext {
    UnknownContext,
    Track,
    Album,
    Artist,
    Playlist,
    Episode,
    Series,
    Movie,
    Channel,
    Team,
    Player,
    Coach,
}

} // verus!
