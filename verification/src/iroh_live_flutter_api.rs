//! The live node as the host application sees it: frames, devices,
//! renditions and statuses in plain values, the test pictures of the
//! capture page, and the host's own book of publishers and subscribers.

use vstd::prelude::*;
use crate::capture::paint;
use crate::capture::pattern_picture;
use crate::capture::TestPattern;
use crate::hex::hex_text;
use crate::iroh_live::new_publisher;
use crate::iroh_live::new_subscriber;
use crate::iroh_live::parse_ticket_text;
use crate::iroh_live::LiveNode;
use crate::iroh_live::PublisherModel;
use crate::iroh_live::SubscriberModel;
use crate::iroh_live::LiveTicket;
use crate::moq_protocol::names::texts;
use crate::text::contains;
use crate::text::decimal_string;
use crate::text::decimal_text;
use crate::text::has_infix;
use crate::text::str_eq;

verus! {

/// A raw picture.
#[derive(Debug, Clone)]
pub struct FlutterVideoFrame {
    pub width: u32,
    pub height: u32,
    pub data: Vec<u8>,
    pub timestamp_ms: u64,
    /// `rgba`, `nv12` or `i420`.
    pub format: String,
}

/// Raw audio.
#[derive(Debug, Clone)]
pub struct FlutterAudioSamples {
    pub data: Vec<u8>,
    pub sample_rate: u32,
    pub channels: u16,
    pub timestamp_ms: u64,
    /// `pcm_s16le` or `pcm_f32le`.
    pub format: String,
}

/// A device that pictures can be taken from.
#[derive(Debug, Clone)]
pub struct FlutterCaptureDevice {
    pub id: String,
    pub name: String,
    /// `camera`, `screen` or `test_pattern`.
    pub device_type: String,
    pub is_default: bool,
}

/// What a device is, as mathematical values.
pub struct DeviceModel {
    pub id: Seq<char>,
    pub name: Seq<char>,
    pub device_type: Seq<char>,
    pub is_default: bool,
}

impl View for FlutterCaptureDevice {
    type V = DeviceModel;

    open spec fn view(&self) -> DeviceModel {
        DeviceModel {
            id: self.id@,
            name: self.name@,
            device_type: self.device_type@,
            is_default: self.is_default,
        }
    }
}

/// A track of a catalog.
#[derive(Debug, Clone)]
pub struct FlutterTrackInfo {
    pub track_id: String,
    pub name: String,
    pub codec: String,
    /// Bits per second.
    pub bitrate: u32,
    pub extra: Vec<(String, String)>,
}

/// What a track is, as mathematical values.
pub struct TrackInfoModel {
    pub track_id: Seq<char>,
    pub name: Seq<char>,
    pub codec: Seq<char>,
    pub bitrate: u32,
}

impl View for FlutterTrackInfo {
    type V = TrackInfoModel;

    open spec fn view(&self) -> TrackInfoModel {
        TrackInfoModel {
            track_id: self.track_id@,
            name: self.name@,
            codec: self.codec@,
            bitrate: self.bitrate,
        }
    }
}

/// The tracks of a broadcast.
#[derive(Debug, Clone)]
pub struct FlutterBroadcastCatalog {
    pub broadcast_id: String,
    pub video_tracks: Vec<FlutterTrackInfo>,
    pub audio_tracks: Vec<FlutterTrackInfo>,
    pub created_at_ms: u64,
}

/// A way to encode video.
#[derive(Debug, Clone)]
pub struct FlutterVideoRendition {
    pub name: String,
    pub width: u32,
    pub height: u32,
    pub fps: u32,
    /// Bits per second.
    pub bitrate: u32,
    pub codec: String,
}

/// What a video rendition is, as mathematical values.
pub struct VideoRenditionModel {
    pub name: Seq<char>,
    pub width: u32,
    pub height: u32,
    pub fps: u32,
    pub bitrate: u32,
    pub codec: Seq<char>,
}

impl View for FlutterVideoRendition {
    type V = VideoRenditionModel;

    open spec fn view(&self) -> VideoRenditionModel {
        VideoRenditionModel {
            name: self.name@,
            width: self.width,
            height: self.height,
            fps: self.fps,
            bitrate: self.bitrate,
            codec: self.codec@,
        }
    }
}

/// A way to encode audio.
#[derive(Debug, Clone)]
pub struct FlutterAudioRendition {
    pub name: String,
    pub sample_rate: u32,
    pub channels: u16,
    /// Bits per second.
    pub bitrate: u32,
    pub codec: String,
}

/// What an audio rendition is, as mathematical values.
pub struct AudioRenditionModel {
    pub name: Seq<char>,
    pub sample_rate: u32,
    pub channels: u16,
    pub bitrate: u32,
    pub codec: Seq<char>,
}

impl View for FlutterAudioRendition {
    type V = AudioRenditionModel;

    open spec fn view(&self) -> AudioRenditionModel {
        AudioRenditionModel {
            name: self.name@,
            sample_rate: self.sample_rate,
            channels: self.channels,
            bitrate: self.bitrate,
            codec: self.codec@,
        }
    }
}

/// What a ticket says, for display.
#[derive(Debug, Clone)]
pub struct FlutterTicketInfo {
    pub broadcast_name: String,
    /// The endpoint id in hexadecimal.
    pub endpoint_id: String,
    pub ticket_string: String,
}

/// Bits per second of the video rendition `name`.
pub open spec fn video_bitrate_of(name: Seq<char>) -> u32 {
    if name == "P180"@ {
        150_000
    } else if name == "P360"@ {
        500_000
    } else if name == "P720"@ {
        2_000_000
    } else if name == "P1080"@ {
        4_500_000
    } else {
        1_000_000
    }
}

/// Bits per second of the audio rendition `name`.
pub open spec fn audio_bitrate_of(name: Seq<char>) -> u32 {
    if name == "opus_lq"@ {
        24_000
    } else if name == "opus_hq"@ {
        128_000
    } else if name == "aac_hq"@ {
        192_000
    } else {
        64_000
    }
}

/// The codec of the audio rendition `name`: Opus where the name says so.
pub open spec fn audio_codec_of(name: Seq<char>) -> Seq<char> {
    if has_infix(name, "opus"@) {
        "opus"@
    } else {
        "aac"@
    }
}

/// The catalog entry of the video rendition `name`.
pub open spec fn video_track_info(name: Seq<char>) -> TrackInfoModel {
    TrackInfoModel {
        track_id: "video_"@ + name,
        name,
        codec: "h264"@,
        bitrate: video_bitrate_of(name),
    }
}

/// The catalog entry of the audio rendition `name`.
pub open spec fn audio_track_info(name: Seq<char>) -> TrackInfoModel {
    TrackInfoModel {
        track_id: "audio_"@ + name,
        name,
        codec: audio_codec_of(name),
        bitrate: audio_bitrate_of(name),
    }
}

fn video_bitrate(name: &str) -> (b: u32)
    ensures
        b == video_bitrate_of(name@),
{
    if str_eq(name, "P180") {
        150_000
    } else if str_eq(name, "P360") {
        500_000
    } else if str_eq(name, "P720") {
        2_000_000
    } else if str_eq(name, "P1080") {
        4_500_000
    } else {
        1_000_000
    }
}

fn audio_bitrate(name: &str) -> (b: u32)
    ensures
        b == audio_bitrate_of(name@),
{
    if str_eq(name, "opus_lq") {
        24_000
    } else if str_eq(name, "opus_hq") {
        128_000
    } else if str_eq(name, "aac_hq") {
        192_000
    } else {
        64_000
    }
}

fn video_track(name: &str) -> (t: FlutterTrackInfo)
    ensures
        t@ == video_track_info(name@),
        t.extra@.len() == 0,
{
    let mut track_id = "video_".to_owned();
    track_id.append(name);
    FlutterTrackInfo {
        track_id,
        name: name.to_owned(),
        codec: "h264".to_owned(),
        bitrate: video_bitrate(name),
        extra: Vec::new(),
    }
}

fn audio_track(name: &str) -> (t: FlutterTrackInfo)
    ensures
        t@ == audio_track_info(name@),
        t.extra@.len() == 0,
{
    let mut track_id = "audio_".to_owned();
    track_id.append(name);
    let codec = if contains(name, "opus") {
        "opus".to_owned()
    } else {
        "aac".to_owned()
    };
    FlutterTrackInfo {
        track_id,
        name: name.to_owned(),
        codec,
        bitrate: audio_bitrate(name),
        extra: Vec::new(),
    }
}

/// What each track of `tracks` is.
pub open spec fn track_infos(tracks: Seq<FlutterTrackInfo>) -> Seq<TrackInfoModel> {
    tracks.map_values(|t: FlutterTrackInfo| t@)
}

/// The catalog of the broadcast `broadcast_id`, made at `now`, with one
/// track for each rendition that is named, in the order given.
pub fn iroh_catalog_create(
    broadcast_id: String,
    video_renditions: &Vec<String>,
    audio_renditions: &Vec<String>,
    now: u64,
) -> (c: FlutterBroadcastCatalog)
    ensures
        c.broadcast_id == broadcast_id,
        c.created_at_ms == now,
        track_infos(c.video_tracks@) == texts(video_renditions@).map_values(
            |n: Seq<char>| video_track_info(n),
        ),
        track_infos(c.audio_tracks@) == texts(audio_renditions@).map_values(
            |n: Seq<char>| audio_track_info(n),
        ),
{
    let mut video_tracks: Vec<FlutterTrackInfo> = Vec::new();
    let mut i: usize = 0;
    while i < video_renditions.len()
        invariant
            0 <= i <= video_renditions@.len(),
            track_infos(video_tracks@) == texts(video_renditions@).take(i as int).map_values(
                |n: Seq<char>| video_track_info(n),
            ),
        decreases video_renditions@.len() - i,
    {
        let t = video_track(video_renditions[i].as_str());
        proof {
            let all = texts(video_renditions@);
            assert(all.take(i + 1) =~= all.take(i as int).push(all[i as int]));
            assert(track_infos(video_tracks@.push(t)) =~= track_infos(video_tracks@).push(t@));
            assert(all.take(i + 1).map_values(|n: Seq<char>| video_track_info(n)) =~= all.take(
                i as int,
            ).map_values(|n: Seq<char>| video_track_info(n)).push(video_track_info(all[i as int])));
        }
        video_tracks.push(t);
        i = i + 1;
    }
    let mut audio_tracks: Vec<FlutterTrackInfo> = Vec::new();
    let mut k: usize = 0;
    while k < audio_renditions.len()
        invariant
            0 <= k <= audio_renditions@.len(),
            track_infos(audio_tracks@) == texts(audio_renditions@).take(k as int).map_values(
                |n: Seq<char>| audio_track_info(n),
            ),
        decreases audio_renditions@.len() - k,
    {
        let t = audio_track(audio_renditions[k].as_str());
        proof {
            let all = texts(audio_renditions@);
            assert(all.take(k + 1) =~= all.take(k as int).push(all[k as int]));
            assert(track_infos(audio_tracks@.push(t)) =~= track_infos(audio_tracks@).push(t@));
            assert(all.take(k + 1).map_values(|n: Seq<char>| audio_track_info(n)) =~= all.take(
                k as int,
            ).map_values(|n: Seq<char>| audio_track_info(n)).push(audio_track_info(all[k as int])));
        }
        audio_tracks.push(t);
        k = k + 1;
    }
    proof {
        let v = texts(video_renditions@);
        let a = texts(audio_renditions@);
        assert(v.take(v.len() as int) =~= v);
        assert(a.take(a.len() as int) =~= a);
    }
    FlutterBroadcastCatalog { broadcast_id, video_tracks, audio_tracks, created_at_ms: now }
}

/// The summary of a catalog as a JSON object: its id, the numbers of its
/// video and audio tracks, and when it was made. The id is written as it
/// is, without escaping.
pub open spec fn catalog_summary(broadcast_id: Seq<char>, video: nat, audio: nat, created_at_ms: u64) -> Seq<
    char,
> {
    "{\"broadcast_id\":\""@ + broadcast_id + "\",\"video_tracks_count\":"@ + decimal_text(video)
        + ",\"audio_tracks_count\":"@ + decimal_text(audio) + ",\"created_at_ms\":"@ + decimal_text(
        created_at_ms as nat,
    ) + "}"@
}

/// The summary of `catalog` as JSON.
pub fn iroh_catalog_to_json(catalog: &FlutterBroadcastCatalog) -> (s: String)
    ensures
        s@ == catalog_summary(
            catalog.broadcast_id@,
            catalog.video_tracks@.len(),
            catalog.audio_tracks@.len(),
            catalog.created_at_ms,
        ),
{
    let mut s = "{\"broadcast_id\":\"".to_owned();
    s.append(catalog.broadcast_id.as_str());
    s.append("\",\"video_tracks_count\":");
    s.append(decimal_string(catalog.video_tracks.len() as u64).as_str());
    s.append(",\"audio_tracks_count\":");
    s.append(decimal_string(catalog.audio_tracks.len() as u64).as_str());
    s.append(",\"created_at_ms\":");
    s.append(decimal_string(catalog.created_at_ms).as_str());
    s.append("}");
    s
}

/// What the ticket `ticket_string` says, where it is a ticket: its
/// broadcast name, empty where it has none, and its endpoint id.
pub fn iroh_ticket_parse(ticket_string: String) -> (r: Option<FlutterTicketInfo>)
    requires
        ticket_string@.len() <= usize::MAX / 32,
    ensures
        match parse_ticket_text(ticket_string@) {
            Ok(t) => r is Some && r->0.ticket_string == ticket_string && r->0.endpoint_id@ == hex_text(
                t.endpoint_id,
            ) && r->0.broadcast_name@ == (match t.broadcast_name {
                Some(n) => n,
                None => Seq::<char>::empty(),
            }),
            Err(_) => r is None,
        },
{
    match LiveTicket::deserialize(ticket_string.as_str()) {
        Ok(ticket) => {
            let endpoint_id = ticket.endpoint_id.to_text();
            let broadcast_name = match ticket.broadcast_name {
                Some(n) => n,
                None => String::new(),
            };
            Some(FlutterTicketInfo { broadcast_name, endpoint_id, ticket_string })
        },
        Err(_) => None,
    }
}

/// What each rendition of `all` is.
pub open spec fn video_renditions(all: Seq<FlutterVideoRendition>) -> Seq<VideoRenditionModel> {
    all.map_values(|r: FlutterVideoRendition| r@)
}

/// What each rendition of `all` is.
pub open spec fn audio_renditions(all: Seq<FlutterAudioRendition>) -> Seq<AudioRenditionModel> {
    all.map_values(|r: FlutterAudioRendition| r@)
}

/// The video rendition of a name and a size, in H.264.
pub open spec fn h264_rendition(name: Seq<char>, width: u32, height: u32, fps: u32, bitrate: u32) -> VideoRenditionModel {
    VideoRenditionModel { name, width, height, fps, bitrate, codec: "h264"@ }
}

fn video_rendition(name: &str, width: u32, height: u32, fps: u32, bitrate: u32) -> (r: FlutterVideoRendition)
    ensures
        r@ == h264_rendition(name@, width, height, fps, bitrate),
{
    FlutterVideoRendition { name: name.to_owned(), width, height, fps, bitrate, codec: "h264".to_owned() }
}

/// The video renditions on offer, smallest first.
pub fn iroh_get_video_presets() -> (all: Vec<FlutterVideoRendition>)
    ensures
        video_renditions(all@) == seq![
            h264_rendition("P180"@, 320, 180, 15, 150_000),
            h264_rendition("P360"@, 640, 360, 30, 500_000),
            h264_rendition("P720"@, 1280, 720, 30, 2_000_000),
            h264_rendition("P1080"@, 1920, 1080, 30, 4_500_000),
        ],
{
    let mut all: Vec<FlutterVideoRendition> = Vec::new();
    all.push(video_rendition("P180", 320, 180, 15, 150_000));
    all.push(video_rendition("P360", 640, 360, 30, 500_000));
    all.push(video_rendition("P720", 1280, 720, 30, 2_000_000));
    all.push(video_rendition("P1080", 1920, 1080, 30, 4_500_000));
    proof {
        assert(video_renditions(all@) =~= seq![
            h264_rendition("P180"@, 320, 180, 15, 150_000),
            h264_rendition("P360"@, 640, 360, 30, 500_000),
            h264_rendition("P720"@, 1280, 720, 30, 2_000_000),
            h264_rendition("P1080"@, 1920, 1080, 30, 4_500_000),
        ]);
    }
    all
}

fn audio_rendition(name: &str, sample_rate: u32, channels: u16, bitrate: u32, codec: &str) -> (r:
    FlutterAudioRendition)
    ensures
        r@ == (AudioRenditionModel { name: name@, sample_rate, channels, bitrate, codec: codec@ }),
{
    FlutterAudioRendition {
        name: name.to_owned(),
        sample_rate,
        channels,
        bitrate,
        codec: codec.to_owned(),
    }
}

/// The audio renditions on offer.
pub fn iroh_get_audio_presets() -> (all: Vec<FlutterAudioRendition>)
    ensures
        audio_renditions(all@) == seq![
            AudioRenditionModel {
                name: "opus_lq"@,
                sample_rate: 24000,
                channels: 1,
                bitrate: 24_000,
                codec: "opus"@,
            },
            AudioRenditionModel {
                name: "opus_hq"@,
                sample_rate: 48000,
                channels: 2,
                bitrate: 128_000,
                codec: "opus"@,
            },
            AudioRenditionModel {
                name: "aac_hq"@,
                sample_rate: 44100,
                channels: 2,
                bitrate: 192_000,
                codec: "aac"@,
            },
        ],
{
    let mut all: Vec<FlutterAudioRendition> = Vec::new();
    all.push(audio_rendition("opus_lq", 24000, 1, 24_000, "opus"));
    all.push(audio_rendition("opus_hq", 48000, 2, 128_000, "opus"));
    all.push(audio_rendition("aac_hq", 44100, 2, 192_000, "aac"));
    proof {
        assert(audio_renditions(all@) =~= seq![
            AudioRenditionModel {
                name: "opus_lq"@,
                sample_rate: 24000,
                channels: 1,
                bitrate: 24_000,
                codec: "opus"@,
            },
            AudioRenditionModel {
                name: "opus_hq"@,
                sample_rate: 48000,
                channels: 2,
                bitrate: 128_000,
                codec: "opus"@,
            },
            AudioRenditionModel {
                name: "aac_hq"@,
                sample_rate: 44100,
                channels: 2,
                bitrate: 192_000,
                codec: "aac"@,
            },
        ]);
    }
    all
}

/// The video codecs that the node can carry.
pub fn iroh_get_supported_video_codecs() -> (names: Vec<String>)
    ensures
        texts(names@) == seq!["h264"@, "h265"@, "vp8"@, "vp9"@, "av1"@],
{
    let mut names: Vec<String> = Vec::new();
    names.push("h264".to_owned());
    names.push("h265".to_owned());
    names.push("vp8".to_owned());
    names.push("vp9".to_owned());
    names.push("av1".to_owned());
    proof {
        assert(texts(names@) =~= seq!["h264"@, "h265"@, "vp8"@, "vp9"@, "av1"@]);
    }
    names
}

/// The audio codecs that the node can carry.
pub fn iroh_get_supported_audio_codecs() -> (names: Vec<String>)
    ensures
        texts(names@) == seq!["opus"@, "aac"@, "pcm"@],
{
    let mut names: Vec<String> = Vec::new();
    names.push("opus".to_owned());
    names.push("aac".to_owned());
    names.push("pcm".to_owned());
    proof {
        assert(texts(names@) =~= seq!["opus"@, "aac"@, "pcm"@]);
    }
    names
}

/// Whether hardware commonly encodes the codec: H.264, H.265, VP8 and
/// VP9.
pub open spec fn hw_accelerated(codec: Seq<char>) -> bool {
    codec == "h264"@ || codec == "h265"@ || codec == "vp8"@ || codec == "vp9"@
}

/// Whether hardware commonly encodes `codec`.
pub fn iroh_is_codec_hw_accelerated(codec: &str) -> (b: bool)
    ensures
        b == hw_accelerated(codec@),
{
    str_eq(codec, "h264") || str_eq(codec, "h265") || str_eq(codec, "vp8") || str_eq(codec, "vp9")
}

/// The version of the host interface.
pub fn iroh_get_version() -> (v: String)
    ensures
        v@ == "0.1.0"@,
{
    "0.1.0".to_owned()
}

/// A named feature and whether the node has it.
pub struct Feature {
    pub name: String,
    pub enabled: bool,
}

/// What each feature of `all` says.
pub open spec fn feature_flags(all: Seq<Feature>) -> Seq<(Seq<char>, bool)> {
    all.map_values(|f: Feature| (f.name@, f.enabled))
}

fn feature(name: &str, enabled: bool) -> (f: Feature)
    ensures
        f.name@ == name@,
        f.enabled == enabled,
{
    Feature { name: name.to_owned(), enabled }
}

/// The features of the node: everything but screen capture.
pub fn iroh_get_features() -> (all: Vec<Feature>)
    ensures
        feature_flags(all@) == seq![
            ("capture"@, true),
            ("publish"@, true),
            ("subscribe"@, true),
            ("hw_encode"@, true),
            ("hw_decode"@, true),
            ("screen_capture"@, false),
            ("camera_capture"@, true),
            ("test_patterns"@, true),
            ("multi_quality"@, true),
            ("p2p_quic"@, true),
        ],
{
    let mut all: Vec<Feature> = Vec::new();
    all.push(feature("capture", true));
    all.push(feature("publish", true));
    all.push(feature("subscribe", true));
    all.push(feature("hw_encode", true));
    all.push(feature("hw_decode", true));
    all.push(feature("screen_capture", false));
    all.push(feature("camera_capture", true));
    all.push(feature("test_patterns", true));
    all.push(feature("multi_quality", true));
    all.push(feature("p2p_quic", true));
    proof {
        assert(feature_flags(all@) =~= seq![
            ("capture"@, true),
            ("publish"@, true),
            ("subscribe"@, true),
            ("hw_encode"@, true),
            ("hw_decode"@, true),
            ("screen_capture"@, false),
            ("camera_capture"@, true),
            ("test_patterns"@, true),
            ("multi_quality"@, true),
            ("p2p_quic"@, true),
        ]);
    }
    all
}

/// Side of the box of the host's moving-box picture, in pixels.
pub const HOST_BOX_SIZE: u32 = 100;

/// Milliseconds between two test pictures.
pub const TEST_FRAME_MS: u64 = 33;

/// How far the box may move along a side of `side` pixels: nowhere along a
/// side no longer than the box.
pub open spec fn box_room(side: u32) -> u32 {
    if side > HOST_BOX_SIZE {
        (side - HOST_BOX_SIZE) as u32
    } else {
        0
    }
}

/// Red, green and blue of the pixel `(x, y)` of the moving-box picture
/// number `frame_num`: an orange box on dark grey, which moves 5 pixels to
/// the right and 3 down with each picture and starts again at the edge. A
/// picture with no room for the box to move is all grey.
pub open spec fn box_rgb(width: u32, height: u32, frame_num: u64, x: u32, y: u32) -> (u8, u8, u8) {
    if box_room(width) == 0 || box_room(height) == 0 {
        (40, 40, 40)
    } else {
        let box_x = (frame_num * 5) % (box_room(width) as int);
        let box_y = (frame_num * 3) % (box_room(height) as int);
        if box_x <= x && x < box_x + HOST_BOX_SIZE && box_y <= y && y < box_y + HOST_BOX_SIZE {
            (255, 128, 0)
        } else {
            (40, 40, 40)
        }
    }
}

/// Byte `i` of the moving-box picture: red, green, blue and full opacity
/// for each pixel, row by row.
pub open spec fn box_byte(width: u32, height: u32, frame_num: u64, i: int) -> u8 {
    let pixel = i / 4;
    let x = (pixel % (width as int)) as u32;
    let y = (pixel / (width as int)) as u32;
    let rgb = box_rgb(width, height, frame_num, x, y);
    if i % 4 == 0 {
        rgb.0
    } else if i % 4 == 1 {
        rgb.1
    } else if i % 4 == 2 {
        rgb.2
    } else {
        255
    }
}

/// The moving-box picture number `frame_num`.
pub open spec fn box_picture(width: u32, height: u32, frame_num: u64) -> Seq<u8> {
    Seq::new((width * height * 4) as nat, |i: int| box_byte(width, height, frame_num, i))
}

fn box_pixel(width: u32, height: u32, frame_num: u64, x: u32, y: u32) -> (rgb: (u8, u8, u8))
    requires
        x < width,
        y < height,
    ensures
        rgb == box_rgb(width, height, frame_num, x, y),
{
    let max_x = width.saturating_sub(HOST_BOX_SIZE);
    let max_y = height.saturating_sub(HOST_BOX_SIZE);
    if max_x == 0 || max_y == 0 {
        return (40, 40, 40);
    }
    let box_x = ((frame_num as u128 * 5) % (max_x as u128)) as u64;
    let box_y = ((frame_num as u128 * 3) % (max_y as u128)) as u64;
    let xi = x as u64;
    let yi = y as u64;
    if box_x <= xi && xi < box_x + HOST_BOX_SIZE as u64 && box_y <= yi && yi < box_y
        + HOST_BOX_SIZE as u64 {
        (255, 128, 0)
    } else {
        (40, 40, 40)
    }
}

/// Paints the moving-box picture number `frame_num`.
pub fn generate_moving_box(width: u32, height: u32, frame_num: u64) -> (data: Vec<u8>)
    requires
        width * height * 4 <= usize::MAX,
    ensures
        data@ == box_picture(width, height, frame_num),
{
    let mut data: Vec<u8> = Vec::new();
    let mut y: u32 = 0;
    proof {
        assert(0 * width * 4 == 0) by (nonlinear_arith);
        assert(data@ =~= Seq::new(0nat, |i: int| box_byte(width, height, frame_num, i)));
    }
    while y < height
        invariant
            width * height * 4 <= usize::MAX,
            0 <= y <= height,
            data@ == Seq::new((y * width * 4) as nat, |i: int| box_byte(width, height, frame_num, i)),
        decreases height - y,
    {
        let mut x: u32 = 0;
        proof {
            assert((y * width + 0) * 4 == y * width * 4) by (nonlinear_arith);
            assert((y + 1) * width <= height * width) by (nonlinear_arith)
                requires
                    y + 1 <= height,
            ;
            assert(height * width == width * height) by (nonlinear_arith);
        }
        while x < width
            invariant
                (y + 1) * width <= width * height,
                width * height * 4 <= usize::MAX,
                0 <= y < height,
                0 <= x <= width,
                data@ == Seq::new(
                    ((y * width + x) * 4) as nat,
                    |i: int| box_byte(width, height, frame_num, i),
                ),
            decreases width - x,
        {
            let rgb = box_pixel(width, height, frame_num, x, y);
            let ghost pixel = y * width + x;
            proof {
                assert(y * width >= 0) by (nonlinear_arith);
                vstd::arithmetic::div_mod::lemma_fundamental_div_mod_converse(
                    pixel,
                    width as int,
                    y as int,
                    x as int,
                );
                assert((y * width + x + 1) * 4 == pixel * 4 + 4);
            }
            data.push(rgb.0);
            data.push(rgb.1);
            data.push(rgb.2);
            data.push(255);
            proof {
                assert(data@ =~= Seq::new(
                    ((y * width + (x + 1)) * 4) as nat,
                    |i: int| box_byte(width, height, frame_num, i),
                ));
            }
            x = x + 1;
        }
        proof {
            assert((y + 1) * width == y * width + width) by (nonlinear_arith);
            assert((y * width + width) * 4 == (y + 1) * width * 4) by (nonlinear_arith);
        }
        y = y + 1;
    }
    proof {
        assert(height * width * 4 == width * height * 4) by (nonlinear_arith);
    }
    data
}

/// Whether colour bars can be painted in a size: a picture with pixels
/// needs a width of 8.
pub open spec fn bars_fit(width: u32, height: u32) -> bool {
    width >= 8 || width == 0 || height == 0
}

/// Paints the colour bars: eight upright bars of equal width, white,
/// yellow, cyan, green, magenta, red, blue and black; what is left over on
/// the right is black.
pub fn generate_color_bars(width: u32, height: u32) -> (data: Vec<u8>)
    requires
        bars_fit(width, height),
        width * height * 4 <= usize::MAX,
    ensures
        data@ == pattern_picture(TestPattern::ColorBars, width, height, 0),
{
    if width == 0 || height == 0 {
        let data: Vec<u8> = Vec::new();
        proof {
            assert(width * height * 4 == 0) by (nonlinear_arith)
                requires
                    width == 0 || height == 0,
            ;
            assert(data@ =~= pattern_picture(TestPattern::ColorBars, width, height, 0));
        }
        return data;
    }
    paint(TestPattern::ColorBars, width, height, 0)
}

/// The test pictures that are painted here.
#[derive(Debug, Clone, Copy, PartialEq, Eq, Structural)]
pub enum HostPattern {
    ColorBars,
    MovingBox,
}

/// The picture that a pattern's name asks for: the moving box for
/// `moving_box`, nothing for `gradient`, which is painted elsewhere, and
/// the colour bars for every other name.
pub open spec fn pattern_named(name: Seq<char>) -> Option<HostPattern> {
    if name == "moving_box"@ {
        Some(HostPattern::MovingBox)
    } else if name == "gradient"@ {
        None
    } else {
        Some(HostPattern::ColorBars)
    }
}

/// The devices that a host can capture from.
pub open spec fn stock_devices() -> Seq<DeviceModel> {
    seq![
        DeviceModel {
            id: "camera_front"@,
            name: "Front Camera"@,
            device_type: "camera"@,
            is_default: true,
        },
        DeviceModel {
            id: "camera_back"@,
            name: "Back Camera"@,
            device_type: "camera"@,
            is_default: false,
        },
        DeviceModel {
            id: "test_pattern_color_bars"@,
            name: "Color Bars Test Pattern"@,
            device_type: "test_pattern"@,
            is_default: false,
        },
        DeviceModel {
            id: "test_pattern_gradient"@,
            name: "Gradient Test Pattern"@,
            device_type: "test_pattern"@,
            is_default: false,
        },
        DeviceModel {
            id: "test_pattern_moving_box"@,
            name: "Moving Box Test Pattern"@,
            device_type: "test_pattern"@,
            is_default: false,
        },
    ]
}

/// What each device of `all` is.
pub open spec fn device_models(all: Seq<FlutterCaptureDevice>) -> Seq<DeviceModel> {
    all.map_values(|d: FlutterCaptureDevice| d@)
}

/// Whether one of the devices has the id `id`.
pub open spec fn has_device(devices: Seq<DeviceModel>, id: Seq<char>) -> bool {
    exists|i: int| 0 <= i < devices.len() && (#[trigger] devices[i]).id == id
}

fn device(id: &str, name: &str, device_type: &str, is_default: bool) -> (d: FlutterCaptureDevice)
    ensures
        d@ == (DeviceModel { id: id@, name: name@, device_type: device_type@, is_default }),
{
    FlutterCaptureDevice {
        id: id.to_owned(),
        name: name.to_owned(),
        device_type: device_type.to_owned(),
        is_default,
    }
}

/// What the host holds of capture: the devices, the device that pictures
/// are taken from, and the number of test pictures painted since capture
/// last started.
pub struct CaptureState {
    devices: Vec<FlutterCaptureDevice>,
    active_capture: Option<String>,
    frame_counter: u64,
}

impl CaptureState {
    /// The devices, in the order of their listing.
    pub closed spec fn devices(&self) -> Seq<DeviceModel> {
        device_models(self.devices@)
    }

    /// The id of the device that pictures are taken from.
    pub closed spec fn active(&self) -> Option<Seq<char>> {
        match self.active_capture {
            Some(id) => Some(id@),
            None => None,
        }
    }

    /// Number of test pictures painted since capture last started.
    pub closed spec fn frames(&self) -> u64 {
        self.frame_counter
    }

    /// No devices, no capture.
    pub fn new() -> (s: Self)
        ensures
            s.devices() == Seq::<DeviceModel>::empty(),
            s.active() is None,
            s.frames() == 0,
    {
        let s = CaptureState { devices: Vec::new(), active_capture: None, frame_counter: 0 };
        proof {
            assert(s.devices() =~= Seq::<DeviceModel>::empty());
        }
        s
    }

    /// Number of test pictures painted since capture last started.
    pub fn frame_count(&self) -> (n: u64)
        ensures
            n == self.frames(),
    {
        self.frame_counter
    }

    /// Lists the stock devices in place of the devices listed before.
    pub fn iroh_capture_init(&mut self) -> (ok: bool)
        ensures
            ok,
            final(self).devices() == stock_devices(),
            final(self).active() == old(self).active(),
            final(self).frames() == old(self).frames(),
    {
        let mut devices: Vec<FlutterCaptureDevice> = Vec::new();
        devices.push(device("camera_front", "Front Camera", "camera", true));
        devices.push(device("camera_back", "Back Camera", "camera", false));
        devices.push(device("test_pattern_color_bars", "Color Bars Test Pattern", "test_pattern", false));
        devices.push(device("test_pattern_gradient", "Gradient Test Pattern", "test_pattern", false));
        devices.push(
            device("test_pattern_moving_box", "Moving Box Test Pattern", "test_pattern", false),
        );
        proof {
            assert(device_models(devices@) =~= stock_devices());
        }
        self.devices = devices;
        true
    }

    /// Copies of the devices.
    pub fn iroh_capture_list_devices(&self) -> (all: Vec<FlutterCaptureDevice>)
        ensures
            device_models(all@) == self.devices(),
    {
        let mut all: Vec<FlutterCaptureDevice> = Vec::new();
        let mut i: usize = 0;
        while i < self.devices.len()
            invariant
                0 <= i <= self.devices@.len(),
                device_models(all@) == self.devices().take(i as int),
            decreases self.devices@.len() - i,
        {
            let d = &self.devices[i];
            let copy = FlutterCaptureDevice {
                id: d.id.clone(),
                name: d.name.clone(),
                device_type: d.device_type.clone(),
                is_default: d.is_default,
            };
            proof {
                assert(self.devices().take(i + 1) =~= self.devices().take(i as int).push(copy@));
                assert(device_models(all@.push(copy)) =~= device_models(all@).push(copy@));
            }
            all.push(copy);
            i = i + 1;
        }
        proof {
            assert(self.devices().take(self.devices@.len() as int) =~= self.devices());
        }
        all
    }

    fn lists(&self, id: &str) -> (b: bool)
        ensures
            b == has_device(self.devices(), id@),
    {
        let mut i: usize = 0;
        while i < self.devices.len()
            invariant
                0 <= i <= self.devices@.len(),
                forall|k: int| 0 <= k < i ==> (#[trigger] self.devices()[k]).id != id@,
            decreases self.devices@.len() - i,
        {
            if str_eq(self.devices[i].id.as_str(), id) {
                assert(self.devices()[i as int].id == id@);
                return true;
            }
            i = i + 1;
        }
        false
    }

    /// Starts to capture from the device `device_id` and counts its
    /// pictures from 0. Where no device has that id, nothing changes.
    pub fn iroh_capture_start(&mut self, device_id: String) -> (started: bool)
        ensures
            started == has_device(old(self).devices(), device_id@),
            final(self).devices() == old(self).devices(),
            started ==> final(self).active() == Some(device_id@) && final(self).frames() == 0,
            !started ==> final(self).active() == old(self).active() && final(self).frames() == old(self).frames(),
    {
        if !self.lists(device_id.as_str()) {
            return false;
        }
        self.active_capture = Some(device_id);
        self.frame_counter = 0;
        true
    }

    /// Stops to capture.
    pub fn iroh_capture_stop(&mut self) -> (ok: bool)
        ensures
            ok,
            final(self).active() is None,
            final(self).devices() == old(self).devices(),
            final(self).frames() == old(self).frames(),
    {
        self.active_capture = None;
        true
    }

    /// The id of the device that pictures are taken from.
    pub fn iroh_capture_current_device(&self) -> (r: Option<String>)
        ensures
            match r {
                Some(id) => self.active() == Some(id@),
                None => self.active() is None,
            },
    {
        match &self.active_capture {
            Some(id) => Some(id.clone()),
            None => None,
        }
    }

    /// Paints the next test picture of the pattern that `pattern` names,
    /// in RGBA, stamped 33 milliseconds after the one before. The picture
    /// is counted also where its pattern is painted elsewhere.
    pub fn iroh_capture_get_test_frame(&mut self, width: u32, height: u32, pattern: &str) -> (r: Option<
        FlutterVideoFrame,
    >)
        requires
            old(self).frames() < u64::MAX / 33,
            width * height * 4 <= u32::MAX,
            pattern_named(pattern@) == Some(HostPattern::ColorBars) ==> bars_fit(width, height),
        ensures
            final(self).frames() == old(self).frames() + 1,
            final(self).devices() == old(self).devices(),
            final(self).active() == old(self).active(),
            r is Some == pattern_named(pattern@) is Some,
            r matches Some(f) ==> f.width == width && f.height == height && f.timestamp_ms == final(self).frames() * TEST_FRAME_MS && f.format@ == "rgba"@ && f.data@ == (match pattern_named(
                pattern@,
            )->0 {
                HostPattern::ColorBars => pattern_picture(TestPattern::ColorBars, width, height, 0),
                HostPattern::MovingBox => box_picture(width, height, final(self).frames()),
            }),
    {
        self.frame_counter = self.frame_counter + 1;
        let frame_num = self.frame_counter;
        let data = if str_eq(pattern, "moving_box") {
            generate_moving_box(width, height, frame_num)
        } else if str_eq(pattern, "gradient") {
            return None;
        } else {
            generate_color_bars(width, height)
        };
        Some(
            FlutterVideoFrame {
                width,
                height,
                data,
                timestamp_ms: frame_num * TEST_FRAME_MS,
                format: "rgba".to_owned(),
            },
        )
    }
}

/// The status of a publisher, with its bitrate and its renditions.
#[derive(Debug, Clone)]
pub struct FlutterPublisherStatus {
    pub publisher_id: String,
    pub is_active: bool,
    pub frames_published: u64,
    pub bytes_sent: u64,
    /// Bits per second.
    pub current_bitrate: u32,
    pub video_renditions: Vec<String>,
    pub audio_renditions: Vec<String>,
}

/// The status of a subscriber, with the health of its buffer.
#[derive(Debug, Clone)]
pub struct FlutterSubscriberStatus {
    pub subscriber_id: String,
    pub broadcast_id: String,
    pub is_connected: bool,
    pub frames_received: u64,
    pub bytes_received: u64,
    pub current_quality: String,
    /// How full the buffer is, in hundredths.
    pub buffer_health_percent: u32,
}

/// The broadcast of a publisher that the host created without naming one.
pub const DEFAULT_BROADCAST: &'static str = "default";

/// Bits per second that an active publisher is taken to send.
pub const ACTIVE_BITRATE: u32 = 2_500_000;

/// Hundredths to which the buffer of a connected subscriber is taken to
/// be full.
pub const CONNECTED_BUFFER_PERCENT: u32 = 95;

/// The audio rendition of every publisher.
pub const AUDIO_RENDITION: &'static str = "opus_hq";

/// Adds an idle publisher of the broadcast `default`. Says whether it was
/// added: a publisher with that id must not exist.
pub fn iroh_publish_create(node: &mut LiveNode, publisher_id: String) -> (created: bool)
    ensures
        final(node).subscribers() == old(node).subscribers(),
        created == old(node).publisher(publisher_id@) is None,
        created ==> final(node).publishers() == old(node).publishers().push(
            new_publisher(publisher_id@, DEFAULT_BROADCAST@),
        ),
        !created ==> final(node).publishers() == old(node).publishers(),
{
    node.create_publisher(publisher_id, DEFAULT_BROADCAST.to_owned()).is_ok()
}

/// Marks the publisher `publisher_id` active. Says whether there is such a
/// publisher.
pub fn iroh_publish_start(node: &mut LiveNode, publisher_id: &str) -> (found: bool)
    ensures
        final(node).subscribers() == old(node).subscribers(),
        found == old(node).publisher(publisher_id@) is Some,
        match old(node).publisher(publisher_id@) {
            None => final(node).publishers() == old(node).publishers(),
            Some(p) => final(node).publishers() == old(node).publishers().update(
                old(node).publisher_index(publisher_id@),
                PublisherModel { is_active: true, ..p },
            ),
        },
{
    node.start_publishing(publisher_id).is_ok()
}

/// Marks the publisher `publisher_id` idle. Says whether there is such a
/// publisher.
pub fn iroh_publish_stop(node: &mut LiveNode, publisher_id: &str) -> (found: bool)
    ensures
        final(node).subscribers() == old(node).subscribers(),
        found == old(node).publisher(publisher_id@) is Some,
        match old(node).publisher(publisher_id@) {
            None => final(node).publishers() == old(node).publishers(),
            Some(p) => final(node).publishers() == old(node).publishers().update(
                old(node).publisher_index(publisher_id@),
                PublisherModel { is_active: false, ..p },
            ),
        },
{
    node.stop_publishing(publisher_id).is_ok()
}

/// Counts a picture for the publisher `publisher_id`. Says whether it was
/// counted: the publisher must exist and be active.
pub fn iroh_publish_push_video(node: &mut LiveNode, publisher_id: &str, frame: &FlutterVideoFrame) -> (counted:
    bool)
    requires
        old(node).publisher(publisher_id@) matches Some(p) ==> p.bytes_sent + frame.data@.len()
            <= u64::MAX && p.frames_published < u64::MAX,
    ensures
        final(node).subscribers() == old(node).subscribers(),
        counted == (old(node).publisher(publisher_id@) matches Some(p) && p.is_active),
        counted ==> final(node).publishers() == old(node).publishers().update(
            old(node).publisher_index(publisher_id@),
            PublisherModel {
                frames_published: (old(node).publisher(publisher_id@)->0.frames_published + 1) as u64,
                bytes_sent: (old(node).publisher(publisher_id@)->0.bytes_sent + frame.data@.len()) as u64,
                ..old(node).publisher(publisher_id@)->0
            },
        ),
        !counted ==> final(node).publishers() == old(node).publishers(),
{
    node.count_sent(publisher_id, frame.data.len() as u64, true).is_ok()
}

/// Counts the bytes of audio for the publisher `publisher_id`. Says whether
/// they were counted: the publisher must exist and be active.
pub fn iroh_publish_push_audio(node: &mut LiveNode, publisher_id: &str, samples: &FlutterAudioSamples) -> (counted:
    bool)
    requires
        old(node).publisher(publisher_id@) matches Some(p) ==> p.bytes_sent + samples.data@.len()
            <= u64::MAX,
    ensures
        final(node).subscribers() == old(node).subscribers(),
        counted == (old(node).publisher(publisher_id@) matches Some(p) && p.is_active),
        counted ==> final(node).publishers() == old(node).publishers().update(
            old(node).publisher_index(publisher_id@),
            PublisherModel {
                bytes_sent: (old(node).publisher(publisher_id@)->0.bytes_sent + samples.data@.len()) as u64,
                ..old(node).publisher(publisher_id@)->0
            },
        ),
        !counted ==> final(node).publishers() == old(node).publishers(),
{
    node.count_sent(publisher_id, samples.data.len() as u64, false).is_ok()
}

/// The status of the publisher `publisher_id`: an active publisher is
/// taken to send 2.5 megabits per second, an idle one nothing; its video
/// renditions are those that were set, `720p` where none was, its audio
/// rendition `opus_hq`.
pub fn iroh_publish_get_status(node: &LiveNode, publisher_id: &str) -> (r: Option<FlutterPublisherStatus>)
    ensures
        match node.publisher(publisher_id@) {
            None => r is None,
            Some(p) => r matches Some(status) && {
                &&& status.publisher_id@ == p.id
                &&& status.is_active == p.is_active
                &&& status.frames_published == p.frames_published
                &&& status.bytes_sent == p.bytes_sent
                &&& status.current_bitrate == if p.is_active {
                    ACTIVE_BITRATE
                } else {
                    0
                }
                &&& texts(status.video_renditions@) == p.video_renditions
                &&& texts(status.audio_renditions@) == seq![AUDIO_RENDITION@]
            },
        },
{
    match node.get_publisher_status(publisher_id) {
        None => None,
        Some(status) => {
            let video_renditions = match node.video_renditions(publisher_id) {
                Some(names) => names,
                None => Vec::new(),
            };
            let mut audio_renditions: Vec<String> = Vec::new();
            audio_renditions.push(AUDIO_RENDITION.to_owned());
            proof {
                assert(texts(audio_renditions@) =~= seq![AUDIO_RENDITION@]);
            }
            Some(
                FlutterPublisherStatus {
                    publisher_id: status.publisher_id,
                    is_active: status.is_active,
                    frames_published: status.frames_published,
                    bytes_sent: status.bytes_sent,
                    current_bitrate: if status.is_active {
                        ACTIVE_BITRATE
                    } else {
                        0
                    },
                    video_renditions,
                    audio_renditions,
                },
            )
        },
    }
}

/// Takes the publisher `publisher_id` away. Says whether there was such a
/// publisher.
pub fn iroh_publish_remove(node: &mut LiveNode, publisher_id: &str) -> (found: bool)
    ensures
        final(node).subscribers() == old(node).subscribers(),
        found == old(node).publisher(publisher_id@) is Some,
        final(node).publishers() == if found {
            old(node).publishers().remove(old(node).publisher_index(publisher_id@))
        } else {
            old(node).publishers()
        },
{
    node.remove_publisher(publisher_id)
}

/// Sets the names of the video renditions that the publisher
/// `publisher_id` offers. Says whether there is such a publisher.
pub fn iroh_publish_set_video_renditions(node: &mut LiveNode, publisher_id: &str, renditions: Vec<String>) -> (found:
    bool)
    ensures
        final(node).subscribers() == old(node).subscribers(),
        found == old(node).publisher(publisher_id@) is Some,
        match old(node).publisher(publisher_id@) {
            None => final(node).publishers() == old(node).publishers(),
            Some(p) => final(node).publishers() == old(node).publishers().update(
                old(node).publisher_index(publisher_id@),
                PublisherModel { video_renditions: texts(renditions@), ..p },
            ),
        },
{
    node.set_video_renditions(publisher_id, renditions).is_ok()
}

/// Adds a subscriber of the broadcast `broadcast_id` that is not connected.
/// Says whether it was added: a subscriber with that id must not exist.
pub fn iroh_subscribe_create(node: &mut LiveNode, subscriber_id: String, broadcast_id: String) -> (created:
    bool)
    ensures
        final(node).publishers() == old(node).publishers(),
        created == old(node).subscriber(subscriber_id@) is None,
        created ==> final(node).subscribers() == old(node).subscribers().push(
            new_subscriber(subscriber_id@, broadcast_id@),
        ),
        !created ==> final(node).subscribers() == old(node).subscribers(),
{
    node.create_subscriber(subscriber_id, broadcast_id).is_ok()
}

/// Marks the subscriber `subscriber_id` connected. Says whether there is
/// such a subscriber.
pub fn iroh_subscribe_connect(node: &mut LiveNode, subscriber_id: &str) -> (found: bool)
    ensures
        final(node).publishers() == old(node).publishers(),
        found == old(node).subscriber(subscriber_id@) is Some,
        match old(node).subscriber(subscriber_id@) {
            None => final(node).subscribers() == old(node).subscribers(),
            Some(s) => final(node).subscribers() == old(node).subscribers().update(
                old(node).subscriber_index(subscriber_id@),
                SubscriberModel { is_connected: true, ..s },
            ),
        },
{
    node.set_connected(subscriber_id, true).is_ok()
}

/// Marks the subscriber `subscriber_id` not connected. Says whether there
/// is such a subscriber.
pub fn iroh_subscribe_disconnect(node: &mut LiveNode, subscriber_id: &str) -> (found: bool)
    ensures
        final(node).publishers() == old(node).publishers(),
        found == old(node).subscriber(subscriber_id@) is Some,
        match old(node).subscriber(subscriber_id@) {
            None => final(node).subscribers() == old(node).subscribers(),
            Some(s) => final(node).subscribers() == old(node).subscribers().update(
                old(node).subscriber_index(subscriber_id@),
                SubscriberModel { is_connected: false, ..s },
            ),
        },
{
    node.set_connected(subscriber_id, false).is_ok()
}

/// Takes the subscriber `subscriber_id` away. Says whether there was such
/// a subscriber.
pub fn iroh_subscribe_remove(node: &mut LiveNode, subscriber_id: &str) -> (found: bool)
    ensures
        final(node).publishers() == old(node).publishers(),
        found == old(node).subscriber(subscriber_id@) is Some,
        final(node).subscribers() == if found {
            old(node).subscribers().remove(old(node).subscriber_index(subscriber_id@))
        } else {
            old(node).subscribers()
        },
{
    node.remove_subscriber(subscriber_id)
}

/// Sets the quality that the subscriber `subscriber_id` asks for. Says
/// whether there is such a subscriber.
pub fn iroh_subscribe_set_quality(node: &mut LiveNode, subscriber_id: &str, quality: String) -> (found: bool)
    ensures
        final(node).publishers() == old(node).publishers(),
        found == old(node).subscriber(subscriber_id@) is Some,
        match old(node).subscriber(subscriber_id@) {
            None => final(node).subscribers() == old(node).subscribers(),
            Some(s) => final(node).subscribers() == old(node).subscribers().update(
                old(node).subscriber_index(subscriber_id@),
                SubscriberModel { current_quality: quality@, ..s },
            ),
        },
{
    node.set_quality(subscriber_id, quality).is_ok()
}

/// The status of the subscriber `subscriber_id`: the buffer of a connected
/// subscriber is taken to be 95 hundredths full, that of another empty.
pub fn iroh_subscribe_get_status(node: &LiveNode, subscriber_id: &str) -> (r: Option<
    FlutterSubscriberStatus,
>)
    ensures
        match node.subscriber(subscriber_id@) {
            None => r is None,
            Some(s) => r matches Some(status) && {
                &&& status.subscriber_id@ == s.id
                &&& status.broadcast_id@ == s.broadcast_id
                &&& status.is_connected == s.is_connected
                &&& status.frames_received == s.frames_received
                &&& status.bytes_received == s.bytes_received
                &&& status.current_quality@ == s.current_quality
                &&& status.buffer_health_percent == if s.is_connected {
                    CONNECTED_BUFFER_PERCENT
                } else {
                    0
                }
            },
        },
{
    match node.get_subscriber_status(subscriber_id) {
        None => None,
        Some(status) => Some(
            FlutterSubscriberStatus {
                subscriber_id: status.subscriber_id,
                broadcast_id: status.broadcast_id,
                is_connected: status.is_connected,
                frames_received: status.frames_received,
                bytes_received: status.bytes_received,
                current_quality: status.current_quality,
                buffer_health_percent: if status.is_connected {
                    CONNECTED_BUFFER_PERCENT
                } else {
                    0
                },
            },
        ),
    }
}

/// Counts a picture of `frame_size` bytes for the subscriber
/// `subscriber_id`. Says whether it was counted: the subscriber must exist
/// and be connected.
pub fn iroh_subscribe_simulate_video_receive(node: &mut LiveNode, subscriber_id: &str, frame_size: u64) -> (counted:
    bool)
    requires
        old(node).subscriber(subscriber_id@) matches Some(s) ==> s.bytes_received + frame_size
            <= u64::MAX && s.frames_received < u64::MAX,
    ensures
        final(node).publishers() == old(node).publishers(),
        counted == (old(node).subscriber(subscriber_id@) matches Some(s) && s.is_connected),
        counted ==> final(node).subscribers() == old(node).subscribers().update(
            old(node).subscriber_index(subscriber_id@),
            SubscriberModel {
                frames_received: (old(node).subscriber(subscriber_id@)->0.frames_received + 1) as u64,
                bytes_received: (old(node).subscriber(subscriber_id@)->0.bytes_received + frame_size) as u64,
                ..old(node).subscriber(subscriber_id@)->0
            },
        ),
        !counted ==> final(node).subscribers() == old(node).subscribers(),
{
    match node.get_subscriber_status(subscriber_id) {
        Some(status) => {
            if !status.is_connected {
                return false;
            }
        },
        None => {
            return false;
        },
    }
    node.simulate_video_receive(subscriber_id, frame_size).is_ok()
}

} // verus!
