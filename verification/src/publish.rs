//! The catalog of a broadcast and its version, the renditions that a
//! publisher offers, and an encoder that frames raw pictures.

use vstd::prelude::*;
use crate::av::AudioCatalogConfig;
use crate::av::AudioCodec;
use crate::av::AudioPreset;
use crate::av::EncodedPacket;
use crate::av::TrackKind;
use crate::av::VideoCatalogConfig;
use crate::av::VideoCodec;
use crate::av::VideoFrame;
use crate::av::VideoPreset;
use crate::av::audio_preset_name;
use crate::av::video_preset_name;
use crate::moq_protocol::names::texts;
use crate::text::str_eq;
use crate::wire::put_u32;
use crate::wire::put_u64;
use crate::wire::put_u8;
use crate::wire::write_raw;
use crate::wire::write_u32;
use crate::wire::write_u64;
use crate::wire::write_u8;

verus! {

/// One video rendition of a catalog: its track's name and configuration.
#[derive(Debug, Clone)]
pub struct VideoRendition {
    pub name: String,
    pub config: VideoCatalogConfig,
}

/// One audio rendition of a catalog.
#[derive(Debug, Clone)]
pub struct AudioRendition {
    pub name: String,
    pub config: AudioCatalogConfig,
}

/// The video renditions of a broadcast.
#[derive(Debug, Clone)]
pub struct VideoInfo {
    /// No name stands twice.
    pub renditions: Vec<VideoRendition>,
    pub priority: u8,
}

/// The audio renditions of a broadcast.
#[derive(Debug, Clone)]
pub struct AudioInfo {
    /// No name stands twice.
    pub renditions: Vec<AudioRendition>,
    pub priority: u8,
}

pub open spec fn video_rendition_models(v: Seq<VideoRendition>) -> Seq<(Seq<char>, VideoCatalogConfig)> {
    v.map_values(|r: VideoRendition| (r.name@, r.config))
}

pub open spec fn audio_rendition_models(v: Seq<AudioRendition>) -> Seq<(Seq<char>, AudioCatalogConfig)> {
    v.map_values(|r: AudioRendition| (r.name@, r.config))
}

/// What the video part of a catalog holds, as mathematical values.
pub struct VideoInfoModel {
    pub renditions: Seq<(Seq<char>, VideoCatalogConfig)>,
    pub priority: u8,
}

/// What the audio part of a catalog holds, as mathematical values.
pub struct AudioInfoModel {
    pub renditions: Seq<(Seq<char>, AudioCatalogConfig)>,
    pub priority: u8,
}

impl View for VideoInfo {
    type V = VideoInfoModel;

    open spec fn view(&self) -> VideoInfoModel {
        VideoInfoModel {
            renditions: video_rendition_models(self.renditions@),
            priority: self.priority,
        }
    }
}

impl View for AudioInfo {
    type V = AudioInfoModel;

    open spec fn view(&self) -> AudioInfoModel {
        AudioInfoModel {
            renditions: audio_rendition_models(self.renditions@),
            priority: self.priority,
        }
    }
}

impl VideoInfo {
    /// A copy that holds the same values.
    pub fn duplicate(&self) -> (c: Self)
        ensures
            c@ == self@,
    {
        let mut renditions: Vec<VideoRendition> = Vec::new();
        let mut i: usize = 0;
        while i < self.renditions.len()
            invariant
                0 <= i <= self.renditions@.len(),
                video_rendition_models(renditions@) == video_rendition_models(
                    self.renditions@,
                ).take(i as int),
            decreases self.renditions@.len() - i,
        {
            let r = &self.renditions[i];
            let ghost prev = renditions@;
            let copy = VideoRendition { name: r.name.clone(), config: r.config };
            renditions.push(copy);
            proof {
                let all = video_rendition_models(self.renditions@);
                assert(all.take(i + 1) =~= all.take(i as int).push(all[i as int]));
                assert(video_rendition_models(renditions@) =~= video_rendition_models(prev).push(
                    (copy.name@, copy.config),
                ));
            }
            i = i + 1;
        }
        proof {
            assert(video_rendition_models(self.renditions@).take(self.renditions@.len() as int)
                =~= video_rendition_models(self.renditions@));
        }
        Self { renditions, priority: self.priority }
    }
}

impl AudioInfo {
    /// A copy that holds the same values.
    pub fn duplicate(&self) -> (c: Self)
        ensures
            c@ == self@,
    {
        let mut renditions: Vec<AudioRendition> = Vec::new();
        let mut i: usize = 0;
        while i < self.renditions.len()
            invariant
                0 <= i <= self.renditions@.len(),
                audio_rendition_models(renditions@) == audio_rendition_models(
                    self.renditions@,
                ).take(i as int),
            decreases self.renditions@.len() - i,
        {
            let r = &self.renditions[i];
            let ghost prev = renditions@;
            let copy = AudioRendition { name: r.name.clone(), config: r.config };
            renditions.push(copy);
            proof {
                let all = audio_rendition_models(self.renditions@);
                assert(all.take(i + 1) =~= all.take(i as int).push(all[i as int]));
                assert(audio_rendition_models(renditions@) =~= audio_rendition_models(prev).push(
                    (copy.name@, copy.config),
                ));
            }
            i = i + 1;
        }
        proof {
            assert(audio_rendition_models(self.renditions@).take(self.renditions@.len() as int)
                =~= audio_rendition_models(self.renditions@));
        }
        Self { renditions, priority: self.priority }
    }
}

/// What a catalog holds, as mathematical values.
pub struct CatalogModel {
    pub video: Option<VideoInfoModel>,
    pub audio: Option<AudioInfoModel>,
    pub version: u32,
}

/// The tracks that a broadcast offers. The version rises with every change.
#[derive(Debug, Clone)]
pub struct BroadcastCatalog {
    pub video: Option<VideoInfo>,
    pub audio: Option<AudioInfo>,
    pub version: u32,
}

pub open spec fn video_info_model(v: Option<VideoInfo>) -> Option<VideoInfoModel> {
    match v {
        Some(info) => Some(info@),
        None => None,
    }
}

pub open spec fn audio_info_model(a: Option<AudioInfo>) -> Option<AudioInfoModel> {
    match a {
        Some(info) => Some(info@),
        None => None,
    }
}

impl View for BroadcastCatalog {
    type V = CatalogModel;

    open spec fn view(&self) -> CatalogModel {
        CatalogModel {
            video: video_info_model(self.video),
            audio: audio_info_model(self.audio),
            version: self.version,
        }
    }
}

impl BroadcastCatalog {
    /// A catalog without tracks, at version 0.
    pub fn new() -> (c: Self)
        ensures
            c@ == (CatalogModel { video: None, audio: None, version: 0 }),
    {
        Self { video: None, audio: None, version: 0 }
    }

    /// Sets the video renditions and raises the version.
    pub fn set_video(&mut self, video: Option<VideoInfo>)
        requires
            old(self).version < u32::MAX,
        ensures
            final(self)@ == (CatalogModel {
                video: video_info_model(video),
                version: (old(self).version + 1) as u32,
                ..old(self)@
            }),
    {
        self.video = video;
        self.version = self.version + 1;
    }

    /// Sets the audio renditions and raises the version.
    pub fn set_audio(&mut self, audio: Option<AudioInfo>)
        requires
            old(self).version < u32::MAX,
        ensures
            final(self)@ == (CatalogModel {
                audio: audio_info_model(audio),
                version: (old(self).version + 1) as u32,
                ..old(self)@
            }),
    {
        self.audio = audio;
        self.version = self.version + 1;
    }

    /// A copy that holds the same values.
    pub fn duplicate(&self) -> (c: Self)
        ensures
            c@ == self@,
    {
        Self {
            video: match &self.video {
                Some(v) => Some(v.duplicate()),
                None => None,
            },
            audio: match &self.audio {
                Some(a) => Some(a.duplicate()),
                None => None,
            },
            version: self.version,
        }
    }
}

impl Default for BroadcastCatalog {
    fn default() -> (c: Self)
        ensures
            c@ == (CatalogModel { video: None, audio: None, version: 0 }),
    {
        Self::new()
    }
}

/// The video presets that a publisher encodes.
#[derive(Debug, Clone)]
pub struct VideoRenditions {
    pub presets: Vec<VideoPreset>,
    pub codec: VideoCodec,
}

/// The catalog entry of each preset under its track's name, in order.
pub open spec fn video_catalog_entries(presets: Seq<VideoPreset>, codec: VideoCodec) -> Seq<
    (Seq<char>, VideoCatalogConfig),
> {
    presets.map_values(
        |p: VideoPreset| ("video-"@ + video_preset_name(p), video_config_of(p, codec)),
    )
}

/// The catalog entry of a video preset.
pub open spec fn video_config_of(p: VideoPreset, codec: VideoCodec) -> VideoCatalogConfig {
    VideoCatalogConfig {
        codec,
        coded_width: crate::av::video_preset_dimensions(p).0,
        coded_height: crate::av::video_preset_dimensions(p).1,
        display_width: Some(crate::av::video_preset_dimensions(p).0),
        display_height: Some(crate::av::video_preset_dimensions(p).1),
        framerate: Some(30u32),
        bitrate: Some((crate::av::video_preset_bitrate_kbps(p) * 1000) as u32),
    }
}

/// The catalog entry of an audio preset.
pub open spec fn audio_config_of(p: AudioPreset, codec: AudioCodec) -> AudioCatalogConfig {
    AudioCatalogConfig {
        codec,
        sample_rate: 48000,
        channel_count: crate::av::audio_preset_channels(p),
        bitrate: Some((crate::av::audio_preset_bitrate_kbps(p) * 1000) as u32),
    }
}

impl VideoRenditions {
    pub fn new(presets: Vec<VideoPreset>, codec: VideoCodec) -> (r: Self)
        ensures
            r.presets == presets,
            r.codec == codec,
    {
        Self { presets, codec }
    }

    /// The catalog entry of each preset, under its track's name.
    pub fn catalog_configs(&self) -> (r: Vec<VideoRendition>)
        ensures
            video_rendition_models(r@) == video_catalog_entries(self.presets@, self.codec),
    {
        let mut r: Vec<VideoRendition> = Vec::new();
        let mut i: usize = 0;
        let ghost all = video_catalog_entries(self.presets@, self.codec);
        while i < self.presets.len()
            invariant
                0 <= i <= self.presets@.len(),
                all == video_catalog_entries(self.presets@, self.codec),
                video_rendition_models(r@) == all.take(i as int),
            decreases self.presets@.len() - i,
        {
            let preset = self.presets[i];
            let ghost prev = r@;
            let entry = VideoRendition {
                name: preset.track_name(),
                config: VideoCatalogConfig::from_preset(preset, self.codec),
            };
            r.push(entry);
            proof {
                assert(all.take(i + 1) =~= all.take(i as int).push(all[i as int]));
                assert(video_rendition_models(r@) =~= video_rendition_models(prev).push(
                    (entry.name@, entry.config),
                ));
            }
            i = i + 1;
        }
        proof {
            assert(all.take(self.presets@.len() as int) =~= all);
        }
        r
    }

    /// The names of the tracks, in the order of the presets.
    pub fn track_names(&self) -> (r: Vec<String>)
        ensures
            texts(r@) == self.presets@.map_values(|p: VideoPreset| "video-"@ + video_preset_name(p)),
    {
        let mut r: Vec<String> = Vec::new();
        let mut i: usize = 0;
        let ghost all = self.presets@.map_values(|p: VideoPreset| "video-"@ + video_preset_name(p));
        while i < self.presets.len()
            invariant
                0 <= i <= self.presets@.len(),
                all == self.presets@.map_values(|p: VideoPreset| "video-"@ + video_preset_name(p)),
                texts(r@) == all.take(i as int),
            decreases self.presets@.len() - i,
        {
            let ghost prev = r@;
            let name = self.presets[i].track_name();
            r.push(name);
            proof {
                assert(all.take(i + 1) =~= all.take(i as int).push(all[i as int]));
                assert(texts(r@) =~= texts(prev).push(name@));
            }
            i = i + 1;
        }
        proof {
            assert(all.take(self.presets@.len() as int) =~= all);
        }
        r
    }
}

/// The audio presets that a publisher encodes.
#[derive(Debug, Clone)]
pub struct AudioRenditions {
    pub presets: Vec<AudioPreset>,
    pub codec: AudioCodec,
}

/// The catalog entry of each preset under its track's name, in order.
pub open spec fn audio_catalog_entries(presets: Seq<AudioPreset>, codec: AudioCodec) -> Seq<
    (Seq<char>, AudioCatalogConfig),
> {
    presets.map_values(
        |p: AudioPreset| ("audio-"@ + audio_preset_name(p), audio_config_of(p, codec)),
    )
}

impl AudioRenditions {
    pub fn new(presets: Vec<AudioPreset>, codec: AudioCodec) -> (r: Self)
        ensures
            r.presets == presets,
            r.codec == codec,
    {
        Self { presets, codec }
    }

    /// The catalog entry of each preset, under its track's name.
    pub fn catalog_configs(&self) -> (r: Vec<AudioRendition>)
        ensures
            audio_rendition_models(r@) == audio_catalog_entries(self.presets@, self.codec),
    {
        let mut r: Vec<AudioRendition> = Vec::new();
        let mut i: usize = 0;
        let ghost all = audio_catalog_entries(self.presets@, self.codec);
        while i < self.presets.len()
            invariant
                0 <= i <= self.presets@.len(),
                all == audio_catalog_entries(self.presets@, self.codec),
                audio_rendition_models(r@) == all.take(i as int),
            decreases self.presets@.len() - i,
        {
            let preset = self.presets[i];
            let ghost prev = r@;
            let entry = AudioRendition {
                name: preset.track_name(),
                config: AudioCatalogConfig::from_preset(preset, self.codec),
            };
            r.push(entry);
            proof {
                assert(all.take(i + 1) =~= all.take(i as int).push(all[i as int]));
                assert(audio_rendition_models(r@) =~= audio_rendition_models(prev).push(
                    (entry.name@, entry.config),
                ));
            }
            i = i + 1;
        }
        proof {
            assert(all.take(self.presets@.len() as int) =~= all);
        }
        r
    }

    /// The names of the tracks, in the order of the presets.
    pub fn track_names(&self) -> (r: Vec<String>)
        ensures
            texts(r@) == self.presets@.map_values(|p: AudioPreset| "audio-"@ + audio_preset_name(p)),
    {
        let mut r: Vec<String> = Vec::new();
        let mut i: usize = 0;
        let ghost all = self.presets@.map_values(|p: AudioPreset| "audio-"@ + audio_preset_name(p));
        while i < self.presets.len()
            invariant
                0 <= i <= self.presets@.len(),
                all == self.presets@.map_values(|p: AudioPreset| "audio-"@ + audio_preset_name(p)),
                texts(r@) == all.take(i as int),
            decreases self.presets@.len() - i,
        {
            let ghost prev = r@;
            let name = self.presets[i].track_name();
            r.push(name);
            proof {
                assert(all.take(i + 1) =~= all.take(i as int).push(all[i as int]));
                assert(texts(r@) =~= texts(prev).push(name@));
            }
            i = i + 1;
        }
        proof {
            assert(all.take(self.presets@.len() as int) =~= all);
        }
        r
    }
}

/// The 64 bits of a signed number as an unsigned one.
pub open spec fn bits_of(x: i64) -> u64 {
    if x >= 0 {
        x as u64
    } else {
        (x + 0x1_0000_0000_0000_0000) as u64
    }
}

/// The signed number whose 64 bits are `bits`.
pub open spec fn signed_of(bits: u64) -> i64 {
    if bits <= i64::MAX {
        bits as i64
    } else {
        (bits - 0x1_0000_0000_0000_0000) as i64
    }
}

pub fn to_bits(x: i64) -> (b: u64)
    ensures
        b == bits_of(x),
        signed_of(b) == x,
{
    if x >= 0 {
        x as u64
    } else {
        let up = (x + 0x4000_0000_0000_0000) + 0x4000_0000_0000_0000;
        (up as u64) + 0x8000_0000_0000_0000
    }
}

pub fn from_bits(b: u64) -> (x: i64)
    ensures
        x == signed_of(b),
{
    if b <= i64::MAX as u64 {
        b as i64
    } else {
        let low = b - 0x8000_0000_0000_0000;
        (low as i64) - 0x4000_0000_0000_0000 - 0x4000_0000_0000_0000
    }
}

/// The header that the framing encoder puts before a picture: width,
/// height, presentation timestamp and a byte that is 1 for a keyframe.
pub open spec fn frame_header(width: u32, height: u32, pts_us: i64, is_keyframe: bool) -> Seq<u8> {
    put_u32(width) + put_u32(height) + put_u64(bits_of(pts_us)) + put_u8(
        if is_keyframe {
            1
        } else {
            0
        },
    )
}

/// Bytes of the header.
pub const FRAME_HEADER_LEN: usize = 17;

/// Frames from one keyframe to the next.
pub const KEYFRAME_INTERVAL: u32 = 30;

/// An encoder that does not compress: it puts a header before each picture.
#[derive(Clone, Copy)]
pub struct SimpleVideoEncoder {
    preset: VideoPreset,
    codec: VideoCodec,
    /// Frames since the last keyframe, that keyframe counted; 0 where the
    /// next frame is a keyframe.
    since_keyframe: u32,
    keyframe_interval: u32,
    frames: Ghost<nat>,
}

impl SimpleVideoEncoder {
    pub closed spec fn preset(&self) -> VideoPreset {
        self.preset
    }

    pub closed spec fn codec(&self) -> VideoCodec {
        self.codec
    }

    /// Frames encoded so far.
    pub closed spec fn frame_count(&self) -> nat {
        self.frames@
    }

    #[verifier::type_invariant]
    pub closed spec fn wf(&self) -> bool {
        &&& self.keyframe_interval == KEYFRAME_INTERVAL
        &&& self.since_keyframe == self.frames@ % (KEYFRAME_INTERVAL as nat)
    }

    pub fn new(preset: VideoPreset, codec: VideoCodec) -> (e: Self)
        ensures
            e.preset() == preset,
            e.codec() == codec,
            e.frame_count() == 0,
    {
        Self { preset, codec, since_keyframe: 0, keyframe_interval: KEYFRAME_INTERVAL, frames: Ghost(0) }
    }

    /// Frames `frame` for the preset's track: the header, then the picture.
    /// Every 30th frame, the first too, is a keyframe, however many frames
    /// came before.
    pub fn encode_frame(&mut self, frame: VideoFrame) -> (r: Result<EncodedPacket, crate::av::SourceError>)
        ensures
            final(self).preset() == old(self).preset(),
            final(self).codec() == old(self).codec(),
            final(self).frame_count() == old(self).frame_count() + 1,
            r is Ok,
            ({
                let p = r->Ok_0;
                &&& p.is_keyframe == (old(self).frame_count() % (KEYFRAME_INTERVAL as nat) == 0)
                &&& p.data@ == frame_header(
                    frame.format.width,
                    frame.format.height,
                    frame.pts_us,
                    p.is_keyframe,
                ) + frame.data@
                &&& p.timestamp_us == frame.timestamp_us
                &&& p.track_name@ == "video-"@ + video_preset_name(old(self).preset())
            }),
    {
        proof {
            use_type_invariant(&*self);
        }
        let is_keyframe = self.since_keyframe == 0;
        let next: u32 = if self.since_keyframe + 1 == self.keyframe_interval {
            0
        } else {
            self.since_keyframe + 1
        };
        *self = Self {
            preset: self.preset,
            codec: self.codec,
            since_keyframe: next,
            keyframe_interval: self.keyframe_interval,
            frames: Ghost(self.frames@ + 1),
        };
        let mut data: Vec<u8> = Vec::new();
        write_u32(&mut data, frame.format.width);
        write_u32(&mut data, frame.format.height);
        write_u64(&mut data, to_bits(frame.pts_us));
        write_u8(
            &mut data,
            if is_keyframe {
                1
            } else {
                0
            },
        );
        write_raw(&mut data, frame.data.as_slice());
        proof {
            assert(data@ =~= frame_header(
                frame.format.width,
                frame.format.height,
                frame.pts_us,
                is_keyframe,
            ) + frame.data@);
        }
        let name = self.preset.track_name();
        Ok(EncodedPacket::video(data, frame.timestamp_us, is_keyframe, name.as_str()))
    }

    /// The catalog entry of the encoder's preset.
    pub fn config(&self) -> (c: VideoCatalogConfig)
        ensures
            c == video_config_of(self.preset(), self.codec()),
    {
        VideoCatalogConfig::from_preset(self.preset, self.codec)
    }
}

/// An encoder for audio that does not compress.
#[derive(Debug, Clone, Copy)]
pub struct SimpleAudioEncoder {
    preset: AudioPreset,
    codec: AudioCodec,
    frame_count: u64,
}

impl SimpleAudioEncoder {
    pub closed spec fn preset(&self) -> AudioPreset {
        self.preset
    }

    pub closed spec fn codec(&self) -> AudioCodec {
        self.codec
    }

    pub closed spec fn frame_count(&self) -> u64 {
        self.frame_count
    }

    pub fn new(preset: AudioPreset, codec: AudioCodec) -> (e: Self)
        ensures
            e.preset() == preset,
            e.codec() == codec,
            e.frame_count() == 0,
    {
        Self { preset, codec, frame_count: 0 }
    }

    /// The catalog entry of the encoder's preset.
    pub fn config(&self) -> (c: AudioCatalogConfig)
        ensures
            c == audio_config_of(self.preset(), self.codec()),
    {
        AudioCatalogConfig::from_preset(self.preset, self.codec)
    }
}

/// Whether one of the video presets has the track name `name`.
pub open spec fn offers_video(presets: Seq<VideoPreset>, name: Seq<char>) -> bool {
    exists|i: int| 0 <= i < presets.len() && video_track_of(#[trigger] presets[i]) == name
}

/// Whether one of the audio presets has the track name `name`.
pub open spec fn offers_audio(presets: Seq<AudioPreset>, name: Seq<char>) -> bool {
    exists|i: int| 0 <= i < presets.len() && audio_track_of(#[trigger] presets[i]) == name
}

/// Name of the track of a video preset.
pub open spec fn video_track_of(p: VideoPreset) -> Seq<char> {
    "video-"@ + video_preset_name(p)
}

/// Name of the track of an audio preset.
pub open spec fn audio_track_of(p: AudioPreset) -> Seq<char> {
    "audio-"@ + audio_preset_name(p)
}

/// Why a publisher refuses a command.
#[derive(Debug, Clone, Copy, PartialEq, Eq, Structural)]
pub enum PublishError {
    /// No renditions of that kind are configured.
    NoRenditions,
    /// No rendition has that track name.
    RenditionNotFound,
}

/// What a publisher has set up: its catalog, its renditions and the tracks
/// whose encoders run.
pub struct PublishBroadcast {
    catalog: BroadcastCatalog,
    video_renditions: Option<VideoRenditions>,
    audio_renditions: Option<AudioRenditions>,
    active_video_encoders: Vec<String>,
    active_audio_encoders: Vec<String>,
}

/// Priority of the video part of a catalog.
pub const VIDEO_PRIORITY: u8 = 1;

/// Priority of the audio part of a catalog.
pub const AUDIO_PRIORITY: u8 = 2;

impl PublishBroadcast {
    pub closed spec fn catalog_model(&self) -> CatalogModel {
        self.catalog@
    }

    /// The configured video presets, if video is configured.
    pub closed spec fn video_presets(&self) -> Option<Seq<VideoPreset>> {
        match self.video_renditions {
            Some(r) => Some(r.presets@),
            None => None,
        }
    }

    /// The configured audio presets, if audio is configured.
    pub closed spec fn audio_presets(&self) -> Option<Seq<AudioPreset>> {
        match self.audio_renditions {
            Some(r) => Some(r.presets@),
            None => None,
        }
    }

    /// Names of the video tracks whose encoders run, in the order in which
    /// they were started.
    pub closed spec fn running_video(&self) -> Seq<Seq<char>> {
        texts(self.active_video_encoders@)
    }

    /// Names of the audio tracks whose encoders run.
    pub closed spec fn running_audio(&self) -> Seq<Seq<char>> {
        texts(self.active_audio_encoders@)
    }

    /// A publisher with an empty catalog and nothing running.
    pub fn new() -> (p: Self)
        ensures
            p.catalog_model() == (CatalogModel { video: None, audio: None, version: 0 }),
            p.video_presets() is None,
            p.audio_presets() is None,
            p.running_video() == Seq::<Seq<char>>::empty(),
            p.running_audio() == Seq::<Seq<char>>::empty(),
    {
        let p = Self {
            catalog: BroadcastCatalog::new(),
            video_renditions: None,
            audio_renditions: None,
            active_video_encoders: Vec::new(),
            active_audio_encoders: Vec::new(),
        };
        proof {
            assert(p.running_video() =~= Seq::empty());
            assert(p.running_audio() =~= Seq::empty());
        }
        p
    }

    /// The current catalog.
    pub fn catalog(&self) -> (c: BroadcastCatalog)
        ensures
            c@ == self.catalog_model(),
    {
        self.catalog.duplicate()
    }

    /// Sets, or takes away, the video renditions: every video encoder
    /// stops, the catalog lists the new renditions, and its version rises.
    pub fn set_video(&mut self, renditions: Option<VideoRenditions>)
        requires
            old(self).catalog_model().version < u32::MAX,
        ensures
            final(self).running_video() == Seq::<Seq<char>>::empty(),
            final(self).running_audio() == old(self).running_audio(),
            final(self).audio_presets() == old(self).audio_presets(),
            final(self).video_presets() == match renditions {
                Some(r) => Some(r.presets@),
                None => None,
            },
            final(self).catalog_model() == (CatalogModel {
                video: match renditions {
                    Some(r) => Some(
                        VideoInfoModel {
                            renditions: video_catalog_entries(r.presets@, r.codec),
                            priority: VIDEO_PRIORITY,
                        },
                    ),
                    None => None,
                },
                version: (old(self).catalog_model().version + 1) as u32,
                ..old(self).catalog_model()
            }),
    {
        self.active_video_encoders = Vec::new();
        proof {
            assert(texts(self.active_video_encoders@) =~= Seq::<Seq<char>>::empty());
        }
        match renditions {
            Some(r) => {
                let info = VideoInfo { renditions: r.catalog_configs(), priority: VIDEO_PRIORITY };
                self.catalog.set_video(Some(info));
                self.video_renditions = Some(r);
            },
            None => {
                self.catalog.set_video(None);
                self.video_renditions = None;
            },
        }
    }

    /// Sets, or takes away, the audio renditions: every audio encoder
    /// stops, the catalog lists the new renditions, and its version rises.
    pub fn set_audio(&mut self, renditions: Option<AudioRenditions>)
        requires
            old(self).catalog_model().version < u32::MAX,
        ensures
            final(self).running_audio() == Seq::<Seq<char>>::empty(),
            final(self).running_video() == old(self).running_video(),
            final(self).video_presets() == old(self).video_presets(),
            final(self).audio_presets() == match renditions {
                Some(r) => Some(r.presets@),
                None => None,
            },
            final(self).catalog_model() == (CatalogModel {
                audio: match renditions {
                    Some(r) => Some(
                        AudioInfoModel {
                            renditions: audio_catalog_entries(r.presets@, r.codec),
                            priority: AUDIO_PRIORITY,
                        },
                    ),
                    None => None,
                },
                version: (old(self).catalog_model().version + 1) as u32,
                ..old(self).catalog_model()
            }),
    {
        self.active_audio_encoders = Vec::new();
        proof {
            assert(texts(self.active_audio_encoders@) =~= Seq::<Seq<char>>::empty());
        }
        match renditions {
            Some(r) => {
                let info = AudioInfo { renditions: r.catalog_configs(), priority: AUDIO_PRIORITY };
                self.catalog.set_audio(Some(info));
                self.audio_renditions = Some(r);
            },
            None => {
                self.catalog.set_audio(None);
                self.audio_renditions = None;
            },
        }
    }

    /// Starts the encoder of the video track `track_name`, unless it runs.
    pub fn start_video_encoder(&mut self, track_name: &str) -> (r: Result<(), PublishError>)
        ensures
            final(self).catalog_model() == old(self).catalog_model(),
            final(self).video_presets() == old(self).video_presets(),
            final(self).audio_presets() == old(self).audio_presets(),
            final(self).running_audio() == old(self).running_audio(),
            match old(self).video_presets() {
                None => r == Err::<(), PublishError>(PublishError::NoRenditions) && final(self).running_video() == old(self).running_video(),
                Some(presets) => if offers_video(presets, track_name@) {
                    r is Ok && final(self).running_video() == if old(self).running_video().contains(
                        track_name@,
                    ) {
                        old(self).running_video()
                    } else {
                        old(self).running_video().push(track_name@)
                    }
                } else {
                    r == Err::<(), PublishError>(PublishError::RenditionNotFound) && final(self).running_video() == old(self).running_video()
                },
            },
    {
        let found = match &self.video_renditions {
            None => {
                return Err(PublishError::NoRenditions);
            },
            Some(renditions) => {
                let mut found = false;
                let mut i: usize = 0;
                while i < renditions.presets.len() && !found
                    invariant
                        0 <= i <= renditions.presets@.len(),
                        found ==> offers_video(renditions.presets@, track_name@),
                        !found ==> forall|k: int|
                            0 <= k < i ==> video_track_of(#[trigger] renditions.presets@[k])
                                != track_name@,
                    decreases renditions.presets@.len() - i + if found {
                        0int
                    } else {
                        1int
                    },
                {
                    let name = renditions.presets[i].track_name();
                    if str_eq(name.as_str(), track_name) {
                        found = true;
                        assert(name@ == track_name@);
                    } else {
                        i = i + 1;
                    }
                }
                found
            },
        };
        if !found {
            return Err(PublishError::RenditionNotFound);
        }
        if !has_text(&self.active_video_encoders, track_name) {
            let ghost before = self.active_video_encoders@;
            self.active_video_encoders.push(track_name.to_owned());
            proof {
                assert(texts(self.active_video_encoders@) =~= texts(before).push(track_name@));
            }
        }
        Ok(())
    }

    /// Starts the encoder of the audio track `track_name`, unless it runs.
    pub fn start_audio_encoder(&mut self, track_name: &str) -> (r: Result<(), PublishError>)
        ensures
            final(self).catalog_model() == old(self).catalog_model(),
            final(self).video_presets() == old(self).video_presets(),
            final(self).audio_presets() == old(self).audio_presets(),
            final(self).running_video() == old(self).running_video(),
            match old(self).audio_presets() {
                None => r == Err::<(), PublishError>(PublishError::NoRenditions) && final(self).running_audio() == old(self).running_audio(),
                Some(presets) => if offers_audio(presets, track_name@) {
                    r is Ok && final(self).running_audio() == if old(self).running_audio().contains(
                        track_name@,
                    ) {
                        old(self).running_audio()
                    } else {
                        old(self).running_audio().push(track_name@)
                    }
                } else {
                    r == Err::<(), PublishError>(PublishError::RenditionNotFound) && final(self).running_audio() == old(self).running_audio()
                },
            },
    {
        let found = match &self.audio_renditions {
            None => {
                return Err(PublishError::NoRenditions);
            },
            Some(renditions) => {
                let mut found = false;
                let mut i: usize = 0;
                while i < renditions.presets.len() && !found
                    invariant
                        0 <= i <= renditions.presets@.len(),
                        found ==> offers_audio(renditions.presets@, track_name@),
                        !found ==> forall|k: int|
                            0 <= k < i ==> audio_track_of(#[trigger] renditions.presets@[k])
                                != track_name@,
                    decreases renditions.presets@.len() - i + if found {
                        0int
                    } else {
                        1int
                    },
                {
                    let name = renditions.presets[i].track_name();
                    if str_eq(name.as_str(), track_name) {
                        found = true;
                        assert(name@ == track_name@);
                    } else {
                        i = i + 1;
                    }
                }
                found
            },
        };
        if !found {
            return Err(PublishError::RenditionNotFound);
        }
        if !has_text(&self.active_audio_encoders, track_name) {
            let ghost before = self.active_audio_encoders@;
            self.active_audio_encoders.push(track_name.to_owned());
            proof {
                assert(texts(self.active_audio_encoders@) =~= texts(before).push(track_name@));
            }
        }
        Ok(())
    }

    /// Names of the configured video tracks.
    pub fn video_renditions(&self) -> (r: Vec<String>)
        ensures
            texts(r@) == match self.video_presets() {
                Some(presets) => presets.map_values(
                    |p: VideoPreset| "video-"@ + video_preset_name(p),
                ),
                None => Seq::<Seq<char>>::empty(),
            },
    {
        match &self.video_renditions {
            Some(r) => r.track_names(),
            None => {
                let v: Vec<String> = Vec::new();
                proof {
                    assert(texts(v@) =~= Seq::<Seq<char>>::empty());
                }
                v
            },
        }
    }

    /// Names of the configured audio tracks.
    pub fn audio_renditions(&self) -> (r: Vec<String>)
        ensures
            texts(r@) == match self.audio_presets() {
                Some(presets) => presets.map_values(
                    |p: AudioPreset| "audio-"@ + audio_preset_name(p),
                ),
                None => Seq::<Seq<char>>::empty(),
            },
    {
        match &self.audio_renditions {
            Some(r) => r.track_names(),
            None => {
                let v: Vec<String> = Vec::new();
                proof {
                    assert(texts(v@) =~= Seq::<Seq<char>>::empty());
                }
                v
            },
        }
    }

    /// Names of the video tracks whose encoders run.
    pub fn active_video_encoders(&self) -> (r: Vec<String>)
        ensures
            texts(r@) == self.running_video(),
    {
        crate::moq_protocol::object::copy_strings(&self.active_video_encoders)
    }

    /// Names of the audio tracks whose encoders run.
    pub fn active_audio_encoders(&self) -> (r: Vec<String>)
        ensures
            texts(r@) == self.running_audio(),
    {
        crate::moq_protocol::object::copy_strings(&self.active_audio_encoders)
    }
}

/// Whether `v` holds the text `t`.
pub fn has_text(v: &Vec<String>, t: &str) -> (b: bool)
    ensures
        b == texts(v@).contains(t@),
{
    let mut i: usize = 0;
    while i < v.len()
        invariant
            0 <= i <= v@.len(),
            forall|k: int| 0 <= k < i ==> texts(v@)[k] != t@,
        decreases v@.len() - i,
    {
        if str_eq(v[i].as_str(), t) {
            assert(texts(v@)[i as int] == t@);
            return true;
        }
        i = i + 1;
    }
    false
}

/// What the handle of a running encoder names.
#[derive(Debug, Clone)]
pub struct EncoderHandle {
    pub track_name: String,
    pub kind: TrackKind,
}

} // verus!
