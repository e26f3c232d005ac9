//! The codec layer as the host application sees it: plain copies of the
//! codec types and the questions a host asks before it creates a codec.

use vstd::prelude::*;
use vstd::std_specs::convert::FromSpecImpl;
use crate::ffmpeg::audio_mime_type;
use crate::ffmpeg::available_audio_codecs;
use crate::ffmpeg::available_hardware_accels;
use crate::ffmpeg::available_video_codecs;
use crate::ffmpeg::ffmpeg_version;
use crate::ffmpeg::is_ffmpeg_available;
use crate::ffmpeg::platform_accel;
use crate::ffmpeg::platform_accels;
use crate::ffmpeg::recommended_bitrate_of;
use crate::ffmpeg::video_mime_type;
use crate::ffmpeg::AudioCodec;
use crate::ffmpeg::DecodedAudioFrame;
use crate::ffmpeg::DecodedVideoFrame;
use crate::ffmpeg::EncodedAudioFrame;
use crate::ffmpeg::EncodedVideoFrame;
use crate::ffmpeg::EncoderPreset;
use crate::ffmpeg::HardwareAccel;
use crate::ffmpeg::VideoCodec;
use crate::ffmpeg_encoder::Platform;
use crate::ffmpeg::INTERFRAME_PRIORITY;
use crate::ffmpeg::INTERFRAME_TTL_MS;
use crate::ffmpeg::KEYFRAME_PRIORITY;
use crate::ffmpeg::KEYFRAME_TTL_MS;
use crate::live_streaming::video_quality_bitrate_kbps;
use crate::live_streaming::video_quality_dimensions;
use crate::live_streaming::VideoQuality;
use crate::moq_protocol::names::texts;

verus! {

/// Video codec, as the host names it.
#[derive(Debug, Clone, Copy, PartialEq, Eq, Structural)]
pub enum FlutterVideoCodec {
    H264,
    H265,
    VP8,
    VP9,
    AV1,
}

impl From<FlutterVideoCodec> for VideoCodec {
    fn from(c: FlutterVideoCodec) -> (r: Self) {
        match c {
            FlutterVideoCodec::H264 => VideoCodec::H264,
            FlutterVideoCodec::H265 => VideoCodec::H265,
            FlutterVideoCodec::VP8 => VideoCodec::VP8,
            FlutterVideoCodec::VP9 => VideoCodec::VP9,
            FlutterVideoCodec::AV1 => VideoCodec::AV1,
        }
    }
}

/// What `VideoCodec::from` makes of a `FlutterVideoCodec`.
pub open spec fn video_codec_of(c: FlutterVideoCodec) -> VideoCodec {
    match c {
        FlutterVideoCodec::H264 => VideoCodec::H264,
        FlutterVideoCodec::H265 => VideoCodec::H265,
        FlutterVideoCodec::VP8 => VideoCodec::VP8,
        FlutterVideoCodec::VP9 => VideoCodec::VP9,
        FlutterVideoCodec::AV1 => VideoCodec::AV1,
    }
}

impl FromSpecImpl<FlutterVideoCodec> for VideoCodec {
    open spec fn obeys_from_spec() -> bool {
        true
    }

    open spec fn from_spec(c: FlutterVideoCodec) -> Self {
        video_codec_of(c)
    }
}

impl From<VideoCodec> for FlutterVideoCodec {
    fn from(c: VideoCodec) -> (r: Self) {
        match c {
            VideoCodec::H264 => FlutterVideoCodec::H264,
            VideoCodec::H265 => FlutterVideoCodec::H265,
            VideoCodec::VP8 => FlutterVideoCodec::VP8,
            VideoCodec::VP9 => FlutterVideoCodec::VP9,
            VideoCodec::AV1 => FlutterVideoCodec::AV1,
        }
    }
}

/// What `FlutterVideoCodec::from` makes of a `VideoCodec`.
pub open spec fn flutter_video_codec(c: VideoCodec) -> FlutterVideoCodec {
    match c {
        VideoCodec::H264 => FlutterVideoCodec::H264,
        VideoCodec::H265 => FlutterVideoCodec::H265,
        VideoCodec::VP8 => FlutterVideoCodec::VP8,
        VideoCodec::VP9 => FlutterVideoCodec::VP9,
        VideoCodec::AV1 => FlutterVideoCodec::AV1,
    }
}

impl FromSpecImpl<VideoCodec> for FlutterVideoCodec {
    open spec fn obeys_from_spec() -> bool {
        true
    }

    open spec fn from_spec(c: VideoCodec) -> Self {
        flutter_video_codec(c)
    }
}

/// Audio codec, as the host names it.
#[derive(Debug, Clone, Copy, PartialEq, Eq, Structural)]
pub enum FlutterAudioCodec {
    AAC,
    Opus,
    MP3,
}

impl From<FlutterAudioCodec> for AudioCodec {
    fn from(c: FlutterAudioCodec) -> (r: Self) {
        match c {
            FlutterAudioCodec::AAC => AudioCodec::AAC,
            FlutterAudioCodec::Opus => AudioCodec::Opus,
            FlutterAudioCodec::MP3 => AudioCodec::MP3,
        }
    }
}

/// What `AudioCodec::from` makes of a `FlutterAudioCodec`.
pub open spec fn audio_codec_of(c: FlutterAudioCodec) -> AudioCodec {
    match c {
        FlutterAudioCodec::AAC => AudioCodec::AAC,
        FlutterAudioCodec::Opus => AudioCodec::Opus,
        FlutterAudioCodec::MP3 => AudioCodec::MP3,
    }
}

impl FromSpecImpl<FlutterAudioCodec> for AudioCodec {
    open spec fn obeys_from_spec() -> bool {
        true
    }

    open spec fn from_spec(c: FlutterAudioCodec) -> Self {
        audio_codec_of(c)
    }
}

impl From<AudioCodec> for FlutterAudioCodec {
    fn from(c: AudioCodec) -> (r: Self) {
        match c {
            AudioCodec::AAC => FlutterAudioCodec::AAC,
            AudioCodec::Opus => FlutterAudioCodec::Opus,
            AudioCodec::MP3 => FlutterAudioCodec::MP3,
        }
    }
}

/// What `FlutterAudioCodec::from` makes of a `AudioCodec`.
pub open spec fn flutter_audio_codec(c: AudioCodec) -> FlutterAudioCodec {
    match c {
        AudioCodec::AAC => FlutterAudioCodec::AAC,
        AudioCodec::Opus => FlutterAudioCodec::Opus,
        AudioCodec::MP3 => FlutterAudioCodec::MP3,
    }
}

impl FromSpecImpl<AudioCodec> for FlutterAudioCodec {
    open spec fn obeys_from_spec() -> bool {
        true
    }

    open spec fn from_spec(c: AudioCodec) -> Self {
        flutter_audio_codec(c)
    }
}

/// Hardware acceleration, as the host names it.
#[derive(Debug, Clone, Copy, PartialEq, Eq, Structural)]
pub enum FlutterHardwareAccel {
    /// Software only.
    Software,
    VideoToolbox,
    MediaCodec,
    NVENC,
    QSV,
    AMF,
}

impl From<FlutterHardwareAccel> for HardwareAccel {
    fn from(h: FlutterHardwareAccel) -> (r: Self) {
        match h {
            FlutterHardwareAccel::Software => HardwareAccel::Software,
            FlutterHardwareAccel::VideoToolbox => HardwareAccel::VideoToolbox,
            FlutterHardwareAccel::MediaCodec => HardwareAccel::MediaCodec,
            FlutterHardwareAccel::NVENC => HardwareAccel::NVENC,
            FlutterHardwareAccel::QSV => HardwareAccel::QSV,
            FlutterHardwareAccel::AMF => HardwareAccel::AMF,
        }
    }
}

/// What `HardwareAccel::from` makes of a `FlutterHardwareAccel`.
pub open spec fn hardware_accel_of(h: FlutterHardwareAccel) -> HardwareAccel {
    match h {
        FlutterHardwareAccel::Software => HardwareAccel::Software,
        FlutterHardwareAccel::VideoToolbox => HardwareAccel::VideoToolbox,
        FlutterHardwareAccel::MediaCodec => HardwareAccel::MediaCodec,
        FlutterHardwareAccel::NVENC => HardwareAccel::NVENC,
        FlutterHardwareAccel::QSV => HardwareAccel::QSV,
        FlutterHardwareAccel::AMF => HardwareAccel::AMF,
    }
}

impl FromSpecImpl<FlutterHardwareAccel> for HardwareAccel {
    open spec fn obeys_from_spec() -> bool {
        true
    }

    open spec fn from_spec(h: FlutterHardwareAccel) -> Self {
        hardware_accel_of(h)
    }
}

impl From<HardwareAccel> for FlutterHardwareAccel {
    fn from(h: HardwareAccel) -> (r: Self) {
        match h {
            HardwareAccel::Software => FlutterHardwareAccel::Software,
            HardwareAccel::VideoToolbox => FlutterHardwareAccel::VideoToolbox,
            HardwareAccel::MediaCodec => FlutterHardwareAccel::MediaCodec,
            HardwareAccel::NVENC => FlutterHardwareAccel::NVENC,
            HardwareAccel::QSV => FlutterHardwareAccel::QSV,
            HardwareAccel::AMF => FlutterHardwareAccel::AMF,
        }
    }
}

/// What `FlutterHardwareAccel::from` makes of a `HardwareAccel`.
pub open spec fn flutter_hardware_accel(h: HardwareAccel) -> FlutterHardwareAccel {
    match h {
        HardwareAccel::Software => FlutterHardwareAccel::Software,
        HardwareAccel::VideoToolbox => FlutterHardwareAccel::VideoToolbox,
        HardwareAccel::MediaCodec => FlutterHardwareAccel::MediaCodec,
        HardwareAccel::NVENC => FlutterHardwareAccel::NVENC,
        HardwareAccel::QSV => FlutterHardwareAccel::QSV,
        HardwareAccel::AMF => FlutterHardwareAccel::AMF,
    }
}

impl FromSpecImpl<HardwareAccel> for FlutterHardwareAccel {
    open spec fn obeys_from_spec() -> bool {
        true
    }

    open spec fn from_spec(h: HardwareAccel) -> Self {
        flutter_hardware_accel(h)
    }
}

/// Encoder speed preset, as the host names it.
#[derive(Debug, Clone, Copy, PartialEq, Eq, Structural)]
pub enum FlutterEncoderPreset {
    Ultrafast,
    Superfast,
    Fast,
    Medium,
    Slow,
    Veryslow,
}

impl From<FlutterEncoderPreset> for EncoderPreset {
    fn from(p: FlutterEncoderPreset) -> (r: Self) {
        match p {
            FlutterEncoderPreset::Ultrafast => EncoderPreset::Ultrafast,
            FlutterEncoderPreset::Superfast => EncoderPreset::Superfast,
            FlutterEncoderPreset::Fast => EncoderPreset::Fast,
            FlutterEncoderPreset::Medium => EncoderPreset::Medium,
            FlutterEncoderPreset::Slow => EncoderPreset::Slow,
            FlutterEncoderPreset::Veryslow => EncoderPreset::Veryslow,
        }
    }
}

/// What `EncoderPreset::from` makes of a `FlutterEncoderPreset`.
pub open spec fn encoder_preset_of(p: FlutterEncoderPreset) -> EncoderPreset {
    match p {
        FlutterEncoderPreset::Ultrafast => EncoderPreset::Ultrafast,
        FlutterEncoderPreset::Superfast => EncoderPreset::Superfast,
        FlutterEncoderPreset::Fast => EncoderPreset::Fast,
        FlutterEncoderPreset::Medium => EncoderPreset::Medium,
        FlutterEncoderPreset::Slow => EncoderPreset::Slow,
        FlutterEncoderPreset::Veryslow => EncoderPreset::Veryslow,
    }
}

impl FromSpecImpl<FlutterEncoderPreset> for EncoderPreset {
    open spec fn obeys_from_spec() -> bool {
        true
    }

    open spec fn from_spec(p: FlutterEncoderPreset) -> Self {
        encoder_preset_of(p)
    }
}

/// An encoded video frame with the priority and time to live of its
/// object.
#[derive(Debug, Clone)]
pub struct FlutterEncodedVideoFrame {
    pub data: Vec<u8>,
    pub pts_us: i64,
    pub dts_us: i64,
    pub is_keyframe: bool,
    pub duration_us: i64,
    pub frame_index: u64,
    pub codec: FlutterVideoCodec,
    pub moq_priority: u8,
    pub moq_ttl_ms: u64,
}

impl From<EncodedVideoFrame> for FlutterEncodedVideoFrame {
    fn from(f: EncodedVideoFrame) -> (r: Self) {
        let moq_priority = f.moq_priority();
        let moq_ttl_ms = f.moq_ttl_ms();
        FlutterEncodedVideoFrame {
            data: f.data,
            pts_us: f.pts_us,
            dts_us: f.dts_us,
            is_keyframe: f.is_keyframe,
            duration_us: f.duration_us,
            frame_index: f.frame_index,
            codec: FlutterVideoCodec::from(f.codec),
            moq_priority,
            moq_ttl_ms,
        }
    }
}

/// What `FlutterEncodedVideoFrame::from` makes of a `EncodedVideoFrame`.
pub open spec fn flutter_encoded_video(f: EncodedVideoFrame) -> FlutterEncodedVideoFrame {
    FlutterEncodedVideoFrame {
        data: f.data,
        pts_us: f.pts_us,
        dts_us: f.dts_us,
        is_keyframe: f.is_keyframe,
        duration_us: f.duration_us,
        frame_index: f.frame_index,
        codec: flutter_video_codec(f.codec),
        moq_priority: if f.is_keyframe {
            KEYFRAME_PRIORITY
        } else {
            INTERFRAME_PRIORITY
        },
        moq_ttl_ms: if f.is_keyframe {
            KEYFRAME_TTL_MS
        } else {
            INTERFRAME_TTL_MS
        },
    }
}

impl FromSpecImpl<EncodedVideoFrame> for FlutterEncodedVideoFrame {
    open spec fn obeys_from_spec() -> bool {
        true
    }

    open spec fn from_spec(f: EncodedVideoFrame) -> Self {
        flutter_encoded_video(f)
    }
}

/// A decoded picture.
#[derive(Debug, Clone)]
pub struct FlutterDecodedVideoFrame {
    pub data: Vec<u8>,
    pub width: u32,
    pub height: u32,
    pub pts_us: i64,
    pub is_keyframe: bool,
}

impl From<DecodedVideoFrame> for FlutterDecodedVideoFrame {
    fn from(f: DecodedVideoFrame) -> (r: Self) {
        FlutterDecodedVideoFrame {
            data: f.data,
            width: f.width,
            height: f.height,
            pts_us: f.pts_us,
            is_keyframe: f.is_keyframe,
        }
    }
}

/// What `FlutterDecodedVideoFrame::from` makes of a `DecodedVideoFrame`.
pub open spec fn flutter_decoded_video(f: DecodedVideoFrame) -> FlutterDecodedVideoFrame {
    FlutterDecodedVideoFrame {
        data: f.data,
        width: f.width,
        height: f.height,
        pts_us: f.pts_us,
        is_keyframe: f.is_keyframe,
    }
}

impl FromSpecImpl<DecodedVideoFrame> for FlutterDecodedVideoFrame {
    open spec fn obeys_from_spec() -> bool {
        true
    }

    open spec fn from_spec(f: DecodedVideoFrame) -> Self {
        flutter_decoded_video(f)
    }
}

/// An encoded audio frame.
#[derive(Debug, Clone)]
pub struct FlutterEncodedAudioFrame {
    pub data: Vec<u8>,
    pub pts_us: i64,
    pub duration_us: i64,
    pub samples: u32,
    pub codec: FlutterAudioCodec,
}

impl From<EncodedAudioFrame> for FlutterEncodedAudioFrame {
    fn from(f: EncodedAudioFrame) -> (r: Self) {
        FlutterEncodedAudioFrame {
            data: f.data,
            pts_us: f.pts_us,
            duration_us: f.duration_us,
            samples: f.samples,
            codec: FlutterAudioCodec::from(f.codec),
        }
    }
}

/// What `FlutterEncodedAudioFrame::from` makes of a `EncodedAudioFrame`.
pub open spec fn flutter_encoded_audio(f: EncodedAudioFrame) -> FlutterEncodedAudioFrame {
    FlutterEncodedAudioFrame {
        data: f.data,
        pts_us: f.pts_us,
        duration_us: f.duration_us,
        samples: f.samples,
        codec: flutter_audio_codec(f.codec),
    }
}

impl FromSpecImpl<EncodedAudioFrame> for FlutterEncodedAudioFrame {
    open spec fn obeys_from_spec() -> bool {
        true
    }

    open spec fn from_spec(f: EncodedAudioFrame) -> Self {
        flutter_encoded_audio(f)
    }
}

/// Decoded audio: interleaved 16-bit samples.
#[derive(Debug, Clone)]
pub struct FlutterDecodedAudioFrame {
    pub samples: Vec<i16>,
    pub pts_us: i64,
    pub sample_rate: u32,
    pub channels: u32,
}

impl From<DecodedAudioFrame> for FlutterDecodedAudioFrame {
    fn from(f: DecodedAudioFrame) -> (r: Self) {
        FlutterDecodedAudioFrame {
            samples: f.samples,
            pts_us: f.pts_us,
            sample_rate: f.sample_rate,
            channels: f.channels,
        }
    }
}

/// What `FlutterDecodedAudioFrame::from` makes of a `DecodedAudioFrame`.
pub open spec fn flutter_decoded_audio(f: DecodedAudioFrame) -> FlutterDecodedAudioFrame {
    FlutterDecodedAudioFrame {
        samples: f.samples,
        pts_us: f.pts_us,
        sample_rate: f.sample_rate,
        channels: f.channels,
    }
}

impl FromSpecImpl<DecodedAudioFrame> for FlutterDecodedAudioFrame {
    open spec fn obeys_from_spec() -> bool {
        true
    }

    open spec fn from_spec(f: DecodedAudioFrame) -> Self {
        flutter_decoded_audio(f)
    }
}

/// Video quality, as the host names it when it asks for a codec.
#[derive(Debug, Clone, Copy, PartialEq, Eq, Structural)]
pub enum FlutterVideoQualityFfmpeg {
    P180,
    P360,
    P720,
    P1080,
}

impl From<FlutterVideoQualityFfmpeg> for VideoQuality {
    fn from(q: FlutterVideoQualityFfmpeg) -> (r: Self) {
        match q {
            FlutterVideoQualityFfmpeg::P180 => VideoQuality::P180,
            FlutterVideoQualityFfmpeg::P360 => VideoQuality::P360,
            FlutterVideoQualityFfmpeg::P720 => VideoQuality::P720,
            FlutterVideoQualityFfmpeg::P1080 => VideoQuality::P1080,
        }
    }
}

/// What `VideoQuality::from` makes of a `FlutterVideoQualityFfmpeg`.
pub open spec fn video_quality_of(q: FlutterVideoQualityFfmpeg) -> VideoQuality {
    match q {
        FlutterVideoQualityFfmpeg::P180 => VideoQuality::P180,
        FlutterVideoQualityFfmpeg::P360 => VideoQuality::P360,
        FlutterVideoQualityFfmpeg::P720 => VideoQuality::P720,
        FlutterVideoQualityFfmpeg::P1080 => VideoQuality::P1080,
    }
}

impl FromSpecImpl<FlutterVideoQualityFfmpeg> for VideoQuality {
    open spec fn obeys_from_spec() -> bool {
        true
    }

    open spec fn from_spec(q: FlutterVideoQualityFfmpeg) -> Self {
        video_quality_of(q)
    }
}

/// Whether real codecs are linked in.
pub fn ffmpeg_is_available() -> (b: bool)
    ensures
        !b,
{
    is_ffmpeg_available()
}

/// Version of the linked codecs.
pub fn ffmpeg_get_version() -> (v: Option<String>)
    ensures
        v is None,
{
    ffmpeg_version()
}

/// The acceleration that `platform` offers.
pub fn ffmpeg_detect_hardware(platform: Platform) -> (h: FlutterHardwareAccel)
    ensures
        h == flutter_hardware_accel(platform_accel(platform)),
{
    FlutterHardwareAccel::from(HardwareAccel::detect(platform))
}

/// The name of an acceleration in listings.
pub open spec fn hardware_accel_label(h: HardwareAccel) -> Seq<char> {
    match h {
        HardwareAccel::Software => "None"@,
        HardwareAccel::VideoToolbox => "VideoToolbox"@,
        HardwareAccel::MediaCodec => "MediaCodec"@,
        HardwareAccel::NVENC => "NVENC"@,
        HardwareAccel::QSV => "QSV"@,
        HardwareAccel::AMF => "AMF"@,
    }
}

/// The name of a video codec in listings.
pub open spec fn video_codec_label(c: VideoCodec) -> Seq<char> {
    match c {
        VideoCodec::H264 => "H264"@,
        VideoCodec::H265 => "H265"@,
        VideoCodec::VP8 => "VP8"@,
        VideoCodec::VP9 => "VP9"@,
        VideoCodec::AV1 => "AV1"@,
    }
}

/// The name of an audio codec in listings.
pub open spec fn audio_codec_label(c: AudioCodec) -> Seq<char> {
    match c {
        AudioCodec::AAC => "AAC"@,
        AudioCodec::Opus => "Opus"@,
        AudioCodec::MP3 => "MP3"@,
    }
}

fn hardware_label(h: HardwareAccel) -> (s: String)
    ensures
        s@ == hardware_accel_label(h),
{
    match h {
        HardwareAccel::Software => "None".to_owned(),
        HardwareAccel::VideoToolbox => "VideoToolbox".to_owned(),
        HardwareAccel::MediaCodec => "MediaCodec".to_owned(),
        HardwareAccel::NVENC => "NVENC".to_owned(),
        HardwareAccel::QSV => "QSV".to_owned(),
        HardwareAccel::AMF => "AMF".to_owned(),
    }
}

fn video_label(c: VideoCodec) -> (s: String)
    ensures
        s@ == video_codec_label(c),
{
    match c {
        VideoCodec::H264 => "H264".to_owned(),
        VideoCodec::H265 => "H265".to_owned(),
        VideoCodec::VP8 => "VP8".to_owned(),
        VideoCodec::VP9 => "VP9".to_owned(),
        VideoCodec::AV1 => "AV1".to_owned(),
    }
}

fn audio_label(c: AudioCodec) -> (s: String)
    ensures
        s@ == audio_codec_label(c),
{
    match c {
        AudioCodec::AAC => "AAC".to_owned(),
        AudioCodec::Opus => "Opus".to_owned(),
        AudioCodec::MP3 => "MP3".to_owned(),
    }
}

/// The names of the accelerations at hand on `platform`.
pub fn ffmpeg_list_hardware_accels(platform: Platform) -> (names: Vec<String>)
    ensures
        texts(names@) == platform_accels(platform).map_values(|h: HardwareAccel| hardware_accel_label(h)),
{
    let all = available_hardware_accels(platform);
    let mut names: Vec<String> = Vec::new();
    let mut i: usize = 0;
    while i < all.len()
        invariant
            0 <= i <= all@.len(),
            texts(names@) == all@.take(i as int).map_values(|h: HardwareAccel| hardware_accel_label(h)),
        decreases all@.len() - i,
    {
        let ghost before = names@;
        names.push(hardware_label(all[i]));
        proof {
            assert(all@.take(i + 1) =~= all@.take(i as int).push(all@[i as int]));
            assert(texts(names@) =~= texts(before).push(hardware_accel_label(all@[i as int])));
            assert(texts(names@) =~= all@.take(i + 1).map_values(|h: HardwareAccel| hardware_accel_label(h)));
        }
        i = i + 1;
    }
    proof {
        assert(all@.take(all@.len() as int) =~= all@);
    }
    names
}

/// The names of the video codecs at hand.
pub fn ffmpeg_list_video_codecs() -> (names: Vec<String>)
    ensures
        texts(names@) == seq![
            video_codec_label(VideoCodec::H264),
            video_codec_label(VideoCodec::H265),
            video_codec_label(VideoCodec::VP8),
            video_codec_label(VideoCodec::VP9),
            video_codec_label(VideoCodec::AV1),
        ],
{
    let all = available_video_codecs();
    let mut names: Vec<String> = Vec::new();
    let mut i: usize = 0;
    while i < all.len()
        invariant
            0 <= i <= all@.len(),
            texts(names@) == all@.take(i as int).map_values(|c: VideoCodec| video_codec_label(c)),
        decreases all@.len() - i,
    {
        let ghost before = names@;
        names.push(video_label(all[i]));
        proof {
            assert(all@.take(i + 1) =~= all@.take(i as int).push(all@[i as int]));
            assert(texts(names@) =~= texts(before).push(video_codec_label(all@[i as int])));
            assert(texts(names@) =~= all@.take(i + 1).map_values(|c: VideoCodec| video_codec_label(c)));
        }
        i = i + 1;
    }
    proof {
        assert(all@.take(all@.len() as int) =~= all@);
        assert(texts(names@) =~= seq![
            video_codec_label(VideoCodec::H264),
            video_codec_label(VideoCodec::H265),
            video_codec_label(VideoCodec::VP8),
            video_codec_label(VideoCodec::VP9),
            video_codec_label(VideoCodec::AV1),
        ]);
    }
    names
}

/// The names of the audio codecs at hand.
pub fn ffmpeg_list_audio_codecs() -> (names: Vec<String>)
    ensures
        texts(names@) == seq![
            audio_codec_label(AudioCodec::AAC),
            audio_codec_label(AudioCodec::Opus),
            audio_codec_label(AudioCodec::MP3),
        ],
{
    let all = available_audio_codecs();
    let mut names: Vec<String> = Vec::new();
    let mut i: usize = 0;
    while i < all.len()
        invariant
            0 <= i <= all@.len(),
            texts(names@) == all@.take(i as int).map_values(|c: AudioCodec| audio_codec_label(c)),
        decreases all@.len() - i,
    {
        let ghost before = names@;
        names.push(audio_label(all[i]));
        proof {
            assert(all@.take(i + 1) =~= all@.take(i as int).push(all@[i as int]));
            assert(texts(names@) =~= texts(before).push(audio_codec_label(all@[i as int])));
            assert(texts(names@) =~= all@.take(i + 1).map_values(|c: AudioCodec| audio_codec_label(c)));
        }
        i = i + 1;
    }
    proof {
        assert(all@.take(all@.len() as int) =~= all@);
        assert(texts(names@) =~= seq![
            audio_codec_label(AudioCodec::AAC),
            audio_codec_label(AudioCodec::Opus),
            audio_codec_label(AudioCodec::MP3),
        ]);
    }
    names
}

/// The media type of a video codec.
pub fn ffmpeg_get_video_mime_type(codec: FlutterVideoCodec) -> (m: String)
    ensures
        m@ == video_mime_type(video_codec_of(codec)),
{
    let c = VideoCodec::from(codec);
    c.mime_type().to_owned()
}

/// The media type of an audio codec.
pub fn ffmpeg_get_audio_mime_type(codec: FlutterAudioCodec) -> (m: String)
    ensures
        m@ == audio_mime_type(audio_codec_of(codec)),
{
    let c = AudioCodec::from(codec);
    c.mime_type().to_owned()
}

/// Kilobits per second that a quality is encoded at.
pub fn ffmpeg_get_recommended_bitrate(quality: FlutterVideoQualityFfmpeg) -> (b: u32)
    ensures
        b == video_quality_bitrate_kbps(video_quality_of(quality)),
{
    let q = VideoQuality::from(quality);
    q.bitrate_kbps()
}

/// Width and height of a quality.
pub fn ffmpeg_get_quality_dimensions(quality: FlutterVideoQualityFfmpeg) -> (d: (u32, u32))
    ensures
        d == video_quality_dimensions(video_quality_of(quality)),
{
    let q = VideoQuality::from(quality);
    q.dimensions()
}

/// Kilobits per second that suit an audio codec.
pub fn ffmpeg_get_audio_bitrate(codec: FlutterAudioCodec, high_quality: bool) -> (b: u32)
    ensures
        b == recommended_bitrate_of(audio_codec_of(codec), high_quality),
{
    let c = AudioCodec::from(codec);
    c.recommended_bitrate(high_quality)
}

} // verus!
