//! Codec names, encoder configuration, and stand-in encoders and decoders
//! that frame data without compressing it.

use vstd::prelude::*;
use crate::ffmpeg_encoder::Platform;
use crate::live_streaming::VideoQuality;
use crate::live_streaming::video_quality_bitrate_kbps;
use crate::live_streaming::video_quality_dimensions;

verus! {

/// Video codec.
#[derive(Debug, Clone, Copy, PartialEq, Eq, Hash, Structural)]
pub enum VideoCodec {
    H264,
    H265,
    VP8,
    VP9,
    AV1,
}

/// Hardware acceleration.
#[derive(Debug, Clone, Copy, PartialEq, Eq, Hash, Structural)]
pub enum HardwareAccel {
    /// Software only.
    Software,
    VideoToolbox,
    MediaCodec,
    NVENC,
    QSV,
    AMF,
}

/// Name of the software encoder of a codec.
pub open spec fn software_encoder_name(c: VideoCodec) -> Seq<char> {
    match c {
        VideoCodec::H264 => "libx264"@,
        VideoCodec::H265 => "libx265"@,
        VideoCodec::VP8 => "libvpx"@,
        VideoCodec::VP9 => "libvpx-vp9"@,
        VideoCodec::AV1 => "libaom-av1"@,
    }
}

/// Name of the encoder of a codec on the given hardware; where the hardware
/// has none for the codec, the software encoder's.
pub open spec fn encoder_name_of(c: VideoCodec, hw: HardwareAccel) -> Seq<char> {
    match (c, hw) {
        (VideoCodec::H264, HardwareAccel::VideoToolbox) => "h264_videotoolbox"@,
        (VideoCodec::H265, HardwareAccel::VideoToolbox) => "hevc_videotoolbox"@,
        (VideoCodec::H264, HardwareAccel::MediaCodec) => "h264_mediacodec"@,
        (VideoCodec::H265, HardwareAccel::MediaCodec) => "hevc_mediacodec"@,
        (VideoCodec::VP8, HardwareAccel::MediaCodec) => "vp8_mediacodec"@,
        (VideoCodec::VP9, HardwareAccel::MediaCodec) => "vp9_mediacodec"@,
        _ => software_encoder_name(c),
    }
}

/// Name of the decoder of a codec on the given hardware; where the hardware
/// has none for the codec, the codec's own name.
pub open spec fn decoder_name_of(c: VideoCodec, hw: HardwareAccel) -> Seq<char> {
    match (c, hw) {
        (VideoCodec::H264, HardwareAccel::VideoToolbox) => "h264_videotoolbox"@,
        (VideoCodec::H265, HardwareAccel::VideoToolbox) => "hevc_videotoolbox"@,
        (VideoCodec::H264, HardwareAccel::MediaCodec) => "h264_mediacodec"@,
        (VideoCodec::H265, HardwareAccel::MediaCodec) => "hevc_mediacodec"@,
        (VideoCodec::VP8, HardwareAccel::MediaCodec) => "vp8_mediacodec"@,
        (VideoCodec::VP9, HardwareAccel::MediaCodec) => "vp9_mediacodec"@,
        (VideoCodec::H264, _) => "h264"@,
        (VideoCodec::H265, _) => "hevc"@,
        (VideoCodec::VP8, _) => "vp8"@,
        (VideoCodec::VP9, _) => "vp9"@,
        (VideoCodec::AV1, _) => "av1"@,
    }
}

pub open spec fn video_mime_type(c: VideoCodec) -> Seq<char> {
    match c {
        VideoCodec::H264 => "video/avc"@,
        VideoCodec::H265 => "video/hevc"@,
        VideoCodec::VP8 => "video/vp8"@,
        VideoCodec::VP9 => "video/vp9"@,
        VideoCodec::AV1 => "video/av1"@,
    }
}

impl VideoCodec {
    /// Name of the encoder for this codec.
    pub fn encoder_name(&self, hardware: HardwareAccel) -> (n: &'static str)
        ensures
            n@ == encoder_name_of(*self, hardware),
    {
        match (self, hardware) {
            (VideoCodec::H264, HardwareAccel::VideoToolbox) => "h264_videotoolbox",
            (VideoCodec::H265, HardwareAccel::VideoToolbox) => "hevc_videotoolbox",
            (VideoCodec::H264, HardwareAccel::MediaCodec) => "h264_mediacodec",
            (VideoCodec::H265, HardwareAccel::MediaCodec) => "hevc_mediacodec",
            (VideoCodec::VP8, HardwareAccel::MediaCodec) => "vp8_mediacodec",
            (VideoCodec::VP9, HardwareAccel::MediaCodec) => "vp9_mediacodec",
            (VideoCodec::H264, _) => "libx264",
            (VideoCodec::H265, _) => "libx265",
            (VideoCodec::VP8, _) => "libvpx",
            (VideoCodec::VP9, _) => "libvpx-vp9",
            (VideoCodec::AV1, _) => "libaom-av1",
        }
    }

    /// Name of the decoder for this codec.
    pub fn decoder_name(&self, hardware: HardwareAccel) -> (n: &'static str)
        ensures
            n@ == decoder_name_of(*self, hardware),
    {
        match (self, hardware) {
            (VideoCodec::H264, HardwareAccel::VideoToolbox) => "h264_videotoolbox",
            (VideoCodec::H265, HardwareAccel::VideoToolbox) => "hevc_videotoolbox",
            (VideoCodec::H264, HardwareAccel::MediaCodec) => "h264_mediacodec",
            (VideoCodec::H265, HardwareAccel::MediaCodec) => "hevc_mediacodec",
            (VideoCodec::VP8, HardwareAccel::MediaCodec) => "vp8_mediacodec",
            (VideoCodec::VP9, HardwareAccel::MediaCodec) => "vp9_mediacodec",
            (VideoCodec::H264, _) => "h264",
            (VideoCodec::H265, _) => "hevc",
            (VideoCodec::VP8, _) => "vp8",
            (VideoCodec::VP9, _) => "vp9",
            (VideoCodec::AV1, _) => "av1",
        }
    }

    pub fn mime_type(&self) -> (m: &'static str)
        ensures
            m@ == video_mime_type(*self),
    {
        match self {
            VideoCodec::H264 => "video/avc",
            VideoCodec::H265 => "video/hevc",
            VideoCodec::VP8 => "video/vp8",
            VideoCodec::VP9 => "video/vp9",
            VideoCodec::AV1 => "video/av1",
        }
    }
}

/// Audio codec.
#[derive(Debug, Clone, Copy, PartialEq, Eq, Hash, Structural)]
pub enum AudioCodec {
    AAC,
    Opus,
    MP3,
}

pub open spec fn audio_encoder_name(c: AudioCodec) -> Seq<char> {
    match c {
        AudioCodec::AAC => "aac"@,
        AudioCodec::Opus => "libopus"@,
        AudioCodec::MP3 => "libmp3lame"@,
    }
}

pub open spec fn audio_decoder_name(c: AudioCodec) -> Seq<char> {
    match c {
        AudioCodec::AAC => "aac"@,
        AudioCodec::Opus => "opus"@,
        AudioCodec::MP3 => "mp3"@,
    }
}

pub open spec fn audio_mime_type(c: AudioCodec) -> Seq<char> {
    match c {
        AudioCodec::AAC => "audio/aac"@,
        AudioCodec::Opus => "audio/opus"@,
        AudioCodec::MP3 => "audio/mpeg"@,
    }
}

/// Recommended bitrate in kbps of a codec, for high quality or for low.
pub open spec fn recommended_bitrate_of(c: AudioCodec, high_quality: bool) -> u32 {
    match (c, high_quality) {
        (AudioCodec::AAC, true) => 128,
        (AudioCodec::AAC, false) => 64,
        (AudioCodec::Opus, true) => 96,
        (AudioCodec::Opus, false) => 32,
        (AudioCodec::MP3, true) => 192,
        (AudioCodec::MP3, false) => 128,
    }
}

impl AudioCodec {
    pub fn encoder_name(&self) -> (n: &'static str)
        ensures
            n@ == audio_encoder_name(*self),
    {
        match self {
            AudioCodec::AAC => "aac",
            AudioCodec::Opus => "libopus",
            AudioCodec::MP3 => "libmp3lame",
        }
    }

    pub fn decoder_name(&self) -> (n: &'static str)
        ensures
            n@ == audio_decoder_name(*self),
    {
        match self {
            AudioCodec::AAC => "aac",
            AudioCodec::Opus => "opus",
            AudioCodec::MP3 => "mp3",
        }
    }

    pub fn mime_type(&self) -> (m: &'static str)
        ensures
            m@ == audio_mime_type(*self),
    {
        match self {
            AudioCodec::AAC => "audio/aac",
            AudioCodec::Opus => "audio/opus",
            AudioCodec::MP3 => "audio/mpeg",
        }
    }

    /// Recommended bitrate in kbps.
    pub fn recommended_bitrate(&self, high_quality: bool) -> (b: u32)
        ensures
            b == recommended_bitrate_of(*self, high_quality),
    {
        match (self, high_quality) {
            (AudioCodec::AAC, true) => 128,
            (AudioCodec::AAC, false) => 64,
            (AudioCodec::Opus, true) => 96,
            (AudioCodec::Opus, false) => 32,
            (AudioCodec::MP3, true) => 192,
            (AudioCodec::MP3, false) => 128,
        }
    }
}

/// The acceleration of a platform: the video toolbox on iOS and macOS, the
/// media codec on Android, none elsewhere.
pub open spec fn platform_accel(p: Platform) -> HardwareAccel {
    match p {
        Platform::Ios => HardwareAccel::VideoToolbox,
        Platform::MacOs => HardwareAccel::VideoToolbox,
        Platform::Android => HardwareAccel::MediaCodec,
        _ => HardwareAccel::Software,
    }
}

/// The accelerations at hand on a platform: software, and the platform's
/// own where it has one.
pub open spec fn platform_accels(p: Platform) -> Seq<HardwareAccel> {
    if platform_accel(p) == HardwareAccel::Software {
        seq![HardwareAccel::Software]
    } else {
        seq![HardwareAccel::Software, platform_accel(p)]
    }
}

impl HardwareAccel {
    /// The acceleration of the platform that the library runs on.
    pub fn detect(platform: Platform) -> (h: Self)
        ensures
            h == platform_accel(platform),
    {
        match platform {
            Platform::Ios => HardwareAccel::VideoToolbox,
            Platform::MacOs => HardwareAccel::VideoToolbox,
            Platform::Android => HardwareAccel::MediaCodec,
            _ => HardwareAccel::Software,
        }
    }
}

/// Encoder speed preset.
#[derive(Debug, Clone, Copy, PartialEq, Eq, Structural)]
pub enum EncoderPreset {
    Ultrafast,
    Superfast,
    Fast,
    Medium,
    Slow,
    Veryslow,
}

pub open spec fn encoder_preset_name(p: EncoderPreset) -> Seq<char> {
    match p {
        EncoderPreset::Ultrafast => "ultrafast"@,
        EncoderPreset::Superfast => "superfast"@,
        EncoderPreset::Fast => "fast"@,
        EncoderPreset::Medium => "medium"@,
        EncoderPreset::Slow => "slow"@,
        EncoderPreset::Veryslow => "veryslow"@,
    }
}

impl EncoderPreset {
    pub fn as_str(&self) -> (n: &'static str)
        ensures
            n@ == encoder_preset_name(*self),
    {
        match self {
            Self::Ultrafast => "ultrafast",
            Self::Superfast => "superfast",
            Self::Fast => "fast",
            Self::Medium => "medium",
            Self::Slow => "slow",
            Self::Veryslow => "veryslow",
        }
    }
}

/// Encoder tuning for a kind of content.
#[derive(Debug, Clone, Copy, PartialEq, Eq, Structural)]
pub enum EncoderTune {
    /// No tuning.
    Untuned,
    ZeroLatency,
    Film,
    Animation,
    Stillimage,
    Screen,
}

pub open spec fn encoder_tune_name(t: EncoderTune) -> Seq<char> {
    match t {
        EncoderTune::Untuned => ""@,
        EncoderTune::ZeroLatency => "zerolatency"@,
        EncoderTune::Film => "film"@,
        EncoderTune::Animation => "animation"@,
        EncoderTune::Stillimage => "stillimage"@,
        EncoderTune::Screen => "screen"@,
    }
}

impl EncoderTune {
    pub fn as_str(&self) -> (n: &'static str)
        ensures
            n@ == encoder_tune_name(*self),
    {
        match self {
            Self::Untuned => "",
            Self::ZeroLatency => "zerolatency",
            Self::Film => "film",
            Self::Animation => "animation",
            Self::Stillimage => "stillimage",
            Self::Screen => "screen",
        }
    }
}

/// How a video encoder is set up.
#[derive(Debug, Clone, Copy, PartialEq, Eq, Structural)]
pub struct VideoEncoderConfig {
    pub codec: VideoCodec,
    pub quality: VideoQuality,
    pub hardware: HardwareAccel,
    /// Target bitrate in kbps.
    pub bitrate_kbps: u32,
    /// Frames from one keyframe to the next.
    pub keyframe_interval: u32,
    pub preset: EncoderPreset,
    pub tune: EncoderTune,
    pub low_latency: bool,
}

impl VideoEncoderConfig {
    /// The low-latency H.264 configuration of a quality on a platform: the
    /// quality's bitrate, the platform's acceleration, and a keyframe every
    /// two seconds.
    pub fn new(quality: VideoQuality, platform: Platform) -> (c: Self)
        ensures
            c == (VideoEncoderConfig {
                codec: VideoCodec::H264,
                quality,
                hardware: platform_accel(platform),
                bitrate_kbps: video_quality_bitrate_kbps(quality),
                keyframe_interval: 60,
                preset: EncoderPreset::Fast,
                tune: EncoderTune::ZeroLatency,
                low_latency: true,
            }),
    {
        Self {
            codec: VideoCodec::H264,
            quality,
            hardware: HardwareAccel::detect(platform),
            bitrate_kbps: quality.bitrate_kbps(),
            keyframe_interval: quality.fps() * 2,
            preset: EncoderPreset::Fast,
            tune: EncoderTune::ZeroLatency,
            low_latency: true,
        }
    }

    pub fn with_codec(self, codec: VideoCodec) -> (c: Self)
        ensures
            c == (VideoEncoderConfig { codec, ..self }),
    {
        let mut c = self;
        c.codec = codec;
        c
    }

    pub fn with_hardware(self, hw: HardwareAccel) -> (c: Self)
        ensures
            c == (VideoEncoderConfig { hardware: hw, ..self }),
    {
        let mut c = self;
        c.hardware = hw;
        c
    }

    pub fn with_bitrate(self, bitrate_kbps: u32) -> (c: Self)
        ensures
            c == (VideoEncoderConfig { bitrate_kbps, ..self }),
    {
        let mut c = self;
        c.bitrate_kbps = bitrate_kbps;
        c
    }

    pub fn with_preset(self, preset: EncoderPreset) -> (c: Self)
        ensures
            c == (VideoEncoderConfig { preset, ..self }),
    {
        let mut c = self;
        c.preset = preset;
        c
    }

    pub fn width(&self) -> (w: u32)
        ensures
            w == video_quality_dimensions(self.quality).0,
    {
        self.quality.dimensions().0
    }

    pub fn height(&self) -> (h: u32)
        ensures
            h == video_quality_dimensions(self.quality).1,
    {
        self.quality.dimensions().1
    }

    pub fn fps(&self) -> (f: u32)
        ensures
            f == 30,
    {
        self.quality.fps()
    }
}

/// How an audio encoder is set up.
#[derive(Debug, Clone, Copy, PartialEq, Eq, Structural)]
pub struct AudioEncoderConfig {
    pub codec: AudioCodec,
    /// In Hz.
    pub sample_rate: u32,
    pub channels: u32,
    pub bitrate_kbps: u32,
}

impl AudioEncoderConfig {
    /// 48 kHz stereo for high quality, 44.1 kHz mono else, at the codec's
    /// recommended bitrate.
    pub fn new(codec: AudioCodec, high_quality: bool) -> (c: Self)
        ensures
            c == (AudioEncoderConfig {
                codec,
                sample_rate: if high_quality {
                    48000u32
                } else {
                    44100u32
                },
                channels: if high_quality {
                    2u32
                } else {
                    1u32
                },
                bitrate_kbps: recommended_bitrate_of(codec, high_quality),
            }),
    {
        Self {
            codec,
            sample_rate: if high_quality {
                48000
            } else {
                44100
            },
            channels: if high_quality {
                2
            } else {
                1
            },
            bitrate_kbps: codec.recommended_bitrate(high_quality),
        }
    }

    /// Low-latency voice: Opus, 48 kHz mono, 32 kbps.
    pub fn voice() -> (c: Self)
        ensures
            c == (AudioEncoderConfig {
                codec: AudioCodec::Opus,
                sample_rate: 48000,
                channels: 1,
                bitrate_kbps: 32,
            }),
    {
        Self { codec: AudioCodec::Opus, sample_rate: 48000, channels: 1, bitrate_kbps: 32 }
    }

    /// Music: AAC, 48 kHz stereo, 128 kbps.
    pub fn music() -> (c: Self)
        ensures
            c == (AudioEncoderConfig {
                codec: AudioCodec::AAC,
                sample_rate: 48000,
                channels: 2,
                bitrate_kbps: 128,
            }),
    {
        Self { codec: AudioCodec::AAC, sample_rate: 48000, channels: 2, bitrate_kbps: 128 }
    }
}

/// An encoded video frame.
#[derive(Debug, Clone)]
pub struct EncodedVideoFrame {
    pub data: Vec<u8>,
    /// Presentation timestamp in microseconds.
    pub pts_us: i64,
    /// Decode timestamp in microseconds.
    pub dts_us: i64,
    pub is_keyframe: bool,
    /// In microseconds.
    pub duration_us: i64,
    pub frame_index: u64,
    pub codec: VideoCodec,
    pub quality: VideoQuality,
}

/// Priority of a keyframe: the most urgent.
pub const KEYFRAME_PRIORITY: u8 = 0;

/// Priority of every other frame.
pub const INTERFRAME_PRIORITY: u8 = 128;

/// Milliseconds that a keyframe lives.
pub const KEYFRAME_TTL_MS: u64 = 5000;

/// Milliseconds that every other frame lives.
pub const INTERFRAME_TTL_MS: u64 = 2000;

impl EncodedVideoFrame {
    /// Publisher priority of the frame's object: keyframes are the most
    /// urgent.
    pub fn moq_priority(&self) -> (p: u8)
        ensures
            p == if self.is_keyframe {
                KEYFRAME_PRIORITY
            } else {
                INTERFRAME_PRIORITY
            },
    {
        if self.is_keyframe {
            KEYFRAME_PRIORITY
        } else {
            INTERFRAME_PRIORITY
        }
    }

    /// Time to live of the frame's object in milliseconds: keyframes live
    /// longer.
    pub fn moq_ttl_ms(&self) -> (t: u64)
        ensures
            t == if self.is_keyframe {
                KEYFRAME_TTL_MS
            } else {
                INTERFRAME_TTL_MS
            },
    {
        if self.is_keyframe {
            KEYFRAME_TTL_MS
        } else {
            INTERFRAME_TTL_MS
        }
    }
}

/// An encoded audio frame.
#[derive(Debug, Clone)]
pub struct EncodedAudioFrame {
    pub data: Vec<u8>,
    pub pts_us: i64,
    pub duration_us: i64,
    /// Samples of one channel.
    pub samples: u32,
    pub codec: AudioCodec,
}

/// Why an encoder or decoder could not do its work.
#[derive(Debug, Clone, Copy, PartialEq, Eq, Structural)]
pub enum CodecError {
    /// The quality has no encoder in the ladder.
    QualityNotAvailable,
}

/// The first byte behind the start code: an IDR slice for a keyframe, else
/// a non-IDR slice.
pub open spec fn slice_type(is_keyframe: bool) -> u8 {
    if is_keyframe {
        0x65
    } else {
        0x41
    }
}

/// Number of input bytes that a stand-in frame of `target_size` bytes takes
/// from an input of `raw_len` bytes.
pub open spec fn copied_len(raw_len: nat, target_size: nat) -> nat {
    let room = if target_size >= 5 {
        (target_size - 5) as nat
    } else {
        0nat
    };
    if room <= raw_len {
        room
    } else {
        raw_len
    }
}

/// The stand-in for an encoded frame: a start code, the slice type, the
/// beginning of the input, and zeros up to `target_size` bytes.
pub open spec fn mock_encoded(raw: Seq<u8>, target_size: nat, is_keyframe: bool) -> Seq<u8> {
    let taken = copied_len(raw.len(), target_size);
    let head = seq![0u8, 0u8, 0u8, 1u8, slice_type(is_keyframe)] + raw.take(taken as int);
    if head.len() < target_size {
        head + Seq::new((target_size - head.len()) as nat, |i: int| 0u8)
    } else {
        head
    }
}

/// Bytes of one frame at `bitrate_kbps` and `fps` frames per second.
pub open spec fn frame_budget(bitrate_kbps: u32, fps: u32) -> int {
    (bitrate_kbps * 1000 / 8) / (fps as int)
}

/// Stand-in video encoder.
#[derive(Debug)]
pub struct VideoEncoder {
    config: VideoEncoderConfig,
    frame_index: u64,
    initialized: bool,
}

impl VideoEncoder {
    pub closed spec fn spec_config(&self) -> VideoEncoderConfig {
        self.config
    }

    /// Index of the next frame.
    pub closed spec fn next_frame(&self) -> u64 {
        self.frame_index
    }

    pub closed spec fn is_initialized(&self) -> bool {
        self.initialized
    }

    pub fn new(config: VideoEncoderConfig) -> (r: Result<Self, CodecError>)
        ensures
            r is Ok,
            r->Ok_0.spec_config() == config,
            r->Ok_0.next_frame() == 0,
            !r->Ok_0.is_initialized(),
    {
        Ok(Self { config, frame_index: 0, initialized: false })
    }

    pub fn initialize(&mut self) -> (r: Result<(), CodecError>)
        ensures
            r is Ok,
            final(self).is_initialized(),
            final(self).spec_config() == old(self).spec_config(),
            final(self).next_frame() == old(self).next_frame(),
    {
        self.initialized = true;
        Ok(())
    }

    /// Frames `raw_frame` as the next frame. Every `keyframe_interval`-th
    /// frame, the first too, is a keyframe.
    pub fn encode(&mut self, raw_frame: &[u8], pts_us: i64) -> (r: Result<EncodedVideoFrame, CodecError>)
        requires
            old(self).spec_config().keyframe_interval > 0,
            old(self).next_frame() < u64::MAX,
            frame_budget(old(self).spec_config().bitrate_kbps, 30) + 5 <= usize::MAX,
        ensures
            r is Ok,
            final(self).is_initialized(),
            final(self).spec_config() == old(self).spec_config(),
            final(self).next_frame() == old(self).next_frame() + 1,
            ({
                let frame = r->Ok_0;
                let config = old(self).spec_config();
                &&& frame.is_keyframe == (old(self).next_frame() % (config.keyframe_interval as u64)
                    == 0)
                &&& frame.data@ == mock_encoded(
                    raw_frame@,
                    frame_budget(config.bitrate_kbps, 30) as nat,
                    frame.is_keyframe,
                )
                &&& frame.pts_us == pts_us
                &&& frame.dts_us == pts_us
                &&& frame.duration_us == 33333
                &&& frame.frame_index == old(self).next_frame()
                &&& frame.codec == config.codec
                &&& frame.quality == config.quality
            }),
    {
        if !self.initialized {
            let _ = self.initialize();
        }
        let is_keyframe = self.frame_index % (self.config.keyframe_interval as u64) == 0;
        let fps = self.config.fps();
        let budget: u64 = (self.config.bitrate_kbps as u64 * 1000 / 8) / (fps as u64);
        let data = Self::mock_encode(raw_frame, budget as usize, is_keyframe);
        let frame = EncodedVideoFrame {
            data,
            pts_us,
            dts_us: pts_us,
            is_keyframe,
            duration_us: 1_000_000 / (fps as i64),
            frame_index: self.frame_index,
            codec: self.config.codec,
            quality: self.config.quality,
        };
        self.frame_index = self.frame_index + 1;
        Ok(frame)
    }

    /// The stand-in for an encoded frame.
    fn mock_encode(raw_frame: &[u8], target_size: usize, is_keyframe: bool) -> (output: Vec<u8>)
        requires
            target_size + 5 <= usize::MAX,
        ensures
            output@ == mock_encoded(raw_frame@, target_size as nat, is_keyframe),
    {
        let mut output: Vec<u8> = Vec::new();
        output.push(0x00);
        output.push(0x00);
        output.push(0x00);
        output.push(0x01);
        if is_keyframe {
            output.push(0x65);
        } else {
            output.push(0x41);
        }
        let room = if target_size >= 5 {
            target_size - 5
        } else {
            0
        };
        let taken = if room <= raw_frame.len() {
            room
        } else {
            raw_frame.len()
        };
        let ghost start = seq![0u8, 0u8, 0u8, 1u8, slice_type(is_keyframe)];
        proof {
            assert(output@ =~= start + raw_frame@.take(0));
        }
        let mut i: usize = 0;
        while i < taken
            invariant
                taken <= raw_frame@.len(),
                0 <= i <= taken,
                start.len() == 5,
                output@ == start + raw_frame@.take(i as int),
            decreases taken - i,
        {
            output.push(raw_frame[i]);
            proof {
                assert(output@ =~= start + raw_frame@.take(i + 1));
            }
            i = i + 1;
        }
        let ghost head = output@;
        while output.len() < target_size
            invariant
                head.len() <= output@.len(),
                output@.len() <= target_size || output@.len() == head.len(),
                output@ == head + Seq::new((output@.len() - head.len()) as nat, |i: int| 0u8),
            decreases target_size - output@.len(),
        {
            output.push(0x00);
            proof {
                assert(output@ =~= head + Seq::new(
                    (output@.len() - head.len()) as nat,
                    |i: int| 0u8,
                ));
            }
        }
        proof {
            if head.len() >= target_size {
                assert(output@ =~= head);
            }
        }
        output
    }

    pub fn config(&self) -> (c: &VideoEncoderConfig)
        ensures
            *c == self.spec_config(),
    {
        &self.config
    }

    /// Starts the frame count anew.
    pub fn reset(&mut self)
        ensures
            final(self).next_frame() == 0,
            final(self).spec_config() == old(self).spec_config(),
            final(self).is_initialized() == old(self).is_initialized(),
    {
        self.frame_index = 0;
    }

    /// The frames that the encoder still holds: none, as it holds none back.
    pub fn flush(&mut self) -> (frames: Vec<EncodedVideoFrame>)
        ensures
            frames@.len() == 0,
            *final(self) == *old(self),
    {
        Vec::new()
    }
}

/// Layout of the pixels of a raw frame.
#[derive(Debug, Clone, Copy, PartialEq, Eq, Structural)]
pub enum PixelFormat {
    RGBA,
    BGRA,
    YUV420P,
    NV12,
}

impl PixelFormat {
    /// Bytes per pixel of a packed format; 0 for a planar one.
    pub fn bytes_per_pixel(&self) -> (n: usize)
        ensures
            n == match *self {
                PixelFormat::RGBA | PixelFormat::BGRA => 4usize,
                _ => 0usize,
            },
    {
        match self {
            Self::RGBA | Self::BGRA => 4,
            Self::YUV420P | Self::NV12 => 0,
        }
    }

    /// Bytes that a frame of `width` by `height` pixels takes.
    pub fn buffer_size(&self, width: u32, height: u32) -> (n: usize)
        requires
            width * height * 4 <= usize::MAX,
        ensures
            n == match *self {
                PixelFormat::RGBA | PixelFormat::BGRA => width * height * 4,
                _ => (width * height * 3) / 2,
            },
    {
        let w = width as u128;
        let h = height as u128;
        assert(w * h <= 0xffff_ffff * 0xffff_ffff) by (nonlinear_arith)
            requires
                w <= 0xffff_ffff,
                h <= 0xffff_ffff,
        ;
        let pixels: u128 = w * h;
        match self {
            Self::RGBA | Self::BGRA => (pixels * 4) as usize,
            Self::YUV420P | Self::NV12 => (pixels * 3 / 2) as usize,
        }
    }
}

/// A decoded video frame.
#[derive(Debug, Clone)]
pub struct DecodedVideoFrame {
    pub data: Vec<u8>,
    pub width: u32,
    pub height: u32,
    pub pts_us: i64,
    pub is_keyframe: bool,
    pub format: PixelFormat,
}

/// One byte of the stand-in picture: opaque green for a keyframe, opaque
/// blue for every other frame.
pub open spec fn mock_pixel_byte(is_keyframe: bool, i: int) -> u8 {
    if i % 4 == 3 {
        255
    } else if is_keyframe && i % 4 == 1 {
        128
    } else if !is_keyframe && i % 4 == 2 {
        128
    } else {
        0
    }
}

/// The stand-in picture of `pixels` pixels.
pub open spec fn mock_picture(is_keyframe: bool, pixels: nat) -> Seq<u8> {
    Seq::new(pixels * 4, |i: int| mock_pixel_byte(is_keyframe, i))
}

/// Stand-in video decoder.
#[derive(Debug)]
pub struct VideoDecoder {
    codec: VideoCodec,
    hardware: HardwareAccel,
    initialized: bool,
}

impl VideoDecoder {
    pub closed spec fn spec_codec(&self) -> VideoCodec {
        self.codec
    }

    pub closed spec fn spec_hardware(&self) -> HardwareAccel {
        self.hardware
    }

    pub closed spec fn is_initialized(&self) -> bool {
        self.initialized
    }

    pub fn new(codec: VideoCodec, hardware: HardwareAccel) -> (r: Result<Self, CodecError>)
        ensures
            r is Ok,
            r->Ok_0.spec_codec() == codec,
            r->Ok_0.spec_hardware() == hardware,
            !r->Ok_0.is_initialized(),
    {
        Ok(Self { codec, hardware, initialized: false })
    }

    /// An H.264 decoder with the acceleration of `platform`.
    pub fn auto_detect(platform: Platform) -> (r: Result<Self, CodecError>)
        ensures
            r is Ok,
            r->Ok_0.spec_codec() == VideoCodec::H264,
            r->Ok_0.spec_hardware() == platform_accel(platform),
            !r->Ok_0.is_initialized(),
    {
        Self::new(VideoCodec::H264, HardwareAccel::detect(platform))
    }

    pub fn initialize(&mut self) -> (r: Result<(), CodecError>)
        ensures
            r is Ok,
            final(self).is_initialized(),
            final(self).spec_codec() == old(self).spec_codec(),
            final(self).spec_hardware() == old(self).spec_hardware(),
    {
        self.initialized = true;
        Ok(())
    }

    /// The stand-in picture for `frame`, in the size of the frame's quality.
    pub fn decode(&mut self, frame: &EncodedVideoFrame) -> (r: Result<DecodedVideoFrame, CodecError>)
        requires
            1920 * 1080 * 4 <= usize::MAX,
        ensures
            r is Ok,
            final(self).is_initialized(),
            final(self).spec_codec() == old(self).spec_codec(),
            final(self).spec_hardware() == old(self).spec_hardware(),
            ({
                let picture = r->Ok_0;
                let size = video_quality_dimensions(frame.quality);
                &&& picture.width == size.0
                &&& picture.height == size.1
                &&& picture.data@ == mock_picture(frame.is_keyframe, (size.0 * size.1) as nat)
                &&& picture.pts_us == frame.pts_us
                &&& picture.is_keyframe == frame.is_keyframe
                &&& picture.format == PixelFormat::RGBA
            }),
    {
        if !self.initialized {
            let _ = self.initialize();
        }
        let (width, height) = frame.quality.dimensions();
        let data = Self::mock_decode(frame.is_keyframe, width, height);
        Ok(
            DecodedVideoFrame {
                data,
                width,
                height,
                pts_us: frame.pts_us,
                is_keyframe: frame.is_keyframe,
                format: PixelFormat::RGBA,
            },
        )
    }

    /// The stand-in picture of `width` by `height` pixels.
    fn mock_decode(is_keyframe: bool, width: u32, height: u32) -> (data: Vec<u8>)
        requires
            width <= 1920,
            height <= 1080,
            1920 * 1080 * 4 <= usize::MAX,
        ensures
            data@ == mock_picture(is_keyframe, (width * height) as nat),
    {
        assert(width * height <= 1920 * 1080) by (nonlinear_arith)
            requires
                width <= 1920,
                height <= 1080,
        ;
        let pixels: usize = (width as usize) * (height as usize);
        let mut data: Vec<u8> = Vec::new();
        let mut p: usize = 0;
        while p < pixels
            invariant
                pixels <= 1920 * 1080,
                0 <= p <= pixels,
                data@ == mock_picture(is_keyframe, p as nat),
            decreases pixels - p,
        {
            data.push(0);
            if is_keyframe {
                data.push(128);
                data.push(0);
            } else {
                data.push(0);
                data.push(128);
            }
            data.push(255);
            proof {
                assert(data@ =~= mock_picture(is_keyframe, (p + 1) as nat));
            }
            p = p + 1;
        }
        data
    }

    /// The frames that the decoder still holds: none.
    pub fn flush(&mut self) -> (frames: Vec<DecodedVideoFrame>)
        ensures
            frames@.len() == 0,
            *final(self) == *old(self),
    {
        Vec::new()
    }
}

/// The qualities of `all`, in order, whose bitrate is at most that of
/// `source`.
pub open spec fn ladder_qualities(source: VideoQuality) -> Seq<VideoQuality> {
    seq![VideoQuality::P180, VideoQuality::P360, VideoQuality::P720, VideoQuality::P1080].filter(
        |q: VideoQuality| video_quality_bitrate_kbps(q) <= video_quality_bitrate_kbps(source),
    )
}

/// One step of the ladder.
#[derive(Debug)]
pub struct LadderStep {
    pub quality: VideoQuality,
    pub encoder: VideoEncoder,
}

/// One encoder for each quality from the source's down.
pub struct QualityLadder {
    encoders: Vec<LadderStep>,
    base_config: VideoEncoderConfig,
}

impl QualityLadder {
    /// The qualities of the ladder, from the lowest to the highest.
    pub closed spec fn qualities(&self) -> Seq<VideoQuality> {
        self.encoders@.map_values(|s: LadderStep| s.quality)
    }

    /// Every encoder is set up for its step and can take a frame.
    pub closed spec fn wf(&self) -> bool {
        forall|i: int|
            0 <= i < self.encoders@.len() ==> {
                let step = #[trigger] self.encoders@[i];
                &&& step.encoder.spec_config().keyframe_interval > 0
                &&& step.encoder.spec_config().quality == step.quality
                &&& step.encoder.spec_config().bitrate_kbps <= 5000
            }
    }

    /// Index of the next frame of the encoder at `step`.
    pub closed spec fn next_frame(&self, step: int) -> u64 {
        self.encoders@[step].encoder.next_frame()
    }

    /// The acceleration of the encoder at `step`.
    pub closed spec fn hardware(&self, step: int) -> HardwareAccel {
        self.encoders@[step].encoder.spec_config().hardware
    }

    /// A ladder with an encoder for every quality whose bitrate is at most
    /// that of `source_quality`, each with the acceleration of `platform`.
    pub fn new(source_quality: VideoQuality, codec: VideoCodec, platform: Platform) -> (r: Result<
        Self,
        CodecError,
    >)
        ensures
            r is Ok,
            r->Ok_0.wf(),
            r->Ok_0.qualities() == ladder_qualities(source_quality),
            forall|i: int| 0 <= i < r->Ok_0.qualities().len() ==> r->Ok_0.next_frame(i) == 0,
            forall|i: int|
                0 <= i < r->Ok_0.qualities().len() ==> r->Ok_0.hardware(i) == platform_accel(platform),
    {
        let base_config = VideoEncoderConfig::new(source_quality, platform).with_codec(codec);
        let all = VideoQuality::all();
        let ghost pred = |q: VideoQuality|
            video_quality_bitrate_kbps(q) <= video_quality_bitrate_kbps(source_quality);
        let mut ladder = Self { encoders: Vec::new(), base_config };
        let mut i: usize = 0;
        proof {
            assert(all@.take(0) =~= Seq::empty());
            Seq::<VideoQuality>::empty().lemma_all_neg_filter_empty(pred);
            assert(ladder.qualities() =~= Seq::empty());
        }
        while i < 4
            invariant
                0 <= i <= 4,
                all@ == seq![
                    VideoQuality::P180,
                    VideoQuality::P360,
                    VideoQuality::P720,
                    VideoQuality::P1080,
                ],
                pred == (|q: VideoQuality|
                    video_quality_bitrate_kbps(q) <= video_quality_bitrate_kbps(source_quality)),
                ladder.wf(),
                ladder.qualities() == all@.take(i as int).filter(pred),
                forall|k: int| 0 <= k < ladder.encoders@.len() ==> ladder.next_frame(k) == 0,
                forall|k: int|
                    0 <= k < ladder.encoders@.len() ==> ladder.hardware(k) == platform_accel(platform),
            decreases 4 - i,
        {
            let quality = all[i];
            proof {
                assert(all@.take(i + 1) =~= all@.take(i as int).push(quality));
                all@.take(i as int).lemma_filter_push(quality, pred);
            }
            if quality.bitrate_kbps() <= source_quality.bitrate_kbps() {
                let config = VideoEncoderConfig::new(quality, platform).with_codec(codec);
                let encoder = match VideoEncoder::new(config) {
                    Ok(encoder) => encoder,
                    Err(e) => {
                        return Err(e);
                    },
                };
                let ghost before = ladder.encoders@;
                let ghost earlier = ladder;
                let step = LadderStep { quality, encoder };
                let ghost last = step;
                ladder.encoders.push(step);
                proof {
                    assert(ladder.encoders@[before.len() as int] == last);
                    assert(ladder.qualities() =~= before.map_values(|s: LadderStep| s.quality).push(
                        quality,
                    ));
                    assert forall|k: int| 0 <= k < ladder.encoders@.len() implies ladder.next_frame(
                        k,
                    ) == 0 by {
                        if k < before.len() {
                            assert(ladder.encoders@[k] == before[k]);
                            assert(earlier.next_frame(k) == 0);
                        }
                    }
                    assert forall|k: int| 0 <= k < ladder.encoders@.len() implies ladder.hardware(k)
                        == platform_accel(platform) by {
                        if k < before.len() {
                            assert(ladder.encoders@[k] == before[k]);
                            assert(earlier.hardware(k) == platform_accel(platform));
                        }
                    }
                    assert(ladder.wf()) by {
                        assert forall|k: int| 0 <= k < ladder.encoders@.len() implies {
                            let s = #[trigger] ladder.encoders@[k];
                            &&& s.encoder.spec_config().keyframe_interval > 0
                            &&& s.encoder.spec_config().quality == s.quality
                            &&& s.encoder.spec_config().bitrate_kbps <= 5000
                        } by {
                            if k < before.len() {
                                assert(ladder.encoders@[k] == before[k]);
                            }
                        }
                    }
                }
            }
            i = i + 1;
        }
        proof {
            assert(all@.take(4) =~= all@);
        }
        Ok(ladder)
    }

    /// Where the step of quality `quality` stands, if the ladder has one.
    fn position(&self, quality: VideoQuality) -> (r: Option<usize>)
        ensures
            match r {
                Some(i) => i < self.qualities().len() && self.qualities()[i as int] == quality
                    && forall|k: int| 0 <= k < i ==> self.qualities()[k] != quality,
                None => !self.qualities().contains(quality),
            },
    {
        let mut i: usize = 0;
        while i < self.encoders.len()
            invariant
                0 <= i <= self.encoders@.len(),
                forall|k: int| 0 <= k < i ==> self.qualities()[k] != quality,
            decreases self.encoders@.len() - i,
        {
            if self.encoders[i].quality == quality {
                return Some(i);
            }
            i = i + 1;
        }
        None
    }

    /// Frames `raw_frame` at the one quality `quality`.
    pub fn encode_single(&mut self, raw_frame: &[u8], pts_us: i64, quality: VideoQuality) -> (r: Result<
        EncodedVideoFrame,
        CodecError,
    >)
        requires
            old(self).wf(),
            forall|i: int|
                0 <= i < old(self).qualities().len() ==> old(self).next_frame(i) < u64::MAX,
        ensures
            final(self).wf(),
            final(self).qualities() == old(self).qualities(),
            r is Ok <==> old(self).qualities().contains(quality),
            r matches Err(e) ==> e == CodecError::QualityNotAvailable,
            r matches Ok(frame) ==> frame.quality == quality && frame.pts_us == pts_us,
    {
        match self.position(quality) {
            None => Err(CodecError::QualityNotAvailable),
            Some(i) => {
                let ghost before = self.encoders@;
                assert(before[i as int].encoder.spec_config().bitrate_kbps <= 5000);
                assert(self.next_frame(i as int) < u64::MAX);
                let r = self.encoders[i].encoder.encode(raw_frame, pts_us);
                proof {
                    assert(self.qualities() =~= old(self).qualities());
                }
                r
            },
        }
    }

    /// Frames `raw_frame` at every quality of the ladder, from the lowest to
    /// the highest.
    pub fn encode_all(&mut self, raw_frame: &[u8], pts_us: i64) -> (r: Vec<EncodedVideoFrame>)
        requires
            old(self).wf(),
            forall|i: int|
                0 <= i < old(self).qualities().len() ==> old(self).next_frame(i) < u64::MAX,
        ensures
            final(self).wf(),
            final(self).qualities() == old(self).qualities(),
            r@.len() == old(self).qualities().len(),
            forall|i: int|
                0 <= i < r@.len() ==> {
                    &&& (#[trigger] r@[i]).quality == old(self).qualities()[i]
                    &&& r@[i].pts_us == pts_us
                    &&& r@[i].frame_index == old(self).next_frame(i)
                    &&& final(self).next_frame(i) == old(self).next_frame(i) + 1
                },
    {
        let mut r: Vec<EncodedVideoFrame> = Vec::new();
        let n = self.encoders.len();
        let mut i: usize = 0;
        while i < n
            invariant
                n == self.encoders@.len(),
                n == old(self).encoders@.len(),
                0 <= i <= n,
                self.wf(),
                self.qualities() == old(self).qualities(),
                r@.len() == i,
                forall|k: int| i <= k < n ==> self.next_frame(k) == old(self).next_frame(k),
                forall|k: int| 0 <= k < n ==> old(self).next_frame(k) < u64::MAX,
                forall|k: int| 0 <= k < i ==> self.next_frame(k) == old(self).next_frame(k) + 1,
                forall|k: int|
                    0 <= k < i ==> {
                        &&& (#[trigger] r@[k]).quality == old(self).qualities()[k]
                        &&& r@[k].pts_us == pts_us
                        &&& r@[k].frame_index == old(self).next_frame(k)
                    },
            decreases n - i,
        {
            let ghost before = self.encoders@;
            let ghost earlier = *self;
            assert(before[i as int].encoder.spec_config().bitrate_kbps <= 5000);
            assert(self.next_frame(i as int) < u64::MAX);
            let encoded = self.encoders[i].encoder.encode(raw_frame, pts_us);
            proof {
                assert(self.qualities() =~= earlier.qualities());
                assert forall|k: int| 0 <= k < n && k != i implies self.encoders@[k] == before[k] by {}
                assert forall|k: int| i + 1 <= k < n implies self.next_frame(k) == old(
                    self).next_frame(k) by {
                    assert(earlier.next_frame(k) == old(self).next_frame(k));
                }
                assert forall|k: int| 0 <= k < i implies self.next_frame(k) == old(self).next_frame(
                    k,
                ) + 1 by {
                    assert(earlier.next_frame(k) == old(self).next_frame(k) + 1);
                }
            }
            match encoded {
                Ok(frame) => {
                    r.push(frame);
                },
                Err(_) => {
                    assert(false);
                },
            }
            i = i + 1;
        }
        r
    }

    /// Starts the frame count of every encoder anew.
    pub fn reset(&mut self)
        requires
            old(self).wf(),
        ensures
            final(self).wf(),
            final(self).qualities() == old(self).qualities(),
            forall|i: int| 0 <= i < final(self).qualities().len() ==> final(self).next_frame(i) == 0,
    {
        let n = self.encoders.len();
        let mut i: usize = 0;
        while i < n
            invariant
                n == self.encoders@.len(),
                0 <= i <= n,
                self.wf(),
                self.qualities() == old(self).qualities(),
                forall|k: int| 0 <= k < i ==> self.next_frame(k) == 0,
            decreases n - i,
        {
            let ghost before = self.encoders@;
            let ghost earlier = *self;
            self.encoders[i].encoder.reset();
            proof {
                assert(self.qualities() =~= earlier.qualities());
                assert forall|k: int| 0 <= k < n && k != i implies self.encoders@[k] == before[k] by {}
                assert forall|k: int| 0 <= k < i implies self.next_frame(k) == 0 by {
                    assert(earlier.next_frame(k) == 0);
                }
            }
            i = i + 1;
        }
    }

    /// The qualities of the ladder, from the lowest to the highest.
    pub fn available_qualities(&self) -> (r: Vec<VideoQuality>)
        ensures
            r@ == self.qualities(),
    {
        let mut r: Vec<VideoQuality> = Vec::new();
        let mut i: usize = 0;
        while i < self.encoders.len()
            invariant
                0 <= i <= self.encoders@.len(),
                r@ == self.qualities().take(i as int),
            decreases self.encoders@.len() - i,
        {
            r.push(self.encoders[i].quality);
            proof {
                assert(r@ =~= self.qualities().take(i + 1));
            }
            i = i + 1;
        }
        proof {
            assert(self.qualities().take(self.encoders@.len() as int) =~= self.qualities());
        }
        r
    }
}

/// The 16 bits of a sample as an unsigned number.
pub open spec fn sample_bits(s: i16) -> int {
    if s >= 0 {
        s as int
    } else {
        s + 65536
    }
}

/// The sample whose 16 bits are `bits`.
pub open spec fn sample_of_bits(bits: int) -> i16 {
    if bits < 32768 {
        bits as i16
    } else {
        (bits - 65536) as i16
    }
}

/// The samples as bytes: each sample's low byte, then its high byte.
pub open spec fn pcm_bytes(samples: Seq<i16>) -> Seq<u8> {
    Seq::new(
        samples.len() * 2,
        |i: int|
            if i % 2 == 0 {
                (sample_bits(samples[i / 2]) % 256) as u8
            } else {
                (sample_bits(samples[i / 2]) / 256) as u8
            },
    )
}

/// The samples that bytes stand for, two bytes each; a last odd byte is
/// left out.
pub open spec fn pcm_samples(data: Seq<u8>) -> Seq<i16> {
    Seq::new(data.len() / 2, |i: int| sample_of_bits(data[2 * i] + 256 * data[2 * i + 1]))
}

/// Bytes read back give the samples that were written.
pub proof fn lemma_pcm_round_trip(samples: Seq<i16>)
    ensures
        pcm_samples(pcm_bytes(samples)) == samples,
{
    let data = pcm_bytes(samples);
    assert forall|i: int| 0 <= i < samples.len() implies pcm_samples(data)[i] == samples[i] by {
        let b = sample_bits(samples[i]);
        assert(data[2 * i] == (b % 256) as u8);
        assert(data[2 * i + 1] == (b / 256) as u8);
    }
    assert(pcm_samples(data) =~= samples);
}

/// Stand-in audio encoder: raw samples as bytes.
#[derive(Debug)]
pub struct AudioEncoder {
    config: AudioEncoderConfig,
    sample_index: u64,
    initialized: bool,
}

impl AudioEncoder {
    pub closed spec fn spec_config(&self) -> AudioEncoderConfig {
        self.config
    }

    /// Samples of one channel taken so far.
    pub closed spec fn samples_taken(&self) -> u64 {
        self.sample_index
    }

    pub fn new(config: AudioEncoderConfig) -> (r: Result<Self, CodecError>)
        ensures
            r is Ok,
            r->Ok_0.spec_config() == config,
            r->Ok_0.samples_taken() == 0,
    {
        Ok(Self { config, sample_index: 0, initialized: false })
    }

    /// Frames interleaved 16-bit samples as bytes, low byte first.
    pub fn encode(&mut self, pcm_data: &[i16], pts_us: i64) -> (r: Result<EncodedAudioFrame, CodecError>)
        requires
            old(self).spec_config().channels > 0,
            old(self).spec_config().sample_rate > 0,
            pcm_data@.len() <= u32::MAX,
            old(self).samples_taken() + pcm_data@.len() <= u64::MAX,
        ensures
            r is Ok,
            final(self).spec_config() == old(self).spec_config(),
            ({
                let frame = r->Ok_0;
                let config = old(self).spec_config();
                &&& frame.samples == (pcm_data@.len() as int) / (config.channels as int)
                &&& final(self).samples_taken() == old(self).samples_taken() + frame.samples
                &&& frame.data@ == pcm_bytes(pcm_data@)
                &&& frame.pts_us == pts_us
                &&& frame.duration_us == (frame.samples * 1_000_000) / (config.sample_rate as int)
                &&& frame.codec == config.codec
            }),
    {
        self.initialized = true;
        let samples: u32 = (pcm_data.len() as u32) / self.config.channels;
        let mut data: Vec<u8> = Vec::new();
        let mut i: usize = 0;
        while i < pcm_data.len()
            invariant
                0 <= i <= pcm_data@.len(),
                data@ == pcm_bytes(pcm_data@.take(i as int)),
            decreases pcm_data@.len() - i,
        {
            let s = pcm_data[i];
            let bits: u32 = if s >= 0 {
                s as u32
            } else {
                (s as i32 + 65536) as u32
            };
            data.push((bits % 256) as u8);
            data.push((bits / 256) as u8);
            proof {
                assert(data@ =~= pcm_bytes(pcm_data@.take(i + 1)));
            }
            i = i + 1;
        }
        proof {
            assert(pcm_data@.take(pcm_data@.len() as int) =~= pcm_data@);
        }
        let frame = EncodedAudioFrame {
            data,
            pts_us,
            duration_us: ((samples as i64) * 1_000_000) / (self.config.sample_rate as i64),
            samples,
            codec: self.config.codec,
        };
        self.sample_index = self.sample_index + samples as u64;
        Ok(frame)
    }

    pub fn config(&self) -> (c: &AudioEncoderConfig)
        ensures
            *c == self.spec_config(),
    {
        &self.config
    }
}

/// A decoded audio frame.
#[derive(Debug, Clone)]
pub struct DecodedAudioFrame {
    /// Interleaved 16-bit samples.
    pub samples: Vec<i16>,
    pub pts_us: i64,
    pub sample_rate: u32,
    pub channels: u32,
}

/// Stand-in audio decoder: bytes as raw samples.
#[derive(Debug)]
pub struct AudioDecoder {
    codec: AudioCodec,
    initialized: bool,
}

impl AudioDecoder {
    pub closed spec fn spec_codec(&self) -> AudioCodec {
        self.codec
    }

    pub fn new(codec: AudioCodec) -> (r: Result<Self, CodecError>)
        ensures
            r is Ok,
            r->Ok_0.spec_codec() == codec,
    {
        Ok(Self { codec, initialized: false })
    }

    /// Reads the bytes of `frame` as interleaved 16-bit samples, low byte
    /// first, at 48 kHz stereo.
    pub fn decode(&mut self, frame: &EncodedAudioFrame) -> (r: Result<DecodedAudioFrame, CodecError>)
        ensures
            r is Ok,
            final(self).spec_codec() == old(self).spec_codec(),
            r->Ok_0.samples@ == pcm_samples(frame.data@),
            r->Ok_0.pts_us == frame.pts_us,
            r->Ok_0.sample_rate == 48000,
            r->Ok_0.channels == 2,
    {
        self.initialized = true;
        let count = frame.data.len() / 2;
        let mut samples: Vec<i16> = Vec::new();
        let mut i: usize = 0;
        while i < count
            invariant
                count == frame.data@.len() / 2,
                frame.data@.len() <= usize::MAX,
                0 <= i <= count,
                samples@ == pcm_samples(frame.data@).take(i as int),
            decreases count - i,
        {
            let bits: u32 = frame.data[2 * i] as u32 + 256 * (frame.data[2 * i + 1] as u32);
            let s: i16 = if bits < 32768 {
                bits as i16
            } else {
                (bits as i32 - 65536) as i16
            };
            samples.push(s);
            proof {
                assert(samples@ =~= pcm_samples(frame.data@).take(i + 1));
            }
            i = i + 1;
        }
        proof {
            assert(pcm_samples(frame.data@).take(count as int) =~= pcm_samples(frame.data@));
        }
        Ok(DecodedAudioFrame { samples, pts_us: frame.pts_us, sample_rate: 48000, channels: 2 })
    }
}

/// Whether real codecs are linked in: they are not.
pub fn is_ffmpeg_available() -> (b: bool)
    ensures
        !b,
{
    false
}

/// Version of the linked codecs: none.
pub fn ffmpeg_version() -> (v: Option<String>)
    ensures
        v is None,
{
    None
}

/// The accelerations at hand on `platform`.
pub fn available_hardware_accels(platform: Platform) -> (v: Vec<HardwareAccel>)
    ensures
        v@ == platform_accels(platform),
{
    let mut v: Vec<HardwareAccel> = Vec::new();
    v.push(HardwareAccel::Software);
    match HardwareAccel::detect(platform) {
        HardwareAccel::Software => {},
        own => {
            v.push(own);
        },
    }
    proof {
        assert(v@ =~= platform_accels(platform));
    }
    v
}

pub fn available_video_codecs() -> (v: Vec<VideoCodec>)
    ensures
        v@ == seq![VideoCodec::H264, VideoCodec::H265, VideoCodec::VP8, VideoCodec::VP9, VideoCodec::AV1],
{
    let mut v: Vec<VideoCodec> = Vec::new();
    v.push(VideoCodec::H264);
    v.push(VideoCodec::H265);
    v.push(VideoCodec::VP8);
    v.push(VideoCodec::VP9);
    v.push(VideoCodec::AV1);
    proof {
        assert(v@ =~= seq![
            VideoCodec::H264,
            VideoCodec::H265,
            VideoCodec::VP8,
            VideoCodec::VP9,
            VideoCodec::AV1,
        ]);
    }
    v
}

pub fn available_audio_codecs() -> (v: Vec<AudioCodec>)
    ensures
        v@ == seq![AudioCodec::AAC, AudioCodec::Opus, AudioCodec::MP3],
{
    let mut v: Vec<AudioCodec> = Vec::new();
    v.push(AudioCodec::AAC);
    v.push(AudioCodec::Opus);
    v.push(AudioCodec::MP3);
    proof {
        assert(v@ =~= seq![AudioCodec::AAC, AudioCodec::Opus, AudioCodec::MP3]);
    }
    v
}

} // verus!
