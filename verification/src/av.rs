//! Formats, frames, presets and codecs of audio and video.

use vstd::prelude::*;
use crate::text::has_infix;
use crate::text::has_prefix;

verus! {

/// Layout of the pixels of a video frame.
#[derive(Debug, Clone, Copy, PartialEq, Eq, Structural)]
pub enum PixelFormat {
    Rgba,
    Bgra,
    Rgb,
    Yuv420p,
    Nv12,
    Nv21,
}

impl Default for PixelFormat {
    fn default() -> (f: Self)
        ensures
            f == PixelFormat::Rgba,
    {
        PixelFormat::Rgba
    }
}

pub open spec fn pixel_format_is_planar(f: PixelFormat) -> bool {
    f == PixelFormat::Yuv420p || f == PixelFormat::Nv12 || f == PixelFormat::Nv21
}

impl PixelFormat {
    /// Bytes per pixel of a packed format; 0 for a planar one.
    pub fn bytes_per_pixel(&self) -> (n: usize)
        ensures
            n == match *self {
                PixelFormat::Rgba | PixelFormat::Bgra => 4usize,
                PixelFormat::Rgb => 3usize,
                _ => 0usize,
            },
    {
        match self {
            Self::Rgba | Self::Bgra => 4,
            Self::Rgb => 3,
            Self::Yuv420p | Self::Nv12 | Self::Nv21 => 0,
        }
    }

    /// Whether the format keeps its components in separate planes.
    pub fn is_planar(&self) -> (b: bool)
        ensures
            b == pixel_format_is_planar(*self),
    {
        match self {
            Self::Yuv420p | Self::Nv12 | Self::Nv21 => true,
            _ => false,
        }
    }
}

/// Size and pixel layout of video frames.
#[derive(Debug, Clone, Copy, PartialEq, Eq, Structural)]
pub struct VideoFormat {
    pub pixel_format: PixelFormat,
    pub width: u32,
    pub height: u32,
}

/// Bytes that a frame of `width` by `height` pixels takes in `format`: four
/// per pixel for RGBA and BGRA, three for RGB, and three for every two
/// pixels, rounded down, for the planar formats.
pub open spec fn frame_bytes(format: PixelFormat, width: u32, height: u32) -> int {
    match format {
        PixelFormat::Rgba | PixelFormat::Bgra => width * height * 4,
        PixelFormat::Rgb => width * height * 3,
        _ => (width * height * 3) / 2,
    }
}

impl VideoFormat {
    pub fn new(width: u32, height: u32, pixel_format: PixelFormat) -> (f: Self)
        ensures
            f == (VideoFormat { pixel_format, width, height }),
    {
        Self { pixel_format, width, height }
    }

    pub fn rgba(width: u32, height: u32) -> (f: Self)
        ensures
            f == (VideoFormat { pixel_format: PixelFormat::Rgba, width, height }),
    {
        Self::new(width, height, PixelFormat::Rgba)
    }

    /// Bytes that one frame of this format takes.
    pub fn buffer_size(&self) -> (n: usize)
        requires
            self.width * self.height * 4 <= usize::MAX,
        ensures
            n == frame_bytes(self.pixel_format, self.width, self.height),
    {
        let w = self.width as u128;
        let h = self.height as u128;
        assert(w * h <= 0xffff_ffff * 0xffff_ffff) by (nonlinear_arith)
            requires
                w <= 0xffff_ffff,
                h <= 0xffff_ffff,
        ;
        let pixels: u128 = w * h;
        match self.pixel_format {
            PixelFormat::Rgba | PixelFormat::Bgra => (pixels * 4) as usize,
            PixelFormat::Rgb => (pixels * 3) as usize,
            PixelFormat::Yuv420p | PixelFormat::Nv12 | PixelFormat::Nv21 => (pixels * 3 / 2) as usize,
        }
    }
}

/// The presentation timestamp that stands for `timestamp_us` microseconds:
/// the same number, wrapped into the signed range.
pub open spec fn pts_of(timestamp_us: u64) -> i64 {
    if timestamp_us <= i64::MAX {
        timestamp_us as i64
    } else {
        (timestamp_us - 0x1_0000_0000_0000_0000) as i64
    }
}

/// A raw video frame.
#[derive(Debug, Clone)]
pub struct VideoFrame {
    pub format: VideoFormat,
    pub data: Vec<u8>,
    /// Microseconds since the start of the stream.
    pub timestamp_us: u64,
    /// Presentation timestamp in microseconds.
    pub pts_us: i64,
}

impl VideoFrame {
    pub fn new(format: VideoFormat, data: Vec<u8>, timestamp_us: u64) -> (f: Self)
        ensures
            f.format == format,
            f.data == data,
            f.timestamp_us == timestamp_us,
            f.pts_us == pts_of(timestamp_us),
    {
        let pts_us = if timestamp_us <= i64::MAX as u64 {
            timestamp_us as i64
        } else {
            let low = timestamp_us - 0x8000_0000_0000_0000;
            (low as i64) - 0x4000_0000_0000_0000 - 0x4000_0000_0000_0000
        };
        Self { pts_us, format, data, timestamp_us }
    }

    pub fn width(&self) -> (w: u32)
        ensures
            w == self.format.width,
    {
        self.format.width
    }

    pub fn height(&self) -> (h: u32)
        ensures
            h == self.format.height,
    {
        self.format.height
    }
}

/// A decoded video frame ready for display.
#[derive(Debug, Clone)]
pub struct DecodedFrame {
    pub data: Vec<u8>,
    pub width: u32,
    pub height: u32,
    pub pixel_format: PixelFormat,
    /// Microseconds since the start of the stream.
    pub timestamp_us: u64,
}

/// The bytes of a BGRA buffer as RGBA: in each whole pixel the first and
/// the third byte change places; bytes behind the last whole pixel stay.
pub open spec fn bgra_to_rgba(data: Seq<u8>) -> Seq<u8> {
    Seq::new(
        data.len(),
        |i: int|
            if i >= data.len() - data.len() % 4 {
                data[i]
            } else if i % 4 == 0 {
                data[i + 2]
            } else if i % 4 == 2 {
                data[i - 2]
            } else {
                data[i]
            },
    )
}

impl DecodedFrame {
    /// The pixels as RGBA: a BGRA frame with red and blue exchanged, every
    /// other frame as it is.
    pub fn to_rgba(&self) -> (r: Vec<u8>)
        ensures
            self.pixel_format == PixelFormat::Bgra ==> r@ == bgra_to_rgba(self.data@),
            self.pixel_format != PixelFormat::Bgra ==> r@ == self.data@,
    {
        let n = self.data.len();
        let whole = n - n % 4;
        let swap = self.pixel_format == PixelFormat::Bgra;
        let mut r: Vec<u8> = Vec::new();
        let mut i: usize = 0;
        while i < n
            invariant
                n == self.data@.len(),
                whole == n - n % 4,
                swap == (self.pixel_format == PixelFormat::Bgra),
                0 <= i <= n,
                r@.len() == i,
                swap ==> forall|k: int| 0 <= k < i ==> r@[k] == bgra_to_rgba(self.data@)[k],
                !swap ==> forall|k: int| 0 <= k < i ==> r@[k] == self.data@[k],
            decreases n - i,
        {
            if swap && i < whole && i % 4 == 0 {
                r.push(self.data[i + 2]);
            } else if swap && i < whole && i % 4 == 2 {
                r.push(self.data[i - 2]);
            } else {
                r.push(self.data[i]);
            }
            i = i + 1;
        }
        proof {
            if swap {
                assert(r@ =~= bgra_to_rgba(self.data@));
            } else {
                assert(r@ =~= self.data@);
            }
        }
        r
    }
}

/// Sample rate and channel count of audio.
#[derive(Debug, Clone, Copy, PartialEq, Eq, Structural)]
pub struct AudioFormat {
    pub sample_rate: u32,
    pub channel_count: u32,
}

impl AudioFormat {
    pub fn new(sample_rate: u32, channel_count: u32) -> (f: Self)
        ensures
            f == (AudioFormat { sample_rate, channel_count }),
    {
        Self { sample_rate, channel_count }
    }

    /// 48 kHz stereo.
    pub fn stereo_48khz() -> (f: Self)
        ensures
            f == (AudioFormat { sample_rate: 48000, channel_count: 2 }),
    {
        Self::new(48000, 2)
    }

    /// 16 kHz mono.
    pub fn mono_16khz() -> (f: Self)
        ensures
            f == (AudioFormat { sample_rate: 16000, channel_count: 1 }),
    {
        Self::new(16000, 1)
    }

    /// Samples of one channel in a frame of 20 ms.
    pub fn samples_per_20ms(&self) -> (n: u32)
        ensures
            n == self.sample_rate / 50,
    {
        self.sample_rate / 50
    }
}

/// An encoded media packet.
#[derive(Debug, Clone)]
pub struct EncodedPacket {
    pub data: Vec<u8>,
    /// Microseconds since the start of the stream.
    pub timestamp_us: u64,
    pub is_keyframe: bool,
    pub track_name: String,
}

impl EncodedPacket {
    pub fn video(data: Vec<u8>, timestamp_us: u64, is_keyframe: bool, track: &str) -> (p: Self)
        ensures
            p.data == data,
            p.timestamp_us == timestamp_us,
            p.is_keyframe == is_keyframe,
            p.track_name@ == track@,
    {
        Self { data, timestamp_us, is_keyframe, track_name: track.to_owned() }
    }

    /// An audio packet: every audio packet counts as a keyframe.
    pub fn audio(data: Vec<u8>, timestamp_us: u64, track: &str) -> (p: Self)
        ensures
            p.data == data,
            p.timestamp_us == timestamp_us,
            p.is_keyframe,
            p.track_name@ == track@,
    {
        Self { data, timestamp_us, is_keyframe: true, track_name: track.to_owned() }
    }
}

/// Video quality preset.
#[derive(Debug, Clone, Copy, PartialEq, Eq, Hash, Structural)]
pub enum VideoPreset {
    P180,
    P360,
    P720,
    P1080,
}

pub open spec fn video_preset_dimensions(p: VideoPreset) -> (u32, u32) {
    match p {
        VideoPreset::P180 => (320, 180),
        VideoPreset::P360 => (640, 360),
        VideoPreset::P720 => (1280, 720),
        VideoPreset::P1080 => (1920, 1080),
    }
}

pub open spec fn video_preset_bitrate_kbps(p: VideoPreset) -> u32 {
    match p {
        VideoPreset::P180 => 300,
        VideoPreset::P360 => 800,
        VideoPreset::P720 => 2500,
        VideoPreset::P1080 => 5000,
    }
}

pub open spec fn video_preset_name(p: VideoPreset) -> Seq<char> {
    match p {
        VideoPreset::P180 => "180p"@,
        VideoPreset::P360 => "360p"@,
        VideoPreset::P720 => "720p"@,
        VideoPreset::P1080 => "1080p"@,
    }
}

/// The preset whose number a track name holds: the first of 180, 360, 720
/// and 1080 that it holds.
pub open spec fn video_preset_named(name: Seq<char>) -> Option<VideoPreset> {
    if has_infix(name, "180"@) {
        Some(VideoPreset::P180)
    } else if has_infix(name, "360"@) {
        Some(VideoPreset::P360)
    } else if has_infix(name, "720"@) {
        Some(VideoPreset::P720)
    } else if has_infix(name, "1080"@) {
        Some(VideoPreset::P1080)
    } else {
        None
    }
}

impl VideoPreset {
    /// Every preset, from the lowest to the highest.
    pub fn all() -> (a: [VideoPreset; 4])
        ensures
            a@ == seq![VideoPreset::P180, VideoPreset::P360, VideoPreset::P720, VideoPreset::P1080],
    {
        let a = [Self::P180, Self::P360, Self::P720, Self::P1080];
        proof {
            assert(a@ =~= seq![
                VideoPreset::P180,
                VideoPreset::P360,
                VideoPreset::P720,
                VideoPreset::P1080,
            ]);
        }
        a
    }

    pub fn dimensions(&self) -> (d: (u32, u32))
        ensures
            d == video_preset_dimensions(*self),
    {
        match self {
            Self::P180 => (320, 180),
            Self::P360 => (640, 360),
            Self::P720 => (1280, 720),
            Self::P1080 => (1920, 1080),
        }
    }

    pub fn width(&self) -> (w: u32)
        ensures
            w == video_preset_dimensions(*self).0,
    {
        self.dimensions().0
    }

    pub fn height(&self) -> (h: u32)
        ensures
            h == video_preset_dimensions(*self).1,
    {
        self.dimensions().1
    }

    pub fn fps(&self) -> (f: u32)
        ensures
            f == 30,
    {
        30
    }

    pub fn bitrate_kbps(&self) -> (b: u32)
        ensures
            b == video_preset_bitrate_kbps(*self),
    {
        match self {
            Self::P180 => 300,
            Self::P360 => 800,
            Self::P720 => 2500,
            Self::P1080 => 5000,
        }
    }

    pub fn name(&self) -> (n: &'static str)
        ensures
            n@ == video_preset_name(*self),
    {
        match self {
            Self::P180 => "180p",
            Self::P360 => "360p",
            Self::P720 => "720p",
            Self::P1080 => "1080p",
        }
    }

    /// Name of the preset's track: `video-` and the preset's name.
    pub fn track_name(&self) -> (n: String)
        ensures
            n@ == "video-"@ + video_preset_name(*self),
    {
        let mut n = "video-".to_owned();
        n.append(self.name());
        n
    }

    /// The preset whose number `name` holds.
    pub fn from_name(name: &str) -> (p: Option<Self>)
        ensures
            p == video_preset_named(name@),
    {
        if crate::text::contains(name, "180") {
            Some(Self::P180)
        } else if crate::text::contains(name, "360") {
            Some(Self::P360)
        } else if crate::text::contains(name, "720") {
            Some(Self::P720)
        } else if crate::text::contains(name, "1080") {
            Some(Self::P1080)
        } else {
            None
        }
    }

    /// The preset's name.
    pub fn to_text(&self) -> (s: String)
        ensures
            s@ == video_preset_name(*self),
    {
        self.name().to_owned()
    }
}

/// Audio quality preset.
#[derive(Debug, Clone, Copy, PartialEq, Eq, Hash, Structural)]
pub enum AudioPreset {
    /// 48 kHz stereo, 96 kbps.
    Hq,
    /// 48 kHz mono, 32 kbps.
    Lq,
}

pub open spec fn audio_preset_name(p: AudioPreset) -> Seq<char> {
    match p {
        AudioPreset::Hq => "hq"@,
        AudioPreset::Lq => "lq"@,
    }
}

pub open spec fn audio_preset_channels(p: AudioPreset) -> u32 {
    match p {
        AudioPreset::Hq => 2,
        AudioPreset::Lq => 1,
    }
}

pub open spec fn audio_preset_bitrate_kbps(p: AudioPreset) -> u32 {
    match p {
        AudioPreset::Hq => 96,
        AudioPreset::Lq => 32,
    }
}

impl AudioPreset {
    pub fn sample_rate(&self) -> (r: u32)
        ensures
            r == 48000,
    {
        48000
    }

    pub fn channel_count(&self) -> (c: u32)
        ensures
            c == audio_preset_channels(*self),
    {
        match self {
            Self::Hq => 2,
            Self::Lq => 1,
        }
    }

    pub fn bitrate_kbps(&self) -> (b: u32)
        ensures
            b == audio_preset_bitrate_kbps(*self),
    {
        match self {
            Self::Hq => 96,
            Self::Lq => 32,
        }
    }

    pub fn name(&self) -> (n: &'static str)
        ensures
            n@ == audio_preset_name(*self),
    {
        match self {
            Self::Hq => "hq",
            Self::Lq => "lq",
        }
    }

    /// Name of the preset's track: `audio-` and the preset's name.
    pub fn track_name(&self) -> (n: String)
        ensures
            n@ == "audio-"@ + audio_preset_name(*self),
    {
        let mut n = "audio-".to_owned();
        n.append(self.name());
        n
    }

    pub fn audio_format(&self) -> (f: AudioFormat)
        ensures
            f == (AudioFormat { sample_rate: 48000, channel_count: audio_preset_channels(*self) }),
    {
        AudioFormat::new(self.sample_rate(), self.channel_count())
    }

    /// The preset's name.
    pub fn to_text(&self) -> (s: String)
        ensures
            s@ == audio_preset_name(*self),
    {
        self.name().to_owned()
    }
}

/// What quality a viewer prefers.
#[derive(Debug, Clone, Copy, PartialEq, Eq, Structural)]
pub enum Quality {
    Highest,
    High,
    Mid,
    Low,
}

impl Default for Quality {
    fn default() -> (q: Self)
        ensures
            q == Quality::Highest,
    {
        Quality::Highest
    }
}

/// The order in which a preference tries the video presets.
pub open spec fn video_preference(q: Quality) -> Seq<VideoPreset> {
    match q {
        Quality::Highest => seq![
            VideoPreset::P1080,
            VideoPreset::P720,
            VideoPreset::P360,
            VideoPreset::P180,
        ],
        Quality::High => seq![
            VideoPreset::P720,
            VideoPreset::P360,
            VideoPreset::P180,
            VideoPreset::P1080,
        ],
        Quality::Mid => seq![
            VideoPreset::P360,
            VideoPreset::P180,
            VideoPreset::P720,
            VideoPreset::P1080,
        ],
        Quality::Low => seq![
            VideoPreset::P180,
            VideoPreset::P360,
            VideoPreset::P720,
            VideoPreset::P1080,
        ],
    }
}

/// The order in which a preference tries the audio presets.
pub open spec fn audio_preference(q: Quality) -> Seq<AudioPreset> {
    match q {
        Quality::Highest | Quality::High => seq![AudioPreset::Hq, AudioPreset::Lq],
        Quality::Mid | Quality::Low => seq![AudioPreset::Lq, AudioPreset::Hq],
    }
}

/// The first video preset of `order` that is available.
pub open spec fn first_available_video(order: Seq<VideoPreset>, available: Seq<VideoPreset>) -> Option<
    VideoPreset,
>
    decreases order.len(),
{
    if order.len() == 0 {
        None
    } else if available.contains(order[0]) {
        Some(order[0])
    } else {
        first_available_video(order.skip(1), available)
    }
}

/// The first audio preset of `order` that is available.
pub open spec fn first_available_audio(order: Seq<AudioPreset>, available: Seq<AudioPreset>) -> Option<
    AudioPreset,
>
    decreases order.len(),
{
    if order.len() == 0 {
        None
    } else if available.contains(order[0]) {
        Some(order[0])
    } else {
        first_available_audio(order.skip(1), available)
    }
}

fn has_video_preset(available: &[VideoPreset], p: VideoPreset) -> (b: bool)
    ensures
        b == available@.contains(p),
{
    let mut i: usize = 0;
    while i < available.len()
        invariant
            0 <= i <= available@.len(),
            forall|k: int| 0 <= k < i ==> available@[k] != p,
        decreases available@.len() - i,
    {
        if available[i] == p {
            return true;
        }
        i = i + 1;
    }
    false
}

fn has_audio_preset(available: &[AudioPreset], p: AudioPreset) -> (b: bool)
    ensures
        b == available@.contains(p),
{
    let mut i: usize = 0;
    while i < available.len()
        invariant
            0 <= i <= available@.len(),
            forall|k: int| 0 <= k < i ==> available@[k] != p,
        decreases available@.len() - i,
    {
        if available[i] == p {
            return true;
        }
        i = i + 1;
    }
    false
}

impl Quality {
    /// The available video preset that this preference tries first, if any
    /// is available.
    pub fn select_video(&self, available: &[VideoPreset]) -> (r: Option<VideoPreset>)
        ensures
            r == first_available_video(video_preference(*self), available@),
            r is Some <==> available@.len() > 0,
    {
        let order = match self {
            Quality::Highest => [
                VideoPreset::P1080,
                VideoPreset::P720,
                VideoPreset::P360,
                VideoPreset::P180,
            ],
            Quality::High => [
                VideoPreset::P720,
                VideoPreset::P360,
                VideoPreset::P180,
                VideoPreset::P1080,
            ],
            Quality::Mid => [
                VideoPreset::P360,
                VideoPreset::P180,
                VideoPreset::P720,
                VideoPreset::P1080,
            ],
            Quality::Low => [
                VideoPreset::P180,
                VideoPreset::P360,
                VideoPreset::P720,
                VideoPreset::P1080,
            ],
        };
        proof {
            assert(order@ =~= video_preference(*self));
        }
        let ghost all = order@;
        let mut i: usize = 0;
        proof {
            assert(all.skip(0) =~= all);
        }
        while i < 4
            invariant
                all == order@,
                all == video_preference(*self),
                all.len() == 4,
                0 <= i <= 4,
                first_available_video(all, available@) == first_available_video(
                    all.skip(i as int),
                    available@,
                ),
                forall|k: int| 0 <= k < i ==> !available@.contains(all[k]),
            decreases 4 - i,
        {
            let preset = order[i];
            proof {
                assert(all.skip(i as int)[0] == all[i as int]);
                assert(all.skip(i as int).skip(1) =~= all.skip(i + 1));
            }
            if has_video_preset(available, preset) {
                return Some(preset);
            }
            i = i + 1;
        }
        proof {
            assert(all.skip(4).len() == 0);
            if available@.len() > 0 {
                let p = available@[0];
                assert(available@.contains(p));
                assert(p == all[0] || p == all[1] || p == all[2] || p == all[3]);
            }
        }
        None
    }

    /// The available audio preset that this preference tries first, if any
    /// is available.
    pub fn select_audio(&self, available: &[AudioPreset]) -> (r: Option<AudioPreset>)
        ensures
            r == first_available_audio(audio_preference(*self), available@),
            r is Some <==> available@.len() > 0,
    {
        let order = match self {
            Quality::Highest | Quality::High => [AudioPreset::Hq, AudioPreset::Lq],
            Quality::Mid | Quality::Low => [AudioPreset::Lq, AudioPreset::Hq],
        };
        proof {
            assert(order@ =~= audio_preference(*self));
        }
        let ghost all = order@;
        let mut i: usize = 0;
        proof {
            assert(all.skip(0) =~= all);
        }
        while i < 2
            invariant
                all == order@,
                all == audio_preference(*self),
                all.len() == 2,
                0 <= i <= 2,
                first_available_audio(all, available@) == first_available_audio(
                    all.skip(i as int),
                    available@,
                ),
                forall|k: int| 0 <= k < i ==> !available@.contains(all[k]),
            decreases 2 - i,
        {
            let preset = order[i];
            proof {
                assert(all.skip(i as int)[0] == all[i as int]);
                assert(all.skip(i as int).skip(1) =~= all.skip(i + 1));
            }
            if has_audio_preset(available, preset) {
                return Some(preset);
            }
            i = i + 1;
        }
        proof {
            assert(all.skip(2).len() == 0);
            if available@.len() > 0 {
                let p = available@[0];
                assert(available@.contains(p));
                assert(p == all[0] || p == all[1]);
            }
        }
        None
    }
}

/// Whether a track carries video or audio.
#[derive(Debug, Clone, Copy, PartialEq, Eq, Structural)]
pub enum TrackKind {
    Video,
    Audio,
}

impl TrackKind {
    /// The kind that a track name tells by its beginning.
    pub fn from_name(name: &str) -> (k: Option<Self>)
        ensures
            k == if has_prefix(name@, "audio-"@) {
                Some(TrackKind::Audio)
            } else if has_prefix(name@, "video-"@) {
                Some(TrackKind::Video)
            } else {
                None
            },
    {
        if crate::text::starts_with(name, "audio-") {
            Some(Self::Audio)
        } else if crate::text::starts_with(name, "video-") {
            Some(Self::Video)
        } else {
            None
        }
    }
}

#[derive(Debug, Clone, Copy, PartialEq, Eq, Structural)]
pub enum VideoCodec {
    H264,
    H265,
    Vp8,
    Vp9,
    Av1,
}

pub open spec fn video_codec_name(c: VideoCodec) -> Seq<char> {
    match c {
        VideoCodec::H264 => "h264"@,
        VideoCodec::H265 => "h265"@,
        VideoCodec::Vp8 => "vp8"@,
        VideoCodec::Vp9 => "vp9"@,
        VideoCodec::Av1 => "av1"@,
    }
}

pub open spec fn video_codec_mime_type(c: VideoCodec) -> Seq<char> {
    match c {
        VideoCodec::H264 => "video/h264"@,
        VideoCodec::H265 => "video/h265"@,
        VideoCodec::Vp8 => "video/vp8"@,
        VideoCodec::Vp9 => "video/vp9"@,
        VideoCodec::Av1 => "video/av1"@,
    }
}

impl VideoCodec {
    pub fn name(&self) -> (n: &'static str)
        ensures
            n@ == video_codec_name(*self),
    {
        match self {
            Self::H264 => "h264",
            Self::H265 => "h265",
            Self::Vp8 => "vp8",
            Self::Vp9 => "vp9",
            Self::Av1 => "av1",
        }
    }

    pub fn mime_type(&self) -> (m: &'static str)
        ensures
            m@ == video_codec_mime_type(*self),
    {
        match self {
            Self::H264 => "video/h264",
            Self::H265 => "video/h265",
            Self::Vp8 => "video/vp8",
            Self::Vp9 => "video/vp9",
            Self::Av1 => "video/av1",
        }
    }
}

#[derive(Debug, Clone, Copy, PartialEq, Eq, Structural)]
pub enum AudioCodec {
    Opus,
    Aac,
    Pcm,
}

pub open spec fn audio_codec_name(c: AudioCodec) -> Seq<char> {
    match c {
        AudioCodec::Opus => "opus"@,
        AudioCodec::Aac => "aac"@,
        AudioCodec::Pcm => "pcm"@,
    }
}

pub open spec fn audio_codec_mime_type(c: AudioCodec) -> Seq<char> {
    match c {
        AudioCodec::Opus => "audio/opus"@,
        AudioCodec::Aac => "audio/aac"@,
        AudioCodec::Pcm => "audio/pcm"@,
    }
}

impl AudioCodec {
    pub fn name(&self) -> (n: &'static str)
        ensures
            n@ == audio_codec_name(*self),
    {
        match self {
            Self::Opus => "opus",
            Self::Aac => "aac",
            Self::Pcm => "pcm",
        }
    }

    pub fn mime_type(&self) -> (m: &'static str)
        ensures
            m@ == audio_codec_mime_type(*self),
    {
        match self {
            Self::Opus => "audio/opus",
            Self::Aac => "audio/aac",
            Self::Pcm => "audio/pcm",
        }
    }
}

/// Why a source could not hand out a frame.
#[derive(Debug, Clone, Copy, PartialEq, Eq, Structural)]
pub enum SourceError {
    /// The source has failed for good.
    Failed,
}

/// Something that hands out raw video frames.
pub trait VideoSource {
    /// The format of the frames.
    fn format(&self) -> VideoFormat;

    /// The next frame, or nothing where none is due yet.
    fn pop_frame(&mut self) -> Result<Option<VideoFrame>, SourceError>;
}

/// How a video encoder is set up.
#[derive(Debug, Clone, Copy, PartialEq, Eq, Structural)]
pub struct VideoEncoderConfig {
    pub codec: VideoCodec,
    pub preset: VideoPreset,
    /// Frames from one keyframe to the next.
    pub keyframe_interval: u32,
    pub hardware_accel: bool,
}

impl Default for VideoEncoderConfig {
    fn default() -> (c: Self)
        ensures
            c == (VideoEncoderConfig {
                codec: VideoCodec::H264,
                preset: VideoPreset::P720,
                keyframe_interval: 60,
                hardware_accel: true,
            }),
    {
        Self {
            codec: VideoCodec::H264,
            preset: VideoPreset::P720,
            keyframe_interval: 60,
            hardware_accel: true,
        }
    }
}

/// How an audio encoder is set up.
#[derive(Debug, Clone, Copy, PartialEq, Eq, Structural)]
pub struct AudioEncoderConfig {
    pub codec: AudioCodec,
    pub preset: AudioPreset,
}

impl Default for AudioEncoderConfig {
    fn default() -> (c: Self)
        ensures
            c == (AudioEncoderConfig { codec: AudioCodec::Opus, preset: AudioPreset::Hq }),
    {
        Self { codec: AudioCodec::Opus, preset: AudioPreset::Hq }
    }
}

/// How decoded frames are to be presented.
#[derive(Debug, Clone, Copy)]
pub struct PlaybackConfig {
    pub pixel_format: PixelFormat,
    /// Width and height to scale to.
    pub viewport: Option<(u32, u32)>,
}

impl Default for PlaybackConfig {
    fn default() -> (c: Self)
        ensures
            c == (PlaybackConfig { pixel_format: PixelFormat::Rgba, viewport: None }),
    {
        Self { pixel_format: PixelFormat::Rgba, viewport: None }
    }
}

/// A video rendition as a catalog lists it.
#[derive(Debug, Clone, Copy, PartialEq, Eq, Structural)]
pub struct VideoCatalogConfig {
    pub codec: VideoCodec,
    pub coded_width: u32,
    pub coded_height: u32,
    pub display_width: Option<u32>,
    pub display_height: Option<u32>,
    /// Frames per second.
    pub framerate: Option<u32>,
    /// Bits per second.
    pub bitrate: Option<u32>,
}

impl VideoCatalogConfig {
    /// The catalog entry of a preset: its size, coded and displayed, its
    /// frame rate and its bitrate in bits per second.
    pub fn from_preset(preset: VideoPreset, codec: VideoCodec) -> (c: Self)
        ensures
            c == (VideoCatalogConfig {
                codec,
                coded_width: video_preset_dimensions(preset).0,
                coded_height: video_preset_dimensions(preset).1,
                display_width: Some(video_preset_dimensions(preset).0),
                display_height: Some(video_preset_dimensions(preset).1),
                framerate: Some(30u32),
                bitrate: Some((video_preset_bitrate_kbps(preset) * 1000) as u32),
            }),
    {
        let (w, h) = preset.dimensions();
        Self {
            codec,
            coded_width: w,
            coded_height: h,
            display_width: Some(w),
            display_height: Some(h),
            framerate: Some(preset.fps()),
            bitrate: Some(preset.bitrate_kbps() * 1000),
        }
    }
}

/// An audio rendition as a catalog lists it.
#[derive(Debug, Clone, Copy, PartialEq, Eq, Structural)]
pub struct AudioCatalogConfig {
    pub codec: AudioCodec,
    pub sample_rate: u32,
    pub channel_count: u32,
    /// Bits per second.
    pub bitrate: Option<u32>,
}

impl AudioCatalogConfig {
    /// The catalog entry of a preset.
    pub fn from_preset(preset: AudioPreset, codec: AudioCodec) -> (c: Self)
        ensures
            c == (AudioCatalogConfig {
                codec,
                sample_rate: 48000,
                channel_count: audio_preset_channels(preset),
                bitrate: Some((audio_preset_bitrate_kbps(preset) * 1000) as u32),
            }),
    {
        Self {
            codec,
            sample_rate: preset.sample_rate(),
            channel_count: preset.channel_count(),
            bitrate: Some(preset.bitrate_kbps() * 1000),
        }
    }
}

} // verus!
