//! Presets of the H.264 encoder, and what is decided around the encoder:
//! which backend to open, with which options, how its frames are laid out
//! and what its packets become.

use vstd::prelude::*;

verus! {

/// Size and frame rate that the encoder is set up for.
#[derive(Debug, Clone, Copy, PartialEq, Eq, Structural)]
pub enum VideoPreset {
    /// 320x180 at 15 frames per second.
    P180,
    /// 640x360 at 24 frames per second.
    P360,
    /// 1280x720 at 30 frames per second.
    P720,
    /// 1920x1080 at 30 frames per second.
    P1080,
}

pub open spec fn preset_width(p: VideoPreset) -> u32 {
    match p {
        VideoPreset::P180 => 320,
        VideoPreset::P360 => 640,
        VideoPreset::P720 => 1280,
        VideoPreset::P1080 => 1920,
    }
}

pub open spec fn preset_height(p: VideoPreset) -> u32 {
    match p {
        VideoPreset::P180 => 180,
        VideoPreset::P360 => 360,
        VideoPreset::P720 => 720,
        VideoPreset::P1080 => 1080,
    }
}

pub open spec fn preset_fps(p: VideoPreset) -> u32 {
    match p {
        VideoPreset::P180 => 15,
        VideoPreset::P360 => 24,
        VideoPreset::P720 => 30,
        VideoPreset::P1080 => 30,
    }
}

impl VideoPreset {
    pub fn width(&self) -> (w: u32)
        ensures
            w == preset_width(*self),
    {
        match self {
            VideoPreset::P180 => 320,
            VideoPreset::P360 => 640,
            VideoPreset::P720 => 1280,
            VideoPreset::P1080 => 1920,
        }
    }

    pub fn height(&self) -> (h: u32)
        ensures
            h == preset_height(*self),
    {
        match self {
            VideoPreset::P180 => 180,
            VideoPreset::P360 => 360,
            VideoPreset::P720 => 720,
            VideoPreset::P1080 => 1080,
        }
    }

    pub fn fps(&self) -> (f: u32)
        ensures
            f == preset_fps(*self),
    {
        match self {
            VideoPreset::P180 => 15,
            VideoPreset::P360 => 24,
            VideoPreset::P720 | VideoPreset::P1080 => 30,
        }
    }

    /// Every preset, from the smallest to the largest.
    pub fn all() -> (v: Vec<VideoPreset>)
        ensures
            v@ == seq![VideoPreset::P180, VideoPreset::P360, VideoPreset::P720, VideoPreset::P1080],
    {
        let mut v: Vec<VideoPreset> = Vec::new();
        v.push(VideoPreset::P180);
        v.push(VideoPreset::P360);
        v.push(VideoPreset::P720);
        v.push(VideoPreset::P1080);
        proof {
            assert(v@ =~= seq![
                VideoPreset::P180,
                VideoPreset::P360,
                VideoPreset::P720,
                VideoPreset::P1080,
            ]);
        }
        v
    }

    /// Timestamp in nanoseconds of frame `index` at this preset's rate.
    pub fn frame_time_ns(&self, index: u64) -> (t: u64)
        requires
            index * 1_000_000_000 <= u64::MAX,
        ensures
            t == (index * 1_000_000_000) / (preset_fps(*self) as int),
    {
        index * 1_000_000_000 / (self.fps() as u64)
    }
}

/// Where an encoder runs.
#[derive(Debug, Clone, Copy, PartialEq, Eq, Structural)]
pub enum Platform {
    Ios,
    MacOs,
    Linux,
    Android,
    Other,
}

/// A way to encode H.264.
#[derive(Debug, Clone, Copy, PartialEq, Eq, Structural)]
pub enum HwBackend {
    Software,
    Videotoolbox,
    Mediacodec,
}

/// The name under which the codec library knows a backend's encoder.
pub open spec fn backend_codec_name(b: HwBackend) -> Seq<char> {
    match b {
        HwBackend::Software => "libx264"@,
        HwBackend::Videotoolbox => "h264_videotoolbox"@,
        HwBackend::Mediacodec => "h264_mediacodec"@,
    }
}

/// The backends to try on a platform, in order: the platform's hardware
/// encoder, where it has one, before the software encoder.
pub open spec fn backend_candidates(p: Platform) -> Seq<HwBackend> {
    match p {
        Platform::MacOs => seq![HwBackend::Videotoolbox, HwBackend::Software],
        Platform::Linux => seq![HwBackend::Mediacodec, HwBackend::Software],
        Platform::Android => seq![HwBackend::Mediacodec, HwBackend::Software],
        Platform::Ios => seq![HwBackend::Software],
        Platform::Other => seq![HwBackend::Software],
    }
}

/// An option that is handed to an encoder when it is opened.
#[derive(Debug, Clone, Copy, PartialEq, Eq)]
pub struct EncoderOption {
    pub key: &'static str,
    pub value: &'static str,
}

/// The options of a backend, as pairs of texts: no Annex B framing, and
/// for the software encoder the fastest preset, tuned for no latency, in
/// the baseline profile.
pub open spec fn backend_options(b: HwBackend) -> Seq<(Seq<char>, Seq<char>)> {
    if b == HwBackend::Software {
        seq![
            ("annexB"@, "0"@),
            ("preset"@, "ultrafast"@),
            ("tune"@, "zerolatency"@),
            ("profile"@, "baseline"@),
        ]
    } else {
        seq![("annexB"@, "0"@)]
    }
}

/// What each option of `all` says.
pub open spec fn option_pairs(all: Seq<EncoderOption>) -> Seq<(Seq<char>, Seq<char>)> {
    all.map_values(|o: EncoderOption| (o.key@, o.value@))
}

impl HwBackend {
    /// The name under which the codec library knows the backend's encoder.
    pub fn codec_name(&self) -> (n: &'static str)
        ensures
            n@ == backend_codec_name(*self),
    {
        match self {
            HwBackend::Software => "libx264",
            HwBackend::Videotoolbox => "h264_videotoolbox",
            HwBackend::Mediacodec => "h264_mediacodec",
        }
    }

    /// The backends to try on `platform`, in order.
    pub fn candidates(platform: Platform) -> (all: Vec<HwBackend>)
        ensures
            all@ == backend_candidates(platform),
    {
        let mut all: Vec<HwBackend> = Vec::new();
        match platform {
            Platform::MacOs => {
                all.push(HwBackend::Videotoolbox);
            },
            Platform::Linux => {
                all.push(HwBackend::Mediacodec);
            },
            Platform::Android => {
                all.push(HwBackend::Mediacodec);
            },
            Platform::Ios => {},
            Platform::Other => {},
        }
        all.push(HwBackend::Software);
        proof {
            assert(all@ =~= backend_candidates(platform));
        }
        all
    }

    /// The options that the backend's encoder is opened with.
    pub fn options(&self) -> (all: Vec<EncoderOption>)
        ensures
            option_pairs(all@) == backend_options(*self),
    {
        let mut all: Vec<EncoderOption> = Vec::new();
        all.push(EncoderOption { key: "annexB", value: "0" });
        match self {
            HwBackend::Software => {
                all.push(EncoderOption { key: "preset", value: "ultrafast" });
                all.push(EncoderOption { key: "tune", value: "zerolatency" });
                all.push(EncoderOption { key: "profile", value: "baseline" });
            },
            _ => {},
        }
        proof {
            assert(option_pairs(all@) =~= backend_options(*self));
        }
        all
    }
}

/// Position of the first backend that could be opened, or nothing where
/// none could.
pub open spec fn first_opened(opened: Seq<bool>) -> Option<int>
    decreases opened.len(),
{
    if opened.len() == 0 {
        None
    } else if opened[0] {
        Some(0)
    } else {
        match first_opened(opened.skip(1)) {
            Some(i) => Some(i + 1),
            None => None,
        }
    }
}

/// The first of the candidates that could be opened is the one at `i`.
pub proof fn lemma_first_opened(opened: Seq<bool>, i: int)
    requires
        0 <= i <= opened.len(),
        forall|k: int| 0 <= k < i ==> !opened[k],
        i < opened.len() ==> opened[i],
    ensures
        first_opened(opened) == if i < opened.len() {
            Some(i)
        } else {
            None
        },
    decreases opened.len(),
{
    if opened.len() == 0 || opened[0] {
    } else {
        let t = opened.skip(1);
        assert forall|k: int| 0 <= k < i - 1 implies !t[k] by {
            assert(t[k] == opened[k + 1]);
        }
        if i - 1 < t.len() {
            assert(t[i - 1] == opened[i]);
        }
        lemma_first_opened(t, i - 1);
    }
}

/// The backend to encode with, where `opened` tells of each candidate
/// whether its encoder could be opened: the first that could.
pub fn choose_backend(candidates: &Vec<HwBackend>, opened: &Vec<bool>) -> (r: Option<HwBackend>)
    requires
        candidates@.len() == opened@.len(),
    ensures
        match first_opened(opened@) {
            Some(i) => r == Some(candidates@[i]),
            None => r is None,
        },
{
    let mut i: usize = 0;
    while i < opened.len()
        invariant
            candidates@.len() == opened@.len(),
            0 <= i <= opened@.len(),
            forall|k: int| 0 <= k < i ==> !opened@[k],
        decreases opened@.len() - i,
    {
        if opened[i] {
            proof {
                lemma_first_opened(opened@, i as int);
            }
            return Some(candidates[i]);
        }
        i = i + 1;
    }
    proof {
        lemma_first_opened(opened@, opened@.len() as int);
    }
    None
}

/// What an encoder is asked for.
#[derive(Debug, Clone, Copy, PartialEq, Eq, Structural)]
pub struct EncoderOpts {
    pub width: u32,
    pub height: u32,
    /// Frames per second.
    pub framerate: u32,
    /// Bits per second.
    pub bitrate: u64,
}

/// The profile of an H.264 stream.
#[derive(Debug, Clone, Copy, PartialEq, Eq, Structural)]
pub struct H264Profile {
    pub profile: u8,
    pub constraints: u8,
    pub level: u8,
}

/// The baseline profile at level 3.0.
pub open spec fn baseline() -> H264Profile {
    H264Profile { profile: 0x42, constraints: 0xE0, level: 0x1E }
}

/// How a catalog describes an H.264 track.
#[derive(Debug, Clone)]
pub struct H264VideoConfig {
    pub codec: H264Profile,
    /// The decoder configuration record of the stream.
    pub description: Option<Vec<u8>>,
    pub coded_width: Option<u32>,
    pub coded_height: Option<u32>,
    pub display_ratio_width: Option<u32>,
    pub display_ratio_height: Option<u32>,
    /// Bits per second.
    pub bitrate: Option<u64>,
    /// Frames per second.
    pub framerate: Option<u32>,
    pub optimize_for_latency: Option<bool>,
}

impl EncoderOpts {
    /// The catalog's description of the track that an encoder with these
    /// options and the decoder configuration record `description` makes.
    pub fn video_config(&self, description: Vec<u8>) -> (c: H264VideoConfig)
        ensures
            c.codec == baseline(),
            c.description == Some(description),
            c.coded_width == Some(self.width),
            c.coded_height == Some(self.height),
            c.display_ratio_width is None,
            c.display_ratio_height is None,
            c.bitrate == Some(self.bitrate),
            c.framerate == Some(self.framerate),
            c.optimize_for_latency == Some(true),
    {
        H264VideoConfig {
            codec: H264Profile { profile: 0x42, constraints: 0xE0, level: 0x1E },
            description: Some(description),
            coded_width: Some(self.width),
            coded_height: Some(self.height),
            display_ratio_width: None,
            display_ratio_height: None,
            bitrate: Some(self.bitrate),
            framerate: Some(self.framerate),
            optimize_for_latency: Some(true),
        }
    }

    /// Distance between two keyframes in frames: one second of video.
    pub fn gop_size(&self) -> (n: u32)
        ensures
            n == self.framerate,
    {
        self.framerate
    }
}

/// Presentation time of the frame number `frame_count` in nanoseconds.
pub open spec fn frame_time(frame_count: u64, framerate: u32) -> int {
    frame_count * 1_000_000_000 / (framerate as int)
}

/// Presentation time, in nanoseconds, of the packet that leaves an encoder
/// which has taken `frame_count` frames at `framerate` frames per second.
pub fn packet_timestamp_ns(frame_count: u64, framerate: u32) -> (t: u64)
    requires
        framerate > 0,
        frame_count * 1_000_000_000 <= u64::MAX,
    ensures
        t == frame_time(frame_count, framerate),
{
    frame_count * 1_000_000_000 / (framerate as u64)
}

/// What an encoder answers when it is asked for a packet.
#[derive(Debug, Clone)]
pub enum PacketOutcome {
    Packet { payload: Vec<u8>, is_key: bool },
    /// The encoder was flushed and has nothing more.
    Eof,
    /// The encoder wants more frames first.
    Again,
    Failed,
}

/// An encoded frame with its presentation time.
#[derive(Debug, Clone)]
pub struct EncodedFrame {
    pub payload: Vec<u8>,
    pub timestamp_ns: u64,
    pub keyframe: bool,
}

/// What the caller of an encoder is told.
#[derive(Debug, Clone)]
pub enum PacketStep {
    Ready(EncodedFrame),
    Finished,
    Pending,
    Failed,
}

/// What the caller is told of an encoder's answer: a packet becomes a
/// frame with the presentation time of the frames taken so far.
pub fn receive_packet(outcome: PacketOutcome, frame_count: u64, framerate: u32) -> (step: PacketStep)
    requires
        framerate > 0,
        frame_count * 1_000_000_000 <= u64::MAX,
    ensures
        match outcome {
            PacketOutcome::Packet { payload, is_key } => step matches PacketStep::Ready(f) && f.payload
                == payload && f.keyframe == is_key && f.timestamp_ns == frame_time(frame_count, framerate),
            PacketOutcome::Eof => step is Finished,
            PacketOutcome::Again => step is Pending,
            PacketOutcome::Failed => step is Failed,
        },
{
    match outcome {
        PacketOutcome::Packet { payload, is_key } => PacketStep::Ready(
            EncodedFrame {
                payload,
                timestamp_ns: packet_timestamp_ns(frame_count, framerate),
                keyframe: is_key,
            },
        ),
        PacketOutcome::Eof => PacketStep::Finished,
        PacketOutcome::Again => PacketStep::Pending,
        PacketOutcome::Failed => PacketStep::Failed,
    }
}

/// What a caller that does not wait is handed: the frame, if one is
/// ready.
pub fn pop_packet(step: PacketStep) -> (r: Result<Option<EncodedFrame>, ()>)
    ensures
        match step {
            PacketStep::Ready(f) => r == Ok::<Option<EncodedFrame>, ()>(Some(f)),
            PacketStep::Finished => r == Ok::<Option<EncodedFrame>, ()>(None),
            PacketStep::Pending => r == Ok::<Option<EncodedFrame>, ()>(None),
            PacketStep::Failed => r is Err,
        },
{
    match step {
        PacketStep::Ready(f) => Ok(Some(f)),
        PacketStep::Finished => Ok(None),
        PacketStep::Pending => Ok(None),
        PacketStep::Failed => Err(()),
    }
}

/// Whether a picture has to be converted before it is encoded: it has
/// another pixel format or another size than the target.
pub fn needs_rescale(
    same_format: bool,
    source: (u32, u32),
    target_size: Option<(u32, u32)>,
) -> (b: bool)
    ensures
        b == !(same_format && (target_size matches Some(size) ==> size == source)),
{
    let size = match target_size {
        Some(s) => s,
        None => source,
    };
    !(same_format && source.0 == size.0 && source.1 == size.1)
}

/// Byte `i` of a picture whose rows are `stride` bytes apart: the byte of
/// the raw picture at the same place in its row, for a row that the raw
/// picture holds whole, and 0 in the padding behind a row and in a row
/// that the raw picture does not hold whole.
pub open spec fn padded_byte(raw: Seq<u8>, row_bytes: int, stride: int, i: int) -> u8 {
    let y = i / stride;
    let x = i % stride;
    if x < row_bytes && y * row_bytes + row_bytes <= raw.len() {
        raw[y * row_bytes + x]
    } else {
        0
    }
}

/// The raw picture of `height` rows of `row_bytes` bytes, with its rows
/// `stride` bytes apart.
pub open spec fn padded(raw: Seq<u8>, row_bytes: int, height: int, stride: int) -> Seq<u8> {
    Seq::new((height * stride) as nat, |i: int| padded_byte(raw, row_bytes, stride, i))
}

/// Lays the rows of a raw picture of four bytes a pixel `stride` bytes
/// apart, as an encoder's frame holds them.
pub fn push_frame(raw: &[u8], width: u32, height: u32, stride: usize) -> (data: Vec<u8>)
    requires
        stride >= width * 4,
        stride > 0,
        height * stride <= usize::MAX,
    ensures
        data@ == padded(raw@, width * 4, height as int, stride as int),
{
    let row_bytes: usize = (width as usize) * 4;
    let mut data: Vec<u8> = Vec::new();
    let mut y: usize = 0;
    proof {
        assert(0 * stride == 0) by (nonlinear_arith);
        assert(data@ =~= Seq::new(0nat, |i: int| padded_byte(raw@, row_bytes as int, stride as int, i)));
    }
    while y < height as usize
        invariant
            row_bytes == width * 4,
            stride >= row_bytes,
            stride > 0,
            height * stride <= usize::MAX,
            0 <= y <= height,
            data@ == Seq::new(
                (y * stride) as nat,
                |i: int| padded_byte(raw@, row_bytes as int, stride as int, i),
            ),
        decreases height - y,
    {
        proof {
            assert((y + 1) * stride <= height * stride) by (nonlinear_arith)
                requires
                    y + 1 <= height,
                    stride >= 0,
            ;
            assert(y * row_bytes <= y * stride) by (nonlinear_arith)
                requires
                    row_bytes <= stride,
                    y >= 0,
            ;
            assert((y + 1) * stride == y * stride + stride) by (nonlinear_arith);
            assert(y * row_bytes + row_bytes <= (y + 1) * stride) by (nonlinear_arith)
                requires
                    row_bytes <= stride,
                    y >= 0,
            ;
        }
        let src_off = y * row_bytes;
        let whole = src_off + row_bytes <= raw.len();
        let mut x: usize = 0;
        while x < stride
            invariant
                row_bytes == width * 4,
                stride >= row_bytes,
                stride > 0,
                0 <= y < height,
                (y + 1) * stride <= usize::MAX,
                (y + 1) * stride == y * stride + stride,
                src_off == y * row_bytes,
                whole == (src_off + row_bytes <= raw@.len()),
                src_off + row_bytes <= usize::MAX,
                0 <= x <= stride,
                data@ == Seq::new(
                    (y * stride + x) as nat,
                    |i: int| padded_byte(raw@, row_bytes as int, stride as int, i),
                ),
            decreases stride - x,
        {
            let ghost at = y * stride + x;
            proof {
                assert(y * stride >= 0) by (nonlinear_arith)
                    requires
                        y >= 0,
                        stride >= 0,
                ;
                vstd::arithmetic::div_mod::lemma_fundamental_div_mod_converse(
                    at,
                    stride as int,
                    y as int,
                    x as int,
                );
            }
            let byte = if whole && x < row_bytes {
                assert(src_off + x < src_off + row_bytes);
                raw[src_off + x]
            } else {
                0
            };
            data.push(byte);
            proof {
                assert(data@ =~= Seq::new(
                    (y * stride + (x + 1)) as nat,
                    |i: int| padded_byte(raw@, row_bytes as int, stride as int, i),
                ));
            }
            x = x + 1;
        }
        y = y + 1;
    }
    data
}

} // verus!
