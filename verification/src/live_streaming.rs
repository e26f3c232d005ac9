//! Quality presets, track configurations and connection statistics of the
//! ticket-based streaming API.

use vstd::prelude::*;
use crate::base32::base32_bytes;
use crate::base32::base32_text;
use crate::base32::lemma_case_round_trip;
use crate::clock::now_secs;
use crate::endpoint::EndpointId;
use crate::endpoint::is_endpoint_key;
use crate::text::ascii_lower;
use crate::text::ascii_upper;
use crate::text::last_index;
use crate::text::lemma_last_index_is;
use crate::text::rfind_char;
use crate::text::to_ascii_lowercase;
use crate::text::to_ascii_uppercase;
use crate::text::lowercase;
use crate::text::str_eq;
use crate::text::to_lowercase;

verus! {

/// Video quality preset.
#[derive(Debug, Clone, Copy, PartialEq, Eq, Hash, Structural)]
pub enum VideoQuality {
    /// 320x180
    P180,
    /// 640x360
    P360,
    /// 1280x720
    P720,
    /// 1920x1080
    P1080,
}

pub open spec fn video_quality_name(q: VideoQuality) -> Seq<char> {
    match q {
        VideoQuality::P180 => "180p"@,
        VideoQuality::P360 => "360p"@,
        VideoQuality::P720 => "720p"@,
        VideoQuality::P1080 => "1080p"@,
    }
}

pub open spec fn video_quality_bitrate_kbps(q: VideoQuality) -> u32 {
    match q {
        VideoQuality::P180 => 300,
        VideoQuality::P360 => 800,
        VideoQuality::P720 => 2500,
        VideoQuality::P1080 => 5000,
    }
}

pub open spec fn video_quality_dimensions(q: VideoQuality) -> (u32, u32) {
    match q {
        VideoQuality::P180 => (320, 180),
        VideoQuality::P360 => (640, 360),
        VideoQuality::P720 => (1280, 720),
        VideoQuality::P1080 => (1920, 1080),
    }
}

/// The preset that a lower-case text names: `180p` or `p180`, and so on.
pub open spec fn parse_video_quality(t: Seq<char>) -> Option<VideoQuality> {
    if t == "180p"@ || t == "p180"@ {
        Some(VideoQuality::P180)
    } else if t == "360p"@ || t == "p360"@ {
        Some(VideoQuality::P360)
    } else if t == "720p"@ || t == "p720"@ {
        Some(VideoQuality::P720)
    } else if t == "1080p"@ || t == "p1080"@ {
        Some(VideoQuality::P1080)
    } else {
        None
    }
}

impl VideoQuality {
    /// Width and height in pixels.
    pub fn dimensions(&self) -> (d: (u32, u32))
        ensures
            d == video_quality_dimensions(*self),
    {
        match self {
            Self::P180 => (320, 180),
            Self::P360 => (640, 360),
            Self::P720 => (1280, 720),
            Self::P1080 => (1920, 1080),
        }
    }

    /// Recommended bitrate in kbps.
    pub fn bitrate_kbps(&self) -> (b: u32)
        ensures
            b == video_quality_bitrate_kbps(*self),
    {
        match self {
            Self::P180 => 300,
            Self::P360 => 800,
            Self::P720 => 2500,
            Self::P1080 => 5000,
        }
    }

    /// Recommended frames per second.
    pub fn fps(&self) -> (f: u32)
        ensures
            f == 30,
    {
        30
    }

    pub fn name(&self) -> (n: &'static str)
        ensures
            n@ == video_quality_name(*self),
    {
        match self {
            Self::P180 => "180p",
            Self::P360 => "360p",
            Self::P720 => "720p",
            Self::P1080 => "1080p",
        }
    }

    /// Every preset, from the lowest to the highest.
    pub fn all() -> (a: [VideoQuality; 4])
        ensures
            a@ == seq![
                VideoQuality::P180,
                VideoQuality::P360,
                VideoQuality::P720,
                VideoQuality::P1080,
            ],
    {
        let a = [Self::P180, Self::P360, Self::P720, Self::P1080];
        proof {
            assert(a@ =~= seq![
                VideoQuality::P180,
                VideoQuality::P360,
                VideoQuality::P720,
                VideoQuality::P1080,
            ]);
        }
        a
    }

    /// The preset that the lower-case text `t` names.
    pub fn from_lowercase(t: &str) -> (q: Option<Self>)
        ensures
            q == parse_video_quality(t@),
    {
        if str_eq(t, "180p") || str_eq(t, "p180") {
            Some(Self::P180)
        } else if str_eq(t, "360p") || str_eq(t, "p360") {
            Some(Self::P360)
        } else if str_eq(t, "720p") || str_eq(t, "p720") {
            Some(Self::P720)
        } else if str_eq(t, "1080p") || str_eq(t, "p1080") {
            Some(Self::P1080)
        } else {
            None
        }
    }

    /// The preset that `s` names, whatever the case of its letters.
    pub fn from_str(s: &str) -> (q: Option<Self>)
        ensures
            q == parse_video_quality(lowercase(s@)),
    {
        let lower = to_lowercase(s);
        Self::from_lowercase(lower.as_str())
    }
}

/// Audio quality preset.
#[derive(Debug, Clone, Copy, PartialEq, Eq, Hash, Structural)]
pub enum AudioQuality {
    /// Mono, lower bitrate.
    Low,
    /// Stereo, higher bitrate.
    High,
}

pub open spec fn audio_quality_name(q: AudioQuality) -> Seq<char> {
    match q {
        AudioQuality::Low => "low"@,
        AudioQuality::High => "high"@,
    }
}

impl AudioQuality {
    pub fn sample_rate(&self) -> (r: u32)
        ensures
            r == match *self {
                AudioQuality::Low => 22050u32,
                AudioQuality::High => 48000u32,
            },
    {
        match self {
            Self::Low => 22050,
            Self::High => 48000,
        }
    }

    pub fn channels(&self) -> (c: u32)
        ensures
            c == match *self {
                AudioQuality::Low => 1u32,
                AudioQuality::High => 2u32,
            },
    {
        match self {
            Self::Low => 1,
            Self::High => 2,
        }
    }

    pub fn bitrate_kbps(&self) -> (b: u32)
        ensures
            b == match *self {
                AudioQuality::Low => 64u32,
                AudioQuality::High => 128u32,
            },
    {
        match self {
            Self::Low => 64,
            Self::High => 128,
        }
    }

    pub fn name(&self) -> (n: &'static str)
        ensures
            n@ == audio_quality_name(*self),
    {
        match self {
            Self::Low => "low",
            Self::High => "high",
        }
    }
}

/// Configuration of one video track.
#[derive(Debug, Clone)]
pub struct VideoTrackConfig {
    pub quality: VideoQuality,
    /// Codec name, such as `h264`.
    pub codec: String,
    pub width: u32,
    pub height: u32,
    pub fps: u32,
    pub bitrate_kbps: u32,
}

/// What a video track configuration holds, as mathematical values.
pub struct VideoTrackModel {
    pub quality: VideoQuality,
    pub codec: Seq<char>,
    pub width: u32,
    pub height: u32,
    pub fps: u32,
    pub bitrate_kbps: u32,
}

impl View for VideoTrackConfig {
    type V = VideoTrackModel;

    open spec fn view(&self) -> VideoTrackModel {
        VideoTrackModel {
            quality: self.quality,
            codec: self.codec@,
            width: self.width,
            height: self.height,
            fps: self.fps,
            bitrate_kbps: self.bitrate_kbps,
        }
    }
}

/// Name of the video track of quality `q`: `video-` and the preset's name.
pub open spec fn video_track_name(q: VideoQuality) -> Seq<char> {
    "video-"@ + video_quality_name(q)
}

/// Name of the audio track of quality `q`: `audio-` and the preset's name.
pub open spec fn audio_track_name(q: AudioQuality) -> Seq<char> {
    "audio-"@ + audio_quality_name(q)
}

impl VideoTrackConfig {
    /// The configuration that the preset `quality` stands for.
    pub fn new(quality: VideoQuality, codec: &str) -> (c: Self)
        ensures
            c.quality == quality,
            c.codec@ == codec@,
            (c.width, c.height) == video_quality_dimensions(quality),
            c.fps == 30,
            c.bitrate_kbps == video_quality_bitrate_kbps(quality),
    {
        let (width, height) = quality.dimensions();
        Self {
            quality,
            codec: codec.to_owned(),
            width,
            height,
            fps: quality.fps(),
            bitrate_kbps: quality.bitrate_kbps(),
        }
    }

    pub fn track_name(&self) -> (n: String)
        ensures
            n@ == video_track_name(self.quality),
    {
        let mut n = "video-".to_owned();
        n.append(self.quality.name());
        n
    }

    /// A copy of the configuration that holds the same values.
    pub fn duplicate(&self) -> (c: Self)
        ensures
            c@ == self@,
    {
        Self {
            quality: self.quality,
            codec: self.codec.clone(),
            width: self.width,
            height: self.height,
            fps: self.fps,
            bitrate_kbps: self.bitrate_kbps,
        }
    }
}

/// Configuration of one audio track.
#[derive(Debug, Clone)]
pub struct AudioTrackConfig {
    pub quality: AudioQuality,
    pub codec: String,
    pub sample_rate: u32,
    pub channels: u32,
    pub bitrate_kbps: u32,
}

/// What an audio track configuration holds, as mathematical values.
pub struct AudioTrackModel {
    pub quality: AudioQuality,
    pub codec: Seq<char>,
    pub sample_rate: u32,
    pub channels: u32,
    pub bitrate_kbps: u32,
}

impl View for AudioTrackConfig {
    type V = AudioTrackModel;

    open spec fn view(&self) -> AudioTrackModel {
        AudioTrackModel {
            quality: self.quality,
            codec: self.codec@,
            sample_rate: self.sample_rate,
            channels: self.channels,
            bitrate_kbps: self.bitrate_kbps,
        }
    }
}

impl AudioTrackConfig {
    /// The configuration that the preset `quality` stands for.
    pub fn new(quality: AudioQuality, codec: &str) -> (c: Self)
        ensures
            c.quality == quality,
            c.codec@ == codec@,
            c.sample_rate == match quality {
                AudioQuality::Low => 22050u32,
                AudioQuality::High => 48000u32,
            },
            c.channels == match quality {
                AudioQuality::Low => 1u32,
                AudioQuality::High => 2u32,
            },
            c.bitrate_kbps == match quality {
                AudioQuality::Low => 64u32,
                AudioQuality::High => 128u32,
            },
    {
        Self {
            quality,
            codec: codec.to_owned(),
            sample_rate: quality.sample_rate(),
            channels: quality.channels(),
            bitrate_kbps: quality.bitrate_kbps(),
        }
    }

    pub fn track_name(&self) -> (n: String)
        ensures
            n@ == audio_track_name(self.quality),
    {
        let mut n = "audio-".to_owned();
        n.append(self.quality.name());
        n
    }

    /// A copy of the configuration that holds the same values.
    pub fn duplicate(&self) -> (c: Self)
        ensures
            c@ == self@,
    {
        Self {
            quality: self.quality,
            codec: self.codec.clone(),
            sample_rate: self.sample_rate,
            channels: self.channels,
            bitrate_kbps: self.bitrate_kbps,
        }
    }
}

pub open spec fn video_track_models(v: Seq<VideoTrackConfig>) -> Seq<VideoTrackModel> {
    v.map_values(|c: VideoTrackConfig| c@)
}

pub open spec fn audio_track_models(v: Seq<AudioTrackConfig>) -> Seq<AudioTrackModel> {
    v.map_values(|c: AudioTrackConfig| c@)
}

/// Position of the first video track of quality `q`, or the number of tracks.
pub open spec fn video_track_position(tracks: Seq<VideoTrackModel>, q: VideoQuality) -> int
    decreases tracks.len(),
{
    if tracks.len() == 0 || tracks[0].quality == q {
        0
    } else {
        1 + video_track_position(tracks.skip(1), q)
    }
}

/// Position of the first audio track of quality `q`, or the number of tracks.
pub open spec fn audio_track_position(tracks: Seq<AudioTrackModel>, q: AudioQuality) -> int
    decreases tracks.len(),
{
    if tracks.len() == 0 || tracks[0].quality == q {
        0
    } else {
        1 + audio_track_position(tracks.skip(1), q)
    }
}

/// The video track of quality `q` stands at `i` where no track before `i`
/// has that quality and the track at `i`, if there is one, has it.
pub proof fn lemma_video_track_position(tracks: Seq<VideoTrackModel>, q: VideoQuality, i: int)
    requires
        0 <= i <= tracks.len(),
        forall|k: int| 0 <= k < i ==> tracks[k].quality != q,
        i < tracks.len() ==> tracks[i].quality == q,
    ensures
        video_track_position(tracks, q) == i,
    decreases tracks.len(),
{
    if tracks.len() == 0 || tracks[0].quality == q {
    } else {
        let t = tracks.skip(1);
        assert forall|k: int| 0 <= k < i - 1 implies t[k].quality != q by {
            assert(t[k] == tracks[k + 1]);
        }
        if i - 1 < t.len() {
            assert(t[i - 1] == tracks[i]);
        }
        lemma_video_track_position(t, q, i - 1);
    }
}

/// The audio track of quality `q` stands at `i` where no track before `i`
/// has that quality and the track at `i`, if there is one, has it.
pub proof fn lemma_audio_track_position(tracks: Seq<AudioTrackModel>, q: AudioQuality, i: int)
    requires
        0 <= i <= tracks.len(),
        forall|k: int| 0 <= k < i ==> tracks[k].quality != q,
        i < tracks.len() ==> tracks[i].quality == q,
    ensures
        audio_track_position(tracks, q) == i,
    decreases tracks.len(),
{
    if tracks.len() == 0 || tracks[0].quality == q {
    } else {
        let t = tracks.skip(1);
        assert forall|k: int| 0 <= k < i - 1 implies t[k].quality != q by {
            assert(t[k] == tracks[k + 1]);
        }
        if i - 1 < t.len() {
            assert(t[i - 1] == tracks[i]);
        }
        lemma_audio_track_position(t, q, i - 1);
    }
}

/// The video tracks after `c` was added: in place of the track of its
/// quality, else at the end.
pub open spec fn with_video_track(tracks: Seq<VideoTrackModel>, c: VideoTrackModel) -> Seq<
    VideoTrackModel,
> {
    let i = video_track_position(tracks, c.quality);
    if i < tracks.len() {
        tracks.update(i, c)
    } else {
        tracks.push(c)
    }
}

/// The audio tracks after `c` was added: in place of the track of its
/// quality, else at the end.
pub open spec fn with_audio_track(tracks: Seq<AudioTrackModel>, c: AudioTrackModel) -> Seq<
    AudioTrackModel,
> {
    let i = audio_track_position(tracks, c.quality);
    if i < tracks.len() {
        tracks.update(i, c)
    } else {
        tracks.push(c)
    }
}

/// The video track of quality `q`, if the catalog lists one.
pub open spec fn video_track_of(tracks: Seq<VideoTrackModel>, q: VideoQuality) -> Option<
    VideoTrackModel,
> {
    let i = video_track_position(tracks, q);
    if i < tracks.len() {
        Some(tracks[i])
    } else {
        None
    }
}

/// The listed video track of the highest quality.
pub open spec fn best_video_track_of(tracks: Seq<VideoTrackModel>) -> Option<VideoTrackModel> {
    if video_track_of(tracks, VideoQuality::P1080) is Some {
        video_track_of(tracks, VideoQuality::P1080)
    } else if video_track_of(tracks, VideoQuality::P720) is Some {
        video_track_of(tracks, VideoQuality::P720)
    } else if video_track_of(tracks, VideoQuality::P360) is Some {
        video_track_of(tracks, VideoQuality::P360)
    } else {
        video_track_of(tracks, VideoQuality::P180)
    }
}

/// The later of two times.
pub open spec fn later(a: u64, b: u64) -> u64 {
    if a >= b {
        a
    } else {
        b
    }
}

/// The document that lists the renditions of one broadcast. Each quality
/// has at most one video track and at most one audio track.
#[derive(Debug, Clone)]
pub struct BroadcastCatalog {
    pub name: String,
    pub description: Option<String>,
    pub video_tracks: Vec<VideoTrackConfig>,
    pub audio_tracks: Vec<AudioTrackConfig>,
    /// Total duration in milliseconds, for recorded content.
    pub duration_ms: Option<u64>,
    pub is_live: bool,
    /// Free-form keys and values.
    pub metadata: Vec<(String, String)>,
    /// Seconds since the Unix epoch of the last change; it never falls.
    pub updated_at: u64,
}

impl BroadcastCatalog {
    /// The listed video tracks, in the order in which their qualities were
    /// first added.
    pub open spec fn video(&self) -> Seq<VideoTrackModel> {
        video_track_models(self.video_tracks@)
    }

    /// The listed audio tracks, in the order in which their qualities were
    /// first added.
    pub open spec fn audio(&self) -> Seq<AudioTrackModel> {
        audio_track_models(self.audio_tracks@)
    }

    /// A live catalog without tracks, last changed at `now`.
    pub fn new_at(name: &str, now: u64) -> (c: Self)
        ensures
            c.name@ == name@,
            c.description is None,
            c.video() == Seq::<VideoTrackModel>::empty(),
            c.audio() == Seq::<AudioTrackModel>::empty(),
            c.duration_ms is None,
            c.is_live,
            c.metadata@.len() == 0,
            c.updated_at == now,
    {
        let c = Self {
            name: name.to_owned(),
            description: None,
            video_tracks: Vec::new(),
            audio_tracks: Vec::new(),
            duration_ms: None,
            is_live: true,
            metadata: Vec::new(),
            updated_at: now,
        };
        proof {
            assert(c.video() =~= Seq::empty());
            assert(c.audio() =~= Seq::empty());
        }
        c
    }

    /// A live catalog without tracks, stamped with the clock's reading.
    pub fn new(name: &str) -> (c: Self)
        ensures
            c.name@ == name@,
            c.description is None,
            c.video() == Seq::<VideoTrackModel>::empty(),
            c.audio() == Seq::<AudioTrackModel>::empty(),
            c.duration_ms is None,
            c.is_live,
            c.metadata@.len() == 0,
    {
        let now = now_secs();
        Self::new_at(name, now)
    }

    /// Where the video track of quality `q` stands, or the number of tracks.
    fn video_position(&self, q: VideoQuality) -> (i: usize)
        ensures
            i == video_track_position(self.video(), q),
            i <= self.video_tracks@.len(),
    {
        let n = self.video_tracks.len();
        let mut i: usize = 0;
        while i < n
            invariant
                n == self.video_tracks@.len(),
                0 <= i <= n,
                forall|k: int| 0 <= k < i ==> self.video()[k].quality != q,
            decreases n - i,
        {
            if self.video_tracks[i].quality == q {
                proof {
                    lemma_video_track_position(self.video(), q, i as int);
                }
                return i;
            }
            i = i + 1;
        }
        proof {
            lemma_video_track_position(self.video(), q, n as int);
        }
        n
    }

    /// Lists `config` as the video track of its quality, at time `now`.
    pub fn add_video_track_at(&mut self, config: VideoTrackConfig, now: u64)
        ensures
            final(self).video() == with_video_track(old(self).video(), config@),
            final(self).updated_at == later(old(self).updated_at, now),
            final(self).audio_tracks == old(self).audio_tracks,
            final(self).name == old(self).name,
            final(self).description == old(self).description,
            final(self).duration_ms == old(self).duration_ms,
            final(self).is_live == old(self).is_live,
            final(self).metadata == old(self).metadata,
    {
        let i = self.video_position(config.quality);
        let ghost before = self.video();
        if i < self.video_tracks.len() {
            self.video_tracks.set(i, config);
            proof {
                assert(self.video() =~= before.update(i as int, config@));
            }
        } else {
            self.video_tracks.push(config);
            proof {
                assert(self.video() =~= before.push(config@));
            }
        }
        self.touch_at(now);
    }

    /// Lists `config` as the video track of its quality.
    pub fn add_video_track(&mut self, config: VideoTrackConfig)
        ensures
            final(self).video() == with_video_track(old(self).video(), config@),
            final(self).updated_at >= old(self).updated_at,
            final(self).audio_tracks == old(self).audio_tracks,
            final(self).name == old(self).name,
            final(self).description == old(self).description,
            final(self).duration_ms == old(self).duration_ms,
            final(self).is_live == old(self).is_live,
            final(self).metadata == old(self).metadata,
    {
        let now = now_secs();
        self.add_video_track_at(config, now);
    }

    /// Where the audio track of quality `q` stands, or the number of tracks.
    fn audio_position(&self, q: AudioQuality) -> (i: usize)
        ensures
            i == audio_track_position(self.audio(), q),
            i <= self.audio_tracks@.len(),
    {
        let n = self.audio_tracks.len();
        let mut i: usize = 0;
        while i < n
            invariant
                n == self.audio_tracks@.len(),
                0 <= i <= n,
                forall|k: int| 0 <= k < i ==> self.audio()[k].quality != q,
            decreases n - i,
        {
            if self.audio_tracks[i].quality == q {
                proof {
                    lemma_audio_track_position(self.audio(), q, i as int);
                }
                return i;
            }
            i = i + 1;
        }
        proof {
            lemma_audio_track_position(self.audio(), q, n as int);
        }
        n
    }

    /// Lists `config` as the audio track of its quality, at time `now`.
    pub fn add_audio_track_at(&mut self, config: AudioTrackConfig, now: u64)
        ensures
            final(self).audio() == with_audio_track(old(self).audio(), config@),
            final(self).updated_at == later(old(self).updated_at, now),
            final(self).video_tracks == old(self).video_tracks,
            final(self).name == old(self).name,
            final(self).description == old(self).description,
            final(self).duration_ms == old(self).duration_ms,
            final(self).is_live == old(self).is_live,
            final(self).metadata == old(self).metadata,
    {
        let i = self.audio_position(config.quality);
        let ghost before = self.audio();
        if i < self.audio_tracks.len() {
            self.audio_tracks.set(i, config);
            proof {
                assert(self.audio() =~= before.update(i as int, config@));
            }
        } else {
            self.audio_tracks.push(config);
            proof {
                assert(self.audio() =~= before.push(config@));
            }
        }
        self.touch_at(now);
    }

    /// Lists `config` as the audio track of its quality.
    pub fn add_audio_track(&mut self, config: AudioTrackConfig)
        ensures
            final(self).audio() == with_audio_track(old(self).audio(), config@),
            final(self).updated_at >= old(self).updated_at,
            final(self).video_tracks == old(self).video_tracks,
            final(self).name == old(self).name,
            final(self).description == old(self).description,
            final(self).duration_ms == old(self).duration_ms,
            final(self).is_live == old(self).is_live,
            final(self).metadata == old(self).metadata,
    {
        let now = now_secs();
        self.add_audio_track_at(config, now);
    }

    /// The video track of the requested quality.
    pub fn get_video_track(&self, quality: VideoQuality) -> (r: Option<&VideoTrackConfig>)
        ensures
            match r {
                Some(c) => video_track_of(self.video(), quality) == Some(c@),
                None => video_track_of(self.video(), quality) is None,
            },
    {
        let i = self.video_position(quality);
        if i < self.video_tracks.len() {
            Some(&self.video_tracks[i])
        } else {
            None
        }
    }

    /// The video track of the highest listed quality.
    pub fn best_video_track(&self) -> (r: Option<&VideoTrackConfig>)
        ensures
            match r {
                Some(c) => best_video_track_of(self.video()) == Some(c@),
                None => best_video_track_of(self.video()) is None,
            },
    {
        let high = self.get_video_track(VideoQuality::P1080);
        if high.is_some() {
            return high;
        }
        let hd = self.get_video_track(VideoQuality::P720);
        if hd.is_some() {
            return hd;
        }
        let mid = self.get_video_track(VideoQuality::P360);
        if mid.is_some() {
            return mid;
        }
        self.get_video_track(VideoQuality::P180)
    }

    /// The qualities of the listed video tracks, in the order of the tracks.
    pub fn available_video_qualities(&self) -> (r: Vec<VideoQuality>)
        ensures
            r@ == self.video().map_values(|c: VideoTrackModel| c.quality),
    {
        let mut r: Vec<VideoQuality> = Vec::new();
        let mut i: usize = 0;
        while i < self.video_tracks.len()
            invariant
                0 <= i <= self.video_tracks@.len(),
                r@ == self.video().take(i as int).map_values(|c: VideoTrackModel| c.quality),
            decreases self.video_tracks@.len() - i,
        {
            r.push(self.video_tracks[i].quality);
            proof {
                assert(self.video().take(i + 1).map_values(|c: VideoTrackModel| c.quality) =~= r@);
            }
            i = i + 1;
        }
        proof {
            assert(self.video().take(self.video_tracks@.len() as int) =~= self.video());
        }
        r
    }

    /// Marks the catalog as changed at `now`. The time of the last change
    /// never falls.
    pub fn touch_at(&mut self, now: u64)
        ensures
            *final(self) == (BroadcastCatalog {
                updated_at: later(old(self).updated_at, now),
                ..*old(self)
            }),
    {
        if now > self.updated_at {
            self.updated_at = now;
        }
    }
}

/// Why a text is no ticket.
#[derive(Debug, Clone, Copy, PartialEq, Eq, Structural)]
pub enum TicketError {
    /// The text holds no `@`.
    MissingSeparator,
    /// What stands behind the last `@` is no base32 text.
    InvalidEncoding,
    /// The endpoint id does not hold 32 bytes.
    InvalidLength,
    /// The 32 bytes are no public key.
    InvalidKey,
    /// The decoded bytes are no ticket record.
    InvalidRecord,
}

/// What a short ticket holds, as mathematical values.
pub struct LiveTicketModel {
    pub broadcast_name: Seq<char>,
    pub endpoint_id: Seq<u8>,
}

/// The short ticket: a broadcast's name and the broadcaster's endpoint id.
#[derive(Debug, Clone, PartialEq, Eq)]
pub struct LiveTicket {
    pub broadcast_name: String,
    pub endpoint_id: EndpointId,
}

impl View for LiveTicket {
    type V = LiveTicketModel;

    open spec fn view(&self) -> LiveTicketModel {
        LiveTicketModel { broadcast_name: self.broadcast_name@, endpoint_id: self.endpoint_id@ }
    }
}

/// The string form of a short ticket: the name, an `@`, and the endpoint id
/// in lower-case base32 without padding.
pub open spec fn live_ticket_text(t: LiveTicketModel) -> Seq<char> {
    t.broadcast_name + seq!['@'] + ascii_lower(base32_text(t.endpoint_id))
}

/// What a text stands for as a short ticket: the name before its last `@`
/// and the endpoint id behind it, read as base32 in either case.
pub open spec fn parse_live_ticket(input: Seq<char>) -> Result<LiveTicketModel, TicketError> {
    let at = last_index(input, '@');
    if at < 0 {
        Err(TicketError::MissingSeparator)
    } else {
        match base32_bytes(ascii_upper(input.skip(at + 1))) {
            None => Err(TicketError::InvalidEncoding),
            Some(bytes) => if bytes.len() != 32 {
                Err(TicketError::InvalidLength)
            } else if !is_endpoint_key(bytes) {
                Err(TicketError::InvalidKey)
            } else {
                Ok(LiveTicketModel { broadcast_name: input.take(at), endpoint_id: bytes })
            },
        }
    }
}

impl LiveTicket {
    pub fn new(broadcast_name: &str, endpoint_id: EndpointId) -> (t: Self)
        ensures
            t.broadcast_name@ == broadcast_name@,
            t.endpoint_id == endpoint_id,
    {
        Self { broadcast_name: broadcast_name.to_owned(), endpoint_id }
    }

    /// The ticket's string form. Read back, it gives the ticket again.
    pub fn serialize(&self) -> (s: String)
        ensures
            s@ == live_ticket_text(self@),
            parse_live_ticket(s@) == Ok::<LiveTicketModel, TicketError>(self@),
            s@.len() == self@.broadcast_name.len() + 53,
    {
        proof {
            use_type_invariant(&self.endpoint_id);
        }
        let encoded = crate::base32::encode(self.endpoint_id.as_bytes().as_slice());
        let lower = to_ascii_lowercase(encoded.as_str());
        let mut s = self.broadcast_name.clone();
        proof {
            reveal_strlit("@");
            assert("@"@ =~= seq!['@']);
        }
        s.append("@");
        s.append(lower.as_str());
        proof {
            let name = self.broadcast_name@;
            let at = name.len() as int;
            lemma_case_round_trip(encoded@);
            assert forall|k: int| at < k < s@.len() implies s@[k] != '@' by {
                assert(s@[k] == lower@[k - at - 1]);
            }
            lemma_last_index_is(s@, '@', at);
            assert(s@.skip(at + 1) =~= lower@);
            assert(s@.take(at) =~= name);
        }
        s
    }

    /// The ticket that `input` stands for.
    pub fn deserialize(input: &str) -> (r: Result<Self, TicketError>)
        requires
            input@.len() <= usize::MAX / 32,
        ensures
            match r {
                Ok(t) => parse_live_ticket(input@) == Ok::<LiveTicketModel, TicketError>(t@),
                Err(e) => parse_live_ticket(input@) == Err::<LiveTicketModel, TicketError>(e),
            },
    {
        let n = input.unicode_len();
        let at = match rfind_char(input, '@') {
            Some(at) => at,
            None => {
                return Err(TicketError::MissingSeparator);
            },
        };
        let name = input.substring_char(0, at);
        let id_part = input.substring_char(at + 1, n);
        proof {
            assert(input@.skip(at + 1) =~= input@.subrange(at + 1, n as int));
            assert(input@.take(at as int) =~= input@.subrange(0, at as int));
        }
        let upper = to_ascii_uppercase(id_part);
        let bytes = match crate::base32::decode(upper.as_str()) {
            Ok(bytes) => bytes,
            Err(_) => {
                return Err(TicketError::InvalidEncoding);
            },
        };
        if bytes.len() != 32 {
            return Err(TicketError::InvalidLength);
        }
        match EndpointId::from_slice(bytes.as_slice()) {
            Ok(endpoint_id) => Ok(Self { broadcast_name: name.to_owned(), endpoint_id }),
            Err(_) => Err(TicketError::InvalidKey),
        }
    }

    /// The ticket's string form.
    pub fn to_text(&self) -> (s: String)
        ensures
            s@ == live_ticket_text(self@),
    {
        self.serialize()
    }
}

/// Packet loss is held in parts per million: this many stand for all lost.
pub const LOSS_SCALE: u32 = 1_000_000;

/// The one tunable of the recommendation: a rendition is recommended when
/// the bandwidth is at least this many times its bitrate.
pub const HEADROOM: u64 = 2;

/// Counters and smoothed measurements of one session.
#[derive(Debug, Clone, Copy, PartialEq, Eq, Structural)]
pub struct ConnectionStats {
    pub bytes_sent: u64,
    pub bytes_received: u64,
    pub chunks_sent: u64,
    pub chunks_received: u64,
    /// Smoothed bandwidth estimate.
    pub bandwidth_bps: u64,
    /// Smoothed round-trip time in milliseconds.
    pub rtt_ms: u64,
    /// Lost packets per million.
    pub packet_loss_ppm: u32,
    /// 0 to 100.
    pub quality_score: u32,
    /// Seconds since the Unix epoch.
    pub last_updated: u64,
}

/// The moving average of `old` and a new `sample`: seven parts old, one new.
pub open spec fn smoothed(old: u64, sample: u64) -> u64 {
    ((7 * old + sample) / 8) as u64
}

pub open spec fn rtt_score(rtt_ms: u64) -> u32 {
    if rtt_ms < 50 {
        100
    } else if rtt_ms < 100 {
        80
    } else if rtt_ms < 200 {
        60
    } else if rtt_ms < 500 {
        40
    } else {
        20
    }
}

pub open spec fn bandwidth_score(bandwidth_bps: u64) -> u32 {
    if bandwidth_bps > 5_000_000 {
        100
    } else if bandwidth_bps > 2_500_000 {
        80
    } else if bandwidth_bps > 1_000_000 {
        60
    } else if bandwidth_bps > 500_000 {
        40
    } else {
        20
    }
}

/// The share of packets that arrived, in whole percent.
pub open spec fn loss_score(packet_loss_ppm: u32) -> u32 {
    if packet_loss_ppm >= LOSS_SCALE {
        0
    } else {
        (((LOSS_SCALE - packet_loss_ppm) * 100) / (LOSS_SCALE as int)) as u32
    }
}

/// The mean of the three sub-scores.
pub open spec fn quality_score_of(rtt_ms: u64, bandwidth_bps: u64, packet_loss_ppm: u32) -> u32 {
    ((rtt_score(rtt_ms) + bandwidth_score(bandwidth_bps) + loss_score(packet_loss_ppm)) / 3) as u32
}

/// The highest preset that the bandwidth carries with headroom, else the
/// lowest preset.
pub open spec fn recommended_for(bandwidth_bps: u64) -> VideoQuality {
    let kbps = bandwidth_bps / 1000;
    if kbps >= 5000 * HEADROOM {
        VideoQuality::P1080
    } else if kbps >= 2500 * HEADROOM {
        VideoQuality::P720
    } else if kbps >= 800 * HEADROOM {
        VideoQuality::P360
    } else {
        VideoQuality::P180
    }
}

/// `old` and `sample` smoothed, computed without overflow.
fn smooth(old: u64, sample: u64) -> (r: u64)
    ensures
        r == smoothed(old, sample),
{
    let wide: u128 = (old as u128) * 7 + (sample as u128);
    (wide / 8) as u64
}

impl ConnectionStats {
    /// Statistics with every counter and measurement at zero.
    pub fn new() -> (s: Self)
        ensures
            s == (ConnectionStats {
                bytes_sent: 0,
                bytes_received: 0,
                chunks_sent: 0,
                chunks_received: 0,
                bandwidth_bps: 0,
                rtt_ms: 0,
                packet_loss_ppm: 0,
                quality_score: 0,
                last_updated: 0,
            }),
    {
        ConnectionStats {
            bytes_sent: 0,
            bytes_received: 0,
            chunks_sent: 0,
            chunks_received: 0,
            bandwidth_bps: 0,
            rtt_ms: 0,
            packet_loss_ppm: 0,
            quality_score: 0,
            last_updated: 0,
        }
    }

    /// Counts one chunk of `bytes` bytes as sent.
    pub fn record_sent(&mut self, bytes: u64)
        requires
            old(self).bytes_sent + bytes <= u64::MAX,
            old(self).chunks_sent < u64::MAX,
        ensures
            *final(self) == (ConnectionStats {
                bytes_sent: (old(self).bytes_sent + bytes) as u64,
                chunks_sent: (old(self).chunks_sent + 1) as u64,
                last_updated: final(self).last_updated,
                ..*old(self)
            }),
    {
        self.bytes_sent = self.bytes_sent + bytes;
        self.chunks_sent = self.chunks_sent + 1;
        self.touch();
    }

    /// Counts one chunk of `bytes` bytes as received.
    pub fn record_received(&mut self, bytes: u64)
        requires
            old(self).bytes_received + bytes <= u64::MAX,
            old(self).chunks_received < u64::MAX,
        ensures
            *final(self) == (ConnectionStats {
                bytes_received: (old(self).bytes_received + bytes) as u64,
                chunks_received: (old(self).chunks_received + 1) as u64,
                last_updated: final(self).last_updated,
                ..*old(self)
            }),
    {
        self.bytes_received = self.bytes_received + bytes;
        self.chunks_received = self.chunks_received + 1;
        self.touch();
    }

    /// Takes a round-trip sample into the moving average and renews the score.
    pub fn update_rtt(&mut self, rtt_ms: u64)
        ensures
            *final(self) == (ConnectionStats {
                rtt_ms: smoothed(old(self).rtt_ms, rtt_ms),
                quality_score: quality_score_of(
                    smoothed(old(self).rtt_ms, rtt_ms),
                    old(self).bandwidth_bps,
                    old(self).packet_loss_ppm,
                ),
                last_updated: final(self).last_updated,
                ..*old(self)
            }),
    {
        self.rtt_ms = smooth(self.rtt_ms, rtt_ms);
        self.update_quality_score();
        self.touch();
    }

    /// Takes a bandwidth sample into the moving average and renews the score.
    pub fn update_bandwidth(&mut self, bps: u64)
        ensures
            *final(self) == (ConnectionStats {
                bandwidth_bps: smoothed(old(self).bandwidth_bps, bps),
                quality_score: quality_score_of(
                    old(self).rtt_ms,
                    smoothed(old(self).bandwidth_bps, bps),
                    old(self).packet_loss_ppm,
                ),
                last_updated: final(self).last_updated,
                ..*old(self)
            }),
    {
        self.bandwidth_bps = smooth(self.bandwidth_bps, bps);
        self.update_quality_score();
        self.touch();
    }

    /// Sets the score to the mean of the three sub-scores.
    pub fn update_quality_score(&mut self)
        ensures
            *final(self) == (ConnectionStats {
                quality_score: quality_score_of(
                    old(self).rtt_ms,
                    old(self).bandwidth_bps,
                    old(self).packet_loss_ppm,
                ),
                ..*old(self)
            }),
            final(self).quality_score <= 100,
    {
        let rtt: u32 = if self.rtt_ms < 50 {
            100
        } else if self.rtt_ms < 100 {
            80
        } else if self.rtt_ms < 200 {
            60
        } else if self.rtt_ms < 500 {
            40
        } else {
            20
        };
        let bandwidth: u32 = if self.bandwidth_bps > 5_000_000 {
            100
        } else if self.bandwidth_bps > 2_500_000 {
            80
        } else if self.bandwidth_bps > 1_000_000 {
            60
        } else if self.bandwidth_bps > 500_000 {
            40
        } else {
            20
        };
        let loss: u32 = if self.packet_loss_ppm >= LOSS_SCALE {
            0
        } else {
            (((LOSS_SCALE - self.packet_loss_ppm) as u64 * 100) / (LOSS_SCALE as u64)) as u32
        };
        self.quality_score = (rtt + bandwidth + loss) / 3;
    }

    /// Stamps the statistics with the clock's reading.
    fn touch(&mut self)
        ensures
            *final(self) == (ConnectionStats { last_updated: final(self).last_updated, ..*old(self) }),
    {
        self.last_updated = now_secs();
    }

    /// The video quality that the smoothed bandwidth carries.
    pub fn recommended_quality(&self) -> (q: VideoQuality)
        ensures
            q == recommended_for(self.bandwidth_bps),
    {
        let kbps = self.bandwidth_bps / 1000;
        if kbps >= 5000 * HEADROOM {
            VideoQuality::P1080
        } else if kbps >= 2500 * HEADROOM {
            VideoQuality::P720
        } else if kbps >= 800 * HEADROOM {
            VideoQuality::P360
        } else {
            VideoQuality::P180
        }
    }
}

impl Default for ConnectionStats {
    fn default() -> (s: Self)
        ensures
            s == (ConnectionStats {
                bytes_sent: 0,
                bytes_received: 0,
                chunks_sent: 0,
                chunks_received: 0,
                bandwidth_bps: 0,
                rtt_ms: 0,
                packet_loss_ppm: 0,
                quality_score: 0,
                last_updated: 0,
            }),
    {
        Self::new()
    }
}

} // verus!
