//! The publishing side of a broadcast: renditions, and where each encoded
//! frame goes among the groups and objects of its track.

use vstd::prelude::*;

verus! {

/// Video quality level of a rendition.
#[derive(Debug, Clone, Copy, PartialEq, Eq, Structural)]
pub enum VideoQuality {
    /// 480 lines, 1 Mbps.
    Low,
    /// 720 lines, 2.5 Mbps.
    Medium,
    /// 1080 lines, 5 Mbps.
    High,
}

pub open spec fn quality_suffix(q: VideoQuality) -> Seq<char> {
    match q {
        VideoQuality::Low => "low"@,
        VideoQuality::Medium => "med"@,
        VideoQuality::High => "high"@,
    }
}

pub open spec fn video_bitrate(q: VideoQuality) -> u32 {
    match q {
        VideoQuality::Low => 1_000_000,
        VideoQuality::Medium => 2_500_000,
        VideoQuality::High => 5_000_000,
    }
}

/// The publisher priority of the objects of a rendition: the higher the
/// quality, the higher the number, so that it yields first under congestion.
pub open spec fn video_object_priority(q: VideoQuality) -> u8 {
    match q {
        VideoQuality::Low => 64,
        VideoQuality::Medium => 128,
        VideoQuality::High => 192,
    }
}

/// The priority of a rendition's track among the tracks of a broadcast.
pub open spec fn video_track_priority(q: VideoQuality) -> u8 {
    match q {
        VideoQuality::High => 0,
        VideoQuality::Medium => 1,
        VideoQuality::Low => 2,
    }
}

impl VideoQuality {
    /// Lines of the picture.
    pub fn height(&self) -> (h: u32)
        ensures
            h == match *self {
                VideoQuality::Low => 480u32,
                VideoQuality::Medium => 720u32,
                VideoQuality::High => 1080u32,
            },
    {
        match self {
            VideoQuality::Low => 480,
            VideoQuality::Medium => 720,
            VideoQuality::High => 1080,
        }
    }

    /// Bits per second.
    pub fn bitrate(&self) -> (b: u32)
        ensures
            b == video_bitrate(*self),
    {
        match self {
            VideoQuality::Low => 1_000_000,
            VideoQuality::Medium => 2_500_000,
            VideoQuality::High => 5_000_000,
        }
    }

    /// What stands behind `video.` in the track's name.
    pub fn suffix(&self) -> (s: &'static str)
        ensures
            s@ == quality_suffix(*self),
    {
        match self {
            VideoQuality::Low => "low",
            VideoQuality::Medium => "med",
            VideoQuality::High => "high",
        }
    }

    /// Name of the rendition's track: `video.` and the suffix.
    pub fn track_name(&self) -> (n: String)
        ensures
            n@ == "video."@ + quality_suffix(*self),
    {
        let mut n = "video.".to_owned();
        n.append(self.suffix());
        n
    }

    /// Publisher priority of the rendition's objects.
    pub fn object_priority(&self) -> (p: u8)
        ensures
            p == video_object_priority(*self),
    {
        match self {
            VideoQuality::Low => 64,
            VideoQuality::Medium => 128,
            VideoQuality::High => 192,
        }
    }

    /// Priority of the rendition's track.
    pub fn track_priority(&self) -> (p: u8)
        ensures
            p == video_track_priority(*self),
    {
        match self {
            VideoQuality::High => 0,
            VideoQuality::Medium => 1,
            VideoQuality::Low => 2,
        }
    }
}

/// A rendition of higher bitrate has objects of a higher priority number.
pub proof fn lemma_priority_follows_bitrate(a: VideoQuality, b: VideoQuality)
    ensures
        video_bitrate(a) < video_bitrate(b) <==> video_object_priority(a) < video_object_priority(b),
{
}

/// Audio quality level of a rendition.
#[derive(Debug, Clone, Copy, PartialEq, Eq, Structural)]
pub enum AudioQuality {
    /// 32 kbps.
    Low,
    /// 64 kbps.
    Medium,
    /// 128 kbps.
    High,
}

pub open spec fn audio_quality_suffix(q: AudioQuality) -> Seq<char> {
    match q {
        AudioQuality::Low => "low"@,
        AudioQuality::Medium => "med"@,
        AudioQuality::High => "high"@,
    }
}

impl AudioQuality {
    /// Bits per second.
    pub fn bitrate(&self) -> (b: u32)
        ensures
            b == match *self {
                AudioQuality::Low => 32_000u32,
                AudioQuality::Medium => 64_000u32,
                AudioQuality::High => 128_000u32,
            },
    {
        match self {
            AudioQuality::Low => 32_000,
            AudioQuality::Medium => 64_000,
            AudioQuality::High => 128_000,
        }
    }

    /// What stands behind `audio.` in the track's name.
    pub fn suffix(&self) -> (s: &'static str)
        ensures
            s@ == audio_quality_suffix(*self),
    {
        match self {
            AudioQuality::Low => "low",
            AudioQuality::Medium => "med",
            AudioQuality::High => "high",
        }
    }

    /// Name of the rendition's track: `audio.` and the suffix.
    pub fn track_name(&self) -> (n: String)
        ensures
            n@ == "audio."@ + audio_quality_suffix(*self),
    {
        let mut n = "audio.".to_owned();
        n.append(self.suffix());
        n
    }

    /// Priority of the rendition's track.
    pub fn track_priority(&self) -> (p: u8)
        ensures
            p == match *self {
                AudioQuality::High => 0u8,
                AudioQuality::Medium => 1u8,
                AudioQuality::Low => 2u8,
            },
    {
        match self {
            AudioQuality::High => 0,
            AudioQuality::Medium => 1,
            AudioQuality::Low => 2,
        }
    }
}

/// An encoded video frame ready for transmission.
#[derive(Debug, Clone)]
pub struct EncodedVideoFrame {
    pub data: Vec<u8>,
    /// Presentation timestamp in microseconds.
    pub pts_us: i64,
    pub is_keyframe: bool,
    pub quality: VideoQuality,
}

/// An encoded audio frame ready for transmission.
#[derive(Debug, Clone)]
pub struct EncodedAudioFrame {
    pub data: Vec<u8>,
    /// Presentation timestamp in microseconds.
    pub pts_us: i64,
    pub quality: AudioQuality,
}

/// Where a frame goes in its track.
#[derive(Debug, Clone, Copy, PartialEq, Eq, Structural)]
pub struct FramePlacement {
    /// The frame opens a new group; the group before it, if any, is closed.
    pub starts_group: bool,
    /// Number of the frame's group, counted from 0.
    pub group: u64,
    /// Number of the frame within its group, counted from 0.
    pub object: u64,
}

/// The group that is closed with an end-of-group marker before the frame
/// is written: the group before the one that the frame opens, if there is
/// one. A frame that opens no group closes none.
pub open spec fn closed_before(p: FramePlacement) -> Option<u64> {
    if p.starts_group && p.group > 0 {
        Some((p.group - 1) as u64)
    } else {
        None
    }
}

impl FramePlacement {
    /// The group to close with an end-of-group marker before the frame is
    /// written.
    pub fn closes_group(&self) -> (g: Option<u64>)
        ensures
            g == closed_before(*self),
    {
        if self.starts_group && self.group > 0 {
            Some(self.group - 1)
        } else {
            None
        }
    }
}

/// What a track writer has done so far.
#[derive(Debug, Clone, Copy, PartialEq, Eq, Structural)]
pub struct WriterState {
    /// Number of groups opened.
    pub groups: u64,
    /// Number of frames in the group that is open; 0 while none is open.
    pub in_group: u64,
    pub frames_written: u64,
    pub bytes_written: u64,
}

/// The writer of a track that has written nothing.
pub open spec fn new_writer() -> WriterState {
    WriterState { groups: 0, in_group: 0, frames_written: 0, bytes_written: 0 }
}

/// Where the next frame goes when it does, or does not, open a group.
pub open spec fn placement(w: WriterState, opens: bool) -> FramePlacement {
    if opens {
        FramePlacement { starts_group: true, group: w.groups, object: 0 }
    } else {
        FramePlacement { starts_group: false, group: (w.groups - 1) as u64, object: w.in_group }
    }
}

/// The writer after a frame of `len` bytes that did, or did not, open a group.
pub open spec fn written(w: WriterState, opens: bool, len: nat) -> WriterState {
    WriterState {
        groups: if opens {
            (w.groups + 1) as u64
        } else {
            w.groups
        },
        in_group: if opens {
            1
        } else {
            (w.in_group + 1) as u64
        },
        frames_written: (w.frames_written + 1) as u64,
        bytes_written: (w.bytes_written + len) as u64,
    }
}

/// A video frame opens a group when it is a keyframe, and when no group is
/// open yet.
pub open spec fn video_opens(w: WriterState, is_keyframe: bool) -> bool {
    is_keyframe || w.groups == 0
}

/// Frames of an audio group.
pub const AUDIO_GROUP_FRAMES: u64 = 20;

/// An audio frame opens a group when no group is open yet, and after every
/// 20 frames.
pub open spec fn audio_opens(w: WriterState) -> bool {
    w.groups == 0 || w.frames_written % AUDIO_GROUP_FRAMES == 0
}

/// The counters of a writer have room for one more frame of `len` bytes.
pub open spec fn has_room(w: WriterState, len: nat) -> bool {
    &&& w.groups < u64::MAX
    &&& w.in_group < u64::MAX
    &&& w.frames_written < u64::MAX
    &&& w.bytes_written + len <= u64::MAX
}

/// Decides where the frames of one video track go: each keyframe opens a
/// group, every other frame follows in the open group.
#[derive(Debug, Clone, Copy)]
pub struct VideoTrackWriter {
    quality: VideoQuality,
    state: WriterState,
}

impl VideoTrackWriter {
    pub closed spec fn quality(&self) -> VideoQuality {
        self.quality
    }

    pub closed spec fn state(&self) -> WriterState {
        self.state
    }

    pub fn new(quality: VideoQuality) -> (w: Self)
        ensures
            w.quality() == quality,
            w.state() == new_writer(),
    {
        Self {
            quality,
            state: WriterState { groups: 0, in_group: 0, frames_written: 0, bytes_written: 0 },
        }
    }

    /// Places `frame` and counts it.
    pub fn write_frame(&mut self, frame: &EncodedVideoFrame) -> (p: FramePlacement)
        requires
            has_room(old(self).state(), frame.data@.len()),
        ensures
            final(self).quality() == old(self).quality(),
            p == placement(old(self).state(), video_opens(old(self).state(), frame.is_keyframe)),
            final(self).state() == written(
                old(self).state(),
                video_opens(old(self).state(), frame.is_keyframe),
                frame.data@.len(),
            ),
    {
        let opens = frame.is_keyframe || self.state.groups == 0;
        let p = if opens {
            FramePlacement { starts_group: true, group: self.state.groups, object: 0 }
        } else {
            FramePlacement {
                starts_group: false,
                group: self.state.groups - 1,
                object: self.state.in_group,
            }
        };
        if opens {
            self.state.groups = self.state.groups + 1;
            self.state.in_group = 1;
        } else {
            self.state.in_group = self.state.in_group + 1;
        }
        self.state.frames_written = self.state.frames_written + 1;
        self.state.bytes_written = self.state.bytes_written + frame.data.len() as u64;
        p
    }

    /// Whether the counters have room for one more frame of `len` bytes.
    pub fn has_room_for(&self, len: usize) -> (b: bool)
        ensures
            b == has_room(self.state(), len as nat),
    {
        self.state.groups < u64::MAX && self.state.in_group < u64::MAX && self.state.frames_written
            < u64::MAX && self.state.bytes_written <= u64::MAX - (len as u64)
    }

    /// Frames and bytes written.
    pub fn stats(&self) -> (s: (u64, u64))
        ensures
            s == (self.state().frames_written, self.state().bytes_written),
    {
        (self.state.frames_written, self.state.bytes_written)
    }
}

/// Decides where the frames of one audio track go: a new group every 20
/// frames.
#[derive(Debug, Clone, Copy)]
pub struct AudioTrackWriter {
    quality: AudioQuality,
    state: WriterState,
}

impl AudioTrackWriter {
    pub closed spec fn quality(&self) -> AudioQuality {
        self.quality
    }

    pub closed spec fn state(&self) -> WriterState {
        self.state
    }

    pub fn new(quality: AudioQuality) -> (w: Self)
        ensures
            w.quality() == quality,
            w.state() == new_writer(),
    {
        Self {
            quality,
            state: WriterState { groups: 0, in_group: 0, frames_written: 0, bytes_written: 0 },
        }
    }

    /// Places `frame` and counts it.
    pub fn write_frame(&mut self, frame: &EncodedAudioFrame) -> (p: FramePlacement)
        requires
            has_room(old(self).state(), frame.data@.len()),
        ensures
            final(self).quality() == old(self).quality(),
            p == placement(old(self).state(), audio_opens(old(self).state())),
            final(self).state() == written(
                old(self).state(),
                audio_opens(old(self).state()),
                frame.data@.len(),
            ),
    {
        let opens = self.state.groups == 0 || self.state.frames_written % AUDIO_GROUP_FRAMES == 0;
        let p = if opens {
            FramePlacement { starts_group: true, group: self.state.groups, object: 0 }
        } else {
            FramePlacement {
                starts_group: false,
                group: self.state.groups - 1,
                object: self.state.in_group,
            }
        };
        if opens {
            self.state.groups = self.state.groups + 1;
            self.state.in_group = 1;
        } else {
            self.state.in_group = self.state.in_group + 1;
        }
        self.state.frames_written = self.state.frames_written + 1;
        self.state.bytes_written = self.state.bytes_written + frame.data.len() as u64;
        p
    }

    /// Whether the counters have room for one more frame of `len` bytes.
    pub fn has_room_for(&self, len: usize) -> (b: bool)
        ensures
            b == has_room(self.state(), len as nat),
    {
        self.state.groups < u64::MAX && self.state.in_group < u64::MAX && self.state.frames_written
            < u64::MAX && self.state.bytes_written <= u64::MAX - (len as u64)
    }

    /// Frames and bytes written.
    pub fn stats(&self) -> (s: (u64, u64))
        ensures
            s == (self.state().frames_written, self.state().bytes_written),
    {
        (self.state.frames_written, self.state.bytes_written)
    }
}

/// The writer after the video frames whose keyframe flags are `keyframes`,
/// each of `len` bytes.
pub open spec fn after_video(w: WriterState, keyframes: Seq<bool>, len: nat) -> WriterState
    decreases keyframes.len(),
{
    if keyframes.len() == 0 {
        w
    } else {
        let before = after_video(w, keyframes.drop_last(), len);
        written(before, video_opens(before, keyframes.last()), len)
    }
}

/// Where the last of the video frames `keyframes` went.
pub open spec fn last_video_placement(w: WriterState, keyframes: Seq<bool>, len: nat) -> FramePlacement
    recommends
        keyframes.len() > 0,
{
    let before = after_video(w, keyframes.drop_last(), len);
    placement(before, video_opens(before, keyframes.last()))
}

/// Whether frame `i` of a stream with a keyframe every `interval` frames is
/// a keyframe.
pub open spec fn periodic_keyframes(n: nat, interval: nat) -> Seq<bool> {
    Seq::new(n, |i: int| i % (interval as int) == 0)
}

/// In a stream with a keyframe every `interval` frames, written to a new
/// track, frame `i` is object `i % interval` of group `i / interval`, and
/// the first object of every group is a keyframe.
pub proof fn lemma_periodic_groups(n: nat, interval: nat, len: nat)
    requires
        interval > 0,
        n > 0,
        n * (len + 1) <= u64::MAX,
    ensures
        last_video_placement(new_writer(), periodic_keyframes(n, interval), len) == (FramePlacement {
            starts_group: (n - 1) % (interval as int) == 0,
            group: ((n - 1) / (interval as int)) as u64,
            object: ((n - 1) % (interval as int)) as u64,
        }),
        after_video(new_writer(), periodic_keyframes(n, interval), len) == (WriterState {
            groups: ((n - 1) / (interval as int) + 1) as u64,
            in_group: ((n - 1) % (interval as int) + 1) as u64,
            frames_written: n as u64,
            bytes_written: (n * len) as u64,
        }),
    decreases n,
{
    let frames = periodic_keyframes(n, interval);
    let earlier = frames.drop_last();
    let d = interval as int;
    assert(earlier =~= periodic_keyframes((n - 1) as nat, interval));
    assert(n * (len + 1) == n * len + n) by (nonlinear_arith);
    assert((n - 1) * (len + 1) <= n * (len + 1)) by (nonlinear_arith)
        requires
            n >= 1,
    ;
    assert((n - 1) * len + len == n * len) by (nonlinear_arith);
    assert(0 <= n * len) by (nonlinear_arith);
    let prev = after_video(new_writer(), earlier, len);
    assert(frames.last() == ((n - 1) % d == 0));
    if n == 1 {
        assert(prev == new_writer());
        assert((n - 1) * len == 0) by (nonlinear_arith)
            requires
                n == 1,
        ;
        vstd::arithmetic::div_mod::lemma_small_mod(0, interval);
        vstd::arithmetic::div_mod::lemma_div_basics(d);
        assert(video_opens(prev, frames.last()));
    } else {
        lemma_periodic_groups((n - 1) as nat, interval, len);
        let m = n - 1;
        lemma_next_index(m, d);
        assert(prev.groups == (m - 1) / d + 1);
        assert(prev.in_group == (m - 1) % d + 1);
        assert(prev.frames_written == m);
        assert(prev.bytes_written == m * len);
        assert(video_opens(prev, frames.last()) == (m % d == 0));
    }
}

/// From one index to the next, the place within a period rises by one, or
/// a new period begins.
proof fn lemma_next_index(m: int, d: int)
    requires
        d > 0,
        m >= 1,
    ensures
        0 <= (m - 1) % d < d,
        (m - 1) % d <= m - 1,
        0 <= (m - 1) / d <= m - 1,
        (m - 1) % d + 1 < d ==> m % d == (m - 1) % d + 1 && m / d == (m - 1) / d,
        (m - 1) % d + 1 >= d ==> m % d == 0 && m / d == (m - 1) / d + 1,
{
    let q = (m - 1) / d;
    let r = (m - 1) % d;
    vstd::arithmetic::div_mod::lemma_fundamental_div_mod(m - 1, d);
    vstd::arithmetic::div_mod::lemma_mod_bound(m - 1, d);
    vstd::arithmetic::div_mod::lemma_mod_decreases((m - 1) as nat, d as nat);
    vstd::arithmetic::div_mod::lemma_div_basics_4(m - 1, d);
    vstd::arithmetic::div_mod::lemma_div_basics_5(m - 1, d);
    assert(d * q == q * d) by (nonlinear_arith);
    if r + 1 < d {
        vstd::arithmetic::div_mod::lemma_fundamental_div_mod_converse(m, d, q, r + 1);
    } else {
        assert((q + 1) * d == q * d + d) by (nonlinear_arith);
        vstd::arithmetic::div_mod::lemma_fundamental_div_mod_converse(m, d, q + 1, 0);
    }
}

/// The writer after the video frames `frames`, each given by its keyframe
/// flag and its length.
pub open spec fn after_frames(w: WriterState, frames: Seq<(bool, nat)>) -> WriterState
    decreases frames.len(),
{
    if frames.len() == 0 {
        w
    } else {
        let before = after_frames(w, frames.drop_last());
        written(before, video_opens(before, frames.last().0), frames.last().1)
    }
}

/// Where frame `i` of `frames` goes, written to a new track.
pub open spec fn placement_of(frames: Seq<(bool, nat)>, i: int) -> FramePlacement {
    let before = after_frames(new_writer(), frames.take(i));
    placement(before, video_opens(before, frames[i].0))
}

/// Bytes of the frames.
pub open spec fn total_bytes(frames: Seq<(bool, nat)>) -> nat
    decreases frames.len(),
{
    if frames.len() == 0 {
        0
    } else {
        total_bytes(frames.drop_last()) + frames.last().1
    }
}

/// Frame `i` begins a group: the first frame does, and every keyframe.
pub open spec fn begins_group(frames: Seq<(bool, nat)>, i: int) -> bool {
    i == 0 || frames[i].0
}

/// Number of frames among the first `n` that begin a group.
pub open spec fn groups_begun(frames: Seq<(bool, nat)>, n: nat) -> nat
    decreases n,
{
    if n == 0 {
        0
    } else {
        groups_begun(frames, (n - 1) as nat) + if begins_group(frames, n - 1) {
            1nat
        } else {
            0nat
        }
    }
}

/// The frame that begins the group of frame `i`: the last one up to `i`
/// that begins a group.
pub open spec fn group_start(frames: Seq<(bool, nat)>, i: int) -> int
    decreases i,
{
    if i <= 0 || frames[i].0 {
        i
    } else {
        group_start(frames, i - 1)
    }
}

proof fn lemma_groups_begun_bounds(frames: Seq<(bool, nat)>, n: nat)
    ensures
        groups_begun(frames, n) <= n,
        n >= 1 ==> groups_begun(frames, n) >= 1,
    decreases n,
{
    if n > 0 {
        lemma_groups_begun_bounds(frames, (n - 1) as nat);
    }
}

proof fn lemma_group_start_bounds(frames: Seq<(bool, nat)>, i: int)
    requires
        0 <= i,
    ensures
        0 <= group_start(frames, i) <= i,
        begins_group(frames, group_start(frames, i)),
    decreases i,
{
    if !(i <= 0 || frames[i].0) {
        lemma_group_start_bounds(frames, i - 1);
    }
}

proof fn lemma_total_bytes_of_prefix(frames: Seq<(bool, nat)>, n: int)
    requires
        0 <= n <= frames.len(),
    ensures
        total_bytes(frames.take(n)) <= total_bytes(frames),
    decreases frames.len() - n,
{
    if n < frames.len() {
        lemma_total_bytes_of_prefix(frames, n + 1);
        assert(frames.take(n + 1).drop_last() =~= frames.take(n));
    } else {
        assert(frames.take(n) =~= frames);
    }
}

proof fn lemma_after_frames(frames: Seq<(bool, nat)>, n: int)
    requires
        0 <= n <= frames.len(),
        n <= u64::MAX,
        total_bytes(frames.take(n)) <= u64::MAX,
    ensures
        after_frames(new_writer(), frames.take(n)) == (WriterState {
            groups: groups_begun(frames, n as nat) as u64,
            in_group: if n == 0 {
                0
            } else {
                (n - group_start(frames, n - 1)) as u64
            },
            frames_written: n as u64,
            bytes_written: total_bytes(frames.take(n)) as u64,
        }),
    decreases n,
{
    let now = frames.take(n);
    if n > 0 {
        let m = n - 1;
        assert(now.drop_last() =~= frames.take(m));
        assert(now.last() == frames[m]);
        lemma_after_frames(frames, m);
        lemma_groups_begun_bounds(frames, m as nat);
        lemma_groups_begun_bounds(frames, n as nat);
        lemma_group_start_bounds(frames, m);
        if m > 0 {
            lemma_group_start_bounds(frames, m - 1);
        }
        let before = after_frames(new_writer(), frames.take(m));
        assert(video_opens(before, frames[m].0) == begins_group(frames, m));
    }
}

/// Written to a new track, a video frame opens a group exactly when it is
/// a keyframe or the first frame, so every group after the first begins
/// with a keyframe. The groups are numbered from 0 in the order in which
/// they are opened, and the frames of a group from 0 in the order in which
/// they are written. The counters have room for every frame while the
/// number of the frames and of their bytes can be counted.
pub proof fn lemma_video_groups(frames: Seq<(bool, nat)>, i: int)
    requires
        0 <= i < frames.len(),
        frames.len() <= u64::MAX,
        total_bytes(frames) <= u64::MAX,
    ensures
        has_room(after_frames(new_writer(), frames.take(i)), frames[i].1),
        placement_of(frames, i) == (FramePlacement {
            starts_group: begins_group(frames, i),
            group: (groups_begun(frames, (i + 1) as nat) - 1) as u64,
            object: (i - group_start(frames, i)) as u64,
        }),
        0 <= group_start(frames, i) <= i,
        begins_group(frames, group_start(frames, i)),
{
    lemma_total_bytes_of_prefix(frames, i);
    lemma_total_bytes_of_prefix(frames, i + 1);
    assert(frames.take(i + 1).drop_last() =~= frames.take(i));
    assert(frames.take(i + 1).last() == frames[i]);
    lemma_after_frames(frames, i);
    lemma_groups_begun_bounds(frames, i as nat);
    lemma_groups_begun_bounds(frames, (i + 1) as nat);
    lemma_group_start_bounds(frames, i);
    if i > 0 {
        lemma_group_start_bounds(frames, i - 1);
    }
    let before = after_frames(new_writer(), frames.take(i));
    assert(video_opens(before, frames[i].0) == begins_group(frames, i));
}

/// The video renditions of a broadcast, one writer each.
pub struct VideoRenditions {
    tracks: Vec<VideoTrackWriter>,
}

impl VideoRenditions {
    /// The writers, in the order of the renditions.
    pub closed spec fn writers(&self) -> Seq<VideoTrackWriter> {
        self.tracks@
    }

    /// One writer for each of `qualities`, in order.
    pub fn new(qualities: &[VideoQuality]) -> (r: Self)
        ensures
            r.writers().len() == qualities@.len(),
            forall|i: int|
                0 <= i < qualities@.len() ==> (#[trigger] r.writers()[i]).quality() == qualities@[i]
                    && r.writers()[i].state() == new_writer(),
    {
        let mut tracks: Vec<VideoTrackWriter> = Vec::new();
        let mut i: usize = 0;
        while i < qualities.len()
            invariant
                0 <= i <= qualities@.len(),
                tracks@.len() == i,
                forall|k: int|
                    0 <= k < i ==> (#[trigger] tracks@[k]).quality() == qualities@[k]
                        && tracks@[k].state() == new_writer(),
            decreases qualities@.len() - i,
        {
            tracks.push(VideoTrackWriter::new(qualities[i]));
            i = i + 1;
        }
        Self { tracks }
    }

    /// The rendition that takes a frame of quality `q`: the first of that
    /// quality; where there is none, the only rendition if there is but one.
    pub open spec fn route(&self, q: VideoQuality) -> Option<int> {
        if exists|i: int| 0 <= i < self.writers().len() && self.writers()[i].quality() == q {
            Some(
                choose|i: int|
                    0 <= i < self.writers().len() && self.writers()[i].quality() == q && forall|
                        k: int,
                    |
                        0 <= k < i ==> self.writers()[k].quality() != q,
            )
        } else if self.writers().len() == 1 {
            Some(0)
        } else {
            None
        }
    }

    /// Where a frame of quality `q` is routed.
    fn find(&self, q: VideoQuality) -> (r: Option<usize>)
        ensures
            match r {
                Some(i) => self.route(q) == Some(i as int) && i < self.writers().len(),
                None => self.route(q) is None,
            },
    {
        let mut i: usize = 0;
        while i < self.tracks.len()
            invariant
                0 <= i <= self.tracks@.len(),
                forall|k: int| 0 <= k < i ==> self.writers()[k].quality() != q,
            decreases self.tracks@.len() - i,
        {
            if self.tracks[i].quality == q {
                proof {
                    let c = choose|c: int|
                        0 <= c < self.writers().len() && self.writers()[c].quality() == q && forall|
                            k: int,
                        |
                            0 <= k < c ==> self.writers()[k].quality() != q;
                    assert(c == i);
                }
                return Some(i);
            }
            i = i + 1;
        }
        if self.tracks.len() == 1 {
            Some(0)
        } else {
            None
        }
    }

    /// Hands `frame` to the rendition of its quality and says which
    /// rendition took it and where the frame goes. A frame that no
    /// rendition takes changes nothing.
    pub fn write_frame(&mut self, frame: &EncodedVideoFrame) -> (r: Option<(usize, FramePlacement)>)
        requires
            forall|i: int|
                0 <= i < old(self).writers().len() ==> has_room(
                    (#[trigger] old(self).writers()[i]).state(),
                    frame.data@.len(),
                ),
        ensures
            final(self).writers().len() == old(self).writers().len(),
            match old(self).route(frame.quality) {
                None => r is None && final(self).writers() == old(self).writers(),
                Some(i) => {
                    let before = old(self).writers()[i].state();
                    let opens = video_opens(before, frame.is_keyframe);
                    &&& r == Some((i as usize, placement(before, opens)))
                    &&& final(self).writers()[i].state() == written(before, opens, frame.data@.len())
                    &&& final(self).writers()[i].quality() == old(self).writers()[i].quality()
                    &&& forall|k: int|
                        0 <= k < old(self).writers().len() && k != i ==> final(self).writers()[k]
                            == old(self).writers()[k]
                },
            },
    {
        match self.find(frame.quality) {
            None => None,
            Some(i) => {
                let p = self.tracks[i].write_frame(frame);
                Some((i, p))
            },
        }
    }

    /// Whether every rendition's counters have room for one more frame of
    /// `len` bytes.
    pub fn has_room_for(&self, len: usize) -> (b: bool)
        ensures
            b == forall|i: int|
                0 <= i < self.writers().len() ==> has_room(
                    (#[trigger] self.writers()[i]).state(),
                    len as nat,
                ),
    {
        let mut i: usize = 0;
        while i < self.tracks.len()
            invariant
                0 <= i <= self.tracks@.len(),
                forall|k: int|
                    0 <= k < i ==> has_room((#[trigger] self.writers()[k]).state(), len as nat),
            decreases self.tracks@.len() - i,
        {
            if !self.tracks[i].has_room_for(len) {
                assert(!has_room(self.writers()[i as int].state(), len as nat));
                return false;
            }
            i = i + 1;
        }
        true
    }

    /// The state of the first rendition's writer.
    pub fn primary(&self) -> (w: Option<&VideoTrackWriter>)
        ensures
            match w {
                Some(writer) => self.writers().len() > 0 && *writer == self.writers()[0],
                None => self.writers().len() == 0,
            },
    {
        if self.tracks.len() > 0 {
            Some(&self.tracks[0])
        } else {
            None
        }
    }
}

/// A command to the publisher of a broadcast.
#[derive(Debug, Clone)]
pub enum PublishCommand {
    PushVideo(EncodedVideoFrame),
    PushAudio(EncodedAudioFrame),
    Stop,
}

/// How a broadcast is published.
#[derive(Debug, Clone)]
pub struct PublishConfig {
    pub name: String,
    pub video_qualities: Vec<VideoQuality>,
    pub audio_qualities: Vec<AudioQuality>,
}

impl Default for PublishConfig {
    fn default() -> (c: Self)
        ensures
            c.name@ == "broadcast"@,
            c.video_qualities@ == seq![VideoQuality::Medium],
            c.audio_qualities@ == seq![AudioQuality::Medium],
    {
        let mut video_qualities: Vec<VideoQuality> = Vec::new();
        video_qualities.push(VideoQuality::Medium);
        let mut audio_qualities: Vec<AudioQuality> = Vec::new();
        audio_qualities.push(AudioQuality::Medium);
        proof {
            assert(video_qualities@ =~= seq![VideoQuality::Medium]);
            assert(audio_qualities@ =~= seq![AudioQuality::Medium]);
        }
        Self { name: "broadcast".to_owned(), video_qualities, audio_qualities }
    }
}

/// Builds the configuration of a publisher.
pub struct PublishBroadcastBuilder {
    config: PublishConfig,
}

impl PublishBroadcastBuilder {
    pub closed spec fn config(&self) -> PublishConfig {
        self.config
    }

    /// A builder for the broadcast `name` with one medium video and one
    /// medium audio rendition.
    pub fn new(name: &str) -> (b: Self)
        ensures
            b.config().name@ == name@,
            b.config().video_qualities@ == seq![VideoQuality::Medium],
            b.config().audio_qualities@ == seq![AudioQuality::Medium],
    {
        let mut config = PublishConfig::default();
        config.name = name.to_owned();
        Self { config }
    }

    pub fn video_qualities(self, qualities: Vec<VideoQuality>) -> (b: Self)
        ensures
            b.config() == (PublishConfig { video_qualities: qualities, ..self.config() }),
    {
        let mut b = self;
        b.config.video_qualities = qualities;
        b
    }

    pub fn audio_qualities(self, qualities: Vec<AudioQuality>) -> (b: Self)
        ensures
            b.config() == (PublishConfig { audio_qualities: qualities, ..self.config() }),
    {
        let mut b = self;
        b.config.audio_qualities = qualities;
        b
    }

    /// The configuration that was built.
    pub fn build(self) -> (c: PublishConfig)
        ensures
            c == self.config(),
    {
        self.config
    }
}

} // verus!
