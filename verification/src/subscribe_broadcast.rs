//! The subscribing side of a broadcast: which track is read, what happens to
//! each frame that arrives, and the bounded buffer in front of the decoder.

use vstd::prelude::*;
use crate::text::str_eq;

verus! {

/// A received video frame.
#[derive(Debug, Clone)]
pub struct ReceivedVideoFrame {
    pub data: Vec<u8>,
    /// Name of the track that the frame came from.
    pub track: String,
    /// Number of the frame among those delivered, counted from 1.
    pub sequence: u64,
}

/// A received audio frame.
#[derive(Debug, Clone)]
pub struct ReceivedAudioFrame {
    pub data: Vec<u8>,
    pub track: String,
    pub sequence: u64,
}

/// Frames that a delivery buffer holds when none is asked for.
pub const DEFAULT_BUFFER_SIZE: usize = 64;

/// How a broadcast is subscribed to.
#[derive(Debug, Clone)]
pub struct SubscribeConfig {
    /// What stands behind `video.` in the name of the wanted track.
    pub video_quality: Option<String>,
    /// What stands behind `audio.` in the name of the wanted track.
    pub audio_quality: Option<String>,
    /// Frames that the delivery buffer holds.
    pub buffer_size: usize,
}

impl Default for SubscribeConfig {
    fn default() -> (c: Self)
        ensures
            c.video_quality matches Some(q) && q@ == "med"@,
            c.audio_quality matches Some(q) && q@ == "med"@,
            c.buffer_size == DEFAULT_BUFFER_SIZE,
    {
        Self {
            video_quality: Some("med".to_owned()),
            audio_quality: Some("med".to_owned()),
            buffer_size: DEFAULT_BUFFER_SIZE,
        }
    }
}

/// Name of the track of a kind (`video` or `audio`) and a quality: the kind,
/// a dot and the quality, which is `med` where none is named.
pub open spec fn wanted_track(kind: Seq<char>, quality: Option<Seq<char>>) -> Seq<char> {
    kind + seq!['.'] + match quality {
        Some(q) => q,
        None => "med"@,
    }
}

pub open spec fn quality_text(q: Option<String>) -> Option<Seq<char>> {
    match q {
        Some(s) => Some(s@),
        None => None,
    }
}

fn track_name(kind: &str, quality: &Option<String>) -> (n: String)
    ensures
        n@ == wanted_track(kind@, quality_text(*quality)),
{
    let mut n = kind.to_owned();
    proof {
        reveal_strlit(".");
        assert("."@ =~= seq!['.']);
    }
    n.append(".");
    match quality {
        Some(q) => n.append(q.as_str()),
        None => n.append("med"),
    }
    n
}

impl SubscribeConfig {
    /// Name of the video track that this configuration asks for.
    pub fn video_track_name(&self) -> (n: String)
        ensures
            n@ == wanted_track("video"@, quality_text(self.video_quality)),
    {
        track_name("video", &self.video_quality)
    }

    /// Name of the audio track that this configuration asks for.
    pub fn audio_track_name(&self) -> (n: String)
        ensures
            n@ == wanted_track("audio"@, quality_text(self.audio_quality)),
    {
        track_name("audio", &self.audio_quality)
    }

    pub fn with_video_quality(self, quality: &str) -> (c: Self)
        ensures
            quality_text(c.video_quality) == Some(quality@),
            c.audio_quality == self.audio_quality,
            c.buffer_size == self.buffer_size,
    {
        let mut c = self;
        c.video_quality = Some(quality.to_owned());
        c
    }

    pub fn with_audio_quality(self, quality: &str) -> (c: Self)
        ensures
            quality_text(c.audio_quality) == Some(quality@),
            c.video_quality == self.video_quality,
            c.buffer_size == self.buffer_size,
    {
        let mut c = self;
        c.audio_quality = Some(quality.to_owned());
        c
    }

    pub fn with_buffer_size(self, size: usize) -> (c: Self)
        ensures
            c == (SubscribeConfig { buffer_size: size, ..self }),
    {
        let mut c = self;
        c.buffer_size = size;
        c
    }
}

/// Builds the configuration of a subscriber.
pub struct SubscribeBroadcastBuilder {
    config: SubscribeConfig,
}

impl SubscribeBroadcastBuilder {
    pub closed spec fn config(&self) -> SubscribeConfig {
        self.config
    }

    /// A builder that asks for the medium video and audio tracks and a
    /// buffer of 64 frames.
    pub fn new() -> (b: Self)
        ensures
            quality_text(b.config().video_quality) == Some("med"@),
            quality_text(b.config().audio_quality) == Some("med"@),
            b.config().buffer_size == DEFAULT_BUFFER_SIZE,
    {
        Self { config: SubscribeConfig::default() }
    }

    pub fn video_quality(self, quality: &str) -> (b: Self)
        ensures
            quality_text(b.config().video_quality) == Some(quality@),
            b.config().audio_quality == self.config().audio_quality,
            b.config().buffer_size == self.config().buffer_size,
    {
        Self { config: self.config.with_video_quality(quality) }
    }

    pub fn audio_quality(self, quality: &str) -> (b: Self)
        ensures
            quality_text(b.config().audio_quality) == Some(quality@),
            b.config().video_quality == self.config().video_quality,
            b.config().buffer_size == self.config().buffer_size,
    {
        Self { config: self.config.with_audio_quality(quality) }
    }

    pub fn buffer_size(self, size: usize) -> (b: Self)
        ensures
            b.config() == (SubscribeConfig { buffer_size: size, ..self.config() }),
    {
        Self { config: self.config.with_buffer_size(size) }
    }

    /// The configuration that was built.
    pub fn build(self) -> (c: SubscribeConfig)
        ensures
            c == self.config(),
    {
        self.config
    }
}

/// Where a subscription stands, as mathematical values.
pub enum PhaseModel {
    /// The subscription was asked for and not answered yet.
    Requested { track: Seq<char> },
    /// Frames of `track` are delivered.
    Active { track: Seq<char> },
    /// Frames of `old` are delivered until a keyframe of `new` arrives.
    Switching { old: Seq<char>, new: Seq<char> },
    /// Nothing is delivered any more.
    Ended,
}

/// Where a subscription stands.
#[derive(Debug, Clone)]
pub enum Phase {
    Requested { track: String },
    Active { track: String },
    Switching { old: String, new: String },
    Ended,
}

impl View for Phase {
    type V = PhaseModel;

    open spec fn view(&self) -> PhaseModel {
        match self {
            Phase::Requested { track } => PhaseModel::Requested { track: track@ },
            Phase::Active { track } => PhaseModel::Active { track: track@ },
            Phase::Switching { old, new } => PhaseModel::Switching { old: old@, new: new@ },
            Phase::Ended => PhaseModel::Ended,
        }
    }
}

/// What the pipeline does with a frame that arrived.
#[derive(Debug, Clone, Copy, PartialEq, Eq, Structural)]
pub enum FrameVerdict {
    /// The frame goes to the output with this sequence number.
    Deliver { sequence: u64 },
    /// The frame goes to the output with this sequence number, the output
    /// has moved to the new track, and the old track is unsubscribed.
    DeliverAndSwitch { sequence: u64 },
    /// The frame is not for the output.
    Skip,
}

/// What the pipeline sends to the publisher after a request.
#[derive(Debug, Clone, Copy, PartialEq, Eq, Structural)]
pub enum ControlAction {
    /// Nothing.
    Nothing,
    /// A subscription update that names the new track.
    SendSubscribeUpdate,
    /// An unsubscribe for every track that is subscribed.
    SendUnsubscribe,
    /// The output is closed once the pending frames are drained.
    CloseOutput,
}

/// What a frame means for a subscription in phase `phase` that has
/// delivered `delivered` frames: the next phase, whether the frame is
/// delivered, and whether the output moves to the new track.
pub open spec fn frame_step(phase: PhaseModel, track: Seq<char>, is_keyframe: bool) -> (
    PhaseModel,
    bool,
    bool,
) {
    match phase {
        PhaseModel::Active { track: current } => (phase, track == current, false),
        PhaseModel::Switching { old, new } => if track == new && is_keyframe {
            (PhaseModel::Active { track: new }, true, true)
        } else if track == old && old != new {
            (phase, true, false)
        } else {
            (phase, false, false)
        },
        _ => (phase, false, false),
    }
}

/// The phase after a rendition was asked for: an active subscription starts
/// to switch, one that switches changes its goal, and asking for the track
/// that is delivered ends a switch.
pub open spec fn rendition_step(phase: PhaseModel, wanted: Seq<char>) -> PhaseModel {
    match phase {
        PhaseModel::Active { track } => if track == wanted {
            phase
        } else {
            PhaseModel::Switching { old: track, new: wanted }
        },
        PhaseModel::Switching { old, new } => if old == wanted {
            PhaseModel::Active { track: old }
        } else {
            PhaseModel::Switching { old, new: wanted }
        },
        _ => phase,
    }
}

/// One subscription of a viewer.
#[derive(Debug, Clone)]
pub struct Subscription {
    phase: Phase,
    delivered: u64,
}

impl Subscription {
    pub closed spec fn phase(&self) -> PhaseModel {
        self.phase@
    }

    /// Number of frames delivered so far.
    pub closed spec fn delivered(&self) -> u64 {
        self.delivered
    }

    /// A subscription to `track` that waits for its answer.
    pub fn new(track: &str) -> (s: Self)
        ensures
            s.phase() == (PhaseModel::Requested { track: track@ }),
            s.delivered() == 0,
    {
        Self { phase: Phase::Requested { track: track.to_owned() }, delivered: 0 }
    }

    /// The publisher has accepted the subscription.
    pub fn on_subscribe_ok(&mut self)
        ensures
            final(self).delivered() == old(self).delivered(),
            final(self).phase() == match old(self).phase() {
                PhaseModel::Requested { track } => PhaseModel::Active { track },
                other => other,
            },
    {
        let next = match &self.phase {
            Phase::Requested { track } => Some(Phase::Active { track: track.clone() }),
            _ => None,
        };
        match next {
            Some(phase) => {
                self.phase = phase;
            },
            None => {},
        }
    }

    /// A frame of `track` has arrived. Frames that are delivered are
    /// numbered one after the other, across a switch too.
    pub fn on_frame(&mut self, track: &str, is_keyframe: bool) -> (v: FrameVerdict)
        requires
            old(self).delivered() < u64::MAX,
        ensures
            final(self).phase() == frame_step(old(self).phase(), track@, is_keyframe).0,
            ({
                let step = frame_step(old(self).phase(), track@, is_keyframe);
                if step.1 {
                    &&& final(self).delivered() == old(self).delivered() + 1
                    &&& v == if step.2 {
                        FrameVerdict::DeliverAndSwitch { sequence: final(self).delivered() }
                    } else {
                        FrameVerdict::Deliver { sequence: final(self).delivered() }
                    }
                } else {
                    &&& final(self).delivered() == old(self).delivered()
                    &&& v == FrameVerdict::Skip
                }
            }),
    {
        let (deliver, switch_to) = match &self.phase {
            Phase::Active { track: current } => (str_eq(track, current.as_str()), None),
            Phase::Switching { old, new } => {
                if str_eq(track, new.as_str()) && is_keyframe {
                    (true, Some(new.clone()))
                } else if str_eq(track, old.as_str()) && !str_eq(old.as_str(), new.as_str()) {
                    (true, None)
                } else {
                    (false, None)
                }
            },
            _ => (false, None),
        };
        if !deliver {
            return FrameVerdict::Skip;
        }
        self.delivered = self.delivered + 1;
        match switch_to {
            Some(new) => {
                self.phase = Phase::Active { track: new };
                FrameVerdict::DeliverAndSwitch { sequence: self.delivered }
            },
            None => FrameVerdict::Deliver { sequence: self.delivered },
        }
    }

    /// The viewer asks for the rendition `wanted`.
    pub fn request_rendition(&mut self, wanted: &str) -> (a: ControlAction)
        ensures
            final(self).delivered() == old(self).delivered(),
            final(self).phase() == rendition_step(old(self).phase(), wanted@),
            a == if final(self).phase() is Switching && final(self).phase() != old(self).phase() {
                ControlAction::SendSubscribeUpdate
            } else {
                ControlAction::Nothing
            },
    {
        let next = match &self.phase {
            Phase::Active { track } => if str_eq(track.as_str(), wanted) {
                None
            } else {
                Some(Phase::Switching { old: track.clone(), new: wanted.to_owned() })
            },
            Phase::Switching { old, new } => if str_eq(old.as_str(), wanted) {
                Some(Phase::Active { track: old.clone() })
            } else if str_eq(new.as_str(), wanted) {
                None
            } else {
                Some(Phase::Switching { old: old.clone(), new: wanted.to_owned() })
            },
            _ => None,
        };
        match next {
            Some(phase) => {
                let switching = match &phase {
                    Phase::Switching { .. } => true,
                    _ => false,
                };
                self.phase = phase;
                if switching {
                    ControlAction::SendSubscribeUpdate
                } else {
                    ControlAction::Nothing
                }
            },
            None => ControlAction::Nothing,
        }
    }

    /// The publisher is done with the subscription, or the stream was
    /// reset: the subscription ends, and the output closes once it is
    /// drained.
    pub fn on_done(&mut self) -> (a: ControlAction)
        ensures
            final(self).delivered() == old(self).delivered(),
            final(self).phase() is Ended,
            a == if old(self).phase() is Ended {
                ControlAction::Nothing
            } else {
                ControlAction::CloseOutput
            },
    {
        let ended = match &self.phase {
            Phase::Ended => true,
            _ => false,
        };
        self.phase = Phase::Ended;
        if ended {
            ControlAction::Nothing
        } else {
            ControlAction::CloseOutput
        }
    }

    /// The viewer stops the subscription: it ends and the publisher is told
    /// so. Stopping again does nothing.
    pub fn stop(&mut self) -> (a: ControlAction)
        ensures
            final(self).delivered() == old(self).delivered(),
            final(self).phase() is Ended,
            a == if old(self).phase() is Ended {
                ControlAction::Nothing
            } else {
                ControlAction::SendUnsubscribe
            },
    {
        let ended = match &self.phase {
            Phase::Ended => true,
            _ => false,
        };
        self.phase = Phase::Ended;
        if ended {
            ControlAction::Nothing
        } else {
            ControlAction::SendUnsubscribe
        }
    }

    /// Whether frames are handed on: the subscription is active or
    /// switches.
    pub fn is_delivering(&self) -> (b: bool)
        ensures
            b == (self.phase() is Active || self.phase() is Switching),
    {
        match &self.phase {
            Phase::Active { .. } => true,
            Phase::Switching { .. } => true,
            _ => false,
        }
    }

    pub fn is_ended(&self) -> (b: bool)
        ensures
            b == (self.phase() is Ended),
    {
        match &self.phase {
            Phase::Ended => true,
            _ => false,
        }
    }

    /// Name of the track whose frames are delivered.
    pub fn current_track(&self) -> (t: Option<String>)
        ensures
            quality_text(t) == match self.phase() {
                PhaseModel::Active { track } => Some(track),
                PhaseModel::Switching { old, .. } => Some(old),
                _ => None,
            },
    {
        match &self.phase {
            Phase::Active { track } => Some(track.clone()),
            Phase::Switching { old, .. } => Some(old.clone()),
            _ => None,
        }
    }

    /// Frames delivered so far.
    pub fn frames_delivered(&self) -> (n: u64)
        ensures
            n == self.delivered(),
    {
        self.delivered
    }
}

/// A subscription that has ended stays ended, whatever arrives.
pub proof fn lemma_ended_is_final(track: Seq<char>, is_keyframe: bool, wanted: Seq<char>)
    ensures
        frame_step(PhaseModel::Ended, track, is_keyframe) == (PhaseModel::Ended, false, false),
        rendition_step(PhaseModel::Ended, wanted) == PhaseModel::Ended,
{
}

/// While a subscription switches, the output stays on the old track until
/// a keyframe of the new track arrives, and that keyframe is the first
/// frame of the new track that is delivered.
pub proof fn lemma_switch_at_keyframe(old: Seq<char>, new: Seq<char>, track: Seq<char>, is_keyframe: bool)
    requires
        old != new,
    ensures
        ({
            let step = frame_step(PhaseModel::Switching { old, new }, track, is_keyframe);
            &&& step.2 <==> (track == new && is_keyframe)
            &&& step.1 <==> ((track == new && is_keyframe) || track == old)
            &&& step.0 == if track == new && is_keyframe {
                PhaseModel::Active { track: new }
            } else {
                PhaseModel::Switching { old, new }
            }
        }),
{
}

/// The frames that wait for the decoder, oldest first, and never more than
/// the capacity.
pub struct FrameBuffer {
    frames: Vec<ReceivedVideoFrame>,
    capacity: usize,
}

/// What a buffered frame holds, as mathematical values.
pub struct FrameModel {
    pub data: Seq<u8>,
    pub track: Seq<char>,
    pub sequence: u64,
}

impl View for ReceivedVideoFrame {
    type V = FrameModel;

    open spec fn view(&self) -> FrameModel {
        FrameModel { data: self.data@, track: self.track@, sequence: self.sequence }
    }
}

pub open spec fn frame_models(v: Seq<ReceivedVideoFrame>) -> Seq<FrameModel> {
    v.map_values(|f: ReceivedVideoFrame| f@)
}

impl FrameBuffer {
    /// The waiting frames, oldest first.
    pub closed spec fn frames(&self) -> Seq<FrameModel> {
        frame_models(self.frames@)
    }

    pub closed spec fn capacity(&self) -> nat {
        self.capacity as nat
    }

    /// No more frames wait than the capacity.
    pub open spec fn wf(&self) -> bool {
        self.frames().len() <= self.capacity()
    }

    pub fn new(capacity: usize) -> (b: Self)
        ensures
            b.wf(),
            b.frames() == Seq::<FrameModel>::empty(),
            b.capacity() == capacity,
    {
        let b = Self { frames: Vec::new(), capacity };
        proof {
            assert(frame_models(b.frames@) =~= Seq::empty());
        }
        b
    }

    /// Takes `frame` in where there is room. Where there is none, the frame
    /// comes back and nothing changes: the reader has to wait, no frame is
    /// dropped.
    pub fn offer(&mut self, frame: ReceivedVideoFrame) -> (back: Option<ReceivedVideoFrame>)
        ensures
            old(self).wf() ==> final(self).wf(),
            final(self).capacity() == old(self).capacity(),
            old(self).frames().len() < old(self).capacity() ==> back is None && final(self).frames()
                == old(self).frames().push(frame@),
            old(self).frames().len() >= old(self).capacity() ==> back == Some(frame) && final(self).frames() == old(self).frames(),
    {
        if self.frames.len() < self.capacity {
            let ghost before = self.frames@;
            self.frames.push(frame);
            proof {
                assert(frame_models(self.frames@) =~= frame_models(before).push(frame@));
            }
            None
        } else {
            Some(frame)
        }
    }

    /// Takes the oldest frame out.
    pub fn take(&mut self) -> (r: Option<ReceivedVideoFrame>)
        ensures
            old(self).wf() ==> final(self).wf(),
            final(self).capacity() == old(self).capacity(),
            old(self).frames().len() == 0 ==> r is None && final(self).frames() == old(self).frames(),
            old(self).frames().len() > 0 ==> r is Some && r->0@ == old(self).frames()[0] && final(self).frames() == old(self).frames().skip(1),
    {
        if self.frames.len() == 0 {
            None
        } else {
            let ghost before = self.frames@;
            let frame = self.frames.remove(0);
            proof {
                assert(frame_models(self.frames@) =~= frame_models(before).skip(1));
            }
            Some(frame)
        }
    }

    pub fn len(&self) -> (n: usize)
        ensures
            n == self.frames().len(),
    {
        self.frames.len()
    }

    pub fn is_full(&self) -> (b: bool)
        ensures
            b == (self.frames().len() >= self.capacity()),
    {
        self.frames.len() >= self.capacity
    }
}

/// What each of `frames` holds.
pub open spec fn payloads(frames: Seq<Vec<u8>>) -> Seq<Seq<u8>> {
    frames.map_values(|f: Vec<u8>| f@)
}

/// The frames with the payloads `payloads` as the reader of the track
/// `track` hands them on after `sent` frames: numbered one after the other
/// from `sent + 1`, in the order in which they were read.
pub open spec fn numbered(payloads: Seq<Seq<u8>>, track: Seq<char>, sent: u64) -> Seq<FrameModel> {
    Seq::new(
        payloads.len(),
        |i: int| FrameModel { data: payloads[i], track, sequence: (sent + 1 + i) as u64 },
    )
}

/// The reader of one video track: it numbers the frames that it reads and
/// hands them to the output.
#[derive(Debug, Clone)]
pub struct WatchTrack {
    name: String,
    frame_count: u64,
}

impl WatchTrack {
    /// Name of the track that is read.
    pub closed spec fn name(&self) -> Seq<char> {
        self.name@
    }

    /// Number of frames handed to the output so far.
    pub closed spec fn sent(&self) -> u64 {
        self.frame_count
    }

    /// A reader of the track `name` that has handed on no frame.
    pub fn new(name: String) -> (t: Self)
        ensures
            t.name() == name@,
            t.sent() == 0,
    {
        WatchTrack { name, frame_count: 0 }
    }

    /// Name of the track that is read.
    pub fn rendition(&self) -> (n: &str)
        ensures
            n@ == self.name(),
    {
        self.name.as_str()
    }

    /// Number of frames handed to the output so far.
    pub fn frame_count(&self) -> (n: u64)
        ensures
            n == self.sent(),
    {
        self.frame_count
    }

    /// Hands one frame that was read to the output, with the next sequence
    /// number. An output that is full takes nothing: the frame is handed
    /// back, no number is used, and the reader waits.
    pub fn send(&mut self, output: &mut FrameBuffer, data: Vec<u8>) -> (held: Option<Vec<u8>>)
        requires
            old(self).sent() < u64::MAX,
        ensures
            old(output).wf() ==> final(output).wf(),
            final(output).capacity() == old(output).capacity(),
            final(self).name() == old(self).name(),
            old(output).frames().len() < old(output).capacity() ==> held is None && final(self).sent()
                == old(self).sent() + 1 && final(output).frames() == old(output).frames().push(
                FrameModel { data: data@, track: old(self).name(), sequence: final(self).sent() },
            ),
            old(output).frames().len() >= old(output).capacity() ==> held == Some(data) && final(self).sent() == old(self).sent() && final(output).frames() == old(output).frames(),
    {
        let frame = ReceivedVideoFrame {
            data,
            track: self.name.clone(),
            sequence: self.frame_count + 1,
        };
        match output.offer(frame) {
            None => {
                self.frame_count = self.frame_count + 1;
                None
            },
            Some(back) => Some(back.data),
        }
    }

    /// Hands the frames of one group to the output, in the order in which
    /// they were read, while the output has room, and gives back the frames
    /// that wait for room. Every frame that is handed on has the number
    /// that follows the one before it: none is left out and none is used
    /// twice.
    pub fn run(&mut self, output: &mut FrameBuffer, frames: Vec<Vec<u8>>) -> (waiting: Vec<Vec<u8>>)
        requires
            old(output).wf(),
            old(self).sent() + frames@.len() <= u64::MAX,
        ensures
            final(output).wf(),
            final(output).capacity() == old(output).capacity(),
            final(self).name() == old(self).name(),
            ({
                let room = old(output).capacity() - old(output).frames().len();
                let taken = if frames@.len() <= room {
                    frames@.len() as int
                } else {
                    room
                };
                &&& final(self).sent() == old(self).sent() + taken
                &&& final(output).frames() == old(output).frames() + numbered(
                    payloads(frames@).take(taken),
                    old(self).name(),
                    old(self).sent(),
                )
                &&& payloads(waiting@) == payloads(frames@).skip(taken)
            }),
    {
        let ghost all = payloads(frames@);
        let ghost start = output.frames();
        let ghost first = self.sent();
        let ghost name = self.name();
        let mut i: usize = 0;
        proof {
            assert(start + numbered(all.take(0), name, first) =~= start);
        }
        while i < frames.len() && !output.is_full()
            invariant
                all == payloads(frames@),
                start == old(output).frames(),
                first == old(self).sent(),
                name == old(self).name(),
                self.name() == name,
                output.wf(),
                output.capacity() == old(output).capacity(),
                first + frames@.len() <= u64::MAX,
                0 <= i <= frames@.len(),
                self.sent() == first + i,
                output.frames() == start + numbered(all.take(i as int), name, first),
            decreases frames@.len() - i,
        {
            let ghost before = output.frames();
            let data = crate::moq_protocol::object::copy_bytes(&frames[i]);
            let held = self.send(output, data);
            proof {
                assert(held is None);
                assert(all.take(i + 1) =~= all.take(i as int).push(all[i as int]));
                assert(output.frames() =~= start + numbered(all.take(i + 1), name, first));
            }
            i = i + 1;
        }
        let ghost taken = i as int;
        let mut waiting: Vec<Vec<u8>> = Vec::new();
        let mut k: usize = i;
        proof {
            assert(payloads(waiting@) =~= all.skip(taken).take(0));
        }
        while k < frames.len()
            invariant
                all == payloads(frames@),
                all.len() == frames@.len(),
                0 <= taken <= k <= frames@.len(),
                payloads(waiting@) == all.skip(taken).take(k - taken),
            decreases frames@.len() - k,
        {
            let data = crate::moq_protocol::object::copy_bytes(&frames[k]);
            proof {
                assert(all.skip(taken)[k - taken] == all[k as int]);
                assert(all.skip(taken).take(k + 1 - taken) =~= all.skip(taken).take(k - taken).push(
                    all[k as int],
                ));
                assert(payloads(waiting@.push(data)) =~= payloads(waiting@).push(data@));
            }
            waiting.push(data);
            k = k + 1;
        }
        proof {
            assert(all.skip(taken).take(frames@.len() - taken) =~= all.skip(taken));
        }
        waiting
    }
}

impl View for ReceivedAudioFrame {
    type V = FrameModel;

    open spec fn view(&self) -> FrameModel {
        FrameModel { data: self.data@, track: self.track@, sequence: self.sequence }
    }
}

/// The audio frames that wait for the decoder, oldest first, and never
/// more than the capacity. They wait as video frames do.
pub struct AudioBuffer {
    waiting: FrameBuffer,
}

impl AudioBuffer {
    /// The waiting frames, oldest first.
    pub closed spec fn frames(&self) -> Seq<FrameModel> {
        self.waiting.frames()
    }

    pub closed spec fn capacity(&self) -> nat {
        self.waiting.capacity()
    }

    /// No more frames wait than the capacity.
    pub open spec fn wf(&self) -> bool {
        self.frames().len() <= self.capacity()
    }

    pub fn new(capacity: usize) -> (b: Self)
        ensures
            b.wf(),
            b.frames() == Seq::<FrameModel>::empty(),
            b.capacity() == capacity,
    {
        AudioBuffer { waiting: FrameBuffer::new(capacity) }
    }

    /// Takes the oldest frame out.
    pub fn take(&mut self) -> (r: Option<ReceivedAudioFrame>)
        ensures
            old(self).wf() ==> final(self).wf(),
            final(self).capacity() == old(self).capacity(),
            old(self).frames().len() == 0 ==> r is None && final(self).frames() == old(self).frames(),
            old(self).frames().len() > 0 ==> r is Some && r->0@ == old(self).frames()[0] && final(self).frames() == old(self).frames().skip(1),
    {
        match self.waiting.take() {
            None => None,
            Some(f) => Some(ReceivedAudioFrame { data: f.data, track: f.track, sequence: f.sequence }),
        }
    }

    pub fn len(&self) -> (n: usize)
        ensures
            n == self.frames().len(),
    {
        self.waiting.len()
    }

    pub fn is_full(&self) -> (b: bool)
        ensures
            b == (self.frames().len() >= self.capacity()),
    {
        self.waiting.is_full()
    }
}

/// The reader of one audio track: it numbers the frames that it reads and
/// hands them to the output, as the reader of a video track does.
#[derive(Debug, Clone)]
pub struct AudioTrack {
    reader: WatchTrack,
}

impl AudioTrack {
    /// Name of the track that is read.
    pub closed spec fn name(&self) -> Seq<char> {
        self.reader.name()
    }

    /// Number of frames handed to the output so far.
    pub closed spec fn sent(&self) -> u64 {
        self.reader.sent()
    }

    /// A reader of the track `name` that has handed on no frame.
    pub fn new(name: String) -> (t: Self)
        ensures
            t.name() == name@,
            t.sent() == 0,
    {
        AudioTrack { reader: WatchTrack::new(name) }
    }

    /// Name of the track that is read.
    pub fn rendition(&self) -> (n: &str)
        ensures
            n@ == self.name(),
    {
        self.reader.rendition()
    }

    /// Number of frames handed to the output so far.
    pub fn frame_count(&self) -> (n: u64)
        ensures
            n == self.sent(),
    {
        self.reader.frame_count()
    }

    /// Hands the frames of one group to the output, in the order in which
    /// they were read, while the output has room, and gives back the frames
    /// that wait for room. Every frame that is handed on has the number
    /// that follows the one before it.
    pub fn run(&mut self, output: &mut AudioBuffer, frames: Vec<Vec<u8>>) -> (waiting: Vec<Vec<u8>>)
        requires
            old(output).wf(),
            old(self).sent() + frames@.len() <= u64::MAX,
        ensures
            final(output).wf(),
            final(output).capacity() == old(output).capacity(),
            final(self).name() == old(self).name(),
            ({
                let room = old(output).capacity() - old(output).frames().len();
                let taken = if frames@.len() <= room {
                    frames@.len() as int
                } else {
                    room
                };
                &&& final(self).sent() == old(self).sent() + taken
                &&& final(output).frames() == old(output).frames() + numbered(
                    payloads(frames@).take(taken),
                    old(self).name(),
                    old(self).sent(),
                )
                &&& payloads(waiting@) == payloads(frames@).skip(taken)
            }),
    {
        self.reader.run(&mut output.waiting, frames)
    }
}

} // verus!
