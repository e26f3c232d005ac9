//! The viewer's side of a catalog: which version it keeps, which rendition
//! it picks, and a decoder for framed pictures.

use vstd::prelude::*;
use crate::av::AudioCatalogConfig;
use crate::av::AudioPreset;
use crate::av::DecodedFrame;
use crate::av::EncodedPacket;
use crate::av::PlaybackConfig;
use crate::av::Quality;
use crate::av::VideoCatalogConfig;
use crate::av::VideoPreset;
use crate::av::audio_preference;
use crate::av::first_available_audio;
use crate::av::first_available_video;
use crate::av::video_preference;
use crate::av::video_preset_named;
use crate::moq_protocol::lookup::first_index;
use crate::moq_protocol::lookup::lemma_first_index_is;
use crate::moq_protocol::names::texts;
use crate::publish::AudioInfoModel;
use crate::publish::BroadcastCatalog;
use crate::publish::CatalogModel;
use crate::publish::VideoInfoModel;
use crate::publish::audio_track_of;
use crate::publish::frame_header;
use crate::publish::signed_of;
use crate::publish::video_track_of;
use crate::subscribe_broadcast::frame_step;
use crate::subscribe_broadcast::rendition_step;
use crate::subscribe_broadcast::FrameVerdict;
use crate::subscribe_broadcast::PhaseModel;
use crate::subscribe_broadcast::Subscription;
use crate::text::has_infix;
use crate::text::str_eq;
use crate::wire::lemma_parse_put_u32;
use crate::wire::lemma_parse_put_u64;
use crate::wire::lemma_parse_put_u8;
use crate::wire::parse_u32;
use crate::wire::parse_u64;
use crate::wire::parse_u8;
use crate::wire::read_u32;
use crate::wire::read_u64;
use crate::wire::read_u8;

verus! {

/// Whether a reader that has seen the versions up to `seen` takes a catalog
/// of version `version`: the first catalog is taken, and after it only a
/// higher version.
pub open spec fn accepts_version(seen: Option<u32>, version: u32) -> bool {
    match seen {
        None => true,
        Some(highest) => version > highest,
    }
}

/// The highest version seen after a catalog of version `version` was
/// offered.
pub open spec fn after_version(seen: Option<u32>, version: u32) -> Option<u32> {
    if accepts_version(seen, version) {
        Some(version)
    } else {
        seen
    }
}

/// The highest version seen after the catalogs of `versions` were offered,
/// in order.
pub open spec fn after_versions(seen: Option<u32>, versions: Seq<u32>) -> Option<u32>
    decreases versions.len(),
{
    if versions.len() == 0 {
        seen
    } else {
        after_version(after_versions(seen, versions.drop_last()), versions.last())
    }
}

/// The highest version seen never falls.
pub proof fn lemma_versions_rise(seen: Option<u32>, versions: Seq<u32>)
    ensures
        seen matches Some(before) ==> after_versions(seen, versions) matches Some(after) && after
            >= before,
    decreases versions.len(),
{
    if versions.len() > 0 {
        lemma_versions_rise(seen, versions.drop_last());
    }
}

/// A reader that has taken a catalog of version `newer` never later takes
/// one of a lower version, or of the same, whatever it was offered between.
pub proof fn lemma_catalog_monotone(seen: Option<u32>, newer: u32, between: Seq<u32>, older: u32)
    requires
        accepts_version(seen, newer),
        older <= newer,
    ensures
        !accepts_version(after_versions(after_version(seen, newer), between), older),
{
    lemma_versions_rise(after_version(seen, newer), between);
}

/// Whether frames are handed on in a phase: while the delivery is active
/// or switches.
pub open spec fn delivers(phase: Option<PhaseModel>) -> bool {
    phase matches Some(p) && (p is Active || p is Switching)
}

/// The phase of the video delivery after the rendition `wanted` was
/// chosen: a delivery that hands on frames starts to switch, changes the
/// goal of its switch, or ends a switch back to what it delivers; without
/// such a delivery the rendition is asked for from the start.
pub open spec fn watch_step(phase: Option<PhaseModel>, wanted: Seq<char>) -> PhaseModel {
    if delivers(phase) {
        rendition_step(phase->0, wanted)
    } else {
        PhaseModel::Requested { track: wanted }
    }
}

/// After another rendition was chosen, the frames of the old rendition go
/// on until the first keyframe of the new one, which moves the output, and
/// no frame of the new rendition is handed on before it.
pub proof fn lemma_watch_switches_at_keyframe(old: Seq<char>, new: Seq<char>, is_keyframe: bool)
    requires
        old != new,
    ensures
        ({
            let phase = watch_step(Some(PhaseModel::Active { track: old }), new);
            &&& phase == (PhaseModel::Switching { old, new })
            &&& frame_step(phase, old, is_keyframe) == (phase, true, false)
            &&& frame_step(phase, new, false) == (phase, false, false)
            &&& frame_step(phase, new, true) == (PhaseModel::Active { track: new }, true, true)
        }),
{
}

/// Why a rendition cannot be watched.
#[derive(Debug, Clone, Copy, PartialEq, Eq, Structural)]
pub enum SubscribeError {
    /// The catalog lists no renditions of that kind.
    NothingPublished,
    /// No listed rendition suits the preference.
    NoSuitableRendition,
    /// The catalog has no entry under the chosen track's name.
    ConfigNotFound,
}

/// The presets that the track names stand for, in order; a name that
/// stands for none is left out.
pub open spec fn named_video_presets(names: Seq<Seq<char>>) -> Seq<VideoPreset>
    decreases names.len(),
{
    if names.len() == 0 {
        Seq::empty()
    } else {
        let before = named_video_presets(names.drop_last());
        match video_preset_named(names.last()) {
            Some(p) => before.push(p),
            None => before,
        }
    }
}

/// The audio preset that a track name stands for: high quality where it
/// holds `hq`, else low quality where it holds `lq`.
pub open spec fn audio_preset_named(name: Seq<char>) -> Option<AudioPreset> {
    if has_infix(name, "hq"@) {
        Some(AudioPreset::Hq)
    } else if has_infix(name, "lq"@) {
        Some(AudioPreset::Lq)
    } else {
        None
    }
}

pub open spec fn named_audio_presets(names: Seq<Seq<char>>) -> Seq<AudioPreset>
    decreases names.len(),
{
    if names.len() == 0 {
        Seq::empty()
    } else {
        let before = named_audio_presets(names.drop_last());
        match audio_preset_named(names.last()) {
            Some(p) => before.push(p),
            None => before,
        }
    }
}

pub open spec fn video_names(info: VideoInfoModel) -> Seq<Seq<char>> {
    info.renditions.map_values(|r: (Seq<char>, VideoCatalogConfig)| r.0)
}

pub open spec fn audio_names(info: AudioInfoModel) -> Seq<Seq<char>> {
    info.renditions.map_values(|r: (Seq<char>, AudioCatalogConfig)| r.0)
}

/// The video rendition that a viewer of preference `quality` watches: the
/// first preset of the preference that a listed name stands for, with the
/// catalog's entry under that preset's track name.
pub open spec fn video_choice(video: Option<VideoInfoModel>, quality: Quality) -> Result<
    (Seq<char>, VideoCatalogConfig),
    SubscribeError,
> {
    match video {
        None => Err(SubscribeError::NothingPublished),
        Some(info) => match first_available_video(
            video_preference(quality),
            named_video_presets(video_names(info)),
        ) {
            None => Err(SubscribeError::NoSuitableRendition),
            Some(preset) => {
                let i = first_index(video_names(info), video_track_of(preset));
                if i < info.renditions.len() {
                    Ok(info.renditions[i])
                } else {
                    Err(SubscribeError::ConfigNotFound)
                }
            },
        },
    }
}

/// The audio rendition that a viewer of preference `quality` listens to.
pub open spec fn audio_choice(audio: Option<AudioInfoModel>, quality: Quality) -> Result<
    (Seq<char>, AudioCatalogConfig),
    SubscribeError,
> {
    match audio {
        None => Err(SubscribeError::NothingPublished),
        Some(info) => match first_available_audio(
            audio_preference(quality),
            named_audio_presets(audio_names(info)),
        ) {
            None => Err(SubscribeError::NoSuitableRendition),
            Some(preset) => {
                let i = first_index(audio_names(info), audio_track_of(preset));
                if i < info.renditions.len() {
                    Ok(info.renditions[i])
                } else {
                    Err(SubscribeError::ConfigNotFound)
                }
            },
        },
    }
}

/// A video rendition that was chosen.
#[derive(Debug, Clone)]
pub struct WatchSelection {
    pub rendition: String,
    pub config: VideoCatalogConfig,
}

/// An audio rendition that was chosen.
#[derive(Debug, Clone)]
pub struct ListenSelection {
    pub rendition: String,
    pub config: AudioCatalogConfig,
}

/// What a viewer knows of a broadcast: the newest catalog and the tracks
/// that it watches and listens to.
pub struct SubscribeBroadcast {
    catalog: BroadcastCatalog,
    /// Whether a catalog was taken; until then the held catalog is empty.
    taken: bool,
    active_video: Option<String>,
    /// Where the delivery of the watched video stands.
    video_delivery: Option<Subscription>,
    active_audio: Option<String>,
    playback_config: PlaybackConfig,
}

pub open spec fn text_of(t: Option<String>) -> Option<Seq<char>> {
    match t {
        Some(s) => Some(s@),
        None => None,
    }
}

impl SubscribeBroadcast {
    /// The catalog that the viewer holds.
    pub closed spec fn catalog_model(&self) -> CatalogModel {
        self.catalog@
    }

    /// The highest catalog version taken, if any catalog was taken: the
    /// version of the catalog that the viewer holds.
    pub closed spec fn seen(&self) -> Option<u32> {
        if self.taken {
            Some(self.catalog.version)
        } else {
            None
        }
    }

    /// The highest version taken is the version of the held catalog, in
    /// every state of the viewer.
    pub proof fn lemma_seen_is_held(&self)
        ensures
            self.seen() matches Some(v) ==> self.catalog_model().version == v,
    {
    }

    /// Name of the video track that is watched.
    pub closed spec fn watched(&self) -> Option<Seq<char>> {
        text_of(self.active_video)
    }

    /// Name of the audio track that is listened to.
    pub closed spec fn listened(&self) -> Option<Seq<char>> {
        text_of(self.active_audio)
    }

    /// Where the delivery of the watched video stands, while a video is
    /// watched.
    pub closed spec fn video_phase(&self) -> Option<PhaseModel> {
        match self.video_delivery {
            Some(delivery) => Some(delivery.phase()),
            None => None,
        }
    }

    /// Number of video frames delivered since the delivery began.
    pub closed spec fn video_frames(&self) -> u64 {
        match self.video_delivery {
            Some(delivery) => delivery.delivered(),
            None => 0,
        }
    }

    /// A viewer that has seen no catalog and watches nothing.
    pub fn new() -> (s: Self)
        ensures
            s.catalog_model() == (CatalogModel { video: None, audio: None, version: 0 }),
            s.seen() is None,
            s.watched() is None,
            s.listened() is None,
            s.video_phase() is None,
            s.video_frames() == 0,
    {
        Self {
            catalog: BroadcastCatalog::new(),
            taken: false,
            active_video: None,
            video_delivery: None,
            active_audio: None,
            playback_config: PlaybackConfig::default(),
        }
    }

    /// Takes `catalog` if it is the first or newer than every catalog
    /// taken before, and says whether it was taken. A catalog that is no
    /// newer than the held one leaves the held one as it is.
    pub fn update_catalog(&mut self, catalog: BroadcastCatalog) -> (taken: bool)
        ensures
            taken == accepts_version(old(self).seen(), catalog.version),
            final(self).seen() == after_version(old(self).seen(), catalog.version),
            final(self).catalog_model() == if taken {
                catalog@
            } else {
                old(self).catalog_model()
            },
            old(self).seen() is Some && catalog.version <= old(self).catalog_model().version ==> !taken
                && final(self).catalog_model() == old(self).catalog_model(),
            final(self).seen() == Some(final(self).catalog_model().version),
            final(self).watched() == old(self).watched(),
            final(self).video_phase() == old(self).video_phase(),
            final(self).video_frames() == old(self).video_frames(),
            final(self).listened() == old(self).listened(),
    {
        let taken = !self.taken || catalog.version > self.catalog.version;
        if taken {
            self.taken = true;
            self.catalog = catalog;
        }
        taken
    }

    /// The catalog that the viewer holds.
    pub fn catalog(&self) -> (c: BroadcastCatalog)
        ensures
            c@ == self.catalog_model(),
    {
        self.catalog.duplicate()
    }

    pub fn set_playback_config(&mut self, config: PlaybackConfig)
        ensures
            final(self).catalog_model() == old(self).catalog_model(),
            final(self).seen() == old(self).seen(),
            final(self).watched() == old(self).watched(),
            final(self).video_phase() == old(self).video_phase(),
            final(self).video_frames() == old(self).video_frames(),
            final(self).listened() == old(self).listened(),
    {
        self.playback_config = config;
    }

    /// Names of the listed video renditions.
    pub fn video_renditions(&self) -> (r: Vec<String>)
        ensures
            texts(r@) == match self.catalog_model().video {
                Some(info) => video_names(info),
                None => Seq::<Seq<char>>::empty(),
            },
    {
        let mut r: Vec<String> = Vec::new();
        match &self.catalog.video {
            None => {
                proof {
                    assert(texts(r@) =~= Seq::<Seq<char>>::empty());
                }
            },
            Some(info) => {
                let ghost all = video_names(info@);
                let mut i: usize = 0;
                proof {
                    assert(texts(r@) =~= all.take(0));
                }
                while i < info.renditions.len()
                    invariant
                        all == video_names(info@),
                        0 <= i <= info.renditions@.len(),
                        texts(r@) == all.take(i as int),
                    decreases info.renditions@.len() - i,
                {
                    let ghost prev = r@;
                    let name = info.renditions[i].name.clone();
                    r.push(name);
                    proof {
                        assert(all.take(i + 1) =~= all.take(i as int).push(all[i as int]));
                        assert(texts(r@) =~= texts(prev).push(name@));
                    }
                    i = i + 1;
                }
                proof {
                    assert(all.take(info.renditions@.len() as int) =~= all);
                }
            },
        }
        r
    }

    /// Names of the listed audio renditions.
    pub fn audio_renditions(&self) -> (r: Vec<String>)
        ensures
            texts(r@) == match self.catalog_model().audio {
                Some(info) => audio_names(info),
                None => Seq::<Seq<char>>::empty(),
            },
    {
        let mut r: Vec<String> = Vec::new();
        match &self.catalog.audio {
            None => {
                proof {
                    assert(texts(r@) =~= Seq::<Seq<char>>::empty());
                }
            },
            Some(info) => {
                let ghost all = audio_names(info@);
                let mut i: usize = 0;
                proof {
                    assert(texts(r@) =~= all.take(0));
                }
                while i < info.renditions.len()
                    invariant
                        all == audio_names(info@),
                        0 <= i <= info.renditions@.len(),
                        texts(r@) == all.take(i as int),
                    decreases info.renditions@.len() - i,
                {
                    let ghost prev = r@;
                    let name = info.renditions[i].name.clone();
                    r.push(name);
                    proof {
                        assert(all.take(i + 1) =~= all.take(i as int).push(all[i as int]));
                        assert(texts(r@) =~= texts(prev).push(name@));
                    }
                    i = i + 1;
                }
                proof {
                    assert(all.take(info.renditions@.len() as int) =~= all);
                }
            },
        }
        r
    }

    /// Chooses the video rendition for the preference `quality` and
    /// watches it.
    pub fn watch(&mut self, quality: Quality) -> (r: Result<WatchSelection, SubscribeError>)
        ensures
            final(self).catalog_model() == old(self).catalog_model(),
            final(self).seen() == old(self).seen(),
            final(self).listened() == old(self).listened(),
            match video_choice(old(self).catalog_model().video, quality) {
                Ok(choice) => r is Ok && r->Ok_0.rendition@ == choice.0 && r->Ok_0.config
                    == choice.1 && final(self).watched() == Some(choice.0) && final(self).video_phase()
                    == Some(watch_step(old(self).video_phase(), choice.0)),
                Err(e) => r == Err::<WatchSelection, SubscribeError>(e) && final(self).watched()
                    == old(self).watched() && final(self).video_phase() == old(self).video_phase()
                    && final(self).video_frames() == old(self).video_frames(),
            },
    {
        let (name, config) = match &self.catalog.video {
            None => {
                return Err(SubscribeError::NothingPublished);
            },
            Some(info) => {
                let ghost names = video_names(info@);
                let mut available: Vec<VideoPreset> = Vec::new();
                let mut i: usize = 0;
                proof {
                    assert(names.take(0) =~= Seq::<Seq<char>>::empty());
                }
                while i < info.renditions.len()
                    invariant
                        names == video_names(info@),
                        0 <= i <= info.renditions@.len(),
                        available@ == named_video_presets(names.take(i as int)),
                    decreases info.renditions@.len() - i,
                {
                    proof {
                        assert(names.take(i + 1).drop_last() =~= names.take(i as int));
                        assert(names.take(i + 1).last() == info.renditions@[i as int].name@);
                    }
                    match VideoPreset::from_name(info.renditions[i].name.as_str()) {
                        Some(p) => {
                            available.push(p);
                        },
                        None => {},
                    }
                    i = i + 1;
                }
                proof {
                    assert(names.take(info.renditions@.len() as int) =~= names);
                }
                let preset = match quality.select_video(available.as_slice()) {
                    Some(p) => p,
                    None => {
                        return Err(SubscribeError::NoSuitableRendition);
                    },
                };
                let track = preset.track_name();
                let mut k: usize = 0;
                while k < info.renditions.len() && !str_eq(
                    info.renditions[k].name.as_str(),
                    track.as_str(),
                )
                    invariant
                        names == video_names(info@),
                        0 <= k <= info.renditions@.len(),
                        forall|j: int| 0 <= j < k ==> names[j] != track@,
                    decreases info.renditions@.len() - k,
                {
                    k = k + 1;
                }
                proof {
                    lemma_first_index_is(names, track@, k as int);
                }
                if k >= info.renditions.len() {
                    return Err(SubscribeError::ConfigNotFound);
                }
                (info.renditions[k].name.clone(), info.renditions[k].config)
            },
        };
        Ok(self.watch_rendition(name.as_str(), &config))
    }

    /// Watches the rendition `track_name`, in place of the one watched
    /// before. A viewer that is handed the frames of another rendition
    /// goes on with that rendition until the first keyframe of the new
    /// one: the delivery starts to switch, and `on_video_frame` moves the
    /// output at that keyframe. A viewer that is handed no frames yet asks
    /// for the new rendition from the start.
    pub fn watch_rendition(&mut self, track_name: &str, config: &VideoCatalogConfig) -> (w: WatchSelection)
        ensures
            final(self).catalog_model() == old(self).catalog_model(),
            final(self).seen() == old(self).seen(),
            final(self).listened() == old(self).listened(),
            final(self).watched() == Some(track_name@),
            final(self).video_phase() == Some(watch_step(old(self).video_phase(), track_name@)),
            final(self).video_frames() == if delivers(old(self).video_phase()) {
                old(self).video_frames()
            } else {
                0
            },
            w.rendition@ == track_name@,
            w.config == *config,
    {
        self.active_video = Some(track_name.to_owned());
        let delivery = match self.video_delivery.take() {
            Some(d) => if d.is_delivering() {
                let mut d = d;
                let _ = d.request_rendition(track_name);
                d
            } else {
                Subscription::new(track_name)
            },
            None => Subscription::new(track_name),
        };
        self.video_delivery = Some(delivery);
        WatchSelection { rendition: track_name.to_owned(), config: *config }
    }

    /// The publisher has accepted the subscription to the watched video.
    pub fn on_video_subscribed(&mut self)
        ensures
            final(self).catalog_model() == old(self).catalog_model(),
            final(self).seen() == old(self).seen(),
            final(self).listened() == old(self).listened(),
            final(self).watched() == old(self).watched(),
            final(self).video_frames() == old(self).video_frames(),
            final(self).video_phase() == match old(self).video_phase() {
                Some(PhaseModel::Requested { track }) => Some(PhaseModel::Active { track }),
                other => other,
            },
    {
        match self.video_delivery.take() {
            Some(d) => {
                let mut d = d;
                d.on_subscribe_ok();
                self.video_delivery = Some(d);
            },
            None => {},
        }
    }

    /// A video frame of `track` has arrived. While the delivery switches,
    /// a frame of the old rendition is still handed on; the first keyframe
    /// of the new rendition is handed on and moves the output; frames that
    /// are handed on are numbered one after the other, across the switch
    /// too.
    pub fn on_video_frame(&mut self, track: &str, is_keyframe: bool) -> (v: FrameVerdict)
        requires
            old(self).video_frames() < u64::MAX,
        ensures
            final(self).catalog_model() == old(self).catalog_model(),
            final(self).seen() == old(self).seen(),
            final(self).listened() == old(self).listened(),
            final(self).watched() == old(self).watched(),
            match old(self).video_phase() {
                None => v == FrameVerdict::Skip && final(self).video_phase() is None && final(self).video_frames() == 0,
                Some(phase) => {
                    let step = frame_step(phase, track@, is_keyframe);
                    &&& final(self).video_phase() == Some(step.0)
                    &&& final(self).video_frames() == if step.1 {
                        (old(self).video_frames() + 1) as u64
                    } else {
                        old(self).video_frames()
                    }
                    &&& v == if !step.1 {
                        FrameVerdict::Skip
                    } else if step.2 {
                        FrameVerdict::DeliverAndSwitch { sequence: final(self).video_frames() }
                    } else {
                        FrameVerdict::Deliver { sequence: final(self).video_frames() }
                    }
                },
            },
    {
        match self.video_delivery.take() {
            Some(d) => {
                let mut d = d;
                let v = d.on_frame(track, is_keyframe);
                self.video_delivery = Some(d);
                v
            },
            None => FrameVerdict::Skip,
        }
    }

    /// Chooses the audio rendition for the preference `quality` and
    /// listens to it.
    pub fn listen(&mut self, quality: Quality) -> (r: Result<ListenSelection, SubscribeError>)
        ensures
            final(self).catalog_model() == old(self).catalog_model(),
            final(self).seen() == old(self).seen(),
            final(self).watched() == old(self).watched(),
            final(self).video_phase() == old(self).video_phase(),
            final(self).video_frames() == old(self).video_frames(),
            match audio_choice(old(self).catalog_model().audio, quality) {
                Ok(choice) => r is Ok && r->Ok_0.rendition@ == choice.0 && r->Ok_0.config
                    == choice.1 && final(self).listened() == Some(choice.0),
                Err(e) => r == Err::<ListenSelection, SubscribeError>(e) && final(self).listened()
                    == old(self).listened(),
            },
    {
        let (name, config) = match &self.catalog.audio {
            None => {
                return Err(SubscribeError::NothingPublished);
            },
            Some(info) => {
                let ghost names = audio_names(info@);
                let mut available: Vec<AudioPreset> = Vec::new();
                let mut i: usize = 0;
                proof {
                    assert(names.take(0) =~= Seq::<Seq<char>>::empty());
                }
                while i < info.renditions.len()
                    invariant
                        names == audio_names(info@),
                        0 <= i <= info.renditions@.len(),
                        available@ == named_audio_presets(names.take(i as int)),
                    decreases info.renditions@.len() - i,
                {
                    proof {
                        assert(names.take(i + 1).drop_last() =~= names.take(i as int));
                        assert(names.take(i + 1).last() == info.renditions@[i as int].name@);
                    }
                    let name = info.renditions[i].name.as_str();
                    if crate::text::contains(name, "hq") {
                        available.push(AudioPreset::Hq);
                    } else if crate::text::contains(name, "lq") {
                        available.push(AudioPreset::Lq);
                    }
                    i = i + 1;
                }
                proof {
                    assert(names.take(info.renditions@.len() as int) =~= names);
                }
                let preset = match quality.select_audio(available.as_slice()) {
                    Some(p) => p,
                    None => {
                        return Err(SubscribeError::NoSuitableRendition);
                    },
                };
                let track = preset.track_name();
                let mut k: usize = 0;
                while k < info.renditions.len() && !str_eq(
                    info.renditions[k].name.as_str(),
                    track.as_str(),
                )
                    invariant
                        names == audio_names(info@),
                        0 <= k <= info.renditions@.len(),
                        forall|j: int| 0 <= j < k ==> names[j] != track@,
                    decreases info.renditions@.len() - k,
                {
                    k = k + 1;
                }
                proof {
                    lemma_first_index_is(names, track@, k as int);
                }
                if k >= info.renditions.len() {
                    return Err(SubscribeError::ConfigNotFound);
                }
                (info.renditions[k].name.clone(), info.renditions[k].config)
            },
        };
        Ok(self.listen_rendition(name.as_str(), &config))
    }

    /// Listens to the rendition `track_name`, in place of the one listened
    /// to before.
    pub fn listen_rendition(&mut self, track_name: &str, config: &AudioCatalogConfig) -> (l: ListenSelection)
        ensures
            final(self).catalog_model() == old(self).catalog_model(),
            final(self).seen() == old(self).seen(),
            final(self).watched() == old(self).watched(),
            final(self).video_phase() == old(self).video_phase(),
            final(self).video_frames() == old(self).video_frames(),
            final(self).listened() == Some(track_name@),
            l.rendition@ == track_name@,
            l.config == *config,
    {
        self.active_audio = Some(track_name.to_owned());
        ListenSelection { rendition: track_name.to_owned(), config: *config }
    }

    /// Stops watching.
    pub fn stop_watch(&mut self)
        ensures
            final(self).catalog_model() == old(self).catalog_model(),
            final(self).seen() == old(self).seen(),
            final(self).listened() == old(self).listened(),
            final(self).watched() is None,
            final(self).video_phase() is None,
            final(self).video_frames() == 0,
    {
        self.active_video = None;
        self.video_delivery = None;
    }

    /// Stops listening.
    pub fn stop_listen(&mut self)
        ensures
            final(self).catalog_model() == old(self).catalog_model(),
            final(self).seen() == old(self).seen(),
            final(self).watched() == old(self).watched(),
            final(self).video_phase() == old(self).video_phase(),
            final(self).video_frames() == old(self).video_frames(),
            final(self).listened() is None,
    {
        self.active_audio = None;
    }

    /// Number of video frames delivered since the delivery began.
    pub fn video_frames_delivered(&self) -> (n: u64)
        ensures
            n == self.video_frames(),
    {
        match &self.video_delivery {
            Some(d) => d.frames_delivered(),
            None => 0,
        }
    }

    /// Name of the video track that is watched.
    pub fn current_video_track(&self) -> (t: Option<String>)
        ensures
            text_of(t) == self.watched(),
    {
        match &self.active_video {
            Some(name) => Some(name.clone()),
            None => None,
        }
    }

    /// Name of the audio track that is listened to.
    pub fn current_audio_track(&self) -> (t: Option<String>)
        ensures
            text_of(t) == self.listened(),
    {
        match &self.active_audio {
            Some(name) => Some(name.clone()),
            None => None,
        }
    }
}

/// What a framed picture holds: width, height, presentation timestamp and
/// the picture's bytes. Bytes shorter than the header hold nothing.
pub open spec fn unframed(data: Seq<u8>) -> Option<(u32, u32, i64, Seq<u8>)> {
    match parse_u32(data) {
        None => None,
        Some((width, rest)) => match parse_u32(rest) {
            None => None,
            Some((height, rest)) => match parse_u64(rest) {
                None => None,
                Some((bits, rest)) => match parse_u8(rest) {
                    None => None,
                    Some((_, rest)) => Some((width, height, signed_of(bits), rest)),
                },
            },
        },
    }
}

/// A framed picture that is unframed gives the picture back.
pub proof fn lemma_frame_round_trip(width: u32, height: u32, pts_us: i64, is_keyframe: bool, body: Seq<u8>)
    ensures
        unframed(frame_header(width, height, pts_us, is_keyframe) + body) == Some(
            (width, height, pts_us, body),
        ),
{
    let flag: u8 = if is_keyframe {
        1
    } else {
        0
    };
    let bits = crate::publish::bits_of(pts_us);
    let r3 = crate::wire::put_u8(flag) + body;
    let r2 = crate::wire::put_u64(bits) + r3;
    let r1 = crate::wire::put_u32(height) + r2;
    assert(frame_header(width, height, pts_us, is_keyframe) + body =~= crate::wire::put_u32(width)
        + r1);
    lemma_parse_put_u32(width, r1);
    lemma_parse_put_u32(height, r2);
    lemma_parse_put_u64(bits, r3);
    lemma_parse_put_u8(flag, body);
}

/// The timestamp in microseconds that a presentation timestamp stands for:
/// its 64 bits as an unsigned number.
pub open spec fn timestamp_of(pts_us: i64) -> u64 {
    crate::publish::bits_of(pts_us)
}

/// A decoder for pictures that were framed without compression.
#[derive(Debug, Clone, Copy)]
pub struct SimpleVideoDecoder {
    config: VideoCatalogConfig,
    playback_config: PlaybackConfig,
    viewport: (u32, u32),
}

impl SimpleVideoDecoder {
    pub closed spec fn spec_config(&self) -> VideoCatalogConfig {
        self.config
    }

    pub closed spec fn playback(&self) -> PlaybackConfig {
        self.playback_config
    }

    pub closed spec fn viewport(&self) -> (u32, u32) {
        self.viewport
    }

    /// A decoder whose viewport is the coded size.
    pub fn new(config: &VideoCatalogConfig, playback_config: &PlaybackConfig) -> (d: Self)
        ensures
            d.spec_config() == *config,
            d.playback() == *playback_config,
            d.viewport() == (config.coded_width, config.coded_height),
    {
        Self {
            config: *config,
            playback_config: *playback_config,
            viewport: (config.coded_width, config.coded_height),
        }
    }

    pub fn set_viewport(&mut self, width: u32, height: u32)
        ensures
            final(self).viewport() == (width, height),
            final(self).spec_config() == old(self).spec_config(),
            final(self).playback() == old(self).playback(),
    {
        self.viewport = (width, height);
    }

    /// Takes the picture out of its frame. A packet that is shorter than
    /// the header holds no picture.
    pub fn decode(&self, packet: &EncodedPacket) -> (r: Option<DecodedFrame>)
        ensures
            match unframed(packet.data@) {
                None => r is None,
                Some((width, height, pts_us, body)) => r is Some && r->0.data@ == body
                    && r->0.width == width && r->0.height == height && r->0.pixel_format
                    == self.playback().pixel_format && r->0.timestamp_us == timestamp_of(pts_us),
            },
    {
        let data = packet.data.as_slice();
        proof {
            assert(data@.skip(0) =~= data@);
        }
        let (width, at) = match read_u32(data, 0) {
            Some(r) => r,
            None => {
                return None;
            },
        };
        let (height, at) = match read_u32(data, at) {
            Some(r) => r,
            None => {
                return None;
            },
        };
        let (bits, at) = match read_u64(data, at) {
            Some(r) => r,
            None => {
                return None;
            },
        };
        let (_, at) = match read_u8(data, at) {
            Some(r) => r,
            None => {
                return None;
            },
        };
        let body = vstd::slice::slice_subrange(data, at, data.len());
        proof {
            assert(data@.skip(at as int) =~= data@.subrange(at as int, data@.len() as int));
            assert(timestamp_of(signed_of(bits)) == bits);
        }
        Some(
            DecodedFrame {
                data: vstd::slice::slice_to_vec(body),
                width,
                height,
                pixel_format: self.playback_config.pixel_format,
                timestamp_us: bits,
            },
        )
    }
}

/// A decoder for audio that was framed without compression.
#[derive(Debug, Clone, Copy)]
pub struct SimpleAudioDecoder {
    config: AudioCatalogConfig,
}

impl SimpleAudioDecoder {
    pub closed spec fn spec_config(&self) -> AudioCatalogConfig {
        self.config
    }

    pub fn new(config: &AudioCatalogConfig) -> (d: Self)
        ensures
            d.spec_config() == *config,
    {
        Self { config: *config }
    }
}

/// The preference that the network carries: the highest whose three limits
/// all hold. Packet loss is counted in lost packets per million.
pub open spec fn quality_for(bandwidth_kbps: u32, packet_loss_ppm: u32, rtt_ms: u32) -> Quality {
    if bandwidth_kbps >= 5000 && packet_loss_ppm < 10_000 && rtt_ms < 100 {
        Quality::Highest
    } else if bandwidth_kbps >= 2500 && packet_loss_ppm < 30_000 && rtt_ms < 200 {
        Quality::High
    } else if bandwidth_kbps >= 800 && packet_loss_ppm < 50_000 && rtt_ms < 300 {
        Quality::Mid
    } else {
        Quality::Low
    }
}

/// Chooses a quality from what is measured of the network.
#[derive(Debug, Clone, Copy)]
pub struct QualitySelector {
    current_quality: Quality,
    bandwidth_kbps: u32,
    packet_loss_ppm: u32,
    rtt_ms: u32,
}

impl QualitySelector {
    pub closed spec fn current(&self) -> Quality {
        self.current_quality
    }

    /// A selector that starts at high quality.
    pub fn new() -> (s: Self)
        ensures
            s.current() == Quality::High,
    {
        Self { current_quality: Quality::High, bandwidth_kbps: 5000, packet_loss_ppm: 0, rtt_ms: 50 }
    }

    /// Takes new measurements and sets the quality that they carry.
    pub fn update_stats(&mut self, bandwidth_kbps: u32, packet_loss_ppm: u32, rtt_ms: u32)
        ensures
            final(self).current() == quality_for(bandwidth_kbps, packet_loss_ppm, rtt_ms),
    {
        self.bandwidth_kbps = bandwidth_kbps;
        self.packet_loss_ppm = packet_loss_ppm;
        self.rtt_ms = rtt_ms;
        self.current_quality = if bandwidth_kbps >= 5000 && packet_loss_ppm < 10_000 && rtt_ms < 100 {
            Quality::Highest
        } else if bandwidth_kbps >= 2500 && packet_loss_ppm < 30_000 && rtt_ms < 200 {
            Quality::High
        } else if bandwidth_kbps >= 800 && packet_loss_ppm < 50_000 && rtt_ms < 300 {
            Quality::Mid
        } else {
            Quality::Low
        };
    }

    /// The available video preset for the current quality.
    pub fn select_video(&self, available: &[VideoPreset]) -> (r: Option<VideoPreset>)
        ensures
            r == first_available_video(video_preference(self.current()), available@),
    {
        self.current_quality.select_video(available)
    }

    /// The available audio preset for the current quality.
    pub fn select_audio(&self, available: &[AudioPreset]) -> (r: Option<AudioPreset>)
        ensures
            r == first_available_audio(audio_preference(self.current()), available@),
    {
        self.current_quality.select_audio(available)
    }

    pub fn quality(&self) -> (q: Quality)
        ensures
            q == self.current(),
    {
        self.current_quality
    }

    /// Sets the quality, whatever is measured.
    pub fn set_quality(&mut self, quality: Quality)
        ensures
            final(self).current() == quality,
    {
        self.current_quality = quality;
    }
}

impl Default for QualitySelector {
    fn default() -> (s: Self)
        ensures
            s.current() == Quality::High,
    {
        Self::new()
    }
}

} // verus!
