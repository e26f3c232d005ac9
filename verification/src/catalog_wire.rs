//! The bytes of a broadcast's catalog: a record of its name, its
//! description, its playing time, whether it is live, when it last changed,
//! its metadata and its tracks.

use vstd::prelude::*;
use vstd::slice::slice_to_vec;
use vstd::utf8::decode_utf8;
use vstd::utf8::encode_utf8;
use vstd::utf8::encode_utf8_decode_utf8;
use vstd::utf8::encode_utf8_valid_utf8;
use vstd::utf8::valid_utf8;
use crate::live_streaming::audio_track_models;
use crate::live_streaming::video_track_models;
use crate::live_streaming::AudioQuality;
use crate::live_streaming::AudioTrackConfig;
use crate::live_streaming::AudioTrackModel;
use crate::live_streaming::BroadcastCatalog;
use crate::live_streaming::VideoQuality;
use crate::live_streaming::VideoTrackConfig;
use crate::live_streaming::VideoTrackModel;
use crate::moq_protocol::object::extension_models;
use crate::moq_protocol::object::Extension;
use crate::record::fields;
use crate::record::fields_fit;
use crate::record::kinds_of;
use crate::record::lemma_fields_round_trip;
use crate::record::lemma_parsed_kinds;
use crate::record::lemma_typed;
use crate::record::opt_text_at;
use crate::record::opt_u64_at;
use crate::record::pairs_at;
use crate::record::parse_fields;
use crate::record::push_value;
use crate::record::put_fields;
use crate::record::read_values;
use crate::record::text_at;
use crate::record::u64_at;
use crate::record::u8_at;
use crate::record::values_fit;
use crate::record::write_values;
use crate::record::Field;
use crate::record::FieldKind;
use crate::record::Value;
use crate::wire::lemma_parse_put_u32;
use crate::wire::parse_u32;
use crate::wire::put_u32;
use crate::wire::read_u32;
use crate::wire::string_from_utf8;
use crate::wire::write_u32;

verus! {

/// What a catalog holds, as mathematical values.
pub struct CatalogModel {
    pub name: Seq<char>,
    pub description: Option<Seq<char>>,
    pub video: Seq<VideoTrackModel>,
    pub audio: Seq<AudioTrackModel>,
    pub duration_ms: Option<u64>,
    pub is_live: bool,
    pub metadata: Seq<(Seq<char>, Seq<char>)>,
    pub updated_at: u64,
}

/// What each entry of the metadata holds.
pub open spec fn entries(metadata: Seq<(String, String)>) -> Seq<(Seq<char>, Seq<char>)> {
    metadata.map_values(|e: (String, String)| (e.0@, e.1@))
}

impl View for BroadcastCatalog {
    type V = CatalogModel;

    open spec fn view(&self) -> CatalogModel {
        CatalogModel {
            name: self.name@,
            description: match self.description {
                Some(d) => Some(d@),
                None => None,
            },
            video: video_track_models(self.video_tracks@),
            audio: audio_track_models(self.audio_tracks@),
            duration_ms: self.duration_ms,
            is_live: self.is_live,
            metadata: entries(self.metadata@),
            updated_at: self.updated_at,
        }
    }
}

/// The number that stands for a video quality.
pub open spec fn video_code(q: VideoQuality) -> u32 {
    match q {
        VideoQuality::P180 => 0,
        VideoQuality::P360 => 1,
        VideoQuality::P720 => 2,
        VideoQuality::P1080 => 3,
    }
}

/// The video quality that a number stands for.
pub open spec fn video_quality_coded(code: u32) -> Option<VideoQuality> {
    if code == 0 {
        Some(VideoQuality::P180)
    } else if code == 1 {
        Some(VideoQuality::P360)
    } else if code == 2 {
        Some(VideoQuality::P720)
    } else if code == 3 {
        Some(VideoQuality::P1080)
    } else {
        None
    }
}

/// The number that stands for an audio quality.
pub open spec fn audio_code(q: AudioQuality) -> u32 {
    match q {
        AudioQuality::Low => 0,
        AudioQuality::High => 1,
    }
}

/// The audio quality that a number stands for.
pub open spec fn audio_quality_coded(code: u32) -> Option<AudioQuality> {
    if code == 0 {
        Some(AudioQuality::Low)
    } else if code == 1 {
        Some(AudioQuality::High)
    } else {
        None
    }
}

/// The numbers of a video track: its quality, width, height, frame rate
/// and bitrate, four bytes each.
pub open spec fn video_row(t: VideoTrackModel) -> Seq<u8> {
    put_u32(video_code(t.quality)) + put_u32(t.width) + put_u32(t.height) + put_u32(t.fps) + put_u32(
        t.bitrate_kbps,
    )
}

/// The video track with the codec `codec` that numbers stand for.
pub open spec fn video_of_row(codec: Seq<char>, row: Seq<u8>) -> Option<VideoTrackModel> {
    match parse_u32(row) {
        None => None,
        Some((code, rest)) => match parse_u32(rest) {
            None => None,
            Some((width, rest)) => match parse_u32(rest) {
                None => None,
                Some((height, rest)) => match parse_u32(rest) {
                    None => None,
                    Some((fps, rest)) => match parse_u32(rest) {
                        None => None,
                        Some((bitrate_kbps, rest)) => match video_quality_coded(code) {
                            Some(quality) => if rest.len() == 0 {
                                Some(VideoTrackModel { quality, codec, width, height, fps, bitrate_kbps })
                            } else {
                                None
                            },
                            None => None,
                        },
                    },
                },
            },
        },
    }
}

/// The numbers of an audio track: its quality, sample rate, channels and
/// bitrate, four bytes each.
pub open spec fn audio_row(t: AudioTrackModel) -> Seq<u8> {
    put_u32(audio_code(t.quality)) + put_u32(t.sample_rate) + put_u32(t.channels) + put_u32(t.bitrate_kbps)
}

/// The audio track with the codec `codec` that numbers stand for.
pub open spec fn audio_of_row(codec: Seq<char>, row: Seq<u8>) -> Option<AudioTrackModel> {
    match parse_u32(row) {
        None => None,
        Some((code, rest)) => match parse_u32(rest) {
            None => None,
            Some((sample_rate, rest)) => match parse_u32(rest) {
                None => None,
                Some((channels, rest)) => match parse_u32(rest) {
                    None => None,
                    Some((bitrate_kbps, rest)) => match audio_quality_coded(code) {
                        Some(quality) => if rest.len() == 0 {
                            Some(AudioTrackModel { quality, codec, sample_rate, channels, bitrate_kbps })
                        } else {
                            None
                        },
                        None => None,
                    },
                },
            },
        },
    }
}

/// The numbers of a video track stand for the track.
pub proof fn lemma_video_row(t: VideoTrackModel)
    ensures
        video_of_row(t.codec, video_row(t)) == Some(t),
        video_row(t).len() == 20,
{
    let e = Seq::<u8>::empty();
    let r4 = put_u32(t.bitrate_kbps) + e;
    let r3 = put_u32(t.fps) + r4;
    let r2 = put_u32(t.height) + r3;
    let r1 = put_u32(t.width) + r2;
    assert(video_row(t) =~= put_u32(video_code(t.quality)) + r1);
    lemma_parse_put_u32(video_code(t.quality), r1);
    lemma_parse_put_u32(t.width, r2);
    lemma_parse_put_u32(t.height, r3);
    lemma_parse_put_u32(t.fps, r4);
    lemma_parse_put_u32(t.bitrate_kbps, e);
}

/// The numbers of an audio track stand for the track.
pub proof fn lemma_audio_row(t: AudioTrackModel)
    ensures
        audio_of_row(t.codec, audio_row(t)) == Some(t),
        audio_row(t).len() == 16,
{
    let e = Seq::<u8>::empty();
    let r3 = put_u32(t.bitrate_kbps) + e;
    let r2 = put_u32(t.channels) + r3;
    let r1 = put_u32(t.sample_rate) + r2;
    assert(audio_row(t) =~= put_u32(audio_code(t.quality)) + r1);
    lemma_parse_put_u32(audio_code(t.quality), r1);
    lemma_parse_put_u32(t.sample_rate, r2);
    lemma_parse_put_u32(t.channels, r3);
    lemma_parse_put_u32(t.bitrate_kbps, e);
}

/// The video tracks as pairs: each codec with the track's numbers.
pub open spec fn video_pairs(tracks: Seq<VideoTrackModel>) -> Seq<(Seq<char>, Seq<u8>)> {
    tracks.map_values(|t: VideoTrackModel| (t.codec, video_row(t)))
}

/// The audio tracks as pairs: each codec with the track's numbers.
pub open spec fn audio_pairs(tracks: Seq<AudioTrackModel>) -> Seq<(Seq<char>, Seq<u8>)> {
    tracks.map_values(|t: AudioTrackModel| (t.codec, audio_row(t)))
}

/// The metadata as pairs: each key with the UTF-8 form of its value.
pub open spec fn metadata_pairs(metadata: Seq<(Seq<char>, Seq<char>)>) -> Seq<(Seq<char>, Seq<u8>)> {
    metadata.map_values(|e: (Seq<char>, Seq<char>)| (e.0, encode_utf8(e.1)))
}

/// The video tracks that pairs stand for, where each pair stands for one.
pub open spec fn videos_of(pairs: Seq<(Seq<char>, Seq<u8>)>) -> Option<Seq<VideoTrackModel>> {
    if forall|i: int| 0 <= i < pairs.len() ==> video_of_row((#[trigger] pairs[i]).0, pairs[i].1) is Some {
        Some(pairs.map_values(|p: (Seq<char>, Seq<u8>)| video_of_row(p.0, p.1)->0))
    } else {
        None
    }
}

/// The audio tracks that pairs stand for, where each pair stands for one.
pub open spec fn audios_of(pairs: Seq<(Seq<char>, Seq<u8>)>) -> Option<Seq<AudioTrackModel>> {
    if forall|i: int| 0 <= i < pairs.len() ==> audio_of_row((#[trigger] pairs[i]).0, pairs[i].1) is Some {
        Some(pairs.map_values(|p: (Seq<char>, Seq<u8>)| audio_of_row(p.0, p.1)->0))
    } else {
        None
    }
}

/// The metadata that pairs stand for, where each value is a text.
pub open spec fn metadata_of(pairs: Seq<(Seq<char>, Seq<u8>)>) -> Option<Seq<(Seq<char>, Seq<char>)>> {
    if forall|i: int| 0 <= i < pairs.len() ==> valid_utf8((#[trigger] pairs[i]).1) {
        Some(pairs.map_values(|p: (Seq<char>, Seq<u8>)| (p.0, decode_utf8(p.1))))
    } else {
        None
    }
}

/// The eight fields of a catalog.
pub open spec fn catalog_fields(c: CatalogModel) -> Seq<Field> {
    seq![
        Field::Text(c.name),
        Field::OptText(c.description),
        Field::OptU64(c.duration_ms),
        Field::U8(
            if c.is_live {
                1
            } else {
                0
            },
        ),
        Field::U64(c.updated_at),
        Field::Pairs(metadata_pairs(c.metadata)),
        Field::Pairs(video_pairs(c.video)),
        Field::Pairs(audio_pairs(c.audio)),
    ]
}

/// The types of the fields of a catalog.
pub open spec fn catalog_schema() -> Seq<FieldKind> {
    seq![
        FieldKind::Text,
        FieldKind::OptText,
        FieldKind::OptU64,
        FieldKind::U8,
        FieldKind::U64,
        FieldKind::Pairs,
        FieldKind::Pairs,
        FieldKind::Pairs,
    ]
}

/// The catalog that eight fields stand for.
pub open spec fn catalog_of(all: Seq<Field>) -> Option<CatalogModel> {
    let live = all[3]->U8_0;
    match (metadata_of(all[5]->Pairs_0), videos_of(all[6]->Pairs_0), audios_of(all[7]->Pairs_0)) {
        (Some(metadata), Some(video), Some(audio)) => if live <= 1 {
            Some(
                CatalogModel {
                    name: all[0]->Text_0,
                    description: all[1]->OptText_0,
                    video,
                    audio,
                    duration_ms: all[2]->OptU64_0,
                    is_live: live == 1,
                    metadata,
                    updated_at: all[4]->U64_0,
                },
            )
        } else {
            None
        },
        _ => None,
    }
}

/// The bytes of a catalog: its fields one after the other.
pub open spec fn catalog_bytes(c: CatalogModel) -> Seq<u8> {
    put_fields(catalog_fields(c))
}

/// The catalog that bytes stand for. What follows its fields is passed
/// over.
pub open spec fn parse_catalog(data: Seq<u8>) -> Option<CatalogModel> {
    match parse_fields(catalog_schema(), data) {
        Some((all, _)) => catalog_of(all),
        None => None,
    }
}

/// Whether a catalog can be written: every length in it fits four bytes.
pub open spec fn catalog_fits(c: CatalogModel) -> bool {
    fields_fit(catalog_fields(c))
}

/// The fields of a catalog stand for the catalog.
pub proof fn lemma_catalog_fields(c: CatalogModel)
    ensures
        kinds_of(catalog_fields(c)) == catalog_schema(),
        catalog_of(catalog_fields(c)) == Some(c),
{
    let all = catalog_fields(c);
    assert(kinds_of(all) =~= catalog_schema());
    let m = metadata_pairs(c.metadata);
    let v = video_pairs(c.video);
    let a = audio_pairs(c.audio);
    assert forall|i: int| 0 <= i < m.len() implies valid_utf8((#[trigger] m[i]).1) && (
        m[i].0,
        decode_utf8(m[i].1),
    ) == c.metadata[i] by {
        encode_utf8_valid_utf8(c.metadata[i].1);
        encode_utf8_decode_utf8(c.metadata[i].1);
    }
    assert(metadata_of(m) == Some(c.metadata)) by {
        assert(m.map_values(|p: (Seq<char>, Seq<u8>)| (p.0, decode_utf8(p.1))) =~= c.metadata);
    }
    assert forall|i: int| 0 <= i < v.len() implies video_of_row((#[trigger] v[i]).0, v[i].1) == Some(
        c.video[i],
    ) by {
        lemma_video_row(c.video[i]);
    }
    assert(videos_of(v) == Some(c.video)) by {
        assert(v.map_values(|p: (Seq<char>, Seq<u8>)| video_of_row(p.0, p.1)->0) =~= c.video);
    }
    assert forall|i: int| 0 <= i < a.len() implies audio_of_row((#[trigger] a[i]).0, a[i].1) == Some(
        c.audio[i],
    ) by {
        lemma_audio_row(c.audio[i]);
    }
    assert(audios_of(a) == Some(c.audio)) by {
        assert(a.map_values(|p: (Seq<char>, Seq<u8>)| audio_of_row(p.0, p.1)->0) =~= c.audio);
    }
}

/// A catalog that is read back is the catalog that was written.
pub proof fn lemma_catalog_round_trip(c: CatalogModel, rest: Seq<u8>)
    requires
        catalog_fits(c),
    ensures
        parse_catalog(catalog_bytes(c) + rest) == Some(c),
{
    lemma_fields_round_trip(catalog_fields(c), rest);
    lemma_catalog_fields(c);
}

fn video_number(q: VideoQuality) -> (code: u32)
    ensures
        code == video_code(q),
{
    match q {
        VideoQuality::P180 => 0,
        VideoQuality::P360 => 1,
        VideoQuality::P720 => 2,
        VideoQuality::P1080 => 3,
    }
}

fn video_quality_from(code: u32) -> (q: Option<VideoQuality>)
    ensures
        q == video_quality_coded(code),
{
    match code {
        0 => Some(VideoQuality::P180),
        1 => Some(VideoQuality::P360),
        2 => Some(VideoQuality::P720),
        3 => Some(VideoQuality::P1080),
        _ => None,
    }
}

fn audio_number(q: AudioQuality) -> (code: u32)
    ensures
        code == audio_code(q),
{
    match q {
        AudioQuality::Low => 0,
        AudioQuality::High => 1,
    }
}

fn audio_quality_from(code: u32) -> (q: Option<AudioQuality>)
    ensures
        q == audio_quality_coded(code),
{
    match code {
        0 => Some(AudioQuality::Low),
        1 => Some(AudioQuality::High),
        _ => None,
    }
}

fn video_pair(t: &VideoTrackConfig) -> (e: Extension)
    ensures
        (e.key@, e.value@) == (t@.codec, video_row(t@)),
{
    let mut row: Vec<u8> = Vec::new();
    write_u32(&mut row, video_number(t.quality));
    write_u32(&mut row, t.width);
    write_u32(&mut row, t.height);
    write_u32(&mut row, t.fps);
    write_u32(&mut row, t.bitrate_kbps);
    proof {
        assert(row@ =~= video_row(t@));
    }
    Extension { key: t.codec.clone(), value: row }
}

fn audio_pair(t: &AudioTrackConfig) -> (e: Extension)
    ensures
        (e.key@, e.value@) == (t@.codec, audio_row(t@)),
{
    let mut row: Vec<u8> = Vec::new();
    write_u32(&mut row, audio_number(t.quality));
    write_u32(&mut row, t.sample_rate);
    write_u32(&mut row, t.channels);
    write_u32(&mut row, t.bitrate_kbps);
    proof {
        assert(row@ =~= audio_row(t@));
    }
    Extension { key: t.codec.clone(), value: row }
}

fn video_from_pair(e: &Extension) -> (r: Option<VideoTrackConfig>)
    ensures
        match r {
            Some(t) => video_of_row(e.key@, e.value@) == Some(t@),
            None => video_of_row(e.key@, e.value@) is None,
        },
{
    let row = e.value.as_slice();
    proof {
        assert(row@.skip(0) =~= row@);
    }
    let (code, at) = match read_u32(row, 0) {
        Some(r) => r,
        None => {
            return None;
        },
    };
    let (width, at) = match read_u32(row, at) {
        Some(r) => r,
        None => {
            return None;
        },
    };
    let (height, at) = match read_u32(row, at) {
        Some(r) => r,
        None => {
            return None;
        },
    };
    let (fps, at) = match read_u32(row, at) {
        Some(r) => r,
        None => {
            return None;
        },
    };
    let (bitrate_kbps, at) = match read_u32(row, at) {
        Some(r) => r,
        None => {
            return None;
        },
    };
    let quality = match video_quality_from(code) {
        Some(q) => q,
        None => {
            return None;
        },
    };
    if at != row.len() {
        return None;
    }
    Some(VideoTrackConfig { quality, codec: e.key.clone(), width, height, fps, bitrate_kbps })
}

fn audio_from_pair(e: &Extension) -> (r: Option<AudioTrackConfig>)
    ensures
        match r {
            Some(t) => audio_of_row(e.key@, e.value@) == Some(t@),
            None => audio_of_row(e.key@, e.value@) is None,
        },
{
    let row = e.value.as_slice();
    proof {
        assert(row@.skip(0) =~= row@);
    }
    let (code, at) = match read_u32(row, 0) {
        Some(r) => r,
        None => {
            return None;
        },
    };
    let (sample_rate, at) = match read_u32(row, at) {
        Some(r) => r,
        None => {
            return None;
        },
    };
    let (channels, at) = match read_u32(row, at) {
        Some(r) => r,
        None => {
            return None;
        },
    };
    let (bitrate_kbps, at) = match read_u32(row, at) {
        Some(r) => r,
        None => {
            return None;
        },
    };
    let quality = match audio_quality_from(code) {
        Some(q) => q,
        None => {
            return None;
        },
    };
    if at != row.len() {
        return None;
    }
    Some(AudioTrackConfig { quality, codec: e.key.clone(), sample_rate, channels, bitrate_kbps })
}

impl BroadcastCatalog {
    /// The values of the catalog's fields.
    fn to_values(&self) -> (values: Vec<Value>)
        ensures
            fields(values@) == catalog_fields(self@),
    {
        let ghost c = self@;
        let mut metadata: Vec<Extension> = Vec::new();
        let mut i: usize = 0;
        proof {
            assert(extension_models(metadata@) =~= metadata_pairs(c.metadata).take(0));
        }
        while i < self.metadata.len()
            invariant
                c == self@,
                0 <= i <= self.metadata@.len(),
                extension_models(metadata@) == metadata_pairs(c.metadata).take(i as int),
            decreases self.metadata@.len() - i,
        {
            let e = Extension {
                key: self.metadata[i].0.clone(),
                value: slice_to_vec(self.metadata[i].1.as_str().as_bytes()),
            };
            proof {
                let all = metadata_pairs(c.metadata);
                assert(all.take(i + 1) =~= all.take(i as int).push(all[i as int]));
                assert(extension_models(metadata@.push(e)) =~= extension_models(metadata@).push(
                    (e.key@, e.value@),
                ));
            }
            metadata.push(e);
            i = i + 1;
        }
        let mut video: Vec<Extension> = Vec::new();
        let mut j: usize = 0;
        proof {
            assert(metadata_pairs(c.metadata).take(self.metadata@.len() as int) =~= metadata_pairs(
                c.metadata,
            ));
            assert(extension_models(video@) =~= video_pairs(c.video).take(0));
        }
        while j < self.video_tracks.len()
            invariant
                c == self@,
                0 <= j <= self.video_tracks@.len(),
                extension_models(video@) == video_pairs(c.video).take(j as int),
            decreases self.video_tracks@.len() - j,
        {
            let e = video_pair(&self.video_tracks[j]);
            proof {
                let all = video_pairs(c.video);
                assert(all.take(j + 1) =~= all.take(j as int).push(all[j as int]));
                assert(extension_models(video@.push(e)) =~= extension_models(video@).push(
                    (e.key@, e.value@),
                ));
            }
            video.push(e);
            j = j + 1;
        }
        let mut audio: Vec<Extension> = Vec::new();
        let mut k: usize = 0;
        proof {
            assert(video_pairs(c.video).take(self.video_tracks@.len() as int) =~= video_pairs(c.video));
            assert(extension_models(audio@) =~= audio_pairs(c.audio).take(0));
        }
        while k < self.audio_tracks.len()
            invariant
                c == self@,
                0 <= k <= self.audio_tracks@.len(),
                extension_models(audio@) == audio_pairs(c.audio).take(k as int),
            decreases self.audio_tracks@.len() - k,
        {
            let e = audio_pair(&self.audio_tracks[k]);
            proof {
                let all = audio_pairs(c.audio);
                assert(all.take(k + 1) =~= all.take(k as int).push(all[k as int]));
                assert(extension_models(audio@.push(e)) =~= extension_models(audio@).push(
                    (e.key@, e.value@),
                ));
            }
            audio.push(e);
            k = k + 1;
        }
        proof {
            assert(audio_pairs(c.audio).take(self.audio_tracks@.len() as int) =~= audio_pairs(c.audio));
        }
        let mut values: Vec<Value> = Vec::new();
        proof {
            assert(fields(values@) =~= Seq::<Field>::empty());
        }
        push_value(&mut values, Value::Text(self.name.clone()));
        push_value(
            &mut values,
            Value::OptText(
                match &self.description {
                    Some(d) => Some(d.clone()),
                    None => None,
                },
            ),
        );
        push_value(&mut values, Value::OptU64(self.duration_ms));
        push_value(
            &mut values,
            Value::U8(
                if self.is_live {
                    1
                } else {
                    0
                },
            ),
        );
        push_value(&mut values, Value::U64(self.updated_at));
        push_value(&mut values, Value::Pairs(metadata));
        push_value(&mut values, Value::Pairs(video));
        push_value(&mut values, Value::Pairs(audio));
        proof {
            assert(fields(values@) =~= catalog_fields(c));
        }
        values
    }

    /// The bytes of the catalog, where it can be written. Read back, they
    /// give the catalog again.
    pub fn encode(&self) -> (r: Option<Vec<u8>>)
        ensures
            r is Some <==> catalog_fits(self@),
            r matches Some(out) ==> out@ == catalog_bytes(self@) && parse_catalog(out@) == Some(self@),
    {
        let values = self.to_values();
        if !values_fit(&values) {
            return None;
        }
        let mut out: Vec<u8> = Vec::new();
        write_values(&mut out, &values);
        proof {
            assert(out@ =~= catalog_bytes(self@));
            lemma_catalog_round_trip(self@, Seq::<u8>::empty());
            assert(catalog_bytes(self@) + Seq::<u8>::empty() =~= catalog_bytes(self@));
        }
        Some(out)
    }

    /// The catalog that `data` stands for.
    pub fn decode(data: &[u8]) -> (r: Option<Self>)
        ensures
            match parse_catalog(data@) {
                Some(c) => r matches Some(catalog) && catalog@ == c,
                None => r is None,
            },
    {
        let mut kinds: Vec<FieldKind> = Vec::new();
        kinds.push(FieldKind::Text);
        kinds.push(FieldKind::OptText);
        kinds.push(FieldKind::OptU64);
        kinds.push(FieldKind::U8);
        kinds.push(FieldKind::U64);
        kinds.push(FieldKind::Pairs);
        kinds.push(FieldKind::Pairs);
        kinds.push(FieldKind::Pairs);
        proof {
            assert(kinds@ =~= catalog_schema());
            assert(data@.skip(0) =~= data@);
            lemma_parsed_kinds(catalog_schema(), data@);
        }
        let (values, next) = match read_values(data, 0, &kinds) {
            Some(r) => r,
            None => {
                return None;
            },
        };
        let ghost all = fields(values@);
        let ghost after = data@.skip(next as int);
        proof {
            lemma_typed(all, catalog_schema());
        }
        let live = u8_at(&values, 3);
        let meta = pairs_at(&values, 5);
        let video = pairs_at(&values, 6);
        let audio = pairs_at(&values, 7);
        let ghost mp = extension_models(meta@);
        let ghost vp = extension_models(video@);
        let ghost ap = extension_models(audio@);
        let mut metadata: Vec<(String, String)> = Vec::new();
        let mut i: usize = 0;
        proof {
            assert(entries(metadata@) =~= Seq::<(Seq<char>, Seq<char>)>::empty());
        }
        while i < meta.len()
            invariant
                parse_fields(catalog_schema(), data@) == Some((all, after)),
                all[5] == Field::Pairs(mp),
                mp == extension_models(meta@),
                0 <= i <= meta@.len(),
                metadata@.len() == i,
                forall|k: int| 0 <= k < i ==> valid_utf8((#[trigger] mp[k]).1),
                forall|k: int| 0 <= k < i ==> (#[trigger] entries(metadata@)[k]) == (mp[k].0, decode_utf8(mp[k].1)),
            decreases meta@.len() - i,
        {
            let text = match string_from_utf8(crate::moq_protocol::object::copy_bytes(&meta[i].value)) {
                Ok(t) => t,
                Err(_) => {
                    proof {
                        assert(!valid_utf8(mp[i as int].1));
                    }
                    return None;
                },
            };
            let entry = (meta[i].key.clone(), text);
            proof {
                assert(entries(metadata@.push(entry)) =~= entries(metadata@).push((entry.0@, entry.1@)));
            }
            metadata.push(entry);
            i = i + 1;
        }
        proof {
            assert(metadata_of(mp) == Some(entries(metadata@))) by {
                assert(mp.map_values(|p: (Seq<char>, Seq<u8>)| (p.0, decode_utf8(p.1))) =~= entries(
                    metadata@,
                ));
            }
        }
        let mut video_tracks: Vec<VideoTrackConfig> = Vec::new();
        let mut j: usize = 0;
        while j < video.len()
            invariant
                parse_fields(catalog_schema(), data@) == Some((all, after)),
                metadata_of(all[5]->Pairs_0) is Some,
                all[6] == Field::Pairs(vp),
                vp == extension_models(video@),
                0 <= j <= video@.len(),
                video_tracks@.len() == j,
                forall|k: int| 0 <= k < j ==> video_of_row((#[trigger] vp[k]).0, vp[k].1) == Some(
                    video_track_models(video_tracks@)[k],
                ),
            decreases video@.len() - j,
        {
            let t = match video_from_pair(&video[j]) {
                Some(t) => t,
                None => {
                    proof {
                        assert(video_of_row(vp[j as int].0, vp[j as int].1) is None);
                    }
                    return None;
                },
            };
            proof {
                assert(video_track_models(video_tracks@.push(t)) =~= video_track_models(
                    video_tracks@,
                ).push(t@));
            }
            video_tracks.push(t);
            j = j + 1;
        }
        proof {
            assert(videos_of(vp) == Some(video_track_models(video_tracks@))) by {
                assert(vp.map_values(|p: (Seq<char>, Seq<u8>)| video_of_row(p.0, p.1)->0)
                    =~= video_track_models(video_tracks@));
            }
        }
        let mut audio_tracks: Vec<AudioTrackConfig> = Vec::new();
        let mut k: usize = 0;
        while k < audio.len()
            invariant
                parse_fields(catalog_schema(), data@) == Some((all, after)),
                all[7] == Field::Pairs(ap),
                ap == extension_models(audio@),
                0 <= k <= audio@.len(),
                audio_tracks@.len() == k,
                forall|n: int| 0 <= n < k ==> audio_of_row((#[trigger] ap[n]).0, ap[n].1) == Some(
                    audio_track_models(audio_tracks@)[n],
                ),
            decreases audio@.len() - k,
        {
            let t = match audio_from_pair(&audio[k]) {
                Some(t) => t,
                None => {
                    proof {
                        assert(audio_of_row(ap[k as int].0, ap[k as int].1) is None);
                    }
                    return None;
                },
            };
            proof {
                assert(audio_track_models(audio_tracks@.push(t)) =~= audio_track_models(
                    audio_tracks@,
                ).push(t@));
            }
            audio_tracks.push(t);
            k = k + 1;
        }
        proof {
            assert(audios_of(ap) == Some(audio_track_models(audio_tracks@))) by {
                assert(ap.map_values(|p: (Seq<char>, Seq<u8>)| audio_of_row(p.0, p.1)->0)
                    =~= audio_track_models(audio_tracks@));
            }
        }
        if live > 1 {
            return None;
        }
        Some(
            BroadcastCatalog {
                name: text_at(&values, 0),
                description: opt_text_at(&values, 1),
                video_tracks,
                audio_tracks,
                duration_ms: opt_u64_at(&values, 2),
                is_live: live == 1,
                metadata,
                updated_at: u64_at(&values, 4),
            },
        )
    }
}

} // verus!
