//! Catalogs, statistics, events and tickets of a live broadcast as the host
//! application sees them.

use vstd::prelude::*;
use vstd::std_specs::convert::FromSpecImpl;
use crate::direct_streaming::parse_direct_ticket;
use crate::direct_streaming::DirectMessage;
use crate::direct_streaming::DirectStreamEvent;
use crate::direct_streaming::DirectStreamTicket;
use crate::endpoint::is_endpoint_key;
use crate::endpoint::EndpointId;
use crate::hex::hex_bytes;
use crate::hex::hex_text;
use crate::iroh_live::usable_relays;
use crate::iroh_live::EndpointAddress;
use crate::live_streaming::live_ticket_text;
use crate::live_streaming::recommended_for;
use crate::live_streaming::video_quality_bitrate_kbps;
use crate::live_streaming::video_quality_dimensions;
use crate::live_streaming::video_track_name;
use crate::live_streaming::BroadcastCatalog;
use crate::live_streaming::ConnectionStats;
use crate::live_streaming::LiveTicket;
use crate::live_streaming::LiveTicketModel;
use crate::live_streaming::TicketError;
use crate::live_streaming::VideoQuality;
use crate::live_streaming::VideoTrackConfig;
use crate::live_streaming::VideoTrackModel;
use crate::moq_protocol::names::texts;
use crate::text::last_index;
use crate::text::rfind_char;

verus! {

/// Video quality, as the host names it.
#[derive(Debug, Clone, Copy, PartialEq, Eq, Structural)]
pub enum FlutterVideoQuality {
    P180,
    P360,
    P720,
    P1080,
}

/// What `VideoQuality::from` makes of a `FlutterVideoQuality`.
pub open spec fn video_quality_of(q: FlutterVideoQuality) -> VideoQuality {
    match q {
        FlutterVideoQuality::P180 => VideoQuality::P180,
        FlutterVideoQuality::P360 => VideoQuality::P360,
        FlutterVideoQuality::P720 => VideoQuality::P720,
        FlutterVideoQuality::P1080 => VideoQuality::P1080,
    }
}

impl From<FlutterVideoQuality> for VideoQuality {
    fn from(q: FlutterVideoQuality) -> (r: Self) {
        match q {
            FlutterVideoQuality::P180 => VideoQuality::P180,
            FlutterVideoQuality::P360 => VideoQuality::P360,
            FlutterVideoQuality::P720 => VideoQuality::P720,
            FlutterVideoQuality::P1080 => VideoQuality::P1080,
        }
    }
}

impl FromSpecImpl<FlutterVideoQuality> for VideoQuality {
    open spec fn obeys_from_spec() -> bool {
        true
    }

    open spec fn from_spec(q: FlutterVideoQuality) -> Self {
        video_quality_of(q)
    }
}

/// What `FlutterVideoQuality::from` makes of a `VideoQuality`.
pub open spec fn flutter_video_quality(q: VideoQuality) -> FlutterVideoQuality {
    match q {
        VideoQuality::P180 => FlutterVideoQuality::P180,
        VideoQuality::P360 => FlutterVideoQuality::P360,
        VideoQuality::P720 => FlutterVideoQuality::P720,
        VideoQuality::P1080 => FlutterVideoQuality::P1080,
    }
}

impl From<VideoQuality> for FlutterVideoQuality {
    fn from(q: VideoQuality) -> (r: Self) {
        match q {
            VideoQuality::P180 => FlutterVideoQuality::P180,
            VideoQuality::P360 => FlutterVideoQuality::P360,
            VideoQuality::P720 => FlutterVideoQuality::P720,
            VideoQuality::P1080 => FlutterVideoQuality::P1080,
        }
    }
}

impl FromSpecImpl<VideoQuality> for FlutterVideoQuality {
    open spec fn obeys_from_spec() -> bool {
        true
    }

    open spec fn from_spec(q: VideoQuality) -> Self {
        flutter_video_quality(q)
    }
}

/// A video track of a catalog, with its track name.
#[derive(Debug, Clone)]
pub struct FlutterVideoTrack {
    pub name: String,
    pub quality: FlutterVideoQuality,
    pub codec: String,
    pub width: u32,
    pub height: u32,
    pub fps: u32,
    pub bitrate_kbps: u32,
}

impl FlutterVideoTrack {
    /// Whether these are the values of the track `t`.
    pub open spec fn shows(&self, t: VideoTrackModel) -> bool {
        &&& self.name@ == video_track_name(t.quality)
        &&& self.quality == flutter_video_quality(t.quality)
        &&& self.codec@ == t.codec
        &&& self.width == t.width
        &&& self.height == t.height
        &&& self.fps == t.fps
        &&& self.bitrate_kbps == t.bitrate_kbps
    }

    /// The host's copy of a video track.
    pub fn from_track(t: &VideoTrackConfig) -> (r: Self)
        ensures
            r.shows(t@),
    {
        FlutterVideoTrack {
            name: t.track_name(),
            quality: FlutterVideoQuality::from(t.quality),
            codec: t.codec.clone(),
            width: t.width,
            height: t.height,
            fps: t.fps,
            bitrate_kbps: t.bitrate_kbps,
        }
    }
}

/// A catalog as the host sees it: its name and its video tracks.
#[derive(Debug, Clone)]
pub struct FlutterCatalog {
    pub name: String,
    pub description: Option<String>,
    pub video_tracks: Vec<FlutterVideoTrack>,
    pub is_live: bool,
    /// Playing time in milliseconds.
    pub duration_ms: Option<u64>,
}

impl FlutterCatalog {
    /// The host's copy of a catalog: its video tracks in the catalog's
    /// order.
    pub fn from_catalog(c: &BroadcastCatalog) -> (r: Self)
        ensures
            r.name@ == c.name@,
            r.description is Some == c.description is Some,
            r.description matches Some(d) ==> d@ == c.description->0@,
            r.is_live == c.is_live,
            r.duration_ms == c.duration_ms,
            r.video_tracks@.len() == c.video().len(),
            forall|i: int| 0 <= i < c.video().len() ==> (#[trigger] r.video_tracks@[i]).shows(c.video()[i]),
    {
        let mut video_tracks: Vec<FlutterVideoTrack> = Vec::new();
        let mut i: usize = 0;
        while i < c.video_tracks.len()
            invariant
                0 <= i <= c.video_tracks@.len(),
                video_tracks@.len() == i,
                forall|k: int| 0 <= k < i ==> (#[trigger] video_tracks@[k]).shows(c.video()[k]),
            decreases c.video_tracks@.len() - i,
        {
            video_tracks.push(FlutterVideoTrack::from_track(&c.video_tracks[i]));
            i = i + 1;
        }
        FlutterCatalog {
            name: c.name.clone(),
            description: match &c.description {
                Some(d) => Some(d.clone()),
                None => None,
            },
            video_tracks,
            is_live: c.is_live,
            duration_ms: c.duration_ms,
        }
    }
}

/// Connection statistics with the quality that they recommend.
#[derive(Debug, Clone, Copy, PartialEq, Eq, Structural)]
pub struct FlutterConnectionStats {
    pub bytes_sent: u64,
    pub bytes_received: u64,
    pub chunks_sent: u64,
    pub chunks_received: u64,
    pub bandwidth_bps: u64,
    pub rtt_ms: u64,
    pub quality_score: u32,
    pub recommended_quality: FlutterVideoQuality,
}

impl FlutterConnectionStats {
    /// The host's copy of the statistics.
    pub fn from_stats(s: &ConnectionStats) -> (r: Self)
        ensures
            r == (FlutterConnectionStats {
                bytes_sent: s.bytes_sent,
                bytes_received: s.bytes_received,
                chunks_sent: s.chunks_sent,
                chunks_received: s.chunks_received,
                bandwidth_bps: s.bandwidth_bps,
                rtt_ms: s.rtt_ms,
                quality_score: s.quality_score,
                recommended_quality: flutter_video_quality(recommended_for(s.bandwidth_bps)),
            }),
    {
        FlutterConnectionStats {
            bytes_sent: s.bytes_sent,
            bytes_received: s.bytes_received,
            chunks_sent: s.chunks_sent,
            chunks_received: s.chunks_received,
            bandwidth_bps: s.bandwidth_bps,
            rtt_ms: s.rtt_ms,
            quality_score: s.quality_score,
            recommended_quality: FlutterVideoQuality::from(s.recommended_quality()),
        }
    }
}

/// What a live broadcast tells the host.
#[derive(Debug, Clone)]
pub enum FlutterLiveEvent {
    PeerConnected { peer_id: String },
    PeerDisconnected { peer_id: String },
    CatalogReceived { catalog: FlutterCatalog },
    MetadataReceived {
        from: String,
        file_name: String,
        file_size: u64,
        mime_type: String,
        total_chunks: u32,
        duration_ms: Option<u64>,
    },
    /// A peer asks the broadcaster for a chunk.
    ChunkRequested { from: String, index: u32 },
    ChunkReceived { from: String, index: u32, data: Vec<u8> },
    MetadataRequested { from: String },
    StatsUpdated { stats: FlutterConnectionStats },
    Error { message: String },
}

/// What the host is told of a signal, which a live broadcast does not
/// expect.
pub const UNKNOWN_SIGNAL: &'static str = "Received unknown signal";

/// Whether `r` is what the host is told of the event `e`: a presence
/// message counts as a connection of its sender, a signal as an error.
pub open spec fn tells(r: FlutterLiveEvent, e: DirectStreamEvent) -> bool {
    match e {
        DirectStreamEvent::PeerConnected { endpoint_id } => r matches FlutterLiveEvent::PeerConnected {
            peer_id,
        } && peer_id@ == endpoint_id@,
        DirectStreamEvent::PeerDisconnected { endpoint_id } => r
            matches FlutterLiveEvent::PeerDisconnected { peer_id } && peer_id@ == endpoint_id@,
        DirectStreamEvent::Message { from, message, timestamp } => match message {
            DirectMessage::RequestMetadata => r matches FlutterLiveEvent::MetadataRequested { from: f }
                && f@ == from@,
            DirectMessage::Metadata { file_name, file_size, mime_type, total_chunks, duration_ms } => r
                matches FlutterLiveEvent::MetadataReceived {
                from: f,
                file_name: n,
                file_size: s,
                mime_type: m,
                total_chunks: c,
                duration_ms: d,
            } && f@ == from@ && n@ == file_name@ && s == file_size && m@ == mime_type@ && c
                == total_chunks && d == duration_ms,
            DirectMessage::RequestChunk { index } => r matches FlutterLiveEvent::ChunkRequested {
                from: f,
                index: i,
            } && f@ == from@ && i == index,
            DirectMessage::Chunk { index, data } => r matches FlutterLiveEvent::ChunkReceived {
                from: f,
                index: i,
                data: d,
            } && f@ == from@ && i == index && d@ == data@,
            DirectMessage::Presence { name } => r matches FlutterLiveEvent::PeerConnected { peer_id }
                && peer_id@ == from@,
            DirectMessage::Signal { data } => r matches FlutterLiveEvent::Error { message: m } && m@
                == UNKNOWN_SIGNAL@,
        },
        DirectStreamEvent::Error { message } => r matches FlutterLiveEvent::Error { message: m } && m@
            == message@,
    }
}

/// What the host is told of an event of the direct connection.
pub fn convert_direct_event(event: DirectStreamEvent) -> (r: FlutterLiveEvent)
    ensures
        tells(r, event),
{
    match event {
        DirectStreamEvent::PeerConnected { endpoint_id } => FlutterLiveEvent::PeerConnected {
            peer_id: endpoint_id,
        },
        DirectStreamEvent::PeerDisconnected { endpoint_id } => FlutterLiveEvent::PeerDisconnected {
            peer_id: endpoint_id,
        },
        DirectStreamEvent::Message { from, message, timestamp } => match message {
            DirectMessage::RequestMetadata => FlutterLiveEvent::MetadataRequested { from },
            DirectMessage::Metadata { file_name, file_size, mime_type, total_chunks, duration_ms } => {
                FlutterLiveEvent::MetadataReceived {
                    from,
                    file_name,
                    file_size,
                    mime_type,
                    total_chunks,
                    duration_ms,
                }
            },
            DirectMessage::RequestChunk { index } => FlutterLiveEvent::ChunkRequested { from, index },
            DirectMessage::Chunk { index, data } => FlutterLiveEvent::ChunkReceived { from, index, data },
            DirectMessage::Presence { name } => FlutterLiveEvent::PeerConnected { peer_id: from },
            DirectMessage::Signal { data } => FlutterLiveEvent::Error {
                message: UNKNOWN_SIGNAL.to_owned(),
            },
        },
        DirectStreamEvent::Error { message } => FlutterLiveEvent::Error { message },
    }
}

/// The broadcast name of a short ticket and the string form of its
/// endpoint id.
pub fn parse_live_ticket(ticket_str: &str) -> (r: Result<(String, String), TicketError>)
    requires
        ticket_str@.len() <= usize::MAX / 32,
    ensures
        match r {
            Ok(parts) => crate::live_streaming::parse_live_ticket(ticket_str@) matches Ok(t)
                && parts.0@ == t.broadcast_name && parts.1@ == hex_text(t.endpoint_id),
            Err(e) => crate::live_streaming::parse_live_ticket(ticket_str@) == Err::<
                LiveTicketModel,
                TicketError,
            >(e),
        },
{
    match LiveTicket::deserialize(ticket_str) {
        Ok(ticket) => {
            let id = ticket.endpoint_id.to_text();
            Ok((ticket.broadcast_name, id))
        },
        Err(e) => Err(e),
    }
}

/// What a text in hexadecimal stands for as an endpoint id.
pub open spec fn parse_endpoint_hex(text: Seq<char>) -> Result<Seq<u8>, TicketError> {
    match hex_bytes(text) {
        None => Err(TicketError::InvalidEncoding),
        Some(bytes) => if bytes.len() != 32 {
            Err(TicketError::InvalidLength)
        } else if !is_endpoint_key(bytes) {
            Err(TicketError::InvalidKey)
        } else {
            Ok(bytes)
        },
    }
}

/// The endpoint id that a text in hexadecimal, in either case, stands for.
pub fn endpoint_from_hex(text: &str) -> (r: Result<EndpointId, TicketError>)
    requires
        text@.len() <= usize::MAX / 32,
    ensures
        match r {
            Ok(id) => parse_endpoint_hex(text@) == Ok::<Seq<u8>, TicketError>(id@),
            Err(e) => parse_endpoint_hex(text@) == Err::<Seq<u8>, TicketError>(e),
        },
{
    let bytes = match crate::hex::decode(text) {
        Ok(bytes) => bytes,
        Err(_) => {
            return Err(TicketError::InvalidEncoding);
        },
    };
    if bytes.len() != 32 {
        return Err(TicketError::InvalidLength);
    }
    match EndpointId::from_slice(bytes.as_slice()) {
        Ok(id) => Ok(id),
        Err(_) => Err(TicketError::InvalidKey),
    }
}

/// The string form of the short ticket for the broadcast `broadcast_name`
/// of the endpoint whose id `endpoint_id_hex` gives in hexadecimal.
pub fn create_live_ticket(broadcast_name: &str, endpoint_id_hex: &str) -> (r: Result<String, TicketError>)
    requires
        endpoint_id_hex@.len() <= usize::MAX / 32,
    ensures
        match r {
            Ok(s) => parse_endpoint_hex(endpoint_id_hex@) matches Ok(id) && s@ == live_ticket_text(
                LiveTicketModel { broadcast_name: broadcast_name@, endpoint_id: id },
            ),
            Err(e) => parse_endpoint_hex(endpoint_id_hex@) == Err::<Seq<u8>, TicketError>(e),
        },
{
    match endpoint_from_hex(endpoint_id_hex) {
        Ok(id) => Ok(LiveTicket::new(broadcast_name, id).serialize()),
        Err(e) => Err(e),
    }
}

/// Whether `addr` is where a ticket text points: for a text with an `@`,
/// the endpoint of the short ticket, with no hint of how to reach it; for
/// any other text, the endpoint of the direct ticket with its relay URL and
/// direct addresses.
pub open spec fn points_to(input: Seq<char>, r: Result<EndpointAddress, TicketError>) -> bool {
    if last_index(input, '@') >= 0 {
        match crate::live_streaming::parse_live_ticket(input) {
            Ok(t) => r matches Ok(addr) && addr.id@ == t.endpoint_id && addr.relay_urls@.len() == 0
                && addr.ip_addrs@.len() == 0,
            Err(e) => r == Err::<EndpointAddress, TicketError>(e),
        }
    } else {
        match parse_direct_ticket(input) {
            Ok(t) => r matches Ok(addr) && addr.id@ == t.endpoint_id && texts(addr.relay_urls@)
                == usable_relays(t.relay_urls) && addr.ip_addrs@ == t.direct_addrs,
            Err(e) => r == Err::<EndpointAddress, TicketError>(e),
        }
    }
}

/// The address that a ticket in either string form points to.
pub fn ticket_address(ticket_str: &str) -> (r: Result<EndpointAddress, TicketError>)
    requires
        ticket_str@.len() <= usize::MAX / 32,
    ensures
        points_to(ticket_str@, r),
{
    match rfind_char(ticket_str, '@') {
        Some(_) => match LiveTicket::deserialize(ticket_str) {
            Ok(ticket) => Ok(
                EndpointAddress { id: ticket.endpoint_id, relay_urls: Vec::new(), ip_addrs: Vec::new() },
            ),
            Err(e) => Err(e),
        },
        None => match DirectStreamTicket::deserialize(ticket_str) {
            Ok(ticket) => Ok(ticket.to_endpoint_addr()),
            Err(e) => Err(e),
        },
    }
}

/// Width and height of a quality.
pub fn get_quality_dimensions(quality: FlutterVideoQuality) -> (d: (u32, u32))
    ensures
        d == video_quality_dimensions(video_quality_of(quality)),
{
    let q = VideoQuality::from(quality);
    q.dimensions()
}

/// Kilobits per second that a quality is encoded at.
pub fn get_quality_bitrate(quality: FlutterVideoQuality) -> (b: u32)
    ensures
        b == video_quality_bitrate_kbps(video_quality_of(quality)),
{
    let q = VideoQuality::from(quality);
    q.bitrate_kbps()
}

/// The qualities, lowest first.
pub fn get_all_video_qualities() -> (all: Vec<FlutterVideoQuality>)
    ensures
        all@ == seq![
            FlutterVideoQuality::P180,
            FlutterVideoQuality::P360,
            FlutterVideoQuality::P720,
            FlutterVideoQuality::P1080,
        ],
{
    let mut all: Vec<FlutterVideoQuality> = Vec::new();
    all.push(FlutterVideoQuality::P180);
    all.push(FlutterVideoQuality::P360);
    all.push(FlutterVideoQuality::P720);
    all.push(FlutterVideoQuality::P1080);
    proof {
        assert(all@ =~= seq![
            FlutterVideoQuality::P180,
            FlutterVideoQuality::P360,
            FlutterVideoQuality::P720,
            FlutterVideoQuality::P1080,
        ]);
    }
    all
}

} // verus!
