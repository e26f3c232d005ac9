//! Peer-to-peer live media streaming core: the track hierarchy with its
//! subscription filters, the priority scheduler, namespace discovery, tickets,
//! connection statistics, the decisions of the publish and subscribe
//! pipelines and of the peer coordinator, the bytes of every message and
//! catalog, and the commands of a host application on all of these.

pub mod clock;
pub mod text;
pub mod hex;
pub mod base32;
pub mod wire;
pub mod record;
pub mod endpoint;
pub mod moq_protocol;
pub mod live_streaming;
pub mod catalog_wire;
pub mod direct_streaming;
pub mod live_message;
pub mod iroh_live;
pub mod streaming;
pub mod webtransport;
pub mod live_protocol;
pub mod av;
pub mod capture;
pub mod ffmpeg;
pub mod ffmpeg_encoder;
pub mod publish;
pub mod publish_broadcast;
pub mod subscribe;
pub mod subscribe_broadcast;
pub mod flutter_api;
pub mod direct_flutter_api;
pub mod live_flutter_api;
pub mod moq_flutter_api;
pub mod ffmpeg_flutter_api;
pub mod iroh_live_flutter_api;
