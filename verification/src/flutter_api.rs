//! Gossip streaming as the host application sees it: its events, its
//! quality presets, and the host's commands on a streaming node that may
//! not have been started yet.

use vstd::prelude::*;
use vstd::std_specs::convert::FromSpecImpl;
use crate::hex::hex_text;
use crate::streaming::StreamEvent;
use crate::streaming::StreamMessage;
use crate::streaming::StreamQuality;

verus! {

/// What a stream tells the host. Endpoints are named by the string form of
/// their id.
#[derive(Debug, Clone)]
pub enum FlutterStreamEvent {
    NeighborUp { endpoint_id: String },
    NeighborDown { endpoint_id: String },
    Presence { from: String, name: String, timestamp: u64 },
    MediaChunk { from: String, data: Vec<u8>, sequence: u64, timestamp: u64 },
    Signal { from: String, data: Vec<u8>, timestamp: u64 },
    Lagged,
    Error { message: String },
}

impl FlutterStreamEvent {
    /// Whether this is what the host is told of the event `e`.
    pub open spec fn tells(&self, e: StreamEvent) -> bool {
        match e {
            StreamEvent::NeighborUp { endpoint_id } => *self matches FlutterStreamEvent::NeighborUp {
                endpoint_id: id,
            } && id@ == hex_text(endpoint_id@),
            StreamEvent::NeighborDown { endpoint_id } => *self matches FlutterStreamEvent::NeighborDown {
                endpoint_id: id,
            } && id@ == hex_text(endpoint_id@),
            StreamEvent::Presence { from, name, sent_timestamp } => *self
                matches FlutterStreamEvent::Presence { from: f, name: n, timestamp: t } && f@
                == hex_text(from@) && n@ == name@ && t == sent_timestamp,
            StreamEvent::MediaChunk { from, data, sequence, timestamp } => *self
                matches FlutterStreamEvent::MediaChunk { from: f, data: d, sequence: s, timestamp: t }
                && f@ == hex_text(from@) && d@ == data@ && s == sequence && t == timestamp,
            StreamEvent::Signal { from, data, timestamp } => *self matches FlutterStreamEvent::Signal {
                from: f,
                data: d,
                timestamp: t,
            } && f@ == hex_text(from@) && d@ == data@ && t == timestamp,
            StreamEvent::Lagged => *self is Lagged,
        }
    }

    /// What the host is told of an event of the stream.
    pub fn from_event(event: StreamEvent) -> (r: Self)
        ensures
            r.tells(event),
    {
        match event {
            StreamEvent::NeighborUp { endpoint_id } => FlutterStreamEvent::NeighborUp {
                endpoint_id: endpoint_id.to_text(),
            },
            StreamEvent::NeighborDown { endpoint_id } => FlutterStreamEvent::NeighborDown {
                endpoint_id: endpoint_id.to_text(),
            },
            StreamEvent::Presence { from, name, sent_timestamp } => FlutterStreamEvent::Presence {
                from: from.to_text(),
                name,
                timestamp: sent_timestamp,
            },
            StreamEvent::MediaChunk { from, data, sequence, timestamp } => FlutterStreamEvent::MediaChunk {
                from: from.to_text(),
                data,
                sequence,
                timestamp,
            },
            StreamEvent::Signal { from, data, timestamp } => FlutterStreamEvent::Signal {
                from: from.to_text(),
                data,
                timestamp,
            },
            StreamEvent::Lagged => FlutterStreamEvent::Lagged,
        }
    }
}

/// Quality preset, as the host names it.
#[derive(Debug, Clone, Copy, PartialEq, Eq, Structural)]
pub enum Quality {
    Low,
    Medium,
    High,
    Ultra,
}

/// What `StreamQuality::from` makes of a `Quality`.
pub open spec fn stream_quality_of(q: Quality) -> StreamQuality {
    match q {
        Quality::Low => StreamQuality::Low,
        Quality::Medium => StreamQuality::Medium,
        Quality::High => StreamQuality::High,
        Quality::Ultra => StreamQuality::Ultra,
    }
}

impl From<Quality> for StreamQuality {
    fn from(q: Quality) -> (r: Self) {
        match q {
            Quality::Low => StreamQuality::Low,
            Quality::Medium => StreamQuality::Medium,
            Quality::High => StreamQuality::High,
            Quality::Ultra => StreamQuality::Ultra,
        }
    }
}

impl FromSpecImpl<Quality> for StreamQuality {
    open spec fn obeys_from_spec() -> bool {
        true
    }

    open spec fn from_spec(q: Quality) -> Self {
        stream_quality_of(q)
    }
}

/// What a capture is asked for at a quality.
#[derive(Debug, Clone, Copy, PartialEq, Eq, Structural)]
pub struct QualityConstraints {
    pub width: u32,
    pub height: u32,
    pub framerate: u32,
    /// Bits per second.
    pub audio_bitrate: u32,
}

/// Picture size, frame rate and audio bitrate of each preset.
pub open spec fn constraints_of(q: Quality) -> QualityConstraints {
    match q {
        Quality::Low => QualityConstraints { width: 640, height: 360, framerate: 15, audio_bitrate: 32000 },
        Quality::Medium => QualityConstraints {
            width: 854,
            height: 480,
            framerate: 24,
            audio_bitrate: 64000,
        },
        Quality::High => QualityConstraints {
            width: 1280,
            height: 720,
            framerate: 30,
            audio_bitrate: 128000,
        },
        Quality::Ultra => QualityConstraints {
            width: 1920,
            height: 1080,
            framerate: 30,
            audio_bitrate: 192000,
        },
    }
}

/// What a capture is asked for at the quality `quality`.
pub fn get_quality_constraints(quality: Quality) -> (c: QualityConstraints)
    ensures
        c == constraints_of(quality),
{
    let q = StreamQuality::from(quality);
    let (width, height, framerate) = q.video_constraints();
    let audio_bitrate = q.audio_bitrate();
    QualityConstraints { width, height, framerate, audio_bitrate }
}

/// Why the host's command was not carried out.
#[derive(Debug, Clone, Copy, PartialEq, Eq, Structural)]
pub enum StreamHostError {
    /// No node was started, or it was shut down since.
    NotInitialized,
    /// No stream was created or joined, or it was left since.
    NotConnected,
}

/// What the host is told of an error.
pub open spec fn error_text(e: StreamHostError) -> Seq<char> {
    match e {
        StreamHostError::NotInitialized => "Streaming node not initialized"@,
        StreamHostError::NotConnected => "Not connected to a stream"@,
    }
}

impl StreamHostError {
    /// What the host is told.
    pub fn message(&self) -> (m: &'static str)
        ensures
            m@ == error_text(*self),
    {
        match self {
            StreamHostError::NotInitialized => "Streaming node not initialized",
            StreamHostError::NotConnected => "Not connected to a stream",
        }
    }
}

/// What the host holds of gossip streaming between its start and its
/// shutdown: the endpoint id of the node, once one is started; whether a
/// stream is joined; and the events that wait for the host's next poll.
pub struct StreamHost {
    node: Option<String>,
    connected: bool,
    events: Vec<FlutterStreamEvent>,
}

impl StreamHost {
    /// The endpoint id of the node, where one is started.
    pub closed spec fn node(&self) -> Option<Seq<char>> {
        match self.node {
            Some(id) => Some(id@),
            None => None,
        }
    }

    /// Whether a stream is joined.
    pub closed spec fn connected(&self) -> bool {
        self.connected
    }

    /// The events that wait for the next poll, oldest first.
    pub closed spec fn waiting(&self) -> Seq<FlutterStreamEvent> {
        self.events@
    }

    /// Nothing started, nothing joined and nothing waiting.
    pub fn new() -> (h: Self)
        ensures
            h.node() is None,
            !h.connected(),
            h.waiting() == Seq::<FlutterStreamEvent>::empty(),
    {
        StreamHost { node: None, connected: false, events: Vec::new() }
    }

    /// Whether a node is started.
    pub fn is_streaming_initialized(&self) -> (b: bool)
        ensures
            b == self.node() is Some,
    {
        self.node.is_some()
    }

    /// Whether a stream is joined.
    pub fn is_connected_to_stream(&self) -> (b: bool)
        ensures
            b == self.connected(),
    {
        self.connected
    }

    /// Records the node that was started for this host and gives the
    /// endpoint id of the host's node. A host that has a node keeps it.
    pub fn init_streaming_node(&mut self, started: &str) -> (id: String)
        ensures
            final(self).waiting() == old(self).waiting(),
            final(self).connected() == old(self).connected(),
            match old(self).node() {
                Some(e) => id@ == e && final(self).node() == old(self).node(),
                None => id@ == started@ && final(self).node() == Some(started@),
            },
    {
        match &self.node {
            Some(id) => id.clone(),
            None => {
                self.node = Some(started.to_owned());
                started.to_owned()
            },
        }
    }

    /// The endpoint id of the host's node.
    pub fn get_endpoint_id(&self) -> (r: Result<String, StreamHostError>)
        ensures
            match r {
                Ok(id) => self.node() == Some(id@),
                Err(e) => e == StreamHostError::NotInitialized && self.node() is None,
            },
    {
        match &self.node {
            Some(id) => Ok(id.clone()),
            None => Err(StreamHostError::NotInitialized),
        }
    }

    /// Records that the node has joined a stream, by creating it or by a
    /// ticket. A host without a node joins nothing.
    pub fn join_stream(&mut self) -> (r: Result<(), StreamHostError>)
        ensures
            final(self).node() == old(self).node(),
            final(self).waiting() == old(self).waiting(),
            match r {
                Ok(_) => old(self).node() is Some && final(self).connected(),
                Err(e) => e == StreamHostError::NotInitialized && old(self).node() is None
                    && final(self).connected() == old(self).connected(),
            },
    {
        if self.node.is_none() {
            return Err(StreamHostError::NotInitialized);
        }
        self.connected = true;
        Ok(())
    }

    /// The message that `message` is sent as, where a stream is joined to
    /// send it on.
    fn outgoing(&self, message: StreamMessage) -> (r: Result<StreamMessage, StreamHostError>)
        ensures
            match r {
                Ok(m) => self.connected() && m == message,
                Err(e) => e == StreamHostError::NotConnected && !self.connected(),
            },
    {
        if self.connected {
            Ok(message)
        } else {
            Err(StreamHostError::NotConnected)
        }
    }

    /// A chunk of media, to be signed and sent to the stream.
    pub fn broadcast_chunk(&self, data: Vec<u8>, sequence: u64) -> (r: Result<
        StreamMessage,
        StreamHostError,
    >)
        ensures
            match r {
                Ok(m) => self.connected() && m == (StreamMessage::MediaChunk { data, sequence }),
                Err(e) => e == StreamHostError::NotConnected && !self.connected(),
            },
    {
        self.outgoing(StreamMessage::MediaChunk { data, sequence })
    }

    /// A sign of life under the name `name`, to be signed and sent.
    pub fn send_presence(&self, name: String) -> (r: Result<StreamMessage, StreamHostError>)
        ensures
            match r {
                Ok(m) => self.connected() && m == (StreamMessage::Presence { name }),
                Err(e) => e == StreamHostError::NotConnected && !self.connected(),
            },
    {
        self.outgoing(StreamMessage::Presence { name })
    }

    /// Bytes that only the applications at both ends understand, to be
    /// signed and sent.
    pub fn send_signal(&self, data: Vec<u8>) -> (r: Result<StreamMessage, StreamHostError>)
        ensures
            match r {
                Ok(m) => self.connected() && m == (StreamMessage::Signal { data }),
                Err(e) => e == StreamHostError::NotConnected && !self.connected(),
            },
    {
        self.outgoing(StreamMessage::Signal { data })
    }

    /// Queues what the host is told of `event`, behind the events that wait.
    pub fn push_event(&mut self, event: StreamEvent)
        ensures
            final(self).node() == old(self).node(),
            final(self).connected() == old(self).connected(),
            final(self).waiting().len() == old(self).waiting().len() + 1,
            final(self).waiting().drop_last() == old(self).waiting(),
            final(self).waiting().last().tells(event),
    {
        let ghost before = self.events@;
        self.events.push(FlutterStreamEvent::from_event(event));
        proof {
            assert(self.events@.drop_last() =~= before);
        }
    }

    /// Queues the report of a fault of the stream, behind the events that
    /// wait.
    pub fn push_error(&mut self, message: String)
        ensures
            final(self).node() == old(self).node(),
            final(self).connected() == old(self).connected(),
            final(self).waiting() == old(self).waiting().push(FlutterStreamEvent::Error { message }),
    {
        self.events.push(FlutterStreamEvent::Error { message });
    }

    /// Hands over the events that wait, oldest first; none waits after.
    pub fn poll_events(&mut self) -> (events: Vec<FlutterStreamEvent>)
        ensures
            events@ == old(self).waiting(),
            final(self).waiting() == Seq::<FlutterStreamEvent>::empty(),
            final(self).node() == old(self).node(),
            final(self).connected() == old(self).connected(),
    {
        let mut events: Vec<FlutterStreamEvent> = Vec::new();
        std::mem::swap(&mut events, &mut self.events);
        events
    }

    /// Leaves the stream and forgets the events that wait. The node stays.
    pub fn leave_stream(&mut self)
        ensures
            final(self).node() == old(self).node(),
            !final(self).connected(),
            final(self).waiting() == Seq::<FlutterStreamEvent>::empty(),
    {
        self.connected = false;
        self.events = Vec::new();
    }

    /// Leaves the stream and forgets the node. Says whether there was a
    /// node, which is then to be shut down.
    pub fn shutdown_streaming(&mut self) -> (was_started: bool)
        ensures
            was_started == old(self).node() is Some,
            final(self).node() is None,
            !final(self).connected(),
            final(self).waiting() == Seq::<FlutterStreamEvent>::empty(),
    {
        self.leave_stream();
        let was_started = self.node.is_some();
        self.node = None;
        was_started
    }
}

} // verus!
