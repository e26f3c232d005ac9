//! The file protocol as the host application sees it: its events, and the
//! host's commands on a direct-streaming endpoint that may not have been
//! started yet.

use vstd::prelude::*;
use vstd::std_specs::convert::FromSpecImpl;
use crate::direct_streaming::parse_direct_ticket;
use crate::direct_streaming::DirectMessage;
use crate::direct_streaming::DirectStreamEvent;
use crate::direct_streaming::DirectStreamTicket;
use crate::direct_streaming::MessageModel;
use crate::iroh_live::usable_relays;
use crate::iroh_live::EndpointAddress;
use crate::iroh_live::TicketModel;
use crate::live_streaming::TicketError;
use crate::moq_protocol::names::texts;

verus! {

/// What a direct connection tells the host.
#[derive(Debug, Clone)]
pub enum FlutterDirectEvent {
    PeerConnected { endpoint_id: String },
    PeerDisconnected { endpoint_id: String },
    RequestMetadata { from: String, timestamp: u64 },
    Metadata {
        from: String,
        file_name: String,
        file_size: u64,
        mime_type: String,
        total_chunks: u32,
        /// Playing time in milliseconds.
        duration_ms: Option<u64>,
        timestamp: u64,
    },
    RequestChunk { from: String, index: u32, timestamp: u64 },
    Chunk { from: String, index: u32, data: Vec<u8>, timestamp: u64 },
    Presence { from: String, name: String, timestamp: u64 },
    Signal { from: String, data: Vec<u8>, timestamp: u64 },
    Error { message: String },
}

/// What `FlutterDirectEvent::from` makes of an event: a message is told
/// with its sender and the time at which it came.
pub open spec fn flutter_direct_event(event: DirectStreamEvent) -> FlutterDirectEvent {
    match event {
        DirectStreamEvent::PeerConnected { endpoint_id } => FlutterDirectEvent::PeerConnected {
            endpoint_id,
        },
        DirectStreamEvent::PeerDisconnected { endpoint_id } => FlutterDirectEvent::PeerDisconnected {
            endpoint_id,
        },
        DirectStreamEvent::Message { from, message, timestamp } => match message {
            DirectMessage::RequestMetadata => FlutterDirectEvent::RequestMetadata { from, timestamp },
            DirectMessage::Metadata { file_name, file_size, mime_type, total_chunks, duration_ms } => {
                FlutterDirectEvent::Metadata {
                    from,
                    file_name,
                    file_size,
                    mime_type,
                    total_chunks,
                    duration_ms,
                    timestamp,
                }
            },
            DirectMessage::RequestChunk { index } => FlutterDirectEvent::RequestChunk {
                from,
                index,
                timestamp,
            },
            DirectMessage::Chunk { index, data } => FlutterDirectEvent::Chunk {
                from,
                index,
                data,
                timestamp,
            },
            DirectMessage::Presence { name } => FlutterDirectEvent::Presence { from, name, timestamp },
            DirectMessage::Signal { data } => FlutterDirectEvent::Signal { from, data, timestamp },
        },
        DirectStreamEvent::Error { message } => FlutterDirectEvent::Error { message },
    }
}

impl From<DirectStreamEvent> for FlutterDirectEvent {
    fn from(event: DirectStreamEvent) -> (r: Self) {
        match event {
            DirectStreamEvent::PeerConnected { endpoint_id } => FlutterDirectEvent::PeerConnected {
                endpoint_id,
            },
            DirectStreamEvent::PeerDisconnected { endpoint_id } => FlutterDirectEvent::PeerDisconnected {
                endpoint_id,
            },
            DirectStreamEvent::Message { from, message, timestamp } => match message {
                DirectMessage::RequestMetadata => FlutterDirectEvent::RequestMetadata { from, timestamp },
                DirectMessage::Metadata { file_name, file_size, mime_type, total_chunks, duration_ms } => {
                    FlutterDirectEvent::Metadata {
                        from,
                        file_name,
                        file_size,
                        mime_type,
                        total_chunks,
                        duration_ms,
                        timestamp,
                    }
                },
                DirectMessage::RequestChunk { index } => FlutterDirectEvent::RequestChunk {
                    from,
                    index,
                    timestamp,
                },
                DirectMessage::Chunk { index, data } => FlutterDirectEvent::Chunk {
                    from,
                    index,
                    data,
                    timestamp,
                },
                DirectMessage::Presence { name } => FlutterDirectEvent::Presence { from, name, timestamp },
                DirectMessage::Signal { data } => FlutterDirectEvent::Signal { from, data, timestamp },
            },
            DirectStreamEvent::Error { message } => FlutterDirectEvent::Error { message },
        }
    }
}

impl FromSpecImpl<DirectStreamEvent> for FlutterDirectEvent {
    open spec fn obeys_from_spec() -> bool {
        true
    }

    open spec fn from_spec(event: DirectStreamEvent) -> Self {
        flutter_direct_event(event)
    }
}

/// Why the host's command was not carried out.
#[derive(Debug, Clone, Copy, PartialEq, Eq, Structural)]
pub enum DirectHostError {
    /// No endpoint was started, or it was shut down since.
    NotInitialized,
    /// The text is no direct ticket.
    InvalidTicket(TicketError),
    /// The endpoint's address does not fit a ticket.
    TicketTooLarge,
}

/// What the host is told of an error.
pub open spec fn error_text(e: DirectHostError) -> Seq<char> {
    match e {
        DirectHostError::NotInitialized => "Direct streaming not initialized"@,
        DirectHostError::InvalidTicket(_) => "Invalid ticket"@,
        DirectHostError::TicketTooLarge => "Ticket too large"@,
    }
}

impl DirectHostError {
    /// What the host is told.
    pub fn message(&self) -> (m: &'static str)
        ensures
            m@ == error_text(*self),
    {
        match self {
            DirectHostError::NotInitialized => "Direct streaming not initialized",
            DirectHostError::InvalidTicket(_) => "Invalid ticket",
            DirectHostError::TicketTooLarge => "Ticket too large",
        }
    }
}

/// What the host holds of direct streaming between its start and its
/// shutdown: the id of the endpoint, once one is started, and the events
/// that wait for the host's next poll.
pub struct DirectHost {
    endpoint_id: Option<String>,
    events: Vec<FlutterDirectEvent>,
}

impl DirectHost {
    /// The id of the endpoint, where one is started.
    pub closed spec fn endpoint(&self) -> Option<Seq<char>> {
        match self.endpoint_id {
            Some(id) => Some(id@),
            None => None,
        }
    }

    /// The events that wait for the next poll, oldest first.
    pub closed spec fn waiting(&self) -> Seq<FlutterDirectEvent> {
        self.events@
    }

    /// Nothing started and nothing waiting.
    pub fn new() -> (h: Self)
        ensures
            h.endpoint() is None,
            h.waiting() == Seq::<FlutterDirectEvent>::empty(),
    {
        DirectHost { endpoint_id: None, events: Vec::new() }
    }

    /// Whether an endpoint is started.
    pub fn is_direct_streaming_initialized(&self) -> (b: bool)
        ensures
            b == self.endpoint() is Some,
    {
        self.endpoint_id.is_some()
    }

    /// Records the endpoint that was started for this host and gives the id
    /// of the host's endpoint. A host that has an endpoint keeps it.
    pub fn init_direct_streaming(&mut self, started: &str) -> (id: String)
        ensures
            final(self).waiting() == old(self).waiting(),
            match old(self).endpoint() {
                Some(e) => id@ == e && final(self).endpoint() == old(self).endpoint(),
                None => id@ == started@ && final(self).endpoint() == Some(started@),
            },
    {
        match &self.endpoint_id {
            Some(id) => id.clone(),
            None => {
                self.endpoint_id = Some(started.to_owned());
                started.to_owned()
            },
        }
    }

    /// The id of the host's endpoint.
    pub fn get_direct_endpoint_id(&self) -> (r: Result<String, DirectHostError>)
        ensures
            match r {
                Ok(id) => self.endpoint() == Some(id@),
                Err(e) => e == DirectHostError::NotInitialized && self.endpoint() is None,
            },
    {
        match &self.endpoint_id {
            Some(id) => Ok(id.clone()),
            None => Err(DirectHostError::NotInitialized),
        }
    }

    /// The ticket to hand to viewers, for a started endpoint that is reached
    /// at `addr`: its string form stands for the endpoint's id, its first
    /// relay URL and its direct addresses.
    pub fn create_direct_stream(&self, addr: &EndpointAddress) -> (r: Result<String, DirectHostError>)
        ensures
            match r {
                Ok(s) => self.endpoint() is Some && parse_direct_ticket(s@) == Ok::<
                    TicketModel,
                    TicketError,
                >(
                    TicketModel {
                        endpoint_id: addr.id@,
                        broadcast_name: None,
                        relay_urls: if addr.relay_urls@.len() > 0 {
                            seq![addr.relay_urls@[0]@]
                        } else {
                            Seq::<Seq<char>>::empty()
                        },
                        direct_addrs: addr.ip_addrs@,
                    },
                ),
                Err(e) => e != DirectHostError::NotInitialized <==> self.endpoint() is Some,
            },
    {
        if self.endpoint_id.is_none() {
            return Err(DirectHostError::NotInitialized);
        }
        let ticket = DirectStreamTicket::new(addr);
        match ticket.serialize() {
            Some(s) => Ok(s),
            None => Err(DirectHostError::TicketTooLarge),
        }
    }

    /// The address to dial for the ticket `ticket_str`, for a started
    /// endpoint.
    pub fn join_direct_stream(&self, ticket_str: &str) -> (r: Result<EndpointAddress, DirectHostError>)
        requires
            ticket_str@.len() <= usize::MAX / 32,
        ensures
            self.endpoint() is None ==> r == Err::<EndpointAddress, DirectHostError>(
                DirectHostError::NotInitialized,
            ),
            self.endpoint() is Some ==> match parse_direct_ticket(ticket_str@) {
                Ok(t) => r matches Ok(addr) && addr.id@ == t.endpoint_id && texts(addr.relay_urls@)
                    == usable_relays(t.relay_urls) && addr.ip_addrs@ == t.direct_addrs,
                Err(e) => r == Err::<EndpointAddress, DirectHostError>(DirectHostError::InvalidTicket(e)),
            },
    {
        if self.endpoint_id.is_none() {
            return Err(DirectHostError::NotInitialized);
        }
        match DirectStreamTicket::deserialize(ticket_str) {
            Ok(ticket) => Ok(ticket.to_endpoint_addr()),
            Err(e) => Err(DirectHostError::InvalidTicket(e)),
        }
    }

    /// The message that `message` is sent as, where an endpoint is started
    /// to send it.
    fn outgoing(&self, message: DirectMessage) -> (r: Result<DirectMessage, DirectHostError>)
        ensures
            match r {
                Ok(m) => self.endpoint() is Some && m == message,
                Err(e) => e == DirectHostError::NotInitialized && self.endpoint() is None,
            },
    {
        if self.endpoint_id.is_some() {
            Ok(message)
        } else {
            Err(DirectHostError::NotInitialized)
        }
    }

    /// The announcement of a file, to be sent to every peer.
    pub fn direct_send_metadata(
        &self,
        file_name: String,
        file_size: u64,
        mime_type: String,
        total_chunks: u32,
        duration_ms: Option<u64>,
    ) -> (r: Result<DirectMessage, DirectHostError>)
        ensures
            match r {
                Ok(m) => self.endpoint() is Some && m@ == (MessageModel::Metadata {
                    file_name: file_name@,
                    file_size,
                    mime_type: mime_type@,
                    total_chunks,
                    duration_ms,
                }),
                Err(e) => e == DirectHostError::NotInitialized && self.endpoint() is None,
            },
    {
        self.outgoing(DirectMessage::Metadata { file_name, file_size, mime_type, total_chunks, duration_ms })
    }

    /// A chunk of the file, to be sent to every peer.
    pub fn direct_send_chunk(&self, index: u32, data: Vec<u8>) -> (r: Result<
        DirectMessage,
        DirectHostError,
    >)
        ensures
            match r {
                Ok(m) => self.endpoint() is Some && m@ == (MessageModel::Chunk { index, data: data@ }),
                Err(e) => e == DirectHostError::NotInitialized && self.endpoint() is None,
            },
    {
        self.outgoing(DirectMessage::Chunk { index, data })
    }

    /// The request for the file's announcement.
    pub fn direct_request_metadata(&self) -> (r: Result<DirectMessage, DirectHostError>)
        ensures
            match r {
                Ok(m) => self.endpoint() is Some && m@ == MessageModel::RequestMetadata,
                Err(e) => e == DirectHostError::NotInitialized && self.endpoint() is None,
            },
    {
        self.outgoing(DirectMessage::RequestMetadata)
    }

    /// The request for the chunk `index`.
    pub fn direct_request_chunk(&self, index: u32) -> (r: Result<DirectMessage, DirectHostError>)
        ensures
            match r {
                Ok(m) => self.endpoint() is Some && m@ == (MessageModel::RequestChunk { index }),
                Err(e) => e == DirectHostError::NotInitialized && self.endpoint() is None,
            },
    {
        self.outgoing(DirectMessage::RequestChunk { index })
    }

    /// A sign of life under the name `name`.
    pub fn direct_send_presence(&self, name: String) -> (r: Result<DirectMessage, DirectHostError>)
        ensures
            match r {
                Ok(m) => self.endpoint() is Some && m@ == (MessageModel::Presence { name: name@ }),
                Err(e) => e == DirectHostError::NotInitialized && self.endpoint() is None,
            },
    {
        self.outgoing(DirectMessage::Presence { name })
    }

    /// Bytes that only the applications at both ends understand.
    pub fn direct_send_signal(&self, data: Vec<u8>) -> (r: Result<DirectMessage, DirectHostError>)
        ensures
            match r {
                Ok(m) => self.endpoint() is Some && m@ == (MessageModel::Signal { data: data@ }),
                Err(e) => e == DirectHostError::NotInitialized && self.endpoint() is None,
            },
    {
        self.outgoing(DirectMessage::Signal { data })
    }

    /// Queues what the host is told of `event`, behind the events that wait.
    pub fn push_event(&mut self, event: DirectStreamEvent)
        ensures
            final(self).endpoint() == old(self).endpoint(),
            final(self).waiting() == old(self).waiting().push(flutter_direct_event(event)),
    {
        self.events.push(FlutterDirectEvent::from(event));
    }

    /// Hands over the events that wait, oldest first; none waits after.
    pub fn poll_direct_events(&mut self) -> (events: Vec<FlutterDirectEvent>)
        ensures
            events@ == old(self).waiting(),
            final(self).waiting() == Seq::<FlutterDirectEvent>::empty(),
            final(self).endpoint() == old(self).endpoint(),
    {
        let mut events: Vec<FlutterDirectEvent> = Vec::new();
        std::mem::swap(&mut events, &mut self.events);
        events
    }

    /// Number of peers as the host counts them: `connected` of a started
    /// endpoint, as far as 32 bits count, and none before it is started.
    pub fn get_direct_peer_count(&self, connected: usize) -> (n: u32)
        ensures
            self.endpoint() is None ==> n == 0,
            self.endpoint() is Some && connected <= u32::MAX ==> n == connected,
            self.endpoint() is Some && connected > u32::MAX ==> n == u32::MAX,
    {
        if self.endpoint_id.is_none() {
            0
        } else if connected > u32::MAX as usize {
            u32::MAX
        } else {
            connected as u32
        }
    }

    /// Forgets the endpoint and the events that wait. Says whether there
    /// was an endpoint, which is then to be shut down.
    pub fn leave_direct_stream(&mut self) -> (was_started: bool)
        ensures
            was_started == old(self).endpoint() is Some,
            final(self).endpoint() is None,
            final(self).waiting() == Seq::<FlutterDirectEvent>::empty(),
    {
        let was_started = self.endpoint_id.is_some();
        self.endpoint_id = None;
        self.events = Vec::new();
        was_started
    }

    /// Ends direct streaming: the same as leaving the stream.
    pub fn shutdown_direct_streaming(&mut self) -> (was_started: bool)
        ensures
            was_started == old(self).endpoint() is Some,
            final(self).endpoint() is None,
            final(self).waiting() == Seq::<FlutterDirectEvent>::empty(),
    {
        self.leave_direct_stream()
    }
}

} // verus!
