//! Tickets with full addressing, video packets, and the bookkeeping of the
//! publishers and subscribers of a node.

use vstd::prelude::*;
use crate::base32::base32_bytes;
use crate::base32::base32_text;
use crate::base32::encoded_len;
use crate::base32::lemma_case_round_trip;
use crate::endpoint::EndpointId;
use crate::endpoint::is_endpoint_key;
use crate::live_streaming::TicketError;
use crate::live_streaming::parse_live_ticket;
use crate::moq_protocol::lookup::first_index;
use crate::moq_protocol::lookup::lemma_first_index_is;
use crate::moq_protocol::names::texts;
use crate::hex::hex_char;
use crate::hex::hex_text;
use crate::text::ascii_lower;
use crate::text::ascii_upper;
use crate::text::last_index;
use crate::text::lemma_last_index_is;
use crate::text::rfind_char;
use crate::text::to_ascii_lowercase;
use crate::text::to_ascii_uppercase;
use crate::wire::fits;
use crate::wire::lemma_parse_fixed;
use crate::wire::lemma_parse_list_more;
use crate::wire::lemma_parse_put_blob;
use crate::wire::lemma_parse_put_list;
use crate::wire::lemma_parse_put_text;
use crate::wire::lemma_parse_put_u128;
use crate::wire::lemma_parse_put_u16;
use crate::wire::lemma_parse_put_u32;
use crate::wire::lemma_parse_put_u64;
use crate::wire::lemma_parse_put_u8;
use crate::wire::parse_blob;
use crate::wire::parse_fixed;
use crate::wire::parse_list;
use crate::wire::parse_text;
use crate::wire::parse_u128;
use crate::wire::parse_u16;
use crate::wire::parse_u32;
use crate::wire::parse_u64;
use crate::wire::parse_u8;
use crate::wire::put_blob;
use crate::wire::put_list;
use crate::wire::put_text;
use crate::wire::put_u128;
use crate::wire::put_u16;
use crate::wire::put_u32;
use crate::wire::put_u64;
use crate::wire::put_u8;
use crate::wire::read_blob;
use crate::wire::read_fixed;
use crate::wire::read_text;
use crate::wire::read_u128;
use crate::wire::read_u16;
use crate::wire::read_u32;
use crate::wire::read_u64;
use crate::wire::read_u8;
use crate::wire::lemma_parse_list_fails;
use crate::wire::read_texts;
use crate::wire::text_fits;
use crate::wire::text_item;
use crate::wire::text_put;
use crate::wire::write_blob;
use crate::wire::write_raw;
use crate::wire::write_text;
use crate::wire::write_u128;
use crate::wire::write_u16;
use crate::wire::write_u32;
use crate::wire::write_u64;
use crate::wire::write_u8;

verus! {

#[verifier::external_type_specification]
#[verifier::external_body]
pub struct ExRelayUrlParseError(iroh::RelayUrlParseError);

/// What `iroh::RelayUrl::from_str` makes of a text: the string form of the
/// URL that it stands for, or nothing where it is no URL.
pub uninterp spec fn relay_url_text(text: Seq<char>) -> Option<Seq<char>>;

/// Calls `iroh::RelayUrl::from_str` and gives the string form of the URL.
/// Whether a text is a URL, and which, depends on the text alone.
#[verifier::external_body]
fn parse_relay_url(text: &str) -> (r: Result<String, iroh::RelayUrlParseError>)
    ensures
        match r {
            Ok(url) => relay_url_text(text@) == Some(url@),
            Err(_) => relay_url_text(text@) is None,
        },
{
    text.parse::<iroh::RelayUrl>().map(|url| url.to_string())
}

/// The protocol identifier offered at session setup.
pub const ALPN: &'static str = "iroh-live/1";

/// An IP address, as a number in network order, and a port.
#[derive(Debug, Clone, Copy, PartialEq, Eq, Hash, Structural)]
pub enum SocketAddress {
    V4 { ip: u32, port: u16 },
    V6 { ip: u128, port: u16 },
}

/// How an endpoint can be reached.
#[derive(Debug, Clone, PartialEq, Eq)]
pub struct EndpointAddress {
    pub id: EndpointId,
    pub relay_urls: Vec<String>,
    pub ip_addrs: Vec<SocketAddress>,
}

/// What a ticket holds, as mathematical values.
pub struct TicketModel {
    pub endpoint_id: Seq<u8>,
    pub broadcast_name: Option<Seq<char>>,
    pub relay_urls: Seq<Seq<char>>,
    pub direct_addrs: Seq<SocketAddress>,
}

/// A shareable value that tells how to reach an endpoint and, optionally,
/// which broadcast to join.
#[derive(Debug, Clone, PartialEq, Eq)]
pub struct LiveTicket {
    pub endpoint_id: EndpointId,
    pub broadcast_name: Option<String>,
    pub relay_urls: Vec<String>,
    pub direct_addrs: Vec<SocketAddress>,
}

pub open spec fn name_model(name: Option<String>) -> Option<Seq<char>> {
    match name {
        Some(n) => Some(n@),
        None => None,
    }
}

impl View for LiveTicket {
    type V = TicketModel;

    open spec fn view(&self) -> TicketModel {
        TicketModel {
            endpoint_id: self.endpoint_id@,
            broadcast_name: name_model(self.broadcast_name),
            relay_urls: texts(self.relay_urls@),
            direct_addrs: self.direct_addrs@,
        }
    }
}

/// An address on the wire: a byte that tells its kind, the IP address and
/// the port.
pub open spec fn put_addr(a: SocketAddress) -> Seq<u8> {
    match a {
        SocketAddress::V4 { ip, port } => put_u8(4) + put_u32(ip) + put_u16(port),
        SocketAddress::V6 { ip, port } => put_u8(6) + put_u128(ip) + put_u16(port),
    }
}

pub open spec fn parse_addr(data: Seq<u8>) -> Option<(SocketAddress, Seq<u8>)> {
    match parse_u8(data) {
        Some((kind, rest)) => if kind == 4 {
            match parse_u32(rest) {
                Some((ip, rest)) => match parse_u16(rest) {
                    Some((port, rest)) => Some((SocketAddress::V4 { ip, port }, rest)),
                    None => None,
                },
                None => None,
            }
        } else if kind == 6 {
            match parse_u128(rest) {
                Some((ip, rest)) => match parse_u16(rest) {
                    Some((port, rest)) => Some((SocketAddress::V6 { ip, port }, rest)),
                    None => None,
                },
                None => None,
            }
        } else {
            None
        },
        None => None,
    }
}

pub open spec fn addr_put() -> spec_fn(SocketAddress) -> Seq<u8> {
    |a: SocketAddress| put_addr(a)
}

pub open spec fn addr_item() -> spec_fn(Seq<u8>) -> Option<(SocketAddress, Seq<u8>)> {
    |data: Seq<u8>| parse_addr(data)
}

/// An optional name on the wire: a zero byte for none, else a one and the
/// name.
pub open spec fn put_name(name: Option<Seq<char>>) -> Seq<u8> {
    match name {
        None => put_u8(0),
        Some(n) => put_u8(1) + put_text(n),
    }
}

pub open spec fn parse_name(data: Seq<u8>) -> Option<(Option<Seq<char>>, Seq<u8>)> {
    match parse_u8(data) {
        Some((flag, rest)) => if flag == 0 {
            Some((None, rest))
        } else if flag == 1 {
            match parse_text(rest) {
                Some((n, rest)) => Some((Some(n), rest)),
                None => None,
            }
        } else {
            None
        },
        None => None,
    }
}

/// The record of a ticket: the 32 bytes of the endpoint id, the optional
/// name, the number of relay URLs and each of them, the number of direct
/// addresses and each of them.
pub open spec fn ticket_bytes(t: TicketModel) -> Seq<u8> {
    t.endpoint_id + put_name(t.broadcast_name) + put_u32(t.relay_urls.len() as u32) + put_list(
        t.relay_urls,
        text_put(),
    ) + put_u32(t.direct_addrs.len() as u32) + put_list(t.direct_addrs, addr_put())
}

/// The ticket that a record stands for. Nothing may follow the record.
pub open spec fn parse_ticket(data: Seq<u8>) -> Option<TicketModel> {
    match parse_fixed(data, 32) {
        None => None,
        Some((endpoint_id, rest)) => match parse_name(rest) {
            None => None,
            Some((broadcast_name, rest)) => match parse_u32(rest) {
                None => None,
                Some((relays, rest)) => match parse_list(rest, relays as nat, text_item()) {
                    None => None,
                    Some((relay_urls, rest)) => match parse_u32(rest) {
                        None => None,
                        Some((addrs, rest)) => match parse_list(rest, addrs as nat, addr_item()) {
                            None => None,
                            Some((direct_addrs, rest)) => if rest.len() == 0 {
                                Some(
                                    TicketModel {
                                        endpoint_id,
                                        broadcast_name,
                                        relay_urls,
                                        direct_addrs,
                                    },
                                )
                            } else {
                                None
                            },
                        },
                    },
                },
            },
        },
    }
}

/// Every text and every count of the ticket fits the record's four-byte
/// lengths.
pub open spec fn fields_fit(t: TicketModel) -> bool {
    &&& t.endpoint_id.len() == 32
    &&& (t.broadcast_name matches Some(n) ==> text_fits(n))
    &&& t.relay_urls.len() <= u32::MAX
    &&& forall|i: int| 0 <= i < t.relay_urls.len() ==> text_fits(#[trigger] t.relay_urls[i])
    &&& t.direct_addrs.len() <= u32::MAX
}

/// Reading what was written for the address `a` gives `a` and what
/// follows it.
pub proof fn lemma_parse_put_addr(a: SocketAddress, rest: Seq<u8>)
    ensures
        parse_addr(put_addr(a) + rest) == Some((a, rest)),
{
    match a {
        SocketAddress::V4 { ip, port } => {
            let r1 = put_u32(ip) + (put_u16(port) + rest);
            assert(put_addr(a) + rest =~= put_u8(4) + r1);
            lemma_parse_put_u8(4, r1);
            lemma_parse_put_u32(ip, put_u16(port) + rest);
            lemma_parse_put_u16(port, rest);
        },
        SocketAddress::V6 { ip, port } => {
            let r1 = put_u128(ip) + (put_u16(port) + rest);
            assert(put_addr(a) + rest =~= put_u8(6) + r1);
            lemma_parse_put_u8(6, r1);
            lemma_parse_put_u128(ip, put_u16(port) + rest);
            lemma_parse_put_u16(port, rest);
        },
    }
}

/// Reading what was written for `name` gives `name` and what follows it.
pub proof fn lemma_parse_put_name(name: Option<Seq<char>>, rest: Seq<u8>)
    requires
        name matches Some(n) ==> text_fits(n),
    ensures
        parse_name(put_name(name) + rest) == Some((name, rest)),
{
    match name {
        None => {
            lemma_parse_put_u8(0, rest);
        },
        Some(n) => {
            assert(put_name(name) + rest =~= put_u8(1) + (put_text(n) + rest));
            lemma_parse_put_u8(1, put_text(n) + rest);
            lemma_parse_put_text(n, rest);
        },
    }
}

/// A record that is read back gives the ticket it was written from.
pub proof fn lemma_ticket_record_round_trip(t: TicketModel)
    requires
        fields_fit(t),
    ensures
        parse_ticket(ticket_bytes(t)) == Some(t),
{
    let empty = Seq::<u8>::empty();
    let addrs = put_list(t.direct_addrs, addr_put());
    let r5 = addrs + empty;
    let r4 = put_u32(t.direct_addrs.len() as u32) + r5;
    let relays = put_list(t.relay_urls, text_put());
    let r3 = relays + r4;
    let r2 = put_u32(t.relay_urls.len() as u32) + r3;
    let r1 = put_name(t.broadcast_name) + r2;
    assert(ticket_bytes(t) =~= t.endpoint_id + r1);
    lemma_parse_fixed(t.endpoint_id, r1);
    lemma_parse_put_name(t.broadcast_name, r2);
    lemma_parse_put_u32(t.relay_urls.len() as u32, r3);
    assert forall|i: int, after: Seq<u8>| 0 <= i < t.relay_urls.len() implies #[trigger] text_item()(
        text_put()(t.relay_urls[i]) + after,
    ) == Some((t.relay_urls[i], after)) by {
        lemma_parse_put_text(t.relay_urls[i], after);
    }
    lemma_parse_put_list(t.relay_urls, text_put(), text_item(), r4);
    lemma_parse_put_u32(t.direct_addrs.len() as u32, r5);
    assert forall|i: int, after: Seq<u8>| 0 <= i < t.direct_addrs.len() implies #[trigger] addr_item()(
        addr_put()(t.direct_addrs[i]) + after,
    ) == Some((t.direct_addrs[i], after)) by {
        lemma_parse_put_addr(t.direct_addrs[i], after);
    }
    lemma_parse_put_list(t.direct_addrs, addr_put(), addr_item(), empty);
}

/// The string form of a ticket: its record in lower-case base32 without
/// padding.
pub open spec fn ticket_text(t: TicketModel) -> Seq<char> {
    ascii_lower(base32_text(ticket_bytes(t)))
}

/// The ticket with the name and endpoint id of a short ticket and no
/// addresses.
pub open spec fn from_short(name: Seq<char>, endpoint_id: Seq<u8>) -> TicketModel {
    TicketModel {
        endpoint_id,
        broadcast_name: Some(name),
        relay_urls: Seq::empty(),
        direct_addrs: Seq::empty(),
    }
}

/// What a text stands for as a ticket. A text with an `@` is read in the
/// short form, a name and an endpoint id; every other text as the base32
/// form, in either case, of a record.
pub open spec fn parse_ticket_text(input: Seq<char>) -> Result<TicketModel, TicketError> {
    if last_index(input, '@') >= 0 {
        match parse_live_ticket(input) {
            Ok(short) => Ok(from_short(short.broadcast_name, short.endpoint_id)),
            Err(e) => Err(e),
        }
    } else {
        match base32_bytes(ascii_upper(input)) {
            None => Err(TicketError::InvalidEncoding),
            Some(bytes) => match parse_ticket(bytes) {
                None => Err(TicketError::InvalidRecord),
                Some(t) => if is_endpoint_key(t.endpoint_id) {
                    Ok(t)
                } else {
                    Err(TicketError::InvalidKey)
                },
            },
        }
    }
}

/// Reads one address at `pos`.
fn read_addr(data: &[u8], pos: usize) -> (r: Option<(SocketAddress, usize)>)
    requires
        pos <= data@.len(),
    ensures
        match r {
            Some((a, next)) => pos <= next <= data@.len() && parse_addr(data@.skip(pos as int))
                == Some((a, data@.skip(next as int))),
            None => parse_addr(data@.skip(pos as int)) is None,
        },
{
    let (kind, at) = match read_u8(data, pos) {
        Some(r) => r,
        None => {
            return None;
        },
    };
    if kind == 4 {
        let (ip, at) = match read_u32(data, at) {
            Some(r) => r,
            None => {
                return None;
            },
        };
        match read_u16(data, at) {
            Some((port, next)) => Some((SocketAddress::V4 { ip, port }, next)),
            None => None,
        }
    } else if kind == 6 {
        let (ip, at) = match read_u128(data, at) {
            Some(r) => r,
            None => {
                return None;
            },
        };
        match read_u16(data, at) {
            Some((port, next)) => Some((SocketAddress::V6 { ip, port }, next)),
            None => None,
        }
    } else {
        None
    }
}

/// Reads `count` addresses at `pos`.
fn read_addrs(data: &[u8], pos: usize, count: u32) -> (r: Option<(Vec<SocketAddress>, usize)>)
    requires
        pos <= data@.len(),
    ensures
        match r {
            Some((items, next)) => pos <= next <= data@.len() && parse_list(
                data@.skip(pos as int),
                count as nat,
                addr_item(),
            ) == Some((items@, data@.skip(next as int))),
            None => parse_list(data@.skip(pos as int), count as nat, addr_item()) is None,
        },
{
    let ghost start = data@.skip(pos as int);
    let mut items: Vec<SocketAddress> = Vec::new();
    let mut at = pos;
    let mut i: u32 = 0;
    proof {
        assert(items@ =~= Seq::<SocketAddress>::empty());
    }
    while i < count
        invariant
            start == data@.skip(pos as int),
            pos <= at <= data@.len(),
            0 <= i <= count,
            parse_list(start, i as nat, addr_item()) == Some((items@, data@.skip(at as int))),
        decreases count - i,
    {
        proof {
            lemma_parse_list_more(start, i as nat, addr_item());
        }
        match read_addr(data, at) {
            Some((a, next)) => {
                items.push(a);
                at = next;
            },
            None => {
                proof {
                    lemma_parse_list_fails(start, i as nat, count as nat, addr_item());
                }
                return None;
            },
        }
        i = i + 1;
    }
    Some((items, at))
}

impl SocketAddress {
    pub fn port(&self) -> (p: u16)
        ensures
            p == match *self {
                SocketAddress::V4 { port, .. } => port,
                SocketAddress::V6 { port, .. } => port,
            },
    {
        match self {
            SocketAddress::V4 { port, .. } => *port,
            SocketAddress::V6 { port, .. } => *port,
        }
    }
}

/// Copies of the texts of `v`, in order.
fn copy_texts(v: &Vec<String>) -> (r: Vec<String>)
    ensures
        texts(r@) == texts(v@),
{
    crate::moq_protocol::object::copy_strings(v)
}

/// Copies of the addresses of `v`, in order.
fn copy_addrs(v: &Vec<SocketAddress>) -> (r: Vec<SocketAddress>)
    ensures
        r@ == v@,
{
    let mut r: Vec<SocketAddress> = Vec::new();
    let mut i: usize = 0;
    while i < v.len()
        invariant
            0 <= i <= v@.len(),
            r@ == v@.take(i as int),
        decreases v@.len() - i,
    {
        r.push(v[i]);
        proof {
            assert(r@ =~= v@.take(i + 1));
        }
        i = i + 1;
    }
    proof {
        assert(v@.take(v@.len() as int) =~= v@);
    }
    r
}

/// The URLs that the texts of `relays` stand for, in order; a text that is
/// no URL is left out.
pub open spec fn usable_relays(relays: Seq<Seq<char>>) -> Seq<Seq<char>>
    decreases relays.len(),
{
    if relays.len() == 0 {
        Seq::empty()
    } else {
        let before = usable_relays(relays.drop_last());
        match relay_url_text(relays.last()) {
            Some(url) => before.push(url),
            None => before,
        }
    }
}

impl LiveTicket {
    /// A ticket for the broadcast `broadcast_name` of an endpoint, without
    /// addresses.
    pub fn new(endpoint_id: EndpointId, broadcast_name: &str) -> (t: Self)
        ensures
            t@ == from_short(broadcast_name@, endpoint_id@),
            t.endpoint_id == endpoint_id,
    {
        let t = Self {
            endpoint_id,
            broadcast_name: Some(broadcast_name.to_owned()),
            relay_urls: Vec::new(),
            direct_addrs: Vec::new(),
        };
        proof {
            assert(texts(t.relay_urls@) =~= Seq::<Seq<char>>::empty());
            assert(t.direct_addrs@ =~= Seq::<SocketAddress>::empty());
        }
        t
    }

    /// A ticket for the broadcast `broadcast_name` of the endpoint at
    /// `addr`, with every relay URL and every direct address of `addr`.
    pub fn with_addr(addr: &EndpointAddress, broadcast_name: &str) -> (t: Self)
        ensures
            t@ == (TicketModel {
                endpoint_id: addr.id@,
                broadcast_name: Some(broadcast_name@),
                relay_urls: texts(addr.relay_urls@),
                direct_addrs: addr.ip_addrs@,
            }),
    {
        Self {
            endpoint_id: addr.id,
            broadcast_name: Some(broadcast_name.to_owned()),
            relay_urls: copy_texts(&addr.relay_urls),
            direct_addrs: copy_addrs(&addr.ip_addrs),
        }
    }

    /// The address of the ticket's endpoint: its relay URLs, each in the
    /// form that the URL parser gives it and those that are no URL left
    /// out, and its direct addresses, both in the ticket's order.
    pub fn to_endpoint_addr(&self) -> (addr: EndpointAddress)
        ensures
            addr.id == self.endpoint_id,
            texts(addr.relay_urls@) == usable_relays(self@.relay_urls),
            addr.ip_addrs@ == self@.direct_addrs,
    {
        let mut relay_urls: Vec<String> = Vec::new();
        let ghost all = self@.relay_urls;
        let mut i: usize = 0;
        proof {
            assert(all.take(0) =~= Seq::<Seq<char>>::empty());
            assert(texts(relay_urls@) =~= Seq::<Seq<char>>::empty());
        }
        while i < self.relay_urls.len()
            invariant
                all == self@.relay_urls,
                0 <= i <= self.relay_urls@.len(),
                texts(relay_urls@) == usable_relays(all.take(i as int)),
            decreases self.relay_urls@.len() - i,
        {
            proof {
                assert(all.take(i + 1).drop_last() =~= all.take(i as int));
                assert(all.take(i + 1).last() == self.relay_urls@[i as int]@);
            }
            match parse_relay_url(self.relay_urls[i].as_str()) {
                Ok(url) => {
                    proof {
                        assert(texts(relay_urls@.push(url)) =~= texts(relay_urls@).push(url@));
                    }
                    relay_urls.push(url);
                },
                Err(_) => {},
            }
            i = i + 1;
        }
        proof {
            assert(all.take(self.relay_urls@.len() as int) =~= all);
        }
        EndpointAddress { id: self.endpoint_id, relay_urls, ip_addrs: copy_addrs(&self.direct_addrs) }
    }

    /// Whether every text and count of the ticket fits the record.
    pub fn fits_record(&self) -> (b: bool)
        ensures
            b == fields_fit(self@),
    {
        proof {
            use_type_invariant(&self.endpoint_id);
        }
        match &self.broadcast_name {
            Some(n) => {
                if !fits(n.as_str()) {
                    return false;
                }
            },
            None => {},
        }
        if self.relay_urls.len() > u32::MAX as usize || self.direct_addrs.len() > u32::MAX as usize {
            return false;
        }
        let mut i: usize = 0;
        while i < self.relay_urls.len()
            invariant
                0 <= i <= self.relay_urls@.len(),
                forall|k: int| 0 <= k < i ==> text_fits(#[trigger] self@.relay_urls[k]),
            decreases self.relay_urls@.len() - i,
        {
            if !fits(self.relay_urls[i].as_str()) {
                assert(!text_fits(self@.relay_urls[i as int]));
                return false;
            }
            i = i + 1;
        }
        true
    }

    /// The ticket's record.
    pub fn to_bytes(&self) -> (out: Vec<u8>)
        requires
            fields_fit(self@),
        ensures
            out@ == ticket_bytes(self@),
    {
        let ghost t = self@;
        let mut out: Vec<u8> = Vec::new();
        write_raw(&mut out, self.endpoint_id.as_bytes().as_slice());
        match &self.broadcast_name {
            None => {
                write_u8(&mut out, 0);
            },
            Some(n) => {
                write_u8(&mut out, 1);
                write_text(&mut out, n.as_str());
            },
        }
        proof {
            assert(out@ =~= t.endpoint_id + put_name(t.broadcast_name));
        }
        write_u32(&mut out, self.relay_urls.len() as u32);
        let ghost head = out@;
        let mut i: usize = 0;
        proof {
            assert(t.relay_urls.take(0) =~= Seq::<Seq<char>>::empty());
            assert(head + put_list(t.relay_urls.take(0), text_put()) =~= head);
        }
        while i < self.relay_urls.len()
            invariant
                t == self@,
                fields_fit(t),
                0 <= i <= self.relay_urls@.len(),
                out@ == head + put_list(t.relay_urls.take(i as int), text_put()),
            decreases self.relay_urls@.len() - i,
        {
            proof {
                assert(t.relay_urls.take(i + 1).drop_last() =~= t.relay_urls.take(i as int));
                assert(t.relay_urls.take(i + 1).last() == self.relay_urls@[i as int]@);
                assert(text_fits(t.relay_urls[i as int]));
            }
            write_text(&mut out, self.relay_urls[i].as_str());
            proof {
                assert(out@ =~= head + put_list(t.relay_urls.take(i + 1), text_put()));
            }
            i = i + 1;
        }
        proof {
            assert(t.relay_urls.take(self.relay_urls@.len() as int) =~= t.relay_urls);
        }
        write_u32(&mut out, self.direct_addrs.len() as u32);
        let ghost head = out@;
        let mut i: usize = 0;
        proof {
            assert(t.direct_addrs.take(0) =~= Seq::<SocketAddress>::empty());
            assert(head + put_list(t.direct_addrs.take(0), addr_put()) =~= head);
        }
        while i < self.direct_addrs.len()
            invariant
                t == self@,
                0 <= i <= self.direct_addrs@.len(),
                out@ == head + put_list(t.direct_addrs.take(i as int), addr_put()),
            decreases self.direct_addrs@.len() - i,
        {
            proof {
                assert(t.direct_addrs.take(i + 1).drop_last() =~= t.direct_addrs.take(i as int));
                assert(t.direct_addrs.take(i + 1).last() == self.direct_addrs@[i as int]);
            }
            match self.direct_addrs[i] {
                SocketAddress::V4 { ip, port } => {
                    write_u8(&mut out, 4);
                    write_u32(&mut out, ip);
                    write_u16(&mut out, port);
                },
                SocketAddress::V6 { ip, port } => {
                    write_u8(&mut out, 6);
                    write_u128(&mut out, ip);
                    write_u16(&mut out, port);
                },
            }
            proof {
                assert(out@ =~= head + put_list(t.direct_addrs.take(i + 1), addr_put()));
            }
            i = i + 1;
        }
        proof {
            assert(t.direct_addrs.take(self.direct_addrs@.len() as int) =~= t.direct_addrs);
            assert(out@ =~= ticket_bytes(t));
        }
        out
    }

    /// The ticket that the record `bytes` stands for.
    pub fn from_bytes(bytes: &[u8]) -> (r: Result<Self, TicketError>)
        ensures
            match r {
                Ok(t) => parse_ticket(bytes@) == Some(t@),
                Err(e) => match parse_ticket(bytes@) {
                    None => e == TicketError::InvalidRecord,
                    Some(t) => e == TicketError::InvalidKey && !is_endpoint_key(t.endpoint_id),
                },
            },
    {
        proof {
            assert(bytes@.skip(0) =~= bytes@);
        }
        let (id, at) = match read_fixed(bytes, 0, 32) {
            Some(r) => r,
            None => {
                return Err(TicketError::InvalidRecord);
            },
        };
        let (flag, at) = match read_u8(bytes, at) {
            Some(r) => r,
            None => {
                return Err(TicketError::InvalidRecord);
            },
        };
        let (broadcast_name, at) = if flag == 0 {
            (None, at)
        } else if flag == 1 {
            match read_text(bytes, at) {
                Some((n, at)) => (Some(n), at),
                None => {
                    return Err(TicketError::InvalidRecord);
                },
            }
        } else {
            return Err(TicketError::InvalidRecord);
        };
        let (relays, at) = match read_u32(bytes, at) {
            Some(r) => r,
            None => {
                return Err(TicketError::InvalidRecord);
            },
        };
        let (relay_urls, at) = match read_texts(bytes, at, relays) {
            Some(r) => r,
            None => {
                return Err(TicketError::InvalidRecord);
            },
        };
        let (addrs, at) = match read_u32(bytes, at) {
            Some(r) => r,
            None => {
                return Err(TicketError::InvalidRecord);
            },
        };
        let (direct_addrs, at) = match read_addrs(bytes, at, addrs) {
            Some(r) => r,
            None => {
                return Err(TicketError::InvalidRecord);
            },
        };
        if at != bytes.len() {
            return Err(TicketError::InvalidRecord);
        }
        match EndpointId::from_slice(id) {
            Ok(endpoint_id) => Ok(Self { endpoint_id, broadcast_name, relay_urls, direct_addrs }),
            Err(_) => Err(TicketError::InvalidKey),
        }
    }

    /// The ticket's string form. Read back, it gives the ticket again.
    pub fn serialize(&self) -> (s: String)
        requires
            fields_fit(self@),
            ticket_bytes(self@).len() <= usize::MAX / 512,
        ensures
            s@ == ticket_text(self@),
            parse_ticket_text(s@) == Ok::<TicketModel, TicketError>(self@),
            s@.len() == encoded_len(ticket_bytes(self@).len()),
            s@.len() <= usize::MAX / 32,
    {
        let bytes = self.to_bytes();
        let encoded = crate::base32::encode(bytes.as_slice());
        let s = to_ascii_lowercase(encoded.as_str());
        proof {
            use_type_invariant(&self.endpoint_id);
            lemma_case_round_trip(encoded@);
            lemma_last_index_is(s@, '@', -1);
            lemma_ticket_record_round_trip(self@);
        }
        s
    }

    /// The ticket's string form, where the ticket fits a record.
    pub fn try_serialize(&self) -> (r: Option<String>)
        ensures
            r is Some <==> (fields_fit(self@) && ticket_bytes(self@).len() <= usize::MAX / 512),
            r matches Some(s) ==> s@ == ticket_text(self@) && parse_ticket_text(s@) == Ok::<
                TicketModel,
                TicketError,
            >(self@),
            r matches Some(s) ==> s@.len() <= usize::MAX / 32,
    {
        if !self.fits_record() {
            return None;
        }
        let bytes = self.to_bytes();
        if bytes.len() > usize::MAX / 512 {
            return None;
        }
        Some(self.serialize())
    }

    /// The ticket that `s` stands for.
    pub fn deserialize(s: &str) -> (r: Result<Self, TicketError>)
        requires
            s@.len() <= usize::MAX / 32,
        ensures
            match r {
                Ok(t) => parse_ticket_text(s@) == Ok::<TicketModel, TicketError>(t@),
                Err(e) => parse_ticket_text(s@) == Err::<TicketModel, TicketError>(e),
            },
    {
        if rfind_char(s, '@').is_some() {
            return match crate::live_streaming::LiveTicket::deserialize(s) {
                Ok(short) => {
                    let t = Self {
                        endpoint_id: short.endpoint_id,
                        broadcast_name: Some(short.broadcast_name),
                        relay_urls: Vec::new(),
                        direct_addrs: Vec::new(),
                    };
                    proof {
                        assert(texts(t.relay_urls@) =~= Seq::<Seq<char>>::empty());
                        assert(t.direct_addrs@ =~= Seq::<SocketAddress>::empty());
                    }
                    Ok(t)
                },
                Err(e) => Err(e),
            };
        }
        let upper = to_ascii_uppercase(s);
        let bytes = match crate::base32::decode(upper.as_str()) {
            Ok(bytes) => bytes,
            Err(_) => {
                return Err(TicketError::InvalidEncoding);
            },
        };
        match Self::from_bytes(bytes.as_slice()) {
            Ok(t) => {
                proof {
                    use_type_invariant(&t.endpoint_id);
                }
                Ok(t)
            },
            Err(e) => Err(e),
        }
    }

    /// A short text for logs: the name, an `@`, the first eight hexadecimal
    /// digits of the endpoint id and three dots.
    pub fn display(&self) -> (s: String)
        ensures
            s@ == (match self@.broadcast_name {
                Some(n) => n,
                None => Seq::<char>::empty(),
            }) + seq!['@'] + hex_text(self@.endpoint_id.take(4)) + seq!['.', '.', '.'],
    {
        proof {
            use_type_invariant(&self.endpoint_id);
            reveal_strlit("@");
            reveal_strlit("...");
            assert("@"@ =~= seq!['@']);
            assert("..."@ =~= seq!['.', '.', '.']);
        }
        let mut s = match &self.broadcast_name {
            Some(n) => n.clone(),
            None => String::new(),
        };
        s.append("@");
        let id = self.endpoint_id.as_bytes();
        let mut digits: Vec<char> = Vec::new();
        let mut i: usize = 0;
        while i < 4
            invariant
                id@.len() == 32,
                0 <= i <= 4,
                digits@ == hex_text(id@.take(i as int)),
            decreases 4 - i,
        {
            let b = id[i];
            digits.push(hex_char(b / 16));
            digits.push(hex_char(b % 16));
            proof {
                assert(digits@ =~= hex_text(id@.take(i + 1)));
            }
            i = i + 1;
        }
        let hex = crate::text::string_from_chars(&digits);
        s.append(hex.as_str());
        s.append("...");
        s
    }
}

/// What a video packet holds, as mathematical values.
pub struct VideoPacketModel {
    pub timestamp_ms: u64,
    pub width: u32,
    pub height: u32,
    pub is_keyframe: bool,
    pub data: Seq<u8>,
}

/// A video frame as it travels in a datagram.
#[derive(Debug, Clone, PartialEq, Eq)]
pub struct VideoPacket {
    pub timestamp_ms: u64,
    pub width: u32,
    pub height: u32,
    pub is_keyframe: bool,
    pub data: Vec<u8>,
}

impl View for VideoPacket {
    type V = VideoPacketModel;

    open spec fn view(&self) -> VideoPacketModel {
        VideoPacketModel {
            timestamp_ms: self.timestamp_ms,
            width: self.width,
            height: self.height,
            is_keyframe: self.is_keyframe,
            data: self.data@,
        }
    }
}

/// The bytes of a packet: timestamp, width, height, a byte that is 1 for a
/// keyframe and 0 else, and the data with its length.
pub open spec fn packet_bytes(p: VideoPacketModel) -> Seq<u8> {
    put_u64(p.timestamp_ms) + put_u32(p.width) + put_u32(p.height) + put_u8(
        if p.is_keyframe {
            1
        } else {
            0
        },
    ) + put_blob(p.data)
}

/// The packet that bytes stand for. Nothing may follow the data.
pub open spec fn parse_packet(bytes: Seq<u8>) -> Option<VideoPacketModel> {
    match parse_u64(bytes) {
        None => None,
        Some((timestamp_ms, rest)) => match parse_u32(rest) {
            None => None,
            Some((width, rest)) => match parse_u32(rest) {
                None => None,
                Some((height, rest)) => match parse_u8(rest) {
                    None => None,
                    Some((flag, rest)) => if flag > 1 {
                        None
                    } else {
                        match parse_blob(rest) {
                            None => None,
                            Some((data, rest)) => if rest.len() == 0 {
                                Some(
                                    VideoPacketModel {
                                        timestamp_ms,
                                        width,
                                        height,
                                        is_keyframe: flag == 1,
                                        data,
                                    },
                                )
                            } else {
                                None
                            },
                        }
                    },
                },
            },
        },
    }
}

/// Bytes that are read back give the packet they were written from.
pub proof fn lemma_packet_round_trip(p: VideoPacketModel)
    requires
        p.data.len() <= u32::MAX,
    ensures
        parse_packet(packet_bytes(p)) == Some(p),
{
    let flag: u8 = if p.is_keyframe {
        1
    } else {
        0
    };
    let empty = Seq::<u8>::empty();
    let r4 = put_blob(p.data) + empty;
    let r3 = put_u8(flag) + r4;
    let r2 = put_u32(p.height) + r3;
    let r1 = put_u32(p.width) + r2;
    assert(packet_bytes(p) =~= put_u64(p.timestamp_ms) + r1);
    lemma_parse_put_u64(p.timestamp_ms, r1);
    lemma_parse_put_u32(p.width, r2);
    lemma_parse_put_u32(p.height, r3);
    lemma_parse_put_u8(flag, r4);
    lemma_parse_put_blob(p.data, empty);
}

/// Why bytes are no packet.
#[derive(Debug, Clone, Copy, PartialEq, Eq, Structural)]
pub enum PacketError {
    /// The bytes end early, go on too long or hold a wrong flag.
    Malformed,
}

impl VideoPacket {
    /// The bytes of the packet; none where the data is too long for its
    /// four-byte length. Read back, the bytes give the packet again.
    pub fn to_bytes(&self) -> (out: Vec<u8>)
        ensures
            self@.data.len() <= u32::MAX ==> out@ == packet_bytes(self@) && parse_packet(out@)
                == Some(self@),
            self@.data.len() > u32::MAX ==> out@.len() == 0,
    {
        let mut out: Vec<u8> = Vec::new();
        if self.data.len() > u32::MAX as usize {
            return out;
        }
        write_u64(&mut out, self.timestamp_ms);
        write_u32(&mut out, self.width);
        write_u32(&mut out, self.height);
        write_u8(
            &mut out,
            if self.is_keyframe {
                1
            } else {
                0
            },
        );
        write_blob(&mut out, self.data.as_slice());
        proof {
            assert(out@ =~= packet_bytes(self@));
            lemma_packet_round_trip(self@);
        }
        out
    }

    /// The packet that `bytes` stand for.
    pub fn from_bytes(bytes: &[u8]) -> (r: Result<Self, PacketError>)
        ensures
            match r {
                Ok(p) => parse_packet(bytes@) == Some(p@),
                Err(_) => parse_packet(bytes@) is None,
            },
    {
        proof {
            assert(bytes@.skip(0) =~= bytes@);
        }
        let (timestamp_ms, at) = match read_u64(bytes, 0) {
            Some(r) => r,
            None => {
                return Err(PacketError::Malformed);
            },
        };
        let (width, at) = match read_u32(bytes, at) {
            Some(r) => r,
            None => {
                return Err(PacketError::Malformed);
            },
        };
        let (height, at) = match read_u32(bytes, at) {
            Some(r) => r,
            None => {
                return Err(PacketError::Malformed);
            },
        };
        let (flag, at) = match read_u8(bytes, at) {
            Some(r) => r,
            None => {
                return Err(PacketError::Malformed);
            },
        };
        if flag > 1 {
            return Err(PacketError::Malformed);
        }
        let (data, at) = match read_blob(bytes, at) {
            Some(r) => r,
            None => {
                return Err(PacketError::Malformed);
            },
        };
        if at != bytes.len() {
            return Err(PacketError::Malformed);
        }
        Ok(
            VideoPacket {
                timestamp_ms,
                width,
                height,
                is_keyframe: flag == 1,
                data: vstd::slice::slice_to_vec(data),
            },
        )
    }
}

/// A raw video frame.
#[derive(Debug, Clone)]
pub struct VideoFrame {
    pub width: u32,
    pub height: u32,
    pub data: Vec<u8>,
    pub timestamp_ms: u64,
    pub format: String,
    pub is_keyframe: bool,
}

/// An encoded video packet.
#[derive(Debug, Clone)]
pub struct EncodedVideoPacket {
    pub data: Vec<u8>,
    pub timestamp_ms: u64,
    pub is_keyframe: bool,
    /// `h264` or `h265`.
    pub codec: String,
    pub width: u32,
    pub height: u32,
}

/// An encoded audio packet.
#[derive(Debug, Clone)]
pub struct EncodedAudioPacket {
    pub data: Vec<u8>,
    pub timestamp_ms: u64,
    /// `opus` or `aac`.
    pub codec: String,
    pub sample_rate: u32,
    pub channels: u16,
}

/// Raw audio.
#[derive(Debug, Clone)]
pub struct AudioFrame {
    pub data: Vec<u8>,
    pub sample_rate: u32,
    pub channels: u16,
    pub timestamp_ms: u64,
}

/// Video quality preset.
#[derive(Debug, Clone, Copy, PartialEq, Eq, Hash, Structural)]
pub enum VideoPreset {
    /// 320x180 at 15 frames per second.
    P180,
    /// 640x360 at 24 frames per second.
    P360,
    /// 1280x720 at 30 frames per second.
    P720,
    /// 1920x1080 at 30 frames per second.
    P1080,
}

pub open spec fn preset_name(p: VideoPreset) -> Seq<char> {
    match p {
        VideoPreset::P180 => "180p"@,
        VideoPreset::P360 => "360p"@,
        VideoPreset::P720 => "720p"@,
        VideoPreset::P1080 => "1080p"@,
    }
}

impl VideoPreset {
    /// Width and height in pixels.
    pub fn resolution(&self) -> (r: (u32, u32))
        ensures
            r == match *self {
                VideoPreset::P180 => (320u32, 180u32),
                VideoPreset::P360 => (640u32, 360u32),
                VideoPreset::P720 => (1280u32, 720u32),
                VideoPreset::P1080 => (1920u32, 1080u32),
            },
    {
        match self {
            VideoPreset::P180 => (320, 180),
            VideoPreset::P360 => (640, 360),
            VideoPreset::P720 => (1280, 720),
            VideoPreset::P1080 => (1920, 1080),
        }
    }

    pub fn fps(&self) -> (f: u32)
        ensures
            f == match *self {
                VideoPreset::P180 => 15u32,
                VideoPreset::P360 => 24u32,
                _ => 30u32,
            },
    {
        match self {
            VideoPreset::P180 => 15,
            VideoPreset::P360 => 24,
            VideoPreset::P720 | VideoPreset::P1080 => 30,
        }
    }

    /// Bits per second.
    pub fn bitrate(&self) -> (b: u32)
        ensures
            b == match *self {
                VideoPreset::P180 => 150_000u32,
                VideoPreset::P360 => 500_000u32,
                VideoPreset::P720 => 2_000_000u32,
                VideoPreset::P1080 => 4_500_000u32,
            },
    {
        match self {
            VideoPreset::P180 => 150_000,
            VideoPreset::P360 => 500_000,
            VideoPreset::P720 => 2_000_000,
            VideoPreset::P1080 => 4_500_000,
        }
    }

    pub fn name(&self) -> (n: &'static str)
        ensures
            n@ == preset_name(*self),
    {
        match self {
            VideoPreset::P180 => "180p",
            VideoPreset::P360 => "360p",
            VideoPreset::P720 => "720p",
            VideoPreset::P1080 => "1080p",
        }
    }
}

/// What is known of a publisher, as mathematical values.
pub struct PublisherModel {
    pub id: Seq<char>,
    pub broadcast_name: Seq<char>,
    pub is_active: bool,
    pub frames_published: u64,
    pub bytes_sent: u64,
    pub video_preset: VideoPreset,
    /// Names of the video renditions that the publisher offers.
    pub video_renditions: Seq<Seq<char>>,
}

/// One publisher of a node.
#[derive(Debug, Clone)]
pub struct Publisher {
    pub id: String,
    pub broadcast_name: String,
    pub is_active: bool,
    pub frames_published: u64,
    pub bytes_sent: u64,
    pub video_preset: VideoPreset,
    pub video_renditions: Vec<String>,
}

impl View for Publisher {
    type V = PublisherModel;

    open spec fn view(&self) -> PublisherModel {
        PublisherModel {
            id: self.id@,
            broadcast_name: self.broadcast_name@,
            is_active: self.is_active,
            frames_published: self.frames_published,
            bytes_sent: self.bytes_sent,
            video_preset: self.video_preset,
            video_renditions: texts(self.video_renditions@),
        }
    }
}

/// A publisher that was just created: idle, at 720p, with nothing sent.
pub open spec fn new_publisher(id: Seq<char>, broadcast_name: Seq<char>) -> PublisherModel {
    PublisherModel {
        id,
        broadcast_name,
        is_active: false,
        frames_published: 0,
        bytes_sent: 0,
        video_preset: VideoPreset::P720,
        video_renditions: seq!["720p"@],
    }
}

impl Publisher {
    pub fn new(id: String, broadcast_name: String) -> (p: Self)
        ensures
            p@ == new_publisher(id@, broadcast_name@),
    {
        let mut video_renditions: Vec<String> = Vec::new();
        video_renditions.push("720p".to_owned());
        proof {
            assert(texts(video_renditions@) =~= seq!["720p"@]);
        }
        Self {
            id,
            broadcast_name,
            is_active: false,
            frames_published: 0,
            bytes_sent: 0,
            video_preset: VideoPreset::P720,
            video_renditions,
        }
    }
}

/// What is known of a subscriber, as mathematical values.
pub struct SubscriberModel {
    pub id: Seq<char>,
    pub broadcast_id: Seq<char>,
    pub is_connected: bool,
    pub frames_received: u64,
    pub bytes_received: u64,
    pub current_quality: Seq<char>,
}

/// One subscriber of a node.
#[derive(Debug, Clone)]
pub struct Subscriber {
    pub id: String,
    pub broadcast_id: String,
    pub is_connected: bool,
    pub frames_received: u64,
    pub bytes_received: u64,
    pub current_quality: String,
}

impl View for Subscriber {
    type V = SubscriberModel;

    open spec fn view(&self) -> SubscriberModel {
        SubscriberModel {
            id: self.id@,
            broadcast_id: self.broadcast_id@,
            is_connected: self.is_connected,
            frames_received: self.frames_received,
            bytes_received: self.bytes_received,
            current_quality: self.current_quality@,
        }
    }
}

/// A subscriber that was just created: not connected, quality `auto`.
pub open spec fn new_subscriber(id: Seq<char>, broadcast_id: Seq<char>) -> SubscriberModel {
    SubscriberModel {
        id,
        broadcast_id,
        is_connected: false,
        frames_received: 0,
        bytes_received: 0,
        current_quality: "auto"@,
    }
}

impl Subscriber {
    pub fn new(id: String, broadcast_id: String) -> (s: Self)
        ensures
            s@ == new_subscriber(id@, broadcast_id@),
    {
        Self {
            id,
            broadcast_id,
            is_connected: false,
            frames_received: 0,
            bytes_received: 0,
            current_quality: "auto".to_owned(),
        }
    }
}

/// Status of a publisher, as reported to the host.
#[derive(Debug, Clone)]
pub struct PublisherStatus {
    pub publisher_id: String,
    pub broadcast_name: String,
    pub is_active: bool,
    pub frames_published: u64,
    pub bytes_sent: u64,
    pub video_preset: String,
}

/// Status of a subscriber, as reported to the host.
#[derive(Debug, Clone)]
pub struct SubscriberStatus {
    pub subscriber_id: String,
    pub broadcast_id: String,
    pub is_connected: bool,
    pub frames_received: u64,
    pub bytes_received: u64,
    pub current_quality: String,
}

/// Why a node refuses a command.
#[derive(Debug, Clone, Copy, PartialEq, Eq, Structural)]
pub enum NodeError {
    PublisherExists,
    PublisherNotFound,
    PublisherNotActive,
    SubscriberExists,
    SubscriberNotFound,
}

pub open spec fn publisher_models(v: Seq<Publisher>) -> Seq<PublisherModel> {
    v.map_values(|p: Publisher| p@)
}

pub open spec fn subscriber_models(v: Seq<Subscriber>) -> Seq<SubscriberModel> {
    v.map_values(|s: Subscriber| s@)
}

pub open spec fn publisher_ids(v: Seq<PublisherModel>) -> Seq<Seq<char>> {
    v.map_values(|p: PublisherModel| p.id)
}

pub open spec fn subscriber_ids(v: Seq<SubscriberModel>) -> Seq<Seq<char>> {
    v.map_values(|s: SubscriberModel| s.id)
}

/// Position of the first active publisher of the broadcast `name`, or the
/// number of publishers.
pub open spec fn active_position(publishers: Seq<PublisherModel>, name: Seq<char>) -> int
    decreases publishers.len(),
{
    if publishers.len() == 0 || (publishers[0].is_active && publishers[0].broadcast_name == name) {
        0
    } else {
        1 + active_position(publishers.skip(1), name)
    }
}

/// The first active publisher of the broadcast `name` stands at `i` where
/// none before `i` is one and the publisher at `i`, if there is one, is.
pub proof fn lemma_active_position_is(publishers: Seq<PublisherModel>, name: Seq<char>, i: int)
    requires
        0 <= i <= publishers.len(),
        forall|k: int|
            0 <= k < i ==> !(publishers[k].is_active && publishers[k].broadcast_name == name),
        i < publishers.len() ==> publishers[i].is_active && publishers[i].broadcast_name == name,
    ensures
        active_position(publishers, name) == i,
    decreases publishers.len(),
{
    if publishers.len() == 0 || (publishers[0].is_active && publishers[0].broadcast_name == name) {
    } else {
        let t = publishers.skip(1);
        assert forall|k: int| 0 <= k < i - 1 implies !(t[k].is_active && t[k].broadcast_name
            == name) by {
            assert(t[k] == publishers[k + 1]);
        }
        if i - 1 < t.len() {
            assert(t[i - 1] == publishers[i]);
        }
        lemma_active_position_is(t, name, i - 1);
    }
}

/// Position of the first active publisher, or the number of publishers.
pub open spec fn first_active(publishers: Seq<PublisherModel>) -> int
    decreases publishers.len(),
{
    if publishers.len() == 0 || publishers[0].is_active {
        0
    } else {
        1 + first_active(publishers.skip(1))
    }
}

/// The first active publisher stands at `i` where none before `i` is
/// active and the publisher at `i`, if there is one, is.
pub proof fn lemma_first_active_is(publishers: Seq<PublisherModel>, i: int)
    requires
        0 <= i <= publishers.len(),
        forall|k: int| 0 <= k < i ==> !publishers[k].is_active,
        i < publishers.len() ==> publishers[i].is_active,
    ensures
        first_active(publishers) == i,
    decreases publishers.len(),
{
    if publishers.len() == 0 || publishers[0].is_active {
    } else {
        let t = publishers.skip(1);
        assert forall|k: int| 0 <= k < i - 1 implies !t[k].is_active by {
            assert(t[k] == publishers[k + 1]);
        }
        if i - 1 < t.len() {
            assert(t[i - 1] == publishers[i]);
        }
        lemma_first_active_is(t, i - 1);
    }
}

/// What is done with the connection of a subscriber.
#[derive(Debug, Clone, PartialEq, Eq)]
pub enum Routing {
    /// The frames of this publisher are forwarded to the subscriber.
    Serve { publisher: String },
    /// The broadcast that the subscriber names has no active publisher:
    /// nothing is forwarded, and the connection is left as it is.
    Unserved,
    /// The subscriber names no broadcast and no publisher is active: the
    /// connection is refused.
    NoActivePublisher,
}

/// The publishers and subscribers of a node, each found by its id.
pub struct LiveNode {
    publishers: Vec<Publisher>,
    subscribers: Vec<Subscriber>,
}

impl LiveNode {
    /// The publishers, in the order of their creation.
    pub closed spec fn publishers(&self) -> Seq<PublisherModel> {
        publisher_models(self.publishers@)
    }

    /// The subscribers, in the order of their creation.
    pub closed spec fn subscribers(&self) -> Seq<SubscriberModel> {
        subscriber_models(self.subscribers@)
    }

    /// Position of the publisher `id`, or the number of publishers.
    pub open spec fn publisher_index(&self, id: Seq<char>) -> int {
        first_index(publisher_ids(self.publishers()), id)
    }

    /// Position of the subscriber `id`, or the number of subscribers.
    pub open spec fn subscriber_index(&self, id: Seq<char>) -> int {
        first_index(subscriber_ids(self.subscribers()), id)
    }

    /// The publisher `id`, if the node has it.
    pub open spec fn publisher(&self, id: Seq<char>) -> Option<PublisherModel> {
        if self.publisher_index(id) < self.publishers().len() {
            Some(self.publishers()[self.publisher_index(id)])
        } else {
            None
        }
    }

    /// The subscriber `id`, if the node has it.
    pub open spec fn subscriber(&self, id: Seq<char>) -> Option<SubscriberModel> {
        if self.subscriber_index(id) < self.subscribers().len() {
            Some(self.subscribers()[self.subscriber_index(id)])
        } else {
            None
        }
    }

    /// A node without publishers and subscribers.
    pub fn new() -> (n: Self)
        ensures
            n.publishers() == Seq::<PublisherModel>::empty(),
            n.subscribers() == Seq::<SubscriberModel>::empty(),
    {
        let n = Self { publishers: Vec::new(), subscribers: Vec::new() };
        proof {
            assert(n.publishers() =~= Seq::empty());
            assert(n.subscribers() =~= Seq::empty());
        }
        n
    }

    fn find_publisher(&self, id: &str) -> (i: usize)
        ensures
            i == self.publisher_index(id@),
            i <= self.publishers@.len(),
    {
        let n = self.publishers.len();
        let mut i: usize = 0;
        while i < n
            invariant
                n == self.publishers@.len(),
                0 <= i <= n,
                forall|k: int| 0 <= k < i ==> publisher_ids(self.publishers())[k] != id@,
            decreases n - i,
        {
            if crate::text::str_eq(self.publishers[i].id.as_str(), id) {
                proof {
                    lemma_first_index_is(publisher_ids(self.publishers()), id@, i as int);
                }
                return i;
            }
            i = i + 1;
        }
        proof {
            lemma_first_index_is(publisher_ids(self.publishers()), id@, n as int);
        }
        n
    }

    fn find_subscriber(&self, id: &str) -> (i: usize)
        ensures
            i == self.subscriber_index(id@),
            i <= self.subscribers@.len(),
    {
        let n = self.subscribers.len();
        let mut i: usize = 0;
        while i < n
            invariant
                n == self.subscribers@.len(),
                0 <= i <= n,
                forall|k: int| 0 <= k < i ==> subscriber_ids(self.subscribers())[k] != id@,
            decreases n - i,
        {
            if crate::text::str_eq(self.subscribers[i].id.as_str(), id) {
                proof {
                    lemma_first_index_is(subscriber_ids(self.subscribers()), id@, i as int);
                }
                return i;
            }
            i = i + 1;
        }
        proof {
            lemma_first_index_is(subscriber_ids(self.subscribers()), id@, n as int);
        }
        n
    }

    /// Adds an idle publisher, unless one with that id exists.
    pub fn create_publisher(&mut self, publisher_id: String, broadcast_name: String) -> (r: Result<
        (),
        NodeError,
    >)
        ensures
            final(self).subscribers() == old(self).subscribers(),
            match r {
                Ok(_) => old(self).publisher(publisher_id@) is None && final(self).publishers()
                    == old(self).publishers().push(new_publisher(publisher_id@, broadcast_name@)),
                Err(e) => e == NodeError::PublisherExists && old(self).publisher(publisher_id@)
                    is Some && final(self).publishers() == old(self).publishers(),
            },
    {
        let i = self.find_publisher(publisher_id.as_str());
        if i < self.publishers.len() {
            return Err(NodeError::PublisherExists);
        }
        let p = Publisher::new(publisher_id, broadcast_name);
        let ghost before = self.publishers@;
        self.publishers.push(p);
        proof {
            assert(publisher_models(self.publishers@) =~= publisher_models(before).push(p@));
        }
        Ok(())
    }

    /// Changes the publisher at `i` by `change`.
    fn set_publisher(&mut self, i: usize, p: Publisher)
        requires
            i < old(self).publishers@.len(),
        ensures
            final(self).publishers() == old(self).publishers().update(i as int, p@),
            final(self).subscribers() == old(self).subscribers(),
    {
        let ghost before = self.publishers@;
        self.publishers.set(i, p);
        proof {
            assert(publisher_models(self.publishers@) =~= publisher_models(before).update(
                i as int,
                p@,
            ));
        }
    }

    fn set_subscriber(&mut self, i: usize, s: Subscriber)
        requires
            i < old(self).subscribers@.len(),
        ensures
            final(self).subscribers() == old(self).subscribers().update(i as int, s@),
            final(self).publishers() == old(self).publishers(),
    {
        let ghost before = self.subscribers@;
        self.subscribers.set(i, s);
        proof {
            assert(subscriber_models(self.subscribers@) =~= subscriber_models(before).update(
                i as int,
                s@,
            ));
        }
    }

    /// A copy of the publisher at `i`.
    fn publisher_at(&self, i: usize) -> (p: Publisher)
        requires
            i < self.publishers@.len(),
        ensures
            p@ == self.publishers()[i as int],
    {
        let q = &self.publishers[i];
        Publisher {
            id: q.id.clone(),
            broadcast_name: q.broadcast_name.clone(),
            is_active: q.is_active,
            frames_published: q.frames_published,
            bytes_sent: q.bytes_sent,
            video_preset: q.video_preset,
            video_renditions: copy_texts(&q.video_renditions),
        }
    }

    /// A copy of the subscriber at `i`.
    fn subscriber_at(&self, i: usize) -> (s: Subscriber)
        requires
            i < self.subscribers@.len(),
        ensures
            s@ == self.subscribers()[i as int],
    {
        let q = &self.subscribers[i];
        Subscriber {
            id: q.id.clone(),
            broadcast_id: q.broadcast_id.clone(),
            is_connected: q.is_connected,
            frames_received: q.frames_received,
            bytes_received: q.bytes_received,
            current_quality: q.current_quality.clone(),
        }
    }

    /// Marks the publisher `publisher_id` active.
    pub fn start_publishing(&mut self, publisher_id: &str) -> (r: Result<(), NodeError>)
        ensures
            final(self).subscribers() == old(self).subscribers(),
            match old(self).publisher(publisher_id@) {
                None => r == Err::<(), NodeError>(NodeError::PublisherNotFound) && final(self).publishers() == old(self).publishers(),
                Some(p) => r is Ok && final(self).publishers() == old(self).publishers().update(
                    old(self).publisher_index(publisher_id@),
                    PublisherModel { is_active: true, ..p },
                ),
            },
    {
        let i = self.find_publisher(publisher_id);
        if i >= self.publishers.len() {
            return Err(NodeError::PublisherNotFound);
        }
        let mut p = self.publisher_at(i);
        p.is_active = true;
        self.set_publisher(i, p);
        Ok(())
    }

    /// Marks the publisher `publisher_id` idle.
    pub fn stop_publishing(&mut self, publisher_id: &str) -> (r: Result<(), NodeError>)
        ensures
            final(self).subscribers() == old(self).subscribers(),
            match old(self).publisher(publisher_id@) {
                None => r == Err::<(), NodeError>(NodeError::PublisherNotFound) && final(self).publishers() == old(self).publishers(),
                Some(p) => r is Ok && final(self).publishers() == old(self).publishers().update(
                    old(self).publisher_index(publisher_id@),
                    PublisherModel { is_active: false, ..p },
                ),
            },
    {
        let i = self.find_publisher(publisher_id);
        if i >= self.publishers.len() {
            return Err(NodeError::PublisherNotFound);
        }
        let mut p = self.publisher_at(i);
        p.is_active = false;
        self.set_publisher(i, p);
        Ok(())
    }

    /// Counts `bytes` bytes, and one frame if `is_frame`, for the active
    /// publisher `publisher_id`.
    pub fn count_sent(&mut self, publisher_id: &str, bytes: u64, is_frame: bool) -> (r: Result<(), NodeError>)
        requires
            old(self).publisher(publisher_id@) matches Some(p) ==> p.bytes_sent + bytes <= u64::MAX
                && (is_frame ==> p.frames_published < u64::MAX),
        ensures
            final(self).subscribers() == old(self).subscribers(),
            match old(self).publisher(publisher_id@) {
                None => r == Err::<(), NodeError>(NodeError::PublisherNotFound) && final(self).publishers() == old(self).publishers(),
                Some(p) => if p.is_active {
                    r is Ok && final(self).publishers() == old(self).publishers().update(
                        old(self).publisher_index(publisher_id@),
                        PublisherModel {
                            frames_published: if is_frame {
                                (p.frames_published + 1) as u64
                            } else {
                                p.frames_published
                            },
                            bytes_sent: (p.bytes_sent + bytes) as u64,
                            ..p
                        },
                    )
                } else {
                    r == Err::<(), NodeError>(NodeError::PublisherNotActive) && final(self).publishers() == old(self).publishers()
                },
            },
    {
        let i = self.find_publisher(publisher_id);
        if i >= self.publishers.len() {
            return Err(NodeError::PublisherNotFound);
        }
        let mut p = self.publisher_at(i);
        if !p.is_active {
            return Err(NodeError::PublisherNotActive);
        }
        if is_frame {
            p.frames_published = p.frames_published + 1;
        }
        p.bytes_sent = p.bytes_sent + bytes;
        self.set_publisher(i, p);
        Ok(())
    }

    /// Counts the raw frame `frame` for the active publisher `publisher_id`.
    pub fn push_video_frame(&mut self, publisher_id: &str, frame: &VideoFrame) -> (r: Result<(), NodeError>)
        requires
            old(self).publisher(publisher_id@) matches Some(p) ==> p.bytes_sent + frame.data@.len()
                <= u64::MAX && p.frames_published < u64::MAX,
        ensures
            final(self).subscribers() == old(self).subscribers(),
            match old(self).publisher(publisher_id@) {
                None => r == Err::<(), NodeError>(NodeError::PublisherNotFound) && final(self).publishers() == old(self).publishers(),
                Some(p) => if p.is_active {
                    r is Ok && final(self).publishers() == old(self).publishers().update(
                        old(self).publisher_index(publisher_id@),
                        PublisherModel {
                            frames_published: (p.frames_published + 1) as u64,
                            bytes_sent: (p.bytes_sent + frame.data@.len()) as u64,
                            ..p
                        },
                    )
                } else {
                    r == Err::<(), NodeError>(NodeError::PublisherNotActive) && final(self).publishers() == old(self).publishers()
                },
            },
    {
        self.count_sent(publisher_id, frame.data.len() as u64, true)
    }

    /// Counts the encoded packet `packet` for the active publisher
    /// `publisher_id` and gives the packet that goes out to its subscribers.
    pub fn push_encoded_video(&mut self, publisher_id: &str, packet: &EncodedVideoPacket) -> (r: Result<
        VideoPacket,
        NodeError,
    >)
        requires
            old(self).publisher(publisher_id@) matches Some(p) ==> p.bytes_sent + packet.data@.len()
                <= u64::MAX && p.frames_published < u64::MAX,
        ensures
            final(self).subscribers() == old(self).subscribers(),
            match old(self).publisher(publisher_id@) {
                None => r == Err::<VideoPacket, NodeError>(NodeError::PublisherNotFound) && final(self).publishers() == old(self).publishers(),
                Some(p) => if p.is_active {
                    r is Ok && r->Ok_0@ == (VideoPacketModel {
                        timestamp_ms: packet.timestamp_ms,
                        width: packet.width,
                        height: packet.height,
                        is_keyframe: packet.is_keyframe,
                        data: packet.data@,
                    }) && final(self).publishers() == old(self).publishers().update(
                        old(self).publisher_index(publisher_id@),
                        PublisherModel {
                            frames_published: (p.frames_published + 1) as u64,
                            bytes_sent: (p.bytes_sent + packet.data@.len()) as u64,
                            ..p
                        },
                    )
                } else {
                    r == Err::<VideoPacket, NodeError>(NodeError::PublisherNotActive) && final(self).publishers() == old(self).publishers()
                },
            },
    {
        match self.count_sent(publisher_id, packet.data.len() as u64, true) {
            Err(e) => Err(e),
            Ok(_) => Ok(
                VideoPacket {
                    timestamp_ms: packet.timestamp_ms,
                    width: packet.width,
                    height: packet.height,
                    is_keyframe: packet.is_keyframe,
                    data: crate::moq_protocol::object::copy_bytes(&packet.data),
                },
            ),
        }
    }

    /// Counts the bytes of the encoded audio packet `packet` for the active
    /// publisher `publisher_id`.
    pub fn push_encoded_audio(&mut self, publisher_id: &str, packet: &EncodedAudioPacket) -> (r: Result<
        (),
        NodeError,
    >)
        requires
            old(self).publisher(publisher_id@) matches Some(p) ==> p.bytes_sent + packet.data@.len()
                <= u64::MAX && p.frames_published < u64::MAX,
        ensures
            final(self).subscribers() == old(self).subscribers(),
            match old(self).publisher(publisher_id@) {
                None => r == Err::<(), NodeError>(NodeError::PublisherNotFound) && final(self).publishers() == old(self).publishers(),
                Some(p) => if p.is_active {
                    r is Ok && final(self).publishers() == old(self).publishers().update(
                        old(self).publisher_index(publisher_id@),
                        PublisherModel {
                            bytes_sent: (p.bytes_sent + packet.data@.len()) as u64,
                            ..p
                        },
                    )
                } else {
                    r == Err::<(), NodeError>(NodeError::PublisherNotActive) && final(self).publishers() == old(self).publishers()
                },
            },
    {
        self.count_sent(publisher_id, packet.data.len() as u64, false)
    }

    /// What is done with a subscriber's connection. A subscriber that
    /// names a broadcast is served by the first active publisher of that
    /// broadcast, and left unserved where there is none. A subscriber that
    /// names none, because its first stream never came, is served by the
    /// first active publisher of any broadcast, and refused where no
    /// publisher is active.
    pub fn route_connection(&self, asked: Option<&str>) -> (r: Routing)
        ensures
            match asked {
                Some(name) => if active_position(self.publishers(), name@) < self.publishers().len() {
                    r matches Routing::Serve { publisher } && publisher@ == self.publishers()[active_position(
                        self.publishers(),
                        name@,
                    )].id
                } else {
                    r is Unserved
                },
                None => if first_active(self.publishers()) < self.publishers().len() {
                    r matches Routing::Serve { publisher } && publisher@ == self.publishers()[first_active(
                        self.publishers(),
                    )].id
                } else {
                    r is NoActivePublisher
                },
            },
    {
        match asked {
            Some(name) => match self.route_subscriber(name) {
                Some(publisher) => Routing::Serve { publisher },
                None => Routing::Unserved,
            },
            None => {
                let n = self.publishers.len();
                let mut i: usize = 0;
                while i < n
                    invariant
                        asked is None,
                        n == self.publishers@.len(),
                        0 <= i <= n,
                        forall|k: int| 0 <= k < i ==> !self.publishers()[k].is_active,
                    decreases n - i,
                {
                    let p = &self.publishers[i];
                    assert(self.publishers()[i as int] == p@);
                    if p.is_active {
                        let publisher = p.id.clone();
                        proof {
                            lemma_first_active_is(self.publishers(), i as int);
                            assert(publisher@ == self.publishers()[i as int].id);
                        }
                        return Routing::Serve { publisher };
                    }
                    i = i + 1;
                }
                proof {
                    lemma_first_active_is(self.publishers(), n as int);
                }
                Routing::NoActivePublisher
            },
        }
    }

    /// The publisher that serves a subscriber who asks for the broadcast
    /// `broadcast_name`: the first active publisher of that broadcast.
    pub fn route_subscriber(&self, broadcast_name: &str) -> (r: Option<String>)
        ensures
            match r {
                Some(id) => active_position(self.publishers(), broadcast_name@)
                    < self.publishers().len() && id@ == self.publishers()[active_position(
                    self.publishers(),
                    broadcast_name@,
                )].id,
                None => active_position(self.publishers(), broadcast_name@)
                    == self.publishers().len(),
            },
    {
        let n = self.publishers.len();
        let mut i: usize = 0;
        while i < n
            invariant
                n == self.publishers@.len(),
                0 <= i <= n,
                forall|k: int|
                    0 <= k < i ==> !(self.publishers()[k].is_active
                        && self.publishers()[k].broadcast_name == broadcast_name@),
            decreases n - i,
        {
            let p = &self.publishers[i];
            if p.is_active && crate::text::str_eq(p.broadcast_name.as_str(), broadcast_name) {
                proof {
                    lemma_active_position_is(self.publishers(), broadcast_name@, i as int);
                }
                return Some(p.id.clone());
            }
            i = i + 1;
        }
        proof {
            lemma_active_position_is(self.publishers(), broadcast_name@, n as int);
        }
        None
    }

    /// Adds a subscriber that is not connected, unless one with that id
    /// exists.
    pub fn create_subscriber(&mut self, subscriber_id: String, broadcast_id: String) -> (r: Result<
        (),
        NodeError,
    >)
        ensures
            final(self).publishers() == old(self).publishers(),
            match r {
                Ok(_) => old(self).subscriber(subscriber_id@) is None && final(self).subscribers()
                    == old(self).subscribers().push(new_subscriber(subscriber_id@, broadcast_id@)),
                Err(e) => e == NodeError::SubscriberExists && old(self).subscriber(subscriber_id@)
                    is Some && final(self).subscribers() == old(self).subscribers(),
            },
    {
        let i = self.find_subscriber(subscriber_id.as_str());
        if i < self.subscribers.len() {
            return Err(NodeError::SubscriberExists);
        }
        let s = Subscriber::new(subscriber_id, broadcast_id);
        let ghost before = self.subscribers@;
        self.subscribers.push(s);
        proof {
            assert(subscriber_models(self.subscribers@) =~= subscriber_models(before).push(s@));
        }
        Ok(())
    }

    /// Marks the subscriber `subscriber_id` connected or not.
    pub fn set_connected(&mut self, subscriber_id: &str, connected: bool) -> (r: Result<(), NodeError>)
        ensures
            final(self).publishers() == old(self).publishers(),
            match old(self).subscriber(subscriber_id@) {
                None => r == Err::<(), NodeError>(NodeError::SubscriberNotFound) && final(self).subscribers() == old(self).subscribers(),
                Some(s) => r is Ok && final(self).subscribers() == old(self).subscribers().update(
                    old(self).subscriber_index(subscriber_id@),
                    SubscriberModel { is_connected: connected, ..s },
                ),
            },
    {
        let i = self.find_subscriber(subscriber_id);
        if i >= self.subscribers.len() {
            return Err(NodeError::SubscriberNotFound);
        }
        let mut s = self.subscriber_at(i);
        s.is_connected = connected;
        self.set_subscriber(i, s);
        Ok(())
    }

    /// Sets the quality that the subscriber `subscriber_id` asks for.
    pub fn set_quality(&mut self, subscriber_id: &str, quality: String) -> (r: Result<(), NodeError>)
        ensures
            final(self).publishers() == old(self).publishers(),
            match old(self).subscriber(subscriber_id@) {
                None => r == Err::<(), NodeError>(NodeError::SubscriberNotFound) && final(self).subscribers() == old(self).subscribers(),
                Some(s) => r is Ok && final(self).subscribers() == old(self).subscribers().update(
                    old(self).subscriber_index(subscriber_id@),
                    SubscriberModel { current_quality: quality@, ..s },
                ),
            },
    {
        let i = self.find_subscriber(subscriber_id);
        if i >= self.subscribers.len() {
            return Err(NodeError::SubscriberNotFound);
        }
        let mut s = self.subscriber_at(i);
        s.current_quality = quality;
        self.set_subscriber(i, s);
        Ok(())
    }

    /// Takes the publisher `publisher_id` out of the node. Says whether
    /// there was such a publisher.
    pub fn remove_publisher(&mut self, publisher_id: &str) -> (found: bool)
        ensures
            final(self).subscribers() == old(self).subscribers(),
            found == old(self).publisher(publisher_id@) is Some,
            final(self).publishers() == if found {
                old(self).publishers().remove(old(self).publisher_index(publisher_id@))
            } else {
                old(self).publishers()
            },
    {
        let i = self.find_publisher(publisher_id);
        if i >= self.publishers.len() {
            return false;
        }
        let ghost before = self.publishers@;
        self.publishers.remove(i);
        proof {
            assert(publisher_models(self.publishers@) =~= publisher_models(before).remove(i as int));
        }
        true
    }

    /// Takes the subscriber `subscriber_id` out of the node. Says whether
    /// there was such a subscriber.
    pub fn remove_subscriber(&mut self, subscriber_id: &str) -> (found: bool)
        ensures
            final(self).publishers() == old(self).publishers(),
            found == old(self).subscriber(subscriber_id@) is Some,
            final(self).subscribers() == if found {
                old(self).subscribers().remove(old(self).subscriber_index(subscriber_id@))
            } else {
                old(self).subscribers()
            },
    {
        let i = self.find_subscriber(subscriber_id);
        if i >= self.subscribers.len() {
            return false;
        }
        let ghost before = self.subscribers@;
        self.subscribers.remove(i);
        proof {
            assert(subscriber_models(self.subscribers@) =~= subscriber_models(before).remove(i as int));
        }
        true
    }

    /// Marks the subscriber `subscriber_id` as not connected.
    pub fn disconnect_subscriber(&mut self, subscriber_id: &str) -> (r: Result<(), NodeError>)
        ensures
            final(self).publishers() == old(self).publishers(),
            match old(self).subscriber(subscriber_id@) {
                None => r == Err::<(), NodeError>(NodeError::SubscriberNotFound) && final(self).subscribers() == old(self).subscribers(),
                Some(s) => r is Ok && final(self).subscribers() == old(self).subscribers().update(
                    old(self).subscriber_index(subscriber_id@),
                    SubscriberModel { is_connected: false, ..s },
                ),
            },
    {
        self.set_connected(subscriber_id, false)
    }

    /// Counts one received frame of `bytes` bytes for the subscriber
    /// `subscriber_id`; where `only_connected`, a subscriber that is not
    /// connected counts nothing.
    pub fn count_received(&mut self, subscriber_id: &str, bytes: u64, only_connected: bool) -> (r: Result<
        (),
        NodeError,
    >)
        requires
            old(self).subscriber(subscriber_id@) matches Some(s) ==> s.bytes_received + bytes
                <= u64::MAX && s.frames_received < u64::MAX,
        ensures
            final(self).publishers() == old(self).publishers(),
            match old(self).subscriber(subscriber_id@) {
                None => r == Err::<(), NodeError>(NodeError::SubscriberNotFound) && final(self).subscribers() == old(self).subscribers(),
                Some(s) => r is Ok && final(self).subscribers() == if only_connected
                    && !s.is_connected {
                    old(self).subscribers()
                } else {
                    old(self).subscribers().update(
                        old(self).subscriber_index(subscriber_id@),
                        SubscriberModel {
                            frames_received: (s.frames_received + 1) as u64,
                            bytes_received: (s.bytes_received + bytes) as u64,
                            ..s
                        },
                    )
                },
            },
    {
        let i = self.find_subscriber(subscriber_id);
        if i >= self.subscribers.len() {
            return Err(NodeError::SubscriberNotFound);
        }
        let mut s = self.subscriber_at(i);
        if only_connected && !s.is_connected {
            return Ok(());
        }
        s.frames_received = s.frames_received + 1;
        s.bytes_received = s.bytes_received + bytes;
        self.set_subscriber(i, s);
        Ok(())
    }

    /// Counts a frame of `frame_size` bytes for the subscriber
    /// `subscriber_id`, if it is connected.
    pub fn simulate_video_receive(&mut self, subscriber_id: &str, frame_size: u64) -> (r: Result<
        (),
        NodeError,
    >)
        requires
            old(self).subscriber(subscriber_id@) matches Some(s) ==> s.bytes_received + frame_size
                <= u64::MAX && s.frames_received < u64::MAX,
        ensures
            final(self).publishers() == old(self).publishers(),
            match old(self).subscriber(subscriber_id@) {
                None => r == Err::<(), NodeError>(NodeError::SubscriberNotFound) && final(self).subscribers() == old(self).subscribers(),
                Some(s) => r is Ok && final(self).subscribers() == if !s.is_connected {
                    old(self).subscribers()
                } else {
                    old(self).subscribers().update(
                        old(self).subscriber_index(subscriber_id@),
                        SubscriberModel {
                            frames_received: (s.frames_received + 1) as u64,
                            bytes_received: (s.bytes_received + frame_size) as u64,
                            ..s
                        },
                    )
                },
            },
    {
        self.count_received(subscriber_id, frame_size, true)
    }

    /// Sets the names of the video renditions that the publisher
    /// `publisher_id` offers.
    pub fn set_video_renditions(&mut self, publisher_id: &str, renditions: Vec<String>) -> (r: Result<
        (),
        NodeError,
    >)
        ensures
            final(self).subscribers() == old(self).subscribers(),
            match old(self).publisher(publisher_id@) {
                None => r == Err::<(), NodeError>(NodeError::PublisherNotFound) && final(self).publishers() == old(self).publishers(),
                Some(p) => r is Ok && final(self).publishers() == old(self).publishers().update(
                    old(self).publisher_index(publisher_id@),
                    PublisherModel { video_renditions: texts(renditions@), ..p },
                ),
            },
    {
        let i = self.find_publisher(publisher_id);
        if i >= self.publishers.len() {
            return Err(NodeError::PublisherNotFound);
        }
        let mut p = self.publisher_at(i);
        p.video_renditions = renditions;
        self.set_publisher(i, p);
        Ok(())
    }

    /// Names of the video renditions that the publisher `publisher_id`
    /// offers.
    pub fn video_renditions(&self, publisher_id: &str) -> (r: Option<Vec<String>>)
        ensures
            match self.publisher(publisher_id@) {
                Some(p) => r matches Some(names) && texts(names@) == p.video_renditions,
                None => r is None,
            },
    {
        let i = self.find_publisher(publisher_id);
        if i >= self.publishers.len() {
            return None;
        }
        Some(copy_texts(&self.publishers[i].video_renditions))
    }

    /// The status of the publisher `publisher_id`.
    pub fn get_publisher_status(&self, publisher_id: &str) -> (r: Option<PublisherStatus>)
        ensures
            match (r, self.publisher(publisher_id@)) {
                (Some(status), Some(p)) => {
                    &&& status.publisher_id@ == p.id
                    &&& status.broadcast_name@ == p.broadcast_name
                    &&& status.is_active == p.is_active
                    &&& status.frames_published == p.frames_published
                    &&& status.bytes_sent == p.bytes_sent
                    &&& status.video_preset@ == preset_name(p.video_preset)
                },
                (None, None) => true,
                _ => false,
            },
    {
        let i = self.find_publisher(publisher_id);
        if i >= self.publishers.len() {
            return None;
        }
        let p = &self.publishers[i];
        Some(
            PublisherStatus {
                publisher_id: p.id.clone(),
                broadcast_name: p.broadcast_name.clone(),
                is_active: p.is_active,
                frames_published: p.frames_published,
                bytes_sent: p.bytes_sent,
                video_preset: p.video_preset.name().to_owned(),
            },
        )
    }

    /// The status of the subscriber `subscriber_id`.
    pub fn get_subscriber_status(&self, subscriber_id: &str) -> (r: Option<SubscriberStatus>)
        ensures
            match (r, self.subscriber(subscriber_id@)) {
                (Some(status), Some(s)) => {
                    &&& status.subscriber_id@ == s.id
                    &&& status.broadcast_id@ == s.broadcast_id
                    &&& status.is_connected == s.is_connected
                    &&& status.frames_received == s.frames_received
                    &&& status.bytes_received == s.bytes_received
                    &&& status.current_quality@ == s.current_quality
                },
                (None, None) => true,
                _ => false,
            },
    {
        let i = self.find_subscriber(subscriber_id);
        if i >= self.subscribers.len() {
            return None;
        }
        let s = &self.subscribers[i];
        Some(
            SubscriberStatus {
                subscriber_id: s.id.clone(),
                broadcast_id: s.broadcast_id.clone(),
                is_connected: s.is_connected,
                frames_received: s.frames_received,
                bytes_received: s.bytes_received,
                current_quality: s.current_quality.clone(),
            },
        )
    }
}

} // verus!
