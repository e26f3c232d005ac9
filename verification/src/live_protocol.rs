//! The coordinator of a peer: which broadcasts it publishes, which peers
//! are connected, and what each of them is told.

use vstd::prelude::*;
use crate::moq_protocol::names::texts;
use crate::publish::has_text;

verus! {

/// The protocol identifier offered at session setup.
pub const ALPN: &'static str = "iroh-live/1";

/// Reason given when sessions and subscriptions end at shutdown.
pub const SHUTDOWN_REASON: &'static str = "shutdown";

/// Whether `v` is a version that both sides support and no common version
/// is higher.
pub open spec fn is_highest_common(client: Seq<u32>, server: Seq<u32>, v: u32) -> bool {
    &&& client.contains(v)
    &&& server.contains(v)
    &&& forall|w: u32| client.contains(w) && server.contains(w) ==> w <= v
}

fn has_version(versions: &[u32], v: u32) -> (b: bool)
    ensures
        b == versions@.contains(v),
{
    let mut i: usize = 0;
    while i < versions.len()
        invariant
            0 <= i <= versions@.len(),
            forall|k: int| 0 <= k < i ==> versions@[k] != v,
        decreases versions@.len() - i,
    {
        if versions[i] == v {
            return true;
        }
        i = i + 1;
    }
    false
}

/// The version that a session uses: the highest that both sides support.
pub fn select_version(client: &[u32], server: &[u32]) -> (r: Option<u32>)
    ensures
        match r {
            Some(v) => is_highest_common(client@, server@, v),
            None => forall|w: u32| !(client@.contains(w) && server@.contains(w)),
        },
{
    let mut best: Option<u32> = None;
    let mut i: usize = 0;
    while i < client.len()
        invariant
            0 <= i <= client@.len(),
            match best {
                Some(v) => client@.contains(v) && server@.contains(v),
                None => true,
            },
            forall|k: int|
                0 <= k < i && server@.contains(#[trigger] client@[k]) ==> best is Some
                    && client@[k] <= best->0,
        decreases client@.len() - i,
    {
        let v = client[i];
        if has_version(server, v) {
            let better = match best {
                Some(b) => v > b,
                None => true,
            };
            if better {
                best = Some(v);
            }
        }
        i = i + 1;
    }
    proof {
        assert forall|w: u32| client@.contains(w) && server@.contains(w) implies best is Some && w
            <= best->0 by {
            let k = choose|k: int| 0 <= k < client@.len() && client@[k] == w;
            assert(server@.contains(client@[k]));
        }
    }
    best
}

/// A broadcast that a peer is told of.
#[derive(Debug, Clone, PartialEq, Eq)]
pub struct Announcement {
    pub peer: String,
    pub broadcast: String,
}

pub open spec fn announcement_pairs(v: Seq<Announcement>) -> Seq<(Seq<char>, Seq<char>)> {
    v.map_values(|a: Announcement| (a.peer@, a.broadcast@))
}

/// What a viewer is told when its connection to a peer is lost.
#[derive(Debug, Clone, PartialEq, Eq)]
pub enum PeerEvent {
    /// The subscription to this broadcast has ended.
    SubscriptionEnded { broadcast: String },
    /// The peer is gone.
    PeerDisconnected { peer: String },
}

/// What this peer publishes and whom it is connected to.
pub struct Coordinator {
    broadcasts: Vec<String>,
    sessions: Vec<String>,
    shutting_down: bool,
}

/// `items` without every `x`.
pub open spec fn without(items: Seq<Seq<char>>, x: Seq<char>) -> Seq<Seq<char>> {
    items.filter(|i: Seq<char>| i != x)
}

/// `x` announced to each of `peers`, in order.
pub open spec fn to_each_peer(peers: Seq<Seq<char>>, x: Seq<char>) -> Seq<(Seq<char>, Seq<char>)> {
    peers.map_values(|p: Seq<char>| (p, x))
}

/// Each of `broadcasts` announced to `peer`, in order.
pub open spec fn each_to_peer(peer: Seq<char>, broadcasts: Seq<Seq<char>>) -> Seq<
    (Seq<char>, Seq<char>),
> {
    broadcasts.map_values(|b: Seq<char>| (peer, b))
}

impl Coordinator {
    /// Names of the published broadcasts, in the order of their publishing.
    pub closed spec fn broadcasts(&self) -> Seq<Seq<char>> {
        texts(self.broadcasts@)
    }

    /// The connected peers, in the order of their connecting.
    pub closed spec fn sessions(&self) -> Seq<Seq<char>> {
        texts(self.sessions@)
    }

    pub closed spec fn shutting_down(&self) -> bool {
        self.shutting_down
    }

    /// A coordinator that publishes nothing and knows no peer.
    pub fn new() -> (c: Self)
        ensures
            c.broadcasts() == Seq::<Seq<char>>::empty(),
            c.sessions() == Seq::<Seq<char>>::empty(),
            !c.shutting_down(),
    {
        let c = Self { broadcasts: Vec::new(), sessions: Vec::new(), shutting_down: false };
        proof {
            assert(c.broadcasts() =~= Seq::empty());
            assert(c.sessions() =~= Seq::empty());
        }
        c
    }

    /// A peer has connected and finished its handshake. It is told of
    /// every published broadcast, unless shutdown has begun: then the peer
    /// is refused and nothing changes.
    pub fn handle_incoming_session(&mut self, peer: &str) -> (r: Option<Vec<Announcement>>)
        ensures
            final(self).broadcasts() == old(self).broadcasts(),
            final(self).shutting_down() == old(self).shutting_down(),
            old(self).shutting_down() ==> r is None && final(self).sessions() == old(self).sessions(),
            !old(self).shutting_down() ==> r is Some && announcement_pairs(r->0@) == each_to_peer(
                peer@,
                old(self).broadcasts(),
            ) && final(self).sessions() == if old(self).sessions().contains(peer@) {
                old(self).sessions()
            } else {
                old(self).sessions().push(peer@)
            },
    {
        if self.shutting_down {
            return None;
        }
        let mut out: Vec<Announcement> = Vec::new();
        let ghost all = each_to_peer(peer@, self.broadcasts());
        let mut i: usize = 0;
        proof {
            assert(announcement_pairs(out@) =~= all.take(0));
        }
        while i < self.broadcasts.len()
            invariant
                all == each_to_peer(peer@, self.broadcasts()),
                0 <= i <= self.broadcasts@.len(),
                announcement_pairs(out@) == all.take(i as int),
            decreases self.broadcasts@.len() - i,
        {
            let ghost prev = out@;
            let a = Announcement { peer: peer.to_owned(), broadcast: self.broadcasts[i].clone() };
            out.push(a);
            proof {
                assert(all.take(i + 1) =~= all.take(i as int).push(all[i as int]));
                assert(announcement_pairs(out@) =~= announcement_pairs(prev).push(
                    (a.peer@, a.broadcast@),
                ));
            }
            i = i + 1;
        }
        proof {
            assert(all.take(self.broadcasts@.len() as int) =~= all);
        }
        if !has_text(&self.sessions, peer) {
            let ghost before = self.sessions@;
            self.sessions.push(peer.to_owned());
            proof {
                assert(texts(self.sessions@) =~= texts(before).push(peer@));
            }
        }
        Some(out)
    }

    /// A broadcast is published: every connected peer is told of it at
    /// once, and it is kept for the peers that connect later.
    pub fn handle_publish_broadcast(&mut self, name: &str) -> (r: Vec<Announcement>)
        ensures
            final(self).sessions() == old(self).sessions(),
            final(self).shutting_down() == old(self).shutting_down(),
            announcement_pairs(r@) == to_each_peer(old(self).sessions(), name@),
            final(self).broadcasts() == if old(self).broadcasts().contains(name@) {
                old(self).broadcasts()
            } else {
                old(self).broadcasts().push(name@)
            },
    {
        let mut out: Vec<Announcement> = Vec::new();
        let ghost all = to_each_peer(self.sessions(), name@);
        let mut i: usize = 0;
        proof {
            assert(announcement_pairs(out@) =~= all.take(0));
        }
        while i < self.sessions.len()
            invariant
                all == to_each_peer(self.sessions(), name@),
                0 <= i <= self.sessions@.len(),
                announcement_pairs(out@) == all.take(i as int),
            decreases self.sessions@.len() - i,
        {
            let ghost prev = out@;
            let a = Announcement { peer: self.sessions[i].clone(), broadcast: name.to_owned() };
            out.push(a);
            proof {
                assert(all.take(i + 1) =~= all.take(i as int).push(all[i as int]));
                assert(announcement_pairs(out@) =~= announcement_pairs(prev).push(
                    (a.peer@, a.broadcast@),
                ));
            }
            i = i + 1;
        }
        proof {
            assert(all.take(self.sessions@.len() as int) =~= all);
        }
        if !has_text(&self.broadcasts, name) {
            let ghost before = self.broadcasts@;
            self.broadcasts.push(name.to_owned());
            proof {
                assert(texts(self.broadcasts@) =~= texts(before).push(name@));
            }
        }
        out
    }

    /// A broadcast is taken back: peers that connect later are not told of
    /// it.
    pub fn handle_remove_broadcast(&mut self, name: &str)
        ensures
            final(self).sessions() == old(self).sessions(),
            final(self).shutting_down() == old(self).shutting_down(),
            final(self).broadcasts() == without(old(self).broadcasts(), name@),
    {
        remove_text(&mut self.broadcasts, name);
    }

    /// The session with `peer` has closed: the peer is forgotten. Where
    /// the peer was connected, the viewer is told first that each of the
    /// subscriptions `subscribed` has ended, in order, and last that the
    /// peer is gone.
    pub fn handle_session_closed(&mut self, peer: &str, subscribed: &Vec<String>) -> (events: Vec<
        PeerEvent,
    >)
        ensures
            final(self).broadcasts() == old(self).broadcasts(),
            final(self).shutting_down() == old(self).shutting_down(),
            final(self).sessions() == without(old(self).sessions(), peer@),
            !old(self).sessions().contains(peer@) ==> events@.len() == 0,
            old(self).sessions().contains(peer@) ==> {
                &&& events@.len() == subscribed@.len() + 1
                &&& forall|i: int|
                    0 <= i < subscribed@.len() ==> (#[trigger] events@[i]
                        matches PeerEvent::SubscriptionEnded { broadcast } && broadcast@
                        == subscribed@[i]@)
                &&& events@[subscribed@.len() as int] matches PeerEvent::PeerDisconnected { peer: p }
                    && p@ == peer@
            },
    {
        let known = has_text(&self.sessions, peer);
        remove_text(&mut self.sessions, peer);
        let mut events: Vec<PeerEvent> = Vec::new();
        if !known {
            return events;
        }
        let mut i: usize = 0;
        while i < subscribed.len()
            invariant
                0 <= i <= subscribed@.len(),
                events@.len() == i,
                forall|k: int|
                    0 <= k < i ==> (#[trigger] events@[k]
                        matches PeerEvent::SubscriptionEnded { broadcast } && broadcast@
                        == subscribed@[k]@),
            decreases subscribed@.len() - i,
        {
            events.push(PeerEvent::SubscriptionEnded { broadcast: subscribed[i].clone() });
            i = i + 1;
        }
        events.push(PeerEvent::PeerDisconnected { peer: peer.to_owned() });
        events
    }

    /// Begins shutdown and gives the peers whose sessions are to be closed
    /// with code 0 and the reason `shutdown`. From now on no peer is
    /// accepted. Shutting down again closes nothing more.
    pub fn shutdown(&mut self) -> (to_close: Vec<String>)
        ensures
            final(self).shutting_down(),
            final(self).broadcasts() == old(self).broadcasts(),
            final(self).sessions() == Seq::<Seq<char>>::empty(),
            texts(to_close@) == old(self).sessions(),
    {
        self.shutting_down = true;
        let mut to_close: Vec<String> = Vec::new();
        std::mem::swap(&mut to_close, &mut self.sessions);
        proof {
            assert(texts(self.sessions@) =~= Seq::<Seq<char>>::empty());
        }
        to_close
    }

    /// Number of connected peers.
    pub fn session_count(&self) -> (n: usize)
        ensures
            n == self.sessions().len(),
    {
        self.sessions.len()
    }

    /// Whether the broadcast `name` is published.
    pub fn is_published(&self, name: &str) -> (b: bool)
        ensures
            b == self.broadcasts().contains(name@),
    {
        has_text(&self.broadcasts, name)
    }
}

/// Takes every `x` out of `v`.
fn remove_text(v: &mut Vec<String>, x: &str)
    ensures
        texts(final(v)@) == without(texts(old(v)@), x@),
{
    let ghost before = texts(v@);
    let ghost pred = |i: Seq<char>| i != x@;
    let ghost mut done: int = 0;
    let mut i: usize = 0;
    proof {
        assert(before.take(0) =~= Seq::empty());
        Seq::<Seq<char>>::empty().lemma_all_neg_filter_empty(pred);
        assert(before.take(0).filter(pred) + before.skip(0) =~= before);
    }
    while i < v.len()
        invariant
            before == texts(old(v)@),
            pred == (|i: Seq<char>| i != x@),
            0 <= done <= before.len(),
            0 <= i <= v@.len(),
            i == before.take(done).filter(pred).len(),
            texts(v@) == before.take(done).filter(pred) + before.skip(done),
        decreases before.len() - done,
    {
        let ghost current = texts(v@);
        proof {
            assert(current[i as int] == before.skip(done)[0]);
            assert(before.take(done + 1) =~= before.take(done).push(before[done]));
            before.take(done).lemma_filter_push(before[done], pred);
        }
        if crate::text::str_eq(v[i].as_str(), x) {
            v.remove(i);
            proof {
                assert(texts(v@) =~= current.remove(i as int));
                assert(current.remove(i as int) =~= before.take(done + 1).filter(pred)
                    + before.skip(done + 1));
            }
        } else {
            proof {
                assert(before.take(done + 1).filter(pred) + before.skip(done + 1) =~= current);
            }
            i = i + 1;
        }
        proof {
            done = done + 1;
        }
    }
    proof {
        before.take(done).lemma_filter_len(pred);
        assert(before.take(done) =~= before);
        assert(before.filter(pred) + Seq::<Seq<char>>::empty() =~= before.filter(pred));
    }
}

} // verus!
