//! Announcing sets of tracks and finding them by namespace prefix.

use vstd::prelude::*;
use crate::moq_protocol::lookup::first_index;
use crate::moq_protocol::lookup::lemma_first_index_is;
use crate::moq_protocol::names::Namespace;
use crate::moq_protocol::names::join_path;
use crate::moq_protocol::names::namespace_prefix;
use crate::moq_protocol::names::texts;
use crate::moq_protocol::object::copy_strings;

verus! {

/// What an announcement holds, as mathematical values.
pub struct AnnouncementModel {
    pub namespace: Seq<Seq<char>>,
    pub tracks: Seq<Seq<char>>,
    pub accepts_publishing: bool,
    pub auth_token: Option<Seq<char>>,
}

/// The tracks that a namespace offers.
#[derive(Debug, Clone)]
pub struct NamespaceAnnouncement {
    pub namespace: Namespace,
    pub tracks: Vec<String>,
    pub accepts_publishing: bool,
    pub auth_token: Option<String>,
}

impl View for NamespaceAnnouncement {
    type V = AnnouncementModel;

    open spec fn view(&self) -> AnnouncementModel {
        AnnouncementModel {
            namespace: self.namespace@,
            tracks: texts(self.tracks@),
            accepts_publishing: self.accepts_publishing,
            auth_token: match self.auth_token {
                Some(token) => Some(token@),
                None => None,
            },
        }
    }
}

impl NamespaceAnnouncement {
    /// A copy of the announcement that holds the same values.
    pub fn duplicate(&self) -> (a: Self)
        ensures
            a@ == self@,
    {
        NamespaceAnnouncement {
            namespace: self.namespace.duplicate(),
            tracks: copy_strings(&self.tracks),
            accepts_publishing: self.accepts_publishing,
            auth_token: match &self.auth_token {
                Some(token) => Some(token.clone()),
                None => None,
            },
        }
    }
}

pub open spec fn announcement_models(v: Seq<NamespaceAnnouncement>) -> Seq<AnnouncementModel> {
    v.map_values(|a: NamespaceAnnouncement| a@)
}

/// The string forms of the announced namespaces, in order.
pub open spec fn announced_paths(published: Seq<AnnouncementModel>) -> Seq<Seq<char>> {
    published.map_values(|a: AnnouncementModel| join_path(a.namespace))
}

/// The announcements after `a` was announced: it stands where one with the
/// same namespace path stood, else at the end.
pub open spec fn announced(published: Seq<AnnouncementModel>, a: AnnouncementModel) -> Seq<
    AnnouncementModel,
> {
    let i = first_index(announced_paths(published), join_path(a.namespace));
    if i < published.len() {
        published.update(i, a)
    } else {
        published.push(a)
    }
}

/// The announcements whose namespace has `prefix` as a prefix, in order.
pub open spec fn under_prefix(published: Seq<AnnouncementModel>, prefix: Seq<Seq<char>>) -> Seq<
    AnnouncementModel,
> {
    published.filter(|a: AnnouncementModel| namespace_prefix(prefix, a.namespace))
}

/// The announcement stored for the namespace path `path`, if there is one.
pub open spec fn announcement_for(published: Seq<AnnouncementModel>, path: Seq<char>) -> Option<
    AnnouncementModel,
> {
    let i = first_index(announced_paths(published), path);
    if i < published.len() {
        Some(published[i])
    } else {
        None
    }
}

/// Whether one of the announced namespaces is a prefix of `namespace`.
pub open spec fn covered(published: Seq<AnnouncementModel>, namespace: Seq<Seq<char>>) -> bool {
    exists|i: int|
        0 <= i < published.len() && crate::moq_protocol::names::namespace_prefix(
            (#[trigger] published[i]).namespace,
            namespace,
        )
}

/// The published namespaces of this endpoint.
pub struct NamespaceManager {
    published: Vec<NamespaceAnnouncement>,
}

impl NamespaceManager {
    /// The stored announcements, in the order in which their namespaces were
    /// first announced.
    pub closed spec fn published(&self) -> Seq<AnnouncementModel> {
        announcement_models(self.published@)
    }

    pub fn new() -> (m: Self)
        ensures
            m.published() == Seq::<AnnouncementModel>::empty(),
    {
        let m = Self { published: Vec::new() };
        proof {
            assert(announcement_models(m.published@) =~= Seq::empty());
        }
        m
    }

    /// Where the announcement for the namespace path `path` stands, or the
    /// number of announcements.
    fn position(&self, path: &String) -> (i: usize)
        ensures
            i == first_index(announced_paths(self.published()), path@),
            i <= self.published@.len(),
    {
        let n = self.published.len();
        let mut i: usize = 0;
        while i < n
            invariant
                n == self.published@.len(),
                0 <= i <= n,
                forall|k: int| 0 <= k < i ==> announced_paths(self.published())[k] != path@,
            decreases n - i,
        {
            let key = self.published[i].namespace.to_string_path();
            if key == *path {
                proof {
                    lemma_first_index_is(announced_paths(self.published()), path@, i as int);
                }
                return i;
            }
            i = i + 1;
        }
        proof {
            lemma_first_index_is(announced_paths(self.published()), path@, n as int);
        }
        n
    }

    /// Stores `announcement` under the path of its namespace, in place of
    /// an earlier one for that path.
    pub fn announce(&mut self, announcement: NamespaceAnnouncement)
        ensures
            final(self).published() == announced(old(self).published(), announcement@),
    {
        let key = announcement.namespace.to_string_path();
        let i = self.position(&key);
        let ghost before = self.published();
        if i < self.published.len() {
            self.published.set(i, announcement);
            proof {
                assert(announcement_models(self.published@) =~= before.update(
                    i as int,
                    announcement@,
                ));
            }
        } else {
            self.published.push(announcement);
            proof {
                assert(announcement_models(self.published@) =~= before.push(announcement@));
            }
        }
    }

    /// Copies of every stored announcement whose namespace has
    /// `namespace_prefix` as a prefix: an announcement is in the answer if
    /// and only if it is stored and the prefix relation holds.
    pub fn subscribe(&self, namespace_prefix: Namespace) -> (r: Vec<NamespaceAnnouncement>)
        ensures
            announcement_models(r@) == under_prefix(self.published(), namespace_prefix@),
            forall|a: AnnouncementModel|
                announcement_models(r@).contains(a) <==> (self.published().contains(a)
                    && crate::moq_protocol::names::namespace_prefix(namespace_prefix@, a.namespace)),
    {
        let ghost all = self.published();
        let ghost pred = |a: AnnouncementModel|
            crate::moq_protocol::names::namespace_prefix(namespace_prefix@, a.namespace);
        let mut r: Vec<NamespaceAnnouncement> = Vec::new();
        let mut i: usize = 0;
        proof {
            assert(all.take(0) =~= Seq::empty());
            Seq::<AnnouncementModel>::empty().lemma_all_neg_filter_empty(pred);
            assert(announcement_models(r@) =~= Seq::empty());
        }
        while i < self.published.len()
            invariant
                all == self.published(),
                0 <= i <= self.published@.len(),
                pred == (|a: AnnouncementModel|
                    crate::moq_protocol::names::namespace_prefix(namespace_prefix@, a.namespace)),
                announcement_models(r@) == all.take(i as int).filter(pred),
            decreases self.published@.len() - i,
        {
            let entry = &self.published[i];
            proof {
                assert(all.take(i + 1) =~= all.take(i as int).push(entry@));
                all.take(i as int).lemma_filter_push(entry@, pred);
            }
            if namespace_prefix.is_prefix_of(&entry.namespace) {
                let copy = entry.duplicate();
                proof {
                    assert(announcement_models(r@.push(copy)) =~= announcement_models(r@).push(
                        copy@,
                    ));
                }
                r.push(copy);
            }
            i = i + 1;
        }
        proof {
            assert(all.take(self.published@.len() as int) =~= all);
            let answer = announcement_models(r@);
            assert forall|a: AnnouncementModel| answer.contains(a) <==> (all.contains(a) && pred(
                a,
            )) by {
                if answer.contains(a) {
                    all.lemma_filter_contains_rev(pred, a);
                    let k = choose|k: int| 0 <= k < answer.len() && answer[k] == a;
                    all.lemma_filter_pred(pred, k);
                }
                if all.contains(a) && pred(a) {
                    let j = choose|j: int| 0 <= j < all.len() && all[j] == a;
                    all.lemma_filter_contains(pred, j);
                }
            }
        }
        r
    }

    /// Copies of every stored announcement.
    pub fn list_published(&self) -> (r: Vec<NamespaceAnnouncement>)
        ensures
            announcement_models(r@) == self.published(),
    {
        let ghost all = self.published();
        let mut r: Vec<NamespaceAnnouncement> = Vec::new();
        let mut i: usize = 0;
        proof {
            assert(announcement_models(r@) =~= all.take(0));
        }
        while i < self.published.len()
            invariant
                all == self.published(),
                0 <= i <= self.published@.len(),
                announcement_models(r@) == all.take(i as int),
            decreases self.published@.len() - i,
        {
            let copy = self.published[i].duplicate();
            proof {
                assert(all.take(i + 1) =~= all.take(i as int).push(all[i as int]));
                assert(announcement_models(r@.push(copy)) =~= announcement_models(r@).push(copy@));
            }
            r.push(copy);
            i = i + 1;
        }
        proof {
            assert(all.take(self.published@.len() as int) =~= all);
        }
        r
    }

    /// A copy of the announcement stored for the path of `namespace`.
    pub fn get_announcement(&self, namespace: &Namespace) -> (r: Option<NamespaceAnnouncement>)
        ensures
            match r {
                Some(a) => announcement_for(self.published(), join_path(namespace@)) == Some(a@),
                None => announcement_for(self.published(), join_path(namespace@)) is None,
            },
    {
        let key = namespace.to_string_path();
        let i = self.position(&key);
        if i < self.published.len() {
            Some(self.published[i].duplicate())
        } else {
            None
        }
    }

    /// Whether a published namespace covers `namespace`: whether one of the
    /// announced namespaces is a prefix of it.
    pub fn covers(&self, namespace: &Namespace) -> (b: bool)
        ensures
            b == covered(self.published(), namespace@),
    {
        let mut i: usize = 0;
        while i < self.published.len()
            invariant
                0 <= i <= self.published@.len(),
                forall|k: int|
                    0 <= k < i ==> !crate::moq_protocol::names::namespace_prefix(
                        (#[trigger] self.published()[k]).namespace,
                        namespace@,
                    ),
            decreases self.published@.len() - i,
        {
            if self.published[i].namespace.is_prefix_of(namespace) {
                assert(crate::moq_protocol::names::namespace_prefix(
                    self.published()[i as int].namespace,
                    namespace@,
                ));
                return true;
            }
            i = i + 1;
        }
        false
    }
}

impl Default for NamespaceManager {
    fn default() -> (m: Self)
        ensures
            m.published() == Seq::<AnnouncementModel>::empty(),
    {
        Self::new()
    }
}

} // verus!
