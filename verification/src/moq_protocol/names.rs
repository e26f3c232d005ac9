//! Namespaces and full track names, with their slash-separated string forms.

use vstd::prelude::*;

verus! {

/// Length of the leading run of `s` that holds no `/`.
pub open spec fn segment_len(s: Seq<char>) -> nat
    decreases s.len(),
{
    if s.len() == 0 || s[0] == '/' {
        0
    } else {
        1 + segment_len(s.skip(1))
    }
}

/// The pieces of `s` between its `/` characters, in order. A text without `/`
/// (the empty text too) is one piece.
pub open spec fn split_path(s: Seq<char>) -> Seq<Seq<char>>
    decreases s.len(),
{
    let n = segment_len(s) as int;
    if n >= s.len() {
        seq![s]
    } else {
        seq![s.take(n)] + split_path(s.skip(n + 1))
    }
}

/// The components written one after the other with a `/` between neighbours.
pub open spec fn join_path(parts: Seq<Seq<char>>) -> Seq<char>
    decreases parts.len(),
{
    if parts.len() == 0 {
        Seq::empty()
    } else if parts.len() == 1 {
        parts[0]
    } else {
        join_path(parts.drop_last()) + seq!['/'] + parts.last()
    }
}

/// Index of the last `/` in `s`, or -1 when it holds none.
pub open spec fn last_slash(s: Seq<char>) -> int
    decreases s.len(),
{
    if s.len() == 0 {
        -1
    } else if s.last() == '/' {
        s.len() - 1
    } else {
        last_slash(s.drop_last())
    }
}

/// The first segment of `s` holds no slash and ends at a slash or at the
/// end of `s`.
pub proof fn lemma_segment_len_bound(s: Seq<char>)
    ensures
        segment_len(s) <= s.len(),
        forall|k: int| 0 <= k < segment_len(s) ==> s[k] != '/',
        segment_len(s) < s.len() ==> s[segment_len(s) as int] == '/',
    decreases s.len(),
{
    if s.len() == 0 || s[0] == '/' {
    } else {
        lemma_segment_len_bound(s.skip(1));
        assert forall|k: int| 0 <= k < segment_len(s) implies s[k] != '/' by {
            if k > 0 {
                assert(s.skip(1)[k - 1] == s[k]);
            }
        }
        let n = segment_len(s.skip(1)) as int;
        if n < s.skip(1).len() {
            assert(s.skip(1)[n] == s[n + 1]);
        }
    }
}

/// A run without `/` that ends at the text's end or at a `/` is the leading segment.
pub proof fn lemma_segment_len_is(s: Seq<char>, n: int)
    requires
        0 <= n <= s.len(),
        forall|k: int| 0 <= k < n ==> s[k] != '/',
        n < s.len() ==> s[n] == '/',
    ensures
        segment_len(s) == n,
    decreases s.len(),
{
    if s.len() == 0 || s[0] == '/' {
    } else {
        let t = s.skip(1);
        assert forall|k: int| 0 <= k < n - 1 implies t[k] != '/' by {
            assert(t[k] == s[k + 1]);
        }
        if n - 1 < t.len() {
            assert(t[n - 1] == s[n]);
        }
        lemma_segment_len_is(t, n - 1);
    }
}

/// The last slash of `s` is a slash, and no slash stands behind it.
pub proof fn lemma_last_slash(s: Seq<char>)
    ensures
        -1 <= last_slash(s) < s.len(),
        last_slash(s) >= 0 ==> s[last_slash(s)] == '/',
        forall|k: int| last_slash(s) < k < s.len() ==> s[k] != '/',
    decreases s.len(),
{
    if s.len() == 0 || s.last() == '/' {
    } else {
        let t = s.drop_last();
        lemma_last_slash(t);
        assert forall|k: int| last_slash(s) < k < s.len() implies s[k] != '/' by {
            if k < t.len() {
                assert(t[k] == s[k]);
            }
        }
    }
}

/// The position of a `/` with none behind it is the last one.
pub proof fn lemma_last_slash_is(s: Seq<char>, i: int)
    requires
        -1 <= i < s.len(),
        i >= 0 ==> s[i] == '/',
        forall|k: int| i < k < s.len() ==> s[k] != '/',
    ensures
        last_slash(s) == i,
    decreases s.len(),
{
    if s.len() == 0 || s.last() == '/' {
    } else {
        lemma_last_slash_is(s.drop_last(), i);
    }
}

/// An ordered tuple of path components.
#[derive(Debug, Clone, Hash)]
pub struct Namespace {
    pub components: Vec<String>,
}

/// The components as texts.
pub open spec fn texts(v: Seq<String>) -> Seq<Seq<char>> {
    v.map_values(|s: String| s@)
}

impl View for Namespace {
    type V = Seq<Seq<char>>;

    open spec fn view(&self) -> Seq<Seq<char>> {
        texts(self.components@)
    }
}

/// `a` is a prefix of `b`, component by component.
pub open spec fn namespace_prefix(a: Seq<Seq<char>>, b: Seq<Seq<char>>) -> bool {
    a.len() <= b.len() && forall|i: int| 0 <= i < a.len() ==> a[i] == b[i]
}

impl Namespace {
    pub fn new(components: Vec<String>) -> (ns: Self)
        ensures
            ns.components == components,
            ns@ == texts(components@),
    {
        Self { components }
    }

    /// Splits `s` at each `/`.
    pub fn from_str(s: &str) -> (ns: Self)
        ensures
            ns@ == split_path(s@),
    {
        let n = s.unicode_len();
        let mut components: Vec<String> = Vec::new();
        let mut start: usize = 0;
        let mut i: usize = 0;
        proof {
            assert(s@.skip(0) =~= s@);
            assert(texts(components@) + split_path(s@) =~= split_path(s@));
        }
        while i < n
            invariant
                n == s@.len(),
                0 <= start <= i <= n,
                forall|k: int| start <= k < i ==> s@[k] != '/',
                split_path(s@) == texts(components@) + split_path(s@.skip(start as int)),
            decreases n - i,
        {
            let c = s.get_char(i);
            if c == '/' {
                let piece = s.substring_char(start, i);
                let owned = piece.to_owned();
                proof {
                    let rest = s@.skip(start as int);
                    assert forall|k: int| 0 <= k < i - start implies rest[k] != '/' by {
                        assert(rest[k] == s@[start + k]);
                    }
                    assert(rest[i - start] == s@[i as int]);
                    lemma_segment_len_is(rest, i - start);
                    assert(rest.take(i - start) =~= s@.subrange(start as int, i as int));
                    assert(rest.skip(i - start + 1) =~= s@.skip(i + 1));
                    assert(texts(components@.push(owned)) =~= texts(components@) + seq![owned@]);
                }
                components.push(owned);
                start = i + 1;
            }
            i = i + 1;
        }
        let piece = s.substring_char(start, n);
        let owned = piece.to_owned();
        proof {
            let rest = s@.skip(start as int);
            assert forall|k: int| 0 <= k < n - start implies rest[k] != '/' by {
                assert(rest[k] == s@[start + k]);
            }
            lemma_segment_len_is(rest, n - start);
            assert(rest =~= s@.subrange(start as int, n as int));
            assert(texts(components@.push(owned)) =~= texts(components@) + seq![owned@]);
        }
        components.push(owned);
        Self { components }
    }

    /// The components joined with `/`.
    pub fn to_string_path(&self) -> (path: String)
        ensures
            path@ == join_path(self@),
    {
        let mut out = String::new();
        let n = self.components.len();
        let mut i: usize = 0;
        while i < n
            invariant
                n == self.components@.len(),
                0 <= i <= n,
                out@ == join_path(self@.take(i as int)),
            decreases n - i,
        {
            proof {
                reveal_strlit("/");
                assert(self@.take(i + 1).drop_last() =~= self@.take(i as int));
                assert(self@.take(i + 1).last() == self.components@[i as int]@);
                assert("/"@ =~= seq!['/']);
            }
            if i > 0 {
                out.append("/");
            }
            out.append(self.components[i].as_str());
            i = i + 1;
        }
        proof {
            assert(self@.take(n as int) =~= self@);
        }
        out
    }

    /// Whether this namespace is a prefix of `other`.
    pub fn is_prefix_of(&self, other: &Namespace) -> (b: bool)
        ensures
            b == namespace_prefix(self@, other@),
    {
        if self.components.len() > other.components.len() {
            return false;
        }
        let n = self.components.len();
        let mut i: usize = 0;
        while i < n
            invariant
                n == self.components@.len(),
                n <= other.components@.len(),
                0 <= i <= n,
                forall|k: int| 0 <= k < i ==> self@[k] == other@[k],
            decreases n - i,
        {
            if !(self.components[i] == other.components[i]) {
                assert(self@[i as int] != other@[i as int]);
                return false;
            }
            i = i + 1;
        }
        true
    }
}

/// A namespace together with a track's name.
#[derive(Debug, Clone, Hash)]
pub struct FullTrackName {
    pub namespace: Namespace,
    pub track_name: String,
}

/// The string form of a track name: the namespace's path, a `/` and the
/// name. A namespace without components has the empty path, so the string
/// form of a name in it begins with the `/`.
pub open spec fn track_path(namespace: Seq<Seq<char>>, name: Seq<char>) -> Seq<char> {
    join_path(namespace) + seq!['/'] + name
}

impl FullTrackName {
    pub open spec fn path(&self) -> Seq<char> {
        track_path(self.namespace@, self.track_name@)
    }

    pub fn new(namespace: Namespace, track_name: &str) -> (t: Self)
        ensures
            t.namespace == namespace,
            t.track_name@ == track_name@,
    {
        Self { namespace, track_name: track_name.to_owned() }
    }

    /// Parts `path` at its last `/`: the namespace is what stands before it,
    /// split at each `/`; the track name what stands behind. A path without
    /// `/` is a track name in the empty namespace.
    pub fn from_path(path: &str) -> (t: Self)
        ensures
            last_slash(path@) < 0 ==> t.namespace@.len() == 0 && t.track_name@ == path@,
            last_slash(path@) >= 0 ==> t.namespace@ == split_path(path@.take(last_slash(path@)))
                && t.track_name@ == path@.skip(last_slash(path@) + 1),
    {
        let n = path.unicode_len();
        let mut i: usize = n;
        while i > 0
            invariant
                n == path@.len(),
                0 <= i <= n,
                forall|k: int| i <= k < n ==> path@[k] != '/',
            decreases i,
        {
            let c = path.get_char(i - 1);
            if c == '/' {
                proof {
                    lemma_last_slash_is(path@, i - 1);
                    assert(path@.take(i - 1) =~= path@.subrange(0, i - 1));
                    assert(path@.skip(i as int) =~= path@.subrange(i as int, n as int));
                }
                let head = path.substring_char(0, i - 1);
                let tail = path.substring_char(i, n);
                return Self { namespace: Namespace::from_str(head), track_name: tail.to_owned() };
            }
            i = i - 1;
        }
        proof {
            lemma_last_slash_is(path@, -1);
            assert(texts(Seq::<String>::empty()) =~= Seq::<Seq<char>>::empty());
        }
        Self { namespace: Namespace::new(Vec::new()), track_name: path.to_owned() }
    }

    /// The string form of this track name.
    pub fn to_path(&self) -> (p: String)
        ensures
            p@ == join_path(self.namespace@) + seq!['/'] + self.track_name@,
            p@ == self.path(),
    {
        let mut out = self.namespace.to_string_path();
        proof {
            reveal_strlit("/");
            assert("/"@ =~= seq!['/']);
        }
        out.append("/");
        out.append(self.track_name.as_str());
        out
    }
}

} // verus!
