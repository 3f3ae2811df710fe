//! Which media factory serves which URI.

use vstd::prelude::*;

use super::mount_laws::{is_directory, law_lies_below_is_prefix};
use crate::text::{chars_of, same, split, split_str, string_of, views};
use crate::typemap::TypeMap;
use crate::url::{has_path, is_at_path, nonempty_prefix, url_at_path, Url, UrlView};

verus! {

/// Presentation URI.
///
/// Joining the presentation URI with the control attribute of the SDP should give the control URI
/// of the stream.
///
/// This is also passed through the extra data in various places.
pub struct PresentationURI {
    pub url: Url,
}

impl PresentationURI {
    /// The URI.
    pub open spec fn view(self) -> UrlView {
        self.url@
    }

    /// A copy of this URI.
    pub fn copy(&self) -> (r: PresentationURI)
        ensures
            r == *self,
    {
        PresentationURI { url: self.url.copy() }
    }

    /// Whether both are the same, as they are written.
    pub fn same(&self, other: &PresentationURI) -> (r: bool)
        ensures
            r == (self@.text == other@.text),
    {
        same(self.url.text.as_str(), other.url.text.as_str())
    }
}

/// A path that ends with a slash: the path itself, or with a slash behind it.
pub open spec fn directory_path(path: Seq<char>) -> Seq<char> {
    if path.len() > 0 && path.last() == '/' {
        path
    } else {
        path.push('/')
    }
}

/// Whether `uri` lies at or below `path`, segment by segment. What follows an empty segment of
/// `path` does not count.
pub open spec fn lies_below(uri: UrlView, path: Seq<char>) -> bool {
    let path_segments = split(path.skip(1), '/');
    let uri_segments = split(uri.path.skip(1), '/');
    let n = nonempty_prefix(path_segments);
    &&& !uri.cannot_be_a_base
    &&& uri.path.len() > 0 && uri.path[0] == '/'
    &&& n <= uri_segments.len()
    &&& forall|i: int| 0 <= i < n ==> path_segments[i] == #[trigger] uri_segments[i]
}

/// The presentation URI of `uri` below `path`, if it lies there.
pub open spec fn presentation_uri_at(uri: UrlView, path: Seq<char>) -> Option<UrlView> {
    if lies_below(uri, path) {
        url_at_path(uri.text, path)
    } else {
        None
    }
}

/// What an optional presentation URI reads as.
pub open spec fn opt_presentation_view(uri: Option<PresentationURI>) -> Option<UrlView> {
    match uri {
        Some(uri) => Some(uri@),
        None => None,
    }
}

/// Matches `uri` with the directory `path`, and gives the presentation URI.
///
/// This matches `/foo/bar` for `/foo/` but not `/foobar`.
pub fn match_path(uri: &Url, path: &str) -> (r: Option<PresentationURI>)
    requires
        path@.len() > 0,
    ensures
        opt_presentation_view(r) == presentation_uri_at(uri@, path@),
        r matches Some(found) ==> is_at_path(found@, uri@, path@),
        lies_below(uri@, path@) && has_path(uri@, path@) ==> r is Some,
        r is Some && is_directory(path@) ==> path@.is_prefix_of(uri@.path.push('/')),
{
    proof {
        if lies_below(uri@, path@) && is_directory(path@) {
            law_lies_below_is_prefix(uri@, path@, Seq::empty());
        }
    }
    if uri.cannot_be_a_base {
        return None;
    }
    let uri_chars = chars_of(uri.path.as_str());
    if uri_chars.len() == 0 || uri_chars[0] != '/' {
        return None;
    }
    let path_chars = chars_of(path);
    let uri_rest = string_of(&uri_chars, 1, uri_chars.len());
    let path_rest = string_of(&path_chars, 1, path_chars.len());
    let uri_segments = split_str(uri_rest.as_str(), '/');
    let path_segments = split_str(path_rest.as_str(), '/');
    let ghost us = views(uri_segments@);
    let ghost ps = views(path_segments@);
    proof {
        assert(uri_rest@ =~= uri@.path.skip(1));
        assert(path_rest@ =~= path@.skip(1));
        crate::url::lemma_nonempty_prefix_bounds(ps);
    }
    let ghost n = nonempty_prefix(ps);
    let mut i: usize = 0;
    while i < path_segments.len() && path_segments[i].as_str().unicode_len() != 0
        invariant
            us == views(uri_segments@),
            ps == views(path_segments@),
            us == split(uri@.path.skip(1), '/'),
            ps == split(path@.skip(1), '/'),
            n == nonempty_prefix(ps),
            0 <= n <= ps.len(),
            forall|j: int| 0 <= j < n ==> (#[trigger] ps[j]).len() > 0,
            n < ps.len() ==> ps[n].len() == 0,
            i <= n,
            i <= us.len(),
            forall|j: int| 0 <= j < i ==> ps[j] == #[trigger] us[j],
        decreases path_segments@.len() - i,
    {
        proof {
            assert(ps[i as int] == path_segments@[i as int]@);
        }
        if i >= uri_segments.len() {
            return None;
        }
        if !same(path_segments[i].as_str(), uri_segments[i].as_str()) {
            proof {
                assert(us[i as int] == uri_segments@[i as int]@);
            }
            return None;
        }
        i = i + 1;
    }
    proof {
        if i < path_segments@.len() {
            assert(ps[i as int] == path_segments@[i as int]@);
        }
        assert(i == n);
    }
    match uri.at_path(path) {
        Some(url) => Some(PresentationURI { url }),
        None => None,
    }
}

/// How a media factory is matched with a URI.
pub enum Matcher<G> {
    /// Everything at or below a directory.
    Path(String),
    /// Whatever a function matches.
    Custom(G),
}

/// A media factory and what it is matched with.
pub struct Mount<G> {
    /// The media factory.
    pub media_factory_id: u128,
    pub matcher: Matcher<G>,
}

impl<G> Mount<G> {
    /// Paths of mounts are directories.
    pub open spec fn wf(self) -> bool {
        self.matcher matches Matcher::Path(path) ==> path@.len() > 0
    }

    /// Whether matching `uri` with this mount can give `r`.
    pub open spec fn gives<V>(
        self,
        uri: Url,
        extra_data: TypeMap<V>,
        r: Option<(PresentationURI, TypeMap<V>)>,
    ) -> bool where G: Fn(&Url, &TypeMap<V>) -> Option<(PresentationURI, TypeMap<V>)> {
        match self.matcher {
            Matcher::Path(path) => match r {
                Some((uri_found, extra)) => presentation_uri_at(uri@, path@) == Some(uri_found@)
                    && is_at_path(uri_found@, uri@, path@) && extra@ == Map::<u64, V>::empty(),
                None => presentation_uri_at(uri@, path@) is None,
            },
            Matcher::Custom(func) => call_ensures(func, (&uri, &extra_data), r),
        }
    }

    /// Whether `uri` can be matched with this mount.
    pub open spec fn takes<V>(self, uri: Url, extra_data: TypeMap<V>) -> bool where
        G: Fn(&Url, &TypeMap<V>) -> Option<(PresentationURI, TypeMap<V>)>,
     {
        self.matcher matches Matcher::Custom(func) ==> call_requires(func, (&uri, &extra_data))
    }
}

/// Matches URIs with media factories.
pub struct Mounts<G> {
    /// All mounts, in the order in which they were defined.
    pub mounts: Vec<Mount<G>>,
    /// The media factories that are running. None before they are spawned.
    pub factories: Vec<u128>,
    /// The media factories that are not spawned yet. None afterwards.
    pub unspawned: Vec<u128>,
}

/// Builder for `Mounts`.
pub struct Builder<G> {
    pub mounts: Vec<Mount<G>>,
}

/// The media factories of some mounts.
pub open spec fn factory_ids<G>(mounts: Seq<Mount<G>>) -> Seq<u128> {
    Seq::new(mounts.len(), |i: int| mounts[i].media_factory_id)
}

impl<G> Builder<G> {
    /// Every mount is usable, and no media factory has two.
    pub open spec fn wf(self) -> bool {
        &&& forall|i: int| 0 <= i < self.mounts@.len() ==> (#[trigger] self.mounts@[i]).wf()
        &&& factory_ids(self.mounts@).no_duplicates()
    }

    /// Build the mounts.
    pub fn build(self) -> (r: Mounts<G>)
        requires
            self.wf(),
        ensures
            r.wf(),
            r.mounts@ == self.mounts@,
            r.factories@ == Seq::<u128>::empty(),
            r.unspawned@ == factory_ids(self.mounts@),
    {
        let mut unspawned: Vec<u128> = Vec::new();
        let mut i: usize = 0;
        while i < self.mounts.len()
            invariant
                i <= self.mounts@.len(),
                unspawned@ == factory_ids(self.mounts@).take(i as int),
            decreases self.mounts@.len() - i,
        {
            unspawned.push(self.mounts[i].media_factory_id);
            proof {
                assert(unspawned@ =~= factory_ids(self.mounts@).take(i + 1));
            }
            i = i + 1;
        }
        proof {
            assert(factory_ids(self.mounts@).take(i as int) =~= factory_ids(self.mounts@));
        }
        Mounts { mounts: self.mounts, factories: Vec::new(), unspawned }
    }

    /// Matches the media factory with everything at or below `path`.
    ///
    /// The corresponding presentation URI will be the path followed by a '/'.
    ///
    /// The path has to start with a '/'.
    pub fn path(self, media_factory_id: u128, path: &str) -> (r: Builder<G>)
        requires
            self.wf(),
            path@.len() > 0,
            path@[0] == '/',
            !factory_ids(self.mounts@).contains(media_factory_id),
        ensures
            r.wf(),
            r.mounts@.len() == self.mounts@.len() + 1,
            r.mounts@.drop_last() == self.mounts@,
            r.mounts@.last().media_factory_id == media_factory_id,
            r.mounts@.last().matcher matches Matcher::Path(p) && p@ == directory_path(path@),
    {
        let chars = chars_of(path);
        let mut directory = path.to_owned();
        if chars[chars.len() - 1] != '/' {
            directory.push('/');
        }
        self.mount(media_factory_id, Matcher::Path(directory))
    }

    /// Matches the media factory based on `func`, which gives the presentation URI if it matches.
    ///
    /// The presentation URI would be equivalent to the `Content-Base`, and joining it with the
    /// media's stream IDs should result in the stream control URIs.
    pub fn matches(self, media_factory_id: u128, func: G) -> (r: Builder<G>)
        requires
            self.wf(),
            !factory_ids(self.mounts@).contains(media_factory_id),
        ensures
            r.wf(),
            r.mounts@ == self.mounts@.push(
                (Mount { media_factory_id, matcher: Matcher::Custom(func) }),
            ),
    {
        self.mount(media_factory_id, Matcher::Custom(func))
    }

    fn mount(self, media_factory_id: u128, matcher: Matcher<G>) -> (r: Builder<G>)
        requires
            self.wf(),
            matcher matches Matcher::Path(path) ==> path@.len() > 0,
            !factory_ids(self.mounts@).contains(media_factory_id),
        ensures
            r.wf(),
            r.mounts@ == self.mounts@.push((Mount { media_factory_id, matcher })),
    {
        let mut mounts = self.mounts;
        let ghost before = mounts@;
        mounts.push(Mount { media_factory_id, matcher });
        proof {
            assert(factory_ids(mounts@) =~= factory_ids(before).push(media_factory_id));
            assert forall|i: int, j: int|
                0 <= i < j < mounts@.len() implies factory_ids(mounts@)[i] != factory_ids(
                mounts@,
            )[j] by {
                if j == before.len() {
                    assert(factory_ids(before).contains(factory_ids(before)[i]));
                }
            }
            assert(before =~= mounts@.drop_last());
        }
        Builder { mounts }
    }
}

impl<G> Mounts<G> {
    /// Every mount is usable and has a media factory of its own, which is running or still to be
    /// spawned.
    pub open spec fn wf(self) -> bool {
        &&& forall|i: int| 0 <= i < self.mounts@.len() ==> (#[trigger] self.mounts@[i]).wf()
        &&& factory_ids(self.mounts@).no_duplicates()
        &&& self.factories@.no_duplicates()
        &&& forall|id: u128|
            #[trigger] factory_ids(self.mounts@).contains(id) <==> self.factories@.contains(id)
                || self.unspawned@.contains(id)
        &&& self.unspawned@.no_duplicates()
        &&& forall|id: u128|
            self.factories@.contains(id) ==> !#[trigger] self.unspawned@.contains(id)
    }

    /// Whether `r` is the first match of `uri` in the order of the mounts, and its media factory is
    /// running.
    pub open spec fn matched<V>(
        self,
        uri: Url,
        extra_data: TypeMap<V>,
        r: Option<(u128, PresentationURI, TypeMap<V>)>,
    ) -> bool where G: Fn(&Url, &TypeMap<V>) -> Option<(PresentationURI, TypeMap<V>)> {
        match r {
            Some((id, uri_found, extra)) => self.factories@.contains(id) && exists|i: int|
                {
                    &&& 0 <= i < self.mounts@.len()
                    &&& (#[trigger] self.mounts@[i]).media_factory_id == id
                    &&& self.mounts@[i].gives(uri, extra_data, Some((uri_found, extra)))
                    &&& forall|j: int|
                        0 <= j < i ==> (#[trigger] self.mounts@[j]).gives(uri, extra_data, None)
                },
            None => forall|j: int|
                0 <= j < self.mounts@.len() ==> (#[trigger] self.mounts@[j]).gives(
                    uri,
                    extra_data,
                    None,
                ),
        }
    }

    /// Create a new `Builder` for mounts.
    pub fn builder() -> (r: Builder<G>)
        ensures
            r.wf(),
            r.mounts@ == Seq::<Mount<G>>::empty(),
    {
        Builder { mounts: Vec::new() }
    }

    /// Match `uri` and return the first matching media factory, the corresponding presentation URI
    /// and the extra data that the match gave.
    ///
    /// The media factories have to be spawned.
    pub fn match_uri<V>(&self, uri: &Url, extra_data: &TypeMap<V>) -> (r: Option<
        (u128, PresentationURI, TypeMap<V>),
    >) where G: Fn(&Url, &TypeMap<V>) -> Option<(PresentationURI, TypeMap<V>)>
        requires
            self.wf(),
            self.unspawned@.len() == 0,
            forall|i: int|
                0 <= i < self.mounts@.len() ==> (#[trigger] self.mounts@[i]).takes(
                    *uri,
                    *extra_data,
                ),
        ensures
            self.matched(*uri, *extra_data, r),
    {
        let mut i: usize = 0;
        while i < self.mounts.len()
            invariant
                self.wf(),
                self.unspawned@.len() == 0,
                i <= self.mounts@.len(),
                forall|j: int|
                    0 <= j < self.mounts@.len() ==> (#[trigger] self.mounts@[j]).takes(
                        *uri,
                        *extra_data,
                    ),
                forall|j: int|
                    0 <= j < i ==> (#[trigger] self.mounts@[j]).gives(*uri, *extra_data, None),
            decreases self.mounts@.len() - i,
        {
            let mount = &self.mounts[i];
            proof {
                assert(self.mounts@[i as int].wf());
                assert(self.mounts@[i as int].takes(*uri, *extra_data));
            }
            let found: Option<(PresentationURI, TypeMap<V>)> = match &mount.matcher {
                Matcher::Path(path) => match match_path(uri, path.as_str()) {
                    Some(presentation_uri) => Some((presentation_uri, TypeMap::new())),
                    None => None,
                },
                Matcher::Custom(func) => func(uri, extra_data),
            };
            proof {
                assert(self.mounts@[i as int].gives(*uri, *extra_data, found));
            }
            if let Some((presentation_uri, extra)) = found {
                proof {
                    assert(factory_ids(self.mounts@)[i as int] == mount.media_factory_id);
                    assert(factory_ids(self.mounts@).contains(mount.media_factory_id));
                }
                return Some((mount.media_factory_id, presentation_uri, extra));
            }
            i = i + 1;
        }
        None
    }

    /// Spawns all media factories: returns those that have to be, in the order in which they were
    /// defined.
    pub fn spawn(&mut self) -> (r: Vec<u128>)
        requires
            old(self).wf(),
        ensures
            final(self).wf(),
            r@ == old(self).unspawned@,
            final(self).mounts == old(self).mounts,
            final(self).factories@ == old(self).factories@ + old(self).unspawned@,
            final(self).unspawned@.len() == 0,
    {
        let mut spawned: Vec<u128> = Vec::new();
        let mut i: usize = 0;
        while i < self.unspawned.len()
            invariant
                i <= self.unspawned@.len(),
                self.unspawned@ == old(self).unspawned@,
                self.mounts == old(self).mounts,
                spawned@ == self.unspawned@.take(i as int),
                self.factories@ == old(self).factories@ + self.unspawned@.take(i as int),
            decreases self.unspawned@.len() - i,
        {
            let id: u128 = self.unspawned[i];
            spawned.push(id);
            self.factories.push(id);
            proof {
                assert(self.unspawned@.take(i + 1) =~= self.unspawned@.take(i as int).push(id));
                assert(self.factories@ =~= old(self).factories@ + self.unspawned@.take(i + 1));
            }
            i = i + 1;
        }
        proof {
            assert(self.unspawned@.take(i as int) =~= self.unspawned@);
        }
        self.unspawned = Vec::new();
        proof {
            let a = old(self).factories@;
            let b = old(self).unspawned@;
            assert forall|id: u128|
                self.factories@.contains(id) <==> a.contains(id) || b.contains(id) by {
                if a.contains(id) {
                    let k = choose|k: int| 0 <= k < a.len() && a[k] == id;
                    assert(self.factories@[k] == id);
                }
                if b.contains(id) {
                    let k = choose|k: int| 0 <= k < b.len() && b[k] == id;
                    assert(self.factories@[a.len() + k] == id);
                }
                if self.factories@.contains(id) {
                    let k = choose|k: int|
                        0 <= k < self.factories@.len() && self.factories@[k] == id;
                    if k < a.len() {
                        assert(a[k] == id);
                    } else {
                        assert(b[k - a.len()] == id);
                    }
                }
            }
            assert forall|x: int, y: int|
                0 <= x < y < self.factories@.len() implies self.factories@[x]
                != self.factories@[y] by {
                if x < a.len() && y >= a.len() {
                    assert(a.contains(a[x]));
                    assert(b.contains(b[y - a.len()]));
                }
            }
        }
        spawned
    }

    /// Media factory finished early: nothing is matched with it any more.
    pub fn media_factory_finished(&mut self, media_factory_id: u128)
        requires
            old(self).wf(),
            old(self).unspawned@.len() == 0,
        ensures
            final(self).wf(),
            final(self).unspawned@.len() == 0,
            final(self).mounts@ == old(self).mounts@.filter(
                |m: Mount<G>| m.media_factory_id != media_factory_id,
            ),
            final(self).factories@ == old(self).factories@.filter(|id: u128| id != media_factory_id),
            forall|id: u128| #[trigger]
                final(self).factories@.contains(id) <==> old(self).factories@.contains(id) && id
                    != media_factory_id,
            forall|m: Mount<G>| #[trigger]
                final(self).mounts@.contains(m) <==> old(self).mounts@.contains(m)
                    && m.media_factory_id != media_factory_id,
    {
        let ghost keep_mount = |m: Mount<G>| m.media_factory_id != media_factory_id;
        let ghost keep_id = |id: u128| id != media_factory_id;
        let ghost before = *self;
        let mut i: usize = 0;
        while i < self.mounts.len()
            invariant
                i <= self.mounts@.len(),
                self.factories == before.factories,
                self.unspawned == before.unspawned,
                factory_ids(self.mounts@).no_duplicates(),
                keep_mount == (|m: Mount<G>| m.media_factory_id != media_factory_id),
                forall|j: int| 0 <= j < i ==> keep_mount(#[trigger] self.mounts@[j]),
                self.mounts@.filter(keep_mount) == before.mounts@.filter(keep_mount),
            decreases self.mounts@.len() - i,
        {
            if self.mounts[i].media_factory_id == media_factory_id {
                let ghost s = self.mounts@;
                let _ = self.mounts.remove(i);
                proof {
                    lemma_filter_remove(s, keep_mount, i as int);
                    assert(factory_ids(self.mounts@) =~= factory_ids(s).remove(i as int));
                    assert forall|x: int, y: int|
                        0 <= x < y < self.mounts@.len() implies factory_ids(self.mounts@)[x]
                        != factory_ids(self.mounts@)[y] by {
                        let x0 = if x < i { x } else { x + 1 };
                        let y0 = if y < i { y } else { y + 1 };
                        assert(factory_ids(s)[x0] != factory_ids(s)[y0]);
                    }
                }
            } else {
                i = i + 1;
            }
        }
        proof {
            lemma_filter_all(self.mounts@, keep_mount);
        }
        let mut k: usize = 0;
        while k < self.factories.len()
            invariant
                k <= self.factories@.len(),
                self.mounts@ == before.mounts@.filter(keep_mount),
                self.unspawned == before.unspawned,
                keep_id == (|id: u128| id != media_factory_id),
                self.factories@.no_duplicates(),
                forall|j: int| 0 <= j < k ==> keep_id(#[trigger] self.factories@[j]),
                self.factories@.filter(keep_id) == before.factories@.filter(keep_id),
                factory_ids(self.mounts@).no_duplicates(),
            decreases self.factories@.len() - k,
        {
            if self.factories[k] == media_factory_id {
                let ghost s = self.factories@;
                let _ = self.factories.remove(k);
                proof {
                    lemma_filter_remove(s, keep_id, k as int);
                    assert forall|x: int, y: int|
                        0 <= x < y < self.factories@.len() implies self.factories@[x]
                        != self.factories@[y] by {
                        let x0 = if x < k { x } else { x + 1 };
                        let y0 = if y < k { y } else { y + 1 };
                        assert(s[x0] != s[y0]);
                    }
                }
            } else {
                k = k + 1;
            }
        }
        proof {
            lemma_filter_all(self.factories@, keep_id);
            lemma_filter_contains(before.mounts@, keep_mount);
            lemma_filter_contains(before.factories@, keep_id);
            assert forall|j: int| 0 <= j < self.mounts@.len() implies (
            #[trigger] self.mounts@[j]).wf() by {
                lemma_filter_contains(before.mounts@, keep_mount);
                assert(self.mounts@.contains(self.mounts@[j]));
                assert(before.mounts@.contains(self.mounts@[j]));
            }
            assert forall|id: u128|
                #[trigger] factory_ids(self.mounts@).contains(id) <==> self.factories@.contains(
                    id,
                ) by {
                lemma_filter_contains(before.mounts@, keep_mount);
                lemma_filter_contains(before.factories@, keep_id);
                if factory_ids(self.mounts@).contains(id) {
                    let j = choose|j: int|
                        0 <= j < self.mounts@.len() && factory_ids(self.mounts@)[j] == id;
                    let m = self.mounts@[j];
                    assert(self.mounts@.contains(m));
                    assert(before.mounts@.contains(m));
                    let j0 = choose|j0: int| 0 <= j0 < before.mounts@.len() && before.mounts@[j0] == m;
                    assert(factory_ids(before.mounts@)[j0] == id);
                    assert(factory_ids(before.mounts@).contains(id));
                    assert(keep_mount(m));
                    assert(before.factories@.contains(id));
                    assert(keep_id(id));
                    assert(self.factories@.contains(id));
                }
                if self.factories@.contains(id) {
                    assert(before.factories@.contains(id));
                    assert(keep_id(id));
                    assert(factory_ids(before.mounts@).contains(id));
                    let j0 = choose|j0: int|
                        0 <= j0 < before.mounts@.len() && factory_ids(before.mounts@)[j0] == id;
                    let m = before.mounts@[j0];
                    assert(keep_mount(m));
                    assert(self.mounts@.contains(m));
                    let j = choose|j: int| 0 <= j < self.mounts@.len() && self.mounts@[j] == m;
                    assert(factory_ids(self.mounts@)[j] == id);
                }
            }
        }
    }
}

/// Removing what is not kept anyway changes nothing of what is kept.
proof fn lemma_filter_remove<T>(s: Seq<T>, keep: spec_fn(T) -> bool, i: int)
    requires
        0 <= i < s.len(),
        !keep(s[i]),
    ensures
        s.remove(i).filter(keep) == s.filter(keep),
    decreases s.len(),
{
    reveal(Seq::filter);
    if i == s.len() - 1 {
        assert(s.remove(i) =~= s.drop_last());
    } else {
        lemma_filter_remove(s.drop_last(), keep, i);
        assert(s.remove(i).drop_last() =~= s.drop_last().remove(i));
        assert(s.remove(i).last() == s.last());
    }
}

/// What is kept is what was there and is to be kept.
proof fn lemma_filter_contains<T>(s: Seq<T>, keep: spec_fn(T) -> bool)
    ensures
        forall|x: T| #[trigger] s.filter(keep).contains(x) <==> s.contains(x) && keep(x),
{
    assert forall|x: T| #[trigger] s.filter(keep).contains(x) <==> s.contains(x) && keep(x) by {
        if s.filter(keep).contains(x) {
            let i = choose|i: int| 0 <= i < s.filter(keep).len() && s.filter(keep)[i] == x;
            s.lemma_filter_pred(keep, i);
            s.lemma_filter_contains_rev(keep, x);
        }
        if s.contains(x) && keep(x) {
            let i = choose|i: int| 0 <= i < s.len() && s[i] == x;
            s.lemma_filter_contains(keep, i);
        }
    }
}

/// What is all kept stays as it is.
proof fn lemma_filter_all<T>(s: Seq<T>, keep: spec_fn(T) -> bool)
    requires
        forall|i: int| 0 <= i < s.len() ==> keep(#[trigger] s[i]),
    ensures
        s.filter(keep) == s,
    decreases s.len(),
{
    reveal(Seq::filter);
    if s.len() > 0 {
        assert forall|i: int| 0 <= i < s.drop_last().len() implies keep(
            #[trigger] s.drop_last()[i],
        ) by {
            assert(s.drop_last()[i] == s[i]);
        }
        lemma_filter_all(s.drop_last(), keep);
        assert(keep(s[s.len() - 1]));
        assert(s.drop_last().push(s.last()) =~= s);
    } else {
        assert(s.filter(keep) =~= s);
    }
}

} // verus!
