//! What lies below which directory.

use vstd::prelude::*;

use super::context::Context;
use super::mounts::{
    directory_path, lies_below, presentation_uri_at, Matcher, Mounts, PresentationURI,
};
use crate::error::{Error, StatusCode};
use crate::text::{first_index, lemma_first_index, lemma_first_index_bounds, split};
use crate::typemap::TypeMap;
use crate::url::{lemma_nonempty_prefix_bounds, nonempty_prefix, Url, UrlView};

verus! {

/// Whether two slashes follow each other at `i`.
pub open spec fn doubles_slash(path: Seq<char>, i: int) -> bool {
    0 <= i < path.len() - 1 && path[i] == '/' && path[i + 1] == '/'
}

/// Whether `path` is written as a directory: between slashes, without an empty segment.
pub open spec fn is_directory(path: Seq<char>) -> bool {
    &&& path.len() > 0
    &&& path[0] == '/'
    &&& path.last() == '/'
    &&& forall|i: int| !#[trigger] doubles_slash(path, i)
}

/// The leading segments are the same just if the directory `a` is what the other path starts with.
proof fn lemma_leading_segments(a: Seq<char>, rest: Seq<char>, u: Seq<char>)
    requires
        a.len() > 0 ==> a[0] != '/' && a.last() == '/',
        forall|i: int| !#[trigger] doubles_slash(a, i),
        rest.len() > 0 ==> rest[0] == '/',
    ensures
        ({
            let ps = split(a + rest, '/');
            let us = split(u, '/');
            let n = nonempty_prefix(ps);
            (n <= us.len() && forall|i: int| 0 <= i < n ==> ps[i] == #[trigger] us[i])
                <==> a.is_prefix_of(u.push('/'))
        }),
    decreases a.len(),
{
    let p = a + rest;
    let ps = split(p, '/');
    let us = split(u, '/');
    let n = nonempty_prefix(ps);
    if a.len() == 0 {
        lemma_first_index(p, '/', 0);
        assert(ps[0].len() == 0);
    } else {
        lemma_first_index_bounds(a, '/');
        let k = first_index(a, '/');
        assert(a[a.len() - 1] == '/');
        assert(0 < k < a.len());
        assert forall|i: int| 0 <= i < k implies p[i] != '/' by {
            assert(p[i] == a[i]);
        }
        assert(p[k] == a[k]);
        lemma_first_index(p, '/', k);
        let a2 = a.skip(k + 1);
        assert(p.skip(k + 1) =~= a2 + rest);
        assert(p.take(k) =~= a.take(k));
        assert forall|i: int| !#[trigger] doubles_slash(a2, i) by {
            assert(!doubles_slash(a, i + k + 1));
            if doubles_slash(a2, i) {
                assert(a2[i] == a[i + k + 1] && a2[i + 1] == a[i + k + 2]);
            }
        }
        if a2.len() > 0 {
            assert(!doubles_slash(a, k));
            assert(a2[0] == a[k + 1]);
            assert(a2.last() == a.last());
        }
        let ps2 = split(a2 + rest, '/');
        assert(ps == seq![a.take(k)] + ps2);
        assert(ps[0] == a.take(k));
        assert(ps.skip(1) =~= ps2);
        let n2 = nonempty_prefix(ps2);
        assert(n == 1 + n2);
        lemma_nonempty_prefix_bounds(ps2);
        assert forall|i: int| 0 <= i < n2 implies ps[i + 1] == ps2[i] by {}
        lemma_first_index_bounds(u, '/');
        let j = first_index(u, '/');
        let v = u.push('/');
        if j < u.len() {
            let u2 = u.skip(j + 1);
            let us2 = split(u2, '/');
            assert(us == seq![u.take(j)] + us2);
            assert(us.len() == us2.len() + 1);
            assert forall|i: int| 0 <= i < us2.len() implies us[i + 1] == us2[i] by {}
            lemma_leading_segments(a2, rest, u2);
            let v2 = u2.push('/');
            if a.take(k) == u.take(j) {
                assert(k == j) by {
                    assert(a.take(k).len() == u.take(j).len());
                }
                assert forall|i: int| 0 <= i < v2.len() implies v2[i] == v[i + k + 1] by {}
                if a.is_prefix_of(v) {
                    assert(a =~= v.take(a.len() as int));
                    assert(a2 =~= v2.take(a2.len() as int));
                    assert forall|i: int| 0 <= i < n implies ps[i] == #[trigger] us[i] by {
                        if i > 0 {
                            assert(ps2[i - 1] == us2[i - 1]);
                        }
                    }
                }
                if n <= us.len() && forall|i: int| 0 <= i < n ==> ps[i] == #[trigger] us[i] {
                    assert forall|i: int| 0 <= i < n2 implies ps2[i] == #[trigger] us2[i] by {
                        assert(ps[i + 1] == us[i + 1]);
                    }
                    assert(a2.is_prefix_of(v2));
                    assert(a =~= v.take(a.len() as int)) by {
                        assert forall|i: int| 0 <= i < a.len() implies a[i] == v[i] by {
                            if i < k {
                                assert(a[i] == a.take(k)[i] && u.take(j)[i] == v[i]);
                            } else if i > k {
                                assert(a[i] == a2[i - k - 1]);
                                assert(a2[i - k - 1] == v2.take(a2.len() as int)[i - k - 1]);
                            }
                        }
                    }
                }
            } else {
                if a.is_prefix_of(v) {
                    assert(a =~= v.take(a.len() as int));
                    assert forall|i: int| 0 <= i < a.len() implies a[i] == v[i] by {
                        assert(a[i] == v.take(a.len() as int)[i]);
                    }
                    assert(v[k] == '/');
                    if j < k {
                        assert(a[j] == v[j]);
                    }
                    assert(j == k);
                    assert(a.take(k) =~= u.take(j));
                }
                if n <= us.len() && forall|i: int| 0 <= i < n ==> ps[i] == #[trigger] us[i] {
                    assert(ps[0] == us[0]);
                }
            }
        } else {
            assert(us == seq![u]);
            if a2.len() > 0 {
                lemma_first_index_bounds(a2 + rest, '/');
                assert((a2 + rest)[0] == a2[0]);
                assert(first_index(a2 + rest, '/') > 0);
                assert(ps2[0].len() > 0);
                assert(n2 >= 1) by {
                    lemma_nonempty_prefix_bounds(ps2.skip(1));
                }
            } else {
                assert(a2 + rest =~= rest);
                lemma_first_index(rest, '/', 0);
                assert(ps2[0].len() == 0);
                assert(n2 == 0);
            }
            if a.is_prefix_of(v) {
                assert(a =~= v.take(a.len() as int));
                assert forall|i: int| 0 <= i < a.len() implies a[i] == v[i] by {
                    assert(a[i] == v.take(a.len() as int)[i]);
                }
                assert(v[k] == '/');
                assert(k == u.len());
                assert(a2.len() == 0);
                assert(a.take(k) =~= u);
            }
            if n <= us.len() && forall|i: int| 0 <= i < n ==> ps[i] == #[trigger] us[i] {
                assert(ps[0] == us[0]);
                assert(a2.len() == 0);
                assert(a =~= v);
                assert(v.take(a.len() as int) =~= v);
            }
        }
    }
}

/// A URI lies at or below a directory just if its path, with a slash behind it, starts with that
/// directory, character by character. What follows an empty segment of a mount does not count.
pub proof fn law_lies_below_is_prefix(uri: UrlView, directory: Seq<char>, rest: Seq<char>)
    requires
        is_directory(directory),
        rest.len() > 0 ==> rest[0] == '/',
    ensures
        lies_below(uri, directory + rest) <==> {
            &&& !uri.cannot_be_a_base
            &&& uri.path.len() > 0 && uri.path[0] == '/'
            &&& directory.is_prefix_of(uri.path.push('/'))
        },
        lies_below(uri, directory) <==> lies_below(uri, directory + rest),
{
    let a = directory.skip(1);
    let u = uri.path.skip(1);
    assert forall|i: int| !#[trigger] doubles_slash(a, i) by {
        assert(!doubles_slash(directory, i + 1));
        if doubles_slash(a, i) {
            assert(a[i] == directory[i + 1] && a[i + 1] == directory[i + 2]);
        }
    }
    if a.len() > 0 {
        assert(!doubles_slash(directory, 0));
        assert(a[0] == directory[1]);
        assert(a.last() == directory.last());
    }
    lemma_leading_segments(a, rest, u);
    lemma_leading_segments(a, Seq::empty(), u);
    assert((directory + rest).skip(1) =~= a + rest);
    assert(directory.skip(1) =~= a + Seq::<char>::empty());
    if uri.path.len() > 0 && uri.path[0] == '/' {
        let v = u.push('/');
        let w = uri.path.push('/');
        assert(v =~= w.skip(1));
        if a.is_prefix_of(v) {
            assert forall|i: int| 0 <= i < directory.len() implies directory[i] == w[i] by {
                if i > 0 {
                    assert(directory[i] == a[i - 1]);
                    assert(a[i - 1] == v.take(a.len() as int)[i - 1]);
                    assert(v[i - 1] == w[i]);
                }
            }
            assert(directory =~= w.take(directory.len() as int));
        }
        if directory.is_prefix_of(w) {
            assert forall|i: int| 0 <= i < a.len() implies a[i] == v[i] by {
                assert(a[i] == directory[i + 1]);
                assert(directory[i + 1] == w.take(directory.len() as int)[i + 1]);
                assert(v[i] == w[i + 1]);
            }
            assert(a =~= v.take(a.len() as int));
        }
    }
}

/// Only a URI whose path starts with a directory is presented there.
pub proof fn law_presented_below_directory(uri: UrlView, directory: Seq<char>)
    requires
        is_directory(directory),
        presentation_uri_at(uri, directory) is Some,
    ensures
        uri.path.len() > 0,
        uri.path[0] == '/',
        directory.is_prefix_of(uri.path.push('/')),
{
    law_lies_below_is_prefix(uri, directory, Seq::empty());
    assert(directory + Seq::<char>::empty() =~= directory);
}

/// No URI is presented below two directories of which neither is below the other.
pub proof fn law_directories_side_by_side(uri: UrlView, a: Seq<char>, b: Seq<char>)
    requires
        is_directory(a),
        is_directory(b),
        !a.is_prefix_of(b),
        !b.is_prefix_of(a),
    ensures
        presentation_uri_at(uri, a) is None || presentation_uri_at(uri, b) is None,
{
    if presentation_uri_at(uri, a) is Some && presentation_uri_at(uri, b) is Some {
        law_presented_below_directory(uri, a);
        law_presented_below_directory(uri, b);
        let w = uri.path.push('/');
        assert(a =~= w.take(a.len() as int));
        assert(b =~= w.take(b.len() as int));
        if a.len() <= b.len() {
            assert(a =~= b.take(a.len() as int));
        } else {
            assert(b =~= a.take(b.len() as int));
        }
    }
}

/// The directory of a path is that path, with a slash at its end.
pub proof fn law_directory_of_path(path: Seq<char>)
    ensures
        directory_path(path).last() == '/',
        directory_path(path) == path || directory_path(path) == path.push('/'),
        directory_path(directory_path(path)) == directory_path(path),
        path.len() > 0 && path[0] == '/' && (forall|i: int| !#[trigger] doubles_slash(path, i))
            ==> is_directory(directory_path(path)),
{
    if path.len() > 0 && path.last() != '/' && path[0] == '/' && forall|i: int|
        !#[trigger] doubles_slash(path, i) {
        assert forall|i: int| !#[trigger] doubles_slash(path.push('/'), i) by {
            assert(!doubles_slash(path, i));
        }
    }
}

/// Whether a mount is at a path below which `uri` is not presented.
pub open spec fn passes_over<G>(mounts: Mounts<G>, i: int, uri: UrlView) -> bool {
    mounts.mounts@[i].matcher matches Matcher::Path(path) && presentation_uri_at(uri, path@) is None
}

/// Where several mounts match a URI, the one that was defined first serves it, whatever was
/// defined after it. The presentation URI is the one at its path, and there is no extra data.
pub proof fn law_first_mount_serves<V, G>(
    mounts: Mounts<G>,
    uri: Url,
    extra_data: TypeMap<V>,
    r: Option<(u128, PresentationURI, TypeMap<V>)>,
    i: int,
) where G: Fn(&Url, &TypeMap<V>) -> Option<(PresentationURI, TypeMap<V>)>
    requires
        mounts.matched(uri, extra_data, r),
        0 <= i < mounts.mounts@.len(),
        forall|j: int| 0 <= j < i ==> #[trigger] passes_over(mounts, j, uri@),
        mounts.mounts@[i].matcher matches Matcher::Path(path) && presentation_uri_at(
            uri@,
            path@,
        ) is Some,
    ensures
        r matches Some((id, found, extra)) && id == mounts.mounts@[i].media_factory_id
            && mounts.factories@.contains(id) && extra@ == Map::<u64, V>::empty() && (
        mounts.mounts@[i].matcher matches Matcher::Path(path) && presentation_uri_at(uri@, path@)
            == Some(found@)),
{
    match r {
        Some((id, found, extra)) => {
            let k = choose|k: int|
                {
                    &&& 0 <= k < mounts.mounts@.len()
                    &&& (#[trigger] mounts.mounts@[k]).media_factory_id == id
                    &&& mounts.mounts@[k].gives(uri, extra_data, Some((found, extra)))
                    &&& forall|j: int|
                        0 <= j < k ==> (#[trigger] mounts.mounts@[j]).gives(uri, extra_data, None)
                };
            if k < i {
                assert(passes_over(mounts, k, uri@));
            }
            if i < k {
                assert(mounts.mounts@[i].gives(uri, extra_data, None));
            }
        },
        None => {
            assert(mounts.mounts@[i].gives(uri, extra_data, None));
        },
    }
}

/// A URI that is presented below none of the paths is not served.
pub proof fn law_no_mount_serves<V, G>(
    mounts: Mounts<G>,
    uri: Url,
    extra_data: TypeMap<V>,
    r: Option<(u128, PresentationURI, TypeMap<V>)>,
) where G: Fn(&Url, &TypeMap<V>) -> Option<(PresentationURI, TypeMap<V>)>
    requires
        mounts.matched(uri, extra_data, r),
        forall|j: int| 0 <= j < mounts.mounts@.len() ==> #[trigger] passes_over(mounts, j, uri@),
    ensures
        r is None,
{
    match r {
        Some((id, found, extra)) => {
            let k = choose|k: int|
                0 <= k < mounts.mounts@.len() && (#[trigger] mounts.mounts@[k]).gives(
                    uri,
                    extra_data,
                    Some((found, extra)),
                );
            assert(passes_over(mounts, k, uri@));
        },
        None => {},
    }
}

/// A client of the server finds what is presented at the first path that the URI lies below, and
/// nothing else. A URI below none of the paths is not found, and neither is any without mounts.
/// Whoever is no client gets an error of the server.
pub proof fn law_clients_find_first_mount<V, G>(
    server: Context<G>,
    client_id: u128,
    uri: Url,
    extra_data: TypeMap<V>,
    r: Result<(u128, PresentationURI, TypeMap<V>), Error>,
    i: int,
) where G: Fn(&Url, &TypeMap<V>) -> Option<(PresentationURI, TypeMap<V>)>
    requires
        server.serves(client_id, uri, extra_data, r),
    ensures
        !server@.clients.dom().contains(client_id) ==> r == Err::<
            (u128, PresentationURI, TypeMap<V>),
            Error,
        >(Error::spec_internal()),
        server@.clients.dom().contains(client_id) && server.mounts is None ==> r == Err::<
            (u128, PresentationURI, TypeMap<V>),
            Error,
        >(Error::spec_status(StatusCode::NotFound)),
        server@.clients.dom().contains(client_id) && (server.mounts matches Some(mounts) && 0 <= i
            <= mounts.mounts@.len() && (forall|j: int|
            0 <= j < i ==> #[trigger] passes_over(mounts, j, uri@))) ==> {
            let mounts = server.mounts->0;
            &&& i == mounts.mounts@.len() ==> r == Err::<(u128, PresentationURI, TypeMap<V>), Error>(
                Error::spec_status(StatusCode::NotFound),
            )
            &&& i < mounts.mounts@.len() && (mounts.mounts@[i].matcher matches Matcher::Path(path)
                && presentation_uri_at(uri@, path@) is Some) ==> {
                &&& r matches Ok((id, found, _))
                &&& id == mounts.mounts@[i].media_factory_id
                &&& presentation_uri_at(uri@, (mounts.mounts@[i].matcher->Path_0)@) == Some(found@)
            }
        },
{
    if server@.clients.dom().contains(client_id) && (server.mounts matches Some(mounts) && 0 <= i
        <= mounts.mounts@.len() && (forall|j: int|
        0 <= j < i ==> #[trigger] passes_over(mounts, j, uri@))) {
        let mounts = server.mounts->0;
        let found = match r {
            Ok(found) => Some(found),
            Err(_) => None,
        };
        if i == mounts.mounts@.len() {
            law_no_mount_serves(mounts, uri, extra_data, found);
        } else if mounts.mounts@[i].matcher matches Matcher::Path(path) && presentation_uri_at(
            uri@,
            path@,
        ) is Some {
            law_first_mount_serves(mounts, uri, extra_data, found, i);
        }
    }
}

/// A media factory without a mount serves nothing, as one that has finished.
pub proof fn law_factory_without_mount_serves_nothing<V, G>(
    mounts: Mounts<G>,
    uri: Url,
    extra_data: TypeMap<V>,
    r: Option<(u128, PresentationURI, TypeMap<V>)>,
    media_factory_id: u128,
) where G: Fn(&Url, &TypeMap<V>) -> Option<(PresentationURI, TypeMap<V>)>
    requires
        mounts.matched(uri, extra_data, r),
        forall|j: int|
            0 <= j < mounts.mounts@.len() ==> (#[trigger] mounts.mounts@[j]).media_factory_id
                != media_factory_id,
    ensures
        r matches Some((id, _, _)) ==> id != media_factory_id,
{
}

} // verus!
