//! What a relative reference leads to.

use vstd::prelude::*;

use crate::text::{
    first_index, last_index, lemma_first_index, lemma_first_index_bounds, lemma_last_index,
    lemma_split_concat, lemma_split_one, lemma_split_push, split,
};
use crate::url::{
    common_prefix, directory_and_file, join, needs_dot, relative_path, relative_segments, with_part,
    UrlView,
};

verus! {

/// Where the segments of a reference lead from a directory: a `..` leads one step up, but never
/// above the root, and a `.` leads nowhere.
pub open spec fn follow(directory: Seq<Seq<char>>, segments: Seq<Seq<char>>) -> Seq<Seq<char>>
    decreases segments.len(),
{
    if segments.len() == 0 {
        directory
    } else if segments[0] == ".."@ {
        follow(
            if directory.len() > 1 {
                directory.drop_last()
            } else {
                directory
            },
            segments.skip(1),
        )
    } else if segments[0] == "."@ {
        follow(directory, segments.skip(1))
    } else {
        follow(directory.push(segments[0]), segments.skip(1))
    }
}

/// The path that a relative path leads to. One that starts with a slash leads there from anywhere.
pub open spec fn resolve_path(base: Seq<char>, relative: Seq<char>) -> Seq<char> {
    if relative.len() == 0 {
        base
    } else if relative[0] == '/' {
        relative
    } else {
        join(follow(split(directory_and_file(base).0, '/'), split(relative, '/')))
    }
}

/// What stands before the first `mark`, and what stands after it.
pub open spec fn cut(text: Seq<char>, mark: char) -> (Seq<char>, Option<Seq<char>>) {
    let i = first_index(text, mark);
    if 0 <= i < text.len() {
        (text.take(i), Some(text.skip(i + 1)))
    } else {
        (text, None)
    }
}

/// The path, the query and the fragment of a relative reference.
pub open spec fn reference_parts(reference: Seq<char>) -> (
    Seq<char>,
    Option<Seq<char>>,
    Option<Seq<char>>,
) {
    let (rest, fragment) = cut(reference, '#');
    let (path, query) = cut(rest, '?');
    (path, query, fragment)
}

/// Whether a reference with that path leads to another host or to another scheme.
pub open spec fn leads_away(path: Seq<char>) -> bool {
    split(path, '/')[0].contains(':') || "//"@.is_prefix_of(path)
}

/// The path, the query and the fragment that a relative reference leads to, if it leads to the same
/// host. The query of the base counts if the reference has neither a path nor a query.
pub open spec fn resolve(base: UrlView, reference: Seq<char>) -> Option<
    (Seq<char>, Option<Seq<char>>, Option<Seq<char>>),
> {
    let (path, query, fragment) = reference_parts(reference);
    if leads_away(path) {
        None
    } else {
        Some(
            (
                resolve_path(base.path, path),
                if path.len() == 0 && query is None {
                    base.query
                } else {
                    query
                },
                fragment,
            ),
        )
    }
}

/// Whether a path, a query and a fragment stand in a URL as they have to: the path starts with a
/// slash, no dots stand for directories, and nothing is mistaken for the start of another part.
pub open spec fn is_normal(url: UrlView) -> bool {
    &&& is_normal_path(url.path)
    &&& !url.path.contains('?') && !url.path.contains('#')
    &&& url.query matches Some(query) ==> !query.contains('#')
}

/// Whether a path starts with a slash, and no dots stand for directories in it.
pub open spec fn is_normal_path(path: Seq<char>) -> bool {
    &&& path.len() > 0 && path[0] == '/'
    &&& forall|i: int|
        0 <= i < split(path, '/').len() ==> {
            &&& #[trigger] split(path, '/')[i] != ".."@
            &&& split(path, '/')[i] != "."@
        }
}

proof fn lemma_split_nonempty(s: Seq<char>, sep: char)
    ensures
        split(s, sep).len() > 0,
{
    lemma_first_index_bounds(s, sep);
}

/// No piece holds the separator.
proof fn lemma_split_pieces(s: Seq<char>, sep: char)
    ensures
        forall|i: int| 0 <= i < split(s, sep).len() ==> !(#[trigger] split(s, sep)[i]).contains(sep),
    decreases s.len(),
{
    lemma_first_index_bounds(s, sep);
    let i = first_index(s, sep);
    if i < s.len() {
        lemma_split_pieces(s.skip(i + 1), sep);
        assert(!s.take(i).contains(sep)) by {
            if s.take(i).contains(sep) {
                let k = choose|k: int| 0 <= k < s.take(i).len() && s.take(i)[k] == sep;
                assert(s[k] == sep);
            }
        }
        let rest = split(s.skip(i + 1), sep);
        assert forall|k: int| 0 <= k < split(s, sep).len() implies !(#[trigger] split(
            s,
            sep,
        )[k]).contains(sep) by {
            if k > 0 {
                assert(split(s, sep)[k] == rest[k - 1]);
            }
        }
    } else {
        if s.contains(sep) {
            let k = choose|k: int| 0 <= k < s.len() && s[k] == sep;
            assert(s[k] == sep);
        }
    }
}

/// Splitting gives back what was joined.
proof fn lemma_split_join(segments: Seq<Seq<char>>)
    requires
        segments.len() > 0,
        forall|i: int| 0 <= i < segments.len() ==> !(#[trigger] segments[i]).contains('/'),
    ensures
        split(join(segments), '/') == segments,
    decreases segments.len(),
{
    if segments.len() == 1 {
        lemma_split_one(segments[0], '/');
        assert(seq![segments[0]] =~= segments);
    } else {
        let front = segments.drop_last();
        assert forall|i: int| 0 <= i < front.len() implies !(#[trigger] front[i]).contains(
            '/',
        ) by {
            assert(front[i] == segments[i]);
        }
        lemma_split_join(front);
        assert(!segments[segments.len() - 1].contains('/'));
        lemma_split_push(join(front), '/', segments.last());
        assert(front.push(segments.last()) =~= segments);
    }
}

/// Joining gives back what was split.
proof fn lemma_join_split(s: Seq<char>)
    ensures
        join(split(s, '/')) == s,
    decreases s.len(),
{
    lemma_first_index_bounds(s, '/');
    let i = first_index(s, '/');
    if i < s.len() {
        let rest = s.skip(i + 1);
        lemma_join_split(rest);
        lemma_split_nonempty(rest, '/');
        lemma_join_front(s.take(i), split(rest, '/'));
        assert(s.take(i).push('/') + rest =~= s);
    }
}

proof fn lemma_join_front(first: Seq<char>, rest: Seq<Seq<char>>)
    requires
        rest.len() > 0,
    ensures
        join(seq![first] + rest) == first.push('/') + join(rest),
    decreases rest.len(),
{
    let all = seq![first] + rest;
    assert(all.last() == rest.last());
    if rest.len() == 1 {
        assert(all.drop_last() =~= seq![first]);
        assert(join(seq![first]) == first);
        assert(join(rest) == rest[0]);
    } else {
        lemma_join_front(first, rest.drop_last());
        assert(all.drop_last() =~= seq![first] + rest.drop_last());
        assert(join(all) =~= first.push('/') + join(rest));
    }
}

/// A path that starts with a slash is its directory, a slash and its file.
proof fn lemma_path_parts(path: Seq<char>)
    requires
        path.len() > 0,
        path[0] == '/',
    ensures
        ({
            let (directory, file) = directory_and_file(path);
            &&& path == directory.push('/') + file
            &&& !file.contains('/')
            &&& split(path, '/') == split(directory, '/').push(file)
            &&& split(directory, '/')[0].len() == 0
        }),
{
    lemma_last_index_bounds(path, '/');
    let i = last_index(path, '/');
    assert(i >= 0) by {
        if i < 0 {
            assert(path[0] != '/');
        }
    }
    let (directory, file) = directory_and_file(path);
    assert(path =~= directory.push('/') + file);
    assert(!file.contains('/')) by {
        if file.contains('/') {
            let k = choose|k: int| 0 <= k < file.len() && file[k] == '/';
            assert(path[i + 1 + k] == '/');
        }
    }
    lemma_split_push(directory, '/', file);
    lemma_first_index_bounds(directory, '/');
    if directory.len() > 0 {
        assert(directory[0] == '/');
        lemma_first_index(directory, '/', 0);
        assert(split(directory, '/')[0] == directory.take(0));
    } else {
        assert(split(directory, '/')[0] == directory);
    }
}

proof fn lemma_last_index_bounds(s: Seq<char>, c: char)
    ensures
        -1 <= last_index(s, c) < s.len(),
        forall|j: int| last_index(s, c) < j < s.len() ==> s[j] != c,
        last_index(s, c) >= 0 ==> s[last_index(s, c)] == c,
    decreases s.len(),
{
    if s.len() > 0 && s.last() != c {
        lemma_last_index_bounds(s.drop_last(), c);
        assert forall|j: int| last_index(s, c) < j < s.len() implies s[j] != c by {
            if j < s.len() - 1 {
                assert(s.drop_last()[j] == s[j]);
            }
        }
    }
}

proof fn lemma_common_prefix_bounds(a: Seq<Seq<char>>, b: Seq<Seq<char>>)
    ensures
        0 <= common_prefix(a, b) <= a.len(),
        common_prefix(a, b) <= b.len(),
        a.take(common_prefix(a, b)) == b.take(common_prefix(a, b)),
        common_prefix(a, b) < a.len() && common_prefix(a, b) < b.len() ==> a[common_prefix(a, b)]
            != b[common_prefix(a, b)],
    decreases a.len(),
{
    let n = common_prefix(a, b);
    if a.len() > 0 && b.len() > 0 && a[0] == b[0] {
        lemma_common_prefix_bounds(a.skip(1), b.skip(1));
        assert forall|i: int| 0 <= i < n implies a[i] == b[i] by {
            if i > 0 {
                assert(a.skip(1).take(n - 1)[i - 1] == a[i]);
                assert(b.skip(1).take(n - 1)[i - 1] == b[i]);
            }
        }
        if n < a.len() && n < b.len() {
            assert(a.skip(1)[n - 1] == a[n]);
            assert(b.skip(1)[n - 1] == b[n]);
        }
    }
    assert(a.take(n) =~= b.take(n));
}

/// What is joined starts with the first segment.
proof fn lemma_join_first(segments: Seq<Seq<char>>)
    requires
        segments.len() > 0,
        segments[0].len() > 0,
    ensures
        join(segments).len() > 0,
        join(segments)[0] == segments[0][0],
    decreases segments.len(),
{
    if segments.len() > 1 {
        lemma_join_first(segments.drop_last());
    }
}

/// Following steps up and then segments.
proof fn lemma_follow(directory: Seq<Seq<char>>, up: int, down: Seq<Seq<char>>)
    requires
        0 <= up < directory.len(),
        forall|i: int| 0 <= i < down.len() ==> (#[trigger] down[i]) != ".."@ && down[i] != "."@,
    ensures
        follow(directory, Seq::new(up as nat, |i: int| ".."@) + down) == directory.take(
            directory.len() - up,
        ) + down,
    decreases up + down.len(),
{
    let segments = Seq::new(up as nat, |i: int| ".."@) + down;
    if up > 0 {
        assert(segments[0] == ".."@);
        assert(segments.skip(1) =~= Seq::new((up - 1) as nat, |i: int| ".."@) + down);
        lemma_follow(directory.drop_last(), up - 1, down);
        assert(directory.drop_last().take(directory.len() - up) =~= directory.take(
            directory.len() - up,
        ));
    } else if down.len() > 0 {
        assert(segments =~= down);
        assert(segments[0] == down[0]);
        let rest = down.skip(1);
        assert(segments.skip(1) =~= Seq::new(0nat, |i: int| ".."@) + rest);
        assert forall|i: int| 0 <= i < rest.len() implies (#[trigger] rest[i]) != ".."@ && rest[i]
            != "."@ by {
            assert(rest[i] == down[i + 1]);
        }
        lemma_follow(directory.push(down[0]), 0, rest);
        let grown = directory.push(down[0]);
        assert(grown.take(grown.len() as int) =~= grown);
        assert(directory.take(directory.len() as int) =~= directory);
        assert(grown + rest =~= directory + down);
    } else {
        assert(segments =~= Seq::<Seq<char>>::empty());
        assert(directory.take(directory.len() as int) + down =~= directory);
    }
}

/// A step that leads nowhere, before other segments.
proof fn lemma_dot_first(segments: Seq<Seq<char>>)
    requires
        segments.len() > 0,
        forall|i: int| 0 <= i < segments.len() ==> !(#[trigger] segments[i]).contains('/'),
    ensures
        split("./"@ + join(segments), '/') == seq!["."@] + segments,
        forall|directory: Seq<Seq<char>>|
            #![trigger follow(directory, segments)]
            follow(directory, seq!["."@] + segments) == follow(directory, segments),
{
    reveal_strlit(".");
    reveal_strlit("./");
    reveal_strlit("..");
    lemma_split_join(segments);
    assert("./"@ =~= "."@.push('/'));
    lemma_split_concat("."@, '/', join(segments));
    assert(!"."@.contains('/'));
    lemma_split_one("."@, '/');
    let all = seq!["."@] + segments;
    assert(all.skip(1) =~= segments);
    assert("."@ != ".."@) by {
        assert("."@.len() == 1);
        assert(".."@.len() == 2);
    }
}

/// The segments of a relative path: none holds a slash, and only steps up are dots.
proof fn lemma_relative_segments(base: Seq<char>, url: Seq<char>)
    requires
        base.len() > 0 ==> base[0] == '/',
        is_normal_path(url),
    ensures
        ({
            let segments = relative_segments(base, url);
            &&& segments.len() > 0
            &&& forall|i: int| 0 <= i < segments.len() ==> !(#[trigger] segments[i]).contains('/')
            &&& follow(split(directory_and_file(base).0, '/'), segments) == split(url, '/')
        }),
{
    reveal_strlit("..");
    lemma_path_parts(url);
    let base_directory = directory_and_file(base).0;
    let (url_directory, url_file) = directory_and_file(url);
    let bs = split(base_directory, '/');
    let us = split(url_directory, '/');
    lemma_split_nonempty(base_directory, '/');
    lemma_split_nonempty(url_directory, '/');
    lemma_common_prefix_bounds(bs, us);
    let n = common_prefix(bs, us);
    if base.len() > 0 {
        lemma_path_parts(base);
    } else {
        lemma_last_index(base, '/', -1);
        assert(base_directory =~= Seq::<char>::empty());
        lemma_first_index(base_directory, '/', 0);
    }
    assert(bs[0] =~= us[0]);
    assert(n >= 1);
    let up = bs.len() - n;
    let ups = Seq::new(up as nat, |i: int| ".."@);
    let down = us.skip(n);
    let tail = down.push(url_file);
    let segments = relative_segments(base, url);
    assert(segments =~= ups + tail);
    lemma_split_pieces(url_directory, '/');
    assert forall|i: int| 0 <= i < segments.len() implies !(#[trigger] segments[i]).contains(
        '/',
    ) by {
        if i < up {
            assert(segments[i] == ".."@);
            assert(!".."@.contains('/'));
        } else if i < up + down.len() {
            assert(segments[i] == us[n + i - up]);
        }
    }
    assert forall|i: int| 0 <= i < tail.len() implies (#[trigger] tail[i]) != ".."@ && tail[i]
        != "."@ by {
        let all = split(url, '/');
        if i < down.len() {
            assert(tail[i] == all[n + i]);
        } else {
            assert(tail[i] == all[all.len() - 1]);
        }
    }
    lemma_follow(bs, up, tail);
    assert(bs.take(bs.len() - up) =~= us.take(n));
    assert(us.take(n) + tail =~= us.push(url_file));
}

/// The path of a relative reference leads to the path that it was made for.
proof fn lemma_relative_path_resolves(base: Seq<char>, url: Seq<char>)
    requires
        base.len() > 0 ==> base[0] == '/',
        is_normal_path(url),
    ensures
        resolve_path(base, relative_path(base, url)) == url,
        relative_path(base, url).len() > 0,
        !leads_away(relative_path(base, url)),
{
    reveal_strlit("./");
    reveal_strlit("//");
    reveal_strlit(".");
    lemma_relative_segments(base, url);
    lemma_join_split(url);
    let segments = relative_segments(base, url);
    let path = relative_path(base, url);
    lemma_split_join(segments);
    if needs_dot(segments[0]) {
        lemma_dot_first(segments);
        assert(path[0] == '.');
        assert(split(path, '/')[0] == "."@);
        assert(!"."@.contains(':'));
    } else {
        lemma_join_first(segments);
        assert(path[0] != '/') by {
            assert(!segments[0].contains('/'));
            assert(segments[0].contains(segments[0][0]));
        }
    }
    assert(!"//"@.is_prefix_of(path)) by {
        if "//"@.is_prefix_of(path) {
            assert(path[0] == "//"@[0]);
        }
    }
}

/// A part behind its mark is cut off again.
proof fn lemma_cut(text: Seq<char>, mark: char, part: Option<Seq<char>>)
    requires
        !text.contains(mark),
    ensures
        cut(with_part(text, mark, part), mark) == (text, part),
{
    assert forall|j: int| 0 <= j < text.len() implies text[j] != mark by {
        assert(text.contains(text[j]));
    }
    match part {
        Some(p) => {
            let whole = text.push(mark) + p;
            assert forall|j: int| 0 <= j < text.len() implies whole[j] != mark by {
                assert(whole[j] == text[j]);
            }
            lemma_first_index(whole, mark, text.len() as int);
            assert(whole.take(text.len() as int) =~= text);
            assert(whole.skip(text.len() as int + 1) =~= p);
        },
        None => {
            lemma_first_index(text, mark, text.len() as int);
        },
    }
}

/// Of a path without marks no piece holds one, and neither does what is made of the pieces.
proof fn lemma_relative_path_unmarked(base: Seq<char>, url: Seq<char>, mark: char)
    requires
        url.len() > 0,
        url[0] == '/',
        !url.contains(mark),
        mark != '/',
        mark != '.',
    ensures
        !relative_path(base, url).contains(mark),
{
    reveal_strlit("..");
    reveal_strlit("./");
    let base_directory = directory_and_file(base).0;
    let (url_directory, url_file) = directory_and_file(url);
    lemma_path_parts(url);
    assert(!url_directory.contains(mark) && !url_file.contains(mark)) by {
        if url_directory.contains(mark) {
            let k = choose|k: int| 0 <= k < url_directory.len() && url_directory[k] == mark;
            assert(url[k] == mark);
        }
        if url_file.contains(mark) {
            let k = choose|k: int| 0 <= k < url_file.len() && url_file[k] == mark;
            assert(url[url_directory.len() + 1 + k] == mark);
        }
    }
    lemma_pieces_unmarked(url_directory, mark);
    let bs = split(base_directory, '/');
    lemma_common_prefix_bounds(bs, split(url_directory, '/'));
    let segments = relative_segments(base, url);
    let n = common_prefix(bs, split(url_directory, '/'));
    let up = bs.len() - n;
    assert forall|i: int| 0 <= i < segments.len() implies !(#[trigger] segments[i]).contains(
        mark,
    ) by {
        if i < up {
            assert(segments[i] == ".."@);
            assert(!".."@.contains(mark));
        } else if i < segments.len() - 1 {
            assert(segments[i] == split(url_directory, '/')[n + i - up]);
        }
    }
    lemma_join_unmarked(segments, mark);
    let path = relative_path(base, url);
    if path.contains(mark) {
        let k = choose|k: int| 0 <= k < path.len() && path[k] == mark;
        if needs_dot(segments[0]) {
            if k >= 2 {
                assert(join(segments)[k - 2] == mark);
            }
        } else {
            assert(join(segments)[k] == mark);
        }
    }
}

proof fn lemma_pieces_unmarked(s: Seq<char>, mark: char)
    requires
        !s.contains(mark),
    ensures
        forall|i: int| 0 <= i < split(s, '/').len() ==> !(#[trigger] split(s, '/')[i]).contains(mark),
    decreases s.len(),
{
    lemma_first_index_bounds(s, '/');
    let i = first_index(s, '/');
    if i < s.len() {
        let rest = s.skip(i + 1);
        assert(!rest.contains(mark)) by {
            if rest.contains(mark) {
                let k = choose|k: int| 0 <= k < rest.len() && rest[k] == mark;
                assert(s[i + 1 + k] == mark);
            }
        }
        assert(!s.take(i).contains(mark)) by {
            if s.take(i).contains(mark) {
                let k = choose|k: int| 0 <= k < s.take(i).len() && s.take(i)[k] == mark;
                assert(s[k] == mark);
            }
        }
        lemma_pieces_unmarked(rest, mark);
        assert forall|k: int| 0 <= k < split(s, '/').len() implies !(#[trigger] split(
            s,
            '/',
        )[k]).contains(mark) by {
            if k > 0 {
                assert(split(s, '/')[k] == split(rest, '/')[k - 1]);
            }
        }
    }
}

proof fn lemma_join_unmarked(segments: Seq<Seq<char>>, mark: char)
    requires
        mark != '/',
        forall|i: int| 0 <= i < segments.len() ==> !(#[trigger] segments[i]).contains(mark),
    ensures
        !join(segments).contains(mark),
    decreases segments.len(),
{
    if segments.len() > 1 {
        let front = segments.drop_last();
        assert forall|i: int| 0 <= i < front.len() implies !(#[trigger] front[i]).contains(
            mark,
        ) by {
            assert(front[i] == segments[i]);
        }
        lemma_join_unmarked(front, mark);
        let before = join(front);
        let last = segments[segments.len() - 1];
        assert(!last.contains(mark));
        let all = join(segments);
        if all.contains(mark) {
            let k = choose|k: int| 0 <= k < all.len() && all[k] == mark;
            if k < before.len() {
                assert(before[k] == mark);
            } else if k > before.len() {
                assert(last[k - before.len() - 1] == mark);
            }
        }
    } else if segments.len() == 1 {
        assert(!segments[0].contains(mark));
    }
}

/// A URL relative to a base leads from the base to the URL again: to its host, its path, its query
/// and its fragment.
pub proof fn law_relative_leads_back(base: UrlView, url: UrlView)
    requires
        !base.cannot_be_a_base,
        base.same_origin(url),
        base.path.len() > 0 ==> base.path[0] == '/',
        is_normal(url),
    ensures
        base.relative(url) is Some,
        resolve(base, base.relative(url)->0) == Some((url.path, url.query, url.fragment)),
{
    let path = if base.same_path(url) {
        Seq::empty()
    } else {
        relative_path(base.path, url.path)
    };
    if base.same_path(url) {
        reveal_strlit("//");
        lemma_split_one(path, '/');
    }
    lemma_relative_path_resolves(base.path, url.path);
    lemma_relative_path_unmarked(base.path, url.path, '?');
    lemma_relative_path_unmarked(base.path, url.path, '#');
    let rest = with_part(path, '?', url.query);
    assert(!rest.contains('#')) by {
        if rest.contains('#') {
            let k = choose|k: int| 0 <= k < rest.len() && rest[k] == '#';
            if k < path.len() {
                assert(path[k] == '#');
            } else if url.query is Some && k > path.len() {
                assert((url.query->0)[k - path.len() - 1] == '#');
            }
        }
    }
    lemma_cut(rest, '#', url.fragment);
    lemma_cut(path, '?', url.query);
}

/// A URL relative to itself is nothing but its query and its fragment.
pub proof fn law_relative_to_itself(url: UrlView)
    requires
        !url.cannot_be_a_base,
    ensures
        url.relative(url) == Some(
            with_part(with_part(Seq::empty(), '?', url.query), '#', url.fragment),
        ),
{
}

proof fn lemma_common_prefix_of_extension(a: Seq<Seq<char>>, b: Seq<Seq<char>>)
    ensures
        common_prefix(a, a + b) == a.len(),
    decreases a.len(),
{
    if a.len() > 0 {
        assert((a + b).skip(1) =~= a.skip(1) + b);
        lemma_common_prefix_of_extension(a.skip(1), b);
    }
}

/// Relative to a directory, what lies below it is just the rest of its path, unless that rest
/// starts with something that would be mistaken for something else.
pub proof fn law_relative_to_directory(directory: Seq<char>, rest: Seq<char>)
    requires
        !needs_dot(split(rest, '/')[0]),
    ensures
        relative_path(directory.push('/'), directory.push('/') + rest) == rest,
{
    let base = directory.push('/');
    let url = base + rest;
    let d = directory.len() as int;
    lemma_last_index(base, '/', d);
    assert(base.take(d) =~= directory);
    let bs = split(directory, '/');
    lemma_last_index_bounds(rest, '/');
    lemma_join_split(rest);
    let i = last_index(rest, '/');
    let segments = relative_segments(base, url);
    if i < 0 {
        assert forall|j: int| d < j < url.len() implies url[j] != '/' by {
            assert(url[j] == rest[j - d - 1]);
        }
        lemma_last_index(url, '/', d);
        assert(url.take(d) =~= directory);
        assert(url.skip(d + 1) =~= rest);
        assert(bs + Seq::<Seq<char>>::empty() =~= bs);
        lemma_common_prefix_of_extension(bs, Seq::empty());
        assert(!rest.contains('/'));
        lemma_split_one(rest, '/');
        assert(segments =~= seq![rest]);
    } else {
        let inner = rest.take(i);
        let file = rest.skip(i + 1);
        assert forall|j: int| d + 1 + i < j < url.len() implies url[j] != '/' by {
            assert(url[j] == rest[j - d - 1]);
        }
        assert(url[d + 1 + i] == rest[i]);
        lemma_last_index(url, '/', d + 1 + i);
        assert(url.take(d + 1 + i) =~= directory.push('/') + inner);
        assert(url.skip(d + 2 + i) =~= file);
        lemma_split_concat(directory, '/', inner);
        let down = split(inner, '/');
        lemma_common_prefix_of_extension(bs, down);
        assert((bs + down).skip(bs.len() as int) =~= down);
        assert(!file.contains('/')) by {
            if file.contains('/') {
                let k = choose|k: int| 0 <= k < file.len() && file[k] == '/';
                assert(rest[i + 1 + k] == '/');
            }
        }
        lemma_split_push(inner, '/', file);
        assert(inner.push('/') + file =~= rest);
        assert(segments =~= down.push(file));
    }
}

/// A URL is only relative to a base with the same scheme, host and port, and to any such base that
/// can be one.
pub proof fn law_relative_stays_on_host(base: UrlView, url: UrlView)
    ensures
        base.relative(url) is Some <==> !base.cannot_be_a_base && base.scheme == url.scheme
            && base.host == url.host && base.port == url.port,
{
}

} // verus!
