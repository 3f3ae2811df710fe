//! URLs, and references relative to them.

use vstd::prelude::*;

use crate::text::{chars_of, last_index, lemma_last_index, same, split, split_str, string_of, views};

verus! {

/// What the server reads of a URL.
pub ghost struct UrlView {
    /// The URL as it is written.
    pub text: Seq<char>,
    pub scheme: Seq<char>,
    pub host: Option<Seq<char>>,
    pub port: Option<u16>,
    pub path: Seq<char>,
    pub query: Option<Seq<char>>,
    pub fragment: Option<Seq<char>>,
    /// Whether nothing can be relative to the URL.
    pub cannot_be_a_base: bool,
}

/// A URL, taken apart.
pub struct Url {
    /// The URL as it is written.
    pub text: String,
    pub scheme: String,
    pub host: Option<String>,
    /// The port, if it is not the default one of the scheme.
    pub port: Option<u16>,
    pub path: String,
    pub query: Option<String>,
    pub fragment: Option<String>,
    /// Whether nothing can be relative to the URL.
    pub cannot_be_a_base: bool,
}

/// The characters of an optional string.
pub open spec fn opt_view(s: Option<String>) -> Option<Seq<char>> {
    match s {
        Some(s) => Some(s@),
        None => None,
    }
}

/// Whether two optional strings hold the same.
pub fn opt_same(a: &Option<String>, b: &Option<String>) -> (r: bool)
    ensures
        r == (opt_view(*a) == opt_view(*b)),
{
    match a {
        Some(a) => match b {
            Some(b) => same(a.as_str(), b.as_str()),
            None => false,
        },
        None => b.is_none(),
    }
}

impl Url {
    /// What the server reads of this URL.
    pub open spec fn view(self) -> UrlView {
        UrlView {
            text: self.text@,
            scheme: self.scheme@,
            host: opt_view(self.host),
            port: self.port,
            path: self.path@,
            query: opt_view(self.query),
            fragment: opt_view(self.fragment),
            cannot_be_a_base: self.cannot_be_a_base,
        }
    }
}

/// A path up to its last slash, and what follows it.
///
/// A path without a slash loses its first character, if it has one.
pub open spec fn directory_and_file(path: Seq<char>) -> (Seq<char>, Seq<char>) {
    let i = last_index(path, '/');
    if i >= 0 {
        (path.take(i), path.skip(i + 1))
    } else if path.len() > 0 {
        (Seq::empty(), path.skip(1))
    } else {
        (Seq::empty(), Seq::empty())
    }
}

/// How many segments `a` and `b` have in common at their start.
pub open spec fn common_prefix(a: Seq<Seq<char>>, b: Seq<Seq<char>>) -> int
    decreases a.len(),
{
    if a.len() > 0 && b.len() > 0 && a[0] == b[0] {
        1 + common_prefix(a.skip(1), b.skip(1))
    } else {
        0
    }
}

/// How many segments come before the first empty one.
pub open spec fn nonempty_prefix(a: Seq<Seq<char>>) -> int
    decreases a.len(),
{
    if a.len() > 0 && a[0].len() > 0 {
        1 + nonempty_prefix(a.skip(1))
    } else {
        0
    }
}

/// Segments with slashes between them.
pub open spec fn join(segments: Seq<Seq<char>>) -> Seq<char>
    decreases segments.len(),
{
    if segments.len() == 0 {
        Seq::empty()
    } else if segments.len() == 1 {
        segments[0]
    } else {
        join(segments.drop_last()).push('/') + segments.last()
    }
}

/// The segments that lead from the path `base` to the path `url`: one step up for each directory
/// that `base` has of its own, then the directories that `url` has of its own, then the file.
pub open spec fn relative_segments(base: Seq<char>, url: Seq<char>) -> Seq<Seq<char>> {
    let base_segments = split(directory_and_file(base).0, '/');
    let (url_directory, url_file) = directory_and_file(url);
    let url_segments = split(url_directory, '/');
    let n = common_prefix(base_segments, url_segments);
    (Seq::new((base_segments.len() - n) as nat, |i: int| ".."@) + url_segments.skip(n)).push(
        url_file,
    )
}

/// Whether a relative path must not start with that segment: it would be taken for a path from the
/// root, for no path at all, or for a scheme.
pub open spec fn needs_dot(segment: Seq<char>) -> bool {
    segment.len() == 0 || segment.contains(':')
}

/// The path of `url` relative to the path `base`. It starts with a step that leads nowhere where it
/// would be mistaken for something else otherwise.
pub open spec fn relative_path(base: Seq<char>, url: Seq<char>) -> Seq<char> {
    let segments = relative_segments(base, url);
    if needs_dot(segments[0]) {
        "./"@ + join(segments)
    } else {
        join(segments)
    }
}

/// `text` followed by `mark` and `part`, if there is one.
pub open spec fn with_part(text: Seq<char>, mark: char, part: Option<Seq<char>>) -> Seq<char> {
    match part {
        Some(part) => text.push(mark) + part,
        None => text,
    }
}

impl UrlView {
    /// Whether `other` is below the same scheme, host and port.
    pub open spec fn same_origin(self, other: UrlView) -> bool {
        self.scheme == other.scheme && self.host == other.host && self.port == other.port
    }

    /// Whether `url` is reached without a path: it has the same one, and a query of its own counts
    /// if there is one to be replaced.
    pub open spec fn same_path(self, url: UrlView) -> bool {
        self.path == url.path && (self.query is Some ==> url.query is Some)
    }

    /// `url` relative to `self`, if `self` is a base of it.
    pub open spec fn relative(self, url: UrlView) -> Option<Seq<char>> {
        if self.cannot_be_a_base || !self.same_origin(url) {
            None
        } else {
            let path = if self.same_path(url) {
                Seq::empty()
            } else {
                relative_path(self.path, url.path)
            };
            Some(
                with_part(
                    with_part(path, '?', url.query),
                    '#',
                    url.fragment,
                ),
            )
        }
    }
}

proof fn lemma_common_prefix(a: Seq<Seq<char>>, b: Seq<Seq<char>>, n: int)
    requires
        0 <= n <= a.len(),
        n <= b.len(),
        forall|i: int| 0 <= i < n ==> a[i] == b[i],
        n < a.len() && n < b.len() ==> a[n] != b[n],
    ensures
        common_prefix(a, b) == n,
    decreases a.len(),
{
    if n > 0 {
        assert forall|i: int| 0 <= i < n - 1 implies a.skip(1)[i] == b.skip(1)[i] by {
            assert(a.skip(1)[i] == a[i + 1]);
            assert(b.skip(1)[i] == b[i + 1]);
        }
        lemma_common_prefix(a.skip(1), b.skip(1), n - 1);
    }
}

/// What `nonempty_prefix` says of the segments.
pub proof fn lemma_nonempty_prefix_bounds(a: Seq<Seq<char>>)
    ensures
        0 <= nonempty_prefix(a) <= a.len(),
        forall|i: int| 0 <= i < nonempty_prefix(a) ==> (#[trigger] a[i]).len() > 0,
        nonempty_prefix(a) < a.len() ==> a[nonempty_prefix(a)].len() == 0,
    decreases a.len(),
{
    if a.len() > 0 && a[0].len() > 0 {
        lemma_nonempty_prefix_bounds(a.skip(1));
        let n = nonempty_prefix(a);
        assert forall|i: int| 0 <= i < n implies (#[trigger] a[i]).len() > 0 by {
            if i > 0 {
                assert(a.skip(1)[i - 1] == a[i]);
            }
        }
        if n < a.len() {
            assert(a.skip(1)[n - 1] == a[n]);
        }
    }
}

/// Splits a path at its last slash.
fn extract_path_filename(path: &str) -> (r: (String, String))
    ensures
        (r.0@, r.1@) == directory_and_file(path@),
{
    let v = chars_of(path);
    let mut i: usize = v.len();
    while i > 0
        invariant
            i <= v@.len(),
            v@ == path@,
            forall|j: int| i <= j < v@.len() ==> v@[j] != '/',
        decreases i,
    {
        if v[i - 1] == '/' {
            let directory = string_of(&v, 0, i - 1);
            let file = string_of(&v, i, v.len());
            proof {
                lemma_last_index(path@, '/', i - 1);
                assert(directory@ =~= path@.take(i - 1));
                assert(file@ =~= path@.skip(i as int));
            }
            return (directory, file);
        }
        i = i - 1;
    }
    proof {
        lemma_last_index(path@, '/', -1);
    }
    if v.len() > 0 {
        let file = string_of(&v, 1, v.len());
        proof {
            assert(file@ =~= path@.skip(1));
        }
        (String::new(), file)
    } else {
        (String::new(), String::new())
    }
}

/// Writes segments with slashes between them.
fn join_segments(segments: &Vec<String>) -> (r: String)
    requires
        segments@.len() > 0,
    ensures
        r@ == join(views(segments@)),
{
    let ghost all = views(segments@);
    let mut path = segments[0].clone();
    let mut i: usize = 1;
    proof {
        assert(all.take(1) =~= seq![all[0]]);
    }
    while i < segments.len()
        invariant
            all == views(segments@),
            1 <= i <= segments@.len(),
            path@ == join(all.take(i as int)),
        decreases segments@.len() - i,
    {
        proof {
            assert(all.take(i + 1).drop_last() =~= all.take(i as int));
            assert(all.take(i + 1).last() == segments@[i as int]@);
        }
        path.push('/');
        path.append(segments[i].as_str());
        i = i + 1;
    }
    proof {
        assert(all.take(i as int) =~= all);
    }
    path
}

/// Whether `c` occurs in `s`.
fn has_char(s: &str, c: char) -> (r: bool)
    ensures
        r == s@.contains(c),
{
    let v = chars_of(s);
    let mut i: usize = 0;
    while i < v.len()
        invariant
            v@ == s@,
            i <= v@.len(),
            forall|j: int| 0 <= j < i ==> v@[j] != c,
        decreases v@.len() - i,
    {
        if v[i] == c {
            proof {
                assert(s@[i as int] == c);
            }
            return true;
        }
        i = i + 1;
    }
    false
}

/// How to come from one path to another.
fn make_relative_path(base: &str, url: &str) -> (r: String)
    ensures
        r@ == relative_path(base@, url@),
{
    let (base_path, _) = extract_path_filename(base);
    let (url_path, url_filename) = extract_path_filename(url);
    let base_segments = split_str(base_path.as_str(), '/');
    let url_segments = split_str(url_path.as_str(), '/');
    let ghost bs = views(base_segments@);
    let ghost us = views(url_segments@);

    // Skip over the common prefix
    let mut n: usize = 0;
    while n < base_segments.len() && n < url_segments.len() && same(
        base_segments[n].as_str(),
        url_segments[n].as_str(),
    )
        invariant
            bs == views(base_segments@),
            us == views(url_segments@),
            n <= base_segments@.len(),
            n <= url_segments@.len(),
            forall|i: int| 0 <= i < n ==> bs[i] == us[i],
        decreases base_segments@.len() - n,
    {
        n = n + 1;
    }
    proof {
        lemma_common_prefix(bs, us, n as int);
    }

    // Go up for the remainder of the base path
    let mut segments: Vec<String> = Vec::new();
    let mut i: usize = n;
    while i < base_segments.len()
        invariant
            n <= i <= base_segments@.len(),
            views(segments@) =~= Seq::new((i - n) as nat, |j: int| ".."@),
        decreases base_segments@.len() - i,
    {
        let ghost before = segments@;
        segments.push("..".to_string());
        proof {
            assert(segments@.last()@ == ".."@);
            assert(views(segments@) =~= views(before).push(".."@));
        }
        i = i + 1;
    }

    // Append the remainder of the other URI
    let ghost ups = views(segments@);
    let mut j: usize = n;
    while j < url_segments.len()
        invariant
            us == views(url_segments@),
            n <= j <= url_segments@.len(),
            views(segments@) =~= ups + us.subrange(n as int, j as int),
        decreases url_segments@.len() - j,
    {
        let ghost before = segments@;
        segments.push(url_segments[j].clone());
        proof {
            assert(views(segments@) =~= views(before).push(us[j as int]));
        }
        j = j + 1;
    }
    segments.push(url_filename);
    proof {
        assert(views(segments@) =~= relative_segments(base@, url@));
        assert(segments@[0]@ == views(segments@)[0]);
    }

    let path = join_segments(&segments);
    if segments[0].as_str().unicode_len() == 0 || has_char(segments[0].as_str(), ':') {
        let mut relative = "./".to_string();
        relative.append(path.as_str());
        relative
    } else {
        path
    }
}

/// What a URL can do besides.
pub trait UrlExt: Sized {
    /// What is read of the URL.
    spec fn url_view(&self) -> UrlView;

    /// Returns `url` relative to `self` if `self` is a base of it.
    fn make_relative(&self, url: &Self) -> (r: Option<String>)
        ensures
            opt_view(r) == self.url_view().relative(url.url_view()),
    ;
}

impl UrlExt for Url {
    open spec fn url_view(&self) -> UrlView {
        self@
    }

    fn make_relative(&self, url: &Url) -> (r: Option<String>)
    {
        if self.cannot_be_a_base {
            return None;
        }
        if !same(self.scheme.as_str(), url.scheme.as_str()) || !opt_same(&self.host, &url.host)
            || self.port != url.port {
            return None;
        }
        let mut relative = if same(self.path.as_str(), url.path.as_str()) && (self.query.is_none()
            || url.query.is_some()) {
            String::new()
        } else {
            make_relative_path(self.path.as_str(), url.path.as_str())
        };

        // Query and fragment are only taken from the other URI
        if let Some(query) = &url.query {
            relative.push('?');
            relative.append(query.as_str());
        }
        if let Some(fragment) = &url.fragment {
            relative.push('#');
            relative.append(fragment.as_str());
        }
        Some(relative)
    }
}

/// What an optional URL reads as.
pub open spec fn opt_url_view(url: Option<Url>) -> Option<UrlView> {
    match url {
        Some(url) => Some(url@),
        None => None,
    }
}

/// The URL that a text is parsed as.
pub uninterp spec fn parsed_url(text: Seq<char>) -> Option<UrlView>;

/// A URL without its query, as it is written.
pub uninterp spec fn url_without_query(text: Seq<char>) -> Option<Seq<char>>;

/// A URL without its fragment, as it is written.
pub uninterp spec fn url_without_fragment(text: Seq<char>) -> Option<Seq<char>>;

/// A URL without its username, as it is written.
pub uninterp spec fn url_without_username(text: Seq<char>) -> Option<Seq<char>>;

/// A URL without its password, as it is written.
pub uninterp spec fn url_without_password(text: Seq<char>) -> Option<Seq<char>>;

/// A URL with another path.
pub uninterp spec fn url_with_path(text: Seq<char>, path: Seq<char>) -> Option<UrlView>;

/// Whether a URL is on a host.
///
/// A `file` URL does not count: it may lose its host when it is read again as it is written.
pub open spec fn is_on_host(url: UrlView) -> bool {
    url.host is Some && url.scheme != "file"@
}

/// `url::Url::parse`, taken apart by the accessors of `url::Url`.
///
/// The grammar is not written out: the result is the named URL of the text. Parsing the written
/// form of a URL on a host gives the same URL.
#[verifier::external_body]
fn parse_url(text: &str) -> (r: Option<Url>)
    ensures
        opt_url_view(r) == parsed_url(text@),
        r matches Some(u) ==> (is_on_host(u@) ==> parsed_url(u@.text) == Some(u@)),
{
    url::Url::parse(text).ok().map(|u| Url {
        text: u.to_string(),
        scheme: u.scheme().to_string(),
        host: u.host_str().map(String::from),
        port: u.port(),
        path: u.path().to_string(),
        query: u.query().map(String::from),
        fragment: u.fragment().map(String::from),
        cannot_be_a_base: u.cannot_be_a_base(),
    })
}

/// `url::Url::set_query` with no query, on the URL written as `text`.
///
/// It fails on nothing but a text that is no URL, and gives the URL as it is written.
/// A URL on a host keeps all its other parts.
#[verifier::external_body]
fn without_query(text: &str) -> (r: Option<String>)
    ensures
        opt_view(r) == url_without_query(text@),
        r is Some == parsed_url(text@) is Some,
        r matches Some(t) ==> (is_on_host(parsed_url(text@)->0) ==> parsed_url(t@) == Some(
            UrlView { text: t@, query: None, ..parsed_url(text@)->0 },
        )),
{
    let mut u = url::Url::parse(text).ok()?;
    u.set_query(None);
    Some(u.to_string())
}

/// `url::Url::set_fragment` with no fragment, on the URL written as `text`.
///
/// It fails on nothing but a text that is no URL, and gives the URL as it is written.
/// A URL on a host keeps all its other parts.
#[verifier::external_body]
fn without_fragment(text: &str) -> (r: Option<String>)
    ensures
        opt_view(r) == url_without_fragment(text@),
        r is Some == parsed_url(text@) is Some,
        r matches Some(t) ==> (is_on_host(parsed_url(text@)->0) ==> parsed_url(t@) == Some(
            UrlView { text: t@, fragment: None, ..parsed_url(text@)->0 },
        )),
{
    let mut u = url::Url::parse(text).ok()?;
    u.set_fragment(None);
    Some(u.to_string())
}

/// `url::Url::set_username` with an empty name, on the URL written as `text`. A URL that can have
/// no username is left as it is.
///
/// It fails on nothing but a text that is no URL, and gives the URL as it is written.
/// A URL on a host keeps all that is read of it.
#[verifier::external_body]
fn without_username(text: &str) -> (r: Option<String>)
    ensures
        opt_view(r) == url_without_username(text@),
        r is Some == parsed_url(text@) is Some,
        r matches Some(t) ==> (is_on_host(parsed_url(text@)->0) ==> parsed_url(t@) == Some(
            UrlView { text: t@, ..parsed_url(text@)->0 },
        )),
{
    let mut u = url::Url::parse(text).ok()?;
    let _ = u.set_username("");
    Some(u.to_string())
}

/// `url::Url::set_password` with no password, on the URL written as `text`. A URL that can have
/// no password is left as it is.
///
/// It fails on nothing but a text that is no URL, and gives the URL as it is written.
/// A URL on a host keeps all that is read of it.
#[verifier::external_body]
fn without_password(text: &str) -> (r: Option<String>)
    ensures
        opt_view(r) == url_without_password(text@),
        r is Some == parsed_url(text@) is Some,
        r matches Some(t) ==> (is_on_host(parsed_url(text@)->0) ==> parsed_url(t@) == Some(
            UrlView { text: t@, ..parsed_url(text@)->0 },
        )),
{
    let mut u = url::Url::parse(text).ok()?;
    let _ = u.set_password(None);
    Some(u.to_string())
}

/// A path that stands in a URL just as it is: made of slashes, letters, digits, hyphens and
/// underscores, the first of them a slash.
pub open spec fn is_simple_path(path: Seq<char>) -> bool {
    &&& path.len() > 0 && path[0] == '/'
    &&& forall|i: int|
        0 <= i < path.len() ==> {
            let c = #[trigger] path[i];
            'a' <= c <= 'z' || 'A' <= c <= 'Z' || '0' <= c <= '9' || c == '-' || c == '_' || c == '/'
        }
}

/// How many characters stand for `c` in the path of a URL, at most: one if it is not escaped, and
/// three for each of its bytes if it is.
pub open spec fn written_width(c: char) -> nat {
    let n = c as u32;
    if 0x20 < n < 0x7f && c != '"' && c != '<' && c != '>' && c != '`' && c != '#' && c != '?' && c
        != '{' && c != '}' {
        1
    } else if n < 0x80 {
        3
    } else if n < 0x800 {
        6
    } else if n < 0x1_0000 {
        9
    } else {
        12
    }
}

/// How long a path is at most when it is written in a URL.
pub open spec fn written_length(path: Seq<char>) -> nat
    decreases path.len(),
{
    if path.len() == 0 {
        0
    } else {
        written_length(path.drop_last()) + written_width(path.last())
    }
}

/// Whether the URL is short enough for its offsets, which are 32 bits wide, also with that path. A
/// few characters are left for a slash before the path.
pub open spec fn path_fits(url: UrlView, path: Seq<char>) -> bool {
    &&& url.text.len() < 0xffff_ff00
    &&& url.text.len() - url.path.len() + written_length(path) < 0xffff_ff00
}

/// How many characters stand for `c` in the path of a URL, at most.
fn width_of(c: char) -> (r: u128)
    ensures
        r == written_width(c),
        r <= 12,
{
    let n: u32 = c as u32;
    if 0x20 < n && n < 0x7f && c != '"' && c != '<' && c != '>' && c != '`' && c != '#' && c != '?'
        && c != '{' && c != '}' {
        1
    } else if n < 0x80 {
        3
    } else if n < 0x800 {
        6
    } else if n < 0x1_0000 {
        9
    } else {
        12
    }
}

/// How long a path is at most when it is written in a URL.
fn length_of(path: &str) -> (r: u128)
    ensures
        r == written_length(path@),
        r <= 12 * path@.len(),
        path@.len() <= usize::MAX,
{
    let chars = chars_of(path);
    let mut length: u128 = 0;
    let mut i: usize = 0;
    while i < chars.len()
        invariant
            i <= chars.len(),
            length == written_length(chars@.take(i as int)),
            length <= 12 * i,
        decreases chars.len() - i,
    {
        proof {
            assert(chars@.take(i + 1).drop_last() =~= chars@.take(i as int));
        }
        length = length + width_of(chars[i]);
        i += 1;
    }
    proof {
        assert(chars@.take(i as int) =~= path@);
    }
    length
}

/// Whether the URL is short enough for its offsets, also with that path.
fn fits(url: &Url, path: &str) -> (r: bool)
    ensures
        r == path_fits(url@, path@),
{
    let text: u128 = url.text.as_str().unicode_len() as u128;
    let old_path: u128 = url.path.as_str().unicode_len() as u128;
    let new_path: u128 = length_of(path);
    text < 0xffff_ff00 && text + new_path < 0xffff_ff00 + old_path
}

/// `url::Url::set_path` on the URL written as `text`, taken apart by the accessors of `url::Url`.
///
/// How the path is escaped is not written out: the result is the named URL. It fails on nothing
/// but a text that is no URL. A URL with a host keeps all its parts but the path. A simple path
/// needs no escape, except where it may be the name of a file.
#[verifier::external_body]
fn with_path(text: &str, path: &str) -> (r: Option<Url>)
    requires
        parsed_url(text@) matches Some(url) ==> path_fits(url, path@),
    ensures
        opt_url_view(r) == url_with_path(text@, path@),
        r is Some == parsed_url(text@) is Some,
        r matches Some(u) ==> ((parsed_url(text@)->0).host is Some ==> u@ == (UrlView {
            text: u@.text,
            path: u@.path,
            ..parsed_url(text@)->0
        })),
        r matches Some(u) ==> (is_on_host(u@) && is_simple_path(path@) ==> u@.path == path@),
{
    let mut u = url::Url::parse(text).ok()?;
    u.set_path(path);
    Some(Url {
        text: u.to_string(),
        scheme: u.scheme().to_string(),
        host: u.host_str().map(String::from),
        port: u.port(),
        path: u.path().to_string(),
        query: u.query().map(String::from),
        fragment: u.fragment().map(String::from),
        cannot_be_a_base: u.cannot_be_a_base(),
    })
}

/// A URL without query, fragment, username and password, as it is written.
pub open spec fn bare_url(text: Seq<char>) -> Option<Seq<char>> {
    match url_without_query(text) {
        None => None,
        Some(text) => match url_without_fragment(text) {
            None => None,
            Some(text) => match url_without_username(text) {
                None => None,
                Some(text) => url_without_password(text),
            },
        },
    }
}

/// The URL at `path` on the same host: without query, fragment, username and password. There is
/// none if it would be too long.
pub open spec fn url_at_path(text: Seq<char>, path: Seq<char>) -> Option<UrlView> {
    match bare_url(text) {
        None => None,
        Some(text) => match parsed_url(text) {
            None => None,
            Some(url) => if path_fits(url, path) {
                url_with_path(text, path)
            } else {
                None
            },
        },
    }
}

/// Whether a URL is on a host, and was read from the text that it is written as.
pub open spec fn is_read(url: UrlView) -> bool {
    parsed_url(url.text) == Some(url) && is_on_host(url)
}

/// What is known of the URL `at` that has the origin of `url` and the path `path`. A path that is
/// not simple may be escaped in it.
///
/// Nothing is if `url` is not on a host, or was not read from its text.
pub open spec fn is_at_path(at: UrlView, url: UrlView, path: Seq<char>) -> bool {
    is_read(url) ==> {
        &&& at.same_origin(url)
        &&& at.query is None
        &&& at.fragment is None
        &&& at.cannot_be_a_base == url.cannot_be_a_base
        &&& is_simple_path(path) ==> at.path == path
    }
}

/// Whether `url` has a URL at `path` for sure: it is written without query, fragment, username and
/// password, and not too long with that path.
pub open spec fn has_path(url: UrlView, path: Seq<char>) -> bool {
    &&& is_read(url)
    &&& bare_url(url.text) matches Some(text)
    &&& path_fits(UrlView { text, query: None, fragment: None, ..url }, path)
}

impl Url {
    /// Parses `text` as a URL.
    pub fn parse(text: &str) -> (r: Option<Url>)
        ensures
            opt_url_view(r) == parsed_url(text@),
            r matches Some(u) ==> (is_on_host(u@) ==> is_read(u@)),
    {
        parse_url(text)
    }

    /// The URL at `path` on the same host: without query, fragment, username and password.
    ///
    /// There is none if it would be too long.
    pub fn at_path(&self, path: &str) -> (r: Option<Url>)
        ensures
            opt_url_view(r) == url_at_path(self@.text, path@),
            r matches Some(u) ==> is_at_path(u@, self@, path@),
            is_read(self@) ==> bare_url(self@.text) is Some,
            has_path(self@, path@) ==> r is Some,
    {
        let text = match without_query(self.text.as_str()) {
            Some(text) => text,
            None => return None,
        };
        let text = match without_fragment(text.as_str()) {
            Some(text) => text,
            None => return None,
        };
        let text = match without_username(text.as_str()) {
            Some(text) => text,
            None => return None,
        };
        let text = match without_password(text.as_str()) {
            Some(text) => text,
            None => return None,
        };
        match parse_url(text.as_str()) {
            Some(bare) => if fits(&bare, path) {
                with_path(text.as_str(), path)
            } else {
                None
            },
            None => None,
        }
    }

    /// A copy of this URL.
    pub fn copy(&self) -> (r: Url)
        ensures
            r == *self,
    {
        Url {
            text: self.text.clone(),
            scheme: self.scheme.clone(),
            host: self.host.clone(),
            port: self.port,
            path: self.path.clone(),
            query: self.query.clone(),
            fragment: self.fragment.clone(),
            cannot_be_a_base: self.cannot_be_a_base,
        }
    }
}

} // verus!
