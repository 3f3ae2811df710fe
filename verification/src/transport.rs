//! Quotes in the value of a `Transport` header that `rtsp_types` cannot take.
//!
//! The parameters `mode`, `dest_addr` and `src_addr` of an RTP transport are unquoted when they are
//! read. A quote that opens a text of which nothing follows, or that is escaped where it should
//! close one, is not caught there. So the value is taken apart here first, as far as it takes to
//! find these parameters.

use vstd::prelude::*;

use crate::text::{chars_of, same, split, split_str, string_of, views};
use crate::url::opt_view;

verus! {

/// Characters that may stand in a row.
#[derive(Clone, Copy, PartialEq, Eq, Structural)]
pub enum Run {
    /// White space between the parts of a transport.
    Blanks,
    /// The name of a parameter, or a part of the name of a transport.
    Token,
    /// The value of a parameter, if it is not quoted.
    Unreserved,
}

/// Whether `c` is an ASCII letter or digit.
pub open spec fn is_alphanumeric(c: char) -> bool {
    'a' <= c <= 'z' || 'A' <= c <= 'Z' || '0' <= c <= '9'
}

impl Run {
    /// Whether `c` may stand in the row.
    pub open spec fn spec_has(self, c: char) -> bool {
        match self {
            Run::Blanks => c == ' ' || c == '\t',
            Run::Token => is_alphanumeric(c) || c == '!' || c == '#' || c == '$' || c == '%' || c
                == '&' || c == '\'' || c == '*' || c == '+' || c == '-' || c == '.' || c == '^' || c
                == '_' || c == '`' || c == '|' || c == '~',
            Run::Unreserved => is_alphanumeric(c) || c == '$' || c == '-' || c == '_' || c == '.'
                || c == '+' || c == '!' || c == '*' || c == '\'' || c == '(' || c == ')',
        }
    }

    /// Whether `c` may stand in the row.
    fn has(self, c: char) -> (r: bool)
        ensures
            r == self.spec_has(c),
    {
        let alphanumeric = ('a' <= c && c <= 'z') || ('A' <= c && c <= 'Z') || ('0' <= c && c
            <= '9');
        match self {
            Run::Blanks => c == ' ' || c == '\t',
            Run::Token => alphanumeric || c == '!' || c == '#' || c == '$' || c == '%' || c == '&'
                || c == '\'' || c == '*' || c == '+' || c == '-' || c == '.' || c == '^' || c == '_'
                || c == '`' || c == '|' || c == '~',
            Run::Unreserved => alphanumeric || c == '$' || c == '-' || c == '_' || c == '.' || c
                == '+' || c == '!' || c == '*' || c == '\'' || c == '(' || c == ')',
        }
    }
}

/// Where the row that begins at `i` ends.
pub open spec fn run_end(v: Seq<char>, i: int, run: Run) -> int
    decreases v.len() - i,
{
    if 0 <= i < v.len() && run.spec_has(v[i]) {
        run_end(v, i + 1, run)
    } else {
        i
    }
}

/// A row does not end before it begins.
pub proof fn lemma_run_end(v: Seq<char>, i: int, run: Run)
    ensures
        i <= run_end(v, i, run),
        i <= v.len() ==> run_end(v, i, run) <= v.len(),
    decreases v.len() - i,
{
    if 0 <= i < v.len() && run.spec_has(v[i]) {
        lemma_run_end(v, i + 1, run);
    }
}

/// Whether `c` stands at `i`.
pub open spec fn is_at(v: Seq<char>, i: int, c: char) -> bool {
    0 <= i < v.len() && v[i] == c
}

/// Where the next address begins, if the quote at `i` closes an address that another one follows: a
/// slash and a quote, with nothing but blanks between them.
pub open spec fn next_address(v: Seq<char>, i: int) -> Option<int> {
    let slash = run_end(v, i + 1, Run::Blanks);
    let quote = run_end(v, slash + 1, Run::Blanks);
    if is_at(v, slash, '/') && is_at(v, quote, '"') {
        Some(quote + 1)
    } else {
        None
    }
}

/// The next address begins behind the one before.
pub proof fn lemma_next_address(v: Seq<char>, i: int)
    ensures
        next_address(v, i) matches Some(next) ==> i < next <= v.len(),
{
    lemma_run_end(v, i + 1, Run::Blanks);
    lemma_run_end(v, run_end(v, i + 1, Run::Blanks) + 1, Run::Blanks);
}

/// Where the quoted text ends that goes on at `i`: behind its quote, or at the end of the value.
/// There is no end if a backslash is the last character.
pub open spec fn quoted_end(v: Seq<char>, i: int) -> Option<int>
    decreases v.len() - i,
{
    if i >= v.len() {
        Some(i)
    } else if v[i] == '\\' {
        if i + 1 < v.len() {
            quoted_end(v, i + 2)
        } else {
            None
        }
    } else if v[i] == '"' {
        proof {
            lemma_next_address(v, i);
        }
        match next_address(v, i) {
            Some(next) => quoted_end(v, next),
            None => Some(i + 1),
        }
    } else {
        quoted_end(v, i + 1)
    }
}

/// Where the value of a parameter ends that begins at `i`. A value that begins with a quote has to
/// end with one.
pub open spec fn value_end(v: Seq<char>, i: int) -> Option<int> {
    if is_at(v, i, '"') {
        match quoted_end(v, i + 1) {
            Some(end) => if v[end - 1] == '"' {
                Some(end)
            } else {
                None
            },
            None => None,
        }
    } else {
        Some(run_end(v, i, Run::Unreserved))
    }
}

/// A parameter of a transport, as it is seen in contracts.
pub ghost struct ParameterView {
    pub name: Seq<char>,
    pub value: Option<Seq<char>>,
}

/// A parameter of a transport.
pub struct Parameter {
    pub name: String,
    pub value: Option<String>,
}

impl Parameter {
    /// What the parameter holds.
    pub open spec fn view(self) -> ParameterView {
        ParameterView { name: self.name@, value: opt_view(self.value) }
    }
}

/// What parameters hold.
pub open spec fn parameter_views(parameters: Seq<Parameter>) -> Seq<ParameterView> {
    parameters.map_values(|parameter: Parameter| parameter@)
}

/// The parameter behind the semicolon that follows at `i`, and where it ends. There is none without
/// a semicolon, or with nothing behind it. It cannot be read if its value has no end.
pub open spec fn parameter_at(v: Seq<char>, i: int) -> Result<Option<(ParameterView, int)>, ()> {
    let semicolon = run_end(v, i, Run::Blanks);
    let start = run_end(v, semicolon + 1, Run::Blanks);
    let end = run_end(v, start, Run::Token);
    let equals = run_end(v, end, Run::Blanks);
    let begin = run_end(v, equals + 1, Run::Blanks);
    let name = v.subrange(start, end);
    if !is_at(v, semicolon, ';') || start >= v.len() {
        Ok(None)
    } else if !is_at(v, equals, '=') {
        Ok(Some((ParameterView { name, value: None }, equals)))
    } else {
        match value_end(v, begin) {
            Some(close) => Ok(
                Some(
                    (
                        ParameterView { name, value: Some(v.subrange(begin, close)) },
                        run_end(v, close, Run::Blanks),
                    ),
                ),
            ),
            None => Err(()),
        }
    }
}

/// The quoted text ends behind where it goes on.
proof fn lemma_quoted_end(v: Seq<char>, i: int)
    requires
        0 <= i <= v.len(),
    ensures
        quoted_end(v, i) matches Some(end) ==> i <= end <= v.len(),
    decreases v.len() - i,
{
    if i < v.len() {
        if v[i] == '\\' {
            if i + 1 < v.len() {
                lemma_quoted_end(v, i + 2);
            }
        } else if v[i] == '"' {
            lemma_next_address(v, i);
            match next_address(v, i) {
                Some(next) => {
                    lemma_quoted_end(v, next);
                },
                None => {},
            }
        } else {
            lemma_quoted_end(v, i + 1);
        }
    }
}

/// The value ends behind where it begins.
proof fn lemma_value_end(v: Seq<char>, i: int)
    requires
        0 <= i <= v.len(),
    ensures
        value_end(v, i) matches Some(end) ==> i <= end <= v.len(),
{
    lemma_run_end(v, i, Run::Unreserved);
    if i < v.len() {
        lemma_quoted_end(v, i + 1);
    }
}

/// The parts of a parameter follow one another.
pub proof fn lemma_parameter_at(v: Seq<char>, i: int)
    requires
        0 <= i <= v.len(),
    ensures
        parameter_at(v, i) matches Ok(Some((_, end))) ==> i < end <= v.len(),
{
    let semicolon = run_end(v, i, Run::Blanks);
    let start = run_end(v, semicolon + 1, Run::Blanks);
    let end = run_end(v, start, Run::Token);
    let equals = run_end(v, end, Run::Blanks);
    let begin = run_end(v, equals + 1, Run::Blanks);
    lemma_run_end(v, i, Run::Blanks);
    lemma_run_end(v, semicolon + 1, Run::Blanks);
    lemma_run_end(v, start, Run::Token);
    lemma_run_end(v, end, Run::Blanks);
    lemma_run_end(v, equals + 1, Run::Blanks);
    if is_at(v, equals, '=') {
        lemma_value_end(v, begin);
        match value_end(v, begin) {
            Some(close) => {
                lemma_run_end(v, close, Run::Blanks);
            },
            None => {},
        }
    }
}

/// The parameters from `i` on, and where they end, unless one of them cannot be read.
pub open spec fn parameters_at(v: Seq<char>, i: int) -> Result<(Seq<ParameterView>, int), ()>
    decreases v.len() - i,
{
    if !(0 <= i <= v.len()) {
        Err(())
    } else {
        proof {
            lemma_parameter_at(v, i);
        }
        match parameter_at(v, i) {
            Ok(Some((parameter, next))) => match parameters_at(v, next) {
                Ok((others, end)) => Ok((seq![parameter] + others, end)),
                Err(_) => Err(()),
            },
            Ok(None) => Ok((Seq::empty(), i)),
            Err(_) => Err(()),
        }
    }
}

/// The parts of the name of a transport from `i` on, between slashes, and where they end.
pub open spec fn parts_at(v: Seq<char>, i: int) -> (Seq<Seq<char>>, int)
    decreases v.len() - i,
{
    let start = run_end(v, i, Run::Blanks);
    let end = run_end(v, start, Run::Token);
    let slash = run_end(v, end, Run::Blanks);
    if is_at(v, slash, '/') {
        proof {
            lemma_run_end(v, i, Run::Blanks);
            lemma_run_end(v, start, Run::Token);
            lemma_run_end(v, end, Run::Blanks);
        }
        let (others, rest) = parts_at(v, slash + 1);
        (seq![v.subrange(start, end)] + others, rest)
    } else {
        (seq![v.subrange(start, end)], slash)
    }
}

/// The value of the last parameter with that name.
pub open spec fn last_value(parameters: Seq<ParameterView>, name: Seq<char>) -> Option<Seq<char>>
    decreases parameters.len(),
{
    if parameters.len() == 0 {
        None
    } else if parameters.last().name == name {
        parameters.last().value
    } else {
        last_value(parameters.drop_last(), name)
    }
}

/// Whether a backslash before the character at `i` escapes it.
pub open spec fn escaped(s: Seq<char>, i: int) -> bool
    decreases i,
{
    0 < i <= s.len() && s[i - 1] == '\\' && !escaped(s, i - 1)
}

/// Whether an address begins and ends with a quote.
pub open spec fn is_quoted(address: Seq<char>) -> bool {
    address.len() > 0 && address[0] == '"' && address.last() == '"'
}

/// Whether an address is a lone quote, or the quote at its end is escaped.
pub open spec fn is_stray_address(address: Seq<char>) -> bool {
    is_quoted(address) && (address.len() == 1 || escaped(address, address.len() - 1))
}

/// Whether the address at `i` cannot be taken, and all before it are quoted.
pub open spec fn stray_address_at(addresses: Seq<Seq<char>>, i: int) -> bool {
    &&& 0 <= i < addresses.len()
    &&& is_stray_address(addresses[i])
    &&& forall|j: int| 0 <= j < i ==> is_quoted(#[trigger] addresses[j])
}

/// Whether one of the addresses cannot be taken.
pub open spec fn has_stray_address(value: Seq<char>) -> bool {
    exists|i: int| stray_address_at(split(value, '/'), i)
}

/// Whether the parameter has addresses that cannot be taken.
pub open spec fn is_stray_parameter(parameters: Seq<ParameterView>, name: Seq<char>) -> bool {
    match last_value(parameters, name) {
        Some(value) => has_stray_address(value),
        None => false,
    }
}

/// Whether a transport is an RTP transport with modes or addresses that cannot be taken.
pub open spec fn is_stray_transport(parts: Seq<Seq<char>>, parameters: Seq<ParameterView>) -> bool {
    &&& 2 <= parts.len() <= 3
    &&& parts[0] == "RTP"@
    &&& {
        ||| last_value(parameters, "mode"@) == Some("\""@)
        ||| is_stray_parameter(parameters, "dest_addr"@)
        ||| is_stray_parameter(parameters, "src_addr"@)
    }
}

/// The parts of a name end behind where they begin.
pub proof fn lemma_parts_at(v: Seq<char>, i: int)
    requires
        0 <= i <= v.len(),
    ensures
        i <= parts_at(v, i).1 <= v.len(),
    decreases v.len() - i,
{
    let start = run_end(v, i, Run::Blanks);
    let end = run_end(v, start, Run::Token);
    let slash = run_end(v, end, Run::Blanks);
    lemma_run_end(v, i, Run::Blanks);
    lemma_run_end(v, start, Run::Token);
    lemma_run_end(v, end, Run::Blanks);
    if is_at(v, slash, '/') {
        lemma_parts_at(v, slash + 1);
    }
}

/// The parameters end behind where they begin.
pub proof fn lemma_parameters_at(v: Seq<char>, i: int)
    ensures
        parameters_at(v, i) matches Ok((_, end)) ==> i <= end <= v.len(),
    decreases v.len() - i,
{
    if 0 <= i <= v.len() {
        lemma_parameter_at(v, i);
        match parameter_at(v, i) {
            Ok(Some((_, next))) => {
                lemma_parameters_at(v, next);
            },
            _ => {},
        }
    }
}

/// Whether one of the transports from `i` on has modes or addresses that cannot be taken.
pub open spec fn stray_from(v: Seq<char>, i: int) -> bool
    decreases v.len() - i,
{
    if 0 <= i <= v.len() {
        proof {
            lemma_parts_at(v, i);
            lemma_parameters_at(v, parts_at(v, i).1);
        }
        let (parts, next) = parts_at(v, i);
        match parameters_at(v, next) {
            Ok((parameters, end)) => is_stray_transport(parts, parameters) || (is_at(v, end, ',')
                && stray_from(v, end + 1)),
            Err(_) => false,
        }
    } else {
        false
    }
}

/// Whether `value` has a quote, in the modes or the addresses of an RTP transport, that cannot be
/// taken there.
pub open spec fn has_stray_quote(value: Seq<char>) -> bool {
    stray_from(value, 0)
}

/// Where the row that begins at `i` ends.
fn skip(v: &Vec<char>, i: usize, run: Run) -> (r: usize)
    requires
        i <= v.len(),
    ensures
        r == run_end(v@, i as int, run),
        i <= r <= v.len(),
{
    let mut j: usize = i;
    while j < v.len() && run.has(v[j])
        invariant
            i <= j <= v.len(),
            run_end(v@, j as int, run) == run_end(v@, i as int, run),
        decreases v.len() - j,
    {
        j += 1;
    }
    j
}

/// Whether `c` stands at `i`.
fn stands_at(v: &Vec<char>, i: usize, c: char) -> (r: bool)
    ensures
        r == is_at(v@, i as int, c),
{
    i < v.len() && v[i] == c
}

/// Where the next address begins, if the quote at `i` closes an address that another one follows.
fn find_next_address(v: &Vec<char>, i: usize) -> (r: Option<usize>)
    requires
        i < v.len(),
    ensures
        match r {
            Some(next) => next_address(v@, i as int) == Some(next as int) && i < next <= v.len(),
            None => next_address(v@, i as int) is None,
        },
{
    let slash: usize = skip(v, i + 1, Run::Blanks);
    if !stands_at(v, slash, '/') {
        return None;
    }
    let quote: usize = skip(v, slash + 1, Run::Blanks);
    if stands_at(v, quote, '"') {
        Some(quote + 1)
    } else {
        None
    }
}

/// Where the quoted text ends that goes on at `start`.
fn find_quoted_end(v: &Vec<char>, start: usize) -> (r: Option<usize>)
    requires
        start <= v.len(),
    ensures
        match r {
            Some(end) => quoted_end(v@, start as int) == Some(end as int) && start <= end
                <= v.len(),
            None => quoted_end(v@, start as int) is None,
        },
{
    let mut i: usize = start;
    while i < v.len()
        invariant
            start <= i <= v.len(),
            quoted_end(v@, i as int) == quoted_end(v@, start as int),
        decreases v.len() - i,
    {
        if v[i] == '\\' {
            if v.len() - i < 2 {
                return None;
            }
            i += 2;
        } else if v[i] == '"' {
            match find_next_address(v, i) {
                Some(next) => {
                    i = next;
                },
                None => return Some(i + 1),
            }
        } else {
            i += 1;
        }
    }
    Some(i)
}

/// Where the value of a parameter ends that begins at `i`.
fn find_value_end(v: &Vec<char>, i: usize) -> (r: Option<usize>)
    requires
        i <= v.len(),
    ensures
        match r {
            Some(end) => value_end(v@, i as int) == Some(end as int) && i <= end <= v.len(),
            None => value_end(v@, i as int) is None,
        },
{
    if !stands_at(v, i, '"') {
        return Some(skip(v, i, Run::Unreserved));
    }
    match find_quoted_end(v, i + 1) {
        Some(end) => if v[end - 1] == '"' {
            Some(end)
        } else {
            None
        },
        None => None,
    }
}

/// The parameter behind the semicolon that follows at `i`, and where it ends.
fn read_parameter(v: &Vec<char>, i: usize) -> (r: Result<Option<(Parameter, usize)>, ()>)
    requires
        i <= v.len(),
    ensures
        match r {
            Ok(Some((parameter, end))) => parameter_at(v@, i as int) == Ok::<_, ()>(
                Some((parameter@, end as int)),
            ) && i < end <= v.len(),
            Ok(None) => parameter_at(v@, i as int) == Ok::<Option<(ParameterView, int)>, ()>(None),
            Err(_) => parameter_at(v@, i as int) is Err,
        },
{
    let semicolon: usize = skip(v, i, Run::Blanks);
    if !stands_at(v, semicolon, ';') {
        return Ok(None);
    }
    let start: usize = skip(v, semicolon + 1, Run::Blanks);
    if start >= v.len() {
        return Ok(None);
    }
    let end: usize = skip(v, start, Run::Token);
    let name = string_of(v, start, end);
    let equals: usize = skip(v, end, Run::Blanks);
    if !stands_at(v, equals, '=') {
        return Ok(Some((Parameter { name, value: None }, equals)));
    }
    let begin: usize = skip(v, equals + 1, Run::Blanks);
    match find_value_end(v, begin) {
        Some(close) => {
            let value = Some(string_of(v, begin, close));
            Ok(Some((Parameter { name, value }, skip(v, close, Run::Blanks))))
        },
        None => Err(()),
    }
}

/// The parameters from `start` on, and where they end.
fn read_parameters(v: &Vec<char>, start: usize) -> (r: Result<(Vec<Parameter>, usize), ()>)
    requires
        start <= v.len(),
    ensures
        match r {
            Ok((parameters, end)) => parameters_at(v@, start as int) == Ok::<_, ()>(
                (parameter_views(parameters@), end as int),
            ) && start <= end <= v.len(),
            Err(_) => parameters_at(v@, start as int) is Err,
        },
{
    let mut parameters: Vec<Parameter> = Vec::new();
    let mut i: usize = start;
    proof {
        match parameters_at(v@, start as int) {
            Ok((others, _)) => {
                assert(parameter_views(parameters@) + others =~= others);
            },
            Err(_) => {},
        }
    }
    loop
        invariant
            start <= i <= v.len(),
            match parameters_at(v@, i as int) {
                Ok((others, end)) => parameters_at(v@, start as int) == Ok::<_, ()>(
                    (parameter_views(parameters@) + others, end),
                ),
                Err(_) => parameters_at(v@, start as int) is Err,
            },
        decreases v.len() - i,
    {
        match read_parameter(v, i) {
            Ok(Some((parameter, next))) => {
                let ghost before = parameters@;
                parameters.push(parameter);
                proof {
                    match parameters_at(v@, next as int) {
                        Ok((others, _)) => {
                            assert(parameter_views(before) + (seq![parameter@] + others)
                                =~= parameter_views(parameters@) + others);
                        },
                        Err(_) => {},
                    }
                }
                i = next;
            },
            Ok(None) => {
                proof {
                    assert(parameter_views(parameters@) + Seq::<ParameterView>::empty()
                        =~= parameter_views(parameters@));
                }
                return Ok((parameters, i));
            },
            Err(()) => return Err(()),
        }
    }
}

/// The parts of the name of a transport from `start` on, and where they end.
fn read_parts(v: &Vec<char>, start: usize) -> (r: (Vec<String>, usize))
    requires
        start <= v.len(),
    ensures
        parts_at(v@, start as int) == (views(r.0@), r.1 as int),
        start <= r.1 <= v.len(),
{
    let mut parts: Vec<String> = Vec::new();
    let mut i: usize = start;
    proof {
        assert(views(parts@) + parts_at(v@, start as int).0 =~= parts_at(v@, start as int).0);
    }
    loop
        invariant
            start <= i <= v.len(),
            parts_at(v@, start as int) == (
                views(parts@) + parts_at(v@, i as int).0,
                parts_at(v@, i as int).1,
            ),
        decreases v.len() - i,
    {
        let begin: usize = skip(v, i, Run::Blanks);
        let end: usize = skip(v, begin, Run::Token);
        let slash: usize = skip(v, end, Run::Blanks);
        let ghost before = parts@;
        parts.push(string_of(v, begin, end));
        let ghost part = v@.subrange(begin as int, end as int);
        if stands_at(v, slash, '/') {
            proof {
                let others = parts_at(v@, slash + 1).0;
                assert(views(before) + (seq![part] + others) =~= views(parts@) + others);
            }
            i = slash + 1;
        } else {
            proof {
                assert(views(before) + seq![part] =~= views(parts@));
            }
            return (parts, slash);
        }
    }
}

/// The value of the last parameter with that name.
fn find_last_value<'a>(parameters: &'a Vec<Parameter>, name: &str) -> (r: Option<&'a String>)
    ensures
        match r {
            Some(value) => last_value(parameter_views(parameters@), name@) == Some(value@),
            None => last_value(parameter_views(parameters@), name@) is None,
        },
{
    let ghost all = parameter_views(parameters@);
    let mut i: usize = parameters.len();
    proof {
        assert(all.take(i as int) =~= all);
    }
    while i > 0
        invariant
            all == parameter_views(parameters@),
            i <= parameters@.len(),
            last_value(all.take(i as int), name@) == last_value(all, name@),
        decreases i,
    {
        proof {
            assert(all.take(i as int).drop_last() =~= all.take(i - 1));
            assert(all.take(i as int).last() == parameters@[i - 1]@);
        }
        i -= 1;
        if same(parameters[i].name.as_str(), name) {
            return parameters[i].value.as_ref();
        }
    }
    None
}

/// Whether a backslash before the character at `i` escapes it.
fn is_escaped(s: &Vec<char>, i: usize) -> (r: bool)
    requires
        i <= s@.len(),
    ensures
        r == escaped(s@, i as int),
{
    let mut j: usize = i;
    let mut odd: bool = false;
    while j > 0 && s[j - 1] == '\\'
        invariant
            j <= i <= s@.len(),
            escaped(s@, i as int) == (escaped(s@, j as int) != odd),
        decreases j,
    {
        j -= 1;
        odd = !odd;
    }
    odd
}

/// Whether one of the addresses cannot be taken.
fn stray_address(value: &str) -> (r: bool)
    ensures
        r == has_stray_address(value@),
{
    let addresses = split_str(value, '/');
    let ghost all = split(value@, '/');
    let mut i: usize = 0;
    while i < addresses.len()
        invariant
            i <= addresses@.len(),
            all == split(value@, '/'),
            views(addresses@) == all,
            forall|j: int| 0 <= j < i ==> is_quoted(#[trigger] all[j]) && !is_stray_address(all[j]),
        decreases addresses.len() - i,
    {
        let address = chars_of(addresses[i].as_str());
        proof {
            assert(all[i as int] == address@);
        }
        let n: usize = address.len();
        if n == 0 || address[0] != '"' || address[n - 1] != '"' {
            assert forall|j: int| !stray_address_at(all, j) by {
                if j > i {
                    assert(!is_quoted(all[i as int]));
                }
            }
            return false;
        }
        if n == 1 || is_escaped(&address, n - 1) {
            assert(stray_address_at(split(value@, '/'), i as int));
            return true;
        }
        i += 1;
    }
    false
}

/// Whether the parameter has addresses that cannot be taken.
fn stray_parameter(parameters: &Vec<Parameter>, name: &str) -> (r: bool)
    ensures
        r == is_stray_parameter(parameter_views(parameters@), name@),
{
    match find_last_value(parameters, name) {
        Some(value) => stray_address(value.as_str()),
        None => false,
    }
}

/// Whether a transport is an RTP transport with modes or addresses that cannot be taken.
fn stray_transport(parts: &Vec<String>, parameters: &Vec<Parameter>) -> (r: bool)
    ensures
        r == is_stray_transport(views(parts@), parameter_views(parameters@)),
{
    if parts.len() < 2 || parts.len() > 3 {
        return false;
    }
    proof {
        assert(views(parts@)[0] == parts@[0]@);
    }
    if !same(parts[0].as_str(), "RTP") {
        return false;
    }
    let mode = match find_last_value(parameters, "mode") {
        Some(value) => same(value.as_str(), "\""),
        None => false,
    };
    mode || stray_parameter(parameters, "dest_addr") || stray_parameter(parameters, "src_addr")
}

/// Whether `value` has a quote, in the modes or the addresses of an RTP transport, that cannot be
/// taken there.
pub fn stray_quote(value: &str) -> (r: bool)
    ensures
        r == has_stray_quote(value@),
{
    let v = chars_of(value);
    let mut i: usize = 0;
    loop
        invariant
            v@ == value@,
            i <= v.len(),
            stray_from(v@, 0) == stray_from(v@, i as int),
        decreases v.len() - i,
    {
        let (parts, next) = read_parts(&v, i);
        match read_parameters(&v, next) {
            Ok((parameters, end)) => {
                if stray_transport(&parts, &parameters) {
                    return true;
                }
                if !stands_at(&v, end, ',') {
                    return false;
                }
                i = end + 1;
            },
            Err(()) => return false,
        }
    }
}

} // verus!
