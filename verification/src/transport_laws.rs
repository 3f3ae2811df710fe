//! Which quotes in the value of a `Transport` header are stray.

use vstd::prelude::*;

use crate::headers::reads_as_transports;
use crate::text::{first_index, lemma_first_index_bounds, lemma_split_one, split};
use crate::transport::{
    has_stray_address, has_stray_quote, is_stray_address, is_stray_parameter, last_value,
    lemma_parameter_at, lemma_parameters_at, lemma_parts_at, lemma_run_end, parameter_at,
    parameters_at, parts_at, run_end, stray_address_at, stray_from, value_end, ParameterView, Run,
};

verus! {

/// What is not in a text is in none of its pieces.
proof fn lemma_split_holds_no_more(s: Seq<char>, sep: char, c: char)
    requires
        !s.contains(c),
    ensures
        forall|i: int| 0 <= i < split(s, sep).len() ==> !(#[trigger] split(s, sep)[i]).contains(c),
    decreases s.len(),
{
    lemma_first_index_bounds(s, sep);
    let i = first_index(s, sep);
    if i < s.len() {
        let rest = s.skip(i + 1);
        assert(!rest.contains(c)) by {
            if rest.contains(c) {
                let k = choose|k: int| 0 <= k < rest.len() && rest[k] == c;
                assert(s[k + i + 1] == c);
            }
        }
        lemma_split_holds_no_more(rest, sep, c);
        assert(!s.take(i).contains(c)) by {
            if s.take(i).contains(c) {
                let k = choose|k: int| 0 <= k < s.take(i).len() && s.take(i)[k] == c;
                assert(s[k] == c);
            }
        }
        let pieces = split(s, sep);
        assert forall|k: int| 0 <= k < pieces.len() implies !(#[trigger] pieces[k]).contains(c) by {
            if k > 0 {
                assert(pieces[k] == split(rest, sep)[k - 1]);
            }
        }
    }
}

/// Whether no value holds a quote.
spec fn is_plain(parameters: Seq<ParameterView>) -> bool {
    forall|k: int|
        0 <= k < parameters.len() ==> ((#[trigger] parameters[k]).value matches Some(value)
            ==> !value.contains('"'))
}

/// Without a quote in the value of a header there is none in its parameters.
proof fn lemma_plain_parameters(v: Seq<char>, i: int)
    requires
        !v.contains('"'),
        0 <= i <= v.len(),
    ensures
        parameters_at(v, i) matches Ok((parameters, _)) ==> is_plain(parameters),
    decreases v.len() - i,
{
    lemma_parameter_at(v, i);
    match parameter_at(v, i) {
        Ok(Some((parameter, next))) => {
            lemma_plain_parameters(v, next);
            match parameter.value {
                Some(value) => {
                    let semicolon = run_end(v, i, Run::Blanks);
                    let start = run_end(v, semicolon + 1, Run::Blanks);
                    let end = run_end(v, start, Run::Token);
                    let equals = run_end(v, end, Run::Blanks);
                    let begin = run_end(v, equals + 1, Run::Blanks);
                    lemma_run_end(v, i, Run::Blanks);
                    lemma_run_end(v, semicolon + 1, Run::Blanks);
                    lemma_run_end(v, start, Run::Token);
                    lemma_run_end(v, end, Run::Blanks);
                    lemma_run_end(v, equals + 1, Run::Blanks);
                    lemma_run_end(v, begin, Run::Unreserved);
                    if begin < v.len() {
                        assert(v.contains(v[begin]));
                    }
                    assert(value_end(v, begin) == Some(run_end(v, begin, Run::Unreserved)));
                    if value.contains('"') {
                        let k = choose|k: int| 0 <= k < value.len() && value[k] == '"';
                        assert(v[begin + k] == '"');
                    }
                },
                None => {},
            }
            match parameters_at(v, next) {
                Ok((others, _)) => {
                    let all = seq![parameter] + others;
                    assert forall|k: int| 0 <= k < all.len() implies ((
                    #[trigger] all[k]).value matches Some(value) ==> !value.contains('"')) by {
                        if k > 0 {
                            assert(all[k] == others[k - 1]);
                        }
                    }
                },
                Err(_) => {},
            }
        },
        _ => {},
    }
}

/// Without a quote in the parameters there is none in the last of a name.
proof fn lemma_plain_last_value(parameters: Seq<ParameterView>, name: Seq<char>)
    requires
        is_plain(parameters),
    ensures
        last_value(parameters, name) matches Some(value) ==> !value.contains('"')
            && !has_stray_address(value),
    decreases parameters.len(),
{
    if parameters.len() > 0 {
        assert(parameters[parameters.len() - 1] == parameters.last());
        if parameters.last().name != name {
            let front = parameters.drop_last();
            assert forall|k: int| 0 <= k < front.len() implies ((
            #[trigger] front[k]).value matches Some(value) ==> !value.contains('"')) by {
                assert(front[k] == parameters[k]);
            }
            lemma_plain_last_value(front, name);
        }
    }
    match last_value(parameters, name) {
        Some(value) => {
            if !value.contains('"') {
                lemma_split_holds_no_more(value, '/', '"');
                assert forall|i: int| !stray_address_at(split(value, '/'), i) by {
                    if stray_address_at(split(value, '/'), i) {
                        let address = split(value, '/')[i];
                        assert(address.contains(address[0]));
                    }
                }
            }
        },
        None => {},
    }
}

/// Without a quote there is no stray one from anywhere on.
proof fn lemma_no_quote_from(v: Seq<char>, i: int)
    requires
        !v.contains('"'),
    ensures
        !stray_from(v, i),
    decreases v.len() - i,
{
    if 0 <= i <= v.len() {
        lemma_parts_at(v, i);
        let (parts, next) = parts_at(v, i);
        lemma_parameters_at(v, next);
        lemma_plain_parameters(v, next);
        match parameters_at(v, next) {
            Ok((parameters, end)) => {
                lemma_plain_last_value(parameters, "mode"@);
                lemma_plain_last_value(parameters, "dest_addr"@);
                lemma_plain_last_value(parameters, "src_addr"@);
                reveal_strlit("\"");
                assert("\""@[0] == '"');
                assert("\""@.contains('"'));
                if end < v.len() {
                    lemma_no_quote_from(v, end + 1);
                }
            },
            Err(_) => {},
        }
    }
}

/// A value without quotes has no stray one: whether it can be read depends on nothing but what
/// reads it.
pub proof fn law_no_quote_is_stray(value: Seq<char>)
    requires
        !value.contains('"'),
    ensures
        !has_stray_quote(value),
        reads_as_transports(value) <==> crate::headers::is_transports(value),
{
    lemma_no_quote_from(value, 0);
}

/// Where a row ends: before the first character that may not stand in it.
proof fn lemma_run_stops(v: Seq<char>, i: int, j: int, run: Run)
    requires
        0 <= i <= j <= v.len(),
        forall|k: int| i <= k < j ==> run.spec_has(#[trigger] v[k]),
        j < v.len() ==> !run.spec_has(v[j]),
    ensures
        run_end(v, i, run) == j,
    decreases j - i,
{
    if i < j {
        assert(run.spec_has(v[i]));
        lemma_run_stops(v, i + 1, j, run);
    }
}

/// A lone quote can't be taken where the modes or the addresses of an RTP transport are expected,
/// whatever the profile is.
pub proof fn law_lone_quote_is_stray(profile: Seq<char>, name: Seq<char>)
    requires
        forall|k: int| 0 <= k < profile.len() ==> Run::Token.spec_has(#[trigger] profile[k]),
        name == "mode"@ || name == "dest_addr"@ || name == "src_addr"@,
    ensures
        has_stray_quote(("RTP"@.push('/') + profile).push(';') + name.push('=') + "\""@),
        !reads_as_transports(("RTP"@.push('/') + profile).push(';') + name.push('=') + "\""@),
{
    reveal_strlit("RTP");
    reveal_strlit("\"");
    reveal_strlit("mode");
    reveal_strlit("dest_addr");
    reveal_strlit("src_addr");
    let v = ("RTP"@.push('/') + profile).push(';') + name.push('=') + "\""@;
    let t = profile.len() as int;
    let m = name.len() as int;
    let semicolon = 4 + t;
    let equals = semicolon + 1 + m;
    assert(v.len() == equals + 2);
    assert(v[0] == 'R' && v[1] == 'T' && v[2] == 'P' && v[3] == '/');
    assert forall|k: int| 4 <= k < semicolon implies Run::Token.spec_has(#[trigger] v[k]) by {
        assert(v[k] == profile[k - 4]);
    }
    assert(v[semicolon] == ';');
    assert forall|k: int| semicolon < k < equals implies v[k] == name[k - semicolon - 1] by {}
    assert forall|k: int| semicolon < k < equals implies Run::Token.spec_has(#[trigger] v[k]) by {
        assert(v[k] == name[k - semicolon - 1]);
    }
    assert(v[equals] == '=');
    assert(v[equals + 1] == '"');
    lemma_run_stops(v, 0, 0, Run::Blanks);
    lemma_run_stops(v, 0, 3, Run::Token);
    lemma_run_stops(v, 3, 3, Run::Blanks);
    lemma_run_stops(v, 4, 4, Run::Blanks);
    lemma_run_stops(v, 4, semicolon, Run::Token);
    lemma_run_stops(v, semicolon, semicolon, Run::Blanks);
    lemma_run_stops(v, semicolon + 1, semicolon + 1, Run::Blanks);
    lemma_run_stops(v, semicolon + 1, equals, Run::Token);
    lemma_run_stops(v, equals, equals, Run::Blanks);
    lemma_run_stops(v, equals + 1, equals + 1, Run::Blanks);
    lemma_run_stops(v, equals + 2, equals + 2, Run::Blanks);
    let (parts, next) = parts_at(v, 0);
    let (rest, _) = parts_at(v, 4);
    assert(rest == seq![v.subrange(4, semicolon)]);
    assert(parts == seq![v.subrange(0, 3)] + rest);
    assert(v.subrange(0, 3) =~= "RTP"@);
    assert(parts.len() == 2 && parts[0] == "RTP"@ && next == semicolon);
    let parameter = ParameterView { name, value: Some("\""@) };
    assert(v.subrange(semicolon + 1, equals) =~= name);
    assert(v.subrange(equals + 1, equals + 2) =~= "\""@);
    assert(value_end(v, equals + 1) == Some(equals + 2));
    assert(parameter_at(v, semicolon) == Ok::<Option<(ParameterView, int)>, ()>(
        Some((parameter, equals + 2)),
    ));
    assert(parameter_at(v, equals + 2) == Ok::<Option<(ParameterView, int)>, ()>(None));
    assert(parameters_at(v, equals + 2) == Ok::<(Seq<ParameterView>, int), ()>(
        (Seq::empty(), equals + 2),
    ));
    let parameters = seq![parameter] + Seq::<ParameterView>::empty();
    assert(parameters_at(v, semicolon) == Ok::<(Seq<ParameterView>, int), ()>(
        (parameters, equals + 2),
    ));
    assert(parameters.last() == parameter);
    assert(last_value(parameters, name) == Some("\""@));
    assert(!"\""@.contains('/'));
    lemma_split_one("\""@, '/');
    assert(is_stray_address("\""@));
    assert(stray_address_at(split("\""@, '/'), 0));
    assert(has_stray_address("\""@));
    assert(is_stray_parameter(parameters, name));
}

} // verus!
