//! What a request gets to in the end, over all that is asked for it.

use sdp_types::Session as SessionDescription;
use vstd::prelude::*;

use super::client::{notify_request, Client, PlayNotifyMessage};
use super::describe::{describe_finished, sdp_text, DescribeUri};
use super::lookup::{MediaFactoryLookup, SessionLookup, SessionReply, Target, UriLookup};
use super::options::{
    client_features, law_options_succeed, mount_extra_data, options_finished, options_response,
    server_options_answered, OptionsMediaFactoryLookup, OptionsReply, OptionsRequest,
    OptionsSession, OptionsSessionLookup, OptionsUri,
};
use super::parameter::parameter_answered;
use super::playback::{
    aggregate_check, pause_finished, pause_response, play_finished, play_response,
    session_extra_data, PauseReply, PlayReply,
};
use super::setup::{
    is_set_up_for, setup_extra_data, setup_finished, setup_outcome, setup_response, CreateLookup,
    CreateMedia, CreateSession, PipelinedLookup, PipelinedNext, PipelinedReply, SetupReply,
    SetupTarget,
};
use super::teardown::{teardown_finished, teardown_of, TeardownStep};
use crate::error::{Error, StatusCode};
use crate::extra_data::{Extra, ExtraData, ExtraMap, PRESENTATION_URI, SESSION_ID};
use crate::headers::{header_value, lemma_header_names};
use crate::media::stream::{opt_stream_view, stream_of_uri, StreamId};
use crate::message::{Request, RequestView, Response, ResponseView, Version};
use crate::server::mounts::PresentationURI;
use crate::text::views;

verus! {

/// A request in a session gets to the media of the session, and to the stream that its URI names
/// there. It gets there just if everybody who is asked answers, the URI is served by the media
/// factory of that media, and its presentation is the one that the session was made for. The first
/// error is the one that counts.
pub proof fn law_request_gets_to_stream(
    start: SessionLookup,
    session: SessionReply,
    a: Result<MediaFactoryLookup, Error>,
    factory: Result<u128, Error>,
    b: Result<UriLookup, Error>,
    found: Result<(u128, PresentationURI), Error>,
    r: Result<Target, Error>,
)
    requires
        start.leads_to(session, a),
        a matches Ok(next) ==> next.leads_to(factory, b),
        a matches Ok(_) ==> (b matches Ok(next) ==> next.leads_to(found, r)),
    ensures
        a is Ok <==> session is Ok,
        session matches Err(err) ==> a == Err::<MediaFactoryLookup, Error>(err),
        a is Ok ==> (b is Ok <==> factory is Ok),
        a is Ok ==> (factory matches Err(err) ==> b == Err::<UriLookup, Error>(err)),
        session is Ok && factory is Ok ==> match found {
            Err(err) => r == Err::<Target, Error>(err),
            Ok((media_factory_id, uri)) => {
                let belongs = factory->Ok_0 == media_factory_id && (session->Ok_0).1@.text
                    == uri@.text;
                let stream = stream_of_uri(uri@, start.uri@);
                &&& !belongs ==> r == Err::<Target, Error>(Error::spec_status(StatusCode::NotFound))
                &&& belongs ==> (r is Ok <==> stream is Ok)
                &&& belongs ==> (stream matches Err(err) ==> r == Err::<Target, Error>(err))
                &&& r matches Ok(target) ==> {
                    &&& target.session_id@ == start.session_id@
                    &&& target.media_id == (session->Ok_0).0
                    &&& target.presentation_uri@ == uri@
                    &&& Ok::<_, Error>(opt_stream_view(target.stream_id)) == stream
                }
            },
        },
{
}

/// Only a whole presentation is played or paused. Of a single stream, just the transport is taken
/// down, and a transport is only set up for one.
pub proof fn law_streams_and_presentations(target: Target, r: Result<SetupTarget, Error>)
    requires
        is_set_up_for(target, r),
    ensures
        aggregate_check(target) is Ok <==> target.stream_id is None,
        aggregate_check(target) matches Err(err) ==> err == Error::spec_status(
            StatusCode::MethodNotAllowed,
        ),
        target.stream_id is None ==> teardown_of(target) == TeardownStep::ShutdownSession,
        target.stream_id matches Some(id) ==> teardown_of(target) == TeardownStep::RemoveTransport(
            target.media_id,
            id,
        ),
        r is Ok <==> target.stream_id is Some,
        r matches Ok(setup) ==> {
            &&& setup.session_id == target.session_id
            &&& setup.media_id == target.media_id
            &&& setup.presentation_uri == target.presentation_uri
            &&& target.stream_id == Some(setup.stream_id)
        },
        r matches Err(err) ==> err == Error::spec_status(StatusCode::NotFound),
{
}

/// A transport without a session is set up in a new session, for the new media of the media factory
/// that serves the URI and for the stream that the URI names there. Whoever else waits for the
/// session is told of the outcome, whatever it is, just if the request is the first of several.
pub proof fn law_new_session_is_set_up<V>(
    start: CreateLookup,
    found: Result<(u128, PresentationURI, ExtraData<V>), Error>,
    before: ExtraMap<V>,
    after: ExtraMap<V>,
    a: Result<CreateMedia, Error>,
    media: Result<u128, Error>,
    b: Result<CreateSession, Error>,
    session: Result<String, Error>,
    r: Result<SetupTarget, Error>,
)
    requires
        start.leads_to(found, before, after, a),
        a matches Ok(next) ==> next.leads_to(media, b),
        a matches Ok(_) ==> (b matches Ok(next) ==> next.leads_to(session, r)),
    ensures
        found matches Err(err) ==> a == Err::<CreateMedia, Error>(err) && after == before,
        found matches Ok((media_factory_id, uri, data)) ==> {
            let stream = stream_of_uri(uri@, start.uri@);
            &&& a is Ok <==> (stream matches Ok(Some(_)))
            &&& stream == Ok::<Option<Seq<char>>, Error>(None) ==> a == Err::<CreateMedia, Error>(
                Error::spec_status(StatusCode::NotFound),
            )
            &&& stream matches Err(err) ==> a == Err::<CreateMedia, Error>(err)
            &&& a matches Ok(next) ==> {
                &&& next.media_factory_id == media_factory_id
                &&& next.report == start.report
                &&& b is Ok <==> media is Ok
                &&& media matches Err(err) ==> b == Err::<CreateSession, Error>(err)
                &&& b matches Ok(last) ==> {
                    &&& last.report == start.report
                    &&& last.presentation_uri@ == uri@
                    &&& media == Ok::<u128, Error>(last.media_id)
                    &&& r is Ok <==> session is Ok
                    &&& session matches Err(err) ==> r == Err::<SetupTarget, Error>(err)
                    &&& r matches Ok(target) ==> {
                        &&& session == Ok::<String, Error>(target.session_id)
                        &&& media == Ok::<u128, Error>(target.media_id)
                        &&& target.presentation_uri@ == uri@
                        &&& stream == Ok::<Option<Seq<char>>, Error>(Some(target.stream_id@))
                    }
                }
            }
        },
        setup_outcome(true, r) is Some,
        setup_outcome(false, r) is None,
        r is Ok ==> setup_outcome(true, r) == Some(Ok::<(), Error>(())),
        r matches Err(err) ==> setup_outcome(true, r) == Some(Err::<(), Error>(err)),
{
}

/// The first of several requests creates the session, and tells of it. The others use the session
/// that it has created, or fail with it.
pub proof fn law_pipelined_setup(
    start: PipelinedLookup,
    reply: PipelinedReply,
    r: Result<PipelinedNext, Error>,
)
    requires
        start.leads_to(reply, r),
    ensures
        reply is First <==> (r matches Ok(PipelinedNext::Create(_))),
        r matches Ok(PipelinedNext::Create(next)) ==> next.report && next.uri@ == start.uri@,
        r matches Ok(PipelinedNext::Existing(next)) ==> {
            &&& reply matches PipelinedReply::Found(Ok((session_id, media_id, session_uri)))
            &&& next.session_id == session_id
            &&& next.media_id == media_id
            &&& next.session_uri == session_uri
            &&& next.uri@ == start.uri@
        },
        r matches Err(err) ==> (reply matches PipelinedReply::Found(Err(e)) && e == err),
{
}

/// A description is asked for just of a whole presentation, from the media factory that serves it.
pub proof fn law_presentation_is_described<V>(
    start: DescribeUri,
    found: Result<(u128, PresentationURI, ExtraData<V>), Error>,
    before: ExtraMap<V>,
    after: ExtraMap<V>,
    r: Result<(u128, PresentationURI), Error>,
)
    requires
        start.leads_to(found, before, after, r),
    ensures
        found matches Err(err) ==> r == Err::<(u128, PresentationURI), Error>(err),
        found matches Ok((media_factory_id, uri, data)) ==> {
            let stream = stream_of_uri(uri@, start.uri@);
            &&& r is Ok <==> stream == Ok::<Option<Seq<char>>, Error>(None)
            &&& r matches Ok((id, at)) ==> id == media_factory_id && at == uri
            &&& stream matches Ok(Some(_)) ==> r == Err::<(u128, PresentationURI), Error>(
                Error::spec_status(StatusCode::NotFound),
            )
            &&& stream matches Err(err) ==> r == Err::<(u128, PresentationURI), Error>(err)
        },
{
}

/// Options without a session are those of the stream or the presentation that the URI is for, from
/// the media factory that serves it.
pub proof fn law_options_of_uri<V>(
    start: OptionsUri,
    found: Result<(u128, PresentationURI, ExtraData<V>), Error>,
    before: ExtraMap<V>,
    after: ExtraMap<V>,
    r: Result<(u128, Option<StreamId>), Error>,
)
    requires
        start.leads_to(found, before, after, r),
    ensures
        found matches Err(err) ==> r == Err::<(u128, Option<StreamId>), Error>(err),
        found matches Ok((media_factory_id, uri, data)) ==> {
            let stream = stream_of_uri(uri@, start.uri@);
            &&& r is Ok <==> stream is Ok
            &&& r matches Ok((id, stream_id)) ==> id == media_factory_id && stream == Ok::<
                Option<Seq<char>>,
                Error,
            >(opt_stream_view(stream_id))
            &&& stream matches Err(err) ==> r == Err::<(u128, Option<StreamId>), Error>(err)
        },
{
}

/// Options in a session are those of the stream or the presentation that the URI is for, from the
/// media of the session. The session has to be one of the presentation and of the media factory
/// that serve the URI, or there is none.
pub proof fn law_options_of_session<V>(
    start: OptionsSession,
    found: Result<(u128, PresentationURI), Error>,
    a: Result<OptionsSessionLookup, Error>,
    session: Result<(u128, PresentationURI), Error>,
    b: Result<OptionsMediaFactoryLookup, Error>,
    factory: Result<u128, Error>,
    mount_data: ExtraMap<V>,
    before: ExtraMap<V>,
    after: ExtraMap<V>,
    r: Result<(u128, Option<StreamId>), Error>,
)
    requires
        start.leads_to(found, a),
        a matches Ok(next) ==> next.leads_to(session, b),
        a matches Ok(_) ==> (b matches Ok(next) ==> next.leads_to(
            factory,
            mount_data,
            before,
            after,
            r,
        )),
    ensures
        ({
            let not_found = Error::spec_status(StatusCode::SessionNotFound);
            &&& a is Ok <==> found is Ok
            &&& found matches Err(err) ==> a == Err::<OptionsSessionLookup, Error>(err)
            &&& found matches Ok((media_factory_id, uri)) ==> {
                &&& b is Ok <==> session is Ok && (session->Ok_0).1@.text == uri@.text
                &&& b matches Err(err) ==> err == match session {
                    Ok(_) => not_found,
                    Err(e) => e,
                }
                &&& b is Ok ==> {
                    let stream = stream_of_uri(uri@, start.uri@);
                    &&& r is Ok <==> factory == Ok::<u128, Error>(media_factory_id) && stream is Ok
                    &&& r matches Err(err) ==> err == match factory {
                        Err(e) => e,
                        Ok(id) => if id == media_factory_id {
                            stream->Err_0
                        } else {
                            not_found
                        },
                    }
                    &&& r matches Ok((media_id, stream_id)) ==> {
                        &&& media_id == (session->Ok_0).0
                        &&& stream == Ok::<Option<Seq<char>>, Error>(opt_stream_view(stream_id))
                        &&& after.dom().contains(SESSION_ID)
                        &&& after[SESSION_ID] == Extra::<V>::SessionId(start.session_id)
                        &&& after.dom().contains(PRESENTATION_URI)
                        &&& (after[PRESENTATION_URI] matches Extra::PresentationURI(at) && at@
                            == uri@)
                    }
                }
            }
        }),
{
}

/// Whoever is asked is told the session and the presentation that a request is for, even if a mount
/// says something else of them. What a mount adds counts more than what was there before, and what
/// nobody touches stays.
pub proof fn law_extra_data_tells_session<V>(
    extra_data: ExtraMap<V>,
    mount_data: ExtraMap<V>,
    target: Target,
    setup: SetupTarget,
    presentation_uri: PresentationURI,
    key: u64,
)
    ensures
        ({
            let told = session_extra_data(extra_data, target);
            &&& told.dom().contains(SESSION_ID)
            &&& told[SESSION_ID] == Extra::<V>::SessionId(target.session_id)
            &&& told.dom().contains(PRESENTATION_URI)
            &&& told[PRESENTATION_URI] == Extra::<V>::PresentationURI(target.presentation_uri)
            &&& key != SESSION_ID && key != PRESENTATION_URI ==> (told.dom().contains(key)
                <==> extra_data.dom().contains(key)) && (extra_data.dom().contains(key)
                ==> told[key] == extra_data[key])
        }),
        ({
            let told = setup_extra_data(extra_data, setup);
            &&& told.dom().contains(SESSION_ID)
            &&& told[SESSION_ID] == Extra::<V>::SessionId(setup.session_id)
            &&& told.dom().contains(PRESENTATION_URI)
            &&& told[PRESENTATION_URI] == Extra::<V>::PresentationURI(setup.presentation_uri)
            &&& key != SESSION_ID && key != PRESENTATION_URI ==> (told.dom().contains(key)
                <==> extra_data.dom().contains(key)) && (extra_data.dom().contains(key)
                ==> told[key] == extra_data[key])
        }),
        ({
            let told = mount_extra_data(extra_data, mount_data, presentation_uri);
            &&& told.dom().contains(PRESENTATION_URI)
            &&& told[PRESENTATION_URI] == Extra::<V>::PresentationURI(presentation_uri)
            &&& key != PRESENTATION_URI && mount_data.dom().contains(key) ==> told.dom().contains(
                key,
            ) && told[key] == mount_data[key]
            &&& key != PRESENTATION_URI && !mount_data.dom().contains(key) ==> (told.dom().contains(
                key,
            ) <==> extra_data.dom().contains(key)) && (extra_data.dom().contains(key) ==> told[key]
                == extra_data[key])
        }),
{
}

/// The error of whoever was asked is the outcome of a request. Only a failed SETUP request is
/// answered all the same, with the status of the error and the session.
pub proof fn law_errors_are_passed_on<V>(
    version: Version,
    session_id: Seq<char>,
    target: Target,
    presentation_uri: PresentationURI,
    required: Seq<Seq<char>>,
    err: Error,
    r: Result<Response, Error>,
    response: Response,
)
    ensures
        play_finished::<V>(version, session_id, Err(err), r) <==> r == Err::<Response, Error>(err),
        pause_finished::<V>(version, session_id, Err(err), r) <==> r == Err::<Response, Error>(err),
        describe_finished::<V>(version, presentation_uri@, Err(err), r) <==> r == Err::<
            Response,
            Error,
        >(err),
        options_finished::<V>(version, required, Err(err), r) <==> r == Err::<Response, Error>(err),
        teardown_finished(version, target, Err(err), r) <==> r == Err::<Response, Error>(err),
        setup_finished::<V>(version, session_id, Err(err), response) ==> response@.status
            == err.spec_status_code() && response@.version == version && header_value(
            response@.headers,
            "Session"@,
        ) == Some(session_id),
{
    lemma_header_names();
}

/// What was carried out is answered. Only what is played may fail to be told of.
pub proof fn law_success_is_answered<V>(
    version: Version,
    session_id: Seq<char>,
    target: Target,
    required: Seq<Seq<char>>,
    pause: PauseReply<V>,
    options: OptionsReply<V>,
    play: PlayReply<V>,
    setup: SetupReply<V>,
    presentation_uri: PresentationURI,
    description: SessionDescription,
    data: ExtraData<V>,
    r: Result<Response, Error>,
    response: Response,
)
    ensures
        setup_finished(version, session_id, Ok(setup), response) ==> response@ == setup_response(
            version,
            session_id,
            setup,
        ) && response@.status == StatusCode::Success,
        play_finished(version, session_id, Ok(play), r) ==> match r {
            Ok(response) => play_response(version, session_id, play) == Ok::<ResponseView, Error>(
                response@,
            ),
            Err(err) => play_response(version, session_id, play) == Err::<ResponseView, Error>(err),
        },
        describe_finished(version, presentation_uri@, Ok((description, data)), r) ==> r is Ok && (
        r->Ok_0)@.body == sdp_text(description) && (r->Ok_0)@.status == StatusCode::Success,
        pause_finished(version, session_id, Ok(pause), r) ==> r is Ok && (r->Ok_0)@
            == pause_response(version, session_id, pause),
        options_finished(version, required, Ok(options), r) ==> r is Ok && (r->Ok_0)@
            == options_response(version, required, options),
        teardown_finished(version, target, Ok(()), r) ==> r is Ok && (r->Ok_0)@.status
            == StatusCode::Success && (header_value((r->Ok_0)@.headers, "Session"@) == Some(
            target.session_id@,
        ) <==> target.stream_id is Some),
{
    lemma_header_names();
}

/// The peer is notified of everything just if its last request was one of RTSP 2.0, and of nothing
/// before its first.
pub proof fn law_only_new_version_is_notified<V>(
    client: Client,
    request: RequestView,
    session_id: Seq<char>,
    notify: PlayNotifyMessage<V>,
    r: Option<Request>,
)
    ensures
        client.after_request(request).notifies(session_id, notify, r) ==> (r is Some
            <==> request.version == Version::V2_0),
        client.rtsp_version is None && client.notifies(session_id, notify, r) ==> r is None,
        client.notifies(session_id, notify, r) ==> (r matches Some(sent) ==> sent@
            == notify_request(session_id, notify)),
{
}

/// The server itself supports just basic playback and RTP and RTCP on the same channel. It fails if
/// anything else is required.
pub proof fn law_server_options(options: OptionsRequest, r: Response)
    requires
        server_options_answered(options, r),
    ensures
        r@.version == options.version,
        r@.status == StatusCode::Success <==> forall|i: int|
            0 <= i < options.require@.len() ==> (#[trigger] options.require@[i])@ == "play.basic"@
                || options.require@[i]@ == "setup.rtp.rtcp.mux"@,
        r@.status == StatusCode::Success || r@.status == StatusCode::OptionNotSupported,
{
    let required = views(options.require@);
    let reply = choose|reply: OptionsReply<()>|
        {
            &&& r@ == #[trigger] options_response(options.version, required, reply)
            &&& reply.allow is None
            &&& views(reply.supported@) == client_features()
            &&& views(reply.unsupported@) == Seq::<Seq<char>>::empty()
            &&& reply.extra_data is None
        };
    law_options_succeed(options.version, required, reply);
    let features = client_features();
    assert(features[0] == "play.basic"@ && features[1] == "setup.rtp.rtcp.mux"@);
    assert(views(reply.unsupported@).len() == 0);
    assert forall|i: int| 0 <= i < required.len() implies (features.contains(#[trigger] required[i])
        <==> options.require@[i]@ == "play.basic"@ || options.require@[i]@
        == "setup.rtp.rtcp.mux"@) by {
        assert(required[i] == options.require@[i]@);
        if features.contains(required[i]) {
            let k = choose|k: int| 0 <= k < features.len() && features[k] == required[i];
            assert(k == 0 || k == 1);
        }
    }
    if r@.status == StatusCode::Success {
        assert forall|i: int| 0 <= i < options.require@.len() implies (
        #[trigger] options.require@[i])@ == "play.basic"@ || options.require@[i]@
            == "setup.rtp.rtcp.mux"@ by {
            assert(features.contains(required[i]));
        }
    }
}

/// A request for parameters is answered with success just if it has no body, or none that begins,
/// and gives back its session.
pub proof fn law_parameters_are_answered(request: RequestView, r: Result<Response, Error>)
    requires
        parameter_answered(request, r),
    ensures
        r is Ok <==> request.body.len() == 0 || request.body[0] == 0,
        r matches Err(err) ==> err == Error::spec_status(StatusCode::ParameterNotUnderstood),
        r matches Ok(response) ==> response@.status == StatusCode::Success && response@.version
            == request.version && header_value(response@.headers, "Session"@) == header_value(
            request.headers,
            "Session"@,
        ),
{
    lemma_header_names();
}

} // verus!
