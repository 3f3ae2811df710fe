//! What holds of a media across messages.

use vstd::prelude::*;

use super::context::MediaView;
use super::stream::{is_stream_id, stream_of_uri};
use crate::error::{Error, StatusCode};
use crate::text::{lemma_first_index_bounds, split};
use crate::url::{needs_dot, UrlView};
use crate::url_laws::law_relative_to_directory;

verus! {

/// A client can ask for things in a session from when it is made its client until the session is
/// over or gets another client. Then it is refused.
pub proof fn law_only_session_client_is_served(
    media: MediaView,
    id: Seq<char>,
    client_id: u128,
    new_client_id: Option<u128>,
)
    requires
        new_client_id != Some(client_id),
    ensures
        ({
            let during = media.client_changed(id, Some(client_id)).0;
            let replaced = during.client_changed(id, new_client_id).0;
            let over = during.session_ended(id).0;
            &&& during.is_client_in_session(client_id, id) == Ok::<(), Error>(())
            &&& replaced.is_client_in_session(client_id, id) == Err::<(), Error>(
                Error::spec_internal(),
            )
            &&& over.is_client_in_session(client_id, id) == Err::<(), Error>(
                Error::spec_status(StatusCode::SessionNotFound),
            )
        }),
{
}

/// A media that is idle depending on its sessions wakes up with its first session and tells so
/// once. It counts as idle again as soon as any session is over, even if another one goes on.
pub proof fn law_automatic_idle(
    media: MediaView,
    id: Seq<char>,
    client_id: Option<u128>,
    other: Seq<char>,
    other_client_id: Option<u128>,
)
    requires
        media.automatic_idle,
        media.idle,
        !media.sessions.dom().contains(id),
    ensures
        ({
            let (first, first_change) = media.client_changed(id, client_id);
            let (second, second_change) = first.client_changed(other, other_client_id);
            let (over, end) = second.session_ended(id);
            &&& first_change.not_idle && !first.idle
            &&& !second_change.not_idle && !second.idle
            &&& end.idle && over.idle
            &&& other != id ==> over.sessions.dom().contains(other)
        }),
{
}

/// A media that is idle when it says so itself is never made idle, or woken up, by its sessions.
pub proof fn law_manual_idle(media: MediaView, id: Seq<char>, client_id: Option<u128>)
    requires
        !media.automatic_idle,
    ensures
        media.client_changed(id, client_id).0.idle == media.idle,
        !media.client_changed(id, client_id).1.not_idle,
        media.session_ended(id).0.idle == media.idle,
        !media.session_ended(id).1.idle,
{
}

/// A URI below a presentation is for the stream that is named by the rest of its path, unless that
/// starts with a slash or with something that looks like a scheme. The URI of the presentation,
/// with its last slash or without it, is for no stream.
pub proof fn law_stream_below_presentation(presentation_uri: UrlView, uri: UrlView, rest: Seq<char>)
    requires
        !presentation_uri.cannot_be_a_base,
        presentation_uri.same_origin(uri),
        presentation_uri.path.len() > 0,
        presentation_uri.path.last() == '/',
        uri.query is None,
        uri.fragment is None,
    ensures
        uri.path == presentation_uri.path + rest && !needs_dot(split(rest, '/')[0]) && is_stream_id(
            rest,
        ) ==> stream_of_uri(presentation_uri, uri) == Ok::<
            Option<Seq<char>>,
            Error,
        >(Some(rest)),
        uri.path == presentation_uri.path || uri.path.push('/') == presentation_uri.path
            ==> stream_of_uri(presentation_uri, uri) == Ok::<Option<Seq<char>>, Error>(None),
{
    let directory = presentation_uri.path.drop_last();
    assert(directory.push('/') =~= presentation_uri.path);
    if uri.path == presentation_uri.path + rest && !needs_dot(split(rest, '/')[0]) {
        law_relative_to_directory(directory, rest);
        lemma_first_index_bounds(rest, '/');
        assert(rest.len() > 0) by {
            if rest.len() == 0 {
                assert(split(rest, '/')[0].len() == 0);
            }
        }
        assert(uri.path.len() > presentation_uri.path.len());
        assert(uri.path.push('/').len() != presentation_uri.path.len());
    }
}

} // verus!
