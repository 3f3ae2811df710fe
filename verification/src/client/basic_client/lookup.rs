//! Finding the session, the media and the stream that a request is for.

use vstd::prelude::*;

use crate::error::{Error, StatusCode};
use crate::media::stream::{
    extract_stream_id_from_uri, opt_stream_view, stream_of_uri, StreamId,
};
use crate::server::mounts::PresentationURI;
use crate::url::{Url, UrlView};

verus! {

/// What is known of a session when it was found: its media and its presentation URI.
pub type SessionReply = Result<(u128, PresentationURI), Error>;

/// The first stage: the session has to be found.
pub struct SessionLookup {
    pub uri: Url,
    pub session_id: String,
}

/// The second stage: the media has to be asked for its media factory.
pub struct MediaFactoryLookup {
    pub uri: Url,
    pub session_id: String,
    pub media_id: u128,
    pub session_uri: PresentationURI,
}

/// The third stage: the media factory that serves the URI has to be found.
pub struct UriLookup {
    pub uri: Url,
    pub session_id: String,
    pub media_id: u128,
    pub session_uri: PresentationURI,
    pub session_media_factory_id: u128,
}

/// What a request is for.
pub struct Target {
    pub session_id: String,
    pub media_id: u128,
    pub presentation_uri: PresentationURI,
    /// The stream, or nothing for the whole presentation.
    pub stream_id: Option<StreamId>,
}

/// The stream that a URI is for, if it belongs to a session: both have to have the same media
/// factory and the same presentation URI.
pub open spec fn target_stream(
    uri: UrlView,
    session_media_factory_id: u128,
    session_uri: UrlView,
    media_factory_id: u128,
    presentation_uri: UrlView,
) -> Result<Option<Seq<char>>, Error> {
    if session_media_factory_id != media_factory_id || session_uri.text != presentation_uri.text {
        Err(Error::spec_status(StatusCode::NotFound))
    } else {
        stream_of_uri(presentation_uri, uri)
    }
}

impl SessionLookup {
    /// Whether what is known of the session leads to `r`.
    pub open spec fn leads_to(
        self,
        reply: SessionReply,
        r: Result<MediaFactoryLookup, Error>,
    ) -> bool {
        match reply {
            Ok((media_id, session_uri)) => r matches Ok(next) && next == (MediaFactoryLookup {
                uri: self.uri,
                session_id: self.session_id,
                media_id,
                session_uri,
            }),
            Err(err) => r matches Err(e) && e == err,
        }
    }

    /// The session was found, or not.
    pub fn session_found(self, reply: SessionReply) -> (r: Result<MediaFactoryLookup, Error>)
        ensures
            self.leads_to(reply, r),
    {
        match reply {
            Ok((media_id, session_uri)) => Ok(
                MediaFactoryLookup {
                    uri: self.uri,
                    session_id: self.session_id,
                    media_id,
                    session_uri,
                },
            ),
            Err(err) => Err(err),
        }
    }
}

impl MediaFactoryLookup {
    /// Whether what the media tells leads to `r`.
    pub open spec fn leads_to(
        self,
        reply: Result<u128, Error>,
        r: Result<UriLookup, Error>,
    ) -> bool {
        match reply {
            Ok(session_media_factory_id) => r matches Ok(next) && next == (UriLookup {
                uri: self.uri,
                session_id: self.session_id,
                media_id: self.media_id,
                session_uri: self.session_uri,
                session_media_factory_id,
            }),
            Err(err) => r matches Err(e) && e == err,
        }
    }

    /// The media has told its media factory, or failed to.
    pub fn media_factory_found(self, reply: Result<u128, Error>) -> (r: Result<UriLookup, Error>)
        ensures
            self.leads_to(reply, r),
    {
        match reply {
            Ok(session_media_factory_id) => Ok(
                UriLookup {
                    uri: self.uri,
                    session_id: self.session_id,
                    media_id: self.media_id,
                    session_uri: self.session_uri,
                    session_media_factory_id,
                },
            ),
            Err(err) => Err(err),
        }
    }
}

impl UriLookup {
    /// Whether what is known of the URI leads to `r`.
    pub open spec fn leads_to(
        self,
        reply: Result<(u128, PresentationURI), Error>,
        r: Result<Target, Error>,
    ) -> bool {
        match reply {
            Ok((media_factory_id, presentation_uri)) => match target_stream(
                self.uri@,
                self.session_media_factory_id,
                self.session_uri@,
                media_factory_id,
                presentation_uri@,
            ) {
                Ok(stream) => {
                    &&& r matches Ok(target)
                    &&& target.session_id == self.session_id
                    &&& target.media_id == self.media_id
                    &&& target.presentation_uri == presentation_uri
                    &&& opt_stream_view(target.stream_id) == stream
                    &&& target.stream_id matches Some(id) ==> id.wf()
                },
                Err(err) => r matches Err(e) && e == err,
            },
            Err(err) => r matches Err(e) && e == err,
        }
    }

    /// The media factory that serves the URI was found with its presentation URI, or not.
    pub fn uri_found(self, reply: Result<(u128, PresentationURI), Error>) -> (r: Result<
        Target,
        Error,
    >)
        ensures
            self.leads_to(reply, r),
    {
        let (media_factory_id, presentation_uri) = match reply {
            Ok(found) => found,
            Err(err) => return Err(err),
        };
        if self.session_media_factory_id != media_factory_id || !self.session_uri.same(
            &presentation_uri,
        ) {
            return Err(Error::status(StatusCode::NotFound));
        }
        match extract_stream_id_from_uri(&presentation_uri, &self.uri) {
            Ok(stream_id) => Ok(
                Target {
                    session_id: self.session_id,
                    media_id: self.media_id,
                    presentation_uri,
                    stream_id,
                },
            ),
            Err(err) => Err(err),
        }
    }
}

} // verus!
