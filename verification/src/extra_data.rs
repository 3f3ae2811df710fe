//! Extra data that travels along with requests.

use std::sync::Arc;

use vstd::prelude::*;

use crate::headers::ExtraHeaders;
use crate::message::Request;
use crate::server::mounts::PresentationURI;
use crate::typemap::TypeMap;

verus! {

/// The type of the information about the connection of a client.
pub const CONNECTION_INFORMATION: u64 = 0;

/// The type of the request that something is done for.
pub const ORIGINAL_REQUEST: u64 = 1;

/// The type of the presentation URI.
pub const PRESENTATION_URI: u64 = 2;

/// The type of the session identifier.
pub const SESSION_ID: u64 = 3;

/// The type of the headers that are to be added to a message.
pub const EXTRA_HEADERS: u64 = 4;

/// The first number that is free for the types of applications.
pub const FIRST_APPLICATION_TYPE: u64 = 16;

/// A value in the extra data.
pub enum Extra<V> {
    OriginalRequest(Arc<Request>),
    PresentationURI(PresentationURI),
    SessionId(String),
    ExtraHeaders(ExtraHeaders),
    /// The value of any other type.
    Application(V),
}

/// Extra data.
pub type ExtraData<V> = TypeMap<Extra<V>>;

/// What is in extra data.
pub type ExtraMap<V> = Map<u64, Extra<V>>;

/// The headers in the extra data that are to be added to a message.
pub open spec fn extra_headers_in<V>(extra_data: ExtraMap<V>) -> Seq<(String, String)> {
    if extra_data.dom().contains(EXTRA_HEADERS) {
        match extra_data[EXTRA_HEADERS] {
            Extra::ExtraHeaders(headers) => headers@,
            _ => Seq::empty(),
        }
    } else {
        Seq::empty()
    }
}

/// The headers in the extra data that are to be added to a message.
pub fn extra_headers<V>(extra_data: &ExtraData<V>) -> (r: Option<&ExtraHeaders>)
    ensures
        match r {
            Some(headers) => headers@ == extra_headers_in(extra_data@),
            None => extra_headers_in(extra_data@) == Seq::<(String, String)>::empty(),
        },
{
    match extra_data.get(EXTRA_HEADERS) {
        Some(Extra::ExtraHeaders(headers)) => Some(headers),
        _ => None,
    }
}

/// The extra data that a client starts with.
pub open spec fn starting_data<V>(connection_information: V) -> ExtraMap<V> {
    Map::empty().insert(CONNECTION_INFORMATION, Extra::Application(connection_information))
}

/// The extra data that a client starts with for a request.
pub open spec fn request_data<V>(connection_information: V, request: Arc<Request>) -> ExtraMap<V> {
    starting_data(connection_information).insert(ORIGINAL_REQUEST, Extra::OriginalRequest(request))
}

/// A client always tells of its connection, and of the request that something is done for if there
/// is one. At first it tells nothing else.
pub proof fn law_client_tells_connection_and_request<V>(
    connection_information: V,
    request: Arc<Request>,
    key: u64,
)
    ensures
        ({
            let data = starting_data(connection_information);
            &&& data.dom().contains(key) <==> key == CONNECTION_INFORMATION
            &&& data[CONNECTION_INFORMATION] == Extra::Application(connection_information)
        }),
        ({
            let data = request_data(connection_information, request);
            &&& data.dom().contains(key) <==> key == CONNECTION_INFORMATION || key
                == ORIGINAL_REQUEST
            &&& data[CONNECTION_INFORMATION] == Extra::Application(connection_information)
            &&& data[ORIGINAL_REQUEST] == Extra::<V>::OriginalRequest(request)
        }),
{
}

/// Headers that are put into extra data are those that are added, whatever else is put there, and
/// none are if none were put there.
pub proof fn law_extra_headers_are_kept<V>(
    extra_data: ExtraMap<V>,
    headers: ExtraHeaders,
    key: u64,
    extra: Extra<V>,
)
    ensures
        extra_headers_in(extra_data.insert(EXTRA_HEADERS, Extra::ExtraHeaders(headers)))
            == headers@,
        key != EXTRA_HEADERS ==> extra_headers_in(extra_data.insert(key, extra))
            == extra_headers_in(extra_data),
        extra_headers_in(extra_data.remove(EXTRA_HEADERS)).len() == 0,
{
}

/// The extra data that a client starts with.
pub fn default_extra_data<V>(connection_information: V) -> (r: ExtraData<V>)
    ensures
        r@ == starting_data(connection_information),
{
    let mut extra_data = TypeMap::new();
    extra_data.insert(CONNECTION_INFORMATION, Extra::Application(connection_information));
    extra_data
}

/// The extra data that a client starts with for a request.
pub fn default_extra_data_for_request<V>(connection_information: V, request: Arc<Request>) -> (r:
    ExtraData<V>)
    ensures
        r@ == request_data(connection_information, request),
{
    let mut extra_data = default_extra_data(connection_information);
    extra_data.insert(ORIGINAL_REQUEST, Extra::OriginalRequest(request));
    extra_data
}

} // verus!
