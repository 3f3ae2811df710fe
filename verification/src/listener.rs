//! Listeners for incoming connections.

use vstd::prelude::*;

use crate::typemap::TypeMap;
use crate::url::{opt_url_view, parsed_url, Url};

verus! {

/// The largest message that is read from a connection, in bytes.
pub const MAX_MESSAGE_SIZE: usize = 1_048_576;

/// Client connection information, with addresses of any kind.
///
/// This is passed through the extra data in various places.
pub struct ConnectionInformation<A, V> {
    pub local_addr: Option<A>,
    pub peer_addr: Option<A>,
    pub extra_data: TypeMap<V>,
}

impl<A, V> ConnectionInformation<A, V> {
    /// Information about a connection.
    pub fn new(local_addr: Option<A>, peer_addr: Option<A>, extra_data: TypeMap<V>) -> (r:
        ConnectionInformation<A, V>)
        ensures
            r == (ConnectionInformation { local_addr, peer_addr, extra_data }),
    {
        ConnectionInformation { local_addr, peer_addr, extra_data }
    }

    /// Return the local address the client client connected to, if known.
    pub fn local_addr(&self) -> (r: Option<&A>)
        ensures
            match r {
                Some(addr) => self.local_addr == Some(*addr),
                None => self.local_addr is None,
            },
    {
        self.local_addr.as_ref()
    }

    /// Return the peer address of the client, if known.
    pub fn peer_addr(&self) -> (r: Option<&A>)
        ensures
            match r {
                Some(addr) => self.peer_addr == Some(*addr),
                None => self.peer_addr is None,
            },
    {
        self.peer_addr.as_ref()
    }

    /// Return the extra data for this connection.
    pub fn extra_data(&self) -> (r: &TypeMap<V>)
        ensures
            *r == self.extra_data,
    {
        &self.extra_data
    }
}

/// The identifier of the listener on a TCP address: a URL, if the address can stand in one.
pub fn tcp_listener_id(addr: &str) -> (r: Option<Url>)
    ensures
        opt_url_view(r) == parsed_url("tcp://"@ + addr@),
{
    let mut text = "tcp://".to_owned();
    text.append(addr);
    Url::parse(text.as_str())
}

/// What becomes of a connection that a TCP listener accepts, or fails to.
#[derive(Clone, Copy, PartialEq, Eq, Structural, Debug)]
pub enum AcceptStep {
    /// There is a new connection.
    Connection,
    /// There is an error with this connection.
    Error,
    /// There is an error, and no further connection.
    LastError,
}

/// What becomes of a connection.
pub open spec fn spec_accept_step(accepted: bool, local_addr_known: bool) -> AcceptStep {
    if !accepted {
        AcceptStep::LastError
    } else if local_addr_known {
        AcceptStep::Connection
    } else {
        AcceptStep::Error
    }
}

/// There is a connection just if it was accepted and knows its own address. Only one that was not
/// accepted is the last.
pub proof fn law_accepted_connections(accepted: bool, local_addr_known: bool)
    ensures
        spec_accept_step(accepted, local_addr_known) == AcceptStep::Connection <==> accepted
            && local_addr_known,
        spec_accept_step(accepted, local_addr_known) == AcceptStep::LastError <==> !accepted,
{
}

/// Decides what becomes of a connection: it has to be accepted and to know its own address.
pub fn accept_step(accepted: bool, local_addr_known: bool) -> (r: AcceptStep)
    ensures
        r == spec_accept_step(accepted, local_addr_known),
{
    if !accepted {
        AcceptStep::LastError
    } else if local_addr_known {
        AcceptStep::Connection
    } else {
        AcceptStep::Error
    }
}

/// What a listener hears while it is set up or waits for connections.
#[derive(Clone, Copy, PartialEq, Eq, Structural, Debug)]
pub enum ListenerEvent {
    /// It is set up, or there is a new connection.
    Incoming,
    /// It could not be set up, or can't get connections.
    Failed,
    /// There will be no more connections.
    Ended,
    /// The server wants it to quit, or is gone.
    Quit,
    /// A connection could not be reported to the server.
    ReportFailed,
}

/// What a listener does next.
#[derive(Clone, Copy, PartialEq, Eq, Structural, Debug)]
pub enum ListenerStep {
    /// Report the connection to the server if there is one, and wait for the next.
    GoOn,
    /// Report the error to the server, and stop.
    ReportError,
    /// Stop.
    Stop,
    /// Tell the server that it has finished, and stop.
    Finish,
}

/// What a listener does.
pub open spec fn spec_listener_step(event: ListenerEvent) -> ListenerStep {
    match event {
        ListenerEvent::Incoming => ListenerStep::GoOn,
        ListenerEvent::Failed => ListenerStep::ReportError,
        ListenerEvent::Ended => ListenerStep::Stop,
        ListenerEvent::Quit => ListenerStep::Stop,
        ListenerEvent::ReportFailed => ListenerStep::Finish,
    }
}

/// A listener goes on just as long as there are connections. The server is told why it stops unless
/// it wants that itself, or there are no more connections.
pub proof fn law_listener_stops(event: ListenerEvent)
    ensures
        spec_listener_step(event) == ListenerStep::GoOn <==> event == ListenerEvent::Incoming,
        spec_listener_step(event) == ListenerStep::Stop <==> event == ListenerEvent::Ended || event
            == ListenerEvent::Quit,
        spec_listener_step(event) == ListenerStep::ReportError <==> event == ListenerEvent::Failed,
{
}

/// Decides what a listener does.
pub fn listener_step(event: ListenerEvent) -> (r: ListenerStep)
    ensures
        r == spec_listener_step(event),
{
    match event {
        ListenerEvent::Incoming => ListenerStep::GoOn,
        ListenerEvent::Failed => ListenerStep::ReportError,
        ListenerEvent::Ended => ListenerStep::Stop,
        ListenerEvent::Quit => ListenerStep::Stop,
        ListenerEvent::ReportFailed => ListenerStep::Finish,
    }
}

} // verus!
