//! Status codes and the errors that carry them.

use vstd::prelude::*;

verus! {

/// Status code of a response.
///
/// The codes that the server gives itself have a name; any other is given by its number.
#[derive(Clone, Copy, PartialEq, Eq, Structural, Debug)]
pub enum StatusCode {
    /// 100: the request is still being worked on.
    Continue,
    /// 200: the request was carried out.
    Success,
    /// 400: the request is malformed.
    BadRequest,
    /// 404: nothing is known under the requested URI.
    NotFound,
    /// 405: the method can't be used on the requested URI.
    MethodNotAllowed,
    /// 406: no acceptable representation exists.
    NotAcceptable,
    /// 451: the parameters of the request are not understood.
    ParameterNotUnderstood,
    /// 454: the session does not exist.
    SessionNotFound,
    /// 461: no requested transport can be provided.
    UnsupportedTransport,
    /// 500: the server failed.
    InternalServerError,
    /// 551: a required feature is not supported.
    OptionNotSupported,
    /// Any other code.
    Extension(u16),
}

/// The default reason phrase of a status code.
pub uninterp spec fn reason_phrase_text(code: u16) -> Seq<char>;

/// The default reason phrase of a status code, as `rtsp_types::StatusCode` displays it.
///
/// The phrases themselves are not written out: the result is the named phrase of the number.
#[verifier::external_body]
pub(crate) fn reason_phrase(code: u16) -> (r: String)
    ensures
        r@ == reason_phrase_text(code),
{
    rtsp_types::StatusCode::from(code).to_string()
}

impl StatusCode {
    /// The number of a code.
    pub open spec fn spec_code(self) -> u16 {
        match self {
            StatusCode::Continue => 100,
            StatusCode::Success => 200,
            StatusCode::BadRequest => 400,
            StatusCode::NotFound => 404,
            StatusCode::MethodNotAllowed => 405,
            StatusCode::NotAcceptable => 406,
            StatusCode::ParameterNotUnderstood => 451,
            StatusCode::SessionNotFound => 454,
            StatusCode::UnsupportedTransport => 461,
            StatusCode::InternalServerError => 500,
            StatusCode::OptionNotSupported => 551,
            StatusCode::Extension(code) => code,
        }
    }

    /// The codes by which the client is at fault.
    pub open spec fn spec_is_client_error(self) -> bool {
        400 <= self.spec_code() < 500
    }

    /// The codes by which the server is at fault.
    pub open spec fn spec_is_server_error(self) -> bool {
        500 <= self.spec_code() < 600
    }

    /// The number of this code.
    pub fn code(self) -> (r: u16)
        ensures
            r == self.spec_code(),
    {
        match self {
            StatusCode::Continue => 100,
            StatusCode::Success => 200,
            StatusCode::BadRequest => 400,
            StatusCode::NotFound => 404,
            StatusCode::MethodNotAllowed => 405,
            StatusCode::NotAcceptable => 406,
            StatusCode::ParameterNotUnderstood => 451,
            StatusCode::SessionNotFound => 454,
            StatusCode::UnsupportedTransport => 461,
            StatusCode::InternalServerError => 500,
            StatusCode::OptionNotSupported => 551,
            StatusCode::Extension(code) => code,
        }
    }

    /// The code with the given number, by its name if it has one.
    pub fn from_code(code: u16) -> (r: StatusCode)
        ensures
            r.spec_code() == code,
            r matches StatusCode::Extension(_) ==> forall|s: StatusCode|
                s !is Extension ==> #[trigger] s.spec_code() != code,
    {
        match code {
            100 => StatusCode::Continue,
            200 => StatusCode::Success,
            400 => StatusCode::BadRequest,
            404 => StatusCode::NotFound,
            405 => StatusCode::MethodNotAllowed,
            406 => StatusCode::NotAcceptable,
            451 => StatusCode::ParameterNotUnderstood,
            454 => StatusCode::SessionNotFound,
            461 => StatusCode::UnsupportedTransport,
            500 => StatusCode::InternalServerError,
            551 => StatusCode::OptionNotSupported,
            _ => StatusCode::Extension(code),
        }
    }

    /// Whether this code means that the client is at fault.
    pub fn is_client_error(self) -> (r: bool)
        ensures
            r == self.spec_is_client_error(),
    {
        let code: u16 = self.code();
        400 <= code && code < 500
    }

    /// Whether this code means that the server is at fault.
    pub fn is_server_error(self) -> (r: bool)
        ensures
            r == self.spec_is_server_error(),
    {
        let code: u16 = self.code();
        500 <= code && code < 600
    }

    /// The default reason phrase of this code.
    pub fn text(self) -> (r: String)
        ensures
            r@ == reason_phrase_text(self.spec_code()),
    {
        reason_phrase(self.code())
    }
}

/// The server failed for a reason of its own.
#[derive(Clone, Copy, PartialEq, Eq, Structural, Debug)]
pub struct InternalServerError;

impl InternalServerError {
    /// The status code that this error is answered with.
    pub fn status_code(&self) -> (r: StatusCode)
        ensures
            r == StatusCode::InternalServerError,
    {
        StatusCode::InternalServerError
    }

    /// A description of this error.
    pub fn text(&self) -> (r: String)
        ensures
            r@ == "Internal server error"@,
    {
        "Internal server error".to_owned()
    }
}

/// An error that is nothing but a status code.
///
/// The code always means that the client or the server is at fault.
#[derive(Clone, Copy, PartialEq, Eq, Structural, Debug)]
pub struct ErrorStatus {
    pub code: StatusCode,
}

impl ErrorStatus {
    /// Whether the code is one that an error may carry.
    pub open spec fn wf(self) -> bool {
        self.code.spec_is_client_error() || self.code.spec_is_server_error()
    }

    /// The error for `code`, which has to be an error code.
    pub fn new(code: StatusCode) -> (r: ErrorStatus)
        requires
            code.spec_is_client_error() || code.spec_is_server_error(),
        ensures
            r.code == code,
            r.wf(),
    {
        ErrorStatus { code }
    }

    /// The status code that this error is answered with.
    pub fn status_code(&self) -> (r: StatusCode)
        ensures
            r == self.code,
    {
        self.code
    }

    /// A description of this error: the default reason phrase of its code.
    pub fn text(&self) -> (r: String)
        ensures
            r@ == reason_phrase_text(self.code.spec_code()),
    {
        self.code.text()
    }
}

/// Any error of the server.
///
/// All that the server does with an error is to answer with its status code.
#[derive(Clone, Copy, PartialEq, Eq, Structural, Debug)]
pub enum Error {
    /// The server failed for a reason of its own.
    InternalServerError(InternalServerError),
    /// An error that is nothing but a status code.
    Status(ErrorStatus),
    /// Reading or writing failed.
    Io,
    /// An error of an application, with the status code it chose.
    Application(StatusCode),
}

impl Error {
    /// The status code that an error is answered with.
    pub open spec fn spec_status_code(self) -> StatusCode {
        match self {
            Error::InternalServerError(_) => StatusCode::InternalServerError,
            Error::Status(status) => status.code,
            Error::Io => StatusCode::InternalServerError,
            Error::Application(code) => code,
        }
    }

    /// The status code that this error is answered with.
    pub fn status_code(&self) -> (r: StatusCode)
        ensures
            r == self.spec_status_code(),
    {
        match *self {
            Error::InternalServerError(e) => e.status_code(),
            Error::Status(status) => status.status_code(),
            Error::Io => StatusCode::InternalServerError,
            Error::Application(code) => code,
        }
    }

    /// The error for a failure of the server itself.
    pub open spec fn spec_internal() -> Error {
        Error::InternalServerError(InternalServerError)
    }

    /// The error that answers with `code`.
    pub open spec fn spec_status(code: StatusCode) -> Error {
        Error::Status(ErrorStatus { code })
    }

    /// The error for a failure of the server itself.
    pub fn internal() -> (r: Error)
        ensures
            r == Error::spec_internal(),
    {
        Error::InternalServerError(InternalServerError)
    }

    /// The error that answers with `code`, which has to be an error code.
    pub fn status(code: StatusCode) -> (r: Error)
        requires
            code.spec_is_client_error() || code.spec_is_server_error(),
        ensures
            r == Error::spec_status(code),
    {
        Error::Status(ErrorStatus::new(code))
    }
}

/// An error is answered with the status that it was made for. Failures of the server itself, and of
/// reading and writing, are answered as such.
pub proof fn law_errors_have_their_status(code: StatusCode)
    ensures
        Error::spec_status(code).spec_status_code() == code,
        Error::Application(code).spec_status_code() == code,
        Error::spec_internal().spec_status_code() == StatusCode::InternalServerError,
        Error::Io.spec_status_code() == StatusCode::InternalServerError,
{
}

/// Every code with a name has a number of its own. The number tells who is at fault: by hundreds,
/// four stands for the client and five for the server.
pub proof fn law_status_numbers(a: StatusCode, b: StatusCode)
    ensures
        a !is Extension && b !is Extension && a.spec_code() == b.spec_code() ==> a == b,
        a.spec_is_client_error() <==> a.spec_code() / 100 == 4,
        a.spec_is_server_error() <==> a.spec_code() / 100 == 5,
        StatusCode::Continue.spec_code() / 100 == 1,
        StatusCode::Success.spec_code() / 100 == 2,
        StatusCode::BadRequest.spec_is_client_error(),
        StatusCode::NotFound.spec_is_client_error(),
        StatusCode::MethodNotAllowed.spec_is_client_error(),
        StatusCode::NotAcceptable.spec_is_client_error(),
        StatusCode::ParameterNotUnderstood.spec_is_client_error(),
        StatusCode::SessionNotFound.spec_is_client_error(),
        StatusCode::UnsupportedTransport.spec_is_client_error(),
        StatusCode::InternalServerError.spec_is_server_error(),
        StatusCode::OptionNotSupported.spec_is_server_error(),
{
}

} // verus!
