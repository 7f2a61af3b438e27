//! The client side of the HTTP surface: its error taxonomy, the
//! classification of transport failures, the handling of the server's
//! response envelope, and the endpoint addresses. The network calls
//! themselves live outside the library and hand their outcomes in as
//! plain values.
use vstd::prelude::*;

verus! {

/// Why a networked call failed, as the client classifies it.
#[derive(Debug, PartialEq)]
pub enum Error {
    Unauthorized,
    TimedOut,
    Decoding,
    Other(String),
    Logical(String),
}

/// The banner text of an error.
pub open spec fn message_of(e: Error) -> Seq<char> {
    match e {
        Error::Unauthorized => "Unauthorized"@,
        Error::TimedOut => "Timed out"@,
        Error::Decoding => "Unable to decode"@,
        Error::Other(s) => "Unknown Error "@ + s@,
        Error::Logical(s) => s@,
    }
}

impl Error {
    /// The text shown in the error banner.
    pub fn to_message(&self) -> (r: String)
        ensures
            r@ == message_of(*self),
    {
        match self {
            Error::Unauthorized => "Unauthorized".to_owned(),
            Error::TimedOut => "Timed out".to_owned(),
            Error::Decoding => "Unable to decode".to_owned(),
            Error::Other(s) => "Unknown Error ".to_owned().concat(s.as_str()),
            Error::Logical(s) => s.clone(),
        }
    }
}

/// Classify a failed transport call from what the transport reports:
/// decode failures first, then an unauthorized status, then a timeout;
/// anything else keeps its description.
pub fn classify_transport(is_decode: bool, is_unauthorized: bool, is_timeout: bool, detail: &str) -> (r: Error)
    ensures
        is_decode ==> r is Decoding,
        !is_decode && is_unauthorized ==> r is Unauthorized,
        !is_decode && !is_unauthorized && is_timeout ==> r is TimedOut,
        !is_decode && !is_unauthorized && !is_timeout ==> (match r {
            Error::Other(s) => s@ == detail@,
            _ => false,
        }),
{
    if is_decode {
        return Error::Decoding;
    }
    if is_unauthorized {
        return Error::Unauthorized;
    }
    if is_timeout {
        return Error::TimedOut;
    }
    Error::Other(detail.to_owned())
}

/// Whether a failure must raise the process-wide unauthorized signal
/// (forcing a sign-out) instead of the error banner.
pub fn handle_unauthorized(error: &Error) -> (signal: bool)
    ensures
        signal == (error is Unauthorized),
{
    match error {
        Error::Unauthorized => true,
        _ => false,
    }
}

pub type Result<T> = core::result::Result<T, Error>;

/// The server's response envelope as the client sees it: either the data
/// or an error message.
#[derive(Debug)]
pub enum BaseRes<T> {
    Data(T),
    Error(String),
}

/// Unwrap the envelope: data passes through; a carried message becomes a
/// logical error.
pub fn handle_result<T>(res: BaseRes<T>) -> (r: Result<T>)
    ensures
        match res {
            BaseRes::Data(data) => (match r {
                Ok(v) => v == data,
                Err(_) => false,
            }),
            BaseRes::Error(m) => (match r {
                Ok(_) => false,
                Err(e) => match e {
                    Error::Logical(s) => s == m,
                    _ => false,
                },
            }),
        },
{
    match res {
        BaseRes::Data(data) => Ok(data),
        BaseRes::Error(base_error) => Err(Error::Logical(base_error)),
    }
}

/// The room list as the client receives it.
#[derive(Debug)]
pub struct GetRoomsResponse {
    pub rooms: Vec<crate::models::Room>,
}

/// The addresses of the server's endpoints.
pub struct URLs;

impl URLs {
    pub fn base() -> (r: String)
        ensures
            r@ == "http://127.0.0.1:8000"@,
    {
        String::from_str("http://127.0.0.1:8000")
    }

    pub fn register() -> (r: String)
        ensures
            r@ == "http://127.0.0.1:8000"@ + "/auth/register"@,
    {
        URLs::base().concat("/auth/register")
    }

    pub fn signin() -> (r: String)
        ensures
            r@ == "http://127.0.0.1:8000"@ + "/auth/signin"@,
    {
        URLs::base().concat("/auth/signin")
    }

    pub fn rooms() -> (r: String)
        ensures
            r@ == "http://127.0.0.1:8000"@ + "/rooms"@,
    {
        URLs::base().concat("/rooms")
    }

    pub fn messages(room_id: &str) -> (r: String)
        ensures
            r@ == "http://127.0.0.1:8000"@ + "/messages/events/"@ + room_id@,
    {
        URLs::base().concat("/messages/events/").concat(room_id)
    }

    pub fn last_messages(room_id: &str) -> (r: String)
        ensures
            r@ == "http://127.0.0.1:8000"@ + "/messages/"@ + room_id@,
    {
        URLs::base().concat("/messages/").concat(room_id)
    }

    pub fn send_messages() -> (r: String)
        ensures
            r@ == "http://127.0.0.1:8000"@ + "/messages/send"@,
    {
        URLs::base().concat("/messages/send")
    }

    pub fn whoami() -> (r: String)
        ensures
            r@ == "http://127.0.0.1:8000"@ + "/users/whoami"@,
    {
        URLs::base().concat("/users/whoami")
    }

    pub fn signout() -> (r: String)
        ensures
            r@ == "http://127.0.0.1:8000"@ + "/auth/signout"@,
    {
        URLs::base().concat("/auth/signout")
    }
}

} // verus!
