//! The server's response envelope and error type, the room-change event
//! that the broadcast hub carries, and the process-wide status mailbox
//! handles.
use crate::models::Message;
use vstd::prelude::*;

verus! {

/// A typed error message, serialized to the client as `{msg}`.
#[derive(Debug)]
pub struct SimpleError {
    pub msg: String,
}

/// A handler's failure: a logical error with a message, an authorization
/// failure, or an internal fault.
#[derive(Debug)]
pub enum Error {
    Logical(SimpleError),
    Unauthorized(SimpleError),
    Internal,
}

impl Error {
    pub fn logical(msg: &str) -> (r: Error)
        ensures
            (match r {
                Error::Logical(se) => se.msg@ == msg@,
                _ => false,
            }),
    {
        Error::Logical(SimpleError { msg: msg.to_owned() })
    }
}

/// The success envelope of every endpoint: `{data}`.
#[derive(Debug)]
pub struct BaseRes<T> {
    pub data: T,
}

pub type ApiResult<T> = Result<BaseRes<T>, Error>;

pub struct ApiResultBuilder;

impl ApiResultBuilder {
    pub fn data<T>(data: T) -> (r: ApiResult<T>)
        ensures
            (match r {
                Ok(res) => res.data == data,
                Err(_) => false,
            }),
    {
        Ok(BaseRes { data })
    }

    pub fn err<T>(msg: &str) -> (r: ApiResult<T>)
        ensures
            (match r {
                Ok(_) => false,
                Err(e) => match e {
                    Error::Logical(se) => se.msg@ == msg@,
                    _ => false,
                },
            }),
    {
        Err(Error::Logical(SimpleError { msg: msg.to_owned() }))
    }

    /// Wrap a success as data and any failure as a logical error carrying
    /// `msg`.
    pub fn from<T, E>(result: Result<T, E>, msg: &str) -> (r: ApiResult<T>)
        ensures
            (match result {
                Ok(v) => match r {
                    Ok(res) => res.data == v,
                    Err(_) => false,
                },
                Err(_) => match r {
                    Ok(_) => false,
                    Err(e) => match e {
                        Error::Logical(se) => se.msg@ == msg@,
                        _ => false,
                    },
                },
            }),
    {
        match result {
            Ok(res) => ApiResultBuilder::data(res),
            Err(_) => ApiResultBuilder::err(msg),
        }
    }
}

/// The event published for every successfully persisted send.
#[derive(Debug)]
pub struct RoomChange {
    pub message: Message,
}

impl Clone for RoomChange {
    fn clone(&self) -> (r: Self)
        ensures
            r == *self,
    {
        RoomChange { message: self.message.clone() }
    }
}

// ------------------------------------------------------------------
// The process-wide status mailbox (a bounded channel)
// ------------------------------------------------------------------
#[verifier::external_type_specification]
#[verifier::external_body]
#[verifier::reject_recursive_types(T)]
pub struct ExFlumeSender<T>(flume::Sender<T>);

#[verifier::external_type_specification]
#[verifier::external_body]
#[verifier::reject_recursive_types(T)]
pub struct ExFlumeReceiver<T>(flume::Receiver<T>);

/// The sending half of the status mailbox.
#[verifier::reject_recursive_types(T)]
pub struct Tx<T>(pub flume::Sender<T>);

/// The receiving half of the status mailbox.
#[verifier::reject_recursive_types(T)]
pub struct Rx<T>(pub flume::Receiver<T>);

/// Relies on flume's `Receiver::try_recv`: a value arrives only when one
/// is queued. Which value arrives depends on the channel's shared state,
/// so nothing is promised of it.
#[verifier::external_body]
pub fn mailbox_try_recv<T>(rx: &Rx<T>) -> Option<T> {
    rx.0.try_recv().ok()
}

/// Relies on flume's `Sender::try_send`: the value is queued unless the
/// channel is full or disconnected. The outcome depends on the channel's
/// shared state, so nothing is promised of it.
#[verifier::external_body]
pub fn mailbox_try_send<T>(tx: &Tx<T>, value: T) -> bool {
    tx.0.try_send(value).is_ok()
}

} // verus!
