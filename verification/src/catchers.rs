//! The responses returned when a request falls through to a status
//! catcher instead of a handler.
use crate::base::{ApiResult, Error, SimpleError};
use vstd::prelude::*;

verus! {

pub fn unauthorized() -> (r: ApiResult<()>)
    ensures
        (match r {
            Ok(_) => false,
            Err(e) => match e {
                Error::Unauthorized(se) => se.msg@ == "Unauthorised"@,
                _ => false,
            },
        }),
{
    Err(Error::Unauthorized(SimpleError { msg: "Unauthorised".to_owned() }))
}

pub fn internal_server() -> (r: ApiResult<()>)
    ensures
        (match r {
            Ok(_) => false,
            Err(e) => e is Internal,
        }),
{
    Err(Error::Internal)
}

pub fn notfound() -> (r: ApiResult<()>)
    ensures
        (match r {
            Ok(_) => false,
            Err(e) => match e {
                Error::Logical(se) => se.msg@ == "Not Found"@,
                _ => false,
            },
        }),
{
    Err(Error::Logical(SimpleError { msg: "Not Found".to_owned() }))
}

} // verus!
