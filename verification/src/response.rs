//! The reply envelope delivered to a requester: exactly one of a data
//! payload or an error payload, never both and never neither.
use vstd::prelude::*;

use crate::Error;

verus! {

/// A tagged `{data | error}` response. Clients treat an error payload as
/// authoritative and ignore `data`.
pub struct Response<T> {
    pub data: Option<T>,
    pub error: Option<Error>,
}

impl<T> Response<T> {
    /// The two payloads are mutually exclusive.
    pub open spec fn wf(self) -> bool {
        (self.data is Some) <==> (self.error is None)
    }

    pub fn from_data(data: T) -> (r: Self)
        ensures
            r.data == Some(data),
            r.error is None,
            r.wf(),
    {
        Response { data: Some(data), error: None }
    }

    pub fn from_error(error: Error) -> (r: Self)
        ensures
            r.data is None,
            r.error == Some(error),
            r.wf(),
    {
        Response { data: None, error: Some(error) }
    }
}

} // verus!
