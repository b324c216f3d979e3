//! Client core for a live-room danmaku (real-time comment) stream: the framed
//! binary packet codec with its zlib container variant, the session heartbeat
//! schedule, the failover supervisor with its debounce rule, and the fan-out
//! distributor that broadcasts decoded packets to subscribers.
use vstd::prelude::*;

mod error;
pub mod live;

pub use error::{Error, Result};

verus! {

/// API response envelope: `code == 0` means success and `data` carries the
/// payload; any other code is an upstream rejection explained by one of the
/// two message fields.
#[derive(Clone, Debug)]
pub struct ApiResponse<T> {
    code: i64,
    msg: Option<String>,
    message: Option<String>,
    data: Option<T>,
}

impl<T> ApiResponse<T> {
    /// The status code of the envelope.
    pub closed spec fn spec_code(&self) -> i64 {
        self.code
    }

    /// The `msg` field of the envelope.
    pub closed spec fn spec_msg(&self) -> Option<String> {
        self.msg
    }

    /// The `message` field of the envelope.
    pub closed spec fn spec_message(&self) -> Option<String> {
        self.message
    }

    /// The data of the envelope.
    pub closed spec fn spec_data(&self) -> Option<T> {
        self.data
    }

    /// Package the fields of a decoded envelope.
    pub fn new(code: i64, msg: Option<String>, message: Option<String>, data: Option<T>) -> (r:
        Self)
        ensures
            r.spec_code() == code,
            r.spec_msg() == msg,
            r.spec_message() == message,
            r.spec_data() == data,
    {
        ApiResponse { code, msg, message, data }
    }

    /// Only code `0` stands for ok.
    pub fn ok(&self) -> (r: bool)
        ensures
            r == (self.spec_code() == 0),
    {
        self.code == 0
    }

    /// The status code; note this is a signed integer.
    pub fn code(&self) -> (r: i64)
        ensures
            r == self.spec_code(),
    {
        self.code
    }

    /// The `msg` field, when the envelope carried one.
    pub fn msg(&self) -> (r: &Option<String>)
        ensures
            r == &self.spec_msg(),
    {
        &self.msg
    }

    /// The `message` field, when the envelope carried one.
    pub fn message(&self) -> (r: &Option<String>)
        ensures
            r == &self.spec_message(),
    {
        &self.message
    }

    /// The data, by reference.
    pub fn data(&self) -> (r: &Option<T>)
        ensures
            r == &self.spec_data(),
    {
        &self.data
    }

    /// Unwrap into the data; the envelope must carry some.
    pub fn into_data(self) -> (r: T)
        requires
            self.spec_data() is Some,
        ensures
            r == self.spec_data()->0,
    {
        match self.data {
            Some(d) => d,
            None => unreached(),
        }
    }

    /// Apply the envelope rule: code `0` with data is success, code `0`
    /// without data is a protocol failure, and any other code is an upstream
    /// rejection carrying whichever message field was present (`msg` wins
    /// when both are).
    pub fn into_result(self) -> (r: Result<T, Error>)
        ensures
            self.spec_code() != 0 ==> r == Result::<T, Error>::Err(
                Error::UpstreamRejected {
                    code: self.spec_code(),
                    msg: if self.spec_msg() is Some {
                        self.spec_msg()
                    } else {
                        self.spec_message()
                    },
                },
            ),
            self.spec_code() == 0 && self.spec_data() is Some ==> r == Result::<T, Error>::Ok(
                self.spec_data()->0,
            ),
            self.spec_code() == 0 && self.spec_data() is None ==> r == Result::<T, Error>::Err(
                Error::ProtocolFailure,
            ),
    {
        if self.code != 0 {
            let m = match self.msg {
                Some(m) => Some(m),
                None => self.message,
            };
            Err(Error::UpstreamRejected { code: self.code, msg: m })
        } else {
            match self.data {
                Some(d) => Ok(d),
                None => Err(Error::ProtocolFailure),
            }
        }
    }
}

} // verus!
