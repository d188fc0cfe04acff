use vstd::prelude::*;

use crate::endpoint::{append_decimal, decimal_digits};

verus! {

/// Why one step of a batch failed.
#[derive(Debug, Clone)]
pub enum ClientError {
    /// The source directory could not be listed; fatal to the whole batch.
    EnumerationError(String),
    /// The request or response exchange of one upload failed in transport.
    TransportError(String),
    /// The endpoint answered one upload with a non-success status and this body.
    UploadRejected(u16, String),
    /// One file could not be opened for streaming.
    FileAccessError(String),
}

/// The outcome of one upload operation.
#[derive(Debug, Clone)]
pub enum UploadResult {
    Success,
    Failure(ClientError),
}

impl ClientError {
    /// Equality of two errors: the same variant with equal fields.
    pub open spec fn same_as(&self, o: &ClientError) -> bool {
        match (self, o) {
            (ClientError::EnumerationError(a), ClientError::EnumerationError(b)) => a@ == b@,
            (ClientError::TransportError(a), ClientError::TransportError(b)) => a@ == b@,
            (ClientError::UploadRejected(s, a), ClientError::UploadRejected(t, b)) => s == t
                && a@ == b@,
            (ClientError::FileAccessError(a), ClientError::FileAccessError(b)) => a@ == b@,
            _ => false,
        }
    }

    /// The operator-facing description of the error.
    pub open spec fn message_spec(&self) -> Seq<char> {
        match self {
            ClientError::EnumerationError(m) => "cannot list the source directory: "@ + m@,
            ClientError::TransportError(m) => "transport error: "@ + m@,
            ClientError::UploadRejected(s, b) => "upload rejected with status "@
                + decimal_digits(*s as nat) + ": "@ + b@,
            ClientError::FileAccessError(m) => "cannot open the file: "@ + m@,
        }
    }

    /// The operator-facing description of the error.
    pub fn message(&self) -> (r: String)
        ensures
            r@ == self.message_spec(),
    {
        match self {
            ClientError::EnumerationError(m) => {
                let mut s = String::from_str("cannot list the source directory: ");
                s.append(m.as_str());
                s
            },
            ClientError::TransportError(m) => {
                let mut s = String::from_str("transport error: ");
                s.append(m.as_str());
                s
            },
            ClientError::UploadRejected(status, body) => {
                let mut s = String::from_str("upload rejected with status ");
                append_decimal(&mut s, *status as u64);
                s.append(": ");
                s.append(body.as_str());
                s
            },
            ClientError::FileAccessError(m) => {
                let mut s = String::from_str("cannot open the file: ");
                s.append(m.as_str());
                s
            },
        }
    }
}

impl PartialEq for ClientError {
    fn eq(&self, o: &ClientError) -> (r: bool) {
        match (self, o) {
            (ClientError::EnumerationError(a), ClientError::EnumerationError(b)) => a.eq(b),
            (ClientError::TransportError(a), ClientError::TransportError(b)) => a.eq(b),
            (ClientError::UploadRejected(s, a), ClientError::UploadRejected(t, b)) => *s == *t
                && a.eq(b),
            (ClientError::FileAccessError(a), ClientError::FileAccessError(b)) => a.eq(b),
            _ => false,
        }
    }
}

impl vstd::std_specs::cmp::PartialEqSpecImpl for ClientError {
    open spec fn obeys_eq_spec() -> bool {
        true
    }

    open spec fn eq_spec(&self, o: &ClientError) -> bool {
        self.same_as(o)
    }
}

impl UploadResult {
    /// Equality of two outcomes.
    pub open spec fn same_as(&self, o: &UploadResult) -> bool {
        match (self, o) {
            (UploadResult::Success, UploadResult::Success) => true,
            (UploadResult::Failure(a), UploadResult::Failure(b)) => a.same_as(b),
            _ => false,
        }
    }

    pub fn is_success(&self) -> (r: bool)
        ensures
            r == (*self is Success),
    {
        match self {
            UploadResult::Success => true,
            UploadResult::Failure(_) => false,
        }
    }
}

impl PartialEq for UploadResult {
    fn eq(&self, o: &UploadResult) -> (r: bool) {
        match (self, o) {
            (UploadResult::Success, UploadResult::Success) => true,
            (UploadResult::Failure(a), UploadResult::Failure(b)) => a.eq(b),
            _ => false,
        }
    }
}

impl vstd::std_specs::cmp::PartialEqSpecImpl for UploadResult {
    open spec fn obeys_eq_spec() -> bool {
        true
    }

    open spec fn eq_spec(&self, o: &UploadResult) -> bool {
        self.same_as(o)
    }
}

/// Whether an HTTP status code is in the success class (2xx).
pub open spec fn is_success_status_spec(status: u16) -> bool {
    200 <= status < 300
}

/// Whether an HTTP status code is in the success class (2xx).
pub fn is_success_status(status: u16) -> (r: bool)
    ensures
        r == is_success_status_spec(status),
{
    200 <= status && status < 300
}

/// The outcome of an exchange that the endpoint answered with `status` and
/// `body`: success for any 2xx status, otherwise a rejection that carries the
/// status and the body text.
pub fn response_outcome(status: u16, body: String) -> (r: UploadResult)
    ensures
        is_success_status_spec(status) ==> r is Success,
        !is_success_status_spec(status) ==> r == UploadResult::Failure(
            ClientError::UploadRejected(status, body),
        ),
{
    if is_success_status(status) {
        UploadResult::Success
    } else {
        UploadResult::Failure(ClientError::UploadRejected(status, body))
    }
}

/// The line that reports the outcome of uploading `path`: `{path}: {message}`
/// for a failure, nothing for a success.
pub open spec fn failure_line_spec(path: Seq<char>, result: UploadResult) -> Option<Seq<char>> {
    match result {
        UploadResult::Success => None,
        UploadResult::Failure(e) => Some(path + ": "@ + e.message_spec()),
    }
}

/// The line that reports the outcome of uploading `path`, if it failed.
pub fn failure_line(path: &str, result: &UploadResult) -> (r: Option<String>)
    ensures
        r matches Some(l) ==> failure_line_spec(path@, *result) == Some(l@),
        r is None ==> failure_line_spec(path@, *result) is None,
{
    match result {
        UploadResult::Success => None,
        UploadResult::Failure(e) => {
            let mut s = String::from_str(path);
            s.append(": ");
            let m = e.message();
            s.append(m.as_str());
            Some(s)
        },
    }
}

} // verus!
