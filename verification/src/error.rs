//! Failures of reading a stream.

use std::io;
use vstd::prelude::*;

verus! {

/// The error of an I/O operation.
#[verifier::external_type_specification]
#[verifier::external_body]
pub struct ExIoError(io::Error);

/// The category of an I/O error.
#[verifier::external_type_specification]
#[verifier::external_body]
pub struct ExIoErrorKind(io::ErrorKind);

/// The underlying stdout or stderr stream failed while being read.
#[derive(Debug, PartialEq, Eq)]
pub struct StreamReadError {
    stream_name: &'static str,
    kind: io::ErrorKind,
    message: String,
}

impl Clone for StreamReadError {
    fn clone(&self) -> (r: Self)
        ensures
            r == *self,
    {
        Self { stream_name: self.stream_name, kind: self.kind, message: self.message.clone() }
    }
}

impl StreamReadError {
    /// The name of the stream that failed.
    pub closed spec fn spec_stream_name(&self) -> &'static str {
        self.stream_name
    }

    /// The category of the failure.
    pub closed spec fn spec_kind(&self) -> io::ErrorKind {
        self.kind
    }

    /// The text of the failure.
    pub closed spec fn spec_message(&self) -> Seq<char> {
        self.message@
    }

    /// What went wrong, and on which stream.
    pub open spec fn text(&self) -> Seq<char> {
        "Failed to read from stream '"@ + self.spec_stream_name()@ + "': "@ + self.spec_message()
    }

    /// Describes the failure of reading the named stream.
    #[must_use]
    pub fn new(stream_name: &'static str, kind: io::ErrorKind, message: String) -> (r: Self)
        ensures
            r.spec_stream_name() == stream_name,
            r.spec_kind() == kind,
            r.spec_message() == message@,
    {
        Self { stream_name, kind, message }
    }

    /// The name of the stream that could not be read.
    #[must_use]
    pub fn stream_name(&self) -> (r: &'static str)
        ensures
            r == self.spec_stream_name(),
    {
        self.stream_name
    }

    /// The category of the I/O error that was observed.
    #[must_use]
    pub fn kind(&self) -> (r: io::ErrorKind)
        ensures
            r == self.spec_kind(),
    {
        self.kind
    }

    /// What went wrong, and on which stream.
    #[must_use]
    pub fn message(&self) -> (r: String)
        ensures
            r@ == self.text(),
            r@ == "Failed to read from stream '"@ + self.spec_stream_name()@ + "': "@
                + self.spec_message(),
    {
        let mut text = "Failed to read from stream '".to_owned();
        text.append(self.stream_name);
        text.append("': ");
        text.append(self.message.as_str());
        text
    }
}

} // verus!
