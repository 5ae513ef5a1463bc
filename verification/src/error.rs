//! The ways in which a verification can fail.
use vstd::prelude::*;

verus! {

/// Why a verification did not succeed.
#[derive(Debug, PartialEq, Eq)]
pub enum VerifierError {
    /// A member id was claimed and no extracted text equals it.
    StudentIdNotMatch,
    /// No extracted text equals the claimed institute.
    InstituteNotMatch,
    /// The input could not be decoded as an image; the decoder's message.
    ImageDataError(String),
    /// The image could not be encoded as JPEG, or the encoding could not be
    /// written as text; the message says which.
    JpegEncodeError(String),
    /// The service could not be reached; the transport's message.
    ApiServerConnectionError(String),
    /// The service refused the request, or its answer could not be read; the
    /// service's or the transport's message.
    ServerResponseError(String),
    /// The service answered with a status other than success, or with a body
    /// that is not a recognition result.
    ApiServerError(String),
}

/// A failure as the contracts see it: the kind, and the message as text.
pub enum Failure {
    StudentIdNotMatch,
    InstituteNotMatch,
    ImageDataError(Seq<char>),
    JpegEncodeError(Seq<char>),
    ApiServerConnectionError(Seq<char>),
    ServerResponseError(Seq<char>),
    ApiServerError(Seq<char>),
}

impl View for VerifierError {
    type V = Failure;

    open spec fn view(&self) -> Failure {
        match self {
            VerifierError::StudentIdNotMatch => Failure::StudentIdNotMatch,
            VerifierError::InstituteNotMatch => Failure::InstituteNotMatch,
            VerifierError::ImageDataError(m) => Failure::ImageDataError(m@),
            VerifierError::JpegEncodeError(m) => Failure::JpegEncodeError(m@),
            VerifierError::ApiServerConnectionError(m) => Failure::ApiServerConnectionError(m@),
            VerifierError::ServerResponseError(m) => Failure::ServerResponseError(m@),
            VerifierError::ApiServerError(m) => Failure::ApiServerError(m@),
        }
    }
}

} // verus!
