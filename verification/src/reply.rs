//! What the client makes of the exchange with the service: of a failure to
//! reach it, of the status of its answer, and of the answer's body.
use vstd::prelude::*;
use vstd::string::*;
use vstd::utf8::{decode_utf8, valid_utf8};
use crate::error::{Failure, VerifierError};
use crate::text::{decimal, push_decimal};

verus! {

/// The address of the recognition service.
pub const OCR_URL: &'static str = "https://api.ai.qq.com/fcgi-bin/ocr/ocr_bcocr";

/// The content type under which the form is submitted.
pub const FORM_CONTENT_TYPE: &'static str = "application/x-www-form-urlencoded";

/// A status of the class of success: from 200 to 299.
pub open spec fn success_status(status: u16) -> bool {
    200 <= status && status < 300
}

/// The text of a body: its bytes read as UTF-8, with the replacement
/// character in place of what is not valid.
pub uninterp spec fn lossy_text(bytes: Seq<u8>) -> Seq<char>;

/// `String::from_utf8_lossy`: the text of the bytes, which the contract names;
/// of valid UTF-8 it is the text that the bytes encode.
#[verifier::external_body]
pub(crate) fn text_of(bytes: &[u8]) -> (r: String)
    ensures
        r@ == lossy_text(bytes@),
        valid_utf8(bytes@) ==> r@ == decode_utf8(bytes@),
{
    String::from_utf8_lossy(bytes).into_owned()
}

/// The message of the failure that a status other than success gives: the
/// status in decimal and, after a blank, the phrase that goes with it.
pub open spec fn status_message(status: u16, reason: Seq<char>) -> Seq<char> {
    "Server response code "@ + decimal(status as nat) + seq![' '] + reason
}

/// The failure when the service could not be reached.
pub fn connection_failed(message: String) -> (e: VerifierError)
    ensures
        e@ == Failure::ApiServerConnectionError(message@),
{
    VerifierError::ApiServerConnectionError(message)
}

/// Whether `status` is of the class of success.
pub fn is_success(status: u16) -> (r: bool)
    ensures
        r == success_status(status),
{
    200 <= status && status < 300
}

/// Whether the answer's body is to be read: under every status of the class
/// of success; every other status is a failure that carries the status and
/// `reason`, the phrase that goes with it.
pub fn check_status(status: u16, reason: &str) -> (r: Result<(), VerifierError>)
    ensures
        success_status(status) ==> r is Ok,
        !success_status(status) ==> (r matches Err(e) && e@ == Failure::ApiServerError(
            status_message(status, reason@),
        )),
{
    if is_success(status) {
        Ok(())
    } else {
        let mut message = "Server response code ".to_owned();
        push_decimal(&mut message, status as u64);
        message.push(' ');
        message.append(reason);
        proof {
            assert(message@ =~= status_message(status, reason@));
        }
        Err(VerifierError::ApiServerError(message))
    }
}

/// The text of the answer: of a body that was read, its text; of one that
/// could not be read, the failure with the transport's message.
pub fn read_body(body: Result<Vec<u8>, String>) -> (r: Result<String, VerifierError>)
    ensures
        match body {
            Ok(bytes) => (r matches Ok(text) && text@ == lossy_text(bytes@) && (valid_utf8(
                bytes@,
            ) ==> text@ == decode_utf8(bytes@))),
            Err(message) => (r matches Err(e) && e@ == Failure::ServerResponseError(message@)),
        },
{
    match body {
        Ok(bytes) => Ok(text_of(bytes.as_slice())),
        Err(message) => Err(VerifierError::ServerResponseError(message)),
    }
}

} // verus!
