//! The verifier: the application's identity, the request that it signs, and
//! the verdict that it gives on the service's answer.
use vstd::prelude::*;
use vstd::string::*;
use image::DynamicImage;
use crate::error::{Failure, VerifierError};
use crate::escape::{field_safe, percent_marks_escape, unescaped};
use crate::nonce::{fresh_nonce, is_nonce};
use crate::params::ParameterSet;
use crate::picture::{
    base64_text, encoded, fitted, fitted_size, image_failed, payload_alphabet, prepare_image,
    prepared, raster_of, Raster,
};
use crate::request::{signed_form, SignedRequestForm};
use crate::response::{check_response, claimed, verdict, OcrResponse};
use crate::sign::{sign, signature_text};
use crate::text::{decimal, signed_decimal};

verus! {

/// The identity under which requests are signed: the application's number
/// and its secret key.
pub struct Verifier {
    app_id: u64,
    app_key: String,
}

impl Clone for Verifier {
    /// A verifier of the same identity.
    fn clone(&self) -> (r: Self)
        ensures
            r.id() == self.id(),
            r.key() == self.key(),
    {
        Verifier { app_id: self.app_id, app_key: self.app_key.clone() }
    }
}

/// Where a verification stands when the verifier is asked for its next step.
pub enum Stage {
    /// The input of `len` bytes went to the decoder, which gave the image or
    /// its message.
    Decoded { image: Result<DynamicImage, String>, len: usize },
    /// The service answered: `parsed` is its answer read as a recognition
    /// result, or nothing where it is none.
    Answered { parsed: Option<OcrResponse> },
}

/// What comes next in a verification.
#[derive(Debug, PartialEq, Eq)]
pub enum Step {
    /// The form is to be submitted to the service.
    Submit(SignedRequestForm),
    /// The verification is over, with this result.
    Finished(Result<(), VerifierError>),
}

/// The message of the failure that an answer which is not a recognition
/// result gives.
pub open spec fn unparsable_message() -> Seq<char> {
    "Failed to parse API server response."@
}

/// `Utc::now` and `DateTime::timestamp` of chrono: the seconds since the
/// epoch by the machine's clock, of which nothing is known beforehand. The
/// call does not return where the clock stands before the epoch.
#[verifier::external_body]
pub(crate) fn unix_time() -> i64 {
    chrono::Utc::now().timestamp()
}

/// The verdict on an answer: one that is no recognition result fails with
/// `ApiServerError`; a recognition result is checked against the claim.
pub fn check_answer(parsed: Option<OcrResponse>, institute: &str, student_id: Option<&str>) -> (r:
    Result<(), VerifierError>)
    ensures
        match parsed {
            None => (r matches Err(e) && e@ == Failure::ApiServerError(unparsable_message())),
            Some(response) => match r {
                Ok(()) => verdict(response, institute@, claimed(student_id)) is Ok,
                Err(e) => verdict(response, institute@, claimed(student_id)) == Err::<
                    (),
                    Failure,
                >(e@),
            },
        },
        student_id is None ==> !(r matches Err(VerifierError::StudentIdNotMatch)),
{
    match parsed {
        None => Err(
            VerifierError::ApiServerError("Failed to parse API server response.".to_owned()),
        ),
        Some(response) => check_response(response, institute, student_id),
    }
}

impl Verifier {
    /// The application's number.
    pub closed spec fn id(&self) -> u64 {
        self.app_id
    }

    /// The application's secret key.
    pub closed spec fn key(&self) -> Seq<char> {
        self.app_key@
    }

    /// `form` is a request of this verifier for an image from an input of
    /// `len` bytes: it carries the payload of the image's JPEG encoding, the
    /// application's number, some time, a nonce, and the signature over them.
    pub open spec fn requests(&self, raster: Raster, len: nat, form: SignedRequestForm) -> bool {
        &&& prepared(raster, len) == Ok::<Seq<char>, Failure>(form.image@)
        &&& encoded(raster, len) matches Ok(jpeg) && unescaped(form.image@) == base64_text(jpeg)
        &&& payload_alphabet(form.image@)
        &&& field_safe(form.image@)
        &&& percent_marks_escape(form.image@)
        &&& form.app_id@ == decimal(self.id() as nat)
        &&& exists|t: i64| form.time_stamp@ == signed_decimal(t as int)
        &&& is_nonce(form.nonce_str@)
        &&& form.signed_with(self.key())
    }

    /// A verifier for the application `app_id` with the secret key `app_key`.
    pub fn new(app_id: u64, app_key: String) -> (r: Verifier)
        ensures
            r.id() == app_id,
            r.key() == app_key@,
    {
        Verifier { app_id, app_key }
    }

    /// The signature of `params` under the secret key: the upper-case
    /// hexadecimal MD5 digest of their canonical string.
    pub fn get_sign_hash(&self, params: &ParameterSet) -> (r: String)
        ensures
            r@ == signature_text(params@, self.key()),
            r@.len() == 32,
    {
        sign(params, self.app_key.as_str())
    }

    /// The signed form for an image payload, a time and a nonce.
    pub fn sign_request(&self, time_stamp: i64, nonce: &str, image: &str) -> (r:
        SignedRequestForm)
        ensures
            r.app_id@ == decimal(self.id() as nat),
            r.time_stamp@ == signed_decimal(time_stamp as int),
            r.nonce_str@ == nonce@,
            r.image@ == image@,
            r.signed_with(self.key()),
    {
        signed_form(self.app_id, self.app_key.as_str(), time_stamp, nonce, image)
    }

    /// Prepares the image that was decoded from an input of `len` bytes and
    /// signs the request that submits it, with the time of the machine's
    /// clock and a fresh nonce.
    pub fn request(&self, image: DynamicImage, len: usize) -> (r: Result<
        SignedRequestForm,
        VerifierError,
    >)
        ensures
            match r {
                Ok(form) => self.requests(raster_of(image), len as nat, form),
                Err(e) => prepared(raster_of(image), len as nat) == Err::<Seq<char>, Failure>(e@),
            },
            fitted(raster_of(image), len as nat).width == fitted_size(
                raster_of(image),
                len as nat,
            ).0,
            fitted(raster_of(image), len as nat).height == fitted_size(
                raster_of(image),
                len as nat,
            ).1,
    {
        let payload = match prepare_image(image, len) {
            Ok(payload) => payload,
            Err(e) => {
                return Err(e);
            },
        };
        let time_stamp = unix_time();
        let nonce = fresh_nonce();
        Ok(self.sign_request(time_stamp, nonce.as_str(), payload.as_str()))
    }

    /// The next step of a verification of the claim that the card shows
    /// `institute` and, if one is claimed, `student_id`.
    ///
    /// Once the input is decoded, the step is to submit the signed request
    /// for its image, or the verification is over because the input is no
    /// image or the image cannot be encoded. Once the service has answered,
    /// the verification is over with the verdict on the claim.
    pub fn verify(&self, stage: Stage, institute: &str, student_id: Option<&str>) -> (step: Step)
        ensures
            match stage {
                Stage::Decoded { image: Err(message), len } => (step matches Step::Finished(
                    Err(e),
                ) && e@ == Failure::ImageDataError(message@)),
                Stage::Decoded { image: Ok(image), len } => match step {
                    Step::Submit(form) => self.requests(raster_of(image), len as nat, form),
                    Step::Finished(r) => (r matches Err(e) && prepared(
                        raster_of(image),
                        len as nat,
                    ) == Err::<Seq<char>, Failure>(e@)),
                },
                Stage::Answered { parsed: None } => (step matches Step::Finished(Err(e)) && e@
                    == Failure::ApiServerError(unparsable_message())),
                Stage::Answered { parsed: Some(response) } => match step {
                    Step::Submit(_) => false,
                    Step::Finished(Ok(())) => verdict(
                        response,
                        institute@,
                        claimed(student_id),
                    ) is Ok,
                    Step::Finished(Err(e)) => verdict(response, institute@, claimed(student_id))
                        == Err::<(), Failure>(e@),
                },
            },
            stage matches Stage::Decoded { image: Ok(image), len } ==> {
                &&& fitted(raster_of(image), len as nat).width == fitted_size(
                    raster_of(image),
                    len as nat,
                ).0
                &&& fitted(raster_of(image), len as nat).height == fitted_size(
                    raster_of(image),
                    len as nat,
                ).1
            },
            student_id is None ==> !(step matches Step::Finished(
                Err(VerifierError::StudentIdNotMatch),
            )),
    {
        match stage {
            Stage::Decoded { image, len } => match image {
                Err(message) => Step::Finished(Err(image_failed(message))),
                Ok(image) => match self.request(image, len) {
                    Ok(form) => Step::Submit(form),
                    Err(e) => Step::Finished(Err(e)),
                },
            },
            Stage::Answered { parsed } => Step::Finished(
                check_answer(parsed, institute, student_id),
            ),
        }
    }
}

} // verus!
