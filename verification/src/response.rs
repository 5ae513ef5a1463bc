//! The recognition result of the service, and the verdict on a claim.
use vstd::prelude::*;
use crate::error::{Failure, VerifierError};
use crate::order::same_text;

verus! {

/// One extracted text: its category and what was read.
#[derive(Debug)]
pub struct OcrItem {
    pub item: String,
    pub itemstring: String,
}

/// The data of a recognition result: the orientation of the card and the
/// extracted texts.
#[derive(Debug)]
pub struct ResponseData {
    pub angle: String,
    pub item_list: Vec<OcrItem>,
}

/// A recognition result: the service's status with its message, and the data.
/// The status is zero where the service accepted the request.
#[derive(Debug)]
pub struct OcrResponse {
    pub ret: i64,
    pub msg: String,
    pub data: ResponseData,
}

/// Some extracted text is exactly `text`.
pub open spec fn some_item_is(items: Seq<OcrItem>, text: Seq<char>) -> bool {
    exists|i: int| 0 <= i < items.len() && #[trigger] items[i].itemstring@ == text
}

/// The verdict on a claim against a recognition result: a status other than
/// zero fails with the service's message; else the institute has to be among
/// the extracted texts, and then the member id, if one is claimed.
pub open spec fn verdict(
    response: OcrResponse,
    institute: Seq<char>,
    student_id: Option<Seq<char>>,
) -> Result<(), Failure> {
    if response.ret != 0 {
        Err(Failure::ServerResponseError(response.msg@))
    } else if !some_item_is(response.data.item_list@, institute) {
        Err(Failure::InstituteNotMatch)
    } else if student_id is Some && !some_item_is(response.data.item_list@, student_id->0) {
        Err(Failure::StudentIdNotMatch)
    } else {
        Ok(())
    }
}

/// Without a claimed member id no verdict is `StudentIdNotMatch`, whatever
/// was extracted.
pub proof fn lemma_absent_id_never_mismatches(response: OcrResponse, institute: Seq<char>)
    ensures
        verdict(response, institute, None) != Err::<(), Failure>(Failure::StudentIdNotMatch),
{
}

/// Whether some extracted text is exactly `text`.
pub fn contains_text(items: &Vec<OcrItem>, text: &str) -> (r: bool)
    ensures
        r == some_item_is(items@, text@),
{
    let mut i: usize = 0;
    while i < items.len()
        invariant
            i <= items@.len(),
            forall|j: int| 0 <= j < i ==> #[trigger] items@[j].itemstring@ != text@,
        decreases items.len() - i,
    {
        if same_text(items[i].itemstring.as_str(), text) {
            return true;
        }
        i += 1;
    }
    false
}

/// Checks a claim against a recognition result.
pub fn check_response(response: OcrResponse, institute: &str, student_id: Option<&str>) -> (r:
    Result<(), VerifierError>)
    ensures
        match r {
            Ok(()) => verdict(response, institute@, claimed(student_id)) is Ok,
            Err(e) => verdict(response, institute@, claimed(student_id)) == Err::<(), Failure>(e@),
        },
        student_id is None ==> !(r matches Err(VerifierError::StudentIdNotMatch)),
{
    if response.ret != 0 {
        return Err(VerifierError::ServerResponseError(response.msg));
    }
    let institute_match = contains_text(&response.data.item_list, institute);
    let id_match = match student_id {
        Some(id) => contains_text(&response.data.item_list, id),
        None => true,
    };
    if !institute_match {
        Err(VerifierError::InstituteNotMatch)
    } else if !id_match {
        Err(VerifierError::StudentIdNotMatch)
    } else {
        Ok(())
    }
}

/// The claimed member id as the contracts see it.
pub open spec fn claimed(student_id: Option<&str>) -> Option<Seq<char>> {
    match student_id {
        Some(id) => Some(id@),
        None => None,
    }
}

} // verus!
