use emtm_verify::error::VerifierError;
use emtm_verify::pipeline::{check_answer, Stage, Step, Verifier};
use emtm_verify::response::{check_response, contains_text, OcrItem, OcrResponse, ResponseData};

fn item(label: &str, text: &str) -> OcrItem {
    OcrItem { item: label.to_string(), itemstring: text.to_string() }
}

fn response(ret: i64, msg: &str, items: Vec<OcrItem>) -> OcrResponse {
    OcrResponse {
        ret,
        msg: msg.to_string(),
        data: ResponseData { angle: "0".to_string(), item_list: items },
    }
}

fn example_response() -> OcrResponse {
    response(0, "ok", vec![item("x", "Example University")])
}

/// Reads the text of an answer as a recognition result, field by field.
fn parse(text: &str) -> Option<OcrResponse> {
    let value: serde_json::Value = serde_json::from_str(text).ok()?;
    let data = value.get("data")?;
    let mut items = Vec::new();
    for entry in data.get("item_list")?.as_array()? {
        items.push(item(entry.get("item")?.as_str()?, entry.get("itemstring")?.as_str()?));
    }
    Some(OcrResponse {
        ret: value.get("ret")?.as_i64()?,
        msg: value.get("msg")?.as_str()?.to_string(),
        data: ResponseData { angle: data.get("angle")?.as_str()?.to_string(), item_list: items },
    })
}

const EXAMPLE_ANSWER: &str = "{\"ret\":0,\"msg\":\"ok\",\"data\":{\"angle\":\"0\",\"item_list\":[{\"item\":\"x\",\"itemstring\":\"Example University\"}]}}";

#[test]
fn answer_with_matching_institute_succeeds() {
    let parsed = parse(EXAMPLE_ANSWER);
    assert!(parsed.is_some());
    assert_eq!(judged(parsed, "Example University", None), Ok(()));
}

#[test]
fn answer_with_other_institute_fails() {
    let parsed = parse(EXAMPLE_ANSWER);
    assert_eq!(
        judged(parsed, "Other University", None),
        Err(VerifierError::InstituteNotMatch)
    );
}

#[test]
fn answer_with_nonzero_status_fails_with_its_message() {
    let text = "{\"ret\":1001,\"msg\":\"quota exceeded\",\"data\":{\"angle\":\"\",\"item_list\":[]}}";
    let parsed = parse(text);
    assert!(parsed.is_some());
    assert_eq!(
        judged(parsed, "Example University", None),
        Err(VerifierError::ServerResponseError("quota exceeded".to_string()))
    );
}

#[test]
fn answer_with_negative_status_fails_with_its_message() {
    let text = "{\"ret\":-1,\"msg\":\"bad sign\",\"data\":{\"angle\":\"0\",\"item_list\":[]}}";
    let parsed = parse(text);
    assert!(parsed.is_some());
    assert_eq!(
        judged(parsed, "Example University", None),
        Err(VerifierError::ServerResponseError("bad sign".to_string()))
    );
    let refused = response(i64::MIN, "m", vec![item("x", "Example University")]);
    assert_eq!(
        check_response(refused, "Example University", None),
        Err(VerifierError::ServerResponseError("m".to_string()))
    );
}

#[test]
fn answer_that_is_no_result_fails_with_api_server_error() {
    for text in ["", "not json", "{\"ret\":0}", "[]"] {
        let parsed = parse(text);
        assert!(parsed.is_none());
        assert_eq!(
            judged(parsed, "Example University", None),
            Err(VerifierError::ApiServerError("Failed to parse API server response.".to_string()))
        );
    }
}

fn subject() -> Verifier {
    Verifier::new(1000001, "key123".to_string())
}

/// The result with which the verification ends once the service answered.
fn judged(
    parsed: Option<OcrResponse>,
    institute: &str,
    student_id: Option<&str>,
) -> Result<(), VerifierError> {
    match subject().verify(Stage::Answered { parsed }, institute, student_id) {
        Step::Finished(result) => result,
        Step::Submit(_) => panic!("nothing is submitted once the service answered"),
    }
}

#[test]
fn matching_institute_without_member_id_succeeds() {
    let result = judged(Some(example_response()), "Example University", None);
    assert_eq!(result, Ok(()));
}

#[test]
fn other_institute_fails_with_institute_not_match() {
    let result = judged(Some(example_response()), "Other University", None);
    assert_eq!(result, Err(VerifierError::InstituteNotMatch));
}

#[test]
fn nonzero_status_fails_with_the_services_message() {
    let refused = response(1001, "quota exceeded", vec![item("x", "Example University")]);
    let result = judged(Some(refused), "Example University", None);
    assert_eq!(result, Err(VerifierError::ServerResponseError("quota exceeded".to_string())));
}

#[test]
fn nonzero_status_comes_before_any_match() {
    let refused = response(1, "bad sign", vec![]);
    let result = judged(Some(refused), "Example University", Some("16340025"));
    assert_eq!(result, Err(VerifierError::ServerResponseError("bad sign".to_string())));
}

#[test]
fn unparsable_answer_fails_with_api_server_error() {
    let result = judged(None, "Example University", None);
    assert_eq!(
        result,
        Err(VerifierError::ApiServerError("Failed to parse API server response.".to_string()))
    );
}

#[test]
fn claimed_member_id_has_to_be_among_the_items() {
    let items = || vec![item("name", "Example University"), item("id", "16340025")];
    let result = check_response(response(0, "ok", items()), "Example University", Some("16340025"));
    assert_eq!(result, Ok(()));
    let result = check_response(response(0, "ok", items()), "Example University", Some("16340026"));
    assert_eq!(result, Err(VerifierError::StudentIdNotMatch));
    let result = check_response(response(0, "ok", items()), "Example University", None);
    assert_eq!(result, Ok(()));
}

#[test]
fn institute_is_checked_before_the_member_id() {
    let items = vec![item("id", "16340025")];
    let result = check_response(response(0, "ok", items), "Example University", Some("16340025"));
    assert_eq!(result, Err(VerifierError::InstituteNotMatch));
    let result = check_response(response(0, "ok", vec![]), "Example University", Some("1"));
    assert_eq!(result, Err(VerifierError::InstituteNotMatch));
}

#[test]
fn absent_member_id_never_gives_student_id_not_match() {
    let lists: Vec<Vec<OcrItem>> = vec![
        vec![],
        vec![item("x", "Example University")],
        vec![item("x", "Other"), item("y", "Example University"), item("z", "")],
        vec![item("x", "16340025")],
    ];
    for items in lists {
        for ret in [0i64, 1, 1001, -1, i64::MIN] {
            let copy: Vec<OcrItem> = items.iter().map(|i| item(&i.item, &i.itemstring)).collect();
            let result = check_response(response(ret, "m", copy), "Example University", None);
            assert_ne!(result, Err(VerifierError::StudentIdNotMatch));
        }
    }
}

#[test]
fn matching_is_exact() {
    let items = vec![item("x", "Example University"), item("y", " 16340025")];
    assert!(contains_text(&items, "Example University"));
    assert!(!contains_text(&items, "example university"));
    assert!(!contains_text(&items, "Example University "));
    assert!(!contains_text(&items, "Example"));
    assert!(!contains_text(&items, "16340025"));
    assert!(!contains_text(&items, "x"));
    assert!(!contains_text(&items, ""));
    assert!(!contains_text(&Vec::new(), "Example University"));
}

#[test]
fn the_category_of_an_item_is_not_matched() {
    let items = vec![item("Example University", "something else")];
    let result = check_response(response(0, "ok", items), "Example University", None);
    assert_eq!(result, Err(VerifierError::InstituteNotMatch));
}

#[test]
fn any_item_in_any_position_matches() {
    let items = vec![item("a", "16340025"), item("b", "noise"), item("c", "中山大学")];
    let result = check_response(response(0, "ok", items), "中山大学", Some("16340025"));
    assert_eq!(result, Ok(()));
}

#[test]
fn check_answer_is_the_verdict_of_the_last_step() {
    assert_eq!(check_answer(Some(example_response()), "Example University", None), Ok(()));
    assert_eq!(
        check_answer(Some(example_response()), "Other University", None),
        Err(VerifierError::InstituteNotMatch)
    );
    assert_eq!(
        check_answer(None, "Example University", None),
        Err(VerifierError::ApiServerError("Failed to parse API server response.".to_string()))
    );
    assert_eq!(
        subject().verify(Stage::Answered { parsed: None }, "Example University", None),
        Step::Finished(Err(VerifierError::ApiServerError(
            "Failed to parse API server response.".to_string()
        )))
    );
}
