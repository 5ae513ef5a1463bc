use emtm_verify::params::ParameterSet;
use emtm_verify::pipeline::Verifier;
use emtm_verify::request::{request_parameters, signed_form, wire_form};
use emtm_verify::sign::{canonical_string, sign};

fn example_params() -> ParameterSet {
    let mut params = ParameterSet::new();
    params.insert("app_id".to_string(), "1000001".to_string());
    params.insert("time_stamp".to_string(), "1000".to_string());
    params.insert("nonce_str".to_string(), "abc".to_string());
    params.insert("image".to_string(), "img".to_string());
    params
}

#[test]
fn canonical_string_of_the_four_parameters() {
    let params = example_params();
    assert_eq!(
        canonical_string(&params, "key123"),
        "app_id=1000001&image=img&nonce_str=abc&time_stamp=1000&app_key=key123"
    );
}

#[test]
fn signature_is_upper_hex_md5_of_canonical_string() {
    let verifier = Verifier::new(1000001, "key123".to_string());
    let signature = verifier.get_sign_hash(&example_params());
    assert_eq!(signature, "4EED8FD2E14AFC74AB452A443C968801");
}

#[test]
fn signature_has_32_upper_case_hex_digits() {
    let signature = sign(&example_params(), "another key");
    assert_eq!(signature.len(), 32);
    assert!(signature.chars().all(|c| c.is_ascii_digit() || ('A'..='F').contains(&c)));
}

#[test]
fn signature_is_the_same_on_every_call() {
    let verifier = Verifier::new(7, "s3cret".to_string());
    let params = example_params();
    let first = verifier.get_sign_hash(&params);
    let second = verifier.get_sign_hash(&params);
    let third = verifier.get_sign_hash(&example_params());
    assert_eq!(first, second);
    assert_eq!(first, third);
}

#[test]
fn signature_does_not_depend_on_insertion_order() {
    let mut reversed = ParameterSet::new();
    reversed.insert("image".to_string(), "img".to_string());
    reversed.insert("nonce_str".to_string(), "abc".to_string());
    reversed.insert("time_stamp".to_string(), "1000".to_string());
    reversed.insert("app_id".to_string(), "1000001".to_string());
    let mut shuffled = ParameterSet::new();
    shuffled.insert("nonce_str".to_string(), "abc".to_string());
    shuffled.insert("app_id".to_string(), "1000001".to_string());
    shuffled.insert("image".to_string(), "img".to_string());
    shuffled.insert("time_stamp".to_string(), "1000".to_string());
    let verifier = Verifier::new(1000001, "key123".to_string());
    let expected = "4EED8FD2E14AFC74AB452A443C968801";
    assert_eq!(verifier.get_sign_hash(&reversed), expected);
    assert_eq!(verifier.get_sign_hash(&shuffled), expected);
    assert_eq!(
        canonical_string(&reversed, "key123"),
        canonical_string(&example_params(), "key123")
    );
}

#[test]
fn signature_changes_with_the_key_and_with_a_value() {
    let params = example_params();
    let base = sign(&params, "key123");
    assert_ne!(base, sign(&params, "key124"));
    let mut other = example_params();
    other.insert("nonce_str".to_string(), "abd".to_string());
    assert_ne!(base, sign(&other, "key123"));
}

#[test]
fn empty_set_signs_the_key_alone() {
    let params = ParameterSet::new();
    assert_eq!(canonical_string(&params, "secret"), "app_key=secret");
    assert_eq!(sign(&params, "secret"), "38DA88C0CFC971D7BC1C764935970B55");
    assert_eq!(canonical_string(&params, ""), "app_key=");
    assert_eq!(sign(&params, ""), "F2E642A5DB876C00258A17E2B87D088B");
}

#[test]
fn names_are_ordered_by_their_utf8_bytes() {
    let mut params = ParameterSet::new();
    params.insert("é".to_string(), "2".to_string());
    params.insert("z".to_string(), "é".to_string());
    params.insert("name".to_string(), "value".to_string());
    params.insert("Name".to_string(), "upper".to_string());
    params.insert("nam".to_string(), "prefix".to_string());
    assert_eq!(
        canonical_string(&params, "k"),
        "Name=upper&nam=prefix&name=value&z=é&é=2&app_key=k"
    );
    assert_eq!(params.entry_at(0), Some(("Name", "upper")));
    assert_eq!(params.entry_at(1), Some(("nam", "prefix")));
    assert_eq!(params.entry_at(3), Some(("z", "é")));
    assert_eq!(params.entry_at(4), Some(("é", "2")));
    assert_eq!(params.entry_at(5), None);
}

#[test]
fn non_ascii_canonical_string_is_hashed_as_utf8() {
    let mut params = ParameterSet::new();
    params.insert("z".to_string(), "é".to_string());
    params.insert("name".to_string(), "value".to_string());
    assert_eq!(canonical_string(&params, "k"), "name=value&z=é&app_key=k");
    assert_eq!(sign(&params, "k"), "336347EC4DDB7DB5A1298FD9058CA534");
}

#[test]
fn insert_replaces_the_value_of_a_present_name() {
    let mut params = ParameterSet::new();
    assert_eq!(params.insert("b".to_string(), "1".to_string()), None);
    assert_eq!(params.insert("a".to_string(), "2".to_string()), None);
    assert_eq!(params.insert("b".to_string(), "3".to_string()), Some("1".to_string()));
    assert_eq!(params.len(), 2);
    assert_eq!(params.get("a"), Some("2"));
    assert_eq!(params.get("b"), Some("3"));
    assert_eq!(params.get("c"), None);
    assert_eq!(canonical_string(&params, "k"), "a=2&b=3&app_key=k");
}

#[test]
fn remove_takes_a_name_out() {
    let mut params = example_params();
    assert_eq!(params.len(), 4);
    assert_eq!(params.position("image"), Some(1));
    assert_eq!(params.remove("image"), Some("img".to_string()));
    assert_eq!(params.remove("image"), None);
    assert_eq!(params.position("image"), None);
    assert_eq!(params.len(), 3);
    assert_eq!(
        canonical_string(&params, "key123"),
        "app_id=1000001&nonce_str=abc&time_stamp=1000&app_key=key123"
    );
    assert_eq!(params.remove("app_id"), Some("1000001".to_string()));
    assert_eq!(params.remove("time_stamp"), Some("1000".to_string()));
    assert_eq!(params.remove("nonce_str"), Some("abc".to_string()));
    assert_eq!(params.len(), 0);
}

#[test]
fn request_parameters_hold_exactly_the_four_names() {
    let params = request_parameters(1000001, 1000, "abc", "img");
    assert_eq!(params.len(), 4);
    assert_eq!(params.get("app_id"), Some("1000001"));
    assert_eq!(params.get("time_stamp"), Some("1000"));
    assert_eq!(params.get("nonce_str"), Some("abc"));
    assert_eq!(params.get("image"), Some("img"));
    assert_eq!(params.get("app_key"), None);
    assert_eq!(params.entry_at(0), Some(("app_id", "1000001")));
    assert_eq!(params.entry_at(1), Some(("image", "img")));
    assert_eq!(params.entry_at(2), Some(("nonce_str", "abc")));
    assert_eq!(params.entry_at(3), Some(("time_stamp", "1000")));
    assert_eq!(params.entry_at(4), None);
}

#[test]
fn signed_form_carries_the_parameters_and_their_signature() {
    let form = signed_form(1000001, "key123", 1000, "abc", "img");
    assert_eq!(form.app_id, "1000001");
    assert_eq!(form.time_stamp, "1000");
    assert_eq!(form.nonce_str, "abc");
    assert_eq!(form.image, "img");
    assert_eq!(form.sign, "4EED8FD2E14AFC74AB452A443C968801");
}

#[test]
fn sign_request_signs_with_the_verifiers_identity() {
    let verifier = Verifier::new(1000001, "key123".to_string());
    let form = verifier.sign_request(1000, "abc", "img");
    assert_eq!(form.app_id, "1000001");
    assert_eq!(form.time_stamp, "1000");
    assert_eq!(form.sign, "4EED8FD2E14AFC74AB452A443C968801");
    let other = Verifier::new(1000001, "key124".to_string()).sign_request(1000, "abc", "img");
    assert_ne!(other.sign, form.sign);
}

#[test]
fn wire_form_carries_the_image_as_base64_text() {
    let form = signed_form(1000001, "key123", 1000, "abc", "aGVsbG8%3D%2B%2F");
    let signature = form.sign.clone();
    let wire = wire_form(form);
    assert_eq!(wire.app_id, "1000001");
    assert_eq!(wire.time_stamp, "1000");
    assert_eq!(wire.nonce_str, "abc");
    assert_eq!(wire.image, "aGVsbG8=+/");
    assert_eq!(wire.sign, signature);
}
