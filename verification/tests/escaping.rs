use emtm_verify::escape::{percent_escape, percent_unescape};
use emtm_verify::picture::payload;

#[test]
fn escape_replaces_the_three_characters() {
    assert_eq!(percent_escape("a=b+c/d"), "a%3Db%2Bc%2Fd");
    assert_eq!(percent_escape("=+/"), "%3D%2B%2F");
    assert_eq!(percent_escape(""), "");
    assert_eq!(percent_escape("plain123"), "plain123");
    assert_eq!(percent_escape("é=ü"), "é%3Dü");
    assert_eq!(percent_escape("%&?"), "%&?");
}

#[test]
fn unescape_replaces_the_three_escapes() {
    assert_eq!(percent_unescape("a%3Db%2Bc%2Fd"), "a=b+c/d");
    assert_eq!(percent_unescape("%3D%2B%2F"), "=+/");
    assert_eq!(percent_unescape(""), "");
    assert_eq!(percent_unescape("%3"), "%3");
    assert_eq!(percent_unescape("%3d%2b%2f"), "%3d%2b%2f");
    assert_eq!(percent_unescape("%%3D"), "%=");
    assert_eq!(percent_unescape("%20"), "%20");
}

#[test]
fn escape_then_unescape_gives_base64_text_back() {
    for text in ["", "aGVsbG8=", "+/8=", "++++", "QUJD/+==", "abcdefghijklmnopqrstuvwxyz0123456789+/"] {
        let escaped = percent_escape(text);
        assert!(!escaped.contains('='));
        assert!(!escaped.contains('+'));
        assert!(!escaped.contains('/'));
        assert_eq!(percent_unescape(&escaped), text);
    }
}

#[test]
fn a_text_that_holds_an_escape_does_not_come_back() {
    assert_eq!(percent_escape("%3D"), "%3D");
    assert_eq!(percent_unescape(&percent_escape("%3D")), "=");
}

#[test]
fn payload_is_escaped_base64() {
    assert_eq!(payload(b"hello"), "aGVsbG8%3D");
    assert_eq!(payload(&[0xfb, 0xff]), "%2B%2F8%3D");
    assert_eq!(payload(&[0xfb, 0xef, 0xbe]), "%2B%2B%2B%2B");
    assert_eq!(payload(&[]), "");
    assert_eq!(percent_unescape(&payload(&[0xfb, 0xff])), "+/8=");
}
