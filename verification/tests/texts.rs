use emtm_verify::nonce::{fresh_nonce, nonce_from_draws, nonce_letter, NONCE_LENGTH};
use emtm_verify::order::{rank_bytes, rank_names, same_text, Rank};
use emtm_verify::text::{chars_of, decimal_string, push_decimal, signed_decimal_string};

#[test]
fn decimal_of_unsigned_numbers() {
    assert_eq!(decimal_string(0), "0");
    assert_eq!(decimal_string(7), "7");
    assert_eq!(decimal_string(10), "10");
    assert_eq!(decimal_string(1000001), "1000001");
    assert_eq!(decimal_string(u64::MAX), "18446744073709551615");
}

#[test]
fn decimal_of_signed_numbers() {
    assert_eq!(signed_decimal_string(0), "0");
    assert_eq!(signed_decimal_string(1000), "1000");
    assert_eq!(signed_decimal_string(-5), "-5");
    assert_eq!(signed_decimal_string(i64::MAX), "9223372036854775807");
    assert_eq!(signed_decimal_string(i64::MIN), "-9223372036854775808");
}

#[test]
fn decimal_is_appended() {
    let mut out = "code ".to_string();
    push_decimal(&mut out, 404);
    assert_eq!(out, "code 404");
}

#[test]
fn characters_of_a_text() {
    assert_eq!(chars_of("aé中"), vec!['a', 'é', '中']);
    assert_eq!(chars_of(""), Vec::<char>::new());
}

#[test]
fn letters_of_draws() {
    assert_eq!(nonce_letter(0), 'a');
    assert_eq!(nonce_letter(25), 'z');
    assert_eq!(nonce_letter(26), 'a');
    assert_eq!(nonce_letter(27), 'b');
    assert_eq!(nonce_letter(u32::MAX), 'v');
    assert_eq!(nonce_from_draws(&[0, 1, 2, 25, 26, 51, 52]), "abczaza");
    assert_eq!(nonce_from_draws(&[]), "");
}

#[test]
fn nonce_has_thirty_lower_case_letters() {
    assert_eq!(NONCE_LENGTH, 30);
    for _ in 0..20 {
        let nonce = fresh_nonce();
        assert_eq!(nonce.chars().count(), 30);
        assert!(nonce.chars().all(|c| c.is_ascii_lowercase()));
    }
}

#[test]
fn byte_strings_are_ranked_lexicographically() {
    assert_eq!(rank_bytes(b"", b""), Rank::Same);
    assert_eq!(rank_bytes(b"", b"a"), Rank::Before);
    assert_eq!(rank_bytes(b"a", b""), Rank::After);
    assert_eq!(rank_bytes(b"abc", b"abd"), Rank::Before);
    assert_eq!(rank_bytes(b"abd", b"abc"), Rank::After);
    assert_eq!(rank_bytes(b"ab", b"abc"), Rank::Before);
    assert_eq!(rank_bytes(b"abc", b"abc"), Rank::Same);
    assert_eq!(rank_bytes(&[0xff], &[0x00, 0xff]), Rank::After);
}

#[test]
fn names_are_ranked_as_strings_are_ordered() {
    let names = ["", "a", "app_id", "app_key", "image", "Name", "z", "é", "中", "zz"];
    for a in names {
        for b in names {
            let expected = if a < b {
                Rank::Before
            } else if a == b {
                Rank::Same
            } else {
                Rank::After
            };
            assert_eq!(rank_names(a, b), expected);
            assert_eq!(same_text(a, b), a == b);
        }
    }
}
