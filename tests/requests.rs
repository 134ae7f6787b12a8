use argon2::password_hash::{PasswordHasher, SaltString};
use jinwonkim_art::auth::{
    check_password_for_user, credentials_from_decoded, verify_password, AuthBasic, User,
    BAD_ENCODING_MESSAGE, BAD_HASH_MESSAGE, NOT_BASIC_MESSAGE, NO_PASSWORD_MESSAGE,
};
use jinwonkim_art::error::Error;
use jinwonkim_art::forms::{
    parse_i64, CreateFaq, CreateImage, FormField, UpdateImage, BAD_ID_MESSAGE,
    MISSING_FIELDS_MESSAGE, MISSING_FIELD_NAME_MESSAGE, MISSING_FILE_NAME_MESSAGE,
};
use jinwonkim_art::records::{about_or_default, about_text, hide_flag, ImageRecord, ABOUT_PLACEHOLDER};
use jinwonkim_art::text::{split_once, text_is, trim};

fn text(name: &str, value: &str) -> FormField {
    FormField { name: Some(name.to_string()), file_name: None, bytes: value.as_bytes().to_vec() }
}

fn phc(password: &str) -> String {
    let salt = SaltString::new("c29tZXNhbHRzb21lc2FsdA").unwrap();
    argon2::Argon2::default().hash_password(password.as_bytes(), &salt).unwrap().to_string()
}

#[test]
fn basic_auth_header_is_decoded() {
    let a = AuthBasic::from_header("Basic dXNlcjpwYTpzcw==").unwrap();
    assert_eq!(a.0 .0, "user");
    assert_eq!(a.0 .1, "pa:ss");
}

#[test]
fn malformed_auth_headers_are_refused() {
    let err = |h: &str| AuthBasic::from_header(h).err().unwrap();
    assert_eq!(err("Bearer abc"), Error::IllegalStateError(NOT_BASIC_MESSAGE));
    assert_eq!(err("Basic"), Error::IllegalStateError(NOT_BASIC_MESSAGE));
    assert_eq!(err("Basic !!!"), Error::IllegalStateError(BAD_ENCODING_MESSAGE));
    assert_eq!(err("Basic dXNlcg=="), Error::IllegalStateError(NO_PASSWORD_MESSAGE));
    assert_eq!(
        credentials_from_decoded(vec![0xff, b':']).err().unwrap(),
        Error::IllegalStateError(BAD_ENCODING_MESSAGE)
    );
    assert_eq!(credentials_from_decoded(b":".to_vec()).unwrap().0 .0, "");
}

#[test]
fn passwords_are_checked_against_the_stored_hash() {
    let hash = phc("secret");
    assert_eq!(verify_password("secret", &hash), Ok(true));
    assert_eq!(verify_password("  secret\n", &hash), Ok(true));
    assert_eq!(verify_password("guess", &hash), Ok(false));
    assert_eq!(verify_password("secret", "plain"), Err(Error::IllegalStateError(BAD_HASH_MESSAGE)));
    let user = Some(User { username: "admin".to_string(), password_hash: hash });
    assert!(check_password_for_user(&user, "secret"));
    assert!(!check_password_for_user(&user, "nope"));
    assert!(!check_password_for_user(&None, "secret"));
}

#[test]
fn image_upload_fields_are_collected() {
    let fields = vec![
        text("name", "Dawn"),
        text("description", "Over the bay"),
        text("category", "sky"),
        text("ignored", "x"),
        text("category", "sea"),
        FormField { name: Some("img".to_string()), file_name: Some("dawn.PNG".to_string()), bytes: vec![1, 2] },
        text("thumbnail_crop_rect", "{\"x\":1.5,\"y\":0,\"width\":10,\"height\":5}"),
    ];
    let c = CreateImage::from_multipart(fields).unwrap();
    assert_eq!(c.name, "Dawn");
    assert_eq!(c.description, "Over the bay");
    assert_eq!(c.categories, vec!["sky".to_string(), "sea".to_string()]);
    assert_eq!(c.img, vec![1, 2]);
    assert_eq!(c.img_name, "dawn.PNG");
    assert!(c.thumbnail_crop_rect.unwrap().starts_with("{\"x\":1.5"));
}

#[test]
fn image_upload_errors() {
    let missing = CreateImage::from_multipart(vec![text("name", "a"), text("description", "b")]);
    assert_eq!(missing.err(), Some(Error::IllegalStateError(MISSING_FIELDS_MESSAGE)));
    let unnamed = FormField { name: None, file_name: None, bytes: vec![] };
    assert_eq!(
        CreateImage::from_multipart(vec![unnamed]).err(),
        Some(Error::IllegalStateError(MISSING_FIELD_NAME_MESSAGE))
    );
    let no_file = FormField { name: Some("img".to_string()), file_name: None, bytes: vec![] };
    assert_eq!(
        CreateImage::from_multipart(vec![no_file]).err(),
        Some(Error::IllegalStateError(MISSING_FILE_NAME_MESSAGE))
    );
    let bad = FormField { name: Some("name".to_string()), file_name: None, bytes: vec![0xc3] };
    assert_eq!(CreateImage::from_multipart(vec![bad]).err(), Some(Error::MultipartError));
}

#[test]
fn image_edit_fields_are_collected() {
    let fields = vec![text("id", "42"), text("name", "N"), text("description", "D"), text("category", "c")];
    let u = UpdateImage::from_multipart(fields).unwrap();
    assert_eq!(u.id, 42);
    assert_eq!((u.name.as_str(), u.description.as_str()), ("N", "D"));
    assert_eq!(u.categories, vec!["c".to_string()]);
    let bad = vec![text("id", "4x"), text("name", "N"), text("description", "D")];
    assert_eq!(UpdateImage::from_multipart(bad).err(), Some(Error::IllegalStateError(BAD_ID_MESSAGE)));
    let missing = vec![text("name", "N"), text("description", "D")];
    assert_eq!(UpdateImage::from_multipart(missing).err(), Some(Error::IllegalStateError(MISSING_FIELDS_MESSAGE)));
}

#[test]
fn integers_parse_as_str_parse_does() {
    for s in ["0", "42", "-17", "+8", "9223372036854775807", "-9223372036854775808", "", "-", "+", "1a", " 1", "9223372036854775808", "-9223372036854775809", "99999999999999999999999"] {
        assert_eq!(parse_i64(s), s.parse::<i64>().ok(), "{s}");
    }
}

#[test]
fn texts_are_trimmed_and_split() {
    assert_eq!(trim("  a b \t\n"), "a b");
    assert_eq!(trim("\u{3000}x\u{a0}"), "x");
    assert_eq!(trim("   "), "");
    assert_eq!(split_once("k=v=w", '='), Some(("k".to_string(), "v=w".to_string())));
    assert_eq!(split_once("kv", '='), None);
    assert!(text_is("img", "img"));
    assert!(!text_is("img", "imgs"));
}

#[test]
fn stored_records_are_normalised() {
    let r = ImageRecord::new(" Dawn ", "\tdesc\n", " f.png", vec!["sky".to_string()]);
    assert_eq!((r.name.as_str(), r.description.as_str(), r.filename.as_str()), ("Dawn", "desc", "f.png"));
    let f = CreateFaq { question: " Why? ".to_string(), answer: "Because. ".to_string() }.trimmed();
    assert_eq!((f.question.as_str(), f.answer.as_str()), ("Why?", "Because."));
    assert_eq!(about_text("  hello  "), "hello");
    assert_eq!(about_or_default(None), ABOUT_PLACEHOLDER);
    assert_eq!(about_or_default(Some("x".to_string())), "x");
    assert_eq!((hide_flag(true), hide_flag(false)), (1, 0));
}
