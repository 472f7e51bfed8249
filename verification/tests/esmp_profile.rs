use queue_quota::esmp::api::{ProfileFieldUpdate, ProfileUpdateRequest};
use queue_quota::esmp::profile::{
    check_name, find_invalid_character, profile_file_name, ProfileError, ProfileField, UserProfile,
    Visibility, MAX_ADDRESS_LENGTH, MAX_NAME_LENGTH,
};

fn reverse(bytes: &[u8]) -> Result<Vec<u8>, String> {
    Ok(bytes.iter().rev().cloned().collect())
}

fn refuse(_: &[u8]) -> Result<Vec<u8>, String> {
    Err("no key".to_string())
}

fn profile() -> UserProfile {
    UserProfile::created_at("pk".to_string(), Some(7))
}

fn update(value: Option<&str>, visibility: Option<Visibility>) -> Option<ProfileFieldUpdate<String>> {
    Some(ProfileFieldUpdate { value: value.map(|s| s.to_string()), visibility })
}

fn empty_request() -> ProfileUpdateRequest {
    ProfileUpdateRequest {
        first_name: None,
        middle_name: None,
        last_name: None,
        display_picture: None,
        address: None,
    }
}

#[test]
fn limits() {
    assert_eq!(MAX_NAME_LENGTH, 50);
    assert_eq!(MAX_ADDRESS_LENGTH, 200);
}

#[test]
fn defaults_are_private_and_absent() {
    assert_eq!(Visibility::default(), Visibility::Private);
    let field: ProfileField<String> = ProfileField::default();
    assert_eq!(field.value, None);
    assert_eq!(field.visibility, Visibility::Private);
}

#[test]
fn default_profile_is_blank() {
    let p = UserProfile::default();
    assert_eq!(p.pubkey, "");
    assert_eq!(p.updated_at, None);
    assert_eq!(p.first_name.value, None);
    assert_eq!(p.address.value, None);
    assert_eq!(p.address.visibility, Visibility::Private);
}

#[test]
fn new_profile_is_blank() {
    let p = UserProfile::new("key".to_string());
    assert_eq!(p.pubkey, "key");
    for field in [&p.first_name, &p.middle_name, &p.last_name, &p.display_picture] {
        assert_eq!(field.value, None);
        assert_eq!(field.visibility, Visibility::Private);
    }
    assert_eq!(p.address.value, None);
    assert_eq!(p.address.visibility, Visibility::Private);
    assert!(p.updated_at.is_some());
    let q = UserProfile::created_at("key".to_string(), None);
    assert_eq!(q.updated_at, None);
    assert_eq!(q.pubkey, "key");
}

#[test]
fn set_field_writes_the_named_field() {
    let mut p = profile();
    p.set_field("first_name", Some("Ann".to_string()), Some(Visibility::Public));
    p.set_field("middle_name", Some("B".to_string()), None);
    p.set_field("last_name", Some("Lee".to_string()), Some(Visibility::Private));
    p.set_field("display_picture", Some("https://example.com/a.png".to_string()), Some(Visibility::Public));
    assert_eq!(p.first_name.value.as_deref(), Some("Ann"));
    assert_eq!(p.first_name.visibility, Visibility::Public);
    assert_eq!(p.middle_name.value.as_deref(), Some("B"));
    assert_eq!(p.middle_name.visibility, Visibility::Private);
    assert_eq!(p.last_name.value.as_deref(), Some("Lee"));
    assert_eq!(p.last_name.visibility, Visibility::Private);
    assert_eq!(p.display_picture.value.as_deref(), Some("https://example.com/a.png"));
    assert_eq!(p.display_picture.visibility, Visibility::Public);
    p.set_field("first_name", None, None);
    assert_eq!(p.first_name.value, None);
    assert_eq!(p.first_name.visibility, Visibility::Private);
    assert_eq!(p.pubkey, "pk");
    assert_eq!(p.updated_at, Some(7));
}

#[test]
fn set_field_ignores_other_names() {
    let mut p = profile();
    p.set_field("address", Some("1 Main St".to_string()), Some(Visibility::Public));
    p.set_field("nickname", Some("x".to_string()), Some(Visibility::Public));
    p.set_field("", Some("x".to_string()), None);
    assert_eq!(p.address.value, None);
    assert_eq!(p.address.visibility, Visibility::Private);
    assert_eq!(p.first_name.value, None);
    assert_eq!(p.display_picture.value, None);
}

#[test]
fn set_visibility_keeps_the_value() {
    let mut p = profile();
    p.set_field("last_name", Some("Lee".to_string()), None);
    p.set_visibility("last_name", Visibility::Public);
    assert_eq!(p.last_name.value.as_deref(), Some("Lee"));
    assert_eq!(p.last_name.visibility, Visibility::Public);
    p.set_visibility("address", Visibility::Public);
    assert_eq!(p.address.visibility, Visibility::Public);
    p.set_visibility("first_name", Visibility::Public);
    p.set_visibility("middle_name", Visibility::Public);
    p.set_visibility("display_picture", Visibility::Public);
    assert_eq!(p.first_name.visibility, Visibility::Public);
    assert_eq!(p.middle_name.visibility, Visibility::Public);
    assert_eq!(p.display_picture.visibility, Visibility::Public);
    p.set_visibility("other", Visibility::Private);
    p.set_visibility("last_name", Visibility::Private);
    assert_eq!(p.last_name.visibility, Visibility::Private);
    assert_eq!(p.first_name.visibility, Visibility::Public);
}

#[test]
fn set_address_seals_and_stores() {
    let mut p = profile();
    assert!(p.set_address(Some("abc".to_string()), reverse, Some(Visibility::Public)).is_ok());
    assert_eq!(p.address.value, Some(b"cba".to_vec()));
    assert_eq!(p.address.visibility, Visibility::Public);
    assert!(p.set_address(Some("xy".to_string()), reverse, None).is_ok());
    assert_eq!(p.address.value, Some(b"yx".to_vec()));
    assert_eq!(p.address.visibility, Visibility::Private);
    assert!(p.set_address(None, refuse, Some(Visibility::Public)).is_ok());
    assert_eq!(p.address.value, None);
    assert_eq!(p.address.visibility, Visibility::Public);
}

#[test]
fn set_address_refuses_long_address_before_sealing() {
    let mut p = profile();
    p.set_address(Some("abc".to_string()), reverse, None).unwrap();
    let long = "a".repeat(201);
    let sealed = std::cell::Cell::new(false);
    let r = p.set_address(
        Some(long),
        |b: &[u8]| {
            sealed.set(true);
            Ok(b.to_vec())
        },
        Some(Visibility::Public),
    );
    assert!(matches!(r, Err(ProfileError::AddressTooLong)));
    assert!(!sealed.get());
    assert_eq!(p.address.value, Some(b"cba".to_vec()));
    assert_eq!(p.address.visibility, Visibility::Private);
    assert!(p.set_address(Some("a".repeat(200)), reverse, None).is_ok());
    assert_eq!(p.address.value.as_ref().map(|v| v.len()), Some(200));
}

#[test]
fn set_address_reports_seal_failure() {
    let mut p = profile();
    p.set_address(Some("abc".to_string()), reverse, None).unwrap();
    match p.set_address(Some("def".to_string()), refuse, Some(Visibility::Public)) {
        Err(ProfileError::EncryptionError(reason)) => assert_eq!(reason, "no key"),
        other => panic!("unexpected {:?}", other),
    }
    assert_eq!(p.address.value, Some(b"cba".to_vec()));
    assert_eq!(p.address.visibility, Visibility::Private);
}

#[test]
fn encrypt_and_decrypt_sensitive_fields() {
    let mut p = profile();
    assert!(p.encrypt_sensitive_fields(refuse).is_ok());
    assert!(p.decrypt_sensitive_fields(refuse).is_ok());
    assert_eq!(p.address.value, None);
    p.address.value = Some(b"abc".to_vec());
    p.address.visibility = Visibility::Public;
    assert!(p.encrypt_sensitive_fields(reverse).is_ok());
    assert_eq!(p.address.value, Some(b"cba".to_vec()));
    assert_eq!(p.address.visibility, Visibility::Public);
    assert!(p.decrypt_sensitive_fields(reverse).is_ok());
    assert_eq!(p.address.value, Some(b"abc".to_vec()));
    match p.encrypt_sensitive_fields(refuse) {
        Err(ProfileError::EncryptionError(reason)) => assert_eq!(reason, "no key"),
        other => panic!("unexpected {:?}", other),
    }
    match p.decrypt_sensitive_fields(refuse) {
        Err(ProfileError::DecryptionError(reason)) => assert_eq!(reason, "no key"),
        other => panic!("unexpected {:?}", other),
    }
    assert_eq!(p.address.value, Some(b"abc".to_vec()));
}

#[test]
fn decrypt_refuses_text_that_is_not_utf8() {
    let mut p = profile();
    p.address.value = Some(vec![1, 2, 3]);
    match p.decrypt_sensitive_fields(|_: &[u8]| Ok(vec![0xff, 0xfe])) {
        Err(ProfileError::DecryptionError(reason)) => assert_eq!(reason, "Invalid UTF-8 in address"),
        other => panic!("unexpected {:?}", other),
    }
    assert_eq!(p.address.value, Some(vec![1, 2, 3]));
    assert!(p.decrypt_sensitive_fields(|_: &[u8]| Ok("zoë".as_bytes().to_vec())).is_ok());
    assert_eq!(p.address.value, Some("zoë".as_bytes().to_vec()));
}

#[test]
fn find_invalid_character_finds_the_first() {
    assert_eq!(find_invalid_character(""), None);
    assert_eq!(find_invalid_character("Anne-Marie O'Neil"), None);
    assert_eq!(find_invalid_character("Zoë 京"), None);
    assert_eq!(find_invalid_character("R2D2"), Some('2'));
    assert_eq!(find_invalid_character("a_b!"), Some('_'));
    assert_eq!(find_invalid_character("ab💝"), Some('💝'));
    assert_eq!(find_invalid_character("a\tb"), Some('\t'));
}

#[test]
fn check_name_rules() {
    assert!(check_name("first_name", &None).is_ok());
    assert!(check_name("first_name", &Some("a".repeat(50))).is_ok());
    match check_name("first_name", &Some("a".repeat(51))) {
        Err(ProfileError::NameTooLong(label)) => assert_eq!(label, "first_name"),
        other => panic!("unexpected {:?}", other),
    }
    // The length is counted in bytes, and checked before the characters.
    match check_name("last_name", &Some("é".repeat(26))) {
        Err(ProfileError::NameTooLong(label)) => assert_eq!(label, "last_name"),
        other => panic!("unexpected {:?}", other),
    }
    match check_name("last_name", &Some("1".repeat(51))) {
        Err(ProfileError::NameTooLong(_)) => {}
        other => panic!("unexpected {:?}", other),
    }
    assert!(matches!(check_name("x", &Some("a1".to_string())), Err(ProfileError::InvalidNameCharacter('1'))));
}

#[test]
fn validate_accepts_a_good_profile() {
    let mut p = profile();
    assert!(p.validate().is_ok());
    p.set_field("first_name", Some("Anne-Marie".to_string()), None);
    p.set_field("middle_name", Some("de la".to_string()), None);
    p.set_field("last_name", Some("O'Neil".to_string()), None);
    p.set_field("display_picture", Some("https://example.com/me.png".to_string()), None);
    p.address.value = Some(vec![0u8; 200]);
    assert!(p.validate().is_ok());
}

#[test]
fn validate_reports_bad_url_first() {
    let mut p = profile();
    p.set_field("display_picture", Some("not a url".to_string()), None);
    p.set_field("first_name", Some("R2D2".to_string()), None);
    match p.validate() {
        Err(ProfileError::InvalidDisplayPictureUrl(url)) => assert_eq!(url, "not a url"),
        other => panic!("unexpected {:?}", other),
    }
    p.set_field("display_picture", Some("http://".to_string()), None);
    assert!(matches!(p.validate(), Err(ProfileError::InvalidDisplayPictureUrl(_))));
}

#[test]
fn validate_reports_names_in_order() {
    let mut p = profile();
    p.set_field("last_name", Some("x".repeat(51)), None);
    p.set_field("middle_name", Some("a1".to_string()), None);
    assert!(matches!(p.validate(), Err(ProfileError::InvalidNameCharacter('1'))));
    p.set_field("first_name", Some("y".repeat(60)), None);
    match p.validate() {
        Err(ProfileError::NameTooLong(label)) => assert_eq!(label, "first_name"),
        other => panic!("unexpected {:?}", other),
    }
    p.set_field("first_name", None, None);
    p.set_field("middle_name", None, None);
    match p.validate() {
        Err(ProfileError::NameTooLong(label)) => assert_eq!(label, "last_name"),
        other => panic!("unexpected {:?}", other),
    }
}

#[test]
fn validate_reports_long_address_last() {
    let mut p = profile();
    p.address.value = Some(vec![0u8; 201]);
    assert!(matches!(p.validate(), Err(ProfileError::AddressTooLong)));
    p.set_field("first_name", Some("a!".to_string()), None);
    assert!(matches!(p.validate(), Err(ProfileError::InvalidNameCharacter('!'))));
}

#[test]
fn client_errors() {
    assert!(ProfileError::InvalidDisplayPictureUrl("u".to_string()).is_client_error());
    assert!(ProfileError::NameTooLong("n".to_string()).is_client_error());
    assert!(ProfileError::AddressTooLong.is_client_error());
    assert!(ProfileError::InvalidNameCharacter('1').is_client_error());
    assert!(!ProfileError::Io("x".to_string()).is_client_error());
    assert!(!ProfileError::Json("x".to_string()).is_client_error());
    assert!(!ProfileError::EncryptionError("x".to_string()).is_client_error());
    assert!(!ProfileError::DecryptionError("x".to_string()).is_client_error());
    assert!(!ProfileError::UnauthorizedAccess.is_client_error());
}

#[test]
fn public_view_shows_public_fields_only() {
    let mut p = profile();
    p.set_field("first_name", Some("Ann".to_string()), Some(Visibility::Public));
    p.set_field("middle_name", Some("B".to_string()), Some(Visibility::Private));
    p.set_field("last_name", Some("Lee".to_string()), None);
    p.set_field("display_picture", None, Some(Visibility::Public));
    p.address.value = Some(b"sealed".to_vec());
    let v = p.to_public_view();
    assert_eq!(v.pubkey, "pk");
    assert_eq!(v.updated_at, Some(7));
    assert_eq!(v.first_name.value.as_deref(), Some("Ann"));
    assert_eq!(v.first_name.visibility, Visibility::Public);
    assert_eq!(v.middle_name.value, None);
    assert_eq!(v.middle_name.visibility, Visibility::Private);
    assert_eq!(v.last_name.value, None);
    assert_eq!(v.display_picture.value, None);
    assert_eq!(v.display_picture.visibility, Visibility::Public);
    assert_eq!(v.address.value, None);
    assert_eq!(v.address.visibility, Visibility::Private);
    p.set_visibility("address", Visibility::Public);
    let v = p.to_public_view();
    assert_eq!(v.address.value, Some(b"sealed".to_vec()));
    assert_eq!(p.middle_name.value.as_deref(), Some("B"));
}

#[test]
fn profile_file_name_format() {
    assert_eq!(profile_file_name("abc"), "user_profile_abc.json");
    assert_eq!(profile_file_name(""), "user_profile_.json");
}

#[test]
fn request_validation_messages() {
    assert_eq!(empty_request().validate(), Ok(()));
    let mut r = empty_request();
    r.address = update(Some("1 Main St"), Some(Visibility::Public));
    r.display_picture = update(Some("nope"), None);
    assert_eq!(r.validate(), Err("Address field cannot be marked as public".to_string()));
    r.address = update(Some("1 Main St"), Some(Visibility::Private));
    assert_eq!(r.validate(), Err("Invalid display picture URL: relative URL without a base".to_string()));
    r.display_picture = update(Some("https://example.com/a.png"), None);
    r.first_name = update(Some(&"a".repeat(51)), None);
    assert_eq!(r.validate(), Err("first_name is too long (max 50 characters)".to_string()));
    r.first_name = update(Some("Ann"), None);
    r.middle_name = update(Some("B4"), None);
    r.last_name = update(Some(&"z".repeat(99)), None);
    assert_eq!(r.validate(), Err("Invalid character '4' in middle_name".to_string()));
    r.middle_name = update(None, None);
    assert_eq!(r.validate(), Err("last_name is too long (max 50 characters)".to_string()));
    r.last_name = update(Some("O'Neil"), None);
    assert_eq!(r.validate(), Ok(()));
}

#[test]
fn request_turns_into_profile() {
    let mut r = empty_request();
    r.first_name = update(Some("Ann"), Some(Visibility::Public));
    r.middle_name = update(None, Some(Visibility::Public));
    r.last_name = update(Some("Lee"), None);
    r.address = update(Some("1 Main St"), Some(Visibility::Public));
    let p = r.to_profile("pk", 99);
    assert_eq!(p.pubkey, "pk");
    assert_eq!(p.updated_at, Some(99));
    assert_eq!(p.first_name.value.as_deref(), Some("Ann"));
    assert_eq!(p.first_name.visibility, Visibility::Public);
    assert_eq!(p.middle_name.value, None);
    assert_eq!(p.middle_name.visibility, Visibility::Public);
    assert_eq!(p.last_name.value.as_deref(), Some("Lee"));
    assert_eq!(p.last_name.visibility, Visibility::Private);
    assert_eq!(p.display_picture.value, None);
    assert_eq!(p.display_picture.visibility, Visibility::Private);
    assert_eq!(p.address.value, Some(b"1 Main St".to_vec()));
    assert_eq!(p.address.visibility, Visibility::Private);
    let c = r.changes();
    assert_eq!(c.first_name.as_deref(), Some("Ann"));
    assert_eq!(c.middle_name, None);
    assert_eq!(c.last_name.as_deref(), Some("Lee"));
    assert_eq!(c.display_picture, None);
}
