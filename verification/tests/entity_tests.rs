use backpack::entity::{AlbumRow, FileRow, RegistrationKeyRow, Role, UserRow};
use backpack::models::{AlbumData, FileData, RegistrationKeyData, UserData, UserRole};

#[test]
fn roles_convert() {
    assert_eq!(UserRole::from(Role::Admin), UserRole::Admin);
    assert_eq!(UserRole::from(Role::User), UserRole::User);
}

#[test]
fn user_rows_convert() {
    let row = UserRow {
        id: "1".into(),
        email: "a@b.c".into(),
        username: "ann".into(),
        verified: true,
        registered: false,
        role: Role::Admin,
    };
    let u = UserData::from(row);
    assert_eq!(u.id, "1");
    assert_eq!(u.username, "ann");
    assert_eq!(u.email.as_deref(), Some("a@b.c"));
    assert_eq!(u.verified, Some(true));
    assert_eq!(u.registered, Some(false));
    assert_eq!(u.role, UserRole::Admin);
}

#[test]
fn file_rows_convert_without_urls() {
    let row = FileRow {
        id: "9".into(),
        name: "x.png".into(),
        original_name: "holiday.png".into(),
        uploader: "1".into(),
        hash: "abc".into(),
        uploaded: 42,
        size: 1024,
    };
    let f = FileData::from(row);
    assert_eq!((f.id.as_str(), f.name.as_str(), f.original_name.as_str()), ("9", "x.png", "holiday.png"));
    assert_eq!((f.uploader.as_str(), f.hash.as_str(), f.uploaded, f.size), ("1", "abc", 42, 1024));
    assert!(f.url.is_none() && f.thumbnail_url.is_none());
}

#[test]
fn album_and_key_rows_convert() {
    let a = AlbumData::from(AlbumRow {
        id: "3".into(),
        name: "Trip".into(),
        description: None,
        user_id: "1".into(),
        public: true,
        created: 7,
    });
    assert_eq!((a.id.as_str(), a.name.as_str(), a.user_id.as_str(), a.public, a.created), ("3", "Trip", "1", true, 7));
    let k = RegistrationKeyData::from(RegistrationKeyRow {
        id: "5".into(),
        issuer: "1".into(),
        code: "c0de".into(),
        uses_left: Some(2),
        expiry_date: None,
    });
    assert_eq!((k.id.as_str(), k.issuer.as_str(), k.code.as_str(), k.uses_left, k.expiry_date), ("5", "1", "c0de", Some(2), None));
}
