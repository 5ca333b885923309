use backpack::internal::{
    can_have_thumbnail, charset_string, get_token, image_exts, thumbnail_name, THUMBNAIL_SIZE,
    is_image_extension, random_string, thumbnail_candidates, validate_length, ServiceError,
};

#[test]
fn length_validation() {
    assert!(validate_length("Name", 4, 16, "abcd").is_ok());
    assert!(validate_length("Name", 4, 16, "abcdefghijklmnop").is_ok());
    assert!(validate_length("Name", 2, 8, "ab").is_ok());
    match validate_length("Name", 4, 16, "abcdefghijklmnopq") {
        Err(ServiceError::InvalidData(m)) => assert_eq!(m, "Name too long (maximum 16 characters)"),
        _ => panic!(),
    }
    match validate_length("Name", 1, 4, "abcde") {
        Err(ServiceError::InvalidData(m)) => assert_eq!(m, "Name too long (maximum 4 characters)"),
        _ => panic!(),
    }
    match validate_length("Username", 4, 16, "abc") {
        Err(ServiceError::InvalidData(m)) => assert_eq!(m, "Username too short (minimum 4 characters)"),
        _ => panic!(),
    }
    assert!(validate_length("Username", 0, 0, "").is_ok());
    // Lengths are counted in bytes: two two-byte characters are four bytes.
    assert!(validate_length("Name", 4, 16, "éé").is_ok());
    assert!(validate_length("Name", 4, 16, "é").is_err());
    assert!(validate_length("Name", 1, 3, "éé").is_err());
}

#[test]
fn random_strings() {
    for len in [0usize, 1, 16, 64] {
        let s = random_string(len);
        assert_eq!(s.chars().count(), len);
        assert!(s.chars().all(|c| c.is_ascii_alphanumeric()));
    }
    assert_eq!(charset_string(&vec![0, 25, 26, 51, 52, 61]), "AZaz09");
}

#[test]
fn thumbnails_only_for_images() {
    assert_eq!(image_exts().len(), 8);
    assert!(is_image_extension("PNG"));
    assert!(!is_image_extension("png"));
    assert!(can_have_thumbnail("photo.png"));
    assert!(can_have_thumbnail("dir/photo.JpEg"));
    assert!(can_have_thumbnail("x.pjp"));
    assert!(!can_have_thumbnail("notes.txt"));
    assert!(!can_have_thumbnail("noextension"));
    assert!(!can_have_thumbnail(".png"));
    let names = vec!["a.gif".to_string(), "b.txt".to_string(), "c.webp".to_string()];
    assert_eq!(thumbnail_candidates(&names), vec!["a.gif".to_string(), "c.webp".to_string()]);
}

#[test]
fn thumbnail_location_and_size() {
    assert_eq!(thumbnail_name("a.png"), "thumb/a.png");
    assert_eq!(thumbnail_name(""), "thumb/");
    assert_eq!(THUMBNAIL_SIZE, 500);
}

#[test]
fn bearer_tokens() {
    assert_eq!(get_token(None), None);
    assert_eq!(get_token(Some("Bearer abc")), Some("abc".to_string()));
    assert_eq!(get_token(Some("Bearer Bearer abc")), Some("abc".to_string()));
    assert_eq!(get_token(Some("Bearer ")), Some(String::new()));
    assert_eq!(get_token(Some("Basic abc")), None);
    assert_eq!(get_token(Some("bearer abc")), None);
}

use backpack::internal::{file_extension, path_extension};

#[test]
fn extensions_as_std_reads_them() {
    assert_eq!(file_extension("a.png").as_deref(), Some("png"));
    assert_eq!(file_extension(".png"), None);
    assert_eq!(file_extension("a.").as_deref(), Some(""));
    assert_eq!(file_extension("noext"), None);
    assert_eq!(file_extension("..a").as_deref(), Some("a"));
    for p in ["a.png", "dir/b.tar.gz", ".hidden", "x/.hidden", "x/", "x/..", "..", "a.b/c", "/", "", "a.", "dir.d/", "é.JPG"] {
        let expected = std::path::Path::new(p).extension().and_then(|e| e.to_str()).map(str::to_owned);
        assert_eq!(path_extension(p), expected, "{}", p);
    }
}
