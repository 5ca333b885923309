use backpack::models::{
    album_delete_files, album_deleted_response, auth_allows, not_found_response, token_exists_error,
    token_limit_error, token_name_error, upload_conflict_message, user_created_response,
    verification_resent_response, AlbumDelete, AppInfo, AuthMethods, FileData, MessageResponse,
    SettingsModel, UserRole,
};
use std::collections::HashMap;

#[test]
fn message_responses() {
    let r = MessageResponse::new(201, "made");
    assert_eq!((r.code(), r.message(), r.error()), (201, "made", None));
    assert!(r.data().is_none());
    let r = MessageResponse::internal_server_error("boom");
    assert_eq!(r.code(), 500);
    assert_eq!(r.message(), "There was a problem processing your request");
    assert_eq!(r.error(), Some("boom"));
    let r = MessageResponse::unauthorized_error();
    assert_eq!((r.code(), r.message()), (401, "You are not authorized to make this request"));
    let r = MessageResponse::bad_request();
    assert_eq!((r.code(), r.message()), (400, "You sent an invalid request"));
    let mut data = HashMap::new();
    data.insert("k".to_string(), serde_json::Value::Bool(true));
    let r = MessageResponse::new_with_data(200, "with", data);
    assert_eq!(r.data().as_ref().unwrap().len(), 1);
    assert_eq!(r.data().as_ref().unwrap().get("k"), Some(&serde_json::Value::Bool(true)));
    assert_eq!(r.error(), None);
    let r = token_exists_error();
    assert!(r.data().is_none() && r.error().is_none());
}

#[test]
fn app_info() {
    let settings = SettingsModel {
        one_row_enforce: true,
        app_name: "Backpack".into(),
        app_description: "Files".into(),
        color: "purple".into(),
    };
    let info = AppInfo::new(settings, true, false, 12, "v1.0");
    assert_eq!(info.app_name, "Backpack");
    assert_eq!(info.app_description, "Files");
    assert_eq!(info.color, "purple");
    assert!(info.invite_only);
    assert!(!info.smtp);
    assert_eq!(info.git_version, "v1.0");
    assert_eq!(info.uploaded_files, 12);
}

#[test]
fn authorization() {
    assert!(auth_allows(UserRole::User, UserRole::User, false, false));
    assert!(auth_allows(UserRole::Admin, UserRole::User, false, false));
    assert!(!auth_allows(UserRole::User, UserRole::Admin, false, false));
    assert!(auth_allows(UserRole::Admin, UserRole::Admin, true, true));
    assert!(!auth_allows(UserRole::Admin, UserRole::User, true, false));
    assert!(UserRole::User.is_below(&UserRole::Admin));
    assert!(!UserRole::Admin.is_below(&UserRole::User));
}

#[test]
fn enabled_methods_count() {
    let m = AuthMethods { password: true, google: None, github: Some("gh".into()), discord: Some("d".into()) };
    assert_eq!(m.enabled_methods(), 3);
    let m = AuthMethods { password: false, google: None, github: None, discord: None };
    assert_eq!(m.enabled_methods(), 0);
}

fn file(name: &str) -> FileData {
    FileData {
        id: "1".into(),
        uploader: "2".into(),
        name: name.into(),
        original_name: "orig".into(),
        url: None,
        thumbnail_url: None,
        hash: "h".into(),
        uploaded: 0,
        size: 3,
    }
}

#[test]
fn urls() {
    let mut f = file("abc.png");
    f.set_url("https:/storage");
    assert_eq!(f.url.as_deref(), Some("https:/storage/abc.png"));
    f.set_thumbnail_url("https:/storage");
    assert_eq!(f.thumbnail_url.as_deref(), Some("https:/storage/thumb/abc.png"));
    let mut g = file("abc.txt");
    g.set_thumbnail_url("/root");
    assert_eq!(g.thumbnail_url, None);
    g.set_url("/root/");
    assert_eq!(g.url.as_deref(), Some("/root/abc.txt"));
    for x in [&f, &g] {
        assert_eq!((x.id.as_str(), x.uploader.as_str(), x.original_name.as_str()), ("1", "2", "orig"));
        assert_eq!((x.hash.as_str(), x.uploaded, x.size), ("h", 0, 3));
    }
}

#[test]
fn token_checks() {
    assert!(token_limit_error(5).is_none());
    let e = token_limit_error(6).unwrap();
    assert_eq!((e.code(), e.message()), (400, "The token limit per user is 5"));
    assert!(token_name_error("good").is_none());
    assert_eq!(token_name_error("abc").unwrap().message(), "Token name too short (maximum 4 characters)");
    assert_eq!(token_name_error(&"x".repeat(33)).unwrap().message(), "Token name too long (maximum 32 characters)");
    assert_eq!(token_exists_error().message(), "A token with that name already exists");
}

#[test]
fn route_answers() {
    assert_eq!(user_created_response().message(), "User has successfully been created");
    assert_eq!(verification_resent_response("a@b.c").message(), "Verification email resent to a@b.c");
    assert_eq!(album_deleted_response("Trip").message(), "Successfully deleted album: Trip");
    let nf = not_found_response();
    assert_eq!((nf.code(), nf.message()), (404, "Resource was not found!"));
    assert!(!album_delete_files(&AlbumDelete { delete_files: None }));
    assert!(album_delete_files(&AlbumDelete { delete_files: Some(true) }));
    assert_eq!(upload_conflict_message(), "File was already uploaded");
}
