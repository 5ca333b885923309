use backpack::database::{
    db_version_query, file_page_offset, format_db_version, requested_file, total_file_pages, DbBackend,
};

#[test]
fn version_queries() {
    assert_eq!(db_version_query(DbBackend::Sqlite), "select sqlite_version() as version;");
    assert_eq!(db_version_query(DbBackend::Postgres), "select version() as version;");
    assert_eq!(format_db_version(DbBackend::Sqlite, "3.40".into()), "SQLite 3.40");
    assert_eq!(format_db_version(DbBackend::MySql, "8.0".into()), "8.0");
}

#[test]
fn paging() {
    assert_eq!(total_file_pages(0, 25), 0);
    assert_eq!(total_file_pages(25, 25), 1);
    assert_eq!(total_file_pages(26, 25), 2);
    assert_eq!(file_page_offset(1, 25), 0);
    assert_eq!(file_page_offset(3, 25), 50);
}

#[test]
fn request_paths() {
    assert_eq!(requested_file("/"), None);
    assert_eq!(requested_file("///"), None);
    assert_eq!(requested_file("/a/b.png"), Some("a/b.png".to_string()));
    assert_eq!(requested_file("/../x"), Some("/x".to_string()));
    assert_eq!(requested_file("/a/..../b"), Some("a//b".to_string()));
    assert_eq!(requested_file("/a/.../b"), Some("a/./b".to_string()));
}
