use backpack::sqlite::{
    fkey_not_found_message, sqlite_add_constraint, sqlite_change_schema, sqlite_create_fkey_sql,
    sqlite_drop_column_sql, sqlite_drop_fkey_sql, sqlite_remove_foreign_key, sqlite_table_def_query,
};

#[test]
fn change_schema_text() {
    let expected = format!(
        r#"
        PRAGMA foreign_keys=off;

        BEGIN TRANSACTION;

        ALTER TABLE {tbl_name} RENAME TO _{tbl_name}_old;
        
        {new_schema};

        INSERT INTO {tbl_name} SELECT * FROM _{tbl_name}_old;
        DROP TABLE _{tbl_name}_old;

        COMMIT;

        PRAGMA foreign_keys=on;
        "#,
        tbl_name = "files",
        new_schema = "CREATE TABLE files (id TEXT)"
    );
    assert_eq!(sqlite_change_schema("files", "CREATE TABLE files (id TEXT)"), expected);
}

#[test]
fn queries() {
    assert_eq!(sqlite_table_def_query("users"), "SELECT sql FROM sqlite_master WHERE name='users';");
    assert_eq!(sqlite_drop_column_sql("files", "album_id"), "ALTER TABLE files DROP COLUMN album_id;");
}

#[test]
fn add_constraint() {
    assert_eq!(
        sqlite_add_constraint("CREATE TABLE t (a INT, b INT)", "FOREIGN KEY (\"b\") REFERENCES u (\"id\")"),
        "CREATE TABLE t (a INT, b INT, FOREIGN KEY (\"b\") REFERENCES u (\"id\"))"
    );
    assert_eq!(sqlite_add_constraint("no paren", "X"), "no paren, X)");
}

#[test]
fn remove_foreign_key() {
    let def = "CREATE TABLE \"files\" ( \"id\" text, \"album_id\" text, FOREIGN KEY (\"album_id\") REFERENCES \"albums\" (\"id\") ON DELETE SET NULL, FOREIGN KEY (\"x\") REFERENCES \"y\" (\"id\") )";
    assert_eq!(
        sqlite_remove_foreign_key(def, "album_id").unwrap(),
        // The clause goes with the ", " before it; the next clause stays.
        "CREATE TABLE \"files\" ( \"id\" text, \"album_id\" text, FOREIGN KEY (\"x\") REFERENCES \"y\" (\"id\") )"
    );
    // The last key ends at its unquoted closing parenthesis.
    let def = "CREATE TABLE t ( \"a\" text, FOREIGN KEY (\"a\") REFERENCES \"u\" (\"id\") )";
    assert_eq!(sqlite_remove_foreign_key(def, "a").unwrap(), "CREATE TABLE t ( \"a\" text)");
    assert_eq!(sqlite_remove_foreign_key(def, "missing"), None);
}

#[test]
fn drop_one_of_two_foreign_keys() {
    let def = "CREATE TABLE \"t\" ( \"a\" text, \"b\" text, FOREIGN KEY (\"a\") REFERENCES \"x\" (\"id\"), FOREIGN KEY (\"b\") REFERENCES \"y\" (\"id\") )";
    let kept = "CREATE TABLE \"t\" ( \"a\" text, \"b\" text, FOREIGN KEY (\"b\") REFERENCES \"y\" (\"id\") )";
    assert_eq!(sqlite_remove_foreign_key(def, "a").unwrap(), kept);
    assert_eq!(sqlite_drop_fkey_sql("t", def, "a", "fk").unwrap(), sqlite_change_schema("t", kept));
}

#[test]
fn drop_missing_foreign_key() {
    let def = "CREATE TABLE \"t\" ( \"a\" text )";
    assert_eq!(
        sqlite_drop_fkey_sql("t", def, "c", "fk_t_c"),
        Err("Didn't find foreign key with name 'fk_t_c' on table 't'".to_string())
    );
    assert_eq!(fkey_not_found_message("k", "files"), "Didn't find foreign key with name 'k' on table 'files'");
}

#[test]
fn foreign_key_round_trip() {
    let def = "CREATE TABLE t ( \"a\" text)";
    let clause = "FOREIGN KEY (\"a\") REFERENCES \"u\" (\"id\") ON DELETE CASCADE";
    let added = sqlite_add_constraint(def, clause);
    assert_eq!(sqlite_remove_foreign_key(&added, "a").unwrap(), def);
    assert_eq!(sqlite_create_fkey_sql("t", def, clause), sqlite_change_schema("t", &added));
    let clause = "FOREIGN KEY (\"a\") REFERENCES \"u\" (\"id\")";
    let added = sqlite_add_constraint(def, clause);
    assert_eq!(sqlite_remove_foreign_key(&added, "a").unwrap(), def);
}
