use backpack::multipart::{
    field_action, format_field_name, text_value, FieldAction, FormEntry, FormMap, FormValue,
    Multipart,
};

fn get<'a>(m: &'a FormMap, key: &str) -> Option<&'a FormEntry> {
    m.entries().iter().find(|(k, _)| k == key).map(|(_, e)| e)
}

#[test]
fn multipart_holds_its_data() {
    let m = Multipart::new(5u32);
    assert_eq!(*m.data(), 5);
    assert_eq!(*m, 5);
    assert_eq!(m.into_inner(), 5);
}

#[test]
fn field_actions() {
    let valid = vec!["name".to_string(), "upload_file".to_string()];
    assert_eq!(field_action(&valid, None, false), FieldAction::Skip);
    assert_eq!(field_action(&valid, Some("other"), true), FieldAction::Skip);
    assert_eq!(field_action(&valid, Some("upload_file"), true), FieldAction::ReadFile);
    assert_eq!(field_action(&valid, Some("name"), false), FieldAction::ReadFirstChunk);
    // A list field is only read when its name, marker included, is a form field.
    assert_eq!(field_action(&valid, Some("name[]"), false), FieldAction::Skip);
}

#[test]
fn formatted_names() {
    assert_eq!(format_field_name("files[]"), "files");
    assert_eq!(format_field_name("a[]b"), "ab");
    assert_eq!(format_field_name("plain"), "plain");
}

#[test]
fn text_values() {
    assert!(matches!(text_value("42"), FormValue::Number(42)));
    assert!(matches!(text_value("-7"), FormValue::Number(-7)));
    assert!(matches!(text_value("true"), FormValue::Bool(true)));
    assert!(matches!(text_value("false"), FormValue::Bool(false)));
    assert!(matches!(text_value("hello"), FormValue::Text(ref s) if s == "hello"));
    assert!(matches!(text_value("99999999999999999999"), FormValue::Text(_)));
}

#[test]
fn plain_field_last_value_wins() {
    let mut m = FormMap::new();
    m.insert_text_field("name", Some(b"first".to_vec()));
    m.insert_text_field("name", Some(b"second".to_vec()));
    assert_eq!(m.len(), 1);
    assert!(matches!(get(&m, "name"), Some(FormEntry::Single(FormValue::Text(s))) if s == "second"));
}

#[test]
fn list_field_collects_in_order() {
    let mut m = FormMap::new();
    m.insert_text_field("ids[]", Some(b"1".to_vec()));
    m.insert_text_field("ids[]", Some(b"2".to_vec()));
    match get(&m, "ids") {
        Some(FormEntry::List(v)) => {
            assert_eq!(v.len(), 2);
            assert!(matches!(v[0], FormValue::Number(1)));
            assert!(matches!(v[1], FormValue::Number(2)));
        }
        _ => panic!("expected a list"),
    }
    assert!(!m.contains_key("ids[]"));
}

#[test]
fn list_value_dropped_when_name_holds_a_single_value() {
    let mut m = FormMap::new();
    m.insert_text_field("ids", Some(b"x".to_vec()));
    m.insert_text_field("ids[]", Some(b"1".to_vec()));
    assert!(matches!(get(&m, "ids"), Some(FormEntry::Single(FormValue::Text(s))) if s == "x"));
}

#[test]
fn empty_field_is_null_and_bad_utf8_is_dropped() {
    let mut m = FormMap::new();
    m.insert_text_field("a", None);
    assert!(matches!(get(&m, "a"), Some(FormEntry::Single(FormValue::Null))));
    m.insert_text_field("b", Some(vec![0xff, 0xfe]));
    assert!(!m.contains_key("b"));
    assert_eq!(m.len(), 1);
}

#[test]
fn file_fields() {
    let mut m = FormMap::new();
    m.insert_file_field("upload_file", "image/png".into(), "a.png".into(), vec![1, 2, 3], false);
    match get(&m, "upload_file") {
        Some(FormEntry::Single(FormValue::File(f))) => {
            assert_eq!(f.content_type, "image/png");
            assert_eq!(f.name, "a.png");
            assert_eq!(f.bytes, vec![1, 2, 3]);
        }
        _ => panic!("expected a file"),
    }
    // A failed chunk on a list field leaves null under the formatted name.
    m.insert_file_field("docs[]", "text/plain".into(), "b.txt".into(), vec![], true);
    assert!(matches!(get(&m, "docs"), Some(FormEntry::Single(FormValue::Null))));
    // On a plain field the file replaces the null.
    m.insert_file_field("other", "text/plain".into(), "c.txt".into(), vec![9], true);
    assert!(matches!(get(&m, "other"), Some(FormEntry::Single(FormValue::File(_)))));
}
