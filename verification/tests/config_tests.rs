use backpack::config::{
    parse_bool_var, parse_u16, parse_usize, served_storage_path, storage_kind, LocalConfig, S3Config,
    StorageConfig, StorageKind,
};

#[test]
fn storage_kinds() {
    assert_eq!(storage_kind("local"), Some(StorageKind::Local));
    assert_eq!(storage_kind("s3"), Some(StorageKind::S3));
    assert_eq!(storage_kind("S3"), None);
}

#[test]
fn variable_parsing() {
    assert_eq!(parse_u16("8080"), Some(8080));
    assert_eq!(parse_u16("70000"), None);
    assert_eq!(parse_usize("100"), Some(100));
    assert_eq!(parse_usize("-1"), None);
    assert_eq!(parse_bool_var("true"), Some(true));
    assert_eq!(parse_bool_var("yes"), None);
}

#[test]
fn served_path() {
    let local = StorageConfig::Local(LocalConfig { path: "./uploads".into(), serve: true });
    assert_eq!(served_storage_path(&local), Some("./uploads".to_string()));
    let hidden = StorageConfig::Local(LocalConfig { path: "./uploads".into(), serve: false });
    assert_eq!(served_storage_path(&hidden), None);
    let s3 = StorageConfig::S3(S3Config {
        bucket: "b".into(),
        access_key: "a".into(),
        secret_key: "s".into(),
        region_name: "r".into(),
        region_endpoint: "e".into(),
    });
    assert_eq!(served_storage_path(&s3), None);
}

use backpack::config::{Config, ConfigError};

fn vars(pairs: &[(&str, &str)]) -> Vec<(String, String)> {
    pairs.iter().map(|(k, v)| (k.to_string(), v.to_string())).collect()
}

fn base() -> Vec<(&'static str, &'static str)> {
    vec![
        ("PORT", "8080"),
        ("STORAGE_URL", "http://localhost:8080/"),
        ("DATABASE_URL", "postgres://db"),
        ("JWT_KEY", "secret"),
        ("API_URL", "http://api"),
        ("CLIENT_URL", "http://client"),
        ("WORKER_ID", "3"),
        ("STORAGE_PROVIDER", "local"),
    ]
}

#[test]
fn config_with_defaults() {
    let c = Config::from_vars(&vars(&base())).unwrap();
    assert_eq!(c.port, 8080);
    assert_eq!(c.worker_id, 3);
    assert_eq!(c.file_size_limit, 100);
    assert!(!c.invite_only);
    assert!(c.run_migrations);
    assert!(c.smtp_config.is_none());
    match c.storage_provider {
        StorageConfig::Local(l) => {
            assert_eq!(l.path, "./uploads");
            assert!(l.serve);
        }
        _ => panic!(),
    }
}

#[test]
fn config_s3_and_smtp() {
    let mut v = base();
    v.retain(|(k, _)| *k != "STORAGE_PROVIDER");
    v.extend([
        ("STORAGE_PROVIDER", "s3"),
        ("S3_BUCKET", "b"),
        ("S3_ACCESS_KEY", "a"),
        ("S3_SECRET_KEY", "s"),
        ("S3_REGION", "r"),
        ("S3_ENDPOINT", "e"),
        ("SMTP_ENABLED", "true"),
        ("SMTP_USERNAME", "u"),
        ("SMTP_PASSWORD", "p"),
        ("SMTP_SERVER", "m"),
        ("FILE_SIZE_LIMIT", "250"),
        ("INVITE_ONLY", "true"),
    ]);
    let c = Config::from_vars(&vars(&v)).unwrap();
    assert_eq!(c.file_size_limit, 250);
    assert!(c.invite_only);
    match &c.storage_provider {
        StorageConfig::S3(s) => assert_eq!((s.bucket.as_str(), s.region_endpoint.as_str()), ("b", "e")),
        _ => panic!(),
    }
    assert_eq!(c.smtp_config.as_ref().unwrap().server, "m");
}

#[test]
fn config_errors_in_reading_order() {
    let mut v = base();
    v.retain(|(k, _)| *k != "PORT" && *k != "JWT_KEY");
    let e = Config::from_vars(&vars(&v)).err().unwrap();
    assert!(matches!(&e, ConfigError::Missing(n) if n == "PORT"));
    assert_eq!(e.message(), "Missing environment variable PORT");

    let mut v = base();
    v[0] = ("PORT", "http");
    let e = Config::from_vars(&vars(&v)).err().unwrap();
    assert_eq!(e.message(), "Unable to parse PORT as u16");

    let mut v = base();
    v.push(("RUN_MIGRATIONS", "yes"));
    let e = Config::from_vars(&vars(&v)).err().unwrap();
    assert_eq!(e.message(), "Unable to parse RUN_MIGRATIONS as bool");

    let mut v = base();
    v.retain(|(k, _)| *k != "STORAGE_PROVIDER");
    v.push(("STORAGE_PROVIDER", "ftp"));
    let e = Config::from_vars(&vars(&v)).err().unwrap();
    assert!(matches!(e, ConfigError::InvalidStorageProvider));
    assert_eq!(e.message(), "Invalid storage provider for environment variable STORAGE_PROVIDER");

    let mut v = base();
    v.retain(|(k, _)| *k != "STORAGE_PROVIDER");
    v.push(("STORAGE_PROVIDER", "s3"));
    v.push(("S3_BUCKET", "b"));
    let e = Config::from_vars(&vars(&v)).err().unwrap();
    assert_eq!(e.message(), "Missing environment variable S3_ACCESS_KEY");

    let mut v = base();
    v.push(("SMTP_ENABLED", "true"));
    v.push(("SMTP_USERNAME", "u"));
    let e = Config::from_vars(&vars(&v)).err().unwrap();
    assert_eq!(e.message(), "Missing environment variable SMTP_PASSWORD");
}
