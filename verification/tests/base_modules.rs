use backup_client::i18n::{normalize_lang, Catalog, Translator};
use backup_client::validation::{is_latin_identifier, normalize_task_type, sanitize_slug, validate_db_identifier, validate_db_host, validate_db_port};
use backup_client::ui::{done_line, host_from_url, parse_server_addr, section, server_addr_from_url, wss_url_from_server_addr, AddrError};
use backup_client::clock::Instant;
use backup_client::models::Connection;
use backup_client::anomaly::{detect, flags_to_string};
use backup_client::protocol::{backup_file_label, device_id_short, filename_from_download_url};
use backup_client::strmap::StrMap;
use backup_client::config::{should_persist, DecryptConfig};
use backup_client::paths::{backups_path_unicode_warning, backups_root, backups_root_label, connection_backups_dir_with, data_dir, db_path, log_path, path_has_extended_unicode, resolve_backups_root};
use aes_gcm::aead::{Aead, KeyInit};
use aes_gcm::{Aes256Gcm, Nonce};
use backup_client::crypto::{decrypt_bytes, is_wrong_password, plaintext_filename, DecryptError, MAGIC};
use sha2::{Digest, Sha256};
use backup_client::ca::{agent_dir, ca_dir, cert_fingerprint_der, cert_fingerprint_pem, parse_host_from_server_addr, root_cert_path, CertError};
use backup_client::device_id::{device_id_from_fields, identifier_value, is_generic_serial, platform_uuid_from_ioreg, DeviceIdError};

fn s(x: &str) -> String {
    x.to_string()
}

fn catalogs() -> Translator {
    Translator::with_catalogs(vec![
        Catalog {
            lang: s("en"),
            entries: vec![
                (s("state.on"), s("on")),
                (s("greet"), s("Hello {name}, {name}!")),
                (s("validation.field_required"), s("{label} is required")),
                (s("validation.field_latin"), s("{label}: Latin letters only")),
                (s("validation.db_host_required"), s("Host is required")),
                (s("validation.db_host_format"), s("Bad host")),
                (s("error.invalid_port"), s("Bad port {port}")),
                (s("common.default_paren"), s("(default)")),
                (s("settings.backups_unicode_warn"), s("Unicode path")),
            ],
        },
        Catalog { lang: s("ru"), entries: vec![(s("state.on"), s("вкл"))] },
    ])
}

#[test]
fn translations_fall_back_to_english_then_key() {
    let mut tr = catalogs();
    assert_eq!(tr.t("state.on"), "on");
    tr.set_locale("RU-ru");
    assert_eq!(tr.current_language(), "ru");
    assert_eq!(tr.t("state.on"), "вкл");
    assert_eq!(tr.t("greet"), "Hello {name}, {name}!");
    assert_eq!(tr.t_fmt("greet", &[("name", "Ann")]), "Hello Ann, Ann!");
    assert_eq!(tr.t("missing.key"), "missing.key");
    assert_eq!(tr.lookup("ru", "greet"), None);
    assert_eq!(normalize_lang(" zh_CN "), "zh-cn");
    assert_eq!(normalize_lang("klingon"), "en");
    assert_eq!(Translator::new().t("state.off"), "state.off");
}

#[test]
fn slugs_and_identifiers() {
    assert_eq!(sanitize_slug(" My Server #1 "), "MyServer1");
    assert!(is_latin_identifier(" shop_db-2 "));
    assert!(!is_latin_identifier("   "));
    let tr = catalogs();
    assert_eq!(validate_db_identifier(&tr, "Database", " shop ").unwrap(), "shop");
    assert_eq!(validate_db_identifier(&tr, "Database", " ").unwrap_err(), "Database is required");
    assert_eq!(validate_db_identifier(&tr, "User", "ünï").unwrap_err(), "User: Latin letters only");
    assert_eq!(normalize_task_type("file_archive"), "files_archive");
    assert_eq!(normalize_task_type("shell"), "shell");
}

#[test]
fn database_host_and_port() {
    let tr = catalogs();
    assert_eq!(validate_db_host(&tr, " db.internal ").unwrap(), "db.internal");
    assert_eq!(validate_db_host(&tr, "10.0.0.1").unwrap(), "10.0.0.1");
    assert_eq!(validate_db_host(&tr, "").unwrap_err(), "Host is required");
    assert_eq!(validate_db_host(&tr, "bad host").unwrap_err(), "Bad host");
    assert_eq!(validate_db_port(&tr, " 5432 ").unwrap(), 5432);
    assert!(validate_db_port(&tr, "70000").is_err());
    assert!(validate_db_port(&tr, "0").is_err());
}

#[test]
fn server_addresses() {
    assert_eq!(server_addr_from_url(" wss://10.0.0.5:9443/ws "), "10.0.0.5:9443");
    assert_eq!(server_addr_from_url("example.org:1"), "example.org:1");
    assert_eq!(host_from_url("ws://h:1/"), "h:1");
    assert_eq!(parse_server_addr(" example.org ").unwrap(), "example.org:8080");
    assert_eq!(parse_server_addr("wss://h:9443/ws").unwrap(), "h:9443");
    assert_eq!(parse_server_addr("  "), Err(AddrError::AddressRequired));
    assert_eq!(parse_server_addr(":80"), Err(AddrError::InvalidHost));
    assert_eq!(parse_server_addr("h:99999"), Err(AddrError::InvalidPort { port: s("99999") }));
    assert_eq!(AddrError::InvalidPort { port: s("x") }.message(&catalogs()), "Bad port x");
    assert_eq!(wss_url_from_server_addr("h:1").unwrap(), "wss://h:1/ws");
    assert_eq!(section("Tasks"), "? Tasks >");
    assert_eq!(done_line("Task", "db"), "+ Task · db");
}

#[test]
fn connection_labels() {
    let _ = Instant { secs: 0, nanos: 0 };
    let c = Connection {
        id: s("c"),
        slug: s("prod"),
        url: s("wss://h:9443/ws"),
        api_key: s(""),
        tls_enabled: true,
        cert_fingerprint: None,
        enabled: true,
        created_at: s(""),
        secrets_mode: s("production"),
        retention_days: 14,
        retention_last_run: None,
    };
    assert_eq!(c.label(), "h:9443 | prod");
    assert!(c.is_production());
    assert_eq!(c.retention_short(&Translator::new()), "retention.short_14d");
    assert_eq!(c.secrets_mode_label(&Translator::new()), "secrets.production");
}

#[test]
fn anomaly_flags() {
    assert_eq!(detect("files_archive", 10, false), vec![s("tiny_file")]);
    assert_eq!(detect("sqlite_dump", 10, true), vec![s("size_drop")]);
    assert!(detect("shell", 0, true).is_empty());
    assert_eq!(flags_to_string(&[s("a"), s("b")]), Some(s("a,b")));
    assert_eq!(flags_to_string(&[]), None);
}

#[test]
fn download_names_and_labels() {
    assert_eq!(filename_from_download_url("https://h/files/a.zip"), Some(s("a.zip")));
    assert_eq!(filename_from_download_url("https://h/files/"), None);
    assert_eq!(filename_from_download_url("plain"), Some(s("plain")));
    assert_eq!(backup_file_label("mariadb_dump"), "mysql");
    assert_eq!(backup_file_label("file_archive"), "files");
    assert_eq!(backup_file_label("custom"), "custom");
    let id = "0123456789abcdef0123456789abcdef0123456789abcdef0123456789abcdef";
    assert_eq!(device_id_short(id), "01234567...89abcdef");
    assert_eq!(device_id_short("0123456789abcdefXYZ"), "0123456789abcdef...");
    assert_eq!(device_id_short("short"), "short");
}

#[test]
fn string_map_keeps_keys_sorted() {
    let mut m: StrMap<u32> = StrMap::new();
    m.insert(s("b"), 2);
    m.insert(s("a"), 1);
    m.insert(s("c"), 3);
    m.insert(s("b"), 20);
    assert_eq!(m.len(), 3);
    assert_eq!(m.get("b"), Some(&20));
    assert_eq!(m.key_strings(), vec![s("a"), s("b"), s("c")]);
    assert_eq!(m.remove("a"), Some(1));
    assert_eq!(m.remove("a"), None);
    assert_eq!(*m.value_at(0), 20);
    assert!(!m.is_empty());
}

#[test]
fn decrypt_settings() {
    let mut cfg = DecryptConfig::empty();
    assert!(!should_persist(&cfg));
    assert_eq!(cfg.profiles_hint(), "(none)");
    assert_eq!(cfg.path_hint(), "(not set)");
    assert_eq!(cfg.output_path_hint(), "(in-place, next to .aes)");
    cfg.set_profile_password("production", s("test-passphrase"));
    cfg.set_profile_password("staging", s(""));
    assert_eq!(cfg.profile_password("production"), Some("test-passphrase"));
    assert_eq!(cfg.profile_password("staging"), None);
    assert!(cfg.has_any_password());
    assert!(!cfg.is_ready());
    cfg.path = s(" /backups ");
    assert!(cfg.is_ready());
    assert_eq!(cfg.path_hint(), "/backups");
    assert_eq!(cfg.profile_slugs(), vec![s("production"), s("staging")]);
    assert_eq!(cfg.profiles_hint(), "2 connection name(s): production, staging");
    assert_eq!(cfg.auto_password_for_file(Some("production")), Some(s("test-passphrase")));
    assert_eq!(cfg.auto_password_for_file(Some("staging")), None);
    assert!(cfg.remove_profile("staging"));
    assert!(!cfg.remove_profile("staging"));
    assert_eq!(cfg.auto_password_for_file(None), Some(s("test-passphrase")));
    assert_eq!(cfg.password_for_slug("production"), Some(s("test-passphrase")));
    assert!(should_persist(&cfg));
}

#[test]
fn backups_paths() {
    assert_eq!(db_path("/opt/bc"), "/opt/bc/backup.db");
    assert_eq!(data_dir("/opt/bc"), "/opt/bc/data");
    assert_eq!(log_path("/opt/bc"), "/opt/bc/data/backup.log");
    assert_eq!(backups_root("/opt/bc"), "/opt/bc/data/backups");
    assert_eq!(resolve_backups_root("/opt/bc", Some("  ")), "/opt/bc/data/backups");
    assert_eq!(resolve_backups_root("/opt/bc", Some(" /mnt/b ")), "/mnt/b");
    assert_eq!(connection_backups_dir_with("/mnt/b", "prod"), "/mnt/b/prod");
    assert!(!path_has_extended_unicode("C:/Резервные копии"));
    assert!(path_has_extended_unicode("D:/备份"));
    let tr = catalogs();
    assert_eq!(backups_path_unicode_warning(&tr, "D:/备份"), Some(s("Unicode path")));
    assert_eq!(backups_path_unicode_warning(&tr, "D:/b"), None);
    assert_eq!(backups_root_label(&tr, None), "data/backups (default)");
    assert_eq!(backups_root_label(&tr, Some(" /mnt/b ")), "/mnt/b");
}

#[test]
fn encrypted_backups_open_with_the_right_password() {

    let key: [u8; 32] = Sha256::digest(b"secret").into();
    let cipher = Aes256Gcm::new_from_slice(&key).unwrap();
    let nonce = [7u8; 12];
    let sealed = cipher.encrypt(Nonce::from_slice(&nonce), b"hello backup".as_ref()).unwrap();
    let mut file = MAGIC.to_vec();
    file.extend_from_slice(&nonce);
    file.extend_from_slice(&sealed);

    assert_eq!(decrypt_bytes(&file, "secret").unwrap(), b"hello backup".to_vec());
    let wrong = decrypt_bytes(&file, "guess").unwrap_err();
    assert_eq!(wrong, DecryptError::WrongPassword);
    assert!(is_wrong_password(&wrong));
    assert_eq!(wrong.message(), "Decryption failed (wrong password or corrupted file)");
    assert_eq!(decrypt_bytes(&file[..20], "secret").unwrap_err(), DecryptError::TooShort);
    let mut bad = file.clone();
    bad[0] = b'X';
    assert_eq!(decrypt_bytes(&bad, "secret").unwrap_err(), DecryptError::BadMagic);
    assert_eq!(plaintext_filename("backup_foo.zip.aes"), Some(s("backup_foo.zip")));
    assert_eq!(plaintext_filename("backup_foo.zip"), None);
}

#[test]
fn certificate_fingerprints() {
    let pem = "-----BEGIN CERTIFICATE-----\nYWJj\n-----END CERTIFICATE-----\n";
    assert_eq!(
        cert_fingerprint_pem(pem).unwrap(),
        "ba7816bf8f01cfea414140de5dae2223b00361a396177a9cb410ff61f20015ad"
    );
    assert_eq!(cert_fingerprint_der(b"abc"), cert_fingerprint_pem(pem).unwrap());
    assert_eq!(cert_fingerprint_pem("no certificate here"), Err(CertError::NoCertificate));
    assert_eq!(parse_host_from_server_addr(" 10.0.0.5:9443 ").unwrap(), "10.0.0.5");
    assert_eq!(parse_host_from_server_addr("host").unwrap(), "host");
    assert_eq!(ca_dir("/opt/bc"), "/opt/bc/data/ca");
    assert_eq!(root_cert_path("/opt/bc"), "/opt/bc/data/ca/root.crt");
    assert_eq!(agent_dir("/opt/bc", "prod"), "/opt/bc/data/ca/prod");
}

#[test]
fn device_ids_are_stable_hex() {
    let fields = vec![(s("machine_uid"), s("abc")), (s("board_serial"), s("S1"))];
    let id = device_id_from_fields("linux", "x86_64", &fields).unwrap();
    assert_eq!(id.len(), 64);
    assert!(id.chars().all(|c| c.is_ascii_hexdigit() && !c.is_ascii_uppercase()));
    assert_eq!(id, device_id_from_fields("linux", "x86_64", &fields).unwrap());
    let canonical = "board_serial=S1|machine_uid=abc|target_arch=x86_64|target_os=linux";
    assert_eq!(id, hex::encode(Sha256::digest(canonical.as_bytes())));
    assert_eq!(device_id_from_fields("linux", "x86_64", &vec![]), Err(DeviceIdError::InsufficientFields));
    assert!(is_generic_serial(" system serial number "));
    assert!(is_generic_serial("To be filled by O.E.M."));
    assert!(!is_generic_serial("ABC123"));
    assert_eq!(identifier_value("  uuid-1 \n"), Some(s("uuid-1")));
    assert_eq!(identifier_value("Default string"), None);
}

#[test]
fn ioreg_platform_uuid_is_read_from_first_matching_line() {
    let out = "+-o Root\n    \"IOPlatformSerialNumber\" = \"C02XYZ\"\n    \"IOPlatformUUID\" = \" 1234-ABCD \"\r\n    \"IOPlatformUUID\" = \"second\"\n";
    assert_eq!(platform_uuid_from_ioreg(out).as_deref(), Some("1234-ABCD"));
    assert_eq!(platform_uuid_from_ioreg("no such line\n"), None);
    assert_eq!(platform_uuid_from_ioreg("\"IOPlatformUUID\" = \"  \"\n\"IOPlatformUUID\" = \"x\""), None);
    assert_eq!(platform_uuid_from_ioreg("IOPlatformUUID"), None);
}

#[test]
fn wss_url_parses_back_to_the_same_address() {
    for input in ["1.2.3.4", " host:9000 ", "wss://ws://h:1", "wss://h/ws/", "wss:8080"] {
        let addr = parse_server_addr(input).unwrap();
        let url = wss_url_from_server_addr(input).unwrap();
        assert_eq!(parse_server_addr(&url).unwrap(), addr);
    }
    assert_eq!(wss_url_from_server_addr("1.2.3.4").unwrap(), "wss://1.2.3.4:8080/ws");
}

#[test]
fn fingerprints_and_ids_are_64_hex_digits() {
    let f = cert_fingerprint_der(b"certificate bytes");
    assert_eq!(f.len(), 64);
    assert!(f.chars().all(|c| c.is_ascii_hexdigit() && !c.is_ascii_uppercase()));
}
