use mail_archiver::config::{clone_archivers, lookup_archive_path, ArchiverSetup, Config, ConfigError};

fn setup(r: &str, a: &str) -> ArchiverSetup {
    ArchiverSetup { recipient: r.to_string(), archive_path: a.to_string() }
}

fn host() -> String {
    "host.example".to_string()
}

fn s(v: &str) -> Option<String> {
    Some(v.to_string())
}

#[test]
fn from_fields_defaults() {
    let c = Config::from_fields(s("127.0.0.1:25"), None, None, None, s("mail"), Some(vec![(s("a@x"), s("/a/%Y"))]), host())
        .ok()
        .unwrap();
    assert_eq!(c.listen, "127.0.0.1:25");
    assert_eq!(c.servername, "host.example");
    assert_eq!(c.log_level, "INFO");
    assert_eq!(c.user, None);
    assert_eq!(c.group, s("mail"));
    assert_eq!(c.archivers.len(), 1);
    assert_eq!(c.archivers[0].recipient, "a@x");
    assert_eq!(c.archivers[0].archive_path, "/a/%Y");
}

#[test]
fn from_fields_given_values() {
    let c = Config::from_fields(s("0.0.0.0:2525"), s("mx.example"), s("DEBUG"), s("u"), None, Some(vec![]), host())
        .ok()
        .unwrap();
    assert_eq!(c.servername, "mx.example");
    assert_eq!(c.log_level, "DEBUG");
    assert_eq!(c.user, s("u"));
    assert!(c.archivers.is_empty());
}

#[test]
fn from_fields_errors() {
    assert!(matches!(Config::from_fields(None, None, None, None, None, Some(vec![]), host()), Err(ConfigError::MissingListen)));
    assert!(matches!(Config::from_fields(s("l"), None, None, None, None, None, host()), Err(ConfigError::MissingArchivers)));
    let entries = vec![(s("a"), s("/a")), (s("b"), None), (None, None)];
    match Config::from_fields(s("l"), None, None, None, None, Some(entries), host()) {
        Err(ConfigError::MissingArchivePath { index, recipient }) => {
            assert_eq!(index, 1);
            assert_eq!(recipient, "b");
        }
        _ => panic!("expected a missing archive path"),
    }
    match Config::from_fields(s("l"), None, None, None, None, Some(vec![(None, s("/p"))]), host()) {
        Err(ConfigError::MissingRecipient { index, archive_path }) => {
            assert_eq!(index, 0);
            assert_eq!(archive_path, "/p");
        }
        _ => panic!("expected a missing recipient"),
    }
    match Config::from_fields(s("l"), None, None, None, None, Some(vec![(s("a"), s("/a")), (None, None)]), host()) {
        Err(ConfigError::MalformedArchiver { index }) => assert_eq!(index, 1),
        _ => panic!("expected a malformed entry"),
    }
}

#[test]
fn lookup_last_match_wins() {
    let rules = vec![setup("a@x", "/one"), setup("b@x", "/two"), setup("a@x", "/three")];
    assert_eq!(lookup_archive_path(&rules, &"a@x".to_string(), "/cur".to_string()), "/three");
    assert_eq!(lookup_archive_path(&rules, &"b@x".to_string(), "/cur".to_string()), "/two");
    assert_eq!(lookup_archive_path(&rules, &"c@x".to_string(), "/cur".to_string()), "/cur");
    let copy = clone_archivers(&rules);
    assert_eq!(copy.len(), 3);
    assert_eq!(copy[2].archive_path, "/three");
}

#[test]
fn from_yaml_reads_document() {
    let text = "---\nlisten: 192.168.1.77:25\nservername: server.domain.com\nuser: mailarchive\nlog_level: DEBUG\narchivers:\n    - recipient: archive@domain.com\n      archive_path: /mnt/storage/archive/%Y/%m-%d/%H:00\n    - recipient: small@domain.com\n      archive_path: /mnt/small/%Y\n";
    let c = Config::from_yaml(text, host()).ok().unwrap();
    assert_eq!(c.listen, "192.168.1.77:25");
    assert_eq!(c.servername, "server.domain.com");
    assert_eq!(c.log_level, "DEBUG");
    assert_eq!(c.user, s("mailarchive"));
    assert_eq!(c.group, None);
    assert_eq!(c.archivers.len(), 2);
    assert_eq!(c.archivers[1].recipient, "small@domain.com");
    assert_eq!(c.archivers[1].archive_path, "/mnt/small/%Y");
}

#[test]
fn from_yaml_errors() {
    assert!(matches!(Config::from_yaml("archivers: []\n", host()), Err(ConfigError::MissingListen)));
    assert!(matches!(Config::from_yaml("listen: a:1\n", host()), Err(ConfigError::MissingArchivers)));
    assert!(matches!(Config::from_yaml("", host()), Err(ConfigError::NoDocument)));
    assert!(matches!(Config::from_yaml("listen: [a\n", host()), Err(ConfigError::Unparsable)));
    match Config::from_yaml("listen: a:1\narchivers:\n  - recipient: r@x\n", host()) {
        Err(ConfigError::MissingArchivePath { index, recipient }) => {
            assert_eq!(index, 0);
            assert_eq!(recipient, "r@x");
        }
        _ => panic!("expected a missing archive path"),
    }
    let c = Config::from_yaml("listen: a:1\narchivers: []\n", host()).ok().unwrap();
    assert_eq!(c.servername, "host.example");
    assert_eq!(c.log_level, "INFO");
}
