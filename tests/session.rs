use mail_archiver::config::ArchiverSetup;
use mail_archiver::session::{clear_emaildata, connection_prefix, make_emaildata, Phase, Session, SmtpProto, Step};

fn rules() -> Vec<ArchiverSetup> {
    vec![ArchiverSetup { recipient: "b@x".to_string(), archive_path: "/arch/%Y".to_string() }]
}

fn session(rules: Vec<ArchiverSetup>) -> Session {
    let proto = SmtpProto::new("mx.example".to_string(), rules);
    let (s, greeting) = proto.open_session("p".to_string());
    assert_eq!(greeting, "220 mx.example");
    s
}

fn say(s: &mut Session, line: &str) -> Step {
    s.handle_line(line.to_string(), "gen-id", 0)
}

fn reply(s: &mut Session, line: &str) -> Option<String> {
    say(s, line).reply
}

fn to_data(s: &mut Session) {
    assert_eq!(reply(s, "HELO x"), Some("250 Ok".to_string()));
    assert_eq!(reply(s, "MAIL FROM:<a>"), Some("250 Ok".to_string()));
    assert_eq!(reply(s, "RCPT TO: b@x"), Some("250 Ok".to_string()));
    assert_eq!(reply(s, "DATA"), Some("354 End data with <CR><LF>.<CR><LF>".to_string()));
}

#[test]
fn dialogue_sequence() {
    let mut s = session(rules());
    assert_eq!(s.phase, Phase::WaitHelo);
    to_data(&mut s);
    assert_eq!(s.md.archive_path, "/arch/%Y");
    assert_eq!(s.md.rcpt_to, vec!["RCPT TO: b@x".to_string()]);
    assert_eq!(s.phase, Phase::ReceivingData);
    assert_eq!(say(&mut s, "Subject: hi").reply, None);
    let st = say(&mut s, "");
    let t = st.open.unwrap();
    assert_eq!(t.dir, "/arch/1970");
    assert_eq!(t.path, "/arch/1970/p-gen-id.eml");
    assert_eq!(st.write, vec!["Subject: hi".to_string()]);
    assert_eq!(say(&mut s, "body").reply, None);
    let end = say(&mut s, ".");
    assert_eq!(end.reply, Some("250 Ok: queued".to_string()));
    assert!(end.close);
    assert!(end.open.is_none());
    assert_eq!(end.write, vec!["".to_string(), "body".to_string()]);
    assert_eq!(s.phase, Phase::WaitMailFrom);
    assert_eq!(s.md.client_helo, "HELO x");
    assert!(s.md.rcpt_to.is_empty());
    assert!(s.md.mail_file.is_none());
    assert_eq!(s.md.archive_path, "");
    // a second transaction starts at MAIL FROM
    assert_eq!(reply(&mut s, "MAIL FROM:<c>"), Some("250 Ok".to_string()));
    assert_eq!(s.phase, Phase::WaitRcptTo);
}

#[test]
fn data_before_rcpt_rejected() {
    let mut s = session(rules());
    reply(&mut s, "EHLO y");
    reply(&mut s, "MAIL FROM:<a>");
    assert_eq!(reply(&mut s, "DATA"), Some("502 Invalid command".to_string()));
    assert_eq!(s.phase, Phase::WaitRcptTo);
}

#[test]
fn wrong_commands_rejected() {
    let mut s = session(rules());
    assert_eq!(reply(&mut s, "helo x"), Some("502 invalid helo".to_string()));
    assert_eq!(s.phase, Phase::WaitHelo);
    reply(&mut s, "HELO x");
    assert_eq!(reply(&mut s, "RCPT TO:<b>"), Some("502 Invalid mail from".to_string()));
    reply(&mut s, "MAIL FROM:<a>");
    assert_eq!(reply(&mut s, "QUIT"), Some("502 Invalid command".to_string()));
    assert_eq!(s.phase, Phase::WaitRcptTo);
}

#[test]
fn quit_closes() {
    let mut s = session(rules());
    let st = say(&mut s, "QUIT");
    assert_eq!(st.reply, Some("221 Bye".to_string()));
    assert!(st.quit);
    assert_eq!(s.phase, Phase::Closing);
    let mut s2 = session(rules());
    reply(&mut s2, "HELO x");
    assert!(say(&mut s2, "QUIT now").quit);
    assert_eq!(s2.phase, Phase::Closing);
}

#[test]
fn rcpt_address_skips_nine_characters() {
    let r = vec![ArchiverSetup { recipient: "b@x>".to_string(), archive_path: "/b".to_string() }];
    let mut s = session(r);
    reply(&mut s, "HELO x");
    reply(&mut s, "MAIL FROM:<a>");
    reply(&mut s, "RCPT TO:<other>");
    assert_eq!(s.md.archive_path, "");
    reply(&mut s, "RCPT TO:<b@x>");
    assert_eq!(s.md.archive_path, "/b");
    reply(&mut s, "RCPT TO:<none>");
    assert_eq!(s.md.archive_path, "/b");
    assert_eq!(s.md.rcpt_to.len(), 3);
}

#[test]
fn message_id_names_spool_file() {
    let mut s = session(rules());
    to_data(&mut s);
    say(&mut s, "From: a");
    let st = say(&mut s, "Message-ID: <abc123456789@x>");
    let t = st.open.unwrap();
    assert_eq!(t.path, "/arch/1970/p-abc123456789@x.eml");
    assert!(t.path.contains("abc123456789@x"));
    assert_eq!(st.write, vec!["From: a".to_string()]);
    assert_eq!(s.md.mail_file, Some("/arch/1970/p-abc123456789@x.eml".to_string()));
    // the blank line opens nothing more
    assert!(say(&mut s, "").open.is_none());
}

#[test]
fn short_message_id_falls_back_to_generated_id() {
    let mut s = session(rules());
    to_data(&mut s);
    assert!(say(&mut s, "Message-ID: <short@x>").open.is_none());
    assert!(s.md.mail_file.is_none());
    let st = say(&mut s, "");
    assert_eq!(st.open.unwrap().path, "/arch/1970/p-gen-id.eml");
    assert_eq!(st.write, vec!["Message-ID: <short@x>".to_string()]);
}

#[test]
fn parse_messageid_sanitizes() {
    let r = SmtpProto::parse_messageid(&"Message-ID: <ab/cd efgh\\ijk$l@x.y>".to_string());
    assert_eq!(r, Some(("ab/cd efgh\\ijk$l@x.y".to_string(), "abXcdXefghXijkXl@x.y".to_string())));
    assert_eq!(SmtpProto::parse_messageid(&"Message-ID:  <abc123456789@x> ".to_string()),
               Some(("abc123456789@x".to_string(), "abc123456789@x".to_string())));
    assert_eq!(SmtpProto::parse_messageid(&"Message-ID: <12345678901>".to_string()), None);
    assert_eq!(SmtpProto::parse_messageid(&"Message-ID:".to_string()), None);
}

#[test]
fn flush_after_64_lines() {
    let mut s = session(rules());
    to_data(&mut s);
    say(&mut s, "Subject: x");
    let opened = say(&mut s, "");
    assert!(opened.open.is_some());
    for i in 0..63 {
        let st = say(&mut s, &format!("line {}", i));
        assert!(st.write.is_empty());
    }
    assert_eq!(s.md.mail_data.len(), 64);
    let st = say(&mut s, "line 63");
    assert_eq!(st.write.len(), 65);
    assert_eq!(st.write[0], "");
    assert_eq!(st.write[64], "line 63");
    assert!(s.md.mail_data.is_empty());
}

#[test]
fn flush_without_header_end_opens_generated_file() {
    let mut s = session(rules());
    to_data(&mut s);
    for i in 0..64 {
        assert!(say(&mut s, &format!("X-H{}: v", i)).open.is_none());
    }
    let st = say(&mut s, "X-Last: v");
    assert_eq!(st.open.unwrap().path, "/arch/1970/p-gen-id.eml");
    assert_eq!(st.write.len(), 65);
    assert!(s.md.mail_file.is_some());
}

#[test]
fn terminator_without_file_opens_generated_file() {
    let mut s = session(rules());
    to_data(&mut s);
    say(&mut s, "Subject: no blank line");
    let st = say(&mut s, ".");
    assert_eq!(st.open.unwrap().path, "/arch/1970/p-gen-id.eml");
    assert_eq!(st.write, vec!["Subject: no blank line".to_string()]);
    assert!(st.close);
}

#[test]
fn unknown_recipient_or_bad_pattern_uses_tmp() {
    let r = vec![ArchiverSetup { recipient: "b@x".to_string(), archive_path: "/data/%Q".to_string() }];
    let mut s = session(r);
    to_data(&mut s);
    let st = say(&mut s, "");
    assert_eq!(st.open.unwrap().path, "/tmp/p-gen-id.eml");
    let mut s2 = session(rules());
    reply(&mut s2, "HELO x");
    reply(&mut s2, "MAIL FROM:<a>");
    reply(&mut s2, "RCPT TO: nobody");
    reply(&mut s2, "DATA");
    assert_eq!(say(&mut s2, "").open.unwrap().dir, "");
}

#[test]
fn pattern_expanded_at_transaction_start() {
    let mut s = session(vec![ArchiverSetup { recipient: "b@x".to_string(), archive_path: "/a/%Y/%m-%d/%H:00".to_string() }]);
    reply(&mut s, "HELO x");
    reply(&mut s, "MAIL FROM:<a>");
    reply(&mut s, "RCPT TO: b@x");
    s.handle_line("DATA".to_string(), "unused", 1_000_000_000);
    assert_eq!(s.md.datetime, 1_000_000_000);
    let st = say(&mut s, "");
    assert_eq!(st.open.unwrap().dir, "/a/2001/09-09/01:00");
}

#[test]
fn receive_draws_clock_and_random_id() {
    let mut s = session(rules());
    for l in ["HELO x", "MAIL FROM:<a>", "RCPT TO: b@x", "DATA"] {
        s.receive(l.to_string());
    }
    assert!(s.md.datetime > 1_600_000_000);
    let st = s.receive("".to_string());
    let path = st.open.unwrap().path;
    assert!(path.starts_with("/arch/20"));
    assert!(path.ends_with(".eml"));
    let name = path.rsplit('/').next().unwrap();
    assert_eq!(name.len(), "p-".len() + 36 + ".eml".len());
}

#[test]
fn reload_keeps_open_sessions() {
    let mut proto = SmtpProto::new("mx.example".to_string(), rules());
    let (mut old_conn, _) = proto.open_session("p".to_string());
    proto.set_archivers(vec![ArchiverSetup { recipient: "b@x".to_string(), archive_path: "/new".to_string() }]);
    proto.set_servername("mx2.example".to_string());
    let (mut new_conn, greeting) = proto.open_session("q".to_string());
    assert_eq!(greeting, "220 mx2.example");
    to_data(&mut old_conn);
    to_data(&mut new_conn);
    assert_eq!(old_conn.md.archive_path, "/arch/%Y");
    assert_eq!(new_conn.md.archive_path, "/new");
    proto.set_archivers(Vec::new());
    let (mut none_conn, _) = proto.open_session("r".to_string());
    to_data(&mut none_conn);
    assert_eq!(none_conn.md.archive_path, "");
}

#[test]
fn make_and_clear_emaildata() {
    let mut md = make_emaildata("p".to_string(), rules());
    assert_eq!(md.datetime, 0);
    assert!(md.mail_data.is_empty());
    md.client_helo = "HELO x".to_string();
    md.mail_from = "MAIL FROM:<a>".to_string();
    md.rcpt_to.push("RCPT TO: b@x".to_string());
    md.mail_file = Some("/f".to_string());
    md.datetime = 5;
    let md = clear_emaildata(md);
    assert_eq!(md.client_helo, "HELO x");
    assert_eq!(md.mail_from, "");
    assert!(md.rcpt_to.is_empty());
    assert!(md.mail_file.is_none());
    assert_eq!(md.datetime, 0);
    assert_eq!(md.prefix, "p");
    assert_eq!(md.archivers.len(), 1);
}

#[test]
fn service_rejects_requests() {
    let svc = mail_archiver::service::MailArchiver;
    assert_eq!(svc.call("anything".to_string()), Err("Client closed".to_string()));
}

#[test]
fn connection_prefix_format() {
    let start = "101530".to_string();
    assert_eq!(connection_prefix(&start, 0), "101530-000000");
    assert_eq!(connection_prefix(&start, 255), "101530-0000ff");
    assert_eq!(connection_prefix(&start, 0xabcdef), "101530-abcdef");
    assert_eq!(connection_prefix(&start, 0x1234567), "101530-1234567");
    assert_eq!(connection_prefix(&start, u64::MAX), format!("101530-{:06x}", u64::MAX));
}

#[test]
fn pattern_expanded_before_epoch() {
    let mut s = session(rules());
    reply(&mut s, "HELO x");
    reply(&mut s, "MAIL FROM:<a>");
    reply(&mut s, "RCPT TO: b@x");
    s.handle_line("DATA".to_string(), "unused", -86_400);
    assert_eq!(say(&mut s, "").open.unwrap().dir, "/arch/1969");
}
