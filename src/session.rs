use vstd::prelude::*;
use vstd::string::*;
use crate::config::{ArchiverSetup, clone_archivers, lookup_archive_path, route, rules_of};
use crate::text::{push_char, has_prefix, safe_id, safe_id_exec, starts_with, trim_id, trim_id_exec};

verus! {

/// The first second (UTC, start of year 1) at which a path pattern is expanded.
pub const MIN_SECS: i64 = -62135596800;

/// The last second (UTC, end of year 9999) at which a path pattern is
/// expanded. Transaction starts outside these bounds use the fallback
/// directory.
pub const MAX_SECS: i64 = 253402300799;

/// What strftime-style expansion makes of `pattern` at `secs` seconds after the
/// epoch, in UTC; `None` where the pattern is invalid.
pub uninterp spec fn strftime_of(pattern: Seq<char>, secs: int) -> Option<Seq<char>>;

/// Relies on time's `strftime` over `at_utc(Timespec::new(secs, 0))`: the
/// expansion depends on the pattern and the instant alone, and fails only on
/// an invalid pattern. `at_utc` panics where gmtime cannot represent the year,
/// which the bounds on `secs` leave out.
#[verifier::external_body]
fn expand_pattern(pattern: &str, secs: i64) -> (r: Option<String>)
    requires
        MIN_SECS <= secs <= MAX_SECS,
    ensures
        match r {
            Some(d) => strftime_of(pattern@, secs as int) == Some(d@),
            None => strftime_of(pattern@, secs as int) is None,
        },
{
    time::strftime(pattern, &time::at_utc(time::Timespec::new(secs, 0))).ok()
}

/// Relies on time's `get_time`: the seconds part of the wall-clock time.
#[verifier::external_body]
fn now_secs() -> i64 {
    time::get_time().sec
}

/// Relies on uuid's `Uuid::new_v4`, in its hyphenated text form: a random
/// identifier for a spool file.
#[verifier::external_body]
fn fresh_spool_id() -> String {
    uuid::Uuid::new_v4().hyphenated().to_string()
}

/// The dialogue states of one connection.
#[derive(Clone, Copy, PartialEq, Eq, Debug, Structural)]
pub enum Phase {
    WaitHelo,
    WaitMailFrom,
    WaitRcptTo,
    ReceivingData,
    Closing,
}

/// Everything one connection knows about the mail it is receiving.
///
/// Lines are buffered in `mail_data` until the spool file is decided (by a
/// Message-ID header, the end of the headers, or a full buffer); from then on
/// they are flushed each time more than 64 are buffered, and at the end.
pub struct EmailData {
    pub client_helo: String,
    pub mail_from: String,
    pub archive_path: String,
    pub rcpt_to: Vec<String>,
    pub mail_data: Vec<String>,
    /// Path of the spool file, once it has been decided.
    pub mail_file: Option<String>,
    /// Start of the transaction, in seconds after the epoch (UTC).
    pub datetime: i64,
    pub prefix: String,
    pub archivers: Vec<ArchiverSetup>,
}

pub struct MailView {
    pub helo: Seq<char>,
    pub mail_from: Seq<char>,
    pub archive_path: Seq<char>,
    pub rcpt: Seq<Seq<char>>,
    pub pending: Seq<Seq<char>>,
    pub file: Option<Seq<char>>,
    pub datetime: i64,
    pub prefix: Seq<char>,
    pub rules: Seq<(Seq<char>, Seq<char>)>,
}

pub open spec fn strings(v: Seq<String>) -> Seq<Seq<char>> {
    v.map_values(|s: String| s@)
}

pub open spec fn opt_view(o: Option<String>) -> Option<Seq<char>> {
    match o {
        Some(s) => Some(s@),
        None => None,
    }
}

impl View for EmailData {
    type V = MailView;

    open spec fn view(&self) -> MailView {
        MailView {
            helo: self.client_helo@,
            mail_from: self.mail_from@,
            archive_path: self.archive_path@,
            rcpt: strings(self.rcpt_to@),
            pending: strings(self.mail_data@),
            file: opt_view(self.mail_file),
            datetime: self.datetime,
            prefix: self.prefix@,
            rules: rules_of(self.archivers@),
        }
    }
}

/// A fresh connection's data: nothing received yet.
pub open spec fn fresh(prefix: Seq<char>, rules: Seq<(Seq<char>, Seq<char>)>) -> MailView {
    MailView {
        helo: Seq::empty(),
        mail_from: Seq::empty(),
        archive_path: Seq::empty(),
        rcpt: Seq::empty(),
        pending: Seq::empty(),
        file: None,
        datetime: 0,
        prefix,
        rules,
    }
}

/// The data after a transaction: only the greeting, prefix and rules are kept.
pub open spec fn cleared(m: MailView) -> MailView {
    MailView { helo: m.helo, ..fresh(m.prefix, m.rules) }
}

/// A spool file to create: its directory and its full path.
pub struct SpoolTarget {
    pub dir: String,
    pub path: String,
}

/// What the connection must do after one line: the reply to send, a spool
/// file to create, lines to append to the spool file (each followed by CR LF),
/// whether to close the spool file, and whether to end the connection.
pub struct Step {
    pub reply: Option<String>,
    pub open: Option<SpoolTarget>,
    pub write: Vec<String>,
    pub close: bool,
    pub quit: bool,
}

pub struct StepView {
    pub reply: Option<Seq<char>>,
    pub open: Option<(Seq<char>, Seq<char>)>,
    pub write: Seq<Seq<char>>,
    pub close: bool,
    pub quit: bool,
}

impl View for Step {
    type V = StepView;

    open spec fn view(&self) -> StepView {
        StepView {
            reply: opt_view(self.reply),
            open: match self.open {
                Some(t) => Some((t.dir@, t.path@)),
                None => None,
            },
            write: strings(self.write@),
            close: self.close,
            quit: self.quit,
        }
    }
}

/// The directory a spool file goes to: the pattern expanded at the start of
/// the transaction, or `/tmp` where that fails.
pub open spec fn spool_dir(pattern: Seq<char>, secs: i64) -> Seq<char> {
    if MIN_SECS <= secs <= MAX_SECS {
        match strftime_of(pattern, secs as int) {
            Some(d) => d,
            None => "/tmp"@,
        }
    } else {
        "/tmp"@
    }
}

/// `<dir>/<prefix>-<name>.eml`.
pub open spec fn spool_path(m: MailView, name: Seq<char>) -> Seq<char> {
    spool_dir(m.archive_path, m.datetime) + "/"@ + m.prefix + "-"@ + name + ".eml"@
}

pub open spec fn target(m: MailView, name: Seq<char>) -> (Seq<char>, Seq<char>) {
    (spool_dir(m.archive_path, m.datetime), spool_path(m, name))
}

/// A Message-ID header line parsed: the identifier without the 11-character
/// header name and the surrounding spaces and angle brackets, and its
/// file-name-safe form; `None` where the identifier is shorter than 12.
pub open spec fn parse_id(line: Seq<char>) -> Option<(Seq<char>, Seq<char>)> {
    let t = trim_id(if line.len() >= 11 { line.subrange(11, line.len() as int) } else { Seq::empty() });
    if t.len() < 12 {
        None
    } else {
        Some((t, safe_id(t)))
    }
}

/// The file-name-safe identifier of a parsed Message-ID line.
pub open spec fn id_name(line: Seq<char>) -> Seq<char> {
    match parse_id(line) {
        Some((_, safe)) => safe,
        None => Seq::empty(),
    }
}

/// The address of a `RCPT TO:` line: what follows its first nine characters.
pub open spec fn rcpt_addr(line: Seq<char>) -> Seq<char> {
    if line.len() >= 9 {
        line.subrange(9, line.len() as int)
    } else {
        Seq::empty()
    }
}

pub open spec fn reply(text: Seq<char>) -> StepView {
    StepView { reply: Some(text), open: None, write: Seq::empty(), close: false, quit: false }
}

pub open spec fn silent() -> StepView {
    StepView { reply: None, open: None, write: Seq::empty(), close: false, quit: false }
}

pub open spec fn bye() -> StepView {
    StepView { reply: Some("221 Bye"@), open: None, write: Seq::empty(), close: false, quit: true }
}

pub struct SessionView {
    pub phase: Phase,
    pub md: MailView,
}

/// One line received while the message body comes in. `id` names the spool
/// file where no usable Message-ID has done so.
pub open spec fn data_next(m: MailView, line: Seq<char>, id: Seq<char>) -> (SessionView, StepView) {
    if line == "."@ {
        (
            SessionView { phase: Phase::WaitMailFrom, md: cleared(m) },
            StepView {
                reply: Some("250 Ok: queued"@),
                open: if m.file is None { Some(target(m, id)) } else { None },
                write: m.pending,
                close: true,
                quit: false,
            },
        )
    } else if m.file is None && has_prefix(line, "Message-ID:"@) && parse_id(line) is Some {
        let name = id_name(line);
        (
            SessionView {
                phase: Phase::ReceivingData,
                md: MailView { file: Some(spool_path(m, name)), pending: seq![line], ..m },
            },
            StepView { reply: None, open: Some(target(m, name)), write: m.pending, close: false, quit: false },
        )
    } else if m.file is None && line.len() == 0 {
        (
            SessionView {
                phase: Phase::ReceivingData,
                md: MailView { file: Some(spool_path(m, id)), pending: seq![line], ..m },
            },
            StepView { reply: None, open: Some(target(m, id)), write: m.pending, close: false, quit: false },
        )
    } else if m.pending.len() + 1 > 64 {
        (
            SessionView {
                phase: Phase::ReceivingData,
                md: MailView {
                    file: if m.file is None { Some(spool_path(m, id)) } else { m.file },
                    pending: Seq::empty(),
                    ..m
                },
            },
            StepView {
                reply: None,
                open: if m.file is None { Some(target(m, id)) } else { None },
                write: m.pending.push(line),
                close: false,
                quit: false,
            },
        )
    } else {
        (
            SessionView { phase: Phase::ReceivingData, md: MailView { pending: m.pending.push(line), ..m } },
            silent(),
        )
    }
}

/// The dialogue: the next state and the actions for one received line. `id`
/// is a fresh random identifier and `now` the current time in seconds, used
/// only where a spool file needs a generated name or a transaction starts.
pub open spec fn next(s: SessionView, line: Seq<char>, id: Seq<char>, now: i64) -> (SessionView, StepView) {
    let m = s.md;
    match s.phase {
        Phase::WaitHelo => if has_prefix(line, "HELO"@) || has_prefix(line, "EHLO"@) {
            (SessionView { phase: Phase::WaitMailFrom, md: MailView { helo: line, ..m } }, reply("250 Ok"@))
        } else if has_prefix(line, "QUIT"@) {
            (SessionView { phase: Phase::Closing, md: m }, bye())
        } else {
            (s, reply("502 invalid helo"@))
        },
        Phase::WaitMailFrom => if has_prefix(line, "MAIL FROM:"@) {
            (SessionView { phase: Phase::WaitRcptTo, md: MailView { mail_from: line, ..m } }, reply("250 Ok"@))
        } else if has_prefix(line, "QUIT"@) {
            (SessionView { phase: Phase::Closing, md: m }, bye())
        } else {
            (s, reply("502 Invalid mail from"@))
        },
        Phase::WaitRcptTo => if has_prefix(line, "RCPT TO:"@) {
            (
                SessionView {
                    phase: Phase::WaitRcptTo,
                    md: MailView {
                        rcpt: m.rcpt.push(line),
                        archive_path: route(m.rules, rcpt_addr(line), m.archive_path),
                        ..m
                    },
                },
                reply("250 Ok"@),
            )
        } else if has_prefix(line, "DATA"@) && m.rcpt.len() > 0 {
            (
                SessionView { phase: Phase::ReceivingData, md: MailView { datetime: now, ..m } },
                reply("354 End data with <CR><LF>.<CR><LF>"@),
            )
        } else {
            (s, reply("502 Invalid command"@))
        },
        Phase::ReceivingData => data_next(m, line, id),
        Phase::Closing => (s, silent()),
    }
}

pub open spec fn pair_view(o: Option<(String, String)>) -> Option<(Seq<char>, Seq<char>)> {
    match o {
        Some((a, b)) => Some((a@, b@)),
        None => None,
    }
}

/// `line` from its `skip`-th character on; empty where it is shorter.
fn tail_from(line: &String, skip: usize) -> (r: String)
    ensures
        r@ == (if line@.len() >= skip { line@.subrange(skip as int, line@.len() as int) } else { Seq::empty() }),
{
    let n = line.unicode_len();
    let start = if n >= skip { skip } else { n };
    String::from_str(line.as_str().substring_char(start, n))
}

fn rcpt_addr_exec(line: &String) -> (r: String)
    ensures
        r@ == rcpt_addr(line@),
{
    tail_from(line, 9)
}

fn is_terminator(line: &String) -> (r: bool)
    ensures
        r == (line@ == "."@),
{
    proof {
        reveal_strlit(".");
    }
    let n = line.unicode_len();
    if n == 1 {
        let c = line.get_char(0);
        if c == '.' {
            assert(line@ =~= "."@);
        }
        c == '.'
    } else {
        false
    }
}

fn text_step(text: &str) -> (r: Step)
    ensures
        r@ == reply(text@),
{
    let r = Step { reply: Some(String::from_str(text)), open: None, write: Vec::new(), close: false, quit: false };
    assert(r@.write =~= Seq::<Seq<char>>::empty());
    r
}

fn silent_step() -> (r: Step)
    ensures
        r@ == silent(),
{
    let r = Step { reply: None, open: None, write: Vec::new(), close: false, quit: false };
    assert(r@.write =~= Seq::<Seq<char>>::empty());
    r
}

/// The directory and path of the spool file named `name` for this mail.
fn spool_target(m: &EmailData, name: &str) -> (r: SpoolTarget)
    ensures
        (r.dir@, r.path@) == target(m@, name@),
{
    let dir = if MIN_SECS <= m.datetime && m.datetime <= MAX_SECS {
        match expand_pattern(m.archive_path.as_str(), m.datetime) {
            Some(d) => d,
            None => String::from_str("/tmp"),
        }
    } else {
        String::from_str("/tmp")
    };
    let mut path = dir.clone();
    path.append("/");
    path.append(m.prefix.as_str());
    path.append("-");
    path.append(name);
    path.append(".eml");
    SpoolTarget { dir, path }
}

/// A fresh connection's data, with `prefix` in its spool file names and
/// `archivers` as its routing table.
pub fn make_emaildata(prefix: String, archivers: Vec<ArchiverSetup>) -> (r: EmailData)
    ensures
        r@ == fresh(prefix@, rules_of(archivers@)),
{
    let r = EmailData {
        client_helo: String::new(),
        mail_from: String::new(),
        rcpt_to: Vec::new(),
        archive_path: String::new(),
        mail_data: Vec::new(),
        mail_file: None,
        datetime: 0,
        archivers,
        prefix,
    };
    assert(r@.rcpt =~= Seq::<Seq<char>>::empty());
    assert(r@.pending =~= Seq::<Seq<char>>::empty());
    r
}

/// The data with the finished transaction forgotten: greeting, prefix and
/// routing table stay.
pub fn clear_emaildata(md: EmailData) -> (r: EmailData)
    ensures
        r@ == cleared(md@),
{
    let mut md = md;
    md.clear();
    md
}

impl EmailData {
    fn clear(&mut self)
        ensures
            final(self)@ == cleared(old(self)@),
    {
        self.mail_from = String::new();
        self.archive_path = String::new();
        self.rcpt_to = Vec::new();
        self.mail_data = Vec::new();
        self.mail_file = None;
        self.datetime = 0;
        assert(final(self)@.rcpt =~= Seq::<Seq<char>>::empty());
        assert(final(self)@.pending =~= Seq::<Seq<char>>::empty());
    }

    /// Decides the spool file: `name` gives its path, the buffered lines are
    /// handed out for writing, and `line` becomes the only buffered line.
    fn open_spool(&mut self, name: &str, line: String) -> (r: Step)
        ensures
            final(self)@ == (MailView { file: Some(spool_path(old(self)@, name@)), pending: seq![line@], ..old(self)@ }),
            r@ == (StepView {
                reply: None,
                open: Some(target(old(self)@, name@)),
                write: old(self)@.pending,
                close: false,
                quit: false,
            }),
    {
        let t = spool_target(self, name);
        let pending = self.mail_data.split_off(0);
        assert(pending@ =~= old(self).mail_data@);
        self.mail_file = Some(t.path.clone());
        self.mail_data.push(line);
        assert(strings(self.mail_data@) =~= seq![line@]);
        Step { reply: None, open: Some(t), write: pending, close: false, quit: false }
    }

    /// One line of the message body.
    fn data_line(&mut self, line: String, fresh_id: &str) -> (r: (Phase, Step))
        ensures
            (SessionView { phase: r.0, md: final(self)@ }, r.1@) == data_next(old(self)@, line@, fresh_id@),
    {
        if is_terminator(&line) {
            let pending = self.mail_data.split_off(0);
            assert(pending@ =~= old(self).mail_data@);
            let open = if self.mail_file.is_none() {
                Some(spool_target(self, fresh_id))
            } else {
                None
            };
            self.clear();
            let st = Step {
                reply: Some(String::from_str("250 Ok: queued")),
                open,
                write: pending,
                close: true,
                quit: false,
            };
            return (Phase::WaitMailFrom, st);
        }
        let named: Option<String> = if self.mail_file.is_none() && starts_with(line.as_str(), "Message-ID:") {
            match SmtpProto::parse_messageid(&line) {
                Some((_, safe)) => Some(safe),
                None => None,
            }
        } else {
            None
        };
        match named {
            Some(name) => {
                let st = self.open_spool(name.as_str(), line);
                (Phase::ReceivingData, st)
            },
            None => {
                if self.mail_file.is_none() && line.as_str().is_empty() {
                    let st = self.open_spool(fresh_id, line);
                    (Phase::ReceivingData, st)
                } else if self.mail_data.len() >= 64 {
                    let ghost m0 = self@;
                    let open = if self.mail_file.is_none() {
                        let t = spool_target(self, fresh_id);
                        self.mail_file = Some(t.path.clone());
                        Some(t)
                    } else {
                        None
                    };
                    self.mail_data.push(line);
                    assert(strings(self.mail_data@) =~= m0.pending.push(line@));
                    let w = self.mail_data.split_off(0);
                    assert(w@ =~= old(self).mail_data@.push(line));
                    assert(strings(self.mail_data@) =~= Seq::<Seq<char>>::empty());
                    let st = Step { reply: None, open, write: w, close: false, quit: false };
                    (Phase::ReceivingData, st)
                } else {
                    self.mail_data.push(line);
                    assert(strings(self.mail_data@) =~= strings(old(self).mail_data@).push(line@));
                    (Phase::ReceivingData, silent_step())
                }
            },
        }
    }
}

/// One connection: where the dialogue stands and what it has received.
pub struct Session {
    pub phase: Phase,
    pub md: EmailData,
}

impl View for Session {
    type V = SessionView;

    open spec fn view(&self) -> SessionView {
        SessionView { phase: self.phase, md: self.md@ }
    }
}

impl Session {
    /// Handles one received line. `fresh_id` names a spool file that no
    /// Message-ID names; `now` is the time at which a `DATA` command arrives.
    pub fn handle_line(&mut self, line: String, fresh_id: &str, now: i64) -> (r: Step)
        ensures
            (final(self)@, r@) == next(old(self)@, line@, fresh_id@, now),
    {
        match self.phase {
            Phase::WaitHelo => {
                if starts_with(line.as_str(), "HELO") || starts_with(line.as_str(), "EHLO") {
                    self.md.client_helo = line;
                    self.phase = Phase::WaitMailFrom;
                    text_step("250 Ok")
                } else if starts_with(line.as_str(), "QUIT") {
                    self.phase = Phase::Closing;
                    let st = text_step("221 Bye");
                    Step { quit: true, ..st }
                } else {
                    text_step("502 invalid helo")
                }
            },
            Phase::WaitMailFrom => {
                if starts_with(line.as_str(), "MAIL FROM:") {
                    self.md.mail_from = line;
                    self.phase = Phase::WaitRcptTo;
                    text_step("250 Ok")
                } else if starts_with(line.as_str(), "QUIT") {
                    self.phase = Phase::Closing;
                    let st = text_step("221 Bye");
                    Step { quit: true, ..st }
                } else {
                    text_step("502 Invalid mail from")
                }
            },
            Phase::WaitRcptTo => {
                if starts_with(line.as_str(), "RCPT TO:") {
                    let addr = rcpt_addr_exec(&line);
                    let cur = self.md.archive_path.clone();
                    self.md.archive_path = lookup_archive_path(&self.md.archivers, &addr, cur);
                    self.md.rcpt_to.push(line);
                    assert(strings(self.md.rcpt_to@) =~= old(self)@.md.rcpt.push(line@));
                    text_step("250 Ok")
                } else if starts_with(line.as_str(), "DATA") && self.md.rcpt_to.len() > 0 {
                    self.md.datetime = now;
                    self.phase = Phase::ReceivingData;
                    text_step("354 End data with <CR><LF>.<CR><LF>")
                } else {
                    text_step("502 Invalid command")
                }
            },
            Phase::ReceivingData => {
                let (ph, st) = self.md.data_line(line, fresh_id);
                self.phase = ph;
                st
            },
            Phase::Closing => silent_step(),
        }
    }

    /// Handles one received line, drawing the random spool identifier and
    /// the clock itself where the dialogue needs them.
    pub fn receive(&mut self, line: String) -> (r: Step)
        ensures
            exists|id: Seq<char>, now: i64| (final(self)@, r@) == #[trigger] next(old(self)@, line@, id, now),
    {
        let now = if self.phase == Phase::WaitRcptTo {
            now_secs()
        } else {
            0
        };
        let id = if self.phase == Phase::ReceivingData {
            fresh_spool_id()
        } else {
            String::new()
        };
        let r = self.handle_line(line, id.as_str(), now);
        assert((final(self)@, r@) == next(old(self)@, line@, id@, now));
        r
    }
}

/// The server side of the protocol: the server name sent in the greeting and
/// the routing table that each new connection takes a copy of.
pub struct SmtpProto {
    archivers: Vec<ArchiverSetup>,
    servername: String,
}

impl SmtpProto {
    pub closed spec fn name(&self) -> Seq<char> {
        self.servername@
    }

    pub closed spec fn rules(&self) -> Seq<(Seq<char>, Seq<char>)> {
        rules_of(self.archivers@)
    }

    pub fn new(servername: String, archivers: Vec<ArchiverSetup>) -> (r: SmtpProto)
        ensures
            r.name() == servername@,
            r.rules() == rules_of(archivers@),
    {
        SmtpProto { servername, archivers }
    }

    /// Replaces the routing table used for connections opened from now on.
    pub fn set_archivers(&mut self, archivers: Vec<ArchiverSetup>)
        ensures
            final(self).rules() == rules_of(archivers@),
            final(self).name() == old(self).name(),
    {
        self.archivers = archivers;
    }

    /// Replaces the server name used for connections opened from now on.
    pub fn set_servername(&mut self, servername: String)
        ensures
            final(self).name() == servername@,
            final(self).rules() == old(self).rules(),
    {
        self.servername = servername;
    }

    /// The greeting line: `220 <servername>`.
    pub fn greeting(&self) -> (r: String)
        ensures
            r@ == "220 "@ + self.name(),
    {
        let mut r = String::from_str("220 ");
        r.append(self.servername.as_str());
        r
    }

    /// A new connection with its own copy of the current routing table, and
    /// the greeting to send on it.
    pub fn open_session(&self, prefix: String) -> (r: (Session, String))
        ensures
            r.0@ == (SessionView { phase: Phase::WaitHelo, md: fresh(prefix@, self.rules()) }),
            r.1@ == "220 "@ + self.name(),
    {
        let md = make_emaildata(prefix, clone_archivers(&self.archivers));
        (Session { phase: Phase::WaitHelo, md }, self.greeting())
    }

    /// Parses a `Message-ID:` header line into the identifier and its
    /// file-name-safe form; `None` where the identifier is too short to be
    /// trusted as unique.
    pub fn parse_messageid(line: &String) -> (r: Option<(String, String)>)
        ensures
            pair_view(r) == parse_id(line@),
    {
        let rest = tail_from(line, 11);
        let trimmed = trim_id_exec(rest.as_str());
        if trimmed.unicode_len() < 12 {
            None
        } else {
            let safe = safe_id_exec(trimmed.as_str());
            Some((trimmed, safe))
        }
    }
}

/// While the body comes in, at most 64 lines wait in memory: a line that
/// arrives with 64 already buffered makes them be written out, to a spool
/// file that is decided then if it was not before.
pub proof fn lemma_buffer_bounded(s: SessionView, line: Seq<char>, id: Seq<char>, now: i64)
    requires
        s.phase == Phase::ReceivingData,
        s.md.pending.len() <= 64,
    ensures
        next(s, line, id, now).0.md.pending.len() <= 64,
        s.md.pending.len() == 64 && line != "."@ ==> {
            &&& next(s, line, id, now).1.write.len() >= 64
            &&& next(s, line, id, now).0.md.file is Some
            &&& next(s, line, id, now).0.md.pending.len() <= 1
        },
{
}

/// The terminator line ends the transaction: the reply is `250 Ok: queued`,
/// the dialogue waits for the next `MAIL FROM:` and only the greeting, the
/// prefix and the routing table remain.
pub proof fn lemma_transaction_ends(s: SessionView, id: Seq<char>, now: i64)
    requires
        s.phase == Phase::ReceivingData,
    ensures
        next(s, "."@, id, now).0 == (SessionView { phase: Phase::WaitMailFrom, md: cleared(s.md) }),
        next(s, "."@, id, now).1.reply == Some("250 Ok: queued"@),
        next(s, "."@, id, now).1.write == s.md.pending,
        next(s, "."@, id, now).0.md.helo == s.md.helo,
{
}

/// A connection's routing table and prefix never change while it lasts: what
/// a `RCPT TO:` selects comes from the snapshot taken when the connection
/// opened, whatever the server's table has become since.
pub proof fn lemma_snapshot_kept(s: SessionView, line: Seq<char>, id: Seq<char>, now: i64)
    ensures
        next(s, line, id, now).0.md.rules == s.md.rules,
        next(s, line, id, now).0.md.prefix == s.md.prefix,
        s.phase == Phase::WaitRcptTo && has_prefix(line, "RCPT TO:"@) ==> next(s, line, id, now).0.md.archive_path
            == route(s.md.rules, rcpt_addr(line), s.md.archive_path),
{
}

/// Within a transaction the spool file is decided at most once: once set, it
/// stays until the terminator line, and no other file is opened. The body is
/// only entered with at least one recipient.
pub proof fn lemma_spool_file_kept(s: SessionView, line: Seq<char>, id: Seq<char>, now: i64)
    ensures
        s.phase == Phase::ReceivingData && s.md.file is Some && line != "."@ ==> {
            &&& next(s, line, id, now).0.md.file == s.md.file
            &&& next(s, line, id, now).1.open is None
        },
        s.phase != Phase::ReceivingData && next(s, line, id, now).0.phase == Phase::ReceivingData
            ==> next(s, line, id, now).0.md.rcpt.len() > 0,
{
}

pub open spec fn hex_digits() -> Seq<char> {
    seq!['0', '1', '2', '3', '4', '5', '6', '7', '8', '9', 'a', 'b', 'c', 'd', 'e', 'f']
}

/// Lower-case hexadecimal digits of `n`, without leading zeros.
pub open spec fn hex_of(n: nat) -> Seq<char>
    decreases n,
{
    if n < 16 {
        seq![hex_digits()[n as int]]
    } else {
        hex_of(n / 16) + seq![hex_digits()[(n % 16) as int]]
    }
}

/// `s` with zeros in front up to six characters.
pub open spec fn pad6(s: Seq<char>) -> Seq<char> {
    if s.len() >= 6 {
        s
    } else {
        Seq::new((6 - s.len()) as nat, |i: int| '0') + s
    }
}

/// The token that names one connection's spool files: the server's start
/// time, a dash, and the connection's sequence number in at least six
/// hexadecimal digits.
pub fn connection_prefix(start: &String, counter: u64) -> (r: String)
    ensures
        r@ == start@ + "-"@ + pad6(hex_of(counter as nat)),
{
    let table: [char; 16] = ['0', '1', '2', '3', '4', '5', '6', '7', '8', '9', 'a', 'b', 'c', 'd', 'e', 'f'];
    assert(table@ =~= hex_digits());
    let mut m: u64 = counter;
    let mut digits: Vec<char> = Vec::new();
    while m >= 16
        invariant
            table@ == hex_digits(),
            hex_of(counter as nat) == hex_of(m as nat) + digits@,
        decreases m,
    {
        digits.insert(0, table[(m % 16) as usize]);
        m = m / 16;
    }
    digits.insert(0, table[m as usize]);
    assert(hex_of(counter as nat) =~= digits@);
    let mut r = start.clone();
    r.append("-");
    let ghost base = r@;
    let n = digits.len();
    let mut k: usize = n;
    while k < 6
        invariant
            n <= k,
            k <= 6 || k == n,
            r@ == base + Seq::new((k - n) as nat, |i: int| '0'),
        decreases 6 - k,
    {
        push_char(&mut r, '0');
        k = k + 1;
        assert(r@ =~= base + Seq::new((k - n) as nat, |i: int| '0'));
    }
    let ghost padded = r@;
    assert(padded =~= start@ + "-"@ + Seq::new((k - n) as nat, |i: int| '0'));
    let mut j: usize = 0;
    while j < n
        invariant
            n == digits@.len(),
            j <= n,
            r@ == padded + digits@.subrange(0, j as int),
        decreases n - j,
    {
        push_char(&mut r, digits[j]);
        j = j + 1;
        assert(r@ =~= padded + digits@.subrange(0, j as int));
    }
    assert(digits@.subrange(0, n as int) =~= digits@);
    assert(r@ =~= start@ + "-"@ + pad6(hex_of(counter as nat)));
    r
}

} // verus!
