use vstd::prelude::*;
use vstd::string::*;
use yaml_rust::YamlLoader;

verus! {

/// One routing rule: mail for `recipient` is archived under `archive_path`,
/// a strftime-style pattern expanded against the start of the transaction.
#[derive(Clone, Debug)]
pub struct ArchiverSetup {
    pub recipient: String,
    pub archive_path: String,
}

impl ArchiverSetup {
    pub open spec fn rule(&self) -> (Seq<char>, Seq<char>) {
        (self.recipient@, self.archive_path@)
    }

    /// A copy of this rule.
    pub fn copy(&self) -> (r: ArchiverSetup)
        ensures
            r.rule() == self.rule(),
    {
        ArchiverSetup { recipient: self.recipient.clone(), archive_path: self.archive_path.clone() }
    }
}

/// The routing table as (recipient, path pattern) pairs, in order.
pub open spec fn rules_of(v: Seq<ArchiverSetup>) -> Seq<(Seq<char>, Seq<char>)> {
    v.map_values(|a: ArchiverSetup| a.rule())
}

/// The path pattern selected for `addr`: that of the last rule whose recipient
/// is exactly `addr`, or `current` when none is.
pub open spec fn route(rules: Seq<(Seq<char>, Seq<char>)>, addr: Seq<char>, current: Seq<char>) -> Seq<char>
    decreases rules.len(),
{
    if rules.len() == 0 {
        current
    } else if rules.last().0 == addr {
        rules.last().1
    } else {
        route(rules.drop_last(), addr, current)
    }
}

/// A copy of a routing table, rule for rule.
pub fn clone_archivers(v: &Vec<ArchiverSetup>) -> (r: Vec<ArchiverSetup>)
    ensures
        rules_of(r@) == rules_of(v@),
{
    let mut r: Vec<ArchiverSetup> = Vec::new();
    let mut i: usize = 0;
    while i < v.len()
        invariant
            i <= v@.len(),
            r@.len() == i,
            forall|k: int| 0 <= k < i ==> (#[trigger] r@[k]).rule() == v@[k].rule(),
        decreases v@.len() - i,
    {
        r.push(v[i].copy());
        i = i + 1;
    }
    assert(rules_of(r@) =~= rules_of(v@));
    r
}

/// The path pattern that `addr` selects in `archivers`, starting from `current`.
pub fn lookup_archive_path(archivers: &Vec<ArchiverSetup>, addr: &String, current: String) -> (r: String)
    ensures
        r@ == route(rules_of(archivers@), addr@, current@),
{
    let mut path = current;
    let mut i: usize = 0;
    while i < archivers.len()
        invariant
            i <= archivers@.len(),
            path@ == route(rules_of(archivers@.subrange(0, i as int)), addr@, current@),
        decreases archivers@.len() - i,
    {
        let ghost rules_before = rules_of(archivers@.subrange(0, i as int));
        if archivers[i].recipient == *addr {
            path = archivers[i].archive_path.clone();
        }
        i = i + 1;
        assert(rules_of(archivers@.subrange(0, i as int)).drop_last() =~= rules_before);
    }
    assert(archivers@.subrange(0, archivers@.len() as int) =~= archivers@);
    path
}


/// The daemon's settings.
pub struct Config {
    pub listen: String,
    pub servername: String,
    pub user: Option<String>,
    pub group: Option<String>,
    pub log_level: String,
    pub archivers: Vec<ArchiverSetup>,
}

/// Why a set of configuration values is refused.
pub enum ConfigError {
    /// The text is not YAML.
    Unparsable,
    /// The text holds no YAML document.
    NoDocument,
    MissingListen,
    MissingArchivers,
    /// The entry at `index` has a recipient but no archive path.
    MissingArchivePath { index: usize, recipient: String },
    /// The entry at `index` has an archive path but no recipient.
    MissingRecipient { index: usize, archive_path: String },
    /// The entry at `index` has neither.
    MalformedArchiver { index: usize },
}

pub open spec fn opt_str(o: Option<String>) -> Option<Seq<char>> {
    match o {
        Some(s) => Some(s@),
        None => None,
    }
}

/// A routing entry as read: a recipient and an archive path, either may be missing.
pub open spec fn entry_of(e: (Option<String>, Option<String>)) -> (Option<Seq<char>>, Option<Seq<char>>) {
    (opt_str(e.0), opt_str(e.1))
}

pub open spec fn complete(e: (Option<Seq<char>>, Option<Seq<char>>)) -> bool {
    e.0 is Some && e.1 is Some
}

/// `e` is the error for entry `i`, which lacks a field.
pub open spec fn error_for(e: ConfigError, i: int, entry: (Option<Seq<char>>, Option<Seq<char>>)) -> bool {
    match e {
        ConfigError::MissingArchivePath { index, recipient } => index == i && entry.0 == Some(recipient@)
            && entry.1 is None,
        ConfigError::MissingRecipient { index, archive_path } => index == i && entry.0 is None && entry.1
            == Some(archive_path@),
        ConfigError::MalformedArchiver { index } => index == i && entry.0 is None && entry.1 is None,
        _ => false,
    }
}

pub open spec fn entries_view(o: Option<Vec<(Option<String>, Option<String>)>>) -> Option<
    Seq<(Option<Seq<char>>, Option<Seq<char>>)>,
> {
    match o {
        Some(v) => Some(v@.map_values(|e: (Option<String>, Option<String>)| entry_of(e))),
        None => None,
    }
}

/// `r` is what the configuration values give: the first missing required
/// value or incomplete archiver entry is the error; otherwise the settings
/// hold the values, with `hostname` as the default server name and `INFO` as
/// the default log level.
pub open spec fn config_outcome(
    listen: Option<Seq<char>>,
    servername: Option<Seq<char>>,
    log_level: Option<Seq<char>>,
    user: Option<Seq<char>>,
    group: Option<Seq<char>>,
    entries: Option<Seq<(Option<Seq<char>>, Option<Seq<char>>)>>,
    hostname: Seq<char>,
    r: Result<Config, ConfigError>,
) -> bool {
    &&& listen is None ==> (r matches Err(ConfigError::MissingListen))
    &&& listen is Some && entries is None ==> (r matches Err(ConfigError::MissingArchivers))
    &&& listen is Some && entries is Some ==> {
        let es = entries->0;
        &&& r is Ok <==> (forall|k: int| 0 <= k < es.len() ==> complete(#[trigger] es[k]))
        &&& r is Err ==> exists|i: int|
            0 <= i < es.len() && error_for(r->Err_0, i, #[trigger] es[i]) && forall|k: int|
                0 <= k < i ==> complete(#[trigger] es[k])
        &&& r is Ok ==> rules_of(r->Ok_0.archivers@) == es.map_values(
            |e: (Option<Seq<char>>, Option<Seq<char>>)| (e.0->0, e.1->0),
        )
    }
    &&& r is Ok ==> {
        let c = r->Ok_0;
        &&& c.listen@ == listen->0
        &&& c.servername@ == (match servername {
            Some(n) => n,
            None => hostname,
        })
        &&& c.log_level@ == (match log_level {
            Some(l) => l,
            None => "INFO"@,
        })
        &&& opt_str(c.user) == user
        &&& opt_str(c.group) == group
    }
}

impl Config {
    /// Settings from the values found in a configuration document. `listen`
    /// and the archiver list are required, and each archiver needs both of
    /// its fields; the server name defaults to the host name and the log
    /// level to `INFO`.
    pub fn from_fields(
        listen: Option<String>,
        servername: Option<String>,
        log_level: Option<String>,
        user: Option<String>,
        group: Option<String>,
        archivers: Option<Vec<(Option<String>, Option<String>)>>,
        hostname: String,
    ) -> (r: Result<Config, ConfigError>)
        ensures
            config_outcome(
                opt_str(listen),
                opt_str(servername),
                opt_str(log_level),
                opt_str(user),
                opt_str(group),
                entries_view(archivers),
                hostname@,
                r,
            ),
    {
        let listen_v = match listen {
            Some(l) => l,
            None => return Err(ConfigError::MissingListen),
        };
        let servername_v = match servername {
            Some(n) => n,
            None => hostname,
        };
        let log_level_v = match log_level {
            Some(l) => l,
            None => String::from_str("INFO"),
        };
        let entries = match archivers {
            Some(v) => v,
            None => return Err(ConfigError::MissingArchivers),
        };
        let ghost es = entries@.map_values(|e: (Option<String>, Option<String>)| entry_of(e));
        let mut rules: Vec<ArchiverSetup> = Vec::new();
        let mut i: usize = 0;
        while i < entries.len()
            invariant
                i <= entries@.len(),
                listen is Some,
                archivers is Some,
                archivers->0@ == entries@,
                entries_view(archivers) == Some(es),
                es == entries@.map_values(|e: (Option<String>, Option<String>)| entry_of(e)),
                rules@.len() == i,
                forall|k: int| 0 <= k < i ==> complete(#[trigger] es[k]),
                forall|k: int|
                    0 <= k < i ==> (#[trigger] rules@[k]).rule() == (es[k].0->0, es[k].1->0),
            decreases entries@.len() - i,
        {
            let e = &entries[i];
            assert(es[i as int] == entry_of(*e));
            match (&e.0, &e.1) {
                (Some(rc), Some(ap)) => {
                    rules.push(ArchiverSetup { recipient: rc.clone(), archive_path: ap.clone() });
                },
                (Some(rc), None) => {
                    let err = ConfigError::MissingArchivePath { index: i, recipient: rc.clone() };
                    assert(error_for(err, i as int, es[i as int]));
                    let ghost rr: Result<Config, ConfigError> = Err(err);
                    assert(entries_view(archivers)->0 == es);
                    assert(exists|j: int|
                        0 <= j < es.len() && error_for(rr->Err_0, j, #[trigger] es[j]) && forall|k: int|
                            0 <= k < j ==> complete(#[trigger] es[k]));
                    return Err(err);
                },
                (None, Some(ap)) => {
                    let err = ConfigError::MissingRecipient { index: i, archive_path: ap.clone() };
                    assert(error_for(err, i as int, es[i as int]));
                    let ghost rr: Result<Config, ConfigError> = Err(err);
                    assert(entries_view(archivers)->0 == es);
                    assert(exists|j: int|
                        0 <= j < es.len() && error_for(rr->Err_0, j, #[trigger] es[j]) && forall|k: int|
                            0 <= k < j ==> complete(#[trigger] es[k]));
                    return Err(err);
                },
                (None, None) => {
                    let err = ConfigError::MalformedArchiver { index: i };
                    assert(error_for(err, i as int, es[i as int]));
                    let ghost rr: Result<Config, ConfigError> = Err(err);
                    assert(entries_view(archivers)->0 == es);
                    assert(exists|j: int|
                        0 <= j < es.len() && error_for(rr->Err_0, j, #[trigger] es[j]) && forall|k: int|
                            0 <= k < j ==> complete(#[trigger] es[k]));
                    return Err(err);
                },
            }
            i = i + 1;
        }
        assert(rules_of(rules@) =~= es.map_values(
            |e: (Option<Seq<char>>, Option<Seq<char>>)| (e.0->0, e.1->0),
        ));
        Ok(Config { listen: listen_v, servername: servername_v, user, group, log_level: log_level_v, archivers: rules })
    }
}

/// How many YAML documents the text holds; `None` where it does not scan.
pub uninterp spec fn yaml_docs_of(text: Seq<char>) -> Option<nat>;

/// The string under `key` in the first YAML document of the text; `None`
/// where there is no such string.
pub uninterp spec fn yaml_str_of(text: Seq<char>, key: Seq<char>) -> Option<Seq<char>>;

/// The `recipient` and `archive_path` strings of each entry of the list under
/// `archivers` in the first YAML document of the text; `None` where there is
/// no such list.
pub uninterp spec fn yaml_entries_of(text: Seq<char>) -> Option<Seq<(Option<Seq<char>>, Option<Seq<char>>)>>;

/// Relies on yaml-rust's `YamlLoader::load_from_str`: the number of documents
/// of a YAML text, `None` where the text does not scan.
#[verifier::external_body]
fn yaml_doc_count(content: &str) -> (r: Option<usize>)
    ensures
        match r {
            Some(n) => yaml_docs_of(content@) == Some(n as nat),
            None => yaml_docs_of(content@) is None,
        },
{
    match YamlLoader::load_from_str(content) {
        Ok(docs) => Some(docs.len()),
        Err(_) => None,
    }
}

/// Relies on yaml-rust's `YamlLoader::load_from_str`, `Index<&str>` for `Yaml`
/// (which never panics) and `Yaml::as_str`: the string under `key` in the
/// first document.
#[verifier::external_body]
fn yaml_str(content: &str, key: &str) -> (r: Option<String>)
    ensures
        opt_str(r) == yaml_str_of(content@, key@),
{
    let docs = YamlLoader::load_from_str(content).ok()?;
    let doc = docs.first()?;
    doc[key].as_str().map(|v| v.to_string())
}

/// Relies on yaml-rust's `YamlLoader::load_from_str`, `Index<&str>` for `Yaml`,
/// `Yaml::as_vec` and `Yaml::as_str`: the `recipient` and `archive_path`
/// strings of each entry of the `archivers` list in the first document.
#[verifier::external_body]
fn yaml_entries(content: &str) -> (r: Option<Vec<(Option<String>, Option<String>)>>)
    ensures
        entries_view(r) == yaml_entries_of(content@),
{
    let docs = YamlLoader::load_from_str(content).ok()?;
    let list = docs.first()?["archivers"].as_vec()?;
    Some(list.iter().map(|y| (y["recipient"].as_str().map(|v| v.to_string()), y["archive_path"].as_str().map(
        |v| v.to_string(),
    ))).collect())
}

impl Config {
    /// Settings from the text of a YAML configuration file: its first
    /// document's `listen`, `servername`, `log_level`, `user` and `group`
    /// strings and its `archivers` list of `recipient` / `archive_path`
    /// entries, checked as `from_fields` checks them.
    pub fn from_yaml(content: &str, hostname: String) -> (r: Result<Config, ConfigError>)
        ensures
            yaml_docs_of(content@) is None ==> r matches Err(ConfigError::Unparsable),
            yaml_docs_of(content@) == Some(0nat) ==> r matches Err(ConfigError::NoDocument),
            yaml_docs_of(content@) matches Some(n) && n > 0 ==> config_outcome(
                yaml_str_of(content@, "listen"@),
                yaml_str_of(content@, "servername"@),
                yaml_str_of(content@, "log_level"@),
                yaml_str_of(content@, "user"@),
                yaml_str_of(content@, "group"@),
                yaml_entries_of(content@),
                hostname@,
                r,
            ),
    {
        match yaml_doc_count(content) {
            None => Err(ConfigError::Unparsable),
            Some(0) => Err(ConfigError::NoDocument),
            Some(_) => Config::from_fields(
                yaml_str(content, "listen"),
                yaml_str(content, "servername"),
                yaml_str(content, "log_level"),
                yaml_str(content, "user"),
                yaml_str(content, "group"),
                yaml_entries(content),
                hostname,
            ),
        }
    }
}

} // verus!
