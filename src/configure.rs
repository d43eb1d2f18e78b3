//! Configuration: the file's shape as plain values, the settings built from it,
//! and the per-repository routing table with its fallback to global defaults.

use vstd::hash_map::StringHashMap;
use vstd::prelude::*;
use crate::text::{decimal, push_decimal};

verus! {

/// A value of the configuration file where chat destinations are written:
/// a number, a number written as a string, or a list of either.
#[derive(Debug)]
pub enum ConfigValue {
    String(String),
    Integer(i64),
    Array(Vec<ConfigValue>),
    /// Any other kind of value (a float, a boolean, a date, a table).
    Other,
}

/// Value of a run of decimal digits.
pub open spec fn digits_value(s: Seq<char>) -> int
    decreases s.len(),
{
    if s.len() == 0 {
        0
    } else {
        digits_value(s.drop_last()) * 10 + (s.last() as int - '0' as int)
    }
}

pub open spec fn is_digit(c: char) -> bool {
    '0' <= c <= '9'
}

/// The text with an optional leading sign removed.
pub open spec fn unsigned_part(s: Seq<char>) -> Seq<char> {
    if s.len() > 0 && (s[0] == '-' || s[0] == '+') {
        s.drop_first()
    } else {
        s
    }
}

/// The signed value written in `s`: an optional `+` or `-`, then one or more
/// decimal digits and nothing else.
pub open spec fn signed_value(s: Seq<char>) -> int {
    if s.len() > 0 && s[0] == '-' {
        -digits_value(unsigned_part(s))
    } else {
        digits_value(unsigned_part(s))
    }
}

/// What `i64::from_str` gives for `s`: the value when `s` is an optional sign
/// followed by decimal digits only and the value fits in an `i64`.
pub open spec fn parsed_i64(s: Seq<char>) -> Option<i64> {
    let ds = unsigned_part(s);
    if ds.len() > 0 && (forall|i: int| 0 <= i < ds.len() ==> is_digit(#[trigger] ds[i]))
        && i64::MIN <= signed_value(s) <= i64::MAX {
        Some(signed_value(s) as i64)
    } else {
        None
    }
}

/// Relies on std's `i64::from_str`: it accepts an optional `+` or `-` followed
/// by decimal digits only, and fails on anything else or on overflow.
#[verifier::external_body]
fn parse_i64(s: &str) -> (r: Option<i64>)
    ensures
        r == parsed_i64(s@),
{
    <i64 as std::str::FromStr>::from_str(s).ok()
}

/// The chat id one list item stands for.
pub open spec fn item_chat_id(v: ConfigValue) -> Option<i64> {
    match v {
        ConfigValue::String(s) => parsed_i64(s@),
        ConfigValue::Integer(i) => Some(i),
        _ => None,
    }
}

/// The chat ids a configuration value stands for; `None` when a part of it
/// is neither an integer nor a numeric string, or it is nested.
pub open spec fn chat_ids_of(v: ConfigValue) -> Option<Seq<i64>> {
    match v {
        ConfigValue::String(s) => match parsed_i64(s@) {
            Some(i) => Some(seq![i]),
            None => None,
        },
        ConfigValue::Integer(i) => Some(seq![i]),
        ConfigValue::Array(items) => if forall|i: int|
            0 <= i < items@.len() ==> #[trigger] item_chat_id(items@[i]) is Some {
            Some(Seq::new(items@.len(), |i: int| item_chat_id(items@[i])->0))
        } else {
            None
        },
        ConfigValue::Other => None,
    }
}

fn parse_item(v: &ConfigValue) -> (r: Option<i64>)
    ensures
        r == item_chat_id(*v),
{
    match v {
        ConfigValue::String(s) => parse_i64(s.as_str()),
        ConfigValue::Integer(i) => Some(*i),
        _ => None,
    }
}

/// Whether a configuration value stands for chat ids at all: an integer, a
/// numeric string, or a list of those.
pub fn is_chat_ids(value: &ConfigValue) -> (r: bool)
    ensures
        r == (chat_ids_of(*value) is Some),
{
    match value {
        ConfigValue::String(s) => parse_i64(s.as_str()).is_some(),
        ConfigValue::Integer(_) => true,
        ConfigValue::Array(items) => {
            let mut k: usize = 0;
            while k < items.len()
                invariant
                    k <= items@.len(),
                    *value == ConfigValue::Array(*items),
                    forall|j: int| 0 <= j < k ==> #[trigger] item_chat_id(items@[j]) is Some,
                decreases items.len() - k,
            {
                if parse_item(&items[k]).is_none() {
                    return false;
                }
                k = k + 1;
            }
            true
        },
        ConfigValue::Other => false,
    }
}

/// Reads the list of chat ids a configuration value stands for; a value of
/// another kind is to be refused beforehand with [`is_chat_ids`].
pub fn parse_value(value: &ConfigValue) -> (r: Vec<i64>)
    requires
        chat_ids_of(*value) is Some,
    ensures
        chat_ids_of(*value) == Some(r@),
{
    match value {
        ConfigValue::String(s) => {
            let ids = match parse_i64(s.as_str()) {
                Some(i) => vec![i],
                None => {
                    proof {
                        assert(false);
                    }
                    Vec::new()
                },
            };
            assert(ids@ =~= chat_ids_of(*value)->0);
            ids
        },
        ConfigValue::Integer(i) => {
            let ids = vec![*i];
            assert(ids@ =~= seq![*i]);
            ids
        },
        ConfigValue::Array(items) => {
            let mut ids: Vec<i64> = Vec::new();
            let mut k: usize = 0;
            while k < items.len()
                invariant
                    k <= items@.len(),
                    *value == ConfigValue::Array(*items),
                    chat_ids_of(*value) is Some,
                    ids@.len() == k,
                    forall|j: int| 0 <= j < k ==> item_chat_id(items@[j]) == Some(#[trigger] ids@[j]),
                decreases items.len() - k,
            {
                assert(item_chat_id(items@[k as int]) is Some);
                match parse_item(&items[k]) {
                    Some(i) => ids.push(i),
                    None => {
                        proof {
                            assert(false);
                        }
                    },
                }
                k = k + 1;
            }
            assert(ids@ =~= Seq::new(items@.len(), |i: int| item_chat_id(items@[i])->0));
            ids
        },
        ConfigValue::Other => {
            proof {
                assert(false);
            }
            Vec::new()
        },
    }
}

/// The `[server]` table of the configuration file.
#[derive(Debug, Clone)]
pub struct TomlServer {
    pub bind: String,
    pub port: u16,
    pub secrets: Option<String>,
    pub token: Option<String>,
}

impl TomlServer {
    pub fn bind(&self) -> (r: &str)
        ensures
            r@ == self.bind@,
    {
        self.bind.as_str()
    }

    pub fn port(&self) -> (r: u16)
        ensures
            r == self.port,
    {
        self.port
    }

    pub fn secrets(&self) -> (r: &Option<String>)
        ensures
            *r == self.secrets,
    {
        &self.secrets
    }

    pub fn token(&self) -> (r: &Option<String>)
        ensures
            *r == self.token,
    {
        &self.token
    }

    /// Whether neither a signature secret nor a query token protects the
    /// server: both are absent, or both are given empty.
    pub open spec fn spec_unprotected(&self) -> bool {
        (self.secrets is None && self.token is None) || (self.secrets is Some
            && self.secrets->0@.len() == 0 && self.token is Some && self.token->0@.len() == 0)
    }

    /// Whether the operator should be warned that the server is unprotected.
    pub fn unprotected(&self) -> (r: bool)
        ensures
            r == self.spec_unprotected(),
    {
        match (&self.secrets, &self.token) {
            (None, None) => true,
            (Some(s), Some(t)) => s.as_str().is_empty() && t.as_str().is_empty(),
            _ => false,
        }
    }
}

/// The `[telegram]` table of the configuration file.
#[derive(Debug)]
pub struct TomlTelegram {
    pub bot_token: String,
    pub api_server: Option<String>,
    pub send_to: ConfigValue,
}

impl TomlTelegram {
    pub fn bot_token(&self) -> (r: &String)
        ensures
            r@ == self.bot_token@,
    {
        &self.bot_token
    }

    pub fn api_server(&self) -> (r: &Option<String>)
        ensures
            *r == self.api_server,
    {
        &self.api_server
    }

    pub fn send_to(&self) -> (r: &ConfigValue)
        ensures
            *r == self.send_to,
    {
        &self.send_to
    }
}

/// One `[[repository]]` entry of the configuration file.
#[derive(Debug)]
pub struct TomlRepository {
    pub full_name: String,
    pub send_to: Option<ConfigValue>,
    pub branch_ignore: Option<Vec<String>>,
    pub secrets: Option<String>,
}

impl TomlRepository {
    pub fn full_name(&self) -> (r: &String)
        ensures
            r@ == self.full_name@,
    {
        &self.full_name
    }

    pub fn send_to(&self) -> (r: &Option<ConfigValue>)
        ensures
            *r == self.send_to,
    {
        &self.send_to
    }

    pub fn branch_ignore(&self) -> (r: &Option<Vec<String>>)
        ensures
            *r == self.branch_ignore,
    {
        &self.branch_ignore
    }

    pub fn secrets(&self) -> (r: &Option<String>)
        ensures
            *r == self.secrets,
    {
        &self.secrets
    }
}

/// The whole configuration file.
#[derive(Debug)]
pub struct TomlConfig {
    pub server: TomlServer,
    pub telegram: TomlTelegram,
    pub repository: Option<Vec<TomlRepository>>,
}

/// A repository's delivery settings, as plain sequences.
pub struct RepositoryView {
    pub send_to: Seq<i64>,
    pub branch_ignore: Seq<Seq<char>>,
    pub secrets: Seq<char>,
}

/// The views of a list of strings.
pub open spec fn string_views(v: Seq<String>) -> Seq<Seq<char>> {
    v.map_values(|s: String| s@)
}

/// Delivery settings for one repository: where its events go, which branches
/// are ignored, and the secret its requests are signed with (empty: none).
#[derive(Debug, Clone)]
pub struct Repository {
    pub send_to: Vec<i64>,
    pub branch_ignore: Vec<String>,
    pub secrets: String,
}

impl View for Repository {
    type V = RepositoryView;

    open spec fn view(&self) -> RepositoryView {
        RepositoryView {
            send_to: self.send_to@,
            branch_ignore: string_views(self.branch_ignore@),
            secrets: self.secrets@,
        }
    }
}

/// The settings a configuration entry stands for, if its destinations parse.
pub open spec fn repository_of(t: TomlRepository) -> Option<RepositoryView> {
    let send_to = match t.send_to {
        None => Some(Seq::<i64>::empty()),
        Some(v) => chat_ids_of(v),
    };
    match send_to {
        None => None,
        Some(ids) => Some(
            RepositoryView {
                send_to: ids,
                branch_ignore: match t.branch_ignore {
                    Some(b) => string_views(b@),
                    None => Seq::empty(),
                },
                secrets: match t.secrets {
                    Some(s) => s@,
                    None => Seq::empty(),
                },
            },
        ),
    }
}

fn clone_strings(v: &Vec<String>) -> (r: Vec<String>)
    ensures
        string_views(r@) == string_views(v@),
{
    let mut r: Vec<String> = Vec::new();
    let mut i: usize = 0;
    while i < v.len()
        invariant
            i <= v@.len(),
            r@.len() == i,
            forall|j: int| 0 <= j < i ==> (#[trigger] r@[j])@ == v@[j]@,
        decreases v.len() - i,
    {
        r.push(v[i].clone());
        i = i + 1;
    }
    assert(string_views(r@) =~= string_views(v@));
    r
}

fn clone_ids(v: &Vec<i64>) -> (r: Vec<i64>)
    ensures
        r@ == v@,
{
    let mut r: Vec<i64> = Vec::new();
    let mut i: usize = 0;
    while i < v.len()
        invariant
            i <= v@.len(),
            r@ == v@.take(i as int),
        decreases v.len() - i,
    {
        r.push(v[i]);
        assert(r@ =~= v@.take(i + 1));
        i = i + 1;
    }
    assert(v@.take(v@.len() as int) == v@);
    r
}

impl Repository {
    pub fn send_to(&self) -> (r: &Vec<i64>)
        ensures
            r@ == self.send_to@,
    {
        &self.send_to
    }

    pub fn branch_ignore(&self) -> (r: &Vec<String>)
        ensures
            r@ == self.branch_ignore@,
    {
        &self.branch_ignore
    }

    pub fn secrets(&self) -> (r: &String)
        ensures
            r@ == self.secrets@,
    {
        &self.secrets
    }

    /// The settings of a configuration entry: missing lists are empty and a
    /// missing secret is the empty one. `None` when its destinations do not
    /// parse as chat ids.
    pub fn from_toml(repo: &TomlRepository) -> (r: Option<Repository>)
        ensures
            match r {
                Some(x) => repository_of(*repo) == Some(x@),
                None => repository_of(*repo) is None,
            },
    {
        let send_to = match &repo.send_to {
            None => Vec::new(),
            Some(v) => {
                if !is_chat_ids(v) {
                    return None;
                }
                parse_value(v)
            },
        };
        let branch_ignore = match &repo.branch_ignore {
            Some(b) => clone_strings(b),
            None => Vec::new(),
        };
        let secrets = match &repo.secrets {
            None => String::new(),
            Some(s) => s.clone(),
        };
        let r = Repository { send_to, branch_ignore, secrets };
        assert(r@.branch_ignore =~= repository_of(*repo)->0.branch_ignore);
        Some(r)
    }
}

/// The text of an optional string, empty when it is absent.
pub open spec fn text_or_empty(o: Option<String>) -> Seq<char> {
    match o {
        Some(s) => s@,
        None => Seq::empty(),
    }
}

/// Builds a [`Repository`] field by field; unset fields are empty.
#[derive(Debug, Clone)]
pub struct RepositoryBuilder {
    pub send_to: Vec<i64>,
    pub branch_ignore: Vec<String>,
    pub secrets: String,
}

impl RepositoryBuilder {
    pub fn new() -> (r: Self)
        ensures
            r.send_to@.len() == 0,
            r.branch_ignore@.len() == 0,
            r.secrets@.len() == 0,
    {
        RepositoryBuilder { send_to: Vec::new(), branch_ignore: Vec::new(), secrets: String::new() }
    }

    pub fn set_send_to(&mut self, send_to: Vec<i64>) -> (r: &mut Self)
        ensures
            r.send_to == send_to,
            r.branch_ignore == old(self).branch_ignore,
            r.secrets == old(self).secrets,
            *final(self) == *final(r),
    {
        self.send_to = send_to;
        self
    }

    pub fn set_branch_ignore(&mut self, branch_ignore: Vec<String>) -> (r: &mut Self)
        ensures
            r.send_to == old(self).send_to,
            r.branch_ignore == branch_ignore,
            r.secrets == old(self).secrets,
            *final(self) == *final(r),
    {
        self.branch_ignore = branch_ignore;
        self
    }

    pub fn set_secrets(&mut self, secrets: &String) -> (r: &mut Self)
        ensures
            r.send_to == old(self).send_to,
            r.branch_ignore == old(self).branch_ignore,
            r.secrets@ == secrets@,
            *final(self) == *final(r),
    {
        self.secrets = secrets.clone();
        self
    }

    pub fn build(&self) -> (r: Repository)
        ensures
            r.send_to@ == self.send_to@,
            string_views(r.branch_ignore@) == string_views(self.branch_ignore@),
            r.secrets@ == self.secrets@,
    {
        Repository {
            send_to: clone_ids(&self.send_to),
            branch_ignore: clone_strings(&self.branch_ignore),
            secrets: self.secrets.clone(),
        }
    }
}

/// The messaging backend's settings: the bot's credential (empty: delivery
/// is switched off), an alternative API address, and the default chats.
#[derive(Debug, Clone)]
pub struct Telegram {
    pub bot_token: String,
    pub api_server: Option<String>,
    pub send_to: Vec<i64>,
}

impl Telegram {
    pub fn bot_token(&self) -> (r: &str)
        ensures
            r@ == self.bot_token@,
    {
        self.bot_token.as_str()
    }

    pub fn api_server(&self) -> (r: &Option<String>)
        ensures
            *r == self.api_server,
    {
        &self.api_server
    }

    pub fn send_to(&self) -> (r: &Vec<i64>)
        ensures
            r@ == self.send_to@,
    {
        &self.send_to
    }

    /// The settings of the `[telegram]` table; `None` when its destinations
    /// do not parse as chat ids.
    pub fn from_toml(value: &TomlTelegram) -> (r: Option<Telegram>)
        ensures
            match r {
                Some(t) => {
                    &&& chat_ids_of(value.send_to) == Some(t.send_to@)
                    &&& t.bot_token@ == value.bot_token@
                    &&& t.api_server == value.api_server
                },
                None => chat_ids_of(value.send_to) is None,
            },
    {
        if !is_chat_ids(&value.send_to) {
            return None;
        }
        let send_to = parse_value(&value.send_to);
        let api_server = match &value.api_server {
            Some(a) => Some(a.clone()),
            None => None,
        };
        Some(Telegram { bot_token: value.bot_token.clone(), api_server, send_to })
    }
}

/// The server's settings: the address to bind (`host:port`), the global
/// signature secret and the query token, each empty when not configured.
#[derive(Debug, Clone)]
pub struct Server {
    pub bind: String,
    pub secrets: String,
    pub token: String,
}

impl Server {
    pub fn bind(&self) -> (r: &String)
        ensures
            r@ == self.bind@,
    {
        &self.bind
    }

    pub fn secrets(&self) -> (r: &String)
        ensures
            r@ == self.secrets@,
    {
        &self.secrets
    }

    pub fn token(&self) -> (r: &str)
        ensures
            r@ == self.token@,
    {
        self.token.as_str()
    }

    /// The settings of the `[server]` table: the bind address joined with the
    /// port, and absent credentials read as empty.
    pub fn from_toml(s: &TomlServer) -> (r: Server)
        ensures
            r.bind@ == s.bind@ + ":"@ + decimal(s.port as nat),
            r.secrets@ == text_or_empty(s.secrets),
            r.token@ == text_or_empty(s.token),
    {
        let mut bind = s.bind.clone();
        bind.append(":");
        push_decimal(&mut bind, s.port as u64);
        let secrets = match &s.secrets {
            Some(x) => x.clone(),
            None => String::new(),
        };
        let token = match &s.token {
            Some(x) => x.clone(),
            None => String::new(),
        };
        Server { bind, secrets, token }
    }
}

/// The repository entries of a configuration file.
pub open spec fn entries_of(c: TomlConfig) -> Seq<TomlRepository> {
    match c.repository {
        Some(v) => v@,
        None => Seq::empty(),
    }
}

/// The routing table the entries describe, by full name; a later entry for
/// the same name replaces an earlier one. `None` when an entry's destinations
/// do not parse.
pub open spec fn table_of(repos: Seq<TomlRepository>) -> Option<Map<Seq<char>, RepositoryView>>
    decreases repos.len(),
{
    if repos.len() == 0 {
        Some(Map::empty())
    } else {
        match (table_of(repos.drop_last()), repository_of(repos.last())) {
            (Some(m), Some(r)) => Some(m.insert(repos.last().full_name@, r)),
            _ => None,
        }
    }
}

/// The settings of a table, as views.
pub open spec fn table_views(m: Map<Seq<char>, Repository>) -> Map<Seq<char>, RepositoryView> {
    m.map_values(|r: Repository| r@)
}

proof fn lemma_table_fails_onward(repos: Seq<TomlRepository>, i: int)
    requires
        0 <= i <= repos.len(),
        table_of(repos.take(i)) is None,
    ensures
        table_of(repos) is None,
    decreases repos.len(),
{
    if repos.len() > i {
        assert(repos.drop_last().take(i) == repos.take(i));
        lemma_table_fails_onward(repos.drop_last(), i);
    } else {
        assert(repos.take(i) == repos);
    }
}

impl TomlConfig {
    pub fn server(&self) -> (r: &TomlServer)
        ensures
            *r == self.server,
    {
        &self.server
    }

    pub fn telegram(&self) -> (r: &TomlTelegram)
        ensures
            *r == self.telegram,
    {
        &self.telegram
    }

    pub fn repository(&self) -> (r: &Option<Vec<TomlRepository>>)
        ensures
            *r == self.repository,
    {
        &self.repository
    }

    /// The routing table of the configured repositories, keyed by full name.
    pub fn convert_hashmap(&self) -> (r: Option<StringHashMap<Repository>>)
        ensures
            match r {
                Some(m) => table_of(entries_of(*self)) == Some(table_views(m@)),
                None => table_of(entries_of(*self)) is None,
            },
    {
        let mut m: StringHashMap<Repository> = StringHashMap::new();
        match &self.repository {
            None => {
                assert(table_views(m@) =~= Map::empty());
                Some(m)
            },
            Some(repos) => {
                let mut i: usize = 0;
                while i < repos.len()
                    invariant
                        i <= repos@.len(),
                        entries_of(*self) == repos@,
                        table_of(repos@.take(i as int)) == Some(table_views(m@)),
                    decreases repos.len() - i,
                {
                    assert(repos@.take(i + 1).drop_last() == repos@.take(i as int));
                    match Repository::from_toml(&repos[i]) {
                        Some(r) => {
                            let ghost before = m@;
                            m.insert(repos[i].full_name.clone(), r);
                            assert(table_views(m@) =~= table_views(before).insert(
                                repos@[i as int].full_name@,
                                r@,
                            ));
                        },
                        None => {
                            proof {
                                lemma_table_fails_onward(repos@, i + 1);
                            }
                            return None;
                        },
                    }
                    i = i + 1;
                }
                assert(repos@.take(repos@.len() as int) == repos@);
                Some(m)
            },
        }
    }
}

/// The settings the server runs with.
pub struct Config {
    pub server: Server,
    pub telegram: Telegram,
    pub repo_mapping: StringHashMap<Repository>,
}

impl Config {
    pub fn server(&self) -> (r: &Server)
        ensures
            *r == self.server,
    {
        &self.server
    }

    pub fn telegram(&self) -> (r: &Telegram)
        ensures
            *r == self.telegram,
    {
        &self.telegram
    }

    pub fn repo_mapping(&self) -> (r: &StringHashMap<Repository>)
        ensures
            *r == self.repo_mapping,
    {
        &self.repo_mapping
    }

    /// The settings of a configuration file; `None` when some destination
    /// list does not parse as chat ids.
    pub fn from_toml(config: &TomlConfig) -> (r: Option<Config>)
        ensures
            match r {
                Some(c) => {
                    &&& c.server.bind@ == config.server.bind@ + ":"@ + decimal(
                        config.server.port as nat,
                    )
                    &&& c.server.secrets@ == text_or_empty(config.server.secrets)
                    &&& c.server.token@ == text_or_empty(config.server.token)
                    &&& chat_ids_of(config.telegram.send_to) == Some(c.telegram.send_to@)
                    &&& c.telegram.bot_token@ == config.telegram.bot_token@
                    &&& c.telegram.api_server == config.telegram.api_server
                    &&& table_of(entries_of(*config)) == Some(table_views(c.repo_mapping@))
                },
                None => chat_ids_of(config.telegram.send_to) is None || table_of(
                    entries_of(*config),
                ) is None,
            },
    {
        let server = Server::from_toml(&config.server);
        let telegram = match Telegram::from_toml(&config.telegram) {
            Some(t) => t,
            None => return None,
        };
        let repo_mapping = match config.convert_hashmap() {
            Some(m) => m,
            None => return None,
        };
        Some(Config { server, telegram, repo_mapping })
    }

    /// The delivery settings for the repository named `full_name`.
    pub open spec fn resolve(&self, full_name: Seq<char>) -> RepositoryView {
        if self.repo_mapping@.contains_key(full_name) {
            let entry = self.repo_mapping@[full_name]@;
            RepositoryView {
                send_to: if entry.send_to.len() > 0 {
                    entry.send_to
                } else {
                    self.telegram.send_to@
                },
                branch_ignore: entry.branch_ignore,
                secrets: entry.secrets,
            }
        } else {
            RepositoryView {
                send_to: self.telegram.send_to@,
                branch_ignore: Seq::empty(),
                secrets: self.server.secrets@,
            }
        }
    }

    /// Delivery settings for the repository named `full_name`: its own entry,
    /// with the global destinations where it lists none; the global
    /// destinations and secret where it has no entry.
    pub fn fetch_repository_configure(&self, full_name: &str) -> (r: Repository)
        ensures
            r@ == self.resolve(full_name@),
    {
        match self.repo_mapping.get(full_name) {
            None => {
                let r = RepositoryBuilder::new().set_send_to(clone_ids(&self.telegram.send_to)).set_secrets(
                    &self.server.secrets,
                ).build();
                assert(r@.branch_ignore =~= Seq::empty());
                r
            },
            Some(entry) => {
                let send_to = if entry.send_to.len() > 0 {
                    clone_ids(&entry.send_to)
                } else {
                    clone_ids(&self.telegram.send_to)
                };
                Repository {
                    send_to,
                    branch_ignore: clone_strings(&entry.branch_ignore),
                    secrets: entry.secrets.clone(),
                }
            },
        }
    }
}

/// A repository without an entry gets exactly the global defaults: the
/// global destinations, no ignored branches, and the global secret.
pub proof fn lemma_unknown_repository_gets_defaults(config: Config, full_name: Seq<char>)
    requires
        !config.repo_mapping@.contains_key(full_name),
    ensures
        config.resolve(full_name).send_to == config.telegram.send_to@,
        config.resolve(full_name).secrets == config.server.secrets@,
        config.resolve(full_name).branch_ignore.len() == 0,
{
}

/// An entry that lists no destinations gets the global ones, and keeps its
/// own secret and ignored branches, even when its secret is empty.
pub proof fn lemma_empty_destinations_fall_back(config: Config, full_name: Seq<char>)
    requires
        config.repo_mapping@.contains_key(full_name),
        config.repo_mapping@[full_name].send_to@.len() == 0,
    ensures
        config.resolve(full_name).send_to == config.telegram.send_to@,
        config.resolve(full_name).secrets == config.repo_mapping@[full_name].secrets@,
        config.resolve(full_name).branch_ignore == config.repo_mapping@[full_name]@.branch_ignore,
{
}

} // verus!
