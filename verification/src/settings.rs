//! The settings that parameterize the balancer, and how they are read from
//! a configuration file or from the command line.

use crate::document::{
    entry_at, entries_view, find_entry, find_table, parse_toml, table_at, tables_view,
    toml_document, TomlEntry, TomlEntryView, TomlTable, TomlTableView, TomlValue, TomlValueView,
};
use crate::error::{ConfigError, ConfigKey};
use crate::rpc::{pool_view, Rpc, RpcView};
use crate::text::{contains_char, replace_all, replaced, split, split_on, texts_view};
use vstd::prelude::*;
use vstd::string::StringExecFns;

verus! {

/// Microseconds that must pass between two picks of an upstream that may
/// serve `max_per_second` requests each second; zero lifts the limit.
pub open spec fn spec_min_time_delta(max_per_second: u64) -> u64 {
    if max_per_second == 0 {
        0
    } else {
        (1_000_000int / max_per_second as int) as u64
    }
}

/// Microseconds that must pass between two picks of an upstream that may
/// serve `max_per_second` requests each second; zero lifts the limit.
pub fn min_time_delta(max_per_second: u64) -> (delta: u64)
    ensures
        delta == spec_min_time_delta(max_per_second),
{
    if max_per_second != 0 {
        1_000_000 / max_per_second
    } else {
        0
    }
}

/// The address with `:` and `port` behind it, unless it names a port
/// already.
pub open spec fn with_port(address: Seq<char>, port: Seq<char>) -> Seq<char> {
    if address.contains(':') {
        address
    } else {
        address + seq![':'] + port
    }
}

/// The listen address as the configuration file gives it, made ready to
/// bind: `localhost` becomes `127.0.0.1`, and port 3000 is taken where none
/// is named.
pub open spec fn file_address(address: Seq<char>) -> Seq<char> {
    with_port(replaced(address, "localhost"@, "127.0.0.1"@), "3000"@)
}

/// Puts `:` and `port` behind `address` unless it names a port already.
pub fn address_with_port(address: String, port: &str) -> (bound: String)
    ensures
        bound@ == with_port(address@, port@),
{
    if contains_char(address.as_str(), ':') {
        address
    } else {
        proof {
            reveal_strlit(":");
        }
        let mut bound = address;
        bound.append(":");
        bound.append(port);
        assert(bound@ =~= with_port(address@, port@));
        bound
    }
}

/// Makes the listen address of a configuration file ready to bind.
pub fn normalize_address(address: &str) -> (bound: String)
    ensures
        bound@ == file_address(address@),
{
    proof {
        reveal_strlit("localhost");
    }
    let local = replace_all(address, "localhost", "127.0.0.1");
    address_with_port(local, "3000")
}

/// The balancer's settings. `address` is the text of the socket address to
/// listen on.
#[derive(Debug)]
pub struct Settings {
    pub rpc_list: Vec<Rpc>,
    pub poverty_list: Vec<Rpc>,
    pub address: String,
    pub health_check: bool,
    /// Deadline of one attempt, in milliseconds.
    pub ttl: u128,
    pub max_retries: u32,
    /// Pause between two health sweeps, in milliseconds.
    pub health_check_ttl: u64,
}

pub struct SettingsView {
    pub rpc_list: Seq<RpcView>,
    pub poverty_list: Seq<RpcView>,
    pub address: Seq<char>,
    pub health_check: bool,
    pub ttl: u128,
    pub max_retries: u32,
    pub health_check_ttl: u64,
}

impl View for Settings {
    type V = SettingsView;

    open spec fn view(&self) -> SettingsView {
        SettingsView {
            rpc_list: pool_view(self.rpc_list@),
            poverty_list: pool_view(self.poverty_list@),
            address: self.address@,
            health_check: self.health_check,
            ttl: self.ttl,
            max_retries: self.max_retries,
            health_check_ttl: self.health_check_ttl,
        }
    }
}

impl Settings {
    /// The settings of a balancer that nothing was configured for.
    pub open spec fn spec_default() -> SettingsView {
        SettingsView {
            rpc_list: Seq::empty(),
            poverty_list: Seq::empty(),
            address: "127.0.0.1:3000"@,
            health_check: false,
            ttl: 1000,
            max_retries: 32,
            health_check_ttl: 1000,
        }
    }
}

impl Default for Settings {
    fn default() -> (settings: Self)
        ensures
            settings@ == Settings::spec_default(),
    {
        let settings = Settings {
            rpc_list: Vec::new(),
            poverty_list: Vec::new(),
            address: String::from_str("127.0.0.1:3000"),
            health_check: false,
            ttl: 1000,
            max_retries: 32,
            health_check_ttl: 1000,
        };
        assert(settings@.rpc_list =~= Seq::empty());
        assert(settings@.poverty_list =~= Seq::empty());
        settings
    }
}

/// What a configuration file comes to: the settings, whether the upstreams
/// are to be measured before they serve, and the length of their windows.
#[derive(Debug)]
pub struct FileSettings {
    pub settings: Settings,
    pub sort_on_startup: bool,
    pub ma_length: u64,
}

pub struct FileSettingsView {
    pub settings: SettingsView,
    pub sort_on_startup: bool,
    pub ma_length: u64,
}

impl View for FileSettings {
    type V = FileSettingsView;

    open spec fn view(&self) -> FileSettingsView {
        FileSettingsView {
            settings: self.settings@,
            sort_on_startup: self.sort_on_startup,
            ma_length: self.ma_length,
        }
    }
}

/// The text that `entries` must hold under `key`.
pub open spec fn text_at(entries: Seq<TomlEntryView>, key: Seq<char>, which: ConfigKey) -> Result<
    Seq<char>,
    ConfigError,
> {
    match entry_at(entries, key) {
        None => Err(ConfigError::Missing(which)),
        Some(TomlValueView::Text(t)) => Ok(t),
        Some(_) => Err(ConfigError::IllTyped(which)),
    }
}

/// The text that `entries` may hold under `key`.
pub open spec fn optional_text_at(
    entries: Seq<TomlEntryView>,
    key: Seq<char>,
    which: ConfigKey,
) -> Result<Option<Seq<char>>, ConfigError> {
    match entry_at(entries, key) {
        None => Ok(None),
        Some(TomlValueView::Text(t)) => Ok(Some(t)),
        Some(_) => Err(ConfigError::IllTyped(which)),
    }
}

/// The integer that `entries` must hold under `key`.
pub open spec fn integer_at(
    entries: Seq<TomlEntryView>,
    key: Seq<char>,
    which: ConfigKey,
) -> Result<i64, ConfigError> {
    match entry_at(entries, key) {
        None => Err(ConfigError::Missing(which)),
        Some(TomlValueView::Integer(i)) => Ok(i),
        Some(_) => Err(ConfigError::IllTyped(which)),
    }
}

/// The boolean that `entries` must hold under `key`.
pub open spec fn boolean_at(
    entries: Seq<TomlEntryView>,
    key: Seq<char>,
    which: ConfigKey,
) -> Result<bool, ConfigError> {
    match entry_at(entries, key) {
        None => Err(ConfigError::Missing(which)),
        Some(TomlValueView::Boolean(b)) => Ok(b),
        Some(_) => Err(ConfigError::IllTyped(which)),
    }
}

/// Reads the text under `key`.
pub fn read_text(entries: &Vec<TomlEntry>, key: &str, which: ConfigKey) -> (found: Result<
    String,
    ConfigError,
>)
    ensures
        match found {
            Ok(t) => text_at(entries_view(entries@), key@, which) == Ok::<Seq<char>, ConfigError>(
                t@,
            ),
            Err(e) => text_at(entries_view(entries@), key@, which) == Err::<Seq<char>, ConfigError>(
                e,
            ),
        },
{
    match find_entry(entries, key) {
        None => Err(ConfigError::Missing(which)),
        Some(TomlValue::Text(t)) => Ok(t.clone()),
        Some(_) => Err(ConfigError::IllTyped(which)),
    }
}

/// Reads the text under `key`, if the key is there.
pub fn read_optional_text(entries: &Vec<TomlEntry>, key: &str, which: ConfigKey) -> (found: Result<
    Option<String>,
    ConfigError,
>)
    ensures
        match found {
            Ok(Some(t)) => optional_text_at(entries_view(entries@), key@, which) == Ok::<
                Option<Seq<char>>,
                ConfigError,
            >(Some(t@)),
            Ok(None) => optional_text_at(entries_view(entries@), key@, which) == Ok::<
                Option<Seq<char>>,
                ConfigError,
            >(None),
            Err(e) => optional_text_at(entries_view(entries@), key@, which) == Err::<
                Option<Seq<char>>,
                ConfigError,
            >(e),
        },
{
    match find_entry(entries, key) {
        None => Ok(None),
        Some(TomlValue::Text(t)) => Ok(Some(t.clone())),
        Some(_) => Err(ConfigError::IllTyped(which)),
    }
}

/// Reads the integer under `key`.
pub fn read_integer(entries: &Vec<TomlEntry>, key: &str, which: ConfigKey) -> (found: Result<
    i64,
    ConfigError,
>)
    ensures
        found == integer_at(entries_view(entries@), key@, which),
{
    match find_entry(entries, key) {
        None => Err(ConfigError::Missing(which)),
        Some(TomlValue::Integer(i)) => Ok(*i),
        Some(_) => Err(ConfigError::IllTyped(which)),
    }
}

/// Reads the boolean under `key`.
pub fn read_boolean(entries: &Vec<TomlEntry>, key: &str, which: ConfigKey) -> (found: Result<
    bool,
    ConfigError,
>)
    ensures
        found == boolean_at(entries_view(entries@), key@, which),
{
    match find_entry(entries, key) {
        None => Err(ConfigError::Missing(which)),
        Some(TomlValue::Boolean(b)) => Ok(*b),
        Some(_) => Err(ConfigError::IllTyped(which)),
    }
}

/// What the `trident` table holds.
pub struct Trident {
    pub address: String,
    pub sort_on_startup: bool,
    pub ma_length: u64,
    pub health_check: bool,
    pub ttl: u128,
    pub max_retries: u32,
    pub health_check_ttl: u64,
}

pub struct TridentView {
    pub address: Seq<char>,
    pub sort_on_startup: bool,
    pub ma_length: u64,
    pub health_check: bool,
    pub ttl: u128,
    pub max_retries: u32,
    pub health_check_ttl: u64,
}

impl View for Trident {
    type V = TridentView;

    open spec fn view(&self) -> TridentView {
        TridentView {
            address: self.address@,
            sort_on_startup: self.sort_on_startup,
            ma_length: self.ma_length,
            health_check: self.health_check,
            ttl: self.ttl,
            max_retries: self.max_retries,
            health_check_ttl: self.health_check_ttl,
        }
    }
}

/// The window length that the configured integer stands for: none below
/// zero.
pub open spec fn window_length(configured: i64) -> u64 {
    if configured < 0 {
        0
    } else {
        configured as u64
    }
}

/// The pause between health sweeps: the configured one, or, with health
/// checks off, the longest there is. The key is read only where the checks
/// are on.
pub open spec fn sweep_pause(entries: Seq<TomlEntryView>, health_check: bool) -> Result<
    u64,
    ConfigError,
> {
    if health_check {
        match integer_at(entries, "health_check_ttl"@, ConfigKey::HealthCheckTtl) {
            Ok(pause) => Ok(pause as u64),
            Err(e) => Err(e),
        }
    } else {
        Ok(u64::MAX)
    }
}

/// What the entries of the `trident` table come to. The keys are read in
/// the order address, sort_on_startup, ma_length, health_check, ttl,
/// max_retries, health_check_ttl, and the first one that is missing or
/// ill-typed is the error. Integers are cut to the width of their setting.
pub open spec fn read_trident(entries: Seq<TomlEntryView>) -> Result<TridentView, ConfigError> {
    match text_at(entries, "address"@, ConfigKey::Address) {
        Err(e) => Err(e),
        Ok(address) => match boolean_at(entries, "sort_on_startup"@, ConfigKey::SortOnStartup) {
            Err(e) => Err(e),
            Ok(sort_on_startup) => match integer_at(entries, "ma_length"@, ConfigKey::MaLength) {
                Err(e) => Err(e),
                Ok(ma_length) => match boolean_at(
                    entries,
                    "health_check"@,
                    ConfigKey::HealthCheck,
                ) {
                    Err(e) => Err(e),
                    Ok(health_check) => match integer_at(entries, "ttl"@, ConfigKey::Ttl) {
                        Err(e) => Err(e),
                        Ok(ttl) => match integer_at(
                            entries,
                            "max_retries"@,
                            ConfigKey::MaxRetries,
                        ) {
                            Err(e) => Err(e),
                            Ok(max_retries) => match sweep_pause(entries, health_check) {
                                Err(e) => Err(e),
                                Ok(health_check_ttl) => Ok(
                                    TridentView {
                                        address: file_address(address),
                                        sort_on_startup,
                                        ma_length: window_length(ma_length),
                                        health_check,
                                        ttl: ttl as u128,
                                        max_retries: max_retries as u32,
                                        health_check_ttl,
                                    },
                                ),
                            },
                        },
                    },
                },
            },
        },
    }
}

/// Reads the `trident` table.
pub fn trident_settings(entries: &Vec<TomlEntry>) -> (found: Result<Trident, ConfigError>)
    ensures
        match found {
            Ok(t) => read_trident(entries_view(entries@)) == Ok::<TridentView, ConfigError>(t@),
            Err(e) => read_trident(entries_view(entries@)) == Err::<TridentView, ConfigError>(e),
        },
{
    let address = match read_text(entries, "address", ConfigKey::Address) {
        Ok(v) => v,
        Err(e) => {
            return Err(e);
        },
    };
    let sort_on_startup = match read_boolean(entries, "sort_on_startup", ConfigKey::SortOnStartup) {
        Ok(v) => v,
        Err(e) => {
            return Err(e);
        },
    };
    let ma_length = match read_integer(entries, "ma_length", ConfigKey::MaLength) {
        Ok(v) => v,
        Err(e) => {
            return Err(e);
        },
    };
    let health_check = match read_boolean(entries, "health_check", ConfigKey::HealthCheck) {
        Ok(v) => v,
        Err(e) => {
            return Err(e);
        },
    };
    let ttl = match read_integer(entries, "ttl", ConfigKey::Ttl) {
        Ok(v) => v,
        Err(e) => {
            return Err(e);
        },
    };
    let max_retries = match read_integer(entries, "max_retries", ConfigKey::MaxRetries) {
        Ok(v) => v,
        Err(e) => {
            return Err(e);
        },
    };
    let health_check_ttl = if health_check {
        match read_integer(entries, "health_check_ttl", ConfigKey::HealthCheckTtl) {
            Ok(v) => v as u64,
            Err(e) => {
                return Err(e);
            },
        }
    } else {
        u64::MAX
    };
    Ok(
        Trident {
            address: normalize_address(address.as_str()),
            sort_on_startup,
            ma_length: if ma_length < 0 {
                0
            } else {
                ma_length as u64
            },
            health_check,
            ttl: ttl as u128,
            max_retries: max_retries as u32,
            health_check_ttl,
        },
    )
}

/// Whether a top-level table of this name is something else than an
/// upstream.
pub open spec fn reserved(name: Seq<char>) -> bool {
    name == "trident"@ || name == "sled"@ || name == "admin"@
}

/// The upstream that a table's entries describe, with a window of length
/// `ma_length`. The keys are read in the order max_consecutive,
/// max_per_second, url, ws_url; only the last one may be missing.
pub open spec fn read_upstream(entries: Seq<TomlEntryView>, ma_length: u64) -> Result<
    RpcView,
    ConfigError,
> {
    match integer_at(entries, "max_consecutive"@, ConfigKey::MaxConsecutive) {
        Err(e) => Err(e),
        Ok(max_consecutive) => match integer_at(
            entries,
            "max_per_second"@,
            ConfigKey::MaxPerSecond,
        ) {
            Err(e) => Err(e),
            Ok(max_per_second) => match text_at(entries, "url"@, ConfigKey::Url) {
                Err(e) => Err(e),
                Ok(url) => match optional_text_at(entries, "ws_url"@, ConfigKey::WsUrl) {
                    Err(e) => Err(e),
                    Ok(ws_url) => Ok(
                        Rpc::spec_new(
                            url,
                            ws_url,
                            max_consecutive as u32,
                            spec_min_time_delta(max_per_second as u64) as u128,
                            ma_length,
                        ),
                    ),
                },
            },
        },
    }
}

/// Reads one upstream's table.
pub fn upstream_settings(entries: &Vec<TomlEntry>, ma_length: u64) -> (found: Result<
    Rpc,
    ConfigError,
>)
    ensures
        match found {
            Ok(rpc) => read_upstream(entries_view(entries@), ma_length) == Ok::<
                RpcView,
                ConfigError,
            >(rpc@),
            Err(e) => read_upstream(entries_view(entries@), ma_length) == Err::<
                RpcView,
                ConfigError,
            >(e),
        },
{
    let max_consecutive = match read_integer(entries, "max_consecutive", ConfigKey::MaxConsecutive) {
        Ok(v) => v,
        Err(e) => {
            return Err(e);
        },
    };
    let max_per_second = match read_integer(entries, "max_per_second", ConfigKey::MaxPerSecond) {
        Ok(v) => v,
        Err(e) => {
            return Err(e);
        },
    };
    let url = match read_text(entries, "url", ConfigKey::Url) {
        Ok(v) => v,
        Err(e) => {
            return Err(e);
        },
    };
    let ws_url = match read_optional_text(entries, "ws_url", ConfigKey::WsUrl) {
        Ok(v) => v,
        Err(e) => {
            return Err(e);
        },
    };
    let delta = min_time_delta(max_per_second as u64);
    Ok(Rpc::new(url, ws_url, max_consecutive as u32, delta as u128, ma_length))
}

/// The upstreams that the tables of a document describe, in the order of
/// the tables. The first table that is no table, or lacks a key, is the
/// error.
pub open spec fn read_upstreams(tables: Seq<TomlTableView>, ma_length: u64) -> Result<
    Seq<RpcView>,
    ConfigError,
>
    decreases tables.len(),
{
    if tables.len() == 0 {
        Ok(Seq::empty())
    } else {
        match read_upstreams(tables.drop_last(), ma_length) {
            Err(e) => Err(e),
            Ok(upstreams) => if reserved(tables.last().name) {
                Ok(upstreams)
            } else {
                match tables.last().entries {
                    None => Err(ConfigError::IllTyped(ConfigKey::Upstream)),
                    Some(entries) => match read_upstream(entries, ma_length) {
                        Err(e) => Err(e),
                        Ok(upstream) => Ok(upstreams.push(upstream)),
                    },
                }
            },
        }
    }
}

/// What a document comes to: the `trident` table gives the settings, every
/// other table but `sled` and `admin` an upstream of the active list.
pub open spec fn read_document(tables: Seq<TomlTableView>) -> Result<FileSettingsView, ConfigError> {
    match table_at(tables, "trident"@) {
        None => Err(ConfigError::Missing(ConfigKey::Trident)),
        Some(table) => match table.entries {
            None => Err(ConfigError::IllTyped(ConfigKey::Trident)),
            Some(entries) => match read_trident(entries) {
                Err(e) => Err(e),
                Ok(trident) => match read_upstreams(tables, trident.ma_length) {
                    Err(e) => Err(e),
                    Ok(upstreams) => Ok(
                        FileSettingsView {
                            settings: SettingsView {
                                rpc_list: upstreams,
                                poverty_list: Seq::empty(),
                                address: trident.address,
                                health_check: trident.health_check,
                                ttl: trident.ttl,
                                max_retries: trident.max_retries,
                                health_check_ttl: trident.health_check_ttl,
                            },
                            sort_on_startup: trident.sort_on_startup,
                            ma_length: trident.ma_length,
                        },
                    ),
                },
            },
        },
    }
}

/// Whether a table of this name is something else than an upstream.
pub fn is_reserved(name: &String) -> (yes: bool)
    ensures
        yes == reserved(name@),
{
    *name == String::from_str("trident") || *name == String::from_str("sled") || *name
        == String::from_str("admin")
}

/// Reads the upstreams off the tables of a document.
pub fn upstreams_of_document(tables: &Vec<TomlTable>, ma_length: u64) -> (found: Result<
    Vec<Rpc>,
    ConfigError,
>)
    ensures
        match found {
            Ok(list) => read_upstreams(tables_view(tables@), ma_length) == Ok::<
                Seq<RpcView>,
                ConfigError,
            >(pool_view(list@)),
            Err(e) => read_upstreams(tables_view(tables@), ma_length) == Err::<
                Seq<RpcView>,
                ConfigError,
            >(e),
        },
{
    let ghost all = tables_view(tables@);
    let mut list: Vec<Rpc> = Vec::new();
    let mut i: usize = 0;
    assert(pool_view(list@) =~= Seq::empty());
    while i < tables.len()
        invariant
            i <= tables.len(),
            all == tables_view(tables@),
            read_upstreams(all.take(i as int), ma_length) == Ok::<Seq<RpcView>, ConfigError>(
                pool_view(list@),
            ),
        decreases tables.len() - i,
    {
        proof {
            assert(all.take(i + 1).drop_last() =~= all.take(i as int));
            assert(all.take(i + 1).last() == all[i as int]);
        }
        if !is_reserved(&tables[i].name) {
            let ghost before = pool_view(list@);
            match &tables[i].entries {
                None => {
                    proof {
                        lemma_upstreams_error(all, i + 1, ma_length);
                    }
                    return Err(ConfigError::IllTyped(ConfigKey::Upstream));
                },
                Some(entries) => match upstream_settings(entries, ma_length) {
                    Err(e) => {
                        proof {
                            lemma_upstreams_error(all, i + 1, ma_length);
                        }
                        return Err(e);
                    },
                    Ok(rpc) => {
                        list.push(rpc);
                        assert(pool_view(list@) =~= before.push(rpc@));
                    },
                },
            }
        }
        i = i + 1;
    }
    assert(all.take(i as int) =~= all);
    Ok(list)
}

/// An error met in the first `upto` tables is the error of the whole
/// document.
pub proof fn lemma_upstreams_error(tables: Seq<TomlTableView>, upto: int, ma_length: u64)
    requires
        0 <= upto <= tables.len(),
        read_upstreams(tables.take(upto), ma_length) is Err,
    ensures
        read_upstreams(tables, ma_length) == read_upstreams(tables.take(upto), ma_length),
    decreases tables.len() - upto,
{
    if upto < tables.len() {
        assert(tables.take(upto + 1).drop_last() =~= tables.take(upto));
        lemma_upstreams_error(tables, upto + 1, ma_length);
    } else {
        assert(tables.take(upto) =~= tables);
    }
}

/// Makes the settings from the tables of a parsed configuration file.
pub fn settings_from_document(tables: &Vec<TomlTable>) -> (found: Result<FileSettings, ConfigError>)
    ensures
        match found {
            Ok(file) => read_document(tables_view(tables@)) == Ok::<FileSettingsView, ConfigError>(
                file@,
            ),
            Err(e) => read_document(tables_view(tables@)) == Err::<FileSettingsView, ConfigError>(
                e,
            ),
        },
{
    let table = match find_table(tables, "trident") {
        Some(table) => table,
        None => {
            return Err(ConfigError::Missing(ConfigKey::Trident));
        },
    };
    let entries = match &table.entries {
        Some(entries) => entries,
        None => {
            return Err(ConfigError::IllTyped(ConfigKey::Trident));
        },
    };
    let trident = match trident_settings(entries) {
        Ok(trident) => trident,
        Err(e) => {
            return Err(e);
        },
    };
    let rpc_list = match upstreams_of_document(tables, trident.ma_length) {
        Ok(list) => list,
        Err(e) => {
            return Err(e);
        },
    };
    let file = FileSettings {
        settings: Settings {
            rpc_list,
            poverty_list: Vec::new(),
            address: trident.address,
            health_check: trident.health_check,
            ttl: trident.ttl,
            max_retries: trident.max_retries,
            health_check_ttl: trident.health_check_ttl,
        },
        sort_on_startup: trident.sort_on_startup,
        ma_length: trident.ma_length,
    };
    assert(file@.settings.poverty_list =~= Seq::empty());
    Ok(file)
}

/// What was given on the command line, already read as values.
#[derive(Debug)]
pub struct CliArgs {
    /// The upstreams' URLs, separated by commas.
    pub rpc_list: String,
    pub ma_length: u64,
    pub max_per_second: u64,
    pub address: String,
    pub port: String,
    pub health_check: bool,
    pub ttl: u128,
    pub max_retries: u32,
    pub health_check_ttl: u64,
}

pub struct CliArgsView {
    pub rpc_list: Seq<char>,
    pub ma_length: u64,
    pub max_per_second: u64,
    pub address: Seq<char>,
    pub port: Seq<char>,
    pub health_check: bool,
    pub ttl: u128,
    pub max_retries: u32,
    pub health_check_ttl: u64,
}

impl View for CliArgs {
    type V = CliArgsView;

    open spec fn view(&self) -> CliArgsView {
        CliArgsView {
            rpc_list: self.rpc_list@,
            ma_length: self.ma_length,
            max_per_second: self.max_per_second,
            address: self.address@,
            port: self.port@,
            health_check: self.health_check,
            ttl: self.ttl,
            max_retries: self.max_retries,
            health_check_ttl: self.health_check_ttl,
        }
    }
}

/// The upstreams made from a list of URLs: each may be picked six times in
/// a row.
pub open spec fn upstreams_of_urls(urls: Seq<Seq<char>>, delta: u128, ma_length: u64) -> Seq<
    RpcView,
> {
    Seq::new(urls.len(), |i: int| Rpc::spec_new(urls[i], None, 6, delta, ma_length))
}

impl Settings {
    /// The settings that a configuration file comes to, where `text` is
    /// TOML and holds what `read_document` asks for.
    pub open spec fn spec_from_file(text: Seq<char>) -> Result<FileSettingsView, ConfigError> {
        match toml_document(text) {
            None => Err(ConfigError::Parse),
            Some(tables) => read_document(tables),
        }
    }

    /// Makes the settings from the text of a configuration file.
    pub fn create_from_file(conf_file: &str) -> (found: Result<FileSettings, ConfigError>)
        ensures
            match found {
                Ok(file) => Self::spec_from_file(conf_file@) == Ok::<FileSettingsView, ConfigError>(
                    file@,
                ),
                Err(e) => Self::spec_from_file(conf_file@) == Err::<FileSettingsView, ConfigError>(
                    e,
                ),
            },
    {
        match parse_toml(conf_file) {
            None => Err(ConfigError::Parse),
            Some(tables) => settings_from_document(&tables),
        }
    }

    /// The settings that command-line arguments come to.
    pub open spec fn spec_from_matches(matches: CliArgsView) -> SettingsView {
        SettingsView {
            rpc_list: upstreams_of_urls(
                split(matches.rpc_list, ','),
                spec_min_time_delta(matches.max_per_second) as u128,
                matches.ma_length,
            ),
            poverty_list: Seq::empty(),
            address: with_port(matches.address, matches.port),
            health_check: matches.health_check,
            ttl: matches.ttl,
            max_retries: matches.max_retries,
            health_check_ttl: matches.health_check_ttl,
        }
    }

    /// Makes the settings from command-line arguments: one upstream for
    /// each URL of the list, all in the active list.
    pub fn create_from_matches(matches: &CliArgs) -> (settings: Settings)
        ensures
            settings@ == Self::spec_from_matches(matches@),
    {
        let delta = min_time_delta(matches.max_per_second) as u128;
        let urls = split_on(matches.rpc_list.as_str(), ',');
        let ghost wanted = upstreams_of_urls(texts_view(urls@), delta, matches.ma_length);
        let mut rpc_list: Vec<Rpc> = Vec::new();
        let mut i: usize = 0;
        while i < urls.len()
            invariant
                i <= urls.len(),
                wanted == upstreams_of_urls(texts_view(urls@), delta, matches.ma_length),
                rpc_list.len() == i,
                forall|j: int| 0 <= j < i ==> (#[trigger] pool_view(rpc_list@)[j]) == wanted[j],
            decreases urls.len() - i,
        {
            let ghost before = pool_view(rpc_list@);
            let rpc = Rpc::new(urls[i].clone(), None, 6, delta, matches.ma_length);
            assert(rpc@ == wanted[i as int]);
            rpc_list.push(rpc);
            assert(pool_view(rpc_list@) =~= before.push(wanted[i as int]));
            i = i + 1;
        }
        let settings = Settings {
            rpc_list,
            poverty_list: Vec::new(),
            address: address_with_port(matches.address.clone(), matches.port.as_str()),
            health_check: matches.health_check,
            ttl: matches.ttl,
            max_retries: matches.max_retries,
            health_check_ttl: matches.health_check_ttl,
        };
        assert(settings@.rpc_list =~= wanted);
        assert(settings@.poverty_list =~= Seq::empty());
        settings
    }
}

} // verus!
