//! Configuration of the distributed execution core: a validated key-value
//! map with typed entries and defaults. Construction checks every
//! user-supplied value against its entry's declared kind; reads after that
//! cannot fail.

use vstd::prelude::*;

use crate::error::KapotError;
use crate::text::{
    all_dec_digits, digits_val, lower_seq, parse_bool, parse_usize, spec_bool_value,
    spec_usize_value, str_eq, str_eq_ignore_ascii_case, unsigned_body, IntParseError,
};

verus! {

/// Result of parsing a configuration value against its declared kind.
pub type ParseResult<T> = core::result::Result<T, String>;

pub const KAPOT_JOB_NAME: &'static str = "kapot.job.name";

pub const KAPOT_DEFAULT_SHUFFLE_PARTITIONS: &'static str = "kapot.shuffle.partitions";

pub const KAPOT_HASH_JOIN_SINGLE_PARTITION_THRESHOLD: &'static str =
    "kapot.optimizer.hash_join_single_partition_threshold";

pub const KAPOT_DEFAULT_BATCH_SIZE: &'static str = "kapot.batch.size";

pub const KAPOT_REPARTITION_JOINS: &'static str = "kapot.repartition.joins";

pub const KAPOT_REPARTITION_AGGREGATIONS: &'static str = "kapot.repartition.aggregations";

pub const KAPOT_REPARTITION_WINDOWS: &'static str = "kapot.repartition.windows";

pub const KAPOT_PARQUET_PRUNING: &'static str = "kapot.parquet.pruning";

pub const KAPOT_COLLECT_STATISTICS: &'static str = "kapot.collect_statistics";

pub const KAPOT_WITH_INFORMATION_SCHEMA: &'static str = "kapot.with_information_schema";

/// A directory of plugin libraries, loaded when the scheduler state starts.
pub const KAPOT_PLUGIN_DIR: &'static str = "kapot.plugin_dir";

/// Max message size for gRPC clients.
pub const KAPOT_GRPC_CLIENT_MAX_MESSAGE_SIZE: &'static str = "kapot.grpc_client_max_message_size";

/// The value kinds a configuration entry may declare. Numeric kinds are all
/// validated as unsigned decimal numbers fitting `usize`.
#[derive(Debug, Clone, Copy, PartialEq, Eq, Structural)]
pub enum DataKind {
    Boolean,
    UInt16,
    UInt32,
    UInt64,
    Utf8,
}

/// One key-value pair of a configuration.
#[derive(Debug, Clone)]
pub struct Setting {
    pub key: String,
    pub value: String,
}

/// The mathematical content of a settings list: each pair as character
/// sequences.
pub open spec fn settings_view(s: Seq<Setting>) -> Seq<(Seq<char>, Seq<char>)> {
    s.map_values(|x: Setting| (x.key@, x.value@))
}

/// Look a key up in a list of pairs; the last binding wins.
pub open spec fn pair_lookup(s: Seq<(Seq<char>, Seq<char>)>, k: Seq<char>) -> Option<Seq<char>>
    decreases s.len(),
{
    if s.len() == 0 {
        None
    } else if s.last().0 == k {
        Some(s.last().1)
    } else {
        pair_lookup(s.drop_last(), k)
    }
}

/// The list of pairs with every binding of `k` removed, order otherwise kept.
pub open spec fn pair_remove(s: Seq<(Seq<char>, Seq<char>)>, k: Seq<char>) -> Seq<
    (Seq<char>, Seq<char>),
>
    decreases s.len(),
{
    if s.len() == 0 {
        Seq::empty()
    } else {
        let pre = pair_remove(s.drop_last(), k);
        if s.last().0 == k {
            pre
        } else {
            pre.push(s.last())
        }
    }
}

/// Removing one key leaves every other key's binding unchanged.
proof fn lemma_pair_remove_lookup(s: Seq<(Seq<char>, Seq<char>)>, k: Seq<char>, k2: Seq<char>)
    requires
        k2 != k,
    ensures
        pair_lookup(pair_remove(s, k), k2) == pair_lookup(s, k2),
    decreases s.len(),
{
    if s.len() > 0 {
        lemma_pair_remove_lookup(s.drop_last(), k, k2);
        let pre = pair_remove(s.drop_last(), k);
        if s.last().0 == k {
        } else {
            assert(pre.push(s.last()).drop_last() =~= pre);
        }
    }
}

/// Configuration option meta-data: its key, a description for humans, the
/// declared kind of its value, and its default, if it has one.
#[derive(Debug, Clone)]
pub struct ConfigEntry {
    pub name: String,
    pub description: String,
    pub data_kind: DataKind,
    pub default_value: Option<String>,
}

impl ConfigEntry {
    fn new(name: String, description: String, data_kind: DataKind, default_value: Option<String>)
        -> (r: Self)
        ensures
            r.name == name,
            r.description == description,
            r.data_kind == data_kind,
            r.default_value == default_value,
    {
        Self { name, description, data_kind, default_value }
    }
}

/// The keys of the supported configuration entries, in table order.
pub open spec fn config_entry_names() -> Seq<Seq<char>> {
    seq![
        "kapot.job.name"@,
        "kapot.shuffle.partitions"@,
        "kapot.batch.size"@,
        "kapot.repartition.joins"@,
        "kapot.repartition.aggregations"@,
        "kapot.repartition.windows"@,
        "kapot.parquet.pruning"@,
        "kapot.with_information_schema"@,
        "kapot.optimizer.hash_join_single_partition_threshold"@,
        "kapot.collect_statistics"@,
        "kapot.plugin_dir"@,
        "kapot.grpc_client_max_message_size"@,
    ]
}

/// The declared value kind of each supported entry, in table order.
pub open spec fn config_entry_kinds() -> Seq<DataKind> {
    seq![
        DataKind::Utf8,
        DataKind::UInt16,
        DataKind::UInt16,
        DataKind::Boolean,
        DataKind::Boolean,
        DataKind::Boolean,
        DataKind::Boolean,
        DataKind::Boolean,
        DataKind::UInt64,
        DataKind::Boolean,
        DataKind::Utf8,
        DataKind::UInt64,
    ]
}

/// The default value of each supported entry, in table order.
pub open spec fn config_entry_defaults() -> Seq<Option<Seq<char>>> {
    seq![
        None,
        Some("16"@),
        Some("8192"@),
        Some("true"@),
        Some("true"@),
        Some("true"@),
        Some("true"@),
        Some("false"@),
        Some("1048576"@),
        Some("false"@),
        Some(""@),
        Some("16777216"@),
    ]
}

/// Every declared default value is valid for its entry's kind: an entry
/// the user left unset can always serve its default, so reads of a
/// validated configuration cannot fail.
pub proof fn lemma_defaults_valid()
    ensures
        forall|i: int|
            0 <= i < config_entry_defaults().len() ==> (match #[trigger] config_entry_defaults()[i] {
                Some(d) => spec_parse_value_err(d, config_entry_kinds()[i]) is None,
                None => true,
            }),
{
    reveal_strlit("16");
    reveal_strlit("8192");
    reveal_strlit("1048576");
    reveal_strlit("16777216");
    reveal_with_fuel(digits_val, 10);
    assert(unsigned_body("16"@) == "16"@ && all_dec_digits("16"@) && digits_val("16"@) == 16);
    assert(unsigned_body("8192"@) == "8192"@ && all_dec_digits("8192"@) && digits_val("8192"@)
        == 8192);
    assert(unsigned_body("1048576"@) == "1048576"@ && all_dec_digits("1048576"@) && digits_val(
        "1048576"@,
    ) == 1048576);
    assert(unsigned_body("16777216"@) == "16777216"@ && all_dec_digits("16777216"@) && digits_val(
        "16777216"@,
    ) == 16777216);
}

/// The message a failed integer parse contributes to a configuration error.
pub open spec fn int_err_msg(e: IntParseError) -> Seq<char> {
    match e {
        IntParseError::Empty => "ParseIntError { kind: Empty }"@,
        IntParseError::InvalidDigit => "ParseIntError { kind: InvalidDigit }"@,
        IntParseError::PosOverflow => "ParseIntError { kind: PosOverflow }"@,
    }
}

/// Why a value is invalid for a kind, if it is: the message the failed
/// parse contributes to the configuration error.
pub open spec fn spec_parse_value_err(val: Seq<char>, kind: DataKind) -> Option<Seq<char>> {
    match kind {
        DataKind::UInt16 | DataKind::UInt32 | DataKind::UInt64 => match crate::text::spec_usize_err(
            val,
        ) {
            Some(e) => Some(int_err_msg(e)),
            None => None,
        },
        DataKind::Boolean => if spec_bool_value(val) is Some {
            None
        } else {
            Some("ParseBoolError"@)
        },
        DataKind::Utf8 => None,
    }
}

/// The message reported when a user-supplied value fails validation.
pub open spec fn parse_failure_message(name: Seq<char>, value: Seq<char>, err: Seq<char>) -> Seq<
    char,
> {
    "Failed to parse user-supplied value '"@ + name + "' for configuration setting '"@ + value
        + "': "@ + err
}

/// Entry `i` of the table has a user-supplied value that its kind rejects.
pub open spec fn entry_violation(vs: Seq<(Seq<char>, Seq<char>)>, i: int) -> bool {
    match pair_lookup(vs, config_entry_names()[i]) {
        Some(v) => spec_parse_value_err(v, config_entry_kinds()[i]) is Some,
        None => false,
    }
}

/// The first entry at or after `i` whose user-supplied value is invalid.
pub open spec fn first_violation_from(vs: Seq<(Seq<char>, Seq<char>)>, i: int) -> Option<int>
    decreases config_entry_names().len() - i,
{
    if i < 0 || i >= config_entry_names().len() {
        None
    } else if entry_violation(vs, i) {
        Some(i)
    } else {
        first_violation_from(vs, i + 1)
    }
}

proof fn lemma_no_violation_from(vs: Seq<(Seq<char>, Seq<char>)>, i: int)
    requires
        forall|j: int| i <= j < config_entry_names().len() ==> !entry_violation(vs, j),
    ensures
        first_violation_from(vs, i) is None,
    decreases config_entry_names().len() - i,
{
    if 0 <= i < config_entry_names().len() {
        lemma_no_violation_from(vs, i + 1);
    }
}

proof fn lemma_first_violation_from(vs: Seq<(Seq<char>, Seq<char>)>, i: int, idx: int)
    requires
        0 <= i <= idx < config_entry_names().len(),
        entry_violation(vs, idx),
        forall|j: int| i <= j < idx ==> !entry_violation(vs, j),
    ensures
        first_violation_from(vs, i) == Some(idx),
    decreases idx - i,
{
    if i < idx {
        lemma_first_violation_from(vs, i + 1, idx);
    }
}

/// Look a key up in a settings list; the last binding wins, as in
/// `pair_lookup` over the list's view.
fn lookup_setting<'a>(settings: &'a Vec<Setting>, key: &str) -> (r: Option<&'a String>)
    ensures
        match r {
            Some(v) => pair_lookup(settings_view(settings@), key@) == Some(v@),
            None => pair_lookup(settings_view(settings@), key@) is None,
        },
{
    let ghost vs = settings_view(settings@);
    let mut i: usize = settings.len();
    proof {
        assert(vs.take(i as int) =~= vs);
    }
    while i > 0
        invariant
            i <= settings@.len(),
            vs == settings_view(settings@),
            vs.len() == settings@.len(),
            pair_lookup(vs, key@) == pair_lookup(vs.take(i as int), key@),
        decreases i,
    {
        i -= 1;
        proof {
            assert(vs.take(i + 1).last() == vs[i as int]);
            assert(vs.take(i + 1).drop_last() =~= vs.take(i as int));
            assert(vs[i as int] == (settings@[i as int].key@, settings@[i as int].value@));
        }
        if str_eq(settings[i].key.as_str(), key) {
            return Some(&settings[i].value);
        }
    }
    proof {
        assert(vs.take(0) =~= Seq::<(Seq<char>, Seq<char>)>::empty());
    }
    None
}

/// Build the message reported when a user-supplied value fails validation.
fn build_parse_failure_message(name: &str, value: &str, err: &str) -> (r: String)
    ensures
        r@ == parse_failure_message(name@, value@, err@),
{
    String::from_str("Failed to parse user-supplied value '").concat(name).concat(
        "' for configuration setting '",
    ).concat(value).concat("': ").concat(err)
}

/// kapot configuration builder: accumulates settings, validated on `build`.
#[derive(Debug, Clone)]
pub struct KapotConfigBuilder {
    settings: Vec<Setting>,
}

impl View for KapotConfigBuilder {
    type V = Seq<(Seq<char>, Seq<char>)>;

    closed spec fn view(&self) -> Seq<(Seq<char>, Seq<char>)> {
        settings_view(self.settings@)
    }
}

impl Default for KapotConfigBuilder {
    /// Create a new config builder holding no settings.
    fn default() -> (r: Self)
        ensures
            r@ == Seq::<(Seq<char>, Seq<char>)>::empty(),
    {
        proof {
            assert(settings_view(Seq::empty()) =~= Seq::<(Seq<char>, Seq<char>)>::empty());
        }
        Self { settings: Vec::new() }
    }
}

impl KapotConfigBuilder {
    /// Create a new builder with an additional setting: `k` is now bound to
    /// `v` and every other key keeps its binding.
    pub fn set(&self, k: &str, v: &str) -> (r: Self)
        ensures
            pair_lookup(r@, k@) == Some(v@),
            forall|k2: Seq<char>| k2 != k@ ==> pair_lookup(r@, k2) == pair_lookup(self@, k2),
    {
        let ghost vs = settings_view(self.settings@);
        let mut out: Vec<Setting> = Vec::new();
        let mut i: usize = 0;
        while i < self.settings.len()
            invariant
                i <= self.settings@.len(),
                vs == settings_view(self.settings@),
                vs.len() == self.settings@.len(),
                settings_view(out@) == pair_remove(vs.take(i as int), k@),
            decreases self.settings@.len() - i,
        {
            proof {
                assert(vs.take(i + 1).last() == vs[i as int]);
                assert(vs.take(i + 1).drop_last() =~= vs.take(i as int));
                assert(vs[i as int] == (self.settings@[i as int].key@,
                self.settings@[i as int].value@));
            }
            if !str_eq(self.settings[i].key.as_str(), k) {
                let kept = Setting {
                    key: self.settings[i].key.clone(),
                    value: self.settings[i].value.clone(),
                };
                out.push(kept);
                proof {
                    assert(settings_view(out@) =~= pair_remove(vs.take(i + 1), k@));
                }
            } else {
                proof {
                    assert(settings_view(out@) =~= pair_remove(vs.take(i + 1), k@));
                }
            }
            i += 1;
        }
        proof {
            assert(vs.take(vs.len() as int) =~= vs);
        }
        out.push(Setting { key: k.to_owned(), value: v.to_owned() });
        proof {
            let ghost fin = settings_view(out@);
            assert(fin.last() == (k@, v@));
            assert(fin.drop_last() =~= pair_remove(vs, k@));
            assert forall|k2: Seq<char>| k2 != k@ implies pair_lookup(fin, k2) == pair_lookup(
                vs,
                k2,
            ) by {
                lemma_pair_remove_lookup(vs, k@, k2);
            }
        }
        Self { settings: out }
    }

    /// Validate the accumulated settings into a configuration.
    pub fn build(&self) -> (r: Result<KapotConfig, KapotError>)
        ensures
            match first_violation_from(self@, 0) {
                None => r matches Ok(c) && c@ == self@,
                Some(i) => r matches Err(e) && (e matches KapotError::General(msg) && msg@
                    == parse_failure_message(
                    config_entry_names()[i],
                    pair_lookup(self@, config_entry_names()[i]).unwrap(),
                    spec_parse_value_err(
                        pair_lookup(self@, config_entry_names()[i]).unwrap(),
                        config_entry_kinds()[i],
                    ).unwrap(),
                )),
            },
    {
        KapotConfig::with_settings(clone_settings(&self.settings))
    }
}

/// Clone a settings list; the copy carries the same keys and values.
fn clone_settings(settings: &Vec<Setting>) -> (r: Vec<Setting>)
    ensures
        settings_view(r@) == settings_view(settings@),
{
    let mut out: Vec<Setting> = Vec::new();
    let mut i: usize = 0;
    while i < settings.len()
        invariant
            i <= settings@.len(),
            out@.len() == i,
            forall|j: int|
                0 <= j < i ==> (#[trigger] out@[j]).key@ == settings@[j].key@ && out@[j].value@
                    == settings@[j].value@,
        decreases settings@.len() - i,
    {
        out.push(Setting { key: settings[i].key.clone(), value: settings[i].value.clone() });
        i += 1;
    }
    proof {
        assert(settings_view(out@) =~= settings_view(settings@));
    }
    out
}

/// kapot configuration: a validated settings map. Every user-supplied value
/// for a supported entry has been checked against that entry's kind.
#[derive(Debug, Clone)]
pub struct KapotConfig {
    settings: Vec<Setting>,
}

impl View for KapotConfig {
    type V = Seq<(Seq<char>, Seq<char>)>;

    closed spec fn view(&self) -> Seq<(Seq<char>, Seq<char>)> {
        settings_view(self.settings@)
    }
}

impl KapotConfig {
    /// Create a default configuration: no user settings, every read serves
    /// its entry's default.
    pub fn new() -> (r: Result<Self, KapotError>)
        ensures
            r matches Ok(c) && c@ == Seq::<(Seq<char>, Seq<char>)>::empty(),
    {
        proof {
            assert(settings_view(Seq::empty()) =~= Seq::<(Seq<char>, Seq<char>)>::empty());
            assert forall|j: int| 0 <= j < config_entry_names().len() implies !entry_violation(
                Seq::empty(),
                j,
            ) by {
                assert(pair_lookup(Seq::empty(), config_entry_names()[j]) is None);
            }
            lemma_no_violation_from(Seq::empty(), 0);
        }
        Self::with_settings(Vec::new())
    }

    /// Create a configuration builder.
    pub fn builder() -> (r: KapotConfigBuilder)
        ensures
            r@ == Seq::<(Seq<char>, Seq<char>)>::empty(),
    {
        KapotConfigBuilder::default()
    }

    /// Create a configuration from key-value pairs, validating each
    /// user-supplied value of a supported entry against the entry's kind.
    /// Fails on the first invalid value in table order, naming the entry,
    /// the value and why it does not parse.
    pub fn with_settings(settings: Vec<Setting>) -> (r: Result<Self, KapotError>)
        ensures
            match first_violation_from(settings_view(settings@), 0) {
                None => r matches Ok(c) && c@ == settings_view(settings@),
                Some(i) => r matches Err(e) && (e matches KapotError::General(msg) && msg@
                    == parse_failure_message(
                    config_entry_names()[i],
                    pair_lookup(settings_view(settings@), config_entry_names()[i]).unwrap(),
                    spec_parse_value_err(
                        pair_lookup(settings_view(settings@), config_entry_names()[i]).unwrap(),
                        config_entry_kinds()[i],
                    ).unwrap(),
                )),
            },
    {
        let ghost vs = settings_view(settings@);
        let entries = Self::valid_entries();
        let mut idx: usize = 0;
        while idx < entries.len()
            invariant
                vs == settings_view(settings@),
                entries@.len() == config_entry_names().len(),
                forall|i: int|
                    0 <= i < entries@.len() ==> (#[trigger] entries@[i]).name@
                        == config_entry_names()[i] && entries@[i].data_kind
                        == config_entry_kinds()[i],
                idx <= entries@.len(),
                forall|j: int| 0 <= j < idx ==> !entry_violation(vs, j),
            decreases entries@.len() - idx,
        {
            let entry = &entries[idx];
            match lookup_setting(&settings, entry.name.as_str()) {
                Some(v) => {
                    match Self::parse_value(v.as_str(), entry.data_kind) {
                        Ok(_) => {
                            proof {
                                assert(!entry_violation(vs, idx as int));
                            }
                        },
                        Err(e) => {
                            proof {
                                assert(entry_violation(vs, idx as int));
                                lemma_first_violation_from(vs, 0, idx as int);
                            }
                            let msg = build_parse_failure_message(
                                entry.name.as_str(),
                                v.as_str(),
                                e.as_str(),
                            );
                            return Err(KapotError::General(msg));
                        },
                    }
                },
                None => {
                    proof {
                        assert(!entry_violation(vs, idx as int));
                    }
                },
            }
            idx += 1;
        }
        proof {
            lemma_no_violation_from(vs, 0);
        }
        Ok(Self { settings })
    }

    /// Check that a value parses under the given kind; on failure, report
    /// the parser's complaint.
    pub fn parse_value(val: &str, data_kind: DataKind) -> (r: ParseResult<()>)
        ensures
            match spec_parse_value_err(val@, data_kind) {
                None => r is Ok,
                Some(m) => r matches Err(msg) && msg@ == m,
            },
    {
        match data_kind {
            DataKind::UInt16 | DataKind::UInt32 | DataKind::UInt64 => {
                match parse_usize(val) {
                    Ok(_) => Ok(()),
                    Err(IntParseError::Empty) => Err(
                        String::from_str("ParseIntError { kind: Empty }"),
                    ),
                    Err(IntParseError::InvalidDigit) => Err(
                        String::from_str("ParseIntError { kind: InvalidDigit }"),
                    ),
                    Err(IntParseError::PosOverflow) => Err(
                        String::from_str("ParseIntError { kind: PosOverflow }"),
                    ),
                }
            },
            DataKind::Boolean => {
                match parse_bool(val) {
                    Ok(_) => Ok(()),
                    Err(_) => Err(String::from_str("ParseBoolError")),
                }
            },
            DataKind::Utf8 => Ok(()),
        }
    }

    /// All available configuration options, in table order.
    pub fn valid_entries() -> (v: Vec<ConfigEntry>)
        ensures
            v@.len() == config_entry_names().len(),
            forall|i: int|
                0 <= i < v@.len() ==> (#[trigger] v@[i]).name@ == config_entry_names()[i]
                    && v@[i].data_kind == config_entry_kinds()[i] && (match config_entry_defaults()[i] {
                    Some(d) => v@[i].default_value matches Some(dv) && dv@ == d,
                    None => v@[i].default_value is None,
                }),
    {
        let mut v: Vec<ConfigEntry> = Vec::new();
        v.push(
            ConfigEntry::new(
                String::from_str("kapot.job.name"),
                String::from_str(
                    "Sets the job name that will appear in the web user interface for any submitted jobs",
                ),
                DataKind::Utf8,
                None,
            ),
        );
        v.push(
            ConfigEntry::new(
                String::from_str("kapot.shuffle.partitions"),
                String::from_str(
                    "Sets the default number of partitions to create when repartitioning query stages",
                ),
                DataKind::UInt16,
                Some(String::from_str("16")),
            ),
        );
        v.push(
            ConfigEntry::new(
                String::from_str("kapot.batch.size"),
                String::from_str("Sets the default batch size"),
                DataKind::UInt16,
                Some(String::from_str("8192")),
            ),
        );
        v.push(
            ConfigEntry::new(
                String::from_str("kapot.repartition.joins"),
                String::from_str("Configuration for repartition joins"),
                DataKind::Boolean,
                Some(String::from_str("true")),
            ),
        );
        v.push(
            ConfigEntry::new(
                String::from_str("kapot.repartition.aggregations"),
                String::from_str("Configuration for repartition aggregations"),
                DataKind::Boolean,
                Some(String::from_str("true")),
            ),
        );
        v.push(
            ConfigEntry::new(
                String::from_str("kapot.repartition.windows"),
                String::from_str("Configuration for repartition windows"),
                DataKind::Boolean,
                Some(String::from_str("true")),
            ),
        );
        v.push(
            ConfigEntry::new(
                String::from_str("kapot.parquet.pruning"),
                String::from_str("Configuration for parquet prune"),
                DataKind::Boolean,
                Some(String::from_str("true")),
            ),
        );
        v.push(
            ConfigEntry::new(
                String::from_str("kapot.with_information_schema"),
                String::from_str("Sets whether enable information_schema"),
                DataKind::Boolean,
                Some(String::from_str("false")),
            ),
        );
        v.push(
            ConfigEntry::new(
                String::from_str("kapot.optimizer.hash_join_single_partition_threshold"),
                String::from_str(
                    "Sets threshold in bytes for collecting the smaller side of the hash join in memory",
                ),
                DataKind::UInt64,
                Some(String::from_str("1048576")),
            ),
        );
        v.push(
            ConfigEntry::new(
                String::from_str("kapot.collect_statistics"),
                String::from_str("Configuration for collecting statistics during scan"),
                DataKind::Boolean,
                Some(String::from_str("false")),
            ),
        );
        v.push(
            ConfigEntry::new(
                String::from_str("kapot.plugin_dir"),
                String::from_str("Sets the plugin dir"),
                DataKind::Utf8,
                Some(String::from_str("")),
            ),
        );
        v.push(
            ConfigEntry::new(
                String::from_str("kapot.grpc_client_max_message_size"),
                String::from_str("Configuration for max message size in gRPC clients"),
                DataKind::UInt64,
                Some(String::from_str("16777216")),
            ),
        );
        v
    }

    /// The raw settings this configuration was built from.
    pub fn settings(&self) -> (r: &Vec<Setting>)
        ensures
            settings_view(r@) == self@,
    {
        &self.settings
    }

    /// The value of a numeric setting: the user-supplied value if present
    /// and parsable, the given default otherwise.
    fn get_usize_setting(&self, key: &str, default: usize) -> (r: usize)
        ensures
            match pair_lookup(self@, key@) {
                Some(v) => match spec_usize_value(v) {
                    Some(n) => r == n,
                    None => r == default,
                },
                None => r == default,
            },
    {
        match lookup_setting(&self.settings, key) {
            Some(v) => match parse_usize(v.as_str()) {
                Ok(n) => n,
                Err(_) => default,
            },
            None => default,
        }
    }

    /// The value of a boolean setting: the user-supplied value if present
    /// and parsable, the given default otherwise.
    fn get_bool_setting(&self, key: &str, default: bool) -> (r: bool)
        ensures
            match pair_lookup(self@, key@) {
                Some(v) => match spec_bool_value(v) {
                    Some(b) => r == b,
                    None => r == default,
                },
                None => r == default,
            },
    {
        match lookup_setting(&self.settings, key) {
            Some(v) => match parse_bool(v.as_str()) {
                Ok(b) => b,
                Err(_) => default,
            },
            None => default,
        }
    }

    /// The value of a string setting: the user-supplied value if present,
    /// the given default otherwise.
    fn get_string_setting(&self, key: &str, default: &str) -> (r: String)
        ensures
            match pair_lookup(self@, key@) {
                Some(v) => r@ == v,
                None => r@ == default@,
            },
    {
        match lookup_setting(&self.settings, key) {
            Some(v) => v.clone(),
            None => default.to_owned(),
        }
    }

    /// The default number of partitions to create when repartitioning
    /// query stages.
    pub fn default_shuffle_partitions(&self) -> (r: usize)
        ensures
            match pair_lookup(self@, "kapot.shuffle.partitions"@) {
                Some(v) => match spec_usize_value(v) {
                    Some(n) => r == n,
                    None => r == 16,
                },
                None => r == 16,
            },
    {
        self.get_usize_setting("kapot.shuffle.partitions", 16)
    }

    /// The directory from which plugin libraries are loaded.
    pub fn default_plugin_dir(&self) -> (r: String)
        ensures
            match pair_lookup(self@, "kapot.plugin_dir"@) {
                Some(v) => r@ == v,
                None => r@ == ""@,
            },
    {
        self.get_string_setting("kapot.plugin_dir", "")
    }

    /// The default batch size.
    pub fn default_batch_size(&self) -> (r: usize)
        ensures
            match pair_lookup(self@, "kapot.batch.size"@) {
                Some(v) => match spec_usize_value(v) {
                    Some(n) => r == n,
                    None => r == 8192,
                },
                None => r == 8192,
            },
    {
        self.get_usize_setting("kapot.batch.size", 8192)
    }

    /// The threshold in bytes for collecting the smaller side of a hash
    /// join in memory.
    pub fn hash_join_single_partition_threshold(&self) -> (r: usize)
        ensures
            match pair_lookup(self@, "kapot.optimizer.hash_join_single_partition_threshold"@) {
                Some(v) => match spec_usize_value(v) {
                    Some(n) => r == n,
                    None => r == 1048576,
                },
                None => r == 1048576,
            },
    {
        self.get_usize_setting("kapot.optimizer.hash_join_single_partition_threshold", 1048576)
    }

    /// The maximum message size for gRPC clients.
    pub fn default_grpc_client_max_message_size(&self) -> (r: usize)
        ensures
            match pair_lookup(self@, "kapot.grpc_client_max_message_size"@) {
                Some(v) => match spec_usize_value(v) {
                    Some(n) => r == n,
                    None => r == 16777216,
                },
                None => r == 16777216,
            },
    {
        self.get_usize_setting("kapot.grpc_client_max_message_size", 16777216)
    }

    /// Whether joins are repartitioned.
    pub fn repartition_joins(&self) -> (r: bool)
        ensures
            match pair_lookup(self@, "kapot.repartition.joins"@) {
                Some(v) => match spec_bool_value(v) {
                    Some(b) => r == b,
                    None => r == true,
                },
                None => r == true,
            },
    {
        self.get_bool_setting("kapot.repartition.joins", true)
    }

    /// Whether aggregations are repartitioned.
    pub fn repartition_aggregations(&self) -> (r: bool)
        ensures
            match pair_lookup(self@, "kapot.repartition.aggregations"@) {
                Some(v) => match spec_bool_value(v) {
                    Some(b) => r == b,
                    None => r == true,
                },
                None => r == true,
            },
    {
        self.get_bool_setting("kapot.repartition.aggregations", true)
    }

    /// Whether window operators are repartitioned.
    pub fn repartition_windows(&self) -> (r: bool)
        ensures
            match pair_lookup(self@, "kapot.repartition.windows"@) {
                Some(v) => match spec_bool_value(v) {
                    Some(b) => r == b,
                    None => r == true,
                },
                None => r == true,
            },
    {
        self.get_bool_setting("kapot.repartition.windows", true)
    }

    /// Whether parquet row groups are pruned.
    pub fn parquet_pruning(&self) -> (r: bool)
        ensures
            match pair_lookup(self@, "kapot.parquet.pruning"@) {
                Some(v) => match spec_bool_value(v) {
                    Some(b) => r == b,
                    None => r == true,
                },
                None => r == true,
            },
    {
        self.get_bool_setting("kapot.parquet.pruning", true)
    }

    /// Whether statistics are collected during scans.
    pub fn collect_statistics(&self) -> (r: bool)
        ensures
            match pair_lookup(self@, "kapot.collect_statistics"@) {
                Some(v) => match spec_bool_value(v) {
                    Some(b) => r == b,
                    None => r == false,
                },
                None => r == false,
            },
    {
        self.get_bool_setting("kapot.collect_statistics", false)
    }

    /// Whether the information schema is enabled by default.
    pub fn default_with_information_schema(&self) -> (r: bool)
        ensures
            match pair_lookup(self@, "kapot.with_information_schema"@) {
                Some(v) => match spec_bool_value(v) {
                    Some(b) => r == b,
                    None => r == false,
                },
                None => r == false,
            },
    {
        self.get_bool_setting("kapot.with_information_schema", false)
    }
}

/// The scheduler's task-distribution policy.
#[derive(Debug, Clone, Copy, PartialEq, Eq, Structural)]
pub enum TaskSchedulingPolicy {
    PullStaged,
    PushStaged,
}

impl TaskSchedulingPolicy {
    /// Parse a policy name: the dashed variant name, compared without
    /// regard to ASCII case.
    pub fn from_str(s: &str) -> (r: Result<TaskSchedulingPolicy, String>)
        ensures
            lower_seq(s@) == "pull-staged"@ ==> (r matches Ok(p) && p
                == TaskSchedulingPolicy::PullStaged),
            lower_seq(s@) == "push-staged"@ ==> (r matches Ok(p) && p
                == TaskSchedulingPolicy::PushStaged),
            (lower_seq(s@) != "pull-staged"@ && lower_seq(s@) != "push-staged"@) ==> (r matches Err(
                m,
            ) && m@ == "invalid variant: "@ + s@),
    {
        proof {
            reveal_strlit("pull-staged");
            reveal_strlit("push-staged");
            assert(lower_seq("pull-staged"@) =~= "pull-staged"@);
            assert(lower_seq("push-staged"@) =~= "push-staged"@);
            assert("pull-staged"@[2] == 'l' && "push-staged"@[2] == 's');
            assert("pull-staged"@ != "push-staged"@);
        }
        if str_eq_ignore_ascii_case(s, "pull-staged") {
            Ok(TaskSchedulingPolicy::PullStaged)
        } else if str_eq_ignore_ascii_case(s, "push-staged") {
            Ok(TaskSchedulingPolicy::PushStaged)
        } else {
            Err(String::from_str("invalid variant: ").concat(s))
        }
    }
}

/// The log rolling policy.
#[derive(Debug, Clone, Copy, PartialEq, Eq, Structural)]
pub enum LogRotationPolicy {
    Minutely,
    Hourly,
    Daily,
    Never,
}

impl LogRotationPolicy {
    /// Parse a policy name: the lowered variant name, compared without
    /// regard to ASCII case.
    pub fn from_str(s: &str) -> (r: Result<LogRotationPolicy, String>)
        ensures
            lower_seq(s@) == "minutely"@ ==> (r matches Ok(p) && p == LogRotationPolicy::Minutely),
            lower_seq(s@) == "hourly"@ ==> (r matches Ok(p) && p == LogRotationPolicy::Hourly),
            lower_seq(s@) == "daily"@ ==> (r matches Ok(p) && p == LogRotationPolicy::Daily),
            lower_seq(s@) == "never"@ ==> (r matches Ok(p) && p == LogRotationPolicy::Never),
            (lower_seq(s@) != "minutely"@ && lower_seq(s@) != "hourly"@ && lower_seq(s@)
                != "daily"@ && lower_seq(s@) != "never"@) ==> (r matches Err(m) && m@
                == "invalid variant: "@ + s@),
    {
        proof {
            reveal_strlit("minutely");
            reveal_strlit("hourly");
            reveal_strlit("daily");
            reveal_strlit("never");
            assert(lower_seq("minutely"@) =~= "minutely"@);
            assert(lower_seq("hourly"@) =~= "hourly"@);
            assert(lower_seq("daily"@) =~= "daily"@);
            assert(lower_seq("never"@) =~= "never"@);
            assert("daily"@[0] == 'd' && "never"@[0] == 'n');
            assert("daily"@ != "never"@);
        }
        if str_eq_ignore_ascii_case(s, "minutely") {
            Ok(LogRotationPolicy::Minutely)
        } else if str_eq_ignore_ascii_case(s, "hourly") {
            Ok(LogRotationPolicy::Hourly)
        } else if str_eq_ignore_ascii_case(s, "daily") {
            Ok(LogRotationPolicy::Daily)
        } else if str_eq_ignore_ascii_case(s, "never") {
            Ok(LogRotationPolicy::Never)
        } else {
            Err(String::from_str("invalid variant: ").concat(s))
        }
    }
}

/// The source-data cache policy.
#[derive(Debug, Clone, Copy, PartialEq, Eq, Structural)]
pub enum DataCachePolicy {
    LocalDiskFile,
}

impl DataCachePolicy {
    /// Parse a policy name: the dashed variant name, compared without
    /// regard to ASCII case.
    pub fn from_str(s: &str) -> (r: Result<DataCachePolicy, String>)
        ensures
            lower_seq(s@) == "local-disk-file"@ ==> (r matches Ok(p) && p
                == DataCachePolicy::LocalDiskFile),
            lower_seq(s@) != "local-disk-file"@ ==> (r matches Err(m) && m@ == "invalid variant: "@
                + s@),
    {
        proof {
            reveal_strlit("local-disk-file");
            assert(lower_seq("local-disk-file"@) =~= "local-disk-file"@);
        }
        if str_eq_ignore_ascii_case(s, "local-disk-file") {
            Ok(DataCachePolicy::LocalDiskFile)
        } else {
            Err(String::from_str("invalid variant: ").concat(s))
        }
    }
}

} // verus!
