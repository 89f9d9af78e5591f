//! Where the catalog keeps its files, and the user's preferences.

use vstd::prelude::*;
use crate::cli::{format_named, parse_format};
use crate::error::{ErrorKind, ErrorModel, StoreError};
use crate::models::{Config, ConfigModel, OutputFormat};
use crate::text::str_eq;

verus! {

/// The catalog's directory below the user's home directory.
pub open spec fn home_data_path(home: Seq<char>) -> Seq<char> {
    home + "/.bq-meta"@
}

/// The path of the configuration file in the catalog's directory.
pub open spec fn config_path(data_path: Seq<char>) -> Seq<char> {
    data_path + "/config.yaml"@
}

/// The directory of the documents in the catalog's directory.
pub open spec fn data_dir(data_path: Seq<char>) -> Seq<char> {
    data_path + "/data"@
}

/// The failure where neither an override nor a home directory is known.
pub open spec fn home_error() -> ErrorModel {
    ErrorModel { kind: ErrorKind::StorageIO, message: "Could not determine home directory"@ }
}

/// The catalog's directory: the override if one is set, else `.bq-meta` in
/// the home directory.
pub fn get_data_path(override_path: Option<String>, home: Option<String>) -> (r: Result<
    String,
    StoreError,
>)
    ensures
        match r {
            Ok(path) => match (override_path, home) {
                (Some(p), _) => path@ == p@,
                (None, Some(h)) => path@ == home_data_path(h@),
                (None, None) => false,
            },
            Err(e) => override_path is None && home is None && e@ == home_error(),
        },
{
    match override_path {
        Some(path) => Ok(path),
        None => match home {
            Some(home) => Ok(home.concat("/.bq-meta")),
            None => Err(
                StoreError::new(
                    ErrorKind::StorageIO,
                    String::from_str("Could not determine home directory"),
                ),
            ),
        },
    }
}

/// The path of the configuration file.
pub fn get_config_path(data_path: &str) -> (path: String)
    ensures
        path@ == config_path(data_path@),
{
    String::from_str(data_path).concat("/config.yaml")
}

/// The directory of the documents.
pub fn get_data_dir(data_path: &str) -> (path: String)
    ensures
        path@ == data_dir(data_path@),
{
    String::from_str(data_path).concat("/data")
}

/// What was found at the path of the configuration file.
#[derive(Debug, PartialEq, Eq)]
pub enum ConfigFile {
    /// There is no file.
    Missing,
    /// The file could not be read.
    Unreadable,
    /// The file was read but does not hold a configuration.
    Malformed,
    /// The file holds this configuration.
    Stored(Config),
}

/// The failure for a configuration file that cannot be read or understood.
pub open spec fn config_error(kind: ErrorKind, data_path: Seq<char>) -> ErrorModel {
    ErrorModel {
        kind,
        message: if kind == ErrorKind::Corrupt {
            "Failed to parse config file: "@ + config_path(data_path)
        } else {
            "Failed to read config file: "@ + config_path(data_path)
        },
    }
}

/// The configuration in force: the stored one, or the default where none
/// is stored.
pub fn load_config(data_path: &str, file: ConfigFile) -> (r: Result<Config, StoreError>)
    ensures
        match file {
            ConfigFile::Missing => r matches Ok(c) && c@ == (ConfigModel {
                default_project: None,
                default_dataset: None,
                output_format: OutputFormat::Table,
            }),
            ConfigFile::Unreadable => r matches Err(e) && e@ == config_error(
                ErrorKind::StorageIO,
                data_path@,
            ),
            ConfigFile::Malformed => r matches Err(e) && e@ == config_error(
                ErrorKind::Corrupt,
                data_path@,
            ),
            ConfigFile::Stored(stored) => r matches Ok(c) && c@ == stored@,
        },
{
    match file {
        ConfigFile::Missing => Ok(Config::default()),
        ConfigFile::Unreadable => {
            let path = get_config_path(data_path);
            Err(
                StoreError::with_detail(
                    ErrorKind::StorageIO,
                    "Failed to read config file: ",
                    path.as_str(),
                ),
            )
        },
        ConfigFile::Malformed => {
            let path = get_config_path(data_path);
            Err(
                StoreError::with_detail(
                    ErrorKind::Corrupt,
                    "Failed to parse config file: ",
                    path.as_str(),
                ),
            )
        },
        ConfigFile::Stored(config) => Ok(config),
    }
}

/// What initialising the catalog's directory takes.
#[derive(Debug, PartialEq, Eq)]
pub struct InitPlan {
    /// The directory to create, with the directories above it.
    pub data_dir: String,
    /// The path at which to write the default configuration, unless a
    /// configuration file exists.
    pub config_path: Option<String>,
    /// The configuration to write there.
    pub config: Config,
    /// What to tell the user afterwards.
    pub message: String,
}

/// Plans the initialisation of the catalog's directory: the data directory
/// is created in any case, the default configuration written only where no
/// configuration file exists.
pub fn init_data_directory(data_path: &str, config_exists: bool) -> (plan: InitPlan)
    ensures
        plan.data_dir@ == data_dir(data_path@),
        plan.config_path.deep_view() == if config_exists {
            None
        } else {
            Some(config_path(data_path@))
        },
        plan.config@ == (ConfigModel {
            default_project: None,
            default_dataset: None,
            output_format: OutputFormat::Table,
        }),
        plan.message@ == "Initialized bq-meta data directory at: "@ + data_path@,
{
    let config_path = if config_exists {
        None
    } else {
        Some(get_config_path(data_path))
    };
    InitPlan {
        data_dir: get_data_dir(data_path),
        config_path,
        config: Config::default(),
        message: String::from_str("Initialized bq-meta data directory at: ").concat(data_path),
    }
}

/// The name of a format.
pub open spec fn format_name(format: OutputFormat) -> Seq<char> {
    match format {
        OutputFormat::Table => "table"@,
        OutputFormat::Json => "json"@,
        OutputFormat::Yaml => "yaml"@,
    }
}

/// The name of a format.
pub fn format_text(format: OutputFormat) -> (name: String)
    ensures
        name@ == format_name(format),
{
    match format {
        OutputFormat::Table => String::from_str("table"),
        OutputFormat::Json => String::from_str("json"),
        OutputFormat::Yaml => String::from_str("yaml"),
    }
}

/// Every format is the one that its name stands for.
pub proof fn lemma_format_name_parses(format: OutputFormat)
    ensures
        format_named(format_name(format)) == Some(format),
{
    reveal_strlit("table");
    reveal_strlit("json");
    reveal_strlit("yaml");
    assert("table"@.len() == 5 && "json"@.len() == 4 && "yaml"@.len() == 4);
    assert("json"@[0] == 'j' && "yaml"@[0] == 'y');
}

/// A preference that can be set and read.
#[derive(Clone, Copy, Debug, PartialEq, Eq, Structural)]
pub enum ConfigKey {
    DefaultProject,
    DefaultDataset,
    OutputFormat,
}

/// The preference that a key names, if it names one.
pub open spec fn key_named(key: Seq<char>) -> Option<ConfigKey> {
    if key == "default_project"@ {
        Some(ConfigKey::DefaultProject)
    } else if key == "default_dataset"@ {
        Some(ConfigKey::DefaultDataset)
    } else if key == "output_format"@ {
        Some(ConfigKey::OutputFormat)
    } else {
        None
    }
}

/// The preference that a key names, if it names one.
pub fn parse_key(key: &str) -> (r: Option<ConfigKey>)
    ensures
        r == key_named(key@),
{
    if str_eq(key, "default_project") {
        Some(ConfigKey::DefaultProject)
    } else if str_eq(key, "default_dataset") {
        Some(ConfigKey::DefaultDataset)
    } else if str_eq(key, "output_format") {
        Some(ConfigKey::OutputFormat)
    } else {
        None
    }
}

/// The failure for a key that names no preference.
pub open spec fn key_error(key: Seq<char>) -> ErrorModel {
    ErrorModel { kind: ErrorKind::InvalidInput, message: "Unknown config key: "@ + key }
}

/// The failure for a value that names no format.
pub open spec fn format_error(value: Seq<char>) -> ErrorModel {
    ErrorModel { kind: ErrorKind::InvalidInput, message: "Invalid output format: "@ + value }
}

/// What setting a preference makes of a configuration, or why it cannot be
/// set.
pub open spec fn config_set(config: ConfigModel, key: Seq<char>, value: Seq<char>) -> Result<
    ConfigModel,
    ErrorModel,
> {
    match key_named(key) {
        Some(ConfigKey::DefaultProject) => Ok(
            ConfigModel { default_project: Some(value), ..config },
        ),
        Some(ConfigKey::DefaultDataset) => Ok(
            ConfigModel { default_dataset: Some(value), ..config },
        ),
        Some(ConfigKey::OutputFormat) => match format_named(value) {
            Some(format) => Ok(ConfigModel { output_format: format, ..config }),
            None => Err(format_error(value)),
        },
        None => Err(key_error(key)),
    }
}

/// How a preference that may be unset is shown.
pub open spec fn shown(value: Option<Seq<char>>) -> Seq<char> {
    match value {
        Some(text) => text,
        None => "None"@,
    }
}

/// What reading a preference gives, or why it cannot be read.
pub open spec fn config_get(config: ConfigModel, key: Seq<char>) -> Result<Seq<char>, ErrorModel> {
    match key_named(key) {
        Some(ConfigKey::DefaultProject) => Ok(shown(config.default_project)),
        Some(ConfigKey::DefaultDataset) => Ok(shown(config.default_dataset)),
        Some(ConfigKey::OutputFormat) => Ok(format_name(config.output_format)),
        None => Err(key_error(key)),
    }
}

/// Sets a preference. On failure the configuration stays as it was.
pub fn set_config_value(config: &mut Config, key: &str, value: &str) -> (r: Result<(), StoreError>)
    ensures
        match r {
            Ok(_) => config_set(old(config)@, key@, value@) == Ok::<ConfigModel, ErrorModel>(
                final(config)@,
            ),
            Err(e) => config_set(old(config)@, key@, value@) == Err::<ConfigModel, ErrorModel>(e@)
                && final(config)@ == old(config)@,
        },
{
    match parse_key(key) {
        Some(ConfigKey::DefaultProject) => {
            config.default_project = Some(String::from_str(value));
            Ok(())
        },
        Some(ConfigKey::DefaultDataset) => {
            config.default_dataset = Some(String::from_str(value));
            Ok(())
        },
        Some(ConfigKey::OutputFormat) => match parse_format(value) {
            Some(format) => {
                config.output_format = format;
                Ok(())
            },
            None => Err(
                StoreError::with_detail(ErrorKind::InvalidInput, "Invalid output format: ", value),
            ),
        },
        None => Err(StoreError::with_detail(ErrorKind::InvalidInput, "Unknown config key: ", key)),
    }
}

/// How a preference that may be unset is shown.
pub(crate) fn show(value: &Option<String>) -> (text: String)
    ensures
        text@ == shown(value.deep_view()),
{
    match value {
        Some(text) => text.clone(),
        None => String::from_str("None"),
    }
}

/// Reads a preference, as it is shown to the user.
pub fn get_config_value(config: &Config, key: &str) -> (r: Result<String, StoreError>)
    ensures
        match r {
            Ok(text) => config_get(config@, key@) == Ok::<Seq<char>, ErrorModel>(text@),
            Err(e) => config_get(config@, key@) == Err::<Seq<char>, ErrorModel>(e@),
        },
{
    match parse_key(key) {
        Some(ConfigKey::DefaultProject) => Ok(show(&config.default_project)),
        Some(ConfigKey::DefaultDataset) => Ok(show(&config.default_dataset)),
        Some(ConfigKey::OutputFormat) => Ok(format_text(config.output_format)),
        None => Err(StoreError::with_detail(ErrorKind::InvalidInput, "Unknown config key: ", key)),
    }
}

} // verus!
