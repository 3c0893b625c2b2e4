//! Loading the configuration: what to do with what the storage location
//! holds.
//!
//! The program around the library reads and writes the storage. It reports
//! what it found as a [`StoredConfig`], and this module decides: use it,
//! reject it, or create the built-in configuration and have it written first.

use vstd::prelude::*;
use crate::config::{default_config, shortcut_views, Config, ConfigError, ConfigView, ShortcutView, TextShortcut};

verus! {

/// What the storage location holds.
#[derive(Debug, PartialEq, Eq)]
pub enum StoredConfig {
    /// Nothing has been stored yet.
    Absent,
    /// The location cannot be reached.
    Unreachable,
    /// Something is stored, but it does not follow the schema.
    Malformed,
    /// A record that follows the schema, with its fields as stored.
    Found { activation_target: String, shortcuts: Vec<TextShortcut> },
}

/// The mathematical value of a [`StoredConfig`].
pub enum StoredView {
    Absent,
    Unreachable,
    Malformed,
    Found { activation_target: Seq<char>, shortcuts: Seq<ShortcutView> },
}

impl View for StoredConfig {
    type V = StoredView;

    open spec fn view(&self) -> StoredView {
        match self {
            StoredConfig::Absent => StoredView::Absent,
            StoredConfig::Unreachable => StoredView::Unreachable,
            StoredConfig::Malformed => StoredView::Malformed,
            StoredConfig::Found { activation_target, shortcuts } => StoredView::Found {
                activation_target: activation_target@,
                shortcuts: shortcut_views(shortcuts@),
            },
        }
    }
}

/// What loading leads to.
#[derive(Debug, PartialEq, Eq)]
pub enum LoadStep {
    /// The stored configuration is in force.
    Ready(Config),
    /// Nothing was stored. This configuration must be written to the storage
    /// location; [`persisted`] then tells whether it is in force.
    Persist(Config),
    /// Loading failed, and the run must not start.
    Failed(ConfigError),
}

/// The mathematical value of a [`LoadStep`].
pub enum LoadStepView {
    Ready(ConfigView),
    Persist(ConfigView),
    Failed(ConfigError),
}

impl View for LoadStep {
    type V = LoadStepView;

    open spec fn view(&self) -> LoadStepView {
        match self {
            LoadStep::Ready(config) => LoadStepView::Ready(config@),
            LoadStep::Persist(config) => LoadStepView::Persist(config@),
            LoadStep::Failed(error) => LoadStepView::Failed(*error),
        }
    }
}

/// The decision for each state of the storage. A stored record is used as it
/// is, fields and order, unless its activation target is empty. Defaults
/// never replace stored data, however broken: they are for the first run
/// only.
pub open spec fn load_outcome(stored: StoredView) -> LoadStepView {
    match stored {
        StoredView::Absent => LoadStepView::Persist(default_config()),
        StoredView::Unreachable => LoadStepView::Failed(ConfigError::Io),
        StoredView::Malformed => LoadStepView::Failed(ConfigError::Parse),
        StoredView::Found { activation_target, shortcuts } => if activation_target.len() > 0 {
            LoadStepView::Ready(ConfigView { activation_target, shortcuts })
        } else {
            LoadStepView::Failed(ConfigError::Parse)
        },
    }
}

/// The record that is written for `config`.
pub open spec fn stored_form(config: ConfigView) -> StoredView {
    StoredView::Found { activation_target: config.activation_target, shortcuts: config.shortcuts }
}

/// Decides what loading leads to, given what the storage location holds.
pub fn load(stored: StoredConfig) -> (step: LoadStep)
    ensures
        step@ == load_outcome(stored@),
{
    match stored {
        StoredConfig::Absent => LoadStep::Persist(Config::default()),
        StoredConfig::Unreachable => LoadStep::Failed(ConfigError::Io),
        StoredConfig::Malformed => LoadStep::Failed(ConfigError::Parse),
        StoredConfig::Found { activation_target, shortcuts } => {
            match Config::new(activation_target, shortcuts) {
                Ok(config) => LoadStep::Ready(config),
                Err(error) => LoadStep::Failed(error),
            }
        },
    }
}

/// Closes a load that asked for `config` to be written: the configuration is
/// in force if the write succeeded, and loading fails if it did not.
pub fn persisted(config: Config, written: bool) -> (r: Result<Config, ConfigError>)
    ensures
        written ==> r is Ok && r->Ok_0@ == config@,
        !written ==> r == Err::<Config, ConfigError>(ConfigError::Io),
{
    if written {
        Ok(config)
    } else {
        Err(ConfigError::Io)
    }
}

/// The record to write for `config`.
pub fn stored(config: &Config) -> (record: StoredConfig)
    ensures
        record@ == stored_form(config@),
{
    let copy = config.clone();
    let (activation_target, shortcuts) = copy.into_parts();
    StoredConfig::Found { activation_target, shortcuts }
}

/// Round trip: a configuration that was written and is loaded again comes
/// back unchanged, in every field and in the order of its shortcuts, and is
/// never taken for a missing one.
pub proof fn stored_config_reloads(config: ConfigView)
    requires
        config.valid(),
    ensures
        load_outcome(stored_form(config)) == LoadStepView::Ready(config),
{
}

/// First run: with nothing stored, loading asks for the built-in
/// configuration to be written, and loading what was then written yields
/// that same configuration without asking for another write.
pub proof fn first_run_persists_default()
    ensures
        load_outcome(StoredView::Absent) == LoadStepView::Persist(default_config()),
        load_outcome(stored_form(default_config())) == LoadStepView::Ready(default_config()),
{
    reveal_strlit("https://www.google.com");
}

} // verus!
