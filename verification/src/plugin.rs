//! What the host knows of a plugin: where it comes from, what it says of
//! itself, and how the configuration names it.

use vstd::prelude::*;
use vstd::string::StringExecFns;
use crate::sequences::{filter_of_nothing, filter_one_more};

verus! {

/// The directory that plugin paths are relative to.
pub const PLUGINS_PATH: &'static str = "./plugins";

/// What a plugin says of itself when it is loaded.
#[derive(Debug, PartialEq, Eq)]
pub struct Metadata {
    pub name: String,
    pub version: String,
}

/// A loaded plugin.
#[derive(Debug, PartialEq, Eq)]
pub struct InstanceData {
    pub metadata: Metadata,
}

/// Where the code of a plugin is.
#[derive(Debug, PartialEq, Eq)]
pub enum PluginLocation {
    /// A file on this machine.
    Local(String),
}

/// The description of a plugin.
#[derive(Debug, PartialEq, Eq)]
pub struct Plugin {
    pub source: PluginLocation,
    pub author: String,
    pub description: String,
    pub version: String,
}

/// One plugin in the configuration.
#[derive(Debug, PartialEq, Eq)]
pub struct PluginConfig {
    pub name: String,
    pub path: String,
    /// The options of the plugin, as JSON text.
    pub options: Option<String>,
}

/// The configuration of the executor.
#[derive(Debug, PartialEq, Eq)]
pub struct Config {
    pub num_workers: u32,
    pub plugins: Vec<PluginConfig>,
}

/// How a location is written out.
pub open spec fn location_text(location: PluginLocation) -> Seq<char> {
    match location {
        PluginLocation::Local(path) => "source: "@ + path@,
    }
}

/// The options that a plugin is initialised with: those of the
/// configuration, or `null` where it gives none.
pub open spec fn init_options_of(options: Option<String>) -> Seq<char> {
    match options {
        Some(text) => text@,
        None => "null"@,
    }
}

impl PluginLocation {
    /// The location written out.
    pub fn to_string(&self) -> (text: String)
        ensures
            text@ == location_text(*self),
    {
        match self {
            PluginLocation::Local(path) => String::from_str("source: ").concat(path.as_str()),
        }
    }
}

impl Default for PluginLocation {
    fn default() -> (location: Self)
        ensures
            location matches PluginLocation::Local(path) && path@.len() == 0,
    {
        PluginLocation::Local(String::new())
    }
}

impl PluginConfig {
    /// The options that the plugin is initialised with.
    pub fn init_options(&self) -> (text: String)
        ensures
            text@ == init_options_of(self.options),
    {
        match &self.options {
            Some(text) => text.clone(),
            None => String::from_str("null"),
        }
    }
}

/// Takes a plugin into the list of loaded ones where its initialisation
/// went well, and leaves the list as it is where it failed.
pub fn register_plugin(loaded: &mut Vec<String>, name: String, initialised: bool)
    ensures
        final(loaded)@ == if initialised {
            old(loaded)@.push(name)
        } else {
            old(loaded)@
        },
{
    if initialised {
        loaded.push(name);
    }
}

/// The test for a plugin whose initialisation went well.
pub open spec fn initialised() -> spec_fn((String, bool)) -> bool {
    |outcome: (String, bool)| outcome.1
}

/// The name of a plugin in an outcome.
pub open spec fn plugin_name() -> spec_fn((String, bool)) -> String {
    |outcome: (String, bool)| outcome.0
}

/// The plugins that are loaded after each configured plugin was loaded and
/// initialised with the given outcome: those that went well, in the order
/// of the configuration. A plugin that failed is left out and the others
/// are not held up by it.
pub fn loaded_plugins(outcomes: Vec<(String, bool)>) -> (loaded: Vec<String>)
    ensures
        loaded@ == outcomes@.filter(initialised()).map_values(plugin_name()),
{
    let mut loaded: Vec<String> = Vec::new();
    let mut i: usize = 0;
    proof {
        filter_of_nothing(outcomes@, initialised());
        assert(loaded@ =~= outcomes@.take(0).filter(initialised()).map_values(plugin_name()));
    }
    while i < outcomes.len()
        invariant
            i <= outcomes@.len(),
            loaded@ == outcomes@.take(i as int).filter(initialised()).map_values(plugin_name()),
        decreases outcomes@.len() - i,
    {
        let ghost kept = outcomes@.take(i as int).filter(initialised());
        proof {
            filter_one_more(outcomes@, i as int, initialised());
        }
        let name = outcomes[i].0.clone();
        register_plugin(&mut loaded, name, outcomes[i].1);
        proof {
            assert(kept.push(outcomes@[i as int]).map_values(plugin_name()) =~= kept.map_values(
                plugin_name(),
            ).push(outcomes@[i as int].0));
        }
        i += 1;
    }
    proof {
        assert(outcomes@.take(outcomes@.len() as int) =~= outcomes@);
    }
    loaded
}

} // verus!
