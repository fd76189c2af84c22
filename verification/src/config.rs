//! Settings: what to check, and how to reach each registry.

use crate::text::{same_text, starts_with, is_prefix, strings};
use vstd::prelude::*;

verus! {

/// The colours of the web interface.
#[derive(Clone, Copy, Debug, PartialEq, Eq, Structural)]
pub enum Theme {
    Default,
    Blue,
}

impl Default for Theme {
    fn default() -> (r: Self)
        ensures
            r == Theme::Default,
    {
        Theme::Default
    }
}

/// The updates that are not to be told: those that change this number of a
/// version, or a number before it.
#[derive(Clone, Copy, Debug, PartialEq, Eq, Structural)]
pub enum UpdateType {
    /// Every update is told.
    Nothing,
    Major,
    Minor,
    Patch,
}

impl Default for UpdateType {
    fn default() -> (r: Self)
        ensures
            r == UpdateType::Nothing,
    {
        UpdateType::Nothing
    }
}

/// How to reach one registry.
#[derive(Debug, PartialEq, Eq)]
pub struct RegistryConfig {
    /// What to send as `Basic` authorization when asking for a token.
    pub authentication: Option<String>,
    /// Whether to go by plain HTTP.
    pub insecure: bool,
    /// Whether to leave the images of this registry unchecked.
    pub ignore: bool,
}

impl Default for RegistryConfig {
    fn default() -> (r: Self)
        ensures
            r.authentication is None,
            !r.insecure,
            !r.ignore,
    {
        RegistryConfig { authentication: None, insecure: false, ignore: false }
    }
}

/// Which images to check besides those that are found here.
#[derive(Debug, PartialEq, Eq)]
pub struct ImageConfig {
    /// References to check in any case.
    pub extra: Vec<String>,
    /// References that start with one of these are not checked.
    pub exclude: Vec<String>,
}

impl Default for ImageConfig {
    fn default() -> (r: Self)
        ensures
            r.extra@.len() == 0,
            r.exclude@.len() == 0,
    {
        ImageConfig { extra: Vec::new(), exclude: Vec::new() }
    }
}

/// All settings. Registries and servers are listed under their names, each
/// name once.
#[derive(Debug, PartialEq, Eq)]
pub struct Config {
    pub version: u8,
    pub agent: bool,
    pub ignore_update_type: UpdateType,
    pub images: ImageConfig,
    pub refresh_interval: Option<String>,
    pub registries: Vec<(String, RegistryConfig)>,
    pub servers: Vec<(String, String)>,
    pub socket: Option<String>,
    pub theme: Theme,
}

/// The version of the settings that this library reads.
pub const CONFIG_VERSION: u8 = 3;

/// The first of the entries from `from` on that stands under the name `key`.
pub open spec fn registry_from(
    entries: Seq<(String, RegistryConfig)>,
    key: Seq<char>,
    from: int,
) -> Option<RegistryConfig>
    decreases entries.len() - from,
{
    if from < 0 || from >= entries.len() {
        None
    } else if entries[from].0@ == key {
        Some(entries[from].1)
    } else {
        registry_from(entries, key, from + 1)
    }
}

/// The settings of the registry `key`, if it has any.
pub open spec fn registry_of(entries: Seq<(String, RegistryConfig)>, key: Seq<char>) -> Option<
    RegistryConfig,
> {
    registry_from(entries, key, 0)
}

/// Whether the registry `key` is reached by plain HTTP.
pub open spec fn insecure(entries: Seq<(String, RegistryConfig)>, key: Seq<char>) -> bool {
    match registry_of(entries, key) {
        Some(c) => c.insecure,
        None => false,
    }
}

/// Whether the images of the registry `key` are left unchecked.
pub open spec fn ignored(entries: Seq<(String, RegistryConfig)>, key: Seq<char>) -> bool {
    match registry_of(entries, key) {
        Some(c) => c.ignore,
        None => false,
    }
}

/// The protocol by which the registry `key` is reached.
pub open spec fn protocol(entries: Seq<(String, RegistryConfig)>, key: Seq<char>) -> Seq<char> {
    if insecure(entries, key) {
        "http"@
    } else {
        "https"@
    }
}

/// One of the prefixes starts the reference.
pub open spec fn excluded(prefixes: Seq<Seq<char>>, reference: Seq<char>) -> bool {
    exists|i: int| 0 <= i < prefixes.len() && is_prefix(#[trigger] prefixes[i], reference)
}

/// The settings of the registry `key`, if it has any.
pub fn find_registry<'a>(entries: &'a Vec<(String, RegistryConfig)>, key: &str) -> (r: Option<
    &'a RegistryConfig,
>)
    ensures
        match registry_of(entries@, key@) {
            Some(c) => r is Some && *r.unwrap() == c,
            None => r is None,
        },
{
    let mut i: usize = 0;
    while i < entries.len()
        invariant
            i <= entries.len(),
            registry_of(entries@, key@) == registry_from(entries@, key@, i as int),
        decreases entries.len() - i,
    {
        if same_text(entries[i].0.as_str(), key) {
            return Some(&entries[i].1);
        }
        i += 1;
    }
    None
}

/// The protocol by which a registry is reached: `http` where its settings
/// say that it is insecure, `https` otherwise.
pub fn get_protocol(registry: &str, registry_config: &Vec<(String, RegistryConfig)>) -> (r:
    &'static str)
    ensures
        r@ == protocol(registry_config@, registry@),
{
    match find_registry(registry_config, registry) {
        Some(config) => {
            if config.insecure {
                "http"
            } else {
                "https"
            }
        },
        None => "https",
    }
}

/// Whether the images of a registry are left unchecked.
pub fn is_ignored(registry: &str, registry_config: &Vec<(String, RegistryConfig)>) -> (r: bool)
    ensures
        r == ignored(registry_config@, registry@),
{
    match find_registry(registry_config, registry) {
        Some(config) => config.ignore,
        None => false,
    }
}

/// Whether a reference starts with one of the prefixes.
pub fn is_excluded(prefixes: &Vec<String>, reference: &str) -> (r: bool)
    ensures
        r == excluded(strings(prefixes@), reference@),
{
    let mut i: usize = 0;
    while i < prefixes.len()
        invariant
            i <= prefixes.len(),
            forall|k: int| 0 <= k < i ==> !is_prefix(#[trigger] strings(prefixes@)[k], reference@),
        decreases prefixes.len() - i,
    {
        if starts_with(reference, prefixes[i].as_str()) {
            assert(is_prefix(strings(prefixes@)[i as int], reference@));
            return true;
        }
        assert(strings(prefixes@)[i as int] == prefixes@[i as int]@);
        i += 1;
    }
    false
}

impl Config {
    /// Settings that check the images found here and nothing else.
    pub fn new() -> (r: Self)
        ensures
            r.version == CONFIG_VERSION,
            !r.agent,
            r.ignore_update_type == UpdateType::Nothing,
            r.images.extra@.len() == 0,
            r.images.exclude@.len() == 0,
            r.refresh_interval is None,
            r.registries@.len() == 0,
            r.servers@.len() == 0,
            r.socket is None,
            r.theme == Theme::Default,
    {
        Config {
            version: CONFIG_VERSION,
            agent: false,
            ignore_update_type: UpdateType::Nothing,
            images: ImageConfig { extra: Vec::new(), exclude: Vec::new() },
            refresh_interval: None,
            registries: Vec::new(),
            servers: Vec::new(),
            socket: None,
            theme: Theme::Default,
        }
    }

    /// Whether the settings are of the version that this library reads.
    pub fn is_supported(&self) -> (r: bool)
        ensures
            r == (self.version == CONFIG_VERSION),
    {
        self.version == CONFIG_VERSION
    }
}

impl Default for Config {
    fn default() -> (r: Self)
        ensures
            r.version == CONFIG_VERSION,
            !r.agent,
            r.ignore_update_type == UpdateType::Nothing,
            r.images.extra@.len() == 0,
            r.images.exclude@.len() == 0,
            r.refresh_interval is None,
            r.registries@.len() == 0,
            r.servers@.len() == 0,
            r.socket is None,
            r.theme == Theme::Default,
    {
        Config::new()
    }
}

} // verus!
