//! Setting up an instance: which images it looks at and how it reaches their
//! registries.

use crate::auth::{AuthToken, TokenType};
use crate::registry::Registry;
use crate::text::{optional, same_text};
use crate::version::standard::StandardUpdateType;
use crate::version::VersionType;
use vstd::prelude::*;

verus! {

/// How to reach one registry.
#[derive(Debug, PartialEq, Eq)]
pub struct RegistryConfig {
    /// The token to send with requests to the registry.
    pub auth: Option<AuthToken>,
    /// Whether to go by plain HTTP.
    pub insecure: bool,
}

impl Default for RegistryConfig {
    fn default() -> (r: Self)
        ensures
            r.auth is None,
            !r.insecure,
    {
        RegistryConfig { auth: None, insecure: false }
    }
}

/// How to check one image.
#[derive(Debug, PartialEq, Eq)]
pub struct ImageConfig {
    pub version_type: VersionType,
    /// The kinds of update that are not told. They are looked at only for
    /// versions of the standard kind.
    pub ignored_update_types: Vec<StandardUpdateType>,
    /// Whether to leave the image unchecked.
    pub ignore: bool,
}

/// The references that a setting is for.
#[derive(Debug, PartialEq, Eq, Hash)]
pub enum ReferenceMatcher {
    /// The reference is this text.
    ExactMatch(String),
    /// The reference starts with this text.
    PrefixMatch(String),
    /// The reference ends with this text.
    SuffixMatch(String),
    /// The reference holds this text.
    Contains(String),
    /// The reference matches this regular expression.
    Custom(String),
}

/// A matcher as plain text.
pub enum MatcherModel {
    ExactMatch(Seq<char>),
    PrefixMatch(Seq<char>),
    SuffixMatch(Seq<char>),
    Contains(Seq<char>),
    Custom(Seq<char>),
}

impl View for ReferenceMatcher {
    type V = MatcherModel;

    open spec fn view(&self) -> MatcherModel {
        match self {
            ReferenceMatcher::ExactMatch(s) => MatcherModel::ExactMatch(s@),
            ReferenceMatcher::PrefixMatch(s) => MatcherModel::PrefixMatch(s@),
            ReferenceMatcher::SuffixMatch(s) => MatcherModel::SuffixMatch(s@),
            ReferenceMatcher::Contains(s) => MatcherModel::Contains(s@),
            ReferenceMatcher::Custom(s) => MatcherModel::Custom(s@),
        }
    }
}

impl ReferenceMatcher {
    /// Whether two matchers are the same: of the same kind and with the same
    /// text.
    pub fn same(&self, other: &Self) -> (r: bool)
        ensures
            r == (self@ == other@),
    {
        match (self, other) {
            (ReferenceMatcher::ExactMatch(a), ReferenceMatcher::ExactMatch(b)) => same_text(
                a.as_str(),
                b.as_str(),
            ),
            (ReferenceMatcher::PrefixMatch(a), ReferenceMatcher::PrefixMatch(b)) => same_text(
                a.as_str(),
                b.as_str(),
            ),
            (ReferenceMatcher::SuffixMatch(a), ReferenceMatcher::SuffixMatch(b)) => same_text(
                a.as_str(),
                b.as_str(),
            ),
            (ReferenceMatcher::Contains(a), ReferenceMatcher::Contains(b)) => same_text(
                a.as_str(),
                b.as_str(),
            ),
            (ReferenceMatcher::Custom(a), ReferenceMatcher::Custom(b)) => same_text(
                a.as_str(),
                b.as_str(),
            ),
            _ => false,
        }
    }
}

/// The result of the check of one image.
#[derive(Clone, Copy, Debug, PartialEq, Eq, Structural)]
pub struct CheckResult {}

/// The failure of the check of one image.
#[derive(Clone, Copy, Debug, PartialEq, Eq, Structural)]
pub struct CheckError {}

/// An instance: the references that it looks at, and the socket of the
/// container runtime that it asks for more.
#[derive(Debug, PartialEq, Eq)]
pub struct Cup {
    pub images: Vec<String>,
    pub socket: Option<String>,
}

/// What is set up before an instance is built.
#[derive(Debug, PartialEq, Eq)]
pub struct CupBuilder {
    /// Whether the images found here are checked besides those that are
    /// named.
    pub check_local_images: bool,
    /// Whether the images of the swarm are checked as well.
    pub check_swarm_images: bool,
    /// The settings of registries, each registry once.
    pub registry_config: Vec<(Registry, RegistryConfig)>,
    /// The settings of images, each matcher once.
    pub overrides: Vec<(ReferenceMatcher, ImageConfig)>,
    pub socket: Option<String>,
}

/// The settings of a registry as plain values.
pub struct RegistryConfigModel {
    pub auth: Option<(TokenType, Seq<char>)>,
    pub insecure: bool,
}

impl View for RegistryConfig {
    type V = RegistryConfigModel;

    open spec fn view(&self) -> RegistryConfigModel {
        RegistryConfigModel {
            auth: match self.auth {
                Some(t) => Some((t.scheme(), t.text())),
                None => None,
            },
            insecure: self.insecure,
        }
    }
}

/// The settings of registries, each under the name of its registry.
pub open spec fn registry_models(v: Seq<(Registry, RegistryConfig)>) -> Seq<
    (Seq<char>, RegistryConfigModel),
> {
    v.map_values(|p: (Registry, RegistryConfig)| (p.0.name(), p.1@))
}

/// The matchers of settings of images.
pub open spec fn matcher_models(v: Seq<(ReferenceMatcher, ImageConfig)>) -> Seq<MatcherModel> {
    v.map_values(|p: (ReferenceMatcher, ImageConfig)| p.0@)
}

/// The first place from `from` on at which the registry `name` stands, or
/// the length of the list.
pub open spec fn registry_place(
    entries: Seq<(Seq<char>, RegistryConfigModel)>,
    name: Seq<char>,
    from: int,
) -> int
    decreases entries.len() - from,
{
    if from < 0 || from >= entries.len() {
        entries.len() as int
    } else if entries[from].0 == name {
        from
    } else {
        registry_place(entries, name, from + 1)
    }
}

/// The first place from `from` on at which the matcher `m` stands, or the
/// length of the list.
pub open spec fn matcher_place(entries: Seq<MatcherModel>, m: MatcherModel, from: int) -> int
    decreases entries.len() - from,
{
    if from < 0 || from >= entries.len() {
        entries.len() as int
    } else if entries[from] == m {
        from
    } else {
        matcher_place(entries, m, from + 1)
    }
}

/// The settings with a token for the registry `name`: in the settings that
/// the registry has, or in new ones at the end.
pub open spec fn with_auth(
    entries: Seq<(Seq<char>, RegistryConfigModel)>,
    name: Seq<char>,
    token: (TokenType, Seq<char>),
) -> Seq<(Seq<char>, RegistryConfigModel)> {
    let at = registry_place(entries, name, 0);
    if 0 <= at < entries.len() {
        entries.update(
            at,
            (name, RegistryConfigModel { auth: Some(token), insecure: entries[at].1.insecure }),
        )
    } else {
        entries.push((name, RegistryConfigModel { auth: Some(token), insecure: false }))
    }
}

/// The settings with the registry `name` reached by plain HTTP: in the
/// settings that the registry has, or in new ones at the end.
pub open spec fn with_insecure(
    entries: Seq<(Seq<char>, RegistryConfigModel)>,
    name: Seq<char>,
) -> Seq<(Seq<char>, RegistryConfigModel)> {
    let at = registry_place(entries, name, 0);
    if 0 <= at < entries.len() {
        entries.update(at, (name, RegistryConfigModel { auth: entries[at].1.auth, insecure: true }))
    } else {
        entries.push((name, RegistryConfigModel { auth: None, insecure: true }))
    }
}

impl Default for Cup {
    fn default() -> (r: Self)
        ensures
            r.images@.len() == 0,
            r.socket is None,
    {
        Cup { images: Vec::new(), socket: None }
    }
}

impl Cup {
    /// An instance that looks at nothing yet.
    pub fn new() -> (r: Self)
        ensures
            r.images@.len() == 0,
            r.socket is None,
    {
        Cup { images: Vec::new(), socket: None }
    }

    /// What an instance is set up with, nothing set yet.
    pub fn builder() -> (r: CupBuilder)
        ensures
            !r.check_local_images,
            !r.check_swarm_images,
            r.registry_config@.len() == 0,
            r.overrides@.len() == 0,
            r.socket is None,
    {
        CupBuilder {
            check_local_images: false,
            check_swarm_images: false,
            registry_config: Vec::new(),
            overrides: Vec::new(),
            socket: None,
        }
    }
}

impl Default for CupBuilder {
    fn default() -> (r: Self)
        ensures
            !r.check_local_images,
            !r.check_swarm_images,
            r.registry_config@.len() == 0,
            r.overrides@.len() == 0,
            r.socket is None,
    {
        Cup::builder()
    }
}

impl CupBuilder {
    /// The place of the settings of a registry.
    fn place_of(&self, name: &str) -> (r: usize)
        ensures
            r == registry_place(registry_models(self.registry_config@), name@, 0),
            r <= self.registry_config.len(),
    {
        let ghost entries = registry_models(self.registry_config@);
        let mut at: usize = 0;
        while at < self.registry_config.len() && !same_text(
            self.registry_config[at].0.as_str(),
            name,
        )
            invariant
                at <= self.registry_config.len(),
                entries == registry_models(self.registry_config@),
                registry_place(entries, name@, 0) == registry_place(entries, name@, at as int),
            decreases self.registry_config.len() - at,
        {
            assert(entries[at as int].0 == self.registry_config@[at as int].0.name());
            at += 1;
        }
        proof {
            if at < self.registry_config.len() {
                assert(entries[at as int].0 == self.registry_config@[at as int].0.name());
            }
        }
        at
    }

    /// Has the images found here checked.
    pub fn with_local_images(&mut self)
        ensures
            final(self).check_local_images,
            final(self).check_swarm_images == old(self).check_swarm_images,
            final(self).registry_config == old(self).registry_config,
            final(self).overrides == old(self).overrides,
            final(self).socket == old(self).socket,
    {
        self.check_local_images = true
    }

    /// Has the images of the swarm checked.
    pub fn with_swarm_images(&mut self)
        ensures
            final(self).check_swarm_images,
            final(self).check_local_images == old(self).check_local_images,
            final(self).registry_config == old(self).registry_config,
            final(self).overrides == old(self).overrides,
            final(self).socket == old(self).socket,
    {
        self.check_swarm_images = true
    }

    /// Sets the token that is sent to a registry.
    pub fn with_registry_auth(&mut self, registry: Registry, token: AuthToken)
        ensures
            registry_models(final(self).registry_config@) == with_auth(
                registry_models(old(self).registry_config@),
                registry.name(),
                (token.scheme(), token.text()),
            ),
            final(self).check_local_images == old(self).check_local_images,
            final(self).check_swarm_images == old(self).check_swarm_images,
            final(self).overrides == old(self).overrides,
            final(self).socket == old(self).socket,
    {
        let ghost entries = registry_models(self.registry_config@);
        let at = self.place_of(registry.as_str());
        if at < self.registry_config.len() {
            assert(entries[at as int].1 == self.registry_config@[at as int].1@);
            let insecure = self.registry_config[at].1.insecure;
            self.registry_config.set(at, (registry, RegistryConfig { auth: Some(token), insecure }));
            assert(registry_models(self.registry_config@) =~= with_auth(
                entries,
                registry.name(),
                (token.scheme(), token.text()),
            ));
        } else {
            self.registry_config.push((registry, RegistryConfig { auth: Some(token), insecure: false }));
            assert(registry_models(self.registry_config@) =~= with_auth(
                entries,
                registry.name(),
                (token.scheme(), token.text()),
            ));
        }
    }

    /// Has a registry reached by plain HTTP.
    pub fn with_insecure_registry(&mut self, registry: Registry)
        ensures
            registry_models(final(self).registry_config@) == with_insecure(
                registry_models(old(self).registry_config@),
                registry.name(),
            ),
            final(self).check_local_images == old(self).check_local_images,
            final(self).check_swarm_images == old(self).check_swarm_images,
            final(self).overrides == old(self).overrides,
            final(self).socket == old(self).socket,
    {
        let ghost entries = registry_models(self.registry_config@);
        let at = self.place_of(registry.as_str());
        if at < self.registry_config.len() {
            assert(entries[at as int].1 == self.registry_config@[at as int].1@);
            let auth = match &self.registry_config[at].1.auth {
                Some(t) => Some(t.duplicate()),
                None => None,
            };
            self.registry_config.set(at, (registry, RegistryConfig { auth, insecure: true }));
            assert(registry_models(self.registry_config@) =~= with_insecure(
                entries,
                registry.name(),
            ));
        } else {
            self.registry_config.push((registry, RegistryConfig { auth: None, insecure: true }));
            assert(registry_models(self.registry_config@) =~= with_insecure(
                entries,
                registry.name(),
            ));
        }
    }

    /// Sets how the images that a matcher is for are checked: in the place of
    /// the settings that stood under the same matcher, or at the end.
    pub fn with_image_config(&mut self, reference: ReferenceMatcher, config: ImageConfig)
        ensures
            ({
                let before = matcher_models(old(self).overrides@);
                let at = matcher_place(before, reference@, 0);
                &&& matcher_models(final(self).overrides@) == if 0 <= at < before.len() {
                    before
                } else {
                    before.push(reference@)
                }
                &&& final(self).overrides@.len() > at
                &&& final(self).overrides@[at].1 == config
            }),
            final(self).check_local_images == old(self).check_local_images,
            final(self).check_swarm_images == old(self).check_swarm_images,
            final(self).registry_config == old(self).registry_config,
            final(self).socket == old(self).socket,
    {
        let ghost before = matcher_models(self.overrides@);
        let mut at: usize = 0;
        while at < self.overrides.len() && !self.overrides[at].0.same(&reference)
            invariant
                at <= self.overrides.len(),
                *self == *old(self),
                before == matcher_models(self.overrides@),
                matcher_place(before, reference@, 0) == matcher_place(before, reference@, at as int),
            decreases self.overrides.len() - at,
        {
            assert(before[at as int] == self.overrides@[at as int].0@);
            at += 1;
        }
        if at < self.overrides.len() {
            assert(before[at as int] == self.overrides@[at as int].0@);
            self.overrides.set(at, (reference, config));
            assert(matcher_models(self.overrides@) =~= before);
        } else {
            self.overrides.push((reference, config));
            assert(matcher_models(self.overrides@) =~= before.push(reference@));
        }
    }

    /// Sets the socket of the container runtime.
    pub fn with_socket(&mut self, socket: Option<String>)
        ensures
            final(self).socket == socket,
            final(self).check_local_images == old(self).check_local_images,
            final(self).check_swarm_images == old(self).check_swarm_images,
            final(self).registry_config == old(self).registry_config,
            final(self).overrides == old(self).overrides,
    {
        self.socket = socket
    }

    /// The instance that was set up. It looks at no named image yet.
    pub fn build(&self) -> (r: Cup)
        ensures
            r.images@.len() == 0,
            optional(r.socket) == optional(self.socket),
    {
        Cup {
            images: Vec::new(),
            socket: match &self.socket {
                Some(s) => Some(s.clone()),
                None => None,
            },
        }
    }
}

} // verus!
