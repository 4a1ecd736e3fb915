//! The deploy configuration: build settings that deploy modes can override, and
//! the deploy modes themselves.

use vstd::prelude::*;

verus! {

/// Which sandbox the build is for.
#[derive(Clone, Copy, Debug, PartialEq, Eq)]
pub enum BuildMode {
    /// The long-lived host with persistent globals and its own module loading.
    World,
    /// The short-lived isolated host, with no filesystem.
    Arena,
}

/// The compiler profile.
#[derive(Clone, Copy, Debug, PartialEq, Eq)]
pub enum BuildProfile {
    Dev,
    Profiling,
    Release,
}

/// Build settings; every field may be left unset, and a deploy mode's settings
/// override the defaults field by field.
#[derive(Clone, Debug, PartialEq, Eq)]
pub struct BuildConfiguration {
    pub build_mode: Option<BuildMode>,
    pub build_profile: Option<BuildProfile>,
    /// The name stem of the generated files.
    pub out_name: Option<String>,
    /// Flags handed on to the compiler.
    pub extra_options: Vec<String>,
    /// The crate's path below the project root.
    pub path: Option<String>,
    /// A file whose text replaces the default prelude of the world loader.
    pub prelude_file: Option<String>,
}

/// How an upload authenticates.
#[derive(Clone, Debug, PartialEq, Eq)]
pub enum Authentication {
    Token { auth_token: String },
    Basic { username: String, password: String },
}

/// One deploy mode: copy to a directory, or upload to a server.
#[derive(Clone, Debug, PartialEq, Eq)]
pub enum ModeConfiguration {
    Copy {
        destination: String,
        branch: String,
        build: BuildConfiguration,
        include_files: Vec<String>,
        prune: bool,
    },
    Upload {
        authentication: Authentication,
        branch: String,
        build: BuildConfiguration,
        hostname: String,
        include_files: Vec<String>,
        ssl: bool,
        port: u16,
        prefix: Option<String>,
        http_timeout: Option<u32>,
    },
}

/// The whole configuration document.
#[derive(Clone, Debug, PartialEq, Eq)]
pub struct Configuration {
    pub default_deploy_mode: Option<String>,
    pub build: BuildConfiguration,
    /// The deploy modes by name; a well-formed configuration names each once.
    pub modes: Vec<(String, ModeConfiguration)>,
}

impl Configuration {
    /// No two deploy modes share a name.
    pub open spec fn wf(&self) -> bool {
        forall|i: int, j: int|
            0 <= i < j < self.modes@.len() ==> #[trigger] self.modes@[i].0@ != #[trigger] self.modes@[j].0@
    }

    /// No two deploy modes share a name.
    pub fn modes_distinct(&self) -> (r: bool)
        ensures
            r == self.wf(),
    {
        let mut i: usize = 0;
        while i < self.modes.len()
            invariant
                i <= self.modes@.len(),
                forall|a: int, b: int|
                    0 <= a < b < self.modes@.len() && a < i ==> #[trigger] self.modes@[a].0@
                        != #[trigger] self.modes@[b].0@,
            decreases self.modes@.len() - i,
        {
            let mut j: usize = i + 1;
            while j < self.modes.len()
                invariant
                    i < self.modes@.len(),
                    i + 1 <= j <= self.modes@.len(),
                    forall|a: int, b: int|
                        0 <= a < b < self.modes@.len() && a < i ==> #[trigger] self.modes@[a].0@
                            != #[trigger] self.modes@[b].0@,
                    forall|b: int| i < b < j ==> self.modes@[i as int].0@ != #[trigger] self.modes@[b].0@,
                decreases self.modes@.len() - j,
            {
                if self.modes[i].0 == self.modes[j].0 {
                    return false;
                }
                j = j + 1;
            }
            i = i + 1;
        }
        true
    }
}

/// The build settings `over` laid over `base`: each field that `over` sets
/// wins; the list of compiler flags is taken whole from `over` when it is not
/// empty, and never joined with the base list.
pub open spec fn merged(base: BuildConfiguration, over: BuildConfiguration) -> BuildConfiguration {
    BuildConfiguration {
        build_mode: if over.build_mode is Some {
            over.build_mode
        } else {
            base.build_mode
        },
        build_profile: if over.build_profile is Some {
            over.build_profile
        } else {
            base.build_profile
        },
        out_name: if over.out_name is Some {
            over.out_name
        } else {
            base.out_name
        },
        extra_options: if over.extra_options@.len() > 0 {
            over.extra_options
        } else {
            base.extra_options
        },
        path: if over.path is Some {
            over.path
        } else {
            base.path
        },
        prelude_file: if over.prelude_file is Some {
            over.prelude_file
        } else {
            base.prelude_file
        },
    }
}

/// Build settings that set nothing.
pub open spec fn sets_nothing(c: BuildConfiguration) -> bool {
    &&& c.build_mode is None
    &&& c.build_profile is None
    &&& c.out_name is None
    &&& c.extra_options@.len() == 0
    &&& c.path is None
    &&& c.prelude_file is None
}

/// Build settings that set every field.
pub open spec fn sets_everything(c: BuildConfiguration) -> bool {
    &&& c.build_mode is Some
    &&& c.build_profile is Some
    &&& c.out_name is Some
    &&& c.extra_options@.len() > 0
    &&& c.path is Some
    &&& c.prelude_file is Some
}

/// The compiler flags that a profile selects: development, profiling, release.
pub open spec fn profile_flags_of(p: Option<BuildProfile>) -> (bool, bool, bool) {
    match p {
        Some(BuildProfile::Dev) => (true, false, false),
        Some(BuildProfile::Profiling) => (false, true, false),
        _ => (false, false, true),
    }
}

impl BuildConfiguration {
    /// Build settings with nothing set.
    pub fn unset() -> (r: Self)
        ensures
            sets_nothing(r),
    {
        BuildConfiguration {
            build_mode: None,
            build_profile: None,
            out_name: None,
            extra_options: Vec::new(),
            path: None,
            prelude_file: None,
        }
    }

    /// Lays `other` over these settings: each field that `other` sets wins, and
    /// a non-empty list of compiler flags replaces the list whole.
    pub fn merge(&mut self, other: BuildConfiguration)
        ensures
            *final(self) == merged(*old(self), other),
    {
        let BuildConfiguration { build_mode, build_profile, out_name, extra_options, path, prelude_file } =
            other;
        if build_mode.is_some() {
            self.build_mode = build_mode;
        }
        if build_profile.is_some() {
            self.build_profile = build_profile;
        }
        if out_name.is_some() {
            self.out_name = out_name;
        }
        if extra_options.len() > 0 {
            self.extra_options = extra_options;
        }
        if path.is_some() {
            self.path = path;
        }
        if prelude_file.is_some() {
            self.prelude_file = prelude_file;
        }
    }

    /// The development, profiling and release flags for the compiler: exactly
    /// one is set, release where no profile is chosen.
    pub fn profile_flags(&self) -> (r: (bool, bool, bool))
        ensures
            r == profile_flags_of(self.build_profile),
            r.0 as int + r.1 as int + r.2 as int == 1,
    {
        match self.build_profile {
            Some(BuildProfile::Dev) => (true, false, false),
            Some(BuildProfile::Profiling) => (false, true, false),
            _ => (false, false, true),
        }
    }
}

impl Default for BuildConfiguration {
    fn default() -> (r: Self)
        ensures
            sets_nothing(r),
    {
        BuildConfiguration::unset()
    }
}

/// Overriding with settings that set nothing keeps the base.
pub proof fn law_merge_nothing(base: BuildConfiguration, over: BuildConfiguration)
    requires
        sets_nothing(over),
    ensures
        merged(base, over) == base,
{
}

/// Overriding with settings that set every field gives those settings.
pub proof fn law_merge_everything(base: BuildConfiguration, over: BuildConfiguration)
    requires
        sets_everything(over),
    ensures
        merged(base, over) == over,
{
}

/// Laying the same settings over twice is the same as laying them over once.
pub proof fn law_merge_idempotent(base: BuildConfiguration, over: BuildConfiguration)
    ensures
        merged(merged(base, over), over) == merged(base, over),
{
}

/// The compiler's output directory, below the crate.
pub const OUTPUT_DIR: &'static str = "pkg";

/// The directories deployed when a mode names none.
pub fn default_include_files() -> (r: Vec<String>)
    ensures
        r@.len() == 2,
        r@[0]@ == OUTPUT_DIR@,
        r@[1]@ == "javascript"@,
{
    let mut r: Vec<String> = Vec::new();
    r.push(OUTPUT_DIR.to_owned());
    r.push("javascript".to_owned());
    r
}

/// The branch deployed to when a mode names none.
pub fn default_branch() -> (r: String)
    ensures
        r@ == "default"@,
{
    "default".to_owned()
}

/// The server uploaded to when a mode names none.
pub fn default_hostname() -> (r: String)
    ensures
        r@ == "screeps.com"@,
{
    "screeps.com".to_owned()
}

/// Copying does not prune unless asked to.
pub fn default_prune() -> (r: bool)
    ensures
        r == false,
{
    false
}

/// Uploads use TLS unless asked not to.
pub fn default_ssl() -> (r: bool)
    ensures
        r == true,
{
    true
}

/// The port uploaded to when a mode names none.
pub fn default_port() -> (r: u16)
    ensures
        r == 443,
{
    443
}

} // verus!
