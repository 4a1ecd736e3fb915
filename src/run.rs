//! What one invocation does, decided from the command line and the
//! configuration: build only, or build and then copy or upload with the
//! selected deploy mode's settings laid over the default build settings.

use vstd::prelude::*;
use crate::config::{merged, Authentication, BuildConfiguration, Configuration, ModeConfiguration};
use crate::upload::{upload_url, upload_url_of};

verus! {

/// The subcommand.
#[derive(Clone, Copy, Debug, PartialEq, Eq)]
pub enum Command {
    Build,
    Deploy,
}

/// What the command line asks for.
#[derive(Clone, Debug, PartialEq, Eq)]
pub struct CliConfig {
    pub command: Command,
    /// The configuration file, where given.
    pub config_path: Option<String>,
    /// The deploy mode, where given.
    pub deploy_mode: Option<String>,
}

/// The work of one invocation, with every setting resolved.
#[derive(Clone, Debug, PartialEq, Eq)]
pub enum Plan {
    /// Build with these settings.
    Build { build: BuildConfiguration },
    /// Build, then copy the deployable files into `destination/branch`.
    Copy {
        build: BuildConfiguration,
        destination: String,
        branch: String,
        include_files: Vec<String>,
        prune: bool,
    },
    /// Build, then upload the deployable files to `url`.
    Upload {
        build: BuildConfiguration,
        authentication: Authentication,
        branch: String,
        include_files: Vec<String>,
        url: String,
        http_timeout: Option<u32>,
    },
}

/// Why no plan could be made.
#[derive(Clone, Debug, PartialEq, Eq)]
pub enum RunError {
    /// A deploy named no mode, and the configuration names no default.
    NoDeployMode,
    /// The configuration has no mode of this name.
    UnknownMode { mode: String },
}

/// The deploy mode asked for: the command line's, else the configured default.
pub open spec fn chosen_mode(cli: CliConfig, config: Configuration) -> Option<String> {
    match cli.deploy_mode {
        Some(m) => Some(m),
        None => config.default_deploy_mode,
    }
}

/// The index of the first mode at or after `i` named `name`.
pub open spec fn find_mode(modes: Seq<(String, ModeConfiguration)>, name: Seq<char>, i: int) -> Option<int>
    decreases modes.len() - i,
{
    if i < 0 || i >= modes.len() {
        None
    } else if modes[i].0@ == name {
        Some(i)
    } else {
        find_mode(modes, name, i + 1)
    }
}

proof fn lemma_find_mode(modes: Seq<(String, ModeConfiguration)>, name: Seq<char>, i: int)
    requires
        0 <= i,
    ensures
        match find_mode(modes, name, i) {
            Some(k) => i <= k < modes.len() && modes[k].0@ == name,
            None => forall|j: int| i <= j < modes.len() ==> modes[j].0@ != name,
        },
    decreases modes.len() - i,
{
    if i < modes.len() && modes[i].0@ != name {
        lemma_find_mode(modes, name, i + 1);
    }
}

/// The characters of an optional string.
pub open spec fn opt_chars(s: Option<String>) -> Option<Seq<char>> {
    match s {
        Some(v) => Some(v@),
        None => None,
    }
}

/// `r` is the plan for deploying with `mode`, its build settings laid over `base`.
pub open spec fn deploys_with(base: BuildConfiguration, mode: ModeConfiguration, r: Result<Plan, RunError>) -> bool {
    match mode {
        ModeConfiguration::Copy { destination, branch, build, include_files, prune } => r == Ok::<
            Plan,
            RunError,
        >(Plan::Copy { build: merged(base, build), destination, branch, include_files, prune }),
        ModeConfiguration::Upload {
            authentication,
            branch,
            build,
            hostname,
            include_files,
            ssl,
            port,
            prefix,
            http_timeout,
        } => match r {
            Ok(Plan::Upload { build: b, authentication: a, branch: br, include_files: f, url, http_timeout: t }) => {
                &&& b == merged(base, build)
                &&& a == authentication
                &&& br == branch
                &&& f == include_files
                &&& url@ == upload_url_of(ssl, hostname@, port, opt_chars(prefix))
                &&& t == http_timeout
            },
            _ => false,
        },
    }
}

/// The plan of one invocation. A build uses the default build settings. A
/// deploy takes the mode named on the command line, else the configured
/// default, fails where there is none or the configuration lacks it, and
/// otherwise lays the mode's build settings over the defaults and carries the
/// mode's settings; an upload's address is composed from its host settings.
pub fn run(cli: CliConfig, config: Configuration) -> (r: Result<Plan, RunError>)
    requires
        config.wf(),
    ensures
        cli.command is Build ==> r == Ok::<Plan, RunError>(Plan::Build { build: config.build }),
        cli.command is Deploy ==> match chosen_mode(cli, config) {
            None => r == Err::<Plan, RunError>(RunError::NoDeployMode),
            Some(m) => match find_mode(config.modes@, m@, 0) {
                None => r == Err::<Plan, RunError>(RunError::UnknownMode { mode: m })
                    && forall|j: int| 0 <= j < config.modes@.len() ==> config.modes@[j].0@ != m@,
                Some(i) => deploys_with(config.build, config.modes@[i].1, r) && config.modes@[i].0@
                    == m@ && forall|j: int|
                    0 <= j < config.modes@.len() && j != i ==> config.modes@[j].0@ != m@,
            },
        },
{
    let ghost given = config;
    let Configuration { default_deploy_mode, build, mut modes } = config;
    match cli.command {
        Command::Build => {
            return Ok(Plan::Build { build });
        },
        Command::Deploy => {},
    }
    let mode = match cli.deploy_mode {
        Some(m) => m,
        None => match default_deploy_mode {
            Some(m) => m,
            None => {
                return Err(RunError::NoDeployMode);
            },
        },
    };
    let mut i: usize = 0;
    while i < modes.len()
        invariant
            i <= modes@.len(),
            modes@ == given.modes@,
            find_mode(modes@, mode@, 0) == find_mode(modes@, mode@, i as int),
        ensures
            i <= modes@.len(),
            modes@ == given.modes@,
            find_mode(modes@, mode@, 0) == find_mode(modes@, mode@, i as int),
            i < modes@.len() ==> modes@[i as int].0@ == mode@,
        decreases modes@.len() - i,
    {
        if modes[i].0 == mode {
            break;
        }
        i = i + 1;
    }
    proof {
        lemma_find_mode(modes@, mode@, 0);
    }
    if i >= modes.len() {
        return Err(RunError::UnknownMode { mode });
    }
    assert(find_mode(modes@, mode@, 0) == Some(i as int));
    let (_, selected) = modes.remove(i);
    let mut base = build;
    match selected {
        ModeConfiguration::Copy { destination, branch, build, include_files, prune } => {
            base.merge(build);
            Ok(Plan::Copy { build: base, destination, branch, include_files, prune })
        },
        ModeConfiguration::Upload {
            authentication,
            branch,
            build,
            hostname,
            include_files,
            ssl,
            port,
            prefix,
            http_timeout,
        } => {
            let url = upload_url(ssl, hostname.as_str(), port, &prefix);
            base.merge(build);
            Ok(Plan::Upload { build: base, authentication, branch, include_files, url, http_timeout })
        },
    }
}

} // verus!
