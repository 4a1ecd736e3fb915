use cargo_screeps::config::{
    default_branch, default_hostname, default_include_files, default_port, default_prune,
    default_ssl, Authentication, BuildConfiguration, BuildMode, BuildProfile, Configuration,
    ModeConfiguration,
};
use cargo_screeps::run::{run, CliConfig, Command, Plan, RunError};

fn base() -> BuildConfiguration {
    BuildConfiguration {
        build_mode: Some(BuildMode::World),
        build_profile: Some(BuildProfile::Release),
        out_name: Some("bot".to_string()),
        extra_options: vec!["--features".to_string(), "a".to_string()],
        path: None,
        prelude_file: None,
    }
}

fn full() -> BuildConfiguration {
    BuildConfiguration {
        build_mode: Some(BuildMode::Arena),
        build_profile: Some(BuildProfile::Dev),
        out_name: Some("arena_bot".to_string()),
        extra_options: vec!["--no-default-features".to_string()],
        path: Some("crates/bot".to_string()),
        prelude_file: Some("prelude.js".to_string()),
    }
}

#[test]
fn merge_with_nothing_keeps_base() {
    let mut merged = base();
    merged.merge(BuildConfiguration::default());
    assert_eq!(merged, base());
}

#[test]
fn merge_with_everything_takes_override() {
    let mut merged = base();
    merged.merge(full());
    assert_eq!(merged, full());
}

#[test]
fn merge_twice_is_merge_once() {
    let over = BuildConfiguration {
        build_profile: Some(BuildProfile::Profiling),
        path: Some("sub".to_string()),
        ..BuildConfiguration::unset()
    };
    let mut once = base();
    once.merge(over.clone());
    let mut twice = once.clone();
    twice.merge(over);
    assert_eq!(once, twice);
    assert_eq!(once.build_profile, Some(BuildProfile::Profiling));
    assert_eq!(once.path, Some("sub".to_string()));
    assert_eq!(once.out_name, Some("bot".to_string()));
    assert_eq!(once.extra_options, base().extra_options);
}

#[test]
fn merge_replaces_flag_list_whole() {
    let mut merged = base();
    merged.merge(BuildConfiguration { extra_options: vec!["x".to_string()], ..BuildConfiguration::unset() });
    assert_eq!(merged.extra_options, vec!["x".to_string()]);
}

#[test]
fn profile_flags_select_one() {
    let mut c = BuildConfiguration::unset();
    assert_eq!(c.profile_flags(), (false, false, true));
    c.build_profile = Some(BuildProfile::Dev);
    assert_eq!(c.profile_flags(), (true, false, false));
    c.build_profile = Some(BuildProfile::Profiling);
    assert_eq!(c.profile_flags(), (false, true, false));
    c.build_profile = Some(BuildProfile::Release);
    assert_eq!(c.profile_flags(), (false, false, true));
}

#[test]
fn defaults() {
    assert_eq!(default_include_files(), vec!["pkg".to_string(), "javascript".to_string()]);
    assert_eq!(default_branch(), "default");
    assert_eq!(default_hostname(), "screeps.com");
    assert!(!default_prune());
    assert!(default_ssl());
    assert_eq!(default_port(), 443);
}

fn copy_mode() -> ModeConfiguration {
    ModeConfiguration::Copy {
        destination: "../deploy".to_string(),
        branch: "sim".to_string(),
        build: BuildConfiguration { build_profile: Some(BuildProfile::Dev), ..BuildConfiguration::unset() },
        include_files: default_include_files(),
        prune: true,
    }
}

fn upload_mode(prefix: Option<String>, ssl: bool, port: u16) -> ModeConfiguration {
    ModeConfiguration::Upload {
        authentication: Authentication::Token { auth_token: "SECRET-REDACTED".to_string() },
        branch: "default".to_string(),
        build: BuildConfiguration::unset(),
        hostname: "screeps.com".to_string(),
        include_files: default_include_files(),
        ssl,
        port,
        prefix,
        http_timeout: Some(30),
    }
}

fn configuration(default_mode: Option<&str>) -> Configuration {
    Configuration {
        default_deploy_mode: default_mode.map(|s| s.to_string()),
        build: base(),
        modes: vec![
            ("copy".to_string(), copy_mode()),
            ("upload".to_string(), upload_mode(None, true, 443)),
            ("season".to_string(), upload_mode(Some("season".to_string()), false, 21025)),
        ],
    }
}

fn cli(command: Command, mode: Option<&str>) -> CliConfig {
    CliConfig { command, config_path: None, deploy_mode: mode.map(|s| s.to_string()) }
}

#[test]
fn run_build_uses_default_settings() {
    let r = run(cli(Command::Build, Some("copy")), configuration(None));
    assert_eq!(r, Ok(Plan::Build { build: base() }));
}

#[test]
fn run_copy_mode_with_prune() {
    let r = run(cli(Command::Deploy, None), configuration(Some("copy")));
    let mut build = base();
    build.build_profile = Some(BuildProfile::Dev);
    assert_eq!(
        r,
        Ok(Plan::Copy {
            build,
            destination: "../deploy".to_string(),
            branch: "sim".to_string(),
            include_files: default_include_files(),
            prune: true,
        })
    );
}

#[test]
fn run_upload_composes_url() {
    match run(cli(Command::Deploy, Some("upload")), configuration(Some("copy"))) {
        Ok(Plan::Upload { url, build, http_timeout, .. }) => {
            assert_eq!(url, "https://screeps.com:443/api/user/code");
            assert_eq!(build, base());
            assert_eq!(http_timeout, Some(30));
        }
        other => panic!("unexpected {:?}", other),
    }
}

#[test]
fn run_upload_with_prefix_and_plain_http() {
    match run(cli(Command::Deploy, Some("season")), configuration(None)) {
        Ok(Plan::Upload { url, .. }) => assert_eq!(url, "http://screeps.com:21025/season/api/user/code"),
        other => panic!("unexpected {:?}", other),
    }
}

#[test]
fn run_without_mode_fails() {
    assert_eq!(run(cli(Command::Deploy, None), configuration(None)), Err(RunError::NoDeployMode));
}

#[test]
fn run_with_unknown_mode_fails() {
    assert_eq!(
        run(cli(Command::Deploy, Some("ptr")), configuration(Some("copy"))),
        Err(RunError::UnknownMode { mode: "ptr".to_string() })
    );
}

#[test]
fn distinct_mode_names() {
    assert!(configuration(None).modes_distinct());
    let mut twice = configuration(None);
    twice.modes.push(("copy".to_string(), copy_mode()));
    assert!(!twice.modes_distinct());
}
