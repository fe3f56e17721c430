use tollgate::config_model::{CachePolicy, ConfigError, EffectiveCommand, EffectiveConfig};
use tollgate::config_rules::{normalize_relative, parse_duration, validate_name};

#[test]
fn parses_minimal_configuration_and_expands_defaults() {
    let config =
        EffectiveConfig::parse("version = 1\n[[step]]\nname = \"ci\"\nrun = \"./ci\"\n").unwrap();
    assert_eq!(config.runner, ["/bin/sh", "-c"]);
    assert_eq!(config.steps[0].timeout_ns, 60 * 60 * 1_000_000_000);
    assert_eq!(config.steps[0].working_directory, ".");
    assert_eq!(config.digest.len(), 64);
}

#[test]
fn declaration_order_is_an_implicit_chain() {
    let config = EffectiveConfig::parse("version = 1\n[[step]]\nname = \"build\"\nrun = \"build\"\n[[step]]\nname = \"test\"\nrun = \"test\"\n").unwrap();
    assert_eq!(config.steps[1].needs, ["build"]);
}

#[test]
fn unknown_fields_and_cycles_are_rejected() {
    assert!(EffectiveConfig::parse(
        "version = 1\nwat = true\n[[step]]\nname = \"ci\"\nrun = \"ci\"\n"
    )
    .is_err());
    assert!(EffectiveConfig::parse("version = 1\n[[step]]\nname = \"a\"\nrun = \"a\"\nneeds = [\"b\"]\n[[step]]\nname = \"b\"\nrun = \"b\"\nneeds = [\"a\"]\n").is_err());
}

#[test]
fn canonical_digest_is_stable_across_map_order() {
    let a = EffectiveConfig::parse("version = 1\n[[step]]\nname = \"ci\"\nrun = \"ci\"\n[step.environment]\nB = \"2\"\nA = \"1\"\n").unwrap();
    let b = EffectiveConfig::parse("version = 1\n[[step]]\nname = \"ci\"\nrun = \"ci\"\n[step.environment]\nA = \"1\"\nB = \"2\"\n").unwrap();
    assert_eq!(a.digest, b.digest);
}

#[test]
fn artifact_names_are_unique_and_retention_is_nonzero() {
    assert!(EffectiveConfig::parse("version = 1\n[[step]]\nname = \"ci\"\nrun = \"ci\"\n[[step.artifact]]\nname = \"report\"\npatterns = [\"out\"]\n[[step.artifact]]\nname = \"report\"\npatterns = [\"other\"]\n").is_err());
    assert!(EffectiveConfig::parse("version = 1\n[[step]]\nname = \"ci\"\nrun = \"ci\"\n[[step.artifact]]\nname = \"report\"\npatterns = [\"out\"]\nretention_days = 0\n").is_err());
}

fn minimal() -> EffectiveConfig {
    EffectiveConfig::parse("version = 1\n[[step]]\nname = \"ci\"\nrun = \"./ci\"\n").unwrap()
}

#[test]
fn canonical_notation_is_compact_json_in_declaration_order() {
    let bytes = minimal().canonical_bytes().unwrap();
    let text = String::from_utf8(bytes).unwrap();
    assert_eq!(
        text,
        "{\"version\":1,\"runner\":[\"/bin/sh\",\"-c\"],\"allow_no_job\":false,\
\"allow_concurrent_roots\":false,\"steps\":[{\"name\":\"ci\",\"command\":{\"kind\":\"shell\",\
\"script\":\"./ci\"},\"working_directory\":\".\",\"needs\":[],\"soft_needs\":[],\"voting\":true,\
\"final_step\":false,\"timeout_ns\":3600000000000,\"cpu_tokens\":0,\"memory_bytes\":0,\
\"rss_limit_bytes\":null,\"semaphores\":[],\"include\":[],\"exclude\":[],\"environment\":{},\
\"remove_environment\":[],\"artifacts\":[]}],\"resources\":{\"max_buildsets\":4,\"cpu_tokens\":0,\
\"memory_bytes\":0,\"repository_concurrency\":2,\"scheduler_weight\":1,\
\"volume_warning_bytes\":16106127360,\"volume_critical_bytes\":10737418240,\
\"volume_emergency_bytes\":536870912},\"remote\":{\"enabled\":false,\"name\":\"origin\",\
\"branch\":\"master\"},\"cache\":{\"epoch\":0,\"paths\":[]}}"
    );
    let digest = blake3::hash(text.as_bytes()).to_hex().to_string();
    assert_eq!(minimal().digest, digest);
}

#[test]
fn stored_configurations_are_restored() {
    let source = "version = 1\nrunner = [\"/bin/bash\", \"-lc\"]\nsync_user_master = false\n\
[[step]]\nname = \"lint\"\nargv = [\"cargo\", \"clippy\", \"--\\\"quoted\\\"\"]\ntimeout = \"90s\"\n\
semaphores = [\"b\", \"a\"]\ninclude = [\"src/**\"]\nexclude = [\"*.md\"]\nrss_limit_bytes = 2097152\n\
[step.environment]\nLANG = \"C\"\n[[step.artifact]]\nname = \"report\"\npatterns = [\"out/*\"]\n\
[cache]\nepoch = 3\n[[cache.paths]]\npath = \"./target/\"\npolicy = \"preserve\"\n";
    let config = EffectiveConfig::parse(source).unwrap();
    assert_eq!(config.steps[0].semaphores, ["a", "b"]);
    assert_eq!(config.cache.paths[0].path, "target");
    assert_eq!(config.cache.paths[0].policy, CachePolicy::Preserve);
    assert!(!config.sync_user_master);
    let bytes = config.canonical_bytes().unwrap();
    let restored = EffectiveConfig::restore_canonical(
        &bytes,
        config.digest.clone(),
        config.step_graph_digest.clone(),
    )
    .unwrap();
    assert_eq!(restored, config);
    assert!(matches!(
        EffectiveConfig::restore_canonical(b"{", String::new(), String::new()),
        Err(ConfigError::Canonicalization(_))
    ));
    assert!(matches!(
        EffectiveConfig::restore_canonical(b"{\"version\":1}", String::new(), String::new()),
        Err(ConfigError::Canonicalization(_))
    ));
}

#[test]
fn master_follows_promotions_unless_the_configuration_opts_out() {
    assert!(minimal().sync_user_master);
    let opted_out = EffectiveConfig::parse(
        "version = 1\nsync_user_master = false\n[[step]]\nname = \"ci\"\nrun = \"./ci\"\n",
    )
    .unwrap();
    assert!(!opted_out.sync_user_master);
    assert_ne!(opted_out.digest, minimal().digest);
    assert_eq!(opted_out.step_graph_digest, minimal().step_graph_digest);
}

fn refused(source: &str) -> String {
    EffectiveConfig::parse(source).unwrap_err().message()
}

#[test]
fn every_refusal_says_what_is_wrong() {
    assert!(matches!(
        EffectiveConfig::parse("version ="),
        Err(ConfigError::Parse(_))
    ));
    assert!(matches!(
        EffectiveConfig::parse("version = \"1\""),
        Err(ConfigError::Parse(_))
    ));
    assert_eq!(
        EffectiveConfig::parse("version = \"1\"").unwrap_err(),
        ConfigError::Parse("missing or malformed field `version`".into())
    );
    assert_eq!(
        EffectiveConfig::parse("version = 1\nspeed = 3\n").unwrap_err(),
        ConfigError::Parse("unknown field `speed`".into())
    );
    assert_eq!(
        EffectiveConfig::parse("version = 1\n[remote]\nenabled = 3\n").unwrap_err(),
        ConfigError::Parse("missing or malformed field `remote`".into())
    );
    assert_eq!(
        refused("version = 2"),
        "unsupported configuration version 2; expected version 1"
    );
    assert_eq!(
        refused("version = 1"),
        "invalid configuration: at least one step is required unless allow_no_job is true"
    );
    assert_eq!(
        refused("version = 1\nrunner = []\nallow_no_job = true"),
        "invalid configuration: runner must contain nonempty NUL-free arguments"
    );
    let step = |extra: &str| format!("version = 1\n[[step]]\nname = \"a\"\nrun = \"a\"\n{extra}");
    assert_eq!(
        refused("version = 1\n[[step]]\nname = \"-a\"\nrun = \"a\""),
        "invalid step `-a`: name must match [A-Za-z0-9][A-Za-z0-9._-]{0,63}"
    );
    assert_eq!(
        refused(&step("argv = [\"a\"]")),
        "invalid step `a`: exactly one nonempty `run` or `argv` is required"
    );
    assert_eq!(
        refused(&step("timeout = \"8d\"")),
        "invalid step `a`: timeout must be between one second and seven days"
    );
    assert_eq!(
        refused(&step("timeout = \"8\"")),
        "invalid step `a`: duration needs a unit (s, m, h, or d)"
    );
    assert_eq!(
        refused(&step("needs = [\"b\"]\nsoft_needs = [\"b\"]")),
        "invalid step `a`: dependency `b` occurs in both needs and soft_needs"
    );
    assert_eq!(
        refused(&step("needs = [\"b\"]")),
        "invalid step `a`: unknown dependency `b`"
    );
    assert_eq!(
        refused(&step("needs = [\"a\"]")),
        "invalid step `a`: a step cannot depend on itself"
    );
    assert_eq!(
        refused(&step("needs = [\"b\"]\n[[step]]\nname = \"b\"\nrun = \"b\"\nfinal = true")),
        "invalid step `a`: a non-final step cannot depend on a final step"
    );
    assert_eq!(
        refused(&step("needs = [\"b\"]\n[[step]]\nname = \"b\"\nrun = \"b\"\nneeds = [\"a\"]")),
        "invalid configuration: step dependency graph contains a cycle"
    );
    assert_eq!(
        refused(&step("[[step]]\nname = \"a\"\nrun = \"b\"\nsoft_needs = []")),
        "invalid step `a`: a step cannot depend on itself"
    );
    assert_eq!(
        refused(&step("voting = false")),
        "invalid configuration: a gate configuration requires at least one voting step"
    );
    assert_eq!(
        refused(&step("remove_environment = [\"1X\"]")),
        "invalid step `a`: invalid environment variable name `1X`"
    );
    assert_eq!(
        refused(&step("remove_environment = [\"X\", \"X\"]")),
        "invalid step `a`: environment variable `X` is removed more than once"
    );
    assert_eq!(
        refused(&step("remove_environment = [\"X\"]\nenvironment = { X = \"1\" }")),
        "invalid step `a`: environment variable `X` is both added and removed"
    );
    assert_eq!(
        refused(&step("include = [\"../x\"]")),
        "matcher pattern `../x` is invalid: patterns must be repository-relative `/`-separated paths"
    );
    assert!(refused(&step("exclude = [\"[\"]")).starts_with("matcher pattern `[` is invalid: "));
    assert_eq!(
        refused(&step("working_directory = \"/x\"")),
        "invalid configuration: path `/x` must be relative"
    );
    assert_eq!(
        refused(&step("working_directory = \"a/../b\"")),
        "invalid configuration: path `a/../b` contains parent or platform components"
    );
    assert_eq!(
        refused(&step("semaphores = [\"x\", \"x\"]")),
        "invalid configuration: set-like arrays may not contain duplicates"
    );
    assert_eq!(
        refused(&step("cpu_tokens = 1")),
        "invalid step `a`: CPU reservation requires and must fit the configured CPU pool"
    );
    assert_eq!(
        refused(&step("memory_bytes = 1")),
        "invalid step `a`: memory reservation requires and must fit the configured memory pool"
    );
    assert_eq!(
        refused(&step("rss_limit_bytes = 1")),
        "invalid step `a`: rss_limit_bytes must be at least 1 MiB when configured"
    );
    assert_eq!(
        refused(&step("[resources]\nmax_buildsets = 65")),
        "invalid configuration: max_buildsets must be between 1 and 64"
    );
    assert_eq!(
        refused(&step("[resources]\nmax_buildsets = 1")),
        "invalid configuration: repository_concurrency must be between 1 and max_buildsets"
    );
    assert_eq!(
        refused(&step("[resources]\nscheduler_weight = 101")),
        "invalid configuration: scheduler_weight must be between 1 and 100"
    );
    assert_eq!(
        refused(&step("[resources]\nvolume_critical_bytes = 1")),
        "invalid configuration: volume thresholds require warning > critical >= 1 GiB and 0 < emergency <= critical"
    );
    assert_eq!(
        refused(&step("[[cache.paths]]\npath = \"..\"")),
        "invalid configuration: path `..` contains parent or platform components"
    );
    assert_eq!(
        refused(&step("[[step.artifact]]\nname = \"r\"\npatterns = []")),
        "invalid step `a`: artifact `r` needs at least one pattern"
    );
    assert_eq!(
        refused(&step("[[step.artifact]]\nname = \"!\"\npatterns = [\"x\"]")),
        "invalid step `a`: artifact `!`: name must match [A-Za-z0-9][A-Za-z0-9._-]{0,63}"
    );
}

#[test]
fn path_filters_select_the_steps_that_apply() {
    let config = EffectiveConfig::parse(
        "version = 1\n[[step]]\nname = \"rust\"\nrun = \"a\"\ninclude = [\"src/**\"]\n\
exclude = [\"src/*.md\"]\n[[step]]\nname = \"all\"\nrun = \"b\"\n",
    )
    .unwrap();
    let names = |paths: &[&str]| {
        let paths = paths.iter().map(|p| p.to_string()).collect::<Vec<_>>();
        config
            .applicable_steps(&paths)
            .unwrap()
            .iter()
            .map(|step| step.name.clone())
            .collect::<Vec<_>>()
    };
    assert_eq!(names(&["src/deep/lib.rs"]), ["rust", "all"]);
    assert_eq!(names(&["docs/a.md"]), ["all"]);
    assert_eq!(names(&["src/lib.rs", "src/a.md"]), ["all"]);
    // a single star stops at slashes
    assert_eq!(names(&["src/lib.rs", "src/deep/a.md"]), ["rust", "all"]);
    assert_eq!(names(&[]), ["all"]);
    let mut broken = config.clone();
    broken.steps[0].includes = vec!["/abs".to_string()];
    assert!(matches!(
        broken.applicable_steps(&[]),
        Err(ConfigError::InvalidMatcher { .. })
    ));
}

#[test]
fn durations_are_digits_and_a_unit() {
    assert_eq!(parse_duration("1s"), Ok(1_000_000_000));
    assert_eq!(parse_duration("2m"), Ok(120_000_000_000));
    assert_eq!(parse_duration("1h"), Ok(3_600_000_000_000));
    assert_eq!(parse_duration("7d"), Ok(604_800_000_000_000));
    assert_eq!(parse_duration("s"), Err("duration value is invalid".to_string()));
    assert_eq!(
        parse_duration("99999999999999999999s"),
        Err("duration value is invalid".to_string())
    );
    assert_eq!(
        parse_duration("5x"),
        Err("duration unit must be s, m, h, or d".to_string())
    );
    assert_eq!(
        parse_duration("18446744073709551615s"),
        Err("duration overflows".to_string())
    );
}

#[test]
fn paths_are_brought_into_plain_form() {
    assert_eq!(normalize_relative("./a//b/./c/").unwrap(), "a/b/c");
    assert_eq!(normalize_relative("").unwrap(), ".");
    assert_eq!(normalize_relative("./.").unwrap(), ".");
    assert!(normalize_relative("/a").is_err());
    assert!(normalize_relative("a/..").is_err());
}

#[test]
fn names_have_a_fixed_form() {
    assert!(validate_name("a").is_ok());
    assert!(validate_name(&"a".repeat(64)).is_ok());
    assert!(validate_name(&"a".repeat(65)).is_err());
    assert!(validate_name("").is_err());
    assert!(validate_name("a b").is_err());
    assert!(validate_name("\u{e9}").is_err());
}

#[test]
fn commands_are_scripts_or_arguments() {
    let config = EffectiveConfig::parse(
        "version = 1\n[[step]]\nname = \"a\"\nargv = [\"x\", \"\"]\n",
    )
    .unwrap();
    assert_eq!(
        config.steps[0].command,
        EffectiveCommand::Argv {
            argv: vec!["x".to_string(), String::new()]
        }
    );
}

#[test]
fn sections_may_be_written_as_lists() {
    let config = EffectiveConfig::parse(
        "version = 1\nremote = [true, \"upstream\"]\ncache = [3, [[\"target\", \"shared\"], [\"node_modules\"]]]\n[[step]]\nname = \"ci\"\nrun = \"ci\"\nartifact = [[\"log\", [\"*.log\"], true, 7, \"ignored\"]]\n",
    )
    .unwrap();
    assert!(config.remote.enabled);
    assert_eq!(config.remote.name, "upstream");
    assert_eq!(config.remote.branch, "master");
    assert_eq!(config.cache.epoch, 3);
    assert_eq!(config.cache.paths[0].policy, CachePolicy::Shared);
    assert_eq!(config.cache.paths[1].policy, CachePolicy::Clone);
    assert_eq!(config.steps[0].artifacts[0].retention_days, 7);
    assert!(EffectiveConfig::parse("version = 1\ncache = [3, [[]]]\n").is_err());

    let stored = "[1,[\"/bin/sh\",\"-c\"],true,false,[],[1,2,3,4,5,6,7,8],[false,\"origin\",\"master\"],[0,[[\"target\",\"clone\"]]]]";
    let restored =
        EffectiveConfig::restore_canonical(stored.as_bytes(), "d".into(), "g".into()).unwrap();
    assert_eq!(restored.version, 1);
    assert!(restored.allow_no_job && restored.sync_user_master);
    assert_eq!(restored.resources.volume_emergency_bytes, 8);
    assert_eq!(restored.cache.paths[0].path, "target");
    let longer = "[1,[],true,false,[],[1,2,3,4,5,6,7,8,9],[false,\"origin\",\"master\"],[0,[]]]";
    assert!(matches!(
        EffectiveConfig::restore_canonical(longer.as_bytes(), "d".into(), "g".into()),
        Err(ConfigError::Canonicalization(_))
    ));
}

#[test]
fn a_policy_may_be_written_as_a_table() {
    let with = |policy: &str| {
        EffectiveConfig::parse(&format!(
            "version = 1\n[[step]]\nname = \"ci\"\nrun = \"ci\"\n[[cache.paths]]\npath = \"target\"\npolicy = {policy}\n"
        ))
    };
    assert_eq!(
        with("{ shared = {} }").unwrap().cache.paths[0].policy,
        CachePolicy::Shared
    );
    assert_eq!(
        with("{ preserve = [] }").unwrap().cache.paths[0].policy,
        CachePolicy::Preserve
    );
    for refused in ["{}", "{ shared = {}, clone = {} }", "{ shared = 1 }", "{ lost = {} }", "3"] {
        assert_eq!(
            with(refused).unwrap_err(),
            ConfigError::Parse("missing or malformed field `cache`".into())
        );
    }
}
